//! The parser: tokens to declarations. Equations are collected and lowered.
use vstd::prelude::*;

use crate::ast::{
    Decl, DeclModel, Expr, List, Literal, Op, Pat, Pattern, Term, Ty, Type, alts_model, exprs_model,
    lemma_alts_model, lemma_exprs_model, lemma_exprs_model_push, lemma_patterns_model,
    lemma_types_model, list_model, patterns_model, types_model,
};
use crate::lexer::{Sym, Tok, TokModel, Token, tokenize, tokens_of};
use crate::grammar::{
    PARSE_DEPTH, aexpr_spec, alts_spec, app_rest_spec, app_spec, apat_spec, btype_spec, err_at,
    expect_spec, expr_list_spec, expr_node_spec, expr_spec, group_end, lambda_spec, literal_spec,
    node_spec, nodes_from, nodes_spec, op_at_spec, op_rest_spec, op_spec, pattern_list_spec,
    pattern_spec, range_rest_spec, scan_apats, starts_aexpr_spec, sym_is, too_deep, type_list_spec,
    type_spec,
};
use crate::ast::names_model;
use crate::tyenv::names_contain;
use crate::lower::{ParseErr, ParsingError, equations_model, lower_equations, lower_spec};

verus! {

/// A top-level item as written: one equation of a function is one node.
pub enum AstNode {
    TypeAlias(String, Type),
    TypeSignature(String, Type),
    Decl(String, Vec<Pattern>, Expr),
    SExpr(Expr),
}

/// Mathematical model of a top-level item.
pub enum NodeModel {
    TypeAlias(Seq<char>, Ty),
    TypeSignature(Seq<char>, Ty),
    Equation(Seq<char>, Seq<Pat>, Term),
    SExpr(Term),
}

impl View for AstNode {
    type V = NodeModel;

    open spec fn view(&self) -> NodeModel {
        match self {
            AstNode::TypeAlias(n, t) => NodeModel::TypeAlias(n@, t@),
            AstNode::TypeSignature(n, t) => NodeModel::TypeSignature(n@, t@),
            AstNode::Decl(n, ps, e) => NodeModel::Equation(n@, patterns_model(ps@), e@),
            AstNode::SExpr(e) => NodeModel::SExpr(e@),
        }
    }
}

/// The equations gathered so far for one function.
pub type Group = Option<(Seq<char>, Seq<(Seq<Pat>, Term)>)>;

/// The declarations so far, with a pending group of equations lowered.
pub open spec fn flush(group: Group, out: Seq<DeclModel>) -> Result<Seq<DeclModel>, ParseErr> {
    match group {
        Option::None => Ok(out),
        Option::Some((f, eqs)) => match lower_spec(f, eqs) {
            Ok(d) => Ok(out.push(d)),
            Err(e) => Err(e),
        },
    }
}

/// Declarations from top-level items: consecutive equations of one name
/// form one function and are lowered together; a name defined again after
/// other items is a duplicate definition.
pub open spec fn build_spec(
    ns: Seq<NodeModel>,
    group: Group,
    done: Seq<Seq<char>>,
    out: Seq<DeclModel>,
) -> Result<Seq<DeclModel>, ParseErr>
    decreases ns.len(),
{
    if ns.len() == 0 {
        flush(group, out)
    } else {
        match ns[0] {
            NodeModel::Equation(f, ps, e) => match group {
                Option::Some((g, eqs)) if g == f => build_spec(
                    ns.skip(1),
                    Option::Some((f, eqs.push((ps, e)))),
                    done,
                    out,
                ),
                _ => match flush(group, out) {
                    Ok(out2) => if closed(group, done).contains(f) {
                        Err(ParseErr::MultipleDefinitions(f))
                    } else {
                        build_spec(ns.skip(1), Option::Some((f, seq![(ps, e)])), closed(group, done), out2)
                    },
                    Err(er) => Err(er),
                },
            },
            other => match flush(group, out) {
                Ok(out2) => build_spec(
                    ns.skip(1),
                    Option::None,
                    closed(group, done),
                    out2.push(
                        match other {
                            NodeModel::TypeAlias(n, t) => DeclModel::TypeAlias(n, t),
                            NodeModel::TypeSignature(n, t) => DeclModel::TypeSignature(n, t),
                            NodeModel::SExpr(e) => DeclModel::SExpr(e),
                            NodeModel::Equation(_, _, e) => DeclModel::SExpr(e),
                        },
                    ),
                ),
                Err(er) => Err(er),
            },
        }
    }
}

/// The names of the functions already defined, with the pending group's.
pub open spec fn closed(group: Group, done: Seq<Seq<char>>) -> Seq<Seq<char>> {
    match group {
        Option::Some((g, _)) => done.push(g),
        Option::None => done,
    }
}

pub open spec fn nodes_model(ns: Seq<AstNode>) -> Seq<NodeModel> {
    ns.map_values(|n: AstNode| n@)
}

pub open spec fn decls_result(r: Result<Vec<Decl>, ParsingError>) -> Result<Seq<DeclModel>, ParseErr> {
    match r {
        Ok(ds) => Ok(ds@.map_values(|d: Decl| d@)),
        Err(e) => Err(e@),
    }
}

fn flush_group(
    group: Option<(String, Vec<(Vec<Pattern>, Expr)>)>,
    out: &mut Vec<Decl>,
) -> (r: Result<(), ParsingError>)
    ensures
        match (r, flush(
            match group {
                Option::Some((f, eqs)) => Option::Some((f@, equations_model(eqs@))),
                Option::None => Option::None,
            },
            old(out)@.map_values(|d: Decl| d@),
        )) {
            (Ok(_), Ok(o)) => final(out)@.map_values(|d: Decl| d@) == o,
            (Err(a), Err(b)) => a@ == b,
            _ => false,
        },
{
    match group {
        None => Ok(()),
        Some((f, eqs)) => match lower_equations(f, &eqs) {
            Ok(d) => {
                let ghost before = out@;
                out.push(d);
                proof {
                    assert(out@.map_values(|d: Decl| d@) =~= before.map_values(|d: Decl| d@).push(d@));
                }
                Ok(())
            },
            Err(e) => Err(e),
        },
    }
}

fn close_group(group: &Option<(String, Vec<(Vec<Pattern>, Expr)>)>, done: &mut Vec<String>)
    ensures
        names_model(final(done)@) == closed(group_model(*group), names_model(old(done)@)),
{
    if let Some((g, _)) = group {
        let ghost before = done@;
        done.push(g.clone());
        proof {
            assert(names_model(done@) =~= names_model(before).push(g@));
        }
    } else {
        proof {
            assert(names_model(done@) == closed(group_model(*group), names_model(done@)));
        }
    }
}

pub open spec fn group_model(g: Option<(String, Vec<(Vec<Pattern>, Expr)>)>) -> Group {
    match g {
        Option::Some((f, eqs)) => Option::Some((f@, equations_model(eqs@))),
        Option::None => Option::None,
    }
}

/// Builds declarations from top-level items: consecutive equations of one
/// function are lowered together.
pub fn build_ast(nodes: &Vec<AstNode>) -> (r: Result<Vec<Decl>, ParsingError>)
    ensures
        decls_result(r) == build_spec(nodes_model(nodes@), Option::None, Seq::empty(), Seq::empty()),
{
    let ghost all = nodes_model(nodes@);
    let ghost whole = build_spec(all, Option::None, Seq::empty(), Seq::empty());
    let mut done: Vec<String> = Vec::new();
    let mut out: Vec<Decl> = Vec::new();
    let mut group: Option<(String, Vec<(Vec<Pattern>, Expr)>)> = None;
    proof {
        assert(out@.map_values(|d: Decl| d@) =~= Seq::<DeclModel>::empty());
        assert(names_model(done@) =~= Seq::<Seq<char>>::empty());
        assert(all.skip(0) =~= all);
    }
    let mut i: usize = 0;
    while i < nodes.len()
        invariant
            i <= nodes.len(),
            all == nodes_model(nodes@),
            whole == build_spec(all, Option::None, Seq::empty(), Seq::empty()),
            whole == build_spec(
                all.skip(i as int),
                group_model(group),
                names_model(done@),
                out@.map_values(|d: Decl| d@),
            ),
        decreases nodes.len() - i,
    {
        proof {
            assert(all.skip(i as int)[0] == all[i as int]);
            assert(all.skip(i as int).skip(1) =~= all.skip(i + 1));
            assert(all.skip(i as int).len() > 0);
        }
        match &nodes[i] {
            AstNode::Decl(f, ps, e) => {
                let same = match &group {
                    Some((g, _)) => *g == *f,
                    None => false,
                };
                let eq = (crate::ast::clone_patterns(ps), e.clone());
                if same {
                    match group {
                        Some((g, mut eqs)) => {
                            let ghost before = eqs@;
                            eqs.push(eq);
                            proof {
                                assert(equations_model(eqs@) =~= equations_model(before).push((all[i as int]->Equation_1, all[i as int]->Equation_2)));
                            }
                            group = Some((g, eqs));
                        },
                        None => {
                            return Err(ParsingError::GrammarError);
                        },
                    }
                } else {
                    close_group(&group, &mut done);
                    match flush_group(group, &mut out) {
                        Ok(()) => {},
                        Err(er) => {
                            return Err(er);
                        },
                    }
                    if names_contain(&done, f) {
                        return Err(ParsingError::MultipleDefinitions(f.clone()));
                    }
                    let eqs = vec![eq];
                    proof {
                        assert(equations_model(eqs@) =~= seq![(all[i as int]->Equation_1, all[i as int]->Equation_2)]);
                    }
                    group = Some((f.clone(), eqs));
                }
            },
            other => {
                close_group(&group, &mut done);
                match flush_group(group, &mut out) {
                    Ok(()) => {},
                    Err(er) => {
                        return Err(er);
                    },
                }
                group = None;
                let d = match other {
                    AstNode::TypeAlias(n, t) => Decl::TypeAlias(n.clone(), t.clone()),
                    AstNode::TypeSignature(n, t) => Decl::TypeSignature(n.clone(), t.clone()),
                    AstNode::SExpr(e) => Decl::SExpr(e.clone()),
                    AstNode::Decl(_, _, e) => Decl::SExpr(e.clone()),
                };
                let ghost before = out@;
                out.push(d);
                proof {
                    assert(out@.map_values(|d: Decl| d@) =~= before.map_values(|d: Decl| d@).push(d@));
                }
            },
        }
        i = i + 1;
    }
    proof {
        assert(all.skip(i as int).len() == 0);
    }
    match flush_group(group, &mut out) {
        Ok(()) => Ok(out),
        Err(er) => Err(er),
    }
}


/// Whether two strings hold the same characters.
fn same_text(s: &str, w: &str) -> (r: bool)
    ensures
        r == (s@ == w@),
{
    let n = s.unicode_len();
    if n != w.unicode_len() {
        return false;
    }
    let mut i: usize = 0;
    while i < n
        invariant
            i <= n,
            n == s@.len(),
            n == w@.len(),
            forall|j: int| 0 <= j < i ==> s@[j] == w@[j],
        decreases n - i,
    {
        if s.get_char(i) != w.get_char(i) {
            return false;
        }
        i = i + 1;
    }
    proof {
        assert(s@ =~= w@);
    }
    true
}

/// The type a name stands for in a signature: the built-in types (with
/// `Integer` an alias of `Int`), and otherwise a type variable.
pub open spec fn named_type_spec(n: Seq<char>) -> Ty {
    if n == "Int"@ || n == "Integer"@ {
        Ty::Int
    } else if n == "Bool"@ {
        Ty::Bool
    } else if n == "Char"@ {
        Ty::Char
    } else if n == "String"@ {
        Ty::Str
    } else {
        Ty::Var(n)
    }
}

/// The type a name stands for in a signature.
pub fn named_type(name: &String) -> (r: Type)
    ensures
        r@ == named_type_spec(name@),
{
    let s = name.as_str();
    if same_text(s, "Int") || same_text(s, "Integer") {
        Type::Int
    } else if same_text(s, "Bool") {
        Type::Bool
    } else if same_text(s, "Char") {
        Type::Char
    } else if same_text(s, "String") {
        Type::String
    } else {
        Type::TypeVariable(name.clone())
    }
}

/// The binding level of an operator: `||` 0, `&&` 1, comparisons 2, `:`
/// and `++` 3, `+` and `-` 4, `*`, `/` and `mod` 5.
pub open spec fn op_level(op: Op) -> nat {
    match op {
        Op::Or => 0,
        Op::And => 1,
        Op::Eq | Op::Neq | Op::Lt | Op::Gt | Op::Le | Op::Ge => 2,
        Op::Cons | Op::Append => 3,
        Op::Add | Op::Sub => 4,
        _ => 5,
    }
}

fn level_of(op: Op) -> (r: u64)
    ensures
        r == op_level(op),
{
    match op {
        Op::Or => 0,
        Op::And => 1,
        Op::Eq | Op::Neq | Op::Lt | Op::Gt | Op::Le | Op::Ge => 2,
        Op::Cons | Op::Append => 3,
        Op::Add | Op::Sub => 4,
        _ => 5,
    }
}

pub open spec fn toks_model(ts: Seq<Tok>) -> Seq<TokModel> {
    ts.map_values(|t: Tok| t@)
}

proof fn lemma_toks_model(ts: Seq<Tok>)
    ensures
        toks_model(ts).len() == ts.len(),
        forall|i: int| 0 <= i < ts.len() ==> #[trigger] toks_model(ts)[i] == ts[i]@,
{
}

pub open spec fn ty_res(r: Result<(Type, usize), ParsingError>) -> Result<(Ty, nat), ParseErr> {
    match r {
        Ok((t, p)) => Ok((t@, p as nat)),
        Err(e) => Err(e@),
    }
}

pub open spec fn tys_res(r: Result<(Vec<Type>, usize), ParsingError>) -> Result<(Seq<Ty>, nat), ParseErr> {
    match r {
        Ok((t, p)) => Ok((types_model(t@), p as nat)),
        Err(e) => Err(e@),
    }
}

pub open spec fn pat_res(r: Result<(Pattern, usize), ParsingError>) -> Result<(Pat, nat), ParseErr> {
    match r {
        Ok((t, p)) => Ok((t@, p as nat)),
        Err(e) => Err(e@),
    }
}

pub open spec fn pats_res(r: Result<(Vec<Pattern>, usize), ParsingError>) -> Result<(Seq<Pat>, nat), ParseErr> {
    match r {
        Ok((t, p)) => Ok((patterns_model(t@), p as nat)),
        Err(e) => Err(e@),
    }
}

pub open spec fn expr_res(r: Result<(Expr, usize), ParsingError>) -> Result<(Term, nat), ParseErr> {
    match r {
        Ok((t, p)) => Ok((t@, p as nat)),
        Err(e) => Err(e@),
    }
}

pub open spec fn exprs_res(r: Result<(Vec<Expr>, usize), ParsingError>) -> Result<(Seq<Term>, nat), ParseErr> {
    match r {
        Ok((t, p)) => Ok((exprs_model(t@), p as nat)),
        Err(e) => Err(e@),
    }
}

pub open spec fn alts_res(r: Result<(Vec<(Pattern, Expr)>, usize), ParsingError>) -> Result<(Seq<(Pat, Term)>, nat), ParseErr> {
    match r {
        Ok((t, p)) => Ok((alts_model(t@), p as nat)),
        Err(e) => Err(e@),
    }
}

pub open spec fn node_res(r: Result<AstNode, ParsingError>) -> Result<NodeModel, ParseErr> {
    match r {
        Ok(n) => Ok(n@),
        Err(e) => Err(e@),
    }
}

pub open spec fn nodes_res(r: Result<Vec<AstNode>, ParsingError>) -> Result<Seq<NodeModel>, ParseErr> {
    match r {
        Ok(ns) => Ok(nodes_model(ns@)),
        Err(e) => Err(e@),
    }
}

fn sym_at(toks: &Vec<Tok>, pos: usize, s: Sym) -> (r: bool)
    ensures
        r == sym_is(toks_model(toks@), pos as nat, s),
        r ==> pos < toks.len(),
{
    proof {
        lemma_toks_model(toks@);
    }
    if pos < toks.len() {
        match &toks[pos].token {
            Token::Sym(t) => *t == s,
            _ => false,
        }
    } else {
        false
    }
}

fn error_at(toks: &Vec<Tok>, pos: usize, what: &str) -> (r: ParsingError)
    ensures
        r@ == err_at(toks_model(toks@), pos as nat, what@),
{
    proof {
        lemma_toks_model(toks@);
    }
    let line = if pos < toks.len() {
        toks[pos].line
    } else if toks.len() > 0 {
        toks[toks.len() - 1].line
    } else {
        0
    };
    ParsingError::SyntaxError(line, String::from_str(what))
}

fn too_deep_at(toks: &Vec<Tok>, pos: usize) -> (r: ParsingError)
    ensures
        r@ == too_deep(toks_model(toks@), pos as nat),
{
    error_at(toks, pos, "less deeply nested text")
}

fn expect(toks: &Vec<Tok>, pos: usize, s: Sym, what: &str) -> (r: Result<usize, ParsingError>)
    ensures
        match (r, expect_spec(toks_model(toks@), pos as nat, s, what@)) {
            (Ok(p), Ok(q)) => p as nat == q,
            (Err(a), Err(b)) => a@ == b,
            _ => false,
        },
{
    if sym_at(toks, pos, s) {
        Ok(pos + 1)
    } else {
        Err(error_at(toks, pos, what))
    }
}

fn cons_types(t: Type, rest: Vec<Type>) -> (r: Vec<Type>)
    ensures
        types_model(r@) == seq![t@] + types_model(rest@),
{
    let mut v = vec![t];
    let mut rest = rest;
    let ghost r0 = rest@;
    v.append(&mut rest);
    proof {
        lemma_types_model(v@);
        lemma_types_model(r0);
        assert(types_model(v@) =~= seq![t@] + types_model(r0));
    }
    v
}

fn cons_patterns(t: Pattern, rest: Vec<Pattern>) -> (r: Vec<Pattern>)
    ensures
        patterns_model(r@) == seq![t@] + patterns_model(rest@),
{
    let mut v = vec![t];
    let mut rest = rest;
    let ghost r0 = rest@;
    v.append(&mut rest);
    proof {
        lemma_patterns_model(v@);
        lemma_patterns_model(r0);
        assert(patterns_model(v@) =~= seq![t@] + patterns_model(r0));
    }
    v
}

fn cons_exprs(t: Expr, rest: Vec<Expr>) -> (r: Vec<Expr>)
    ensures
        exprs_model(r@) == seq![t@] + exprs_model(rest@),
{
    let mut v = vec![t];
    let mut rest = rest;
    let ghost r0 = rest@;
    v.append(&mut rest);
    proof {
        lemma_exprs_model(v@);
        lemma_exprs_model(r0);
        assert(exprs_model(v@) =~= seq![t@] + exprs_model(r0));
    }
    v
}

fn cons_alts(t: (Pattern, Expr), rest: Vec<(Pattern, Expr)>) -> (r: Vec<(Pattern, Expr)>)
    ensures
        alts_model(r@) == seq![(t.0@, t.1@)] + alts_model(rest@),
{
    let mut v = vec![t];
    let mut rest = rest;
    let ghost r0 = rest@;
    v.append(&mut rest);
    proof {
        lemma_alts_model(v@);
        lemma_alts_model(r0);
        assert(alts_model(v@) =~= seq![(t.0@, t.1@)] + alts_model(r0));
    }
    v
}

fn list_of_exprs(es: Vec<Expr>) -> (r: List<Expr>)
    ensures
        list_model(&r) == exprs_model(es@),
    decreases es.len(),
{
    let mut es = es;
    let mut list: List<Expr> = List::Empty;
    let ghost all = exprs_model(es@);
    proof {
        lemma_exprs_model(es@);
        assert(list_model(&list) =~= all.subrange(es.len() as int, all.len() as int));
    }
    while es.len() > 0
        invariant
            all.len() >= es.len(),
            exprs_model(es@) == all.subrange(0, es.len() as int),
            list_model(&list) == all.subrange(es.len() as int, all.len() as int),
        decreases es.len(),
    {
        let ghost before = es@;
        match es.pop() {
            Some(e) => {
                proof {
                    assert(before =~= es@.push(e));
                    lemma_exprs_model_push(es@, e);
                    assert(exprs_model(before) == exprs_model(es@).push(e@));
                    assert(exprs_model(es@) =~= exprs_model(es@).push(e@).drop_last());
                    assert(exprs_model(es@) =~= all.subrange(0, before.len() as int).drop_last());
                    assert(e@ == all.subrange(0, before.len() as int).last());
                    assert(exprs_model(es@) =~= all.subrange(0, es.len() as int));
                    assert(seq![e@] + list_model(&list) =~= all.subrange(es.len() as int, all.len() as int));
                }
                list = List::Cons(Box::new(e), Box::new(list));
            },
            None => {},
        }
    }
    proof {
        assert(all.subrange(0, all.len() as int) =~= all);
    }
    list
}

/// A type: `btype` or `btype -> type`.
fn parse_type(toks: &Vec<Tok>, pos: usize, fuel: u64) -> (r: Result<(Type, usize), ParsingError>)
    ensures
        ty_res(r) == type_spec(toks_model(toks@), pos as nat, fuel as nat),
    decreases fuel,
{
    if fuel == 0 {
        return Err(too_deep_at(toks, pos));
    }
    let (t, p) = match parse_btype(toks, pos, fuel - 1) {
        Ok(x) => x,
        Err(e) => return Err(e),
    };
    if sym_at(toks, p, Sym::Arrow) {
        match parse_type(toks, p + 1, fuel - 1) {
            Ok((t2, p2)) => Ok((Type::Function(Box::new(t), Box::new(t2)), p2)),
            Err(e) => Err(e),
        }
    } else {
        Ok((t, p))
    }
}

fn parse_btype(toks: &Vec<Tok>, pos: usize, fuel: u64) -> (r: Result<(Type, usize), ParsingError>)
    ensures
        ty_res(r) == btype_spec(toks_model(toks@), pos as nat, fuel as nat),
    decreases fuel,
{
    proof {
        lemma_toks_model(toks@);
    }
    if fuel == 0 || pos >= toks.len() {
        return Err(error_at(toks, pos, "a type"));
    }
    match &toks[pos].token {
        Token::Con(n) => Ok((named_type(n), pos + 1)),
        Token::Name(n) => Ok((Type::TypeVariable(n.clone()), pos + 1)),
        Token::Sym(Sym::LBracket) => {
            let (t, p) = match parse_type(toks, pos + 1, fuel - 1) {
                Ok(x) => x,
                Err(e) => return Err(e),
            };
            match expect(toks, p, Sym::RBracket, "`]`") {
                Ok(q) => Ok((Type::List(Box::new(t)), q)),
                Err(e) => Err(e),
            }
        },
        Token::Sym(Sym::LParen) => {
            if sym_at(toks, pos + 1, Sym::RParen) {
                let empty: Vec<Type> = Vec::new();
                proof {
                    assert(types_model(empty@) =~= Seq::<Ty>::empty());
                }
                return Ok((Type::Tuple(empty), pos + 2));
            }
            let (ts, p) = match parse_type_list(toks, pos + 1, fuel - 1) {
                Ok(x) => x,
                Err(e) => return Err(e),
            };
            let q = match expect(toks, p, Sym::RParen, "`)`") {
                Ok(q) => q,
                Err(e) => return Err(e),
            };
            proof {
                lemma_types_model(ts@);
            }
            if ts.len() == 1 {
                let mut ts = ts;
                match ts.pop() {
                    Some(t) => Ok((t, q)),
                    None => Err(error_at(toks, pos, "a type")),
                }
            } else {
                Ok((Type::Tuple(ts), q))
            }
        },
        _ => Err(error_at(toks, pos, "a type")),
    }
}

fn parse_type_list(toks: &Vec<Tok>, pos: usize, fuel: u64) -> (r: Result<(Vec<Type>, usize), ParsingError>)
    ensures
        tys_res(r) == type_list_spec(toks_model(toks@), pos as nat, fuel as nat),
    decreases fuel,
{
    if fuel == 0 {
        return Err(too_deep_at(toks, pos));
    }
    let (t, p) = match parse_type(toks, pos, fuel - 1) {
        Ok(x) => x,
        Err(e) => return Err(e),
    };
    if sym_at(toks, p, Sym::Comma) {
        match parse_type_list(toks, p + 1, fuel - 1) {
            Ok((rest, q)) => Ok((cons_types(t, rest), q)),
            Err(e) => Err(e),
        }
    } else {
        let rest: Vec<Type> = Vec::new();
        proof {
            assert(types_model(rest@) =~= Seq::<Ty>::empty());
        }
        Ok((cons_types(t, rest), p))
    }
}

fn literal_at(toks: &Vec<Tok>, pos: usize) -> (r: Option<Literal>)
    ensures
        match (r, literal_spec(toks_model(toks@), pos as nat)) {
            (Option::Some(a), Option::Some(b)) => a@ == b,
            (Option::None, Option::None) => true,
            _ => false,
        },
{
    proof {
        lemma_toks_model(toks@);
    }
    if pos >= toks.len() {
        return None;
    }
    match &toks[pos].token {
        Token::Int(i) => Some(Literal::Int(*i)),
        Token::Bool(b) => Some(Literal::Bool(*b)),
        Token::Char(c) => Some(Literal::Char(*c)),
        Token::Str(s) => Some(Literal::String(s.clone())),
        _ => None,
    }
}

/// A pattern: an atomic pattern, or `apat : pattern`.
fn parse_pattern(toks: &Vec<Tok>, pos: usize, fuel: u64) -> (r: Result<(Pattern, usize), ParsingError>)
    ensures
        pat_res(r) == pattern_spec(toks_model(toks@), pos as nat, fuel as nat),
    decreases fuel,
{
    proof {
        lemma_toks_model(toks@);
    }
    if fuel == 0 {
        return Err(too_deep_at(toks, pos));
    }
    let (p1, p) = match parse_apat(toks, pos, fuel - 1) {
        Ok(x) => x,
        Err(e) => return Err(e),
    };
    if p < toks.len() {
        if let Token::Op(Op::Cons) = &toks[p].token {
            return match parse_pattern(toks, p + 1, fuel - 1) {
                Ok((p2, q)) => Ok((Pattern::List(Box::new(p1), Box::new(p2)), q)),
                Err(e) => Err(e),
            };
        }
    }
    Ok((p1, p))
}

/// An atomic pattern: a literal, a variable, `_`, `[]`, or a parenthesized
/// pattern or tuple of patterns.
fn parse_apat(toks: &Vec<Tok>, pos: usize, fuel: u64) -> (r: Result<(Pattern, usize), ParsingError>)
    ensures
        pat_res(r) == apat_spec(toks_model(toks@), pos as nat, fuel as nat),
    decreases fuel,
{
    proof {
        lemma_toks_model(toks@);
    }
    if fuel == 0 || pos >= toks.len() {
        return Err(error_at(toks, pos, "a pattern"));
    }
    if let Some(l) = literal_at(toks, pos) {
        return Ok((Pattern::Literal(l), pos + 1));
    }
    match &toks[pos].token {
        Token::Name(n) => Ok((Pattern::Var(n.clone()), pos + 1)),
        Token::Sym(Sym::Underscore) => Ok((Pattern::Wildcard, pos + 1)),
        Token::Sym(Sym::LBracket) => match expect(toks, pos + 1, Sym::RBracket, "`]`") {
            Ok(q) => Ok((Pattern::EmptyList, q)),
            Err(e) => Err(e),
        },
        Token::Sym(Sym::LParen) => {
            let (ps, p) = match parse_pattern_list(toks, pos + 1, fuel - 1) {
                Ok(x) => x,
                Err(e) => return Err(e),
            };
            let q = match expect(toks, p, Sym::RParen, "`)`") {
                Ok(q) => q,
                Err(e) => return Err(e),
            };
            proof {
                lemma_patterns_model(ps@);
            }
            if ps.len() == 1 {
                let mut ps = ps;
                match ps.pop() {
                    Some(x) => Ok((x, q)),
                    None => Err(error_at(toks, pos, "a pattern")),
                }
            } else {
                Ok((Pattern::Tuple(ps), q))
            }
        },
        _ => Err(error_at(toks, pos, "a pattern")),
    }
}

fn parse_pattern_list(toks: &Vec<Tok>, pos: usize, fuel: u64) -> (r: Result<(Vec<Pattern>, usize), ParsingError>)
    ensures
        pats_res(r) == pattern_list_spec(toks_model(toks@), pos as nat, fuel as nat),
    decreases fuel,
{
    if fuel == 0 {
        return Err(too_deep_at(toks, pos));
    }
    let (q, p) = match parse_pattern(toks, pos, fuel - 1) {
        Ok(x) => x,
        Err(e) => return Err(e),
    };
    if sym_at(toks, p, Sym::Comma) {
        match parse_pattern_list(toks, p + 1, fuel - 1) {
            Ok((rest, r)) => Ok((cons_patterns(q, rest), r)),
            Err(e) => Err(e),
        }
    } else {
        let rest: Vec<Pattern> = Vec::new();
        proof {
            assert(patterns_model(rest@) =~= Seq::<Pat>::empty());
        }
        Ok((cons_patterns(q, rest), p))
    }
}

/// Whether a token can start an atomic expression.
fn starts_aexpr(toks: &Vec<Tok>, pos: usize) -> (r: bool)
    ensures
        r == starts_aexpr_spec(toks_model(toks@), pos as nat),
{
    proof {
        lemma_toks_model(toks@);
    }
    if pos >= toks.len() {
        return false;
    }
    match &toks[pos].token {
        Token::Int(_) | Token::Bool(_) | Token::Char(_) | Token::Str(_) | Token::Name(_) => true,
        Token::Sym(Sym::LParen) | Token::Sym(Sym::LBracket) => true,
        _ => false,
    }
}

/// An expression: a lambda, `let`, `if`, `case`, or operators over
/// applications.
pub fn parse_expr(toks: &Vec<Tok>, pos: usize, fuel: u64) -> (r: Result<(Expr, usize), ParsingError>)
    ensures
        expr_res(r) == expr_spec(toks_model(toks@), pos as nat, fuel as nat),
    decreases fuel,
{
    proof {
        lemma_toks_model(toks@);
    }
    if fuel == 0 || pos >= toks.len() {
        return Err(error_at(toks, pos, "an expression"));
    }
    let g = fuel - 1;
    if sym_at(toks, pos, Sym::Backslash) {
        return parse_lambda(toks, pos + 1, g);
    }
    if sym_at(toks, pos, Sym::Let) {
        if pos + 1 >= toks.len() {
            return Err(error_at(toks, pos + 1, "a name"));
        }
        let n = match &toks[pos + 1].token {
            Token::Name(n) => n.clone(),
            _ => return Err(error_at(toks, pos + 1, "a name")),
        };
        let p = match expect(toks, pos + 2, Sym::Equals, "`=`") {
            Ok(p) => p,
            Err(e) => return Err(e),
        };
        let (e1, p1) = match parse_expr(toks, p, g) {
            Ok(x) => x,
            Err(e) => return Err(e),
        };
        let p2 = match expect(toks, p1, Sym::In, "`in`") {
            Ok(p) => p,
            Err(e) => return Err(e),
        };
        return match parse_expr(toks, p2, g) {
            Ok((e2, q)) => Ok((Expr::Let(n, Box::new(e1), Box::new(e2)), q)),
            Err(e) => Err(e),
        };
    }
    if sym_at(toks, pos, Sym::If) {
        let (c, p) = match parse_expr(toks, pos + 1, g) {
            Ok(x) => x,
            Err(e) => return Err(e),
        };
        let p1 = match expect(toks, p, Sym::Then, "`then`") {
            Ok(p) => p,
            Err(e) => return Err(e),
        };
        let (a, p2) = match parse_expr(toks, p1, g) {
            Ok(x) => x,
            Err(e) => return Err(e),
        };
        let p3 = match expect(toks, p2, Sym::Else, "`else`") {
            Ok(p) => p,
            Err(e) => return Err(e),
        };
        return match parse_expr(toks, p3, g) {
            Ok((b, q)) => Ok((Expr::If(Box::new(c), Box::new(a), Box::new(b)), q)),
            Err(e) => Err(e),
        };
    }
    if sym_at(toks, pos, Sym::Case) {
        let (s, p) = match parse_expr(toks, pos + 1, g) {
            Ok(x) => x,
            Err(e) => return Err(e),
        };
        let p1 = match expect(toks, p, Sym::Of, "`of`") {
            Ok(p) => p,
            Err(e) => return Err(e),
        };
        let p2 = match expect(toks, p1, Sym::LBrace, "`{`") {
            Ok(p) => p,
            Err(e) => return Err(e),
        };
        let (alts, p3) = match parse_alts(toks, p2, g) {
            Ok(x) => x,
            Err(e) => return Err(e),
        };
        return match expect(toks, p3, Sym::RBrace, "`}`") {
            Ok(q) => Ok((Expr::Case(Box::new(s), alts), q)),
            Err(e) => Err(e),
        };
    }
    parse_op(toks, pos, 0, g)
}

/// The parameters and body of a lambda: `x y .. -> body`.
fn parse_lambda(toks: &Vec<Tok>, pos: usize, fuel: u64) -> (r: Result<(Expr, usize), ParsingError>)
    ensures
        expr_res(r) == lambda_spec(toks_model(toks@), pos as nat, fuel as nat),
    decreases fuel,
{
    proof {
        lemma_toks_model(toks@);
    }
    if fuel == 0 {
        return Err(too_deep_at(toks, pos));
    }
    if pos < toks.len() {
        if let Token::Name(n) = &toks[pos].token {
            let next_is_name = pos + 1 < toks.len() && match &toks[pos + 1].token {
                Token::Name(_) => true,
                _ => false,
            };
            if next_is_name {
                return match parse_lambda(toks, pos + 1, fuel - 1) {
                    Ok((b, q)) => Ok((Expr::Lambda(n.clone(), Box::new(b)), q)),
                    Err(e) => Err(e),
                };
            }
            let p = match expect(toks, pos + 1, Sym::Arrow, "`->`") {
                Ok(p) => p,
                Err(e) => return Err(e),
            };
            return match parse_expr(toks, p, fuel - 1) {
                Ok((b, q)) => Ok((Expr::Lambda(n.clone(), Box::new(b)), q)),
                Err(e) => Err(e),
            };
        }
    }
    Err(error_at(toks, pos, "a parameter name"))
}

/// Case alternatives `pattern -> expr`, separated by semicolons.
fn parse_alts(toks: &Vec<Tok>, pos: usize, fuel: u64) -> (r: Result<(Vec<(Pattern, Expr)>, usize), ParsingError>)
    ensures
        alts_res(r) == alts_spec(toks_model(toks@), pos as nat, fuel as nat),
    decreases fuel,
{
    if fuel == 0 {
        return Err(too_deep_at(toks, pos));
    }
    let g = fuel - 1;
    let (pat, p) = match parse_pattern(toks, pos, g) {
        Ok(x) => x,
        Err(e) => return Err(e),
    };
    let p1 = match expect(toks, p, Sym::Arrow, "`->`") {
        Ok(p) => p,
        Err(e) => return Err(e),
    };
    let (b, p2) = match parse_expr(toks, p1, g) {
        Ok(x) => x,
        Err(e) => return Err(e),
    };
    if sym_at(toks, p2, Sym::Semicolon) {
        match parse_alts(toks, p2 + 1, g) {
            Ok((rest, q)) => Ok((cons_alts((pat, b), rest), q)),
            Err(e) => Err(e),
        }
    } else {
        let rest: Vec<(Pattern, Expr)> = Vec::new();
        proof {
            assert(alts_model(rest@) =~= Seq::<(Pat, Term)>::empty());
        }
        Ok((cons_alts((pat, b), rest), p2))
    }
}

fn op_at(toks: &Vec<Tok>, pos: usize) -> (r: Option<Op>)
    ensures
        r == op_at_spec(toks_model(toks@), pos as nat),
        r is Some ==> pos < toks.len(),
{
    proof {
        lemma_toks_model(toks@);
    }
    if pos < toks.len() {
        match &toks[pos].token {
            Token::Op(op) => Some(*op),
            _ => None,
        }
    } else {
        None
    }
}

/// Operators of level `level` and above; `||`, `&&`, `:` and `++` group to
/// the right, the others to the left.
fn parse_op(toks: &Vec<Tok>, pos: usize, level: u64, fuel: u64) -> (r: Result<(Expr, usize), ParsingError>)
    ensures
        expr_res(r) == op_spec(toks_model(toks@), pos as nat, level as nat, fuel as nat),
    decreases fuel,
{
    if fuel == 0 {
        return Err(too_deep_at(toks, pos));
    }
    if level >= 6 {
        return parse_app(toks, pos, fuel - 1);
    }
    match parse_op(toks, pos, level + 1, fuel - 1) {
        Ok((lhs, p)) => parse_op_rest(toks, level, lhs, p, fuel - 1),
        Err(e) => Err(e),
    }
}

fn parse_op_rest(toks: &Vec<Tok>, level: u64, lhs: Expr, pos: usize, fuel: u64) -> (r: Result<(Expr, usize), ParsingError>)
    requires
        level < 6,
    ensures
        expr_res(r) == op_rest_spec(toks_model(toks@), level as nat, lhs@, pos as nat, fuel as nat),
    decreases fuel,
{
    if fuel == 0 {
        return Err(too_deep_at(toks, pos));
    }
    match op_at(toks, pos) {
        Some(op) => {
            if level_of(op) == level {
                let right = op == Op::Or || op == Op::And || op == Op::Cons || op == Op::Append;
                let next = if right { level } else { level + 1 };
                match parse_op(toks, pos + 1, next, fuel - 1) {
                    Ok((rhs, p)) => {
                        let e = Expr::BinOp(Box::new(lhs), op, Box::new(rhs));
                        if right {
                            Ok((e, p))
                        } else {
                            parse_op_rest(toks, level, e, p, fuel - 1)
                        }
                    },
                    Err(e) => Err(e),
                }
            } else {
                Ok((lhs, pos))
            }
        },
        None => Ok((lhs, pos)),
    }
}

/// Application: atomic expressions side by side, grouping to the left.
fn parse_app(toks: &Vec<Tok>, pos: usize, fuel: u64) -> (r: Result<(Expr, usize), ParsingError>)
    ensures
        expr_res(r) == app_spec(toks_model(toks@), pos as nat, fuel as nat),
    decreases fuel,
{
    if fuel == 0 {
        return Err(too_deep_at(toks, pos));
    }
    match parse_aexpr(toks, pos, fuel - 1) {
        Ok((h, p)) => parse_app_rest(toks, h, p, fuel - 1),
        Err(e) => Err(e),
    }
}

fn parse_app_rest(toks: &Vec<Tok>, h: Expr, pos: usize, fuel: u64) -> (r: Result<(Expr, usize), ParsingError>)
    ensures
        expr_res(r) == app_rest_spec(toks_model(toks@), h@, pos as nat, fuel as nat),
    decreases fuel,
{
    if fuel == 0 {
        return Err(too_deep_at(toks, pos));
    }
    if starts_aexpr(toks, pos) {
        match parse_aexpr(toks, pos, fuel - 1) {
            Ok((a, p)) => parse_app_rest(toks, Expr::Application(Box::new(h), Box::new(a)), p, fuel - 1),
            Err(e) => Err(e),
        }
    } else {
        Ok((h, pos))
    }
}

/// An atomic expression: a literal, a variable, a parenthesized expression
/// or tuple, a list, or a range `[start, ..step..]` / `[start, ..step.., stop]`.
fn parse_aexpr(toks: &Vec<Tok>, pos: usize, fuel: u64) -> (r: Result<(Expr, usize), ParsingError>)
    ensures
        expr_res(r) == aexpr_spec(toks_model(toks@), pos as nat, fuel as nat),
    decreases fuel,
{
    proof {
        lemma_toks_model(toks@);
    }
    if fuel == 0 || pos >= toks.len() {
        return Err(error_at(toks, pos, "an expression"));
    }
    let g = fuel - 1;
    if let Some(l) = literal_at(toks, pos) {
        return Ok((Expr::Literal(l), pos + 1));
    }
    match &toks[pos].token {
        Token::Name(n) => Ok((Expr::Var(n.clone()), pos + 1)),
        Token::Sym(Sym::LParen) => {
            if sym_at(toks, pos + 1, Sym::RParen) {
                let empty: Vec<Expr> = Vec::new();
                proof {
                    assert(exprs_model(empty@) =~= Seq::<Term>::empty());
                }
                return Ok((Expr::Tuple(empty), pos + 2));
            }
            let (es, p) = match parse_expr_list(toks, pos + 1, g) {
                Ok(x) => x,
                Err(e) => return Err(e),
            };
            let q = match expect(toks, p, Sym::RParen, "`)`") {
                Ok(q) => q,
                Err(e) => return Err(e),
            };
            proof {
                lemma_exprs_model(es@);
            }
            if es.len() == 1 {
                let mut es = es;
                match es.pop() {
                    Some(e) => Ok((e, q)),
                    None => Err(error_at(toks, pos, "an expression")),
                }
            } else {
                Ok((Expr::Tuple(es), q))
            }
        },
        Token::Sym(Sym::LBracket) => {
            if sym_at(toks, pos + 1, Sym::RBracket) {
                proof {
                    assert(list_model(&List::<Expr>::Empty) =~= Seq::<Term>::empty());
                }
                return Ok((Expr::List(List::Empty), pos + 2));
            }
            let (first, p) = match parse_expr(toks, pos + 1, g) {
                Ok(x) => x,
                Err(e) => return Err(e),
            };
            if sym_at(toks, p, Sym::Comma) && sym_at(toks, p + 1, Sym::DotDot) {
                return parse_range_rest(toks, first, p + 2, g);
            }
            if sym_at(toks, p, Sym::Comma) {
                let (rest, q) = match parse_expr_list(toks, p + 1, g) {
                    Ok(x) => x,
                    Err(e) => return Err(e),
                };
                let r = match expect(toks, q, Sym::RBracket, "`]`") {
                    Ok(r) => r,
                    Err(e) => return Err(e),
                };
                let items = list_of_exprs(cons_exprs(first, rest));
                return Ok((Expr::List(items), r));
            }
            let r = match expect(toks, p, Sym::RBracket, "`]`") {
                Ok(r) => r,
                Err(e) => return Err(e),
            };
            let empty: Vec<Expr> = Vec::new();
            proof {
                assert(exprs_model(empty@) =~= Seq::<Term>::empty());
            }
            let items = list_of_exprs(cons_exprs(first, empty));
            Ok((Expr::List(items), r))
        },
        _ => Err(error_at(toks, pos, "an expression")),
    }
}

/// The rest of a range after `[start, ..`.
#[verifier::rlimit(50)]
fn parse_range_rest(toks: &Vec<Tok>, first: Expr, pos: usize, fuel: u64) -> (r: Result<(Expr, usize), ParsingError>)
    ensures
        expr_res(r) == range_rest_spec(toks_model(toks@), first@, pos as nat, fuel as nat),
    decreases fuel,
{
    if fuel == 0 {
        return Err(too_deep_at(toks, pos));
    }
    let g = fuel - 1;
    let (step, p) = match parse_expr(toks, pos, g) {
        Ok(x) => x,
        Err(e) => return Err(e),
    };
    let q = match expect(toks, p, Sym::DotDot, "`..`") {
        Ok(q) => q,
        Err(e) => return Err(e),
    };
    if sym_at(toks, q, Sym::Comma) {
        let (stop, q2) = match parse_expr(toks, q + 1, g) {
            Ok(x) => x,
            Err(e) => return Err(e),
        };
        match expect(toks, q2, Sym::RBracket, "`]`") {
            Ok(r) => Ok((Expr::Range(Box::new(first), Box::new(step), Some(Box::new(stop))), r)),
            Err(e) => Err(e),
        }
    } else {
        match expect(toks, q, Sym::RBracket, "`]`") {
            Ok(r) => Ok((Expr::Range(Box::new(first), Box::new(step), None), r)),
            Err(e) => Err(e),
        }
    }
}

fn parse_expr_list(toks: &Vec<Tok>, pos: usize, fuel: u64) -> (r: Result<(Vec<Expr>, usize), ParsingError>)
    ensures
        exprs_res(r) == expr_list_spec(toks_model(toks@), pos as nat, fuel as nat),
    decreases fuel,
{
    if fuel == 0 {
        return Err(too_deep_at(toks, pos));
    }
    let (e, p) = match parse_expr(toks, pos, fuel - 1) {
        Ok(x) => x,
        Err(er) => return Err(er),
    };
    if sym_at(toks, p, Sym::Comma) {
        match parse_expr_list(toks, p + 1, fuel - 1) {
            Ok((rest, q)) => Ok((cons_exprs(e, rest), q)),
            Err(er) => Err(er),
        }
    } else {
        let rest: Vec<Expr> = Vec::new();
        proof {
            assert(exprs_model(rest@) =~= Seq::<Term>::empty());
        }
        Ok((cons_exprs(e, rest), p))
    }
}

/// The argument patterns of an equation up to its `=`.
fn scan_patterns(toks: &Vec<Tok>, pos: usize) -> (r: (Vec<Pattern>, usize, bool))
    ensures
        (patterns_model(r.0@), r.1 as nat, r.2) == scan_apats(toks_model(toks@), pos as nat),
    decreases toks.len() - pos,
{
    proof {
        lemma_toks_model(toks@);
    }
    let empty: Vec<Pattern> = Vec::new();
    proof {
        assert(patterns_model(empty@) =~= Seq::<Pat>::empty());
    }
    if pos >= toks.len() {
        return (empty, pos, false);
    }
    if sym_at(toks, pos, Sym::Equals) {
        return (empty, pos, true);
    }
    match parse_apat(toks, pos, PARSE_DEPTH) {
        Ok((q, p)) => {
            if pos < p && p <= toks.len() {
                let (rest, p2, found) = scan_patterns(toks, p);
                (cons_patterns(q, rest), p2, found)
            } else {
                (empty, pos, false)
            }
        },
        Err(_) => (empty, pos, false),
    }
}

fn expr_node(toks: &Vec<Tok>) -> (r: Result<AstNode, ParsingError>)
    ensures
        node_res(r) == expr_node_spec(toks_model(toks@)),
{
    proof {
        lemma_toks_model(toks@);
    }
    match parse_expr(toks, 0, PARSE_DEPTH) {
        Ok((e, q)) => if q == toks.len() {
            Ok(AstNode::SExpr(e))
        } else {
            Err(error_at(toks, q, "the end of the expression"))
        },
        Err(er) => Err(er),
    }
}

/// One top-level item from the tokens of one declaration.
pub fn parse_node(toks: &Vec<Tok>) -> (r: Result<AstNode, ParsingError>)
    ensures
        node_res(r) == node_spec(toks_model(toks@)),
{
    proof {
        lemma_toks_model(toks@);
    }
    let d = PARSE_DEPTH;
    if sym_at(toks, 0, Sym::Type) {
        if 1 < toks.len() {
            if let Token::Con(n) = &toks[1].token {
                let p = match expect(toks, 2, Sym::Equals, "`=`") {
                    Ok(p) => p,
                    Err(e) => return Err(e),
                };
                return match parse_type(toks, p, d) {
                    Ok((t, q)) => if q == toks.len() {
                        Ok(AstNode::TypeAlias(n.clone(), t))
                    } else {
                        Err(error_at(toks, q, "the end of the declaration"))
                    },
                    Err(e) => Err(e),
                };
            }
        }
        return Err(error_at(toks, 1, "a type name"));
    }
    if 0 < toks.len() {
        if let Token::Name(n) = &toks[0].token {
            if sym_at(toks, 1, Sym::DoubleColon) {
                return match parse_type(toks, 2, d) {
                    Ok((t, q)) => if q == toks.len() {
                        Ok(AstNode::TypeSignature(n.clone(), t))
                    } else {
                        Err(error_at(toks, q, "the end of the declaration"))
                    },
                    Err(e) => Err(e),
                };
            }
            let (ps, p, found) = scan_patterns(toks, 1);
            if found && p < toks.len() {
                return match parse_expr(toks, p + 1, d) {
                    Ok((e, q)) => if q == toks.len() {
                        Ok(AstNode::Decl(n.clone(), ps, e))
                    } else {
                        Err(error_at(toks, q, "the end of the declaration"))
                    },
                    Err(e) => Err(e),
                };
            }
        }
    }
    expr_node(toks)
}

fn copy_tok(t: &Tok) -> (r: Tok)
    ensures
        r@ == t@,
{
    let token = match &t.token {
        Token::Int(i) => Token::Int(*i),
        Token::Bool(b) => Token::Bool(*b),
        Token::Char(c) => Token::Char(*c),
        Token::Str(s) => Token::Str(s.clone()),
        Token::Name(s) => Token::Name(s.clone()),
        Token::Con(s) => Token::Con(s.clone()),
        Token::Op(o) => Token::Op(*o),
        Token::Sym(s) => Token::Sym(*s),
    };
    Tok { token, line: t.line, starts_decl: t.starts_decl }
}

/// The top-level items of a source text. An item starts at a line that
/// begins in the first column; indented lines continue it.
pub fn parse_nodes(source: &str) -> (r: Result<Vec<AstNode>, ParsingError>)
    ensures
        nodes_res(r) == match tokens_of(source@) {
            Ok(ts) => nodes_spec(ts),
            Err(e) => Err(e),
        },
{
    let toks = match tokenize(source) {
        Ok(t) => t,
        Err(e) => return Err(e),
    };
    let ghost ts = toks_model(toks@);
    proof {
        lemma_toks_model(toks@);
        assert(ts =~= toks@.map_values(|t: Tok| t@));
    }
    let ghost whole = nodes_spec(ts);
    let mut nodes: Vec<AstNode> = Vec::new();
    let mut start: usize = 0;
    proof {
        assert(nodes_model(nodes@) =~= Seq::<NodeModel>::empty());
        match nodes_from(ts, 0) {
            Ok(rest) => {
                assert(Seq::<NodeModel>::empty() + rest =~= rest);
            },
            Err(_) => {},
        }
    }
    while start < toks.len()
        invariant
            start <= toks.len(),
            ts == toks_model(toks@),
            ts.len() == toks.len(),
            tokens_of(source@) == Ok::<Seq<TokModel>, ParseErr>(ts),
            whole == nodes_spec(ts),
            whole == (match nodes_from(ts, start as nat) {
                Ok(rest) => Ok(nodes_model(nodes@) + rest),
                Err(e) => Err(e),
            }),
        decreases toks.len() - start,
    {
        let mut end = start + 1;
        while end < toks.len() && !toks[end].starts_decl
            invariant
                start < end <= toks.len(),
                ts == toks_model(toks@),
                ts.len() == toks.len(),
                group_end(ts, end as nat) == group_end(ts, (start + 1) as nat),
            decreases toks.len() - end,
        {
            proof {
                assert(ts[end as int] == toks@[end as int]@);
            }
            end = end + 1;
        }
        proof {
            if end < toks.len() {
                assert(ts[end as int] == toks@[end as int]@);
            }
            assert(group_end(ts, end as nat) == end);
        }
        let mut group: Vec<Tok> = Vec::new();
        let mut k = start;
        proof {
            assert(toks_model(group@) =~= ts.subrange(start as int, start as int));
        }
        while k < end
            invariant
                start <= k <= end <= toks.len(),
                ts == toks_model(toks@),
                ts.len() == toks.len(),
                toks_model(group@) == ts.subrange(start as int, k as int),
            decreases end - k,
        {
            let ghost before = group@;
            group.push(copy_tok(&toks[k]));
            proof {
                assert(toks_model(group@) =~= toks_model(before).push(ts[k as int]));
                assert(ts.subrange(start as int, k + 1) =~= ts.subrange(start as int, k as int).push(ts[k as int]));
            }
            k = k + 1;
        }
        let ghost before_nodes = nodes@;
        match parse_node(&group) {
            Ok(n) => {
                nodes.push(n);
                proof {
                    assert(nodes_model(nodes@) =~= nodes_model(before_nodes).push(n@));
                    match nodes_from(ts, end as nat) {
                        Ok(rest) => {
                            assert(nodes_model(before_nodes) + (seq![n@] + rest) =~= nodes_model(nodes@) + rest);
                        },
                        Err(_) => {},
                    }
                }
            },
            Err(e) => {
                return Err(e);
            },
        }
        start = end;
    }
    proof {
        assert(nodes_model(nodes@) + Seq::<NodeModel>::empty() =~= nodes_model(nodes@));
    }
    Ok(nodes)
}

/// Parses a program and lowers its function equations.
pub fn parse(source: &str) -> (r: Result<Vec<Decl>, ParsingError>)
    ensures
        decls_result(r) == match tokens_of(source@) {
            Ok(ts) => match nodes_spec(ts) {
                Ok(ns) => build_spec(ns, Option::None, Seq::empty(), Seq::empty()),
                Err(e) => Err(e),
            },
            Err(e) => Err(e),
        },
{
    let nodes = match parse_nodes(source) {
        Ok(n) => n,
        Err(e) => return Err(e),
    };
    build_ast(&nodes)
}

} // verus!
