//! Lowering of multi-equation function definitions into one declaration
//! over fresh argument names and a case scrutinee.
use vstd::prelude::*;

use crate::ast::{
    Decl, DeclModel, Expr, List, Pat, Pattern, Term, alts_model, exprs_model,
    lemma_alts_model, lemma_alts_model_push, lemma_exprs_model, lemma_exprs_model_push,
    lemma_patterns_model, list_model, names_model, patterns_model,
};
use crate::text::{decimal, push_decimal};

verus! {

/// Errors raised while parsing and lowering.
pub enum ParsingError {
    MultipleDefinitions(String),
    UnknownSymbol(String),
    /// The text does not follow the grammar: the line and what was expected.
    SyntaxError(usize, String),
    GrammarError,
    VaryingArity(String),
}

/// Mathematical model of a parsing error.
pub enum ParseErr {
    MultipleDefinitions(Seq<char>),
    UnknownSymbol(Seq<char>),
    SyntaxError(nat, Seq<char>),
    GrammarError,
    VaryingArity(Seq<char>),
}

impl View for ParsingError {
    type V = ParseErr;

    open spec fn view(&self) -> ParseErr {
        match self {
            ParsingError::MultipleDefinitions(n) => ParseErr::MultipleDefinitions(n@),
            ParsingError::UnknownSymbol(n) => ParseErr::UnknownSymbol(n@),
            ParsingError::SyntaxError(l, m) => ParseErr::SyntaxError(*l as nat, m@),
            ParsingError::GrammarError => ParseErr::GrammarError,
            ParsingError::VaryingArity(n) => ParseErr::VaryingArity(n@),
        }
    }
}

/// Whether the pattern binds `x`.
pub open spec fn pat_binds(p: Pat, x: Seq<char>) -> bool
    decreases p,
{
    match p {
        Pat::Var(n) => n == x,
        Pat::Tuple(ps) => pats_bind(ps, x),
        Pat::FakeTuple(ps) => pats_bind(ps, x),
        Pat::Cons(a, b) => pat_binds(*a, x) || pat_binds(*b, x),
        _ => false,
    }
}

pub open spec fn pats_bind(ps: Seq<Pat>, x: Seq<char>) -> bool
    decreases ps,
{
    if ps.len() == 0 {
        false
    } else {
        pats_bind(ps.drop_last(), x) || pat_binds(ps.last(), x)
    }
}

/// `e` with the free occurrences of `old` renamed to `new`; bindings of
/// `old` inside `e` are left alone.
pub open spec fn rename(e: Term, old: Seq<char>, new: Seq<char>) -> Term
    decreases e,
{
    match e {
        Term::Var(n) => if n == old { Term::Var(new) } else { Term::Var(n) },
        Term::App(f, a) => Term::App(Box::new(rename(*f, old, new)), Box::new(rename(*a, old, new))),
        Term::If(c, a, b) => Term::If(
            Box::new(rename(*c, old, new)),
            Box::new(rename(*a, old, new)),
            Box::new(rename(*b, old, new)),
        ),
        Term::Let(x, a, b) => Term::Let(
            x,
            Box::new(rename(*a, old, new)),
            if x == old { b } else { Box::new(rename(*b, old, new)) },
        ),
        Term::Lambda(x, b) => if x == old { e } else { Term::Lambda(x, Box::new(rename(*b, old, new))) },
        Term::Case(s, alts) => Term::Case(Box::new(rename(*s, old, new)), rename_alts(alts, old, new)),
        Term::BinOp(l, op, r) => Term::BinOp(Box::new(rename(*l, old, new)), op, Box::new(rename(*r, old, new))),
        Term::Tuple(es) => Term::Tuple(rename_seq(es, old, new)),
        Term::List(es) => Term::List(rename_seq(es, old, new)),
        Term::Range(a, s, b) => Term::Range(
            Box::new(rename(*a, old, new)),
            Box::new(rename(*s, old, new)),
            match b {
                Option::Some(b) => Option::Some(Box::new(rename(*b, old, new))),
                Option::None => Option::None,
            },
        ),
        Term::Lit(l) => Term::Lit(l),
    }
}

pub open spec fn rename_seq(es: Seq<Term>, old: Seq<char>, new: Seq<char>) -> Seq<Term>
    decreases es,
{
    if es.len() == 0 {
        Seq::empty()
    } else {
        rename_seq(es.drop_last(), old, new).push(rename(es.last(), old, new))
    }
}

/// An alternative's body is renamed unless its pattern binds `old`.
pub open spec fn rename_alts(alts: Seq<(Pat, Term)>, old: Seq<char>, new: Seq<char>) -> Seq<(Pat, Term)>
    decreases alts,
{
    if alts.len() == 0 {
        Seq::empty()
    } else {
        rename_alts(alts.drop_last(), old, new).push(
            if pat_binds(alts.last().0, old) {
                alts.last()
            } else {
                (alts.last().0, rename(alts.last().1, old, new))
            },
        )
    }
}

pub proof fn lemma_rename_seq(es: Seq<Term>, old: Seq<char>, new: Seq<char>)
    ensures
        rename_seq(es, old, new).len() == es.len(),
        forall|i: int| 0 <= i < es.len() ==> #[trigger] rename_seq(es, old, new)[i] == rename(es[i], old, new),
    decreases es.len(),
{
    if es.len() > 0 {
        lemma_rename_seq(es.drop_last(), old, new);
    }
}

pub proof fn lemma_rename_alts(alts: Seq<(Pat, Term)>, old: Seq<char>, new: Seq<char>)
    ensures
        rename_alts(alts, old, new).len() == alts.len(),
        forall|i: int|
            0 <= i < alts.len() ==> #[trigger] rename_alts(alts, old, new)[i] == if pat_binds(alts[i].0, old) {
                alts[i]
            } else {
                (alts[i].0, rename(alts[i].1, old, new))
            },
    decreases alts.len(),
{
    if alts.len() > 0 {
        lemma_rename_alts(alts.drop_last(), old, new);
    }
}

/// Whether the pattern binds `old`.
pub fn is_bound(p: &Pattern, old: &String) -> (r: bool)
    ensures
        r == pat_binds(p@, old@),
    decreases p,
{
    match p {
        Pattern::Var(name) => *name == *old,
        Pattern::Tuple(ps) => {
            proof {
                assert(decreases_to!(*p => p->Tuple_0));
            }
            any_bound(ps, old)
        },
        Pattern::FakeTuple(ps) => {
            proof {
                assert(decreases_to!(*p => p->FakeTuple_0));
            }
            any_bound(ps, old)
        },
        Pattern::List(p1, p2) => is_bound(p1, old) || is_bound(p2, old),
        _ => false,
    }
}

fn any_bound(ps: &Vec<Pattern>, old: &String) -> (r: bool)
    ensures
        r == pats_bind(patterns_model(ps@), old@),
    decreases ps,
{
    let ghost all = patterns_model(ps@);
    proof {
        lemma_patterns_model(ps@);
    }
    let mut found = false;
    let mut i: usize = 0;
    while i < ps.len()
        invariant
            i <= ps.len(),
            all == patterns_model(ps@),
            all.len() == ps.len(),
            forall|j: int| 0 <= j < ps.len() ==> #[trigger] all[j] == ps@[j]@,
            found == pats_bind(all.subrange(0, i as int), old@),
        decreases ps.len() - i,
    {
        proof {
            assert(decreases_to!(*ps => ps[i as int]));
            assert(all.subrange(0, i + 1).drop_last() =~= all.subrange(0, i as int));
        }
        let b = is_bound(&ps[i], old);
        found = found || b;
        i = i + 1;
    }
    proof {
        assert(all.subrange(0, ps.len() as int) =~= all);
    }
    found
}

fn boxed(e: Expr) -> (r: Box<Expr>)
    ensures
        *r == e,
{
    Box::new(e)
}

/// Renames the free occurrences of `old` in `expr` to `new`.
pub fn rename_expr(expr: &Expr, old: &String, new: &String) -> (r: Expr)
    ensures
        r@ == rename(expr@, old@, new@),
    decreases expr, 0nat,
{
    match expr {
        Expr::Var(name) => if *name == *old {
            Expr::Var(new.clone())
        } else {
            Expr::Var(name.clone())
        },
        Expr::Application(f, e) => Expr::Application(boxed(rename_expr(f, old, new)), boxed(rename_expr(e, old, new))),
        Expr::If(a, b, c) => Expr::If(
            boxed(rename_expr(a, old, new)),
            boxed(rename_expr(b, old, new)),
            boxed(rename_expr(c, old, new)),
        ),
        Expr::Let(x, a, b) => {
            let b2 = if *x == *old {
                (**b).clone()
            } else {
                rename_expr(b, old, new)
            };
            Expr::Let(x.clone(), boxed(rename_expr(a, old, new)), boxed(b2))
        },
        Expr::Lambda(x, b) => if *x == *old {
            expr.clone()
        } else {
            Expr::Lambda(x.clone(), boxed(rename_expr(b, old, new)))
        },
        Expr::Case(s, cases) => {
            proof {
                assert(decreases_to!(*expr => expr->Case_1));
            }
            Expr::Case(boxed(rename_expr(s, old, new)), rename_cases_of(cases, old, new))
        },
        Expr::BinOp(l, op, r) => Expr::BinOp(boxed(rename_expr(l, old, new)), *op, boxed(rename_expr(r, old, new))),
        Expr::Tuple(es) => {
            proof {
                assert(decreases_to!(*expr => expr->Tuple_0));
            }
            Expr::Tuple(rename_exprs(es, old, new))
        },
        Expr::List(ls) => Expr::List(rename_list(ls, old, new)),
        Expr::Literal(l) => Expr::Literal(l.clone()),
        Expr::Range(a, s, b) => {
            let b2 = match b {
                Some(b) => Some(boxed(rename_expr(b, old, new))),
                None => None,
            };
            Expr::Range(boxed(rename_expr(a, old, new)), boxed(rename_expr(s, old, new)), b2)
        },
    }
}

fn rename_exprs(es: &Vec<Expr>, old: &String, new: &String) -> (r: Vec<Expr>)
    ensures
        exprs_model(r@) == rename_seq(exprs_model(es@), old@, new@),
    decreases es, 0nat,
{
    let ghost all = exprs_model(es@);
    proof {
        lemma_exprs_model(es@);
    }
    let mut out: Vec<Expr> = Vec::new();
    let mut i: usize = 0;
    proof {
        assert(exprs_model(out@) =~= rename_seq(all.subrange(0, 0), old@, new@));
    }
    while i < es.len()
        invariant
            i <= es.len(),
            all == exprs_model(es@),
            all.len() == es.len(),
            forall|j: int| 0 <= j < es.len() ==> #[trigger] all[j] == es@[j]@,
            exprs_model(out@) == rename_seq(all.subrange(0, i as int), old@, new@),
        decreases es.len() - i,
    {
        proof {
            assert(decreases_to!(*es => es[i as int]));
            assert(all.subrange(0, i + 1).drop_last() =~= all.subrange(0, i as int));
        }
        let e = rename_expr(&es[i], old, new);
        proof {
            lemma_exprs_model_push(out@, e);
        }
        out.push(e);
        i = i + 1;
    }
    proof {
        assert(all.subrange(0, es.len() as int) =~= all);
    }
    out
}

/// Renames the free occurrences of `old` in the elements of a list literal.
pub fn rename_list(ls: &List<Expr>, old: &String, new: &String) -> (r: List<Expr>)
    ensures
        list_model(&r) == rename_seq(list_model(ls), old@, new@),
    decreases ls, 0nat,
{
    match ls {
        List::Cons(e, es) => {
            let h = rename_expr(e, old, new);
            let t = rename_list(es, old, new);
            let r = List::Cons(boxed(h), Box::new(t));
            proof {
                lemma_rename_seq(list_model(ls), old@, new@);
                lemma_rename_seq(list_model(es), old@, new@);
                assert(list_model(&r) =~= rename_seq(list_model(ls), old@, new@));
            }
            r
        },
        List::Empty => {
            proof {
                assert(rename_seq(list_model(ls), old@, new@) =~= Seq::<Term>::empty());
            }
            List::Empty
        },
    }
}

/// Renames `old` in the body of an alternative, unless its pattern binds it.
pub fn rename_case(p: &Pattern, e: &Expr, old: &String, new: &String) -> (r: (Pattern, Expr))
    ensures
        (r.0@, r.1@) == (if pat_binds(p@, old@) { (p@, e@) } else { (p@, rename(e@, old@, new@)) }),
    decreases e, 1nat,
{
    if is_bound(p, old) {
        (p.clone(), e.clone())
    } else {
        (p.clone(), rename_expr(e, old, new))
    }
}

fn rename_cases_of(cases: &Vec<(Pattern, Expr)>, old: &String, new: &String) -> (r: Vec<(Pattern, Expr)>)
    ensures
        alts_model(r@) == rename_alts(alts_model(cases@), old@, new@),
    decreases cases, 0nat,
{
    let ghost all = alts_model(cases@);
    proof {
        lemma_alts_model(cases@);
    }
    let mut out: Vec<(Pattern, Expr)> = Vec::new();
    let mut i: usize = 0;
    proof {
        assert(alts_model(out@) =~= rename_alts(all.subrange(0, 0), old@, new@));
    }
    while i < cases.len()
        invariant
            i <= cases.len(),
            all == alts_model(cases@),
            all.len() == cases.len(),
            forall|j: int| 0 <= j < cases.len() ==> #[trigger] all[j] == (cases@[j].0@, cases@[j].1@),
            alts_model(out@) == rename_alts(all.subrange(0, i as int), old@, new@),
        decreases cases.len() - i,
    {
        proof {
            assert(decreases_to!(*cases => cases[i as int]));
            assert(decreases_to!(cases[i as int] => cases[i as int].1));
            assert(all.subrange(0, i + 1).drop_last() =~= all.subrange(0, i as int));
        }
        let c = rename_case(&cases[i].0, &cases[i].1, old, new);
        proof {
            lemma_alts_model_push(out@, c);
        }
        out.push(c);
        i = i + 1;
    }
    proof {
        assert(all.subrange(0, cases.len() as int) =~= all);
    }
    out
}


/// The fresh name of the `i`-th argument of `f`; no source identifier has
/// this shape.
pub open spec fn arg_name(f: Seq<char>, i: nat) -> Seq<char> {
    f + ":arg"@ + decimal(i)
}

/// The renamings that a multi-argument equation's variable patterns call
/// for: the variable at position `j` becomes argument `j`. Positions below
/// `n` are taken.
pub open spec fn var_renamings(f: Seq<char>, ps: Seq<Pat>, n: nat) -> Seq<(Seq<char>, Seq<char>)>
    decreases n,
{
    if n == 0 || n > ps.len() {
        Seq::empty()
    } else {
        var_renamings(f, ps, (n - 1) as nat) + if ps[n - 1] is Var {
            seq![(ps[n - 1]->Var_0, arg_name(f, (n - 1) as nat))]
        } else {
            Seq::empty()
        }
    }
}

/// The renamings applied one after another.
pub open spec fn rename_all(e: Term, rs: Seq<(Seq<char>, Seq<char>)>) -> Term
    decreases rs.len(),
{
    if rs.len() == 0 {
        e
    } else {
        let l = rs.last();
        rename(rename_all(e, rs.drop_last()), l.0, l.1)
    }
}

/// The patterns with each variable replaced by its argument's name.
pub open spec fn renamed_pats(f: Seq<char>, ps: Seq<Pat>) -> Seq<Pat> {
    Seq::new(ps.len(), |j: int| if ps[j] is Var { Pat::Var(arg_name(f, j as nat)) } else { ps[j] })
}

/// An equation of a multi-argument function as a case alternative: its
/// patterns bundled in a fake tuple, its variables renamed to the argument
/// names in the pattern and in the body.
pub open spec fn merged(f: Seq<char>, ps: Seq<Pat>, e: Term) -> (Pat, Term) {
    (Pat::FakeTuple(renamed_pats(f, ps)), rename_all(e, var_renamings(f, ps, ps.len())))
}

/// An equation's patterns as one pattern: none, the one pattern, or a fake
/// tuple of them.
pub open spec fn eq_pattern(ps: Seq<Pat>) -> Option<Pat> {
    if ps.len() == 0 {
        Option::None
    } else if ps.len() == 1 {
        Option::Some(ps[0])
    } else {
        Option::Some(Pat::FakeTuple(ps))
    }
}

/// Variable-name unification for one equation: fake-tuple equations are
/// renamed, others are left as they are.
pub open spec fn merge_spec(f: Seq<char>, case: (Option<Pat>, Term)) -> (Option<Pat>, Term) {
    match case.0 {
        Option::Some(Pat::FakeTuple(ps)) => {
            let m = merged(f, ps, case.1);
            (Option::Some(m.0), m.1)
        },
        _ => case,
    }
}

/// The argument names `a_0 .. a_(k-1)` of `f`.
pub open spec fn arg_names(f: Seq<char>, k: nat) -> Seq<Seq<char>> {
    Seq::new(k, |i: int| arg_name(f, i as nat))
}

/// Lowering of the equations of `f` to one declaration.
pub open spec fn lower_spec(f: Seq<char>, eqs: Seq<(Seq<Pat>, Term)>) -> Result<DeclModel, ParseErr> {
    if eqs.len() == 0 {
        Err(ParseErr::GrammarError)
    } else if exists|i: int| 0 <= i < eqs.len() && #[trigger] eqs[i].0.len() != eqs[0].0.len() {
        Err(ParseErr::VaryingArity(f))
    } else if eqs[0].0.len() == 0 {
        if eqs.len() == 1 {
            Ok(DeclModel::FunDecl(f, Seq::empty(), eqs[0].1))
        } else {
            Err(ParseErr::MultipleDefinitions(f))
        }
    } else if eqs.len() == 1 && eqs[0].0.len() == 1 && eqs[0].0[0] is Var {
        Ok(DeclModel::FunDecl(f, seq![eqs[0].0[0]->Var_0], eqs[0].1))
    } else if eqs[0].0.len() == 1 {
        Ok(
            DeclModel::FunDecl(
                f,
                seq![arg_name(f, 0)],
                Term::Case(
                    Box::new(Term::Var(arg_name(f, 0))),
                    Seq::new(eqs.len(), |i: int| (eqs[i].0[0], eqs[i].1)),
                ),
            ),
        )
    } else {
        let k = eqs[0].0.len();
        Ok(
            DeclModel::FunDecl(
                f,
                arg_names(f, k).reverse(),
                Term::Case(
                    Box::new(Term::Tuple(Seq::new(k, |i: int| Term::Var(arg_name(f, i as nat))))),
                    Seq::new(eqs.len(), |i: int| merged(f, eqs[i].0, eqs[i].1)),
                ),
            ),
        )
    }
}

pub open spec fn opt_pat(o: Option<Pattern>) -> Option<Pat> {
    match o {
        Option::Some(p) => Option::Some(p@),
        Option::None => Option::None,
    }
}

pub open spec fn renamings_model(rs: Seq<(String, String)>) -> Seq<(Seq<char>, Seq<char>)> {
    rs.map_values(|r: (String, String)| (r.0@, r.1@))
}

pub open spec fn equations_model(eqs: Seq<(Vec<Pattern>, Expr)>) -> Seq<(Seq<Pat>, Term)> {
    eqs.map_values(|q: (Vec<Pattern>, Expr)| (patterns_model(q.0@), q.1@))
}

/// The name of the `i`-th argument of `fun_name`.
pub fn gen_arg_name(fun_name: &String, i: usize) -> (r: String)
    ensures
        r@ == arg_name(fun_name@, i as nat),
{
    let mut s = fun_name.clone();
    s.append(":arg");
    push_decimal(&mut s, i as u64);
    s
}

/// Applies the renamings one after another.
pub fn rename_vars(renamings: &Vec<(String, String)>, expr: &Expr) -> (r: Expr)
    ensures
        r@ == rename_all(expr@, renamings_model(renamings@)),
{
    let ghost rs = renamings_model(renamings@);
    let mut acc = expr.clone();
    let mut i: usize = 0;
    proof {
        assert(rs.subrange(0, 0) =~= Seq::<(Seq<char>, Seq<char>)>::empty());
    }
    while i < renamings.len()
        invariant
            i <= renamings.len(),
            rs == renamings_model(renamings@),
            acc@ == rename_all(expr@, rs.subrange(0, i as int)),
        decreases renamings.len() - i,
    {
        proof {
            assert(rs.subrange(0, i + 1).drop_last() =~= rs.subrange(0, i as int));
        }
        acc = rename_expr(&acc, &renamings[i].0, &renamings[i].1);
        i = i + 1;
    }
    proof {
        assert(rs.subrange(0, renamings.len() as int) =~= rs);
    }
    acc
}

fn merge_equation(fun_name: &String, ps: &Vec<Pattern>, expr: &Expr) -> (r: (Pattern, Expr))
    ensures
        (r.0@, r.1@) == merged(fun_name@, patterns_model(ps@), expr@),
{
    let ghost pm = patterns_model(ps@);
    proof {
        lemma_patterns_model(ps@);
    }
    let mut renamings: Vec<(String, String)> = Vec::new();
    let mut pats: Vec<Pattern> = Vec::new();
    let mut i: usize = 0;
    proof {
        assert(renamings_model(renamings@) =~= var_renamings(fun_name@, pm, 0));
    }
    while i < ps.len()
        invariant
            i <= ps.len(),
            pm == patterns_model(ps@),
            pm.len() == ps.len(),
            forall|j: int| 0 <= j < ps.len() ==> #[trigger] pm[j] == ps@[j]@,
            renamings_model(renamings@) == var_renamings(fun_name@, pm, i as nat),
            patterns_model(pats@) == renamed_pats(fun_name@, pm).subrange(0, i as int),
        decreases ps.len() - i,
    {
        let ghost before = renamings@;
        let ghost pbefore = pats@;
        match &ps[i] {
            Pattern::Var(name) => {
                let a = gen_arg_name(fun_name, i);
                renamings.push((name.clone(), a.clone()));
                pats.push(Pattern::Var(a));
                proof {
                    assert(renamings_model(renamings@) =~= renamings_model(before) + seq![(name@, arg_name(fun_name@, i as nat))]);
                }
            },
            p => {
                pats.push(p.clone());
                proof {
                    assert(renamings_model(renamings@) =~= renamings_model(before) + Seq::<(Seq<char>, Seq<char>)>::empty());
                }
            },
        }
        proof {
            crate::ast::lemma_patterns_model_push(pbefore, pats@.last());
            assert(pats@ =~= pbefore.push(pats@.last()));
            assert(renamed_pats(fun_name@, pm).subrange(0, i + 1) =~= renamed_pats(fun_name@, pm).subrange(0, i as int).push(
                renamed_pats(fun_name@, pm)[i as int],
            ));
        }
        i = i + 1;
    }
    proof {
        assert(renamed_pats(fun_name@, pm).subrange(0, ps.len() as int) =~= renamed_pats(fun_name@, pm));
    }
    let e = rename_vars(&renamings, expr);
    (Pattern::FakeTuple(pats), e)
}

/// Variable-name unification for one equation: the variables of a
/// fake-tuple equation become the argument names, in its pattern and its
/// body.
pub fn merge_var_bindings(fun_name: &String, case: (Option<Pattern>, Expr)) -> (r: (Option<Pattern>, Expr))
    ensures
        (opt_pat(r.0), r.1@) == merge_spec(fun_name@, (opt_pat(case.0), case.1@)),
{
    let (pattern, expr) = case;
    match pattern {
        Some(Pattern::FakeTuple(ps)) => {
            let (p, e) = merge_equation(fun_name, &ps, &expr);
            (Some(p), e)
        },
        other => (other, expr),
    }
}

/// Variable-name unification for every equation of `fun_name`.
pub fn rename_cases(fun_name: &String, cases: Vec<(Option<Pattern>, Expr)>) -> (r: Vec<(Option<Pattern>, Expr)>)
    ensures
        r.len() == cases.len(),
        forall|i: int|
            0 <= i < cases.len() ==> (opt_pat(#[trigger] r@[i].0), r@[i].1@) == merge_spec(
                fun_name@,
                (opt_pat(cases@[i].0), cases@[i].1@),
            ),
{
    let mut out: Vec<(Option<Pattern>, Expr)> = Vec::new();
    let mut i: usize = 0;
    while i < cases.len()
        invariant
            i <= cases.len(),
            out.len() == i,
            forall|j: int|
                0 <= j < i ==> (opt_pat(#[trigger] out@[j].0), out@[j].1@) == merge_spec(
                    fun_name@,
                    (opt_pat(cases@[j].0), cases@[j].1@),
                ),
        decreases cases.len() - i,
    {
        let p = match &cases[i].0 {
            Some(p) => Some(p.clone()),
            None => None,
        };
        let c = (p, cases[i].1.clone());
        out.push(merge_var_bindings(fun_name, c));
        i = i + 1;
    }
    out
}


pub open spec fn decl_result(r: Result<Decl, ParsingError>) -> Result<DeclModel, ParseErr> {
    match r {
        Ok(d) => Ok(d@),
        Err(e) => Err(e@),
    }
}

fn case_expr(s: Expr, alts: Vec<(Pattern, Expr)>) -> (r: Expr)
    ensures
        r@ == Term::Case(Box::new(s@), alts_model(alts@)),
{
    Expr::Case(Box::new(s), alts)
}

fn tuple_expr(es: Vec<Expr>) -> (r: Expr)
    ensures
        r@ == Term::Tuple(exprs_model(es@)),
{
    Expr::Tuple(es)
}

fn var_expr(n: String) -> (r: Expr)
    ensures
        r@ == Term::Var(n@),
{
    Expr::Var(n)
}

/// Lowers the equations of `fun_name`, each a list of argument patterns and
/// a body, to one function declaration.
pub fn lower_equations(fun_name: String, equations: &Vec<(Vec<Pattern>, Expr)>) -> (r: Result<Decl, ParsingError>)
    ensures
        decl_result(r) == lower_spec(fun_name@, equations_model(equations@)),
{
    let ghost eqs = equations_model(equations@);
    if equations.len() == 0 {
        return Err(ParsingError::GrammarError);
    }
    let k = equations[0].0.len();
    proof {
        lemma_patterns_model(equations@[0].0@);
    }
    let mut i: usize = 0;
    while i < equations.len()
        invariant
            i <= equations.len(),
            eqs == equations_model(equations@),
            k == eqs[0].0.len(),
            forall|j: int| 0 <= j < i ==> #[trigger] eqs[j].0.len() == k,
        decreases equations.len() - i,
    {
        proof {
            lemma_patterns_model(equations@[i as int].0@);
        }
        if equations[i].0.len() != k {
            proof {
                assert(eqs[i as int].0.len() != eqs[0].0.len());
                assert(lower_spec(fun_name@, eqs) == Err::<DeclModel, ParseErr>(ParseErr::VaryingArity(fun_name@)));
            }
            return Err(ParsingError::VaryingArity(fun_name));
        }
        i = i + 1;
    }
    proof {
        assert(!exists|i: int| 0 <= i < eqs.len() && #[trigger] eqs[i].0.len() != eqs[0].0.len());
    }
    if k == 0 {
        if equations.len() == 1 {
            let empty: Vec<String> = Vec::new();
            proof {
                assert(names_model(empty@) =~= Seq::<Seq<char>>::empty());
            }
            return Ok(Decl::FunDecl(fun_name, empty, equations[0].1.clone()));
        }
        return Err(ParsingError::MultipleDefinitions(fun_name));
    }
    if equations.len() == 1 && k == 1 {
        if let Pattern::Var(name) = &equations[0].0[0] {
            proof {
                assert(eqs[0].0[0] == equations@[0].0@[0]@);
            }
            let params = vec![name.clone()];
            proof {
                assert(names_model(params@) =~= seq![name@]);
            }
            return Ok(Decl::FunDecl(fun_name, params, equations[0].1.clone()));
        }
        proof {
            assert(eqs[0].0[0] == equations@[0].0@[0]@);
        }
    }
    if k == 1 {
        let a0 = gen_arg_name(&fun_name, 0);
        let mut alts: Vec<(Pattern, Expr)> = Vec::new();
        let mut j: usize = 0;
        while j < equations.len()
            invariant
                j <= equations.len(),
                eqs == equations_model(equations@),
                forall|x: int| 0 <= x < equations.len() ==> #[trigger] eqs[x].0.len() == 1,
                alts_model(alts@) == Seq::new(eqs.len(), |x: int| (eqs[x].0[0], eqs[x].1)).subrange(0, j as int),
            decreases equations.len() - j,
        {
            proof {
                lemma_patterns_model(equations@[j as int].0@);
                assert(eqs[j as int].0.len() == 1);
                assert(equations@[j as int].0.len() == 1);
            }
            let alt = (equations[j].0[0].clone(), equations[j].1.clone());
            proof {
                lemma_alts_model_push(alts@, alt);
                assert(Seq::new(eqs.len(), |x: int| (eqs[x].0[0], eqs[x].1)).subrange(0, j + 1) =~= Seq::new(
                    eqs.len(),
                    |x: int| (eqs[x].0[0], eqs[x].1),
                ).subrange(0, j as int).push((alt.0@, alt.1@)));
            }
            alts.push(alt);
            j = j + 1;
        }
        proof {
            assert(Seq::new(eqs.len(), |x: int| (eqs[x].0[0], eqs[x].1)).subrange(0, equations.len() as int) =~= Seq::new(
                eqs.len(),
                |x: int| (eqs[x].0[0], eqs[x].1),
            ));
        }
        let params = vec![a0.clone()];
        proof {
            assert(names_model(params@) =~= seq![a0@]);
        }
        let body = case_expr(var_expr(a0), alts);
        return Ok(Decl::FunDecl(fun_name, params, body));
    }
    let mut args: Vec<String> = Vec::new();
    let mut vars: Vec<Expr> = Vec::new();
    let mut j: usize = 0;
    while j < k
        invariant
            j <= k,
            names_model(args@) == arg_names(fun_name@, k as nat).subrange(0, j as int),
            exprs_model(vars@) == Seq::new(k as nat, |x: int| Term::Var(arg_name(fun_name@, x as nat))).subrange(0, j as int),
        decreases k - j,
    {
        let a = gen_arg_name(&fun_name, j);
        let ghost before = args@;
        args.push(a.clone());
        let v = var_expr(a);
        proof {
            lemma_exprs_model_push(vars@, v);
            assert(names_model(args@) =~= names_model(before).push(a@));
            assert(arg_names(fun_name@, k as nat).subrange(0, j + 1) =~= arg_names(fun_name@, k as nat).subrange(0, j as int).push(a@));
            assert(Seq::new(k as nat, |x: int| Term::Var(arg_name(fun_name@, x as nat))).subrange(0, j + 1) =~= Seq::new(
                k as nat,
                |x: int| Term::Var(arg_name(fun_name@, x as nat)),
            ).subrange(0, j as int).push(v@));
        }
        vars.push(v);
        j = j + 1;
    }
    proof {
        assert(arg_names(fun_name@, k as nat).subrange(0, k as int) =~= arg_names(fun_name@, k as nat));
        assert(Seq::new(k as nat, |x: int| Term::Var(arg_name(fun_name@, x as nat))).subrange(0, k as int) =~= Seq::new(
            k as nat,
            |x: int| Term::Var(arg_name(fun_name@, x as nat)),
        ));
    }
    let mut rev_args: Vec<String> = Vec::new();
    let mut m: usize = args.len();
    while m > 0
        invariant
            m <= args.len(),
            names_model(rev_args@) == names_model(args@).reverse().subrange(0, (args.len() - m) as int),
        decreases m,
    {
        let ghost before = rev_args@;
        rev_args.push(args[m - 1].clone());
        proof {
            assert(names_model(rev_args@) =~= names_model(before).push(args@[m - 1]@));
            assert(names_model(args@).reverse()[(args.len() - m) as int] == args@[m - 1]@);
            assert(names_model(rev_args@) =~= names_model(args@).reverse().subrange(0, (args.len() - m + 1) as int));
        }
        m = m - 1;
    }
    proof {
        assert(names_model(args@).reverse().subrange(0, args.len() as int) =~= names_model(args@).reverse());
    }
    let mut alts: Vec<(Pattern, Expr)> = Vec::new();
    let mut j: usize = 0;
    while j < equations.len()
        invariant
            j <= equations.len(),
            eqs == equations_model(equations@),
            alts_model(alts@) == Seq::new(eqs.len(), |x: int| merged(fun_name@, eqs[x].0, eqs[x].1)).subrange(0, j as int),
        decreases equations.len() - j,
    {
        let alt = merge_equation(&fun_name, &equations[j].0, &equations[j].1);
        proof {
            lemma_alts_model_push(alts@, alt);
            assert(Seq::new(eqs.len(), |x: int| merged(fun_name@, eqs[x].0, eqs[x].1)).subrange(0, j + 1) =~= Seq::new(
                eqs.len(),
                |x: int| merged(fun_name@, eqs[x].0, eqs[x].1),
            ).subrange(0, j as int).push((alt.0@, alt.1@)));
        }
        alts.push(alt);
        j = j + 1;
    }
    proof {
        assert(Seq::new(eqs.len(), |x: int| merged(fun_name@, eqs[x].0, eqs[x].1)).subrange(0, equations.len() as int) =~= Seq::new(
            eqs.len(),
            |x: int| merged(fun_name@, eqs[x].0, eqs[x].1),
        ));
    }
    let body = case_expr(tuple_expr(vars), alts);
    Ok(Decl::FunDecl(fun_name, rev_args, body))
}

} // verus!
