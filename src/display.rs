//! Rendering of values and types as text.
use vstd::prelude::*;

use crate::ast::{
    Decl, DeclModel, Expr, List, Lit, Literal, Op, Pat, Pattern, Term, Ty, Type, alts_model, exprs_model,
    lemma_alts_model, lemma_exprs_model, lemma_patterns_model, list_model, names_model, patterns_model,
    types_model, lemma_types_model,
};
use crate::text::{decimal, push_decimal};
use crate::lower::{ParseErr, ParsingError};
use crate::subst::{TypeErr, TypingError};
use crate::value::{RtErr, RunTimeError, Val, Value, values_model, lemma_values_model};

verus! {

/// Parts joined with a separator.
pub open spec fn join(parts: Seq<Seq<char>>, sep: Seq<char>) -> Seq<char>
    decreases parts.len(),
{
    if parts.len() == 0 {
        Seq::empty()
    } else if parts.len() == 1 {
        parts[0]
    } else {
        join(parts.drop_last(), sep) + sep + parts.last()
    }
}

/// An integer in decimal, with a leading minus when negative.
pub open spec fn show_int(i: i64) -> Seq<char> {
    if i < 0 {
        seq!['-'] + decimal((-(i as int)) as nat)
    } else {
        decimal(i as nat)
    }
}

pub open spec fn show_lit(l: Lit) -> Seq<char> {
    match l {
        Lit::Int(i) => show_int(i),
        Lit::Bool(b) => if b { "True"@ } else { "False"@ },
        Lit::Char(c) => seq!['\''] + seq![c] + seq!['\''],
        Lit::Str(s) => seq!['"'] + s + seq!['"'],
    }
}

/// How a value is printed: literals as in the source, tuples in
/// parentheses, lists in brackets, functions as an opaque placeholder.
pub open spec fn show_val(v: Val) -> Seq<char>
    decreases v, 1nat,
{
    match v {
        Val::Lit(l) => show_lit(l),
        Val::Tuple(vs) => seq!['('] + join(show_vals(vs), ", "@) + seq![')'],
        Val::Cons(_, _) => seq!['['] + join(list_items(v), ", "@) + seq![']'],
        Val::Nil => "[]"@,
        Val::Closure(_, _, _) => "<function>"@,
    }
}

pub open spec fn show_vals(vs: Seq<Val>) -> Seq<Seq<char>>
    decreases vs, 1nat,
{
    if vs.len() == 0 {
        Seq::empty()
    } else {
        show_vals(vs.drop_last()).push(show_val(vs.last()))
    }
}

/// The printed elements along a list's spine; a tail that is not a list
/// cell is printed as a last element.
pub open spec fn list_items(v: Val) -> Seq<Seq<char>>
    decreases v, 0nat,
{
    match v {
        Val::Cons(h, t) => seq![show_val(*h)] + match *t {
            Val::Nil => Seq::empty(),
            Val::Cons(_, _) => list_items(*t),
            other => seq![show_val(other)],
        },
        _ => Seq::empty(),
    }
}

pub open spec fn show_ty(t: Ty) -> Seq<char>
    decreases t,
{
    match t {
        Ty::Var(n) => n,
        Ty::Fun(a, b) => seq!['('] + show_ty(*a) + " -> "@ + show_ty(*b) + seq![')'],
        Ty::List(a) => seq!['['] + show_ty(*a) + seq![']'],
        Ty::Tuple(ts) => seq!['('] + join(show_tys(ts), ", "@) + seq![')'],
        Ty::Int => "Int"@,
        Ty::Bool => "Bool"@,
        Ty::Char => "Char"@,
        Ty::Str => "String"@,
    }
}

pub open spec fn show_tys(ts: Seq<Ty>) -> Seq<Seq<char>>
    decreases ts,
{
    if ts.len() == 0 {
        Seq::empty()
    } else {
        show_tys(ts.drop_last()).push(show_ty(ts.last()))
    }
}

/// Relies on `char`'s `ToString`: the string of that one character.
#[verifier::external_body]
pub(crate) fn char_string(c: char) -> (r: String)
    ensures
        r@ == seq![c],
{
    c.to_string()
}

/// Joins the parts with the separator.
pub fn join_strings(parts: &Vec<String>, sep: &str) -> (r: String)
    ensures
        r@ == join(parts@.map_values(|p: String| p@), sep@),
{
    let ghost all = parts@.map_values(|p: String| p@);
    let mut out = String::new();
    let mut i: usize = 0;
    while i < parts.len()
        invariant
            i <= parts.len(),
            all == parts@.map_values(|p: String| p@),
            out@ == join(all.subrange(0, i as int), sep@),
        decreases parts.len() - i,
    {
        proof {
            assert(all.subrange(0, i + 1).drop_last() =~= all.subrange(0, i as int));
        }
        if i > 0 {
            out.append(sep);
        }
        out.append(parts[i].as_str());
        proof {
            if i == 0 {
                assert(out@ =~= all.subrange(0, 1)[0]);
            }
        }
        i = i + 1;
    }
    proof {
        assert(all.subrange(0, parts.len() as int) =~= all);
    }
    out
}

/// Renders an integer in decimal.
pub fn render_int(i: i64) -> (r: String)
    ensures
        r@ == show_int(i),
{
    let mut out = String::new();
    if i < 0 {
        out.append("-");
        let m: u64 = if i == i64::MIN { 9223372036854775808u64 } else { (-i) as u64 };
        push_decimal(&mut out, m);
        proof {
            reveal_strlit("-");
        }
    } else {
        push_decimal(&mut out, i as u64);
    }
    out
}

/// Renders a literal as it is printed.
pub fn render_literal(l: &Literal) -> (r: String)
    ensures
        r@ == show_lit(l@),
{
    match l {
        Literal::Int(i) => render_int(*i),
        Literal::Bool(b) => if *b { String::from_str("True") } else { String::from_str("False") },
        Literal::Char(c) => {
            let mut out = String::from_str("'");
            out.append(char_string(*c).as_str());
            out.append("'");
            proof {
                reveal_strlit("'");
            }
            out
        },
        Literal::String(s) => {
            let mut out = String::from_str("\"");
            out.append(s.as_str());
            out.append("\"");
            proof {
                reveal_strlit("\"");
            }
            out
        },
    }
}

/// Renders a value as it is printed.
pub fn render_value(v: &Value) -> (r: String)
    ensures
        r@ == show_val(v@),
    decreases v, 1nat,
{
    match v {
        Value::Literal(l) => render_literal(l),
        Value::Tuple(vs) => {
            let mut parts: Vec<String> = Vec::new();
            let mut i: usize = 0;
            proof {
                lemma_values_model(vs@);
            }
            while i < vs.len()
                invariant
                    i <= vs.len(),
                    *v == Value::Tuple(*vs),
                    values_model(vs@).len() == vs.len(),
                    forall|j: int| 0 <= j < vs.len() ==> #[trigger] values_model(vs@)[j] == vs@[j]@,
                    parts@.map_values(|p: String| p@) == show_vals(values_model(vs@).subrange(0, i as int)),
                decreases vs.len() - i,
            {
                proof {
                    assert(decreases_to!(*v => v->Tuple_0));
                    assert(decreases_to!(*vs => vs[i as int]));
                }
                let p = render_value(&vs[i]);
                let ghost before = parts@;
                parts.push(p);
                proof {
                    assert(values_model(vs@).subrange(0, i + 1).drop_last() =~= values_model(vs@).subrange(0, i as int));
                    assert(parts@.map_values(|p: String| p@) =~= before.map_values(|p: String| p@).push(p@));
                }
                i = i + 1;
            }
            proof {
                assert(values_model(vs@).subrange(0, vs.len() as int) =~= values_model(vs@));
            }
            let mut out = String::from_str("(");
            out.append(join_strings(&parts, ", ").as_str());
            out.append(")");
            proof {
                reveal_strlit("(");
                reveal_strlit(")");
            }
            out
        },
        Value::List(_, _) => {
            let mut parts: Vec<String> = Vec::new();
            render_list_items(v, &mut parts);
            proof {
                assert(parts@.map_values(|p: String| p@) =~= Seq::<String>::empty().map_values(|p: String| p@) + list_items(v@));
            }
            let mut out = String::from_str("[");
            out.append(join_strings(&parts, ", ").as_str());
            out.append("]");
            proof {
                reveal_strlit("[");
                reveal_strlit("]");
            }
            out
        },
        Value::EmptyList => String::from_str("[]"),
        Value::Closure(_, _, _) => String::from_str("<function>"),
    }
}

fn render_list_items(v: &Value, parts: &mut Vec<String>)
    ensures
        final(parts)@.map_values(|p: String| p@) == old(parts)@.map_values(|p: String| p@) + list_items(v@),
    decreases v, 0nat,
{
    match v {
        Value::List(h, t) => {
            let ghost before = parts@;
            let s = render_value(h);
            parts.push(s);
            proof {
                assert(parts@.map_values(|p: String| p@) =~= before.map_values(|p: String| p@) + seq![show_val(h@)]);
            }
            let ghost mid = parts@;
            match &**t {
                Value::EmptyList => {
                    proof {
                        assert(t@ == Val::Nil);
                        assert(v@ == Val::Cons(Box::new(h@), Box::new(Val::Nil)));
                        assert(list_items(v@) =~= seq![show_val(h@)]);
                        assert(mid.map_values(|p: String| p@) =~= before.map_values(|p: String| p@) + list_items(v@));
                    }
                },
                Value::List(_, _) => {
                    render_list_items(t, parts);
                    proof {
                        assert(parts@.map_values(|p: String| p@) =~= before.map_values(|p: String| p@) + list_items(v@));
                    }
                },
                other => {
                    let s2 = render_value(other);
                    parts.push(s2);
                    proof {
                        assert(parts@.map_values(|p: String| p@) =~= before.map_values(|p: String| p@) + list_items(v@));
                    }
                },
            }
        },
        _ => {
            proof {
                assert(parts@.map_values(|p: String| p@) =~= parts@.map_values(|p: String| p@) + list_items(v@));
            }
        },
    }
}

/// Renders a type: variables by name, functions and lists bracketed.
pub fn render_type(t: &Type) -> (r: String)
    ensures
        r@ == show_ty(t@),
    decreases t,
{
    match t {
        Type::TypeVariable(n) => n.clone(),
        Type::Function(a, b) => {
            let mut out = String::from_str("(");
            out.append(render_type(a).as_str());
            out.append(" -> ");
            out.append(render_type(b).as_str());
            out.append(")");
            proof {
                reveal_strlit("(");
                reveal_strlit(")");
            }
            out
        },
        Type::List(a) => {
            let mut out = String::from_str("[");
            out.append(render_type(a).as_str());
            out.append("]");
            proof {
                reveal_strlit("[");
                reveal_strlit("]");
            }
            out
        },
        Type::Tuple(ts) => {
            let mut parts: Vec<String> = Vec::new();
            let mut i: usize = 0;
            proof {
                lemma_types_model(ts@);
            }
            while i < ts.len()
                invariant
                    i <= ts.len(),
                    *t == Type::Tuple(*ts),
                    types_model(ts@).len() == ts.len(),
                    forall|j: int| 0 <= j < ts.len() ==> #[trigger] types_model(ts@)[j] == ts@[j]@,
                    parts@.map_values(|p: String| p@) == show_tys(types_model(ts@).subrange(0, i as int)),
                decreases ts.len() - i,
            {
                proof {
                    assert(decreases_to!(*t => t->Tuple_0));
                    assert(decreases_to!(*ts => ts[i as int]));
                }
                let p = render_type(&ts[i]);
                let ghost before = parts@;
                parts.push(p);
                proof {
                    assert(types_model(ts@).subrange(0, i + 1).drop_last() =~= types_model(ts@).subrange(0, i as int));
                    assert(parts@.map_values(|p: String| p@) =~= before.map_values(|p: String| p@).push(p@));
                }
                i = i + 1;
            }
            proof {
                assert(types_model(ts@).subrange(0, ts.len() as int) =~= types_model(ts@));
            }
            let mut out = String::from_str("(");
            out.append(join_strings(&parts, ", ").as_str());
            out.append(")");
            proof {
                reveal_strlit("(");
                reveal_strlit(")");
            }
            out
        },
        Type::Int => String::from_str("Int"),
        Type::Bool => String::from_str("Bool"),
        Type::Char => String::from_str("Char"),
        Type::String => String::from_str("String"),
    }
}


pub open spec fn show_op(op: Op) -> Seq<char> {
    match op {
        Op::Add => "+"@,
        Op::Sub => "-"@,
        Op::Mul => "*"@,
        Op::Div => "/"@,
        Op::Mod => "`mod`"@,
        Op::Eq => "=="@,
        Op::Neq => "/="@,
        Op::Lt => "<"@,
        Op::Gt => ">"@,
        Op::Le => "<="@,
        Op::Ge => ">="@,
        Op::And => "&&"@,
        Op::Or => "||"@,
        Op::Append => "++"@,
        Op::Cons => ":"@,
    }
}

/// How a pattern is written; a fake tuple is its patterns side by side.
pub open spec fn show_pat(p: Pat) -> Seq<char>
    decreases p,
{
    match p {
        Pat::Lit(l) => show_lit(l),
        Pat::Var(n) => n,
        Pat::EmptyList => "[]"@,
        Pat::Wildcard => "_"@,
        Pat::Tuple(ps) => seq!['('] + join(show_pats(ps), ", "@) + seq![')'],
        Pat::FakeTuple(ps) => join(show_pats(ps), " "@),
        Pat::Cons(a, b) => seq!['('] + show_pat(*a) + seq![':'] + show_pat(*b) + seq![')'],
    }
}

pub open spec fn show_pats(ps: Seq<Pat>) -> Seq<Seq<char>>
    decreases ps,
{
    if ps.len() == 0 {
        Seq::empty()
    } else {
        show_pats(ps.drop_last()).push(show_pat(ps.last()))
    }
}

/// How an expression is written, fully parenthesized.
pub open spec fn show_term(e: Term) -> Seq<char>
    decreases e,
{
    match e {
        Term::Var(n) => n,
        Term::App(f, a) => seq!['('] + show_term(*f) + seq![' '] + show_term(*a) + seq![')'],
        Term::If(c, a, b) => "if "@ + show_term(*c) + ", then "@ + show_term(*a) + ", else "@ + show_term(*b),
        Term::Tuple(es) => seq!['('] + join(show_terms(es), ", "@) + seq![')'],
        Term::List(es) => seq!['['] + join(show_terms(es), ", "@) + seq![']'],
        Term::BinOp(l, op, r) => seq!['('] + show_term(*l) + seq![' '] + show_op(op) + seq![' '] + show_term(*r) + seq![')'],
        Term::Lit(l) => show_lit(l),
        Term::Case(s, alts) => "case "@ + show_term(*s) + " of {"@ + show_alts(alts) + seq!['}'],
        Term::Range(a, st, b) => match b {
            Option::Some(b) => seq!['['] + show_term(*a) + ", .."@ + show_term(*st) + ".., "@ + show_term(*b) + "] "@,
            Option::None => seq!['['] + show_term(*a) + ", .."@ + show_term(*st) + "..] "@,
        },
        Term::Lambda(x, b) => "(\\"@ + x + " -> "@ + show_term(*b) + seq![')'],
        Term::Let(x, a, b) => "let "@ + x + " = "@ + show_term(*a) + " in "@ + show_term(*b),
    }
}

pub open spec fn show_terms(es: Seq<Term>) -> Seq<Seq<char>>
    decreases es,
{
    if es.len() == 0 {
        Seq::empty()
    } else {
        show_terms(es.drop_last()).push(show_term(es.last()))
    }
}

pub open spec fn show_alts(alts: Seq<(Pat, Term)>) -> Seq<char>
    decreases alts,
{
    if alts.len() == 0 {
        Seq::empty()
    } else {
        show_alts(alts.drop_last()) + show_pat(alts.last().0) + " -> "@ + show_term(alts.last().1) + "; "@
    }
}

/// How a declaration is written.
pub open spec fn show_decl(d: DeclModel) -> Seq<char> {
    match d {
        DeclModel::TypeAlias(n, t) => "type "@ + n + " = "@ + show_ty(t),
        DeclModel::TypeSignature(n, t) => n + " :: "@ + show_ty(t),
        DeclModel::FunDecl(n, ps, e) => n + seq![' '] + join(ps, " "@) + seq![' '] + "= "@ + show_term(e),
        DeclModel::SExpr(e) => show_term(e),
        DeclModel::EndOfInstruction => Seq::empty(),
    }
}

/// Renders an operator as it is written.
pub fn render_op(op: Op) -> (r: String)
    ensures
        r@ == show_op(op),
{
    match op {
        Op::Add => String::from_str("+"),
        Op::Sub => String::from_str("-"),
        Op::Mul => String::from_str("*"),
        Op::Div => String::from_str("/"),
        Op::Mod => String::from_str("`mod`"),
        Op::Eq => String::from_str("=="),
        Op::Neq => String::from_str("/="),
        Op::Lt => String::from_str("<"),
        Op::Gt => String::from_str(">"),
        Op::Le => String::from_str("<="),
        Op::Ge => String::from_str(">="),
        Op::And => String::from_str("&&"),
        Op::Or => String::from_str("||"),
        Op::Append => String::from_str("++"),
        Op::Cons => String::from_str(":"),
    }
}

fn lit_str(s: &str) -> (r: String)
    ensures
        r@ == s@,
{
    String::from_str(s)
}

/// Renders a pattern as it is written.
pub fn render_pattern(p: &Pattern) -> (r: String)
    ensures
        r@ == show_pat(p@),
    decreases p,
{
    match p {
        Pattern::Literal(l) => render_literal(l),
        Pattern::Var(n) => n.clone(),
        Pattern::EmptyList => lit_str("[]"),
        Pattern::Wildcard => lit_str("_"),
        Pattern::Tuple(ps) => {
            proof {
                assert(decreases_to!(*p => p->Tuple_0));
            }
            let inner = render_patterns(ps, ", ");
            let out = concat(concat(lit_str("("), inner.as_str()), ")");
            proof {
                reveal_strlit("(");
                reveal_strlit(")");
            }
            out
        },
        Pattern::FakeTuple(ps) => {
            proof {
                assert(decreases_to!(*p => p->FakeTuple_0));
            }
            render_patterns(ps, " ")
        },
        Pattern::List(a, b) => {
            let out = concat(lit_str("("), render_pattern(a).as_str());
            let out = concat(out, ":");
            let out = concat(out, render_pattern(b).as_str());
            let out = concat(out, ")");
            proof {
                reveal_strlit("(");
                reveal_strlit(")");
                reveal_strlit(":");
            }
            out
        },
    }
}

fn render_patterns(ps: &Vec<Pattern>, sep: &str) -> (r: String)
    ensures
        r@ == join(show_pats(patterns_model(ps@)), sep@),
    decreases ps,
{
    let ghost all = patterns_model(ps@);
    proof {
        lemma_patterns_model(ps@);
    }
    let mut parts: Vec<String> = Vec::new();
    let mut i: usize = 0;
    while i < ps.len()
        invariant
            i <= ps.len(),
            all == patterns_model(ps@),
            all.len() == ps.len(),
            forall|j: int| 0 <= j < ps.len() ==> #[trigger] all[j] == ps@[j]@,
            parts@.map_values(|q: String| q@) == show_pats(all.subrange(0, i as int)),
        decreases ps.len() - i,
    {
        proof {
            assert(decreases_to!(*ps => ps[i as int]));
        }
        let q = render_pattern(&ps[i]);
        let ghost before = parts@;
        parts.push(q);
        proof {
            assert(all.subrange(0, i + 1).drop_last() =~= all.subrange(0, i as int));
            assert(parts@.map_values(|q: String| q@) =~= before.map_values(|q: String| q@).push(q@));
        }
        i = i + 1;
    }
    proof {
        assert(all.subrange(0, ps.len() as int) =~= all);
    }
    join_strings(&parts, sep)
}

/// Renders an expression, fully parenthesized.
pub fn render_expr(e: &Expr) -> (r: String)
    ensures
        r@ == show_term(e@),
    decreases e, 1nat,
{
    proof {
        reveal_strlit("(");
        reveal_strlit(")");
        reveal_strlit(" ");
        reveal_strlit("[");
        reveal_strlit("]");
        reveal_strlit("}");
    }
    match e {
        Expr::Var(n) => n.clone(),
        Expr::Application(f, a) => {
            let out = concat(lit_str("("), render_expr(f).as_str());
            let out = concat(out, " ");
            let out = concat(out, render_expr(a).as_str());
            concat(out, ")")
        },
        Expr::If(c, a, b) => {
            let out = concat(lit_str("if "), render_expr(c).as_str());
            let out = concat(out, ", then ");
            let out = concat(out, render_expr(a).as_str());
            let out = concat(out, ", else ");
            concat(out, render_expr(b).as_str())
        },
        Expr::Tuple(es) => {
            proof {
                assert(decreases_to!(*e => e->Tuple_0));
            }
            let inner = render_exprs(es);
            concat(concat(lit_str("("), inner.as_str()), ")")
        },
        Expr::List(l) => {
            let mut parts: Vec<String> = Vec::new();
            render_list_exprs(l, &mut parts);
            proof {
                assert(parts@.map_values(|q: String| q@) =~= show_terms(list_model(l)));
            }
            concat(concat(lit_str("["), join_strings(&parts, ", ").as_str()), "]")
        },
        Expr::BinOp(l, op, r) => {
            let out = concat(lit_str("("), render_expr(l).as_str());
            let out = concat(out, " ");
            let out = concat(out, render_op(*op).as_str());
            let out = concat(out, " ");
            let out = concat(out, render_expr(r).as_str());
            concat(out, ")")
        },
        Expr::Literal(l) => render_literal(l),
        Expr::Case(s, alts) => {
            proof {
                assert(decreases_to!(*e => e->Case_1));
            }
            let out = concat(lit_str("case "), render_expr(s).as_str());
            let out = concat(out, " of {");
            let out = concat(out, render_alts(alts).as_str());
            concat(out, "}")
        },
        Expr::Range(a, st, b) => {
            let out = concat(lit_str("["), render_expr(a).as_str());
            let out = concat(out, ", ..");
            let out = concat(out, render_expr(st).as_str());
            match b {
                Some(b) => {
                    let out = concat(out, ".., ");
                    let out = concat(out, render_expr(b).as_str());
                    concat(out, "] ")
                },
                None => concat(out, "..] "),
            }
        },
        Expr::Lambda(x, b) => {
            let out = concat(lit_str("(\\"), x.as_str());
            let out = concat(out, " -> ");
            let out = concat(out, render_expr(b).as_str());
            concat(out, ")")
        },
        Expr::Let(x, a, b) => {
            let out = concat(lit_str("let "), x.as_str());
            let out = concat(out, " = ");
            let out = concat(out, render_expr(a).as_str());
            let out = concat(out, " in ");
            concat(out, render_expr(b).as_str())
        },
    }
}

fn render_list_exprs(l: &List<Expr>, parts: &mut Vec<String>)
    ensures
        final(parts)@.map_values(|q: String| q@) == old(parts)@.map_values(|q: String| q@) + show_terms(list_model(l)),
    decreases l, 0nat,
{
    match l {
        List::Cons(h, t) => {
            let ghost before = parts@;
            let q = render_expr(h);
            parts.push(q);
            render_list_exprs(t, parts);
            proof {
                lemma_show_terms_cons(h@, list_model(t));
                assert(parts@.map_values(|q: String| q@) =~= before.map_values(|q: String| q@) + show_terms(list_model(l)));
            }
        },
        List::Empty => {
            proof {
                assert(parts@.map_values(|q: String| q@) =~= parts@.map_values(|q: String| q@) + show_terms(list_model(l)));
            }
        },
    }
}

proof fn lemma_show_terms_cons(h: Term, t: Seq<Term>)
    ensures
        show_terms(seq![h] + t) == seq![show_term(h)] + show_terms(t),
    decreases t.len(),
{
    if t.len() == 0 {
        assert((seq![h] + t).drop_last() =~= Seq::<Term>::empty());
        assert((seq![h] + t).last() == h);
        assert(show_terms(Seq::<Term>::empty()) =~= Seq::<Seq<char>>::empty());
        assert(show_terms(seq![h] + t) =~= seq![show_term(h)] + show_terms(t));
    } else {
        assert((seq![h] + t).drop_last() =~= seq![h] + t.drop_last());
        assert((seq![h] + t).last() == t.last());
        lemma_show_terms_cons(h, t.drop_last());
        assert(show_terms(t) == show_terms(t.drop_last()).push(show_term(t.last())));
        assert(show_terms(seq![h] + t) =~= seq![show_term(h)] + show_terms(t));
    }
}

fn render_exprs(es: &Vec<Expr>) -> (r: String)
    ensures
        r@ == join(show_terms(exprs_model(es@)), ", "@),
    decreases es, 0nat,
{
    let ghost all = exprs_model(es@);
    proof {
        lemma_exprs_model(es@);
    }
    let mut parts: Vec<String> = Vec::new();
    let mut i: usize = 0;
    while i < es.len()
        invariant
            i <= es.len(),
            all == exprs_model(es@),
            all.len() == es.len(),
            forall|j: int| 0 <= j < es.len() ==> #[trigger] all[j] == es@[j]@,
            parts@.map_values(|q: String| q@) == show_terms(all.subrange(0, i as int)),
        decreases es.len() - i,
    {
        proof {
            assert(decreases_to!(*es => es[i as int]));
        }
        let q = render_expr(&es[i]);
        let ghost before = parts@;
        parts.push(q);
        proof {
            assert(all.subrange(0, i + 1).drop_last() =~= all.subrange(0, i as int));
            assert(parts@.map_values(|q: String| q@) =~= before.map_values(|q: String| q@).push(q@));
        }
        i = i + 1;
    }
    proof {
        assert(all.subrange(0, es.len() as int) =~= all);
    }
    join_strings(&parts, ", ")
}

fn render_alts(alts: &Vec<(Pattern, Expr)>) -> (r: String)
    ensures
        r@ == show_alts(alts_model(alts@)),
    decreases alts, 0nat,
{
    let ghost all = alts_model(alts@);
    proof {
        lemma_alts_model(alts@);
    }
    let mut out = String::new();
    let mut i: usize = 0;
    while i < alts.len()
        invariant
            i <= alts.len(),
            all == alts_model(alts@),
            all.len() == alts.len(),
            forall|j: int| 0 <= j < alts.len() ==> #[trigger] all[j] == (alts@[j].0@, alts@[j].1@),
            out@ == show_alts(all.subrange(0, i as int)),
        decreases alts.len() - i,
    {
        proof {
            assert(decreases_to!(*alts => alts[i as int]));
            assert(decreases_to!(alts[i as int] => alts[i as int].1));
            assert(all.subrange(0, i + 1).drop_last() =~= all.subrange(0, i as int));
        }
        out = concat(out, render_pattern(&alts[i].0).as_str());
        out = concat(out, " -> ");
        out = concat(out, render_expr(&alts[i].1).as_str());
        out = concat(out, "; ");
        i = i + 1;
    }
    proof {
        assert(all.subrange(0, alts.len() as int) =~= all);
    }
    out
}

/// Renders a declaration as it is written.
pub fn render_decl(d: &Decl) -> (r: String)
    ensures
        r@ == show_decl(d@),
{
    proof {
        reveal_strlit(" ");
    }
    match d {
        Decl::TypeAlias(n, t) => {
            let out = concat(lit_str("type "), n.as_str());
            let out = concat(out, " = ");
            concat(out, render_type(t).as_str())
        },
        Decl::TypeSignature(n, t) => {
            let out = concat(n.clone(), " :: ");
            concat(out, render_type(t).as_str())
        },
        Decl::FunDecl(n, ps, e) => {
            let out = concat(n.clone(), " ");
            proof {
                assert(names_model(ps@) =~= ps@.map_values(|p: String| p@));
            }
            let out = concat(out, join_strings(ps, " ").as_str());
            let out = concat(out, " ");
            let out = concat(out, "= ");
            concat(out, render_expr(e).as_str())
        },
        Decl::SExpr(e) => render_expr(e),
        Decl::EndOfInstruction => String::new(),
    }
}

/// The message that describes a typing error.
pub open spec fn typing_message(e: TypeErr) -> Seq<char> {
    match e {
        TypeErr::HetrogenousList(a, b) => "Cannot unify types "@ + show_ty(a) + " and "@ + show_ty(b) + " in a list"@,
        TypeErr::UnknownIdentifier(n) => "Cannot find type of "@ + n,
        TypeErr::CannotUnify(a, b) => "Cannot unify types "@ + show_ty(a) + " and "@ + show_ty(b),
        TypeErr::DuplicateTypeVariable(n) => "Duplicate Type Variable "@ + n,
        TypeErr::NameSupplyExhausted => "Ran out of fresh type variable names"@,
    }
}

/// The message that describes a runtime error.
pub open spec fn runtime_message(e: RtErr) -> Seq<char> {
    match e {
        RtErr::MissingArgument => "Expected Argument for function but found none"@,
        RtErr::VariableNotFound(n) => "Could not find unbound variable "@ + n,
        RtErr::TypeError(t, k) => "Expected type "@ + show_ty(t) + ", but found "@ + k,
        RtErr::EndOfProgram => "Reached end of program"@,
        RtErr::NonExhaustivePattern => "Found non Exhaustive pattern in function"@,
        RtErr::DivisionByZero => "Division by zero"@,
        RtErr::OutOfFuel => "Evaluation went deeper than its budget"@,
    }
}

/// The message that describes a parsing error.
pub open spec fn parsing_message(e: ParseErr) -> Seq<char> {
    match e {
        ParseErr::MultipleDefinitions(n) => "Found multiple Definitions for symbol "@ + n,
        ParseErr::UnknownSymbol(n) => "symbol "@ + n + " is used but never declared"@,
        ParseErr::SyntaxError(line, what) => "Syntax error on line "@ + decimal(line) + ": expected "@ + what,
        ParseErr::GrammarError => "Critical Error in Language Grammar"@,
        ParseErr::VaryingArity(n) => "Equations for "@ + n + " have different numbers of arguments"@,
    }
}

fn concat(mut a: String, b: &str) -> (r: String)
    ensures
        r@ == a@ + b@,
{
    a.append(b);
    a
}

impl TypingError {
    /// A human-readable description of the error.
    pub fn message(&self) -> (r: String)
        ensures
            r@ == typing_message(self@),
    {
        match self {
            TypingError::HetrogenousList(a, b) => {
                let s = concat(String::from_str("Cannot unify types "), render_type(a).as_str());
                let s = concat(s, " and ");
                let s = concat(s, render_type(b).as_str());
                concat(s, " in a list")
            },
            TypingError::UnknownIdentifier(n) => concat(String::from_str("Cannot find type of "), n.as_str()),
            TypingError::CannotUnify(a, b) => {
                let s = concat(String::from_str("Cannot unify types "), render_type(a).as_str());
                let s = concat(s, " and ");
                concat(s, render_type(b).as_str())
            },
            TypingError::DuplicateTypeVariable(n) => concat(String::from_str("Duplicate Type Variable "), n.as_str()),
            TypingError::NameSupplyExhausted => String::from_str("Ran out of fresh type variable names"),
        }
    }
}

impl RunTimeError {
    /// A human-readable description of the error.
    pub fn message(&self) -> (r: String)
        ensures
            r@ == runtime_message(self@),
    {
        match self {
            RunTimeError::MissingArgument => String::from_str("Expected Argument for function but found none"),
            RunTimeError::VariableNotFound(n) => concat(String::from_str("Could not find unbound variable "), n.as_str()),
            RunTimeError::TypeError(t, k) => {
                let s = concat(String::from_str("Expected type "), render_type(t).as_str());
                let s = concat(s, ", but found ");
                concat(s, k.as_str())
            },
            RunTimeError::EndOfProgram => String::from_str("Reached end of program"),
            RunTimeError::NonExhaustivePattern => String::from_str("Found non Exhaustive pattern in function"),
            RunTimeError::DivisionByZero => String::from_str("Division by zero"),
            RunTimeError::OutOfFuel => String::from_str("Evaluation went deeper than its budget"),
        }
    }
}

impl ParsingError {
    /// A human-readable description of the error.
    pub fn message(&self) -> (r: String)
        ensures
            r@ == parsing_message(self@),
    {
        match self {
            ParsingError::MultipleDefinitions(n) => concat(String::from_str("Found multiple Definitions for symbol "), n.as_str()),
            ParsingError::UnknownSymbol(n) => {
                let s = concat(String::from_str("symbol "), n.as_str());
                concat(s, " is used but never declared")
            },
            ParsingError::SyntaxError(line, what) => {
                let mut s = String::from_str("Syntax error on line ");
                push_decimal(&mut s, *line as u64);
                let s = concat(s, ": expected ");
                concat(s, what.as_str())
            },
            ParsingError::GrammarError => String::from_str("Critical Error in Language Grammar"),
            ParsingError::VaryingArity(n) => {
                let s = concat(String::from_str("Equations for "), n.as_str());
                concat(s, " have different numbers of arguments")
            },
        }
    }
}

} // verus!
