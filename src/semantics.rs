//! The lazy evaluator's semantics over the mathematical models. Every step
//! spends one unit of a depth budget (fuel); running out is an error rather
//! than divergence.
use vstd::prelude::*;

use crate::ast::{Lit, Op, Pat, Term, Ty};
use crate::value::{RtErr, Scope, Val, scope_get};

verus! {

/// Variables are looked up in the local scope first, then among the
/// top-level functions.
pub open spec fn lookup_var(funs: Scope, env: Scope, n: Seq<char>) -> Option<Val> {
    match scope_get(env, n) {
        Option::Some(v) => Option::Some(v),
        Option::None => scope_get(funs, n),
    }
}

/// A suspended evaluation of `e` in `env`.
pub open spec fn thunk_of(e: Term, env: Scope) -> Val {
    Val::Closure(e, Seq::empty(), env)
}

pub open spec fn thunks(es: Seq<Term>, env: Scope) -> Seq<Val> {
    es.map_values(|e: Term| thunk_of(e, env))
}

/// A short name for the kind of a value, for error messages.
pub open spec fn kind_name(v: Val) -> Seq<char> {
    match v {
        Val::Lit(Lit::Int(_)) => "Int"@,
        Val::Lit(Lit::Bool(_)) => "Bool"@,
        Val::Lit(Lit::Char(_)) => "Char"@,
        Val::Lit(Lit::Str(_)) => "String"@,
        Val::Tuple(_) => "tuple"@,
        Val::Cons(_, _) => "list"@,
        Val::Nil => "list"@,
        Val::Closure(_, _, _) => "function"@,
    }
}

/// Division rounding toward zero, as Rust's `/` on `i64`, wrapping on the
/// one overflowing case.
pub open spec fn trunc_div(a: i64, b: i64) -> i64 {
    let q: int = (if a < 0 { -a } else { a as int }) / (if b < 0 { -b } else { b as int });
    let r: int = if (a < 0) != (b < 0) { -q } else { q };
    if r > i64::MAX { i64::MIN } else { r as i64 }
}

/// The remainder matching `trunc_div`, as Rust's `%` on `i64`.
pub open spec fn trunc_rem(a: i64, b: i64) -> i64 {
    let ua: int = if a < 0 { -a } else { a as int };
    let ub: int = if b < 0 { -b } else { b as int };
    let m: int = ua - ub * (ua / ub);
    (if a < 0 { -m } else { m }) as i64
}

/// Integer arithmetic: wrapping on overflow, an error on division by zero.
pub open spec fn arith(op: Op, a: i64, b: i64) -> Result<Val, RtErr> {
    match op {
        Op::Add => Ok(Val::Lit(Lit::Int(a.wrapping_add(b)))),
        Op::Sub => Ok(Val::Lit(Lit::Int(a.wrapping_sub(b)))),
        Op::Mul => Ok(Val::Lit(Lit::Int(a.wrapping_mul(b)))),
        Op::Div => if b == 0 { Err(RtErr::DivisionByZero) } else { Ok(Val::Lit(Lit::Int(trunc_div(a, b)))) },
        _ => if b == 0 { Err(RtErr::DivisionByZero) } else { Ok(Val::Lit(Lit::Int(trunc_rem(a, b)))) },
    }
}

pub open spec fn compare(op: Op, a: i64, b: i64) -> bool {
    match op {
        Op::Lt => a < b,
        Op::Gt => a > b,
        Op::Le => a <= b,
        _ => a >= b,
    }
}

/// Structural equality of forced values over their literal leaves;
/// functions are never equal.
pub open spec fn values_eq(a: Val, b: Val) -> bool
    decreases a,
{
    match (a, b) {
        (Val::Lit(x), Val::Lit(y)) => x == y,
        (Val::Tuple(xs), Val::Tuple(ys)) => xs.len() == ys.len() && values_eq_seq(xs, ys),
        (Val::Cons(x, xt), Val::Cons(y, yt)) => values_eq(*x, *y) && values_eq(*xt, *yt),
        (Val::Nil, Val::Nil) => true,
        _ => false,
    }
}

pub open spec fn values_eq_seq(xs: Seq<Val>, ys: Seq<Val>) -> bool
    decreases xs,
{
    if xs.len() == 0 || ys.len() == 0 {
        true
    } else {
        values_eq(xs[0], ys[0]) && values_eq_seq(xs.skip(1), ys.skip(1))
    }
}

/// The cell of a range starting at `start`.
pub open spec fn range_cell(start: i64, step: i64, stop: Option<i64>, env: Scope) -> Val {
    if stop is Some && start > stop->0 {
        Val::Nil
    } else {
        Val::Cons(
            Box::new(Val::Lit(Lit::Int(start))),
            Box::new(
                thunk_of(
                    Term::Range(
                        Box::new(Term::Lit(Lit::Int(start.wrapping_add(step)))),
                        Box::new(Term::Lit(Lit::Int(step))),
                        match stop {
                            Option::Some(x) => Option::Some(Box::new(Term::Lit(Lit::Int(x)))),
                            Option::None => Option::None,
                        },
                    ),
                    env,
                ),
            ),
        )
    }
}

/// `elems` consed in order onto `tail`.
pub open spec fn prepend(elems: Seq<Val>, tail: Val) -> Val
    decreases elems.len(),
{
    if elems.len() == 0 {
        tail
    } else {
        Val::Cons(Box::new(elems[0]), Box::new(prepend(elems.skip(1), tail)))
    }
}

/// Evaluation of an expression to weak head normal form.
pub open spec fn eval_spec(funs: Scope, env: Scope, e: Term, f: nat) -> Result<Val, RtErr>
    decreases f, 0nat,
{
    if f == 0 {
        Err(RtErr::OutOfFuel)
    } else {
        let g = (f - 1) as nat;
        match e {
            Term::Var(n) => match lookup_var(funs, env, n) {
                Option::None => Err(RtErr::VariableNotFound(n)),
                Option::Some(v) => force_thunk(funs, v, g),
            },
            Term::Lit(l) => Ok(Val::Lit(l)),
            Term::Tuple(es) => Ok(Val::Tuple(thunks(es, env))),
            Term::If(c, a, b) => match eval_bool_spec(funs, env, *c, g) {
                Ok(true) => eval_spec(funs, env, *a, g),
                Ok(false) => eval_spec(funs, env, *b, g),
                Err(er) => Err(er),
            },
            Term::Lambda(x, b) => Ok(Val::Closure(*b, seq![x], env)),
            Term::Let(x, e1, e2) => eval_spec(funs, env.push((x, thunk_of(*e1, env))), *e2, g),
            Term::BinOp(l, op, r) => eval_binop_spec(funs, env, *l, op, *r, g),
            Term::App(fe, a) => match eval_spec(funs, env, *fe, g) {
                Ok(Val::Closure(body, ps, cenv)) => if ps.len() == 0 {
                    Err(RtErr::MissingArgument)
                } else {
                    let new_env = cenv.push((ps.last(), thunk_of(*a, env)));
                    if ps.len() == 1 {
                        eval_spec(funs, new_env, body, g)
                    } else {
                        Ok(Val::Closure(body, ps.drop_last(), new_env))
                    }
                },
                Ok(v) => Err(RtErr::TypeError(Ty::Fun(Box::new(Ty::Tuple(Seq::empty())), Box::new(Ty::Tuple(Seq::empty()))), kind_name(v))),
                Err(er) => Err(er),
            },
            Term::Case(s, alts) => eval_case_spec(funs, env, *s, alts, g),
            Term::List(es) => if es.len() == 0 {
                Ok(Val::Nil)
            } else {
                Ok(Val::Cons(Box::new(thunk_of(es[0], env)), Box::new(thunk_of(Term::List(es.skip(1)), env))))
            },
            Term::Range(a, st, b) => match eval_int_spec(funs, env, *a, g) {
                Ok(start) => match eval_int_spec(funs, env, *st, g) {
                    Ok(step) => match b {
                        Option::Some(b) => match eval_int_spec(funs, env, *b, g) {
                            Ok(stop) => Ok(range_cell(start, step, Option::Some(stop), env)),
                            Err(er) => Err(er),
                        },
                        Option::None => Ok(range_cell(start, step, Option::None, env)),
                    },
                    Err(er) => Err(er),
                },
                Err(er) => Err(er),
            },
        }
    }
}

/// A thunk is evaluated; any other value is already a result.
pub open spec fn force_thunk(funs: Scope, v: Val, f: nat) -> Result<Val, RtErr>
    decreases f, 0nat,
{
    if f == 0 {
        Err(RtErr::OutOfFuel)
    } else {
        match v {
            Val::Closure(e, ps, cenv) => if ps.len() == 0 {
                eval_spec(funs, cenv, e, (f - 1) as nat)
            } else {
                Ok(v)
            },
            _ => Ok(v),
        }
    }
}

pub open spec fn eval_int_spec(funs: Scope, env: Scope, e: Term, f: nat) -> Result<i64, RtErr>
    decreases f, 0nat,
{
    if f == 0 {
        Err(RtErr::OutOfFuel)
    } else {
        match eval_spec(funs, env, e, (f - 1) as nat) {
            Ok(Val::Lit(Lit::Int(v))) => Ok(v),
            Ok(v) => Err(RtErr::TypeError(Ty::Int, kind_name(v))),
            Err(er) => Err(er),
        }
    }
}

pub open spec fn eval_bool_spec(funs: Scope, env: Scope, e: Term, f: nat) -> Result<bool, RtErr>
    decreases f, 0nat,
{
    if f == 0 {
        Err(RtErr::OutOfFuel)
    } else {
        match eval_spec(funs, env, e, (f - 1) as nat) {
            Ok(v) => match force_thunk(funs, v, (f - 1) as nat) {
                Ok(Val::Lit(Lit::Bool(b))) => Ok(b),
                Ok(w) => Err(RtErr::TypeError(Ty::Bool, kind_name(w))),
                Err(er) => Err(er),
            },
            Err(er) => Err(er),
        }
    }
}

/// The elements along a list's spine, each tail evaluated as far as its
/// next cell; at most `k` cells.
pub open spec fn spine(funs: Scope, v: Val, f: nat, k: nat) -> Result<Seq<Val>, RtErr>
    decreases f, k,
{
    if f == 0 || k == 0 {
        Err(RtErr::OutOfFuel)
    } else {
        match v {
            Val::Cons(x, xs) => {
                let next = match *xs {
                    Val::Closure(e, _, cenv) => eval_spec(funs, cenv, e, (f - 1) as nat),
                    other => Ok(other),
                };
                match next {
                    Ok(nv) => match spine(funs, nv, f, (k - 1) as nat) {
                        Ok(rest) => Ok(seq![*x] + rest),
                        Err(er) => Err(er),
                    },
                    Err(er) => Err(er),
                }
            },
            _ => Ok(Seq::empty()),
        }
    }
}

pub open spec fn eval_binop_spec(funs: Scope, env: Scope, l: Term, op: Op, r: Term, f: nat) -> Result<Val, RtErr>
    decreases f, 0nat,
{
    if f == 0 {
        Err(RtErr::OutOfFuel)
    } else {
        let g = (f - 1) as nat;
        match op {
            Op::Add | Op::Sub | Op::Mul | Op::Div | Op::Mod => match eval_int_spec(funs, env, l, g) {
                Ok(a) => match eval_int_spec(funs, env, r, g) {
                    Ok(b) => arith(op, a, b),
                    Err(er) => Err(er),
                },
                Err(er) => Err(er),
            },
            Op::Lt | Op::Gt | Op::Le | Op::Ge => match eval_int_spec(funs, env, l, g) {
                Ok(a) => match eval_int_spec(funs, env, r, g) {
                    Ok(b) => Ok(Val::Lit(Lit::Bool(compare(op, a, b)))),
                    Err(er) => Err(er),
                },
                Err(er) => Err(er),
            },
            Op::And | Op::Or => match eval_bool_spec(funs, env, l, g) {
                Ok(a) => match eval_bool_spec(funs, env, r, g) {
                    Ok(b) => Ok(Val::Lit(Lit::Bool(if op == Op::And { a && b } else { a || b }))),
                    Err(er) => Err(er),
                },
                Err(er) => Err(er),
            },
            Op::Eq | Op::Neq => match eval_spec(funs, env, l, g) {
                Ok(a) => match eval_spec(funs, env, r, g) {
                    Ok(b) => match force_spec(funs, a, g) {
                        Ok(fa) => match force_spec(funs, b, g) {
                            Ok(fb) => Ok(Val::Lit(Lit::Bool(if op == Op::Eq { values_eq(fa, fb) } else { !values_eq(fa, fb) }))),
                            Err(er) => Err(er),
                        },
                        Err(er) => Err(er),
                    },
                    Err(er) => Err(er),
                },
                Err(er) => Err(er),
            },
            Op::Append => match eval_spec(funs, env, l, g) {
                Ok(a) => match eval_spec(funs, env, r, g) {
                    Ok(b) => match spine(funs, a, g, u64::MAX as nat) {
                        Ok(elems) => Ok(prepend(elems, b)),
                        Err(er) => Err(er),
                    },
                    Err(er) => Err(er),
                },
                Err(er) => Err(er),
            },
            Op::Cons => Ok(Val::Cons(Box::new(thunk_of(l, env)), Box::new(thunk_of(r, env)))),
        }
    }
}

/// The first alternative whose pattern matches selects the body.
pub open spec fn eval_case_spec(funs: Scope, env: Scope, s: Term, alts: Seq<(Pat, Term)>, f: nat) -> Result<Val, RtErr>
    decreases f, alts.len(),
{
    if f == 0 {
        Err(RtErr::OutOfFuel)
    } else if alts.len() == 0 {
        Err(RtErr::NonExhaustivePattern)
    } else {
        match match_pattern_spec(funs, env, alts[0].0, s, (f - 1) as nat) {
            Ok(Option::Some(env2)) => eval_spec(funs, env2, alts[0].1, (f - 1) as nat),
            Ok(Option::None) => eval_case_spec(funs, env, s, alts.skip(1), f),
            Err(er) => Err(er),
        }
    }
}

/// Matching a pattern against an unevaluated scrutinee: variables and
/// wildcards match without evaluating it.
pub open spec fn match_pattern_spec(funs: Scope, env: Scope, p: Pat, e: Term, f: nat) -> Result<Option<Scope>, RtErr>
    decreases f, 0nat,
{
    if f == 0 {
        Err(RtErr::OutOfFuel)
    } else {
        let g = (f - 1) as nat;
        match p {
            Pat::Var(n) => Ok(Option::Some(env.push((n, thunk_of(e, env))))),
            Pat::Wildcard => Ok(Option::Some(env)),
            Pat::EmptyList => match eval_spec(funs, env, e, g) {
                Ok(Val::Nil) => Ok(Option::Some(env)),
                Ok(_) => Ok(Option::None),
                Err(er) => Err(er),
            },
            Pat::Lit(l1) => match eval_spec(funs, env, e, g) {
                Ok(Val::Lit(l2)) => if l1 == l2 { Ok(Option::Some(env)) } else { Ok(Option::None) },
                Ok(_) => Ok(Option::None),
                Err(er) => Err(er),
            },
            Pat::Cons(_, _) => match eval_spec(funs, env, e, g) {
                Ok(v) => matches_value_spec(funs, env, p, v, g),
                Err(er) => Err(er),
            },
            Pat::Tuple(ps) => match eval_spec(funs, env, e, g) {
                Ok(v) => matches_value_spec(funs, env, Pat::Tuple(ps), v, g),
                Err(er) => Err(er),
            },
            Pat::FakeTuple(ps) => match eval_spec(funs, env, e, g) {
                Ok(v) => matches_value_spec(funs, env, Pat::Tuple(ps), v, g),
                Err(er) => Err(er),
            },
        }
    }
}

/// Matching a pattern against a value, forcing thunks on demand.
pub open spec fn matches_value_spec(funs: Scope, env: Scope, p: Pat, v: Val, f: nat) -> Result<Option<Scope>, RtErr>
    decreases f, 0nat,
{
    if f == 0 {
        Err(RtErr::OutOfFuel)
    } else {
        let g = (f - 1) as nat;
        if p is Wildcard {
            Ok(Option::Some(env))
        } else if p is Lit && v is Lit {
            if p->Lit_0 == v->Lit_0 { Ok(Option::Some(env)) } else { Ok(Option::None) }
        } else if p is Var {
            Ok(Option::Some(env.push((p->Var_0, v))))
        } else if p is EmptyList && v is Nil {
            Ok(Option::Some(env))
        } else if p is Cons && v is Cons {
            match matches_value_spec(funs, env, *p->Cons_0, *v->Cons_0, g) {
                Ok(Option::Some(env2)) => matches_value_spec(funs, env2, *p->Cons_1, *v->Cons_1, g),
                Ok(Option::None) => Ok(Option::None),
                Err(er) => Err(er),
            }
        } else if v is Closure {
            if v->Closure_1.len() != 0 {
                Ok(Option::None)
            } else {
                match eval_spec(funs, v->Closure_2, v->Closure_0, g) {
                    Ok(v2) => matches_value_spec(funs, env, p, v2, g),
                    Err(er) => Err(er),
                }
            }
        } else if p is Tuple && v is Tuple {
            if p->Tuple_0.len() == v->Tuple_0.len() {
                matches_seq_spec(funs, env, p->Tuple_0, v->Tuple_0, g)
            } else {
                Ok(Option::None)
            }
        } else if p is FakeTuple && v is Tuple {
            if p->FakeTuple_0.len() == v->Tuple_0.len() {
                matches_seq_spec(funs, env, p->FakeTuple_0, v->Tuple_0, g)
            } else {
                Ok(Option::None)
            }
        } else {
            Ok(Option::None)
        }
    }
}

/// Matching tuple components pairwise, left to right.
pub open spec fn matches_seq_spec(funs: Scope, env: Scope, ps: Seq<Pat>, vs: Seq<Val>, f: nat) -> Result<Option<Scope>, RtErr>
    decreases f, ps.len(),
{
    if f == 0 {
        Err(RtErr::OutOfFuel)
    } else if ps.len() == 0 || vs.len() == 0 {
        Ok(Option::Some(env))
    } else {
        match matches_value_spec(funs, env, ps[0], vs[0], (f - 1) as nat) {
            Ok(Option::Some(env2)) => matches_seq_spec(funs, env2, ps.skip(1), vs.skip(1), f),
            Ok(Option::None) => Ok(Option::None),
            Err(er) => Err(er),
        }
    }
}

/// Full evaluation for printing: tuples, lists and thunks (closures with no
/// parameters left) are forced all the way down; functions that still await
/// arguments stay as they are.
pub open spec fn force_spec(funs: Scope, v: Val, f: nat) -> Result<Val, RtErr>
    decreases f, 0nat,
{
    if f == 0 {
        Err(RtErr::OutOfFuel)
    } else {
        let g = (f - 1) as nat;
        match v {
            Val::Tuple(vs) => match force_seq_spec(funs, vs, g, Seq::empty()) {
                Ok(ws) => Ok(Val::Tuple(ws)),
                Err(er) => Err(er),
            },
            Val::Closure(e, ps, cenv) => if ps.len() == 0 {
                match eval_spec(funs, cenv, e, g) {
                    Ok(w) => force_spec(funs, w, g),
                    Err(er) => Err(er),
                }
            } else {
                Ok(v)
            },
            Val::Cons(x, xs) => match force_spec(funs, *x, g) {
                Ok(fx) => match force_spec(funs, *xs, g) {
                    Ok(fxs) => Ok(Val::Cons(Box::new(fx), Box::new(fxs))),
                    Err(er) => Err(er),
                },
                Err(er) => Err(er),
            },
            _ => Ok(v),
        }
    }
}

pub open spec fn force_seq_spec(funs: Scope, vs: Seq<Val>, f: nat, acc: Seq<Val>) -> Result<Seq<Val>, RtErr>
    decreases f, vs.len(),
{
    if f == 0 {
        Err(RtErr::OutOfFuel)
    } else if vs.len() == 0 {
        Ok(acc)
    } else {
        match force_spec(funs, vs[0], (f - 1) as nat) {
            Ok(w) => force_seq_spec(funs, vs.skip(1), f, acc.push(w)),
            Err(er) => Err(er),
        }
    }
}

} // verus!
