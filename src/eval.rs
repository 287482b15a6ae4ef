//! The lazy evaluator.
use vstd::prelude::*;

use crate::ast::{
    Expr, List, Literal, Op, Pattern, Type, alts_model, clone_list, clone_patterns, exprs_model,
    lemma_alts_model, lemma_exprs_model, list_model, names_model, patterns_model, lemma_patterns_model,
};
use crate::semantics::{
    arith, eval_binop_spec, eval_bool_spec, eval_case_spec, eval_int_spec,
    eval_spec, force_seq_spec, force_spec, force_thunk, kind_name, match_pattern_spec,
    matches_seq_spec, matches_value_spec, prepend, range_cell, spine, thunk_of, thunks, values_eq, values_eq_seq,
};
use crate::value::{Env, RtErr, RunTimeError, Scope, Val, Value, lemma_values_model, lemma_values_model_push, values_model};

verus! {

/// The result of an evaluation, as a mathematical value.
pub open spec fn value_result(r: Result<Value, RunTimeError>) -> Result<Val, RtErr> {
    match r {
        Ok(v) => Ok(v@),
        Err(e) => Err(e@),
    }
}

/// The result of a match, as a mathematical value.
pub open spec fn match_result(r: Result<Option<Env>, RunTimeError>) -> Result<Option<Scope>, RtErr> {
    match r {
        Ok(Option::Some(e)) => Ok(Option::Some(e@)),
        Ok(Option::None) => Ok(Option::None),
        Err(e) => Err(e@),
    }
}

fn no_params() -> (r: Vec<String>)
    ensures
        names_model(r@) == Seq::<Seq<char>>::empty(),
{
    let r: Vec<String> = Vec::new();
    proof {
        assert(names_model(r@) =~= Seq::<Seq<char>>::empty());
    }
    r
}

/// A suspended evaluation of `e` in `env`.
fn thunk(e: &Expr, env: &Env) -> (r: Value)
    ensures
        r@ == thunk_of(e@, env@),
{
    closure_value(e.clone(), no_params(), env.clone())
}

fn kind(v: &Value) -> (r: String)
    ensures
        r@ == kind_name(v@),
{
    match v {
        Value::Literal(Literal::Int(_)) => String::from_str("Int"),
        Value::Literal(Literal::Bool(_)) => String::from_str("Bool"),
        Value::Literal(Literal::Char(_)) => String::from_str("Char"),
        Value::Literal(Literal::String(_)) => String::from_str("String"),
        Value::Tuple(_) => String::from_str("tuple"),
        Value::List(_, _) => String::from_str("list"),
        Value::EmptyList => String::from_str("list"),
        Value::Closure(_, _, _) => String::from_str("function"),
    }
}

fn literal_eq(a: &Literal, b: &Literal) -> (r: bool)
    ensures
        r == (a@ == b@),
{
    match (a, b) {
        (Literal::Int(x), Literal::Int(y)) => *x == *y,
        (Literal::Bool(x), Literal::Bool(y)) => *x == *y,
        (Literal::Char(x), Literal::Char(y)) => *x == *y,
        (Literal::String(x), Literal::String(y)) => *x == *y,
        _ => false,
    }
}

fn int_value(i: i64) -> (r: Value)
    ensures
        r@ == Val::Lit(crate::ast::Lit::Int(i)),
{
    Value::Literal(Literal::Int(i))
}

fn bool_value(b: bool) -> (r: Value)
    ensures
        r@ == Val::Lit(crate::ast::Lit::Bool(b)),
{
    Value::Literal(Literal::Bool(b))
}

fn lit_expr(i: i64) -> (r: Expr)
    ensures
        r@ == crate::ast::Term::Lit(crate::ast::Lit::Int(i)),
{
    Expr::Literal(Literal::Int(i))
}

fn range_expr(a: Expr, b: Expr, c: Option<Expr>) -> (r: Expr)
    ensures
        r@ == crate::ast::Term::Range(
            Box::new(a@),
            Box::new(b@),
            match c {
                Option::Some(c) => Option::Some(Box::new(c@)),
                Option::None => Option::None,
            },
        ),
{
    let c2 = match c {
        Some(c) => Some(Box::new(c)),
        None => None,
    };
    Expr::Range(Box::new(a), Box::new(b), c2)
}

fn closure_value(e: Expr, ps: Vec<String>, env: Env) -> (r: Value)
    ensures
        r@ == Val::Closure(e@, names_model(ps@), env@),
{
    Value::Closure(e, ps, env)
}

fn list_expr(l: List<Expr>) -> (r: Expr)
    ensures
        r@ == crate::ast::Term::List(list_model(&l)),
{
    Expr::List(l)
}

fn cons_value(h: Value, t: Value) -> (r: Value)
    ensures
        r@ == Val::Cons(Box::new(h@), Box::new(t@)),
{
    Value::List(Box::new(h), Box::new(t))
}

fn fun_of(a: Type, b: Type) -> (r: Type)
    ensures
        r@ == crate::ast::Ty::Fun(Box::new(a@), Box::new(b@)),
{
    Type::Function(Box::new(a), Box::new(b))
}

fn function_type() -> (r: Type)
    ensures
        r@ == crate::ast::Ty::Fun(
            Box::new(crate::ast::Ty::Tuple(Seq::empty())),
            Box::new(crate::ast::Ty::Tuple(Seq::empty())),
        ),
{
    let a: Vec<Type> = Vec::new();
    let b: Vec<Type> = Vec::new();
    proof {
        assert(crate::ast::types_model(a@) =~= Seq::<crate::ast::Ty>::empty());
        assert(crate::ast::types_model(b@) =~= Seq::<crate::ast::Ty>::empty());
    }
    fun_of(Type::Tuple(a), Type::Tuple(b))
}

/// Evaluates an expression to weak head normal form within the depth
/// budget `fuel`.
pub fn eval_expr(funs: &Env, env: &Env, expr: &Expr, fuel: u64) -> (r: Result<Value, RunTimeError>)
    ensures
        value_result(r) == eval_spec(funs@, env@, expr@, fuel as nat),
    decreases fuel, 0nat,
{
    if fuel == 0 {
        return Err(RunTimeError::OutOfFuel);
    }
    let g = fuel - 1;
    match expr {
        Expr::Var(name) => match env.lookup(name) {
            Some(v) => handle_closure(funs, v, g),
            None => match funs.lookup(name) {
                Some(v) => handle_closure(funs, v, g),
                None => Err(RunTimeError::VariableNotFound(name.clone())),
            },
        },
        Expr::Literal(l) => Ok(Value::Literal(l.clone())),
        Expr::Tuple(es) => {
            let mut out: Vec<Value> = Vec::new();
            let mut i: usize = 0;
            proof {
                lemma_exprs_model(es@);
            }
            while i < es.len()
                invariant
                    i <= es.len(),
                    exprs_model(es@).len() == es.len(),
                    forall|j: int| 0 <= j < es.len() ==> #[trigger] exprs_model(es@)[j] == es@[j]@,
                    values_model(out@) == thunks(exprs_model(es@).subrange(0, i as int), env@),
                decreases es.len() - i,
            {
                let t = thunk(&es[i], env);
                proof {
                    lemma_values_model_push(out@, t);
                    assert(thunks(exprs_model(es@).subrange(0, i + 1), env@) =~= thunks(
                        exprs_model(es@).subrange(0, i as int),
                        env@,
                    ).push(t@));
                }
                out.push(t);
                i = i + 1;
            }
            proof {
                assert(exprs_model(es@).subrange(0, es.len() as int) =~= exprs_model(es@));
            }
            Ok(Value::Tuple(out))
        },
        Expr::If(test, ethen, eelse) => match eval_bool(funs, env, test, g) {
            Ok(true) => eval_expr(funs, env, ethen, g),
            Ok(false) => eval_expr(funs, env, eelse, g),
            Err(er) => Err(er),
        },
        Expr::Lambda(var_name, body) => {
            let params = vec![var_name.clone()];
            proof {
                assert(names_model(params@) =~= seq![var_name@]);
            }
            Ok(closure_value((**body).clone(), params, env.clone()))
        },
        Expr::Let(var_name, expr1, expr2) => {
            let new_env = env.extended(var_name.clone(), thunk(expr1, env));
            eval_expr(funs, &new_env, expr2, g)
        },
        Expr::BinOp(l, op, r) => eval_binop(funs, env, l, *op, r, g),
        Expr::Application(f, e) => match eval_expr(funs, env, f, g) {
            Ok(Value::Closure(body, params, c_env)) => {
                let mut params = params;
                let ghost ps = names_model(params@);
                let ghost old_params = params@;
                match params.pop() {
                    None => Err(RunTimeError::MissingArgument),
                    Some(name) => {
                        proof {
                            assert(names_model(params@) =~= ps.drop_last());
                            assert(name == old_params.last());
                            assert(name@ == ps.last());
                            assert(ps.len() == old_params.len());
                        }
                        let new_env = c_env.extended(name, thunk(e, env));
                        if params.len() == 0 {
                            eval_expr(funs, &new_env, &body, g)
                        } else {
                            Ok(closure_value(body, params, new_env))
                        }
                    },
                }
            },
            Ok(v) => Err(RunTimeError::TypeError(function_type(), kind(&v))),
            Err(er) => Err(er),
        },
        Expr::Case(e, cases) => eval_case(funs, env, e, cases, g),
        Expr::List(ls) => match ls {
            List::Cons(head, tail) => {
                proof {
                    let m = list_model(ls);
                    assert(m.len() > 0);
                    assert(m.skip(1) =~= list_model(tail));
                }
                let rest = closure_value(list_expr(clone_list(tail)), no_params(), env.clone());
                Ok(cons_value(thunk(head, env), rest))
            },
            List::Empty => {
                proof {
                    assert(list_model(ls) =~= Seq::<crate::ast::Term>::empty());
                }
                Ok(Value::EmptyList)
            },
        },
        Expr::Range(start, step, stop) => {
            let start = match eval_int(funs, env, start, g) {
                Ok(v) => v,
                Err(er) => return Err(er),
            };
            let step = match eval_int(funs, env, step, g) {
                Ok(v) => v,
                Err(er) => return Err(er),
            };
            let stop = match stop {
                Some(stop) => match eval_int(funs, env, stop, g) {
                    Ok(v) => Some(v),
                    Err(er) => return Err(er),
                },
                None => None,
            };
            Ok(range_value(start, step, stop, env))
        },
    }
}

fn range_value(start: i64, step: i64, stop: Option<i64>, env: &Env) -> (r: Value)
    ensures
        r@ == range_cell(start, step, stop, env@),
{
    if let Some(stop) = stop {
        if start > stop {
            return Value::EmptyList;
        }
    }
    let last = match stop {
        Some(x) => Some(lit_expr(x)),
        None => None,
    };
    let next = range_expr(lit_expr(start.wrapping_add(step)), lit_expr(step), last);
    cons_value(int_value(start), thunk(&next, env))
}

/// A thunk is evaluated; any other value is returned as it is.
fn handle_closure(funs: &Env, v: Value, fuel: u64) -> (r: Result<Value, RunTimeError>)
    ensures
        value_result(r) == force_thunk(funs@, v@, fuel as nat),
    decreases fuel, 0nat,
{
    if fuel == 0 {
        return Err(RunTimeError::OutOfFuel);
    }
    match v {
        Value::Closure(e, args, c_env) => {
            if args.len() == 0 {
                eval_expr(funs, &c_env, &e, fuel - 1)
            } else {
                Ok(Value::Closure(e, args, c_env))
            }
        },
        val => Ok(val),
    }
}

fn eval_int(funs: &Env, env: &Env, expr: &Expr, fuel: u64) -> (r: Result<i64, RunTimeError>)
    ensures
        match (r, eval_int_spec(funs@, env@, expr@, fuel as nat)) {
            (Ok(a), Ok(b)) => a == b,
            (Err(a), Err(b)) => a@ == b,
            _ => false,
        },
    decreases fuel, 0nat,
{
    if fuel == 0 {
        return Err(RunTimeError::OutOfFuel);
    }
    match eval_expr(funs, env, expr, fuel - 1) {
        Ok(Value::Literal(Literal::Int(v))) => Ok(v),
        Ok(v) => Err(RunTimeError::TypeError(Type::Int, kind(&v))),
        Err(er) => Err(er),
    }
}

fn eval_bool(funs: &Env, env: &Env, expr: &Expr, fuel: u64) -> (r: Result<bool, RunTimeError>)
    ensures
        match (r, eval_bool_spec(funs@, env@, expr@, fuel as nat)) {
            (Ok(a), Ok(b)) => a == b,
            (Err(a), Err(b)) => a@ == b,
            _ => false,
        },
    decreases fuel, 0nat,
{
    if fuel == 0 {
        return Err(RunTimeError::OutOfFuel);
    }
    let v = match eval_expr(funs, env, expr, fuel - 1) {
        Ok(v) => v,
        Err(er) => return Err(er),
    };
    match handle_closure(funs, v, fuel - 1) {
        Ok(Value::Literal(Literal::Bool(b))) => Ok(b),
        Ok(w) => Err(RunTimeError::TypeError(Type::Bool, kind(&w))),
        Err(er) => Err(er),
    }
}

fn arith_value(op: Op, a: i64, b: i64) -> (r: Result<Value, RunTimeError>)
    ensures
        value_result(r) == arith(op, a, b),
{
    match op {
        Op::Add => Ok(int_value(a.wrapping_add(b))),
        Op::Sub => Ok(int_value(a.wrapping_sub(b))),
        Op::Mul => Ok(int_value(a.wrapping_mul(b))),
        _ => {
            if b == 0 {
                return Err(RunTimeError::DivisionByZero);
            }
            let ua: i128 = if a < 0 { -(a as i128) } else { a as i128 };
            let ub: i128 = if b < 0 { -(b as i128) } else { b as i128 };
            let q: i128 = ua / ub;
            let sq: i128 = if (a < 0) != (b < 0) { -q } else { q };
            if op == Op::Div {
                if sq > i64::MAX as i128 {
                    Ok(int_value(i64::MIN))
                } else {
                    Ok(int_value(sq as i64))
                }
            } else {
                proof {
                    assert(0 <= ua - ub * q < ub) by (nonlinear_arith)
                        requires
                            q == ua / ub,
                            ub > 0,
                            ua >= 0,
                    ;
                }
                let m: i128 = ua - ub * q;
                let rem: i128 = if a < 0 { -m } else { m };
                Ok(int_value(rem as i64))
            }
        },
    }
}

fn eval_binop(funs: &Env, env: &Env, l: &Expr, op: Op, r: &Expr, fuel: u64) -> (res: Result<Value, RunTimeError>)
    ensures
        value_result(res) == eval_binop_spec(funs@, env@, l@, op, r@, fuel as nat),
    decreases fuel, 0nat,
{
    if fuel == 0 {
        return Err(RunTimeError::OutOfFuel);
    }
    let g = fuel - 1;
    match op {
        Op::Add | Op::Sub | Op::Mul | Op::Div | Op::Mod => {
            let a = match eval_int(funs, env, l, g) {
                Ok(v) => v,
                Err(er) => return Err(er),
            };
            let b = match eval_int(funs, env, r, g) {
                Ok(v) => v,
                Err(er) => return Err(er),
            };
            arith_value(op, a, b)
        },
        Op::Lt | Op::Gt | Op::Le | Op::Ge => {
            let a = match eval_int(funs, env, l, g) {
                Ok(v) => v,
                Err(er) => return Err(er),
            };
            let b = match eval_int(funs, env, r, g) {
                Ok(v) => v,
                Err(er) => return Err(er),
            };
            let c = match op {
                Op::Lt => a < b,
                Op::Gt => a > b,
                Op::Le => a <= b,
                _ => a >= b,
            };
            Ok(bool_value(c))
        },
        Op::And | Op::Or => {
            let a = match eval_bool(funs, env, l, g) {
                Ok(v) => v,
                Err(er) => return Err(er),
            };
            let b = match eval_bool(funs, env, r, g) {
                Ok(v) => v,
                Err(er) => return Err(er),
            };
            Ok(bool_value(if op == Op::And { a && b } else { a || b }))
        },
        Op::Eq | Op::Neq => {
            let a = match eval_expr(funs, env, l, g) {
                Ok(v) => v,
                Err(er) => return Err(er),
            };
            let b = match eval_expr(funs, env, r, g) {
                Ok(v) => v,
                Err(er) => return Err(er),
            };
            let fa = match force_eval(funs, a, g) {
                Ok(v) => v,
                Err(er) => return Err(er),
            };
            let fb = match force_eval(funs, b, g) {
                Ok(v) => v,
                Err(er) => return Err(er),
            };
            let eq = values_equal(&fa, &fb);
            Ok(bool_value(if op == Op::Eq { eq } else { !eq }))
        },
        Op::Append => {
            let a = match eval_expr(funs, env, l, g) {
                Ok(v) => v,
                Err(er) => return Err(er),
            };
            let b = match eval_expr(funs, env, r, g) {
                Ok(v) => v,
                Err(er) => return Err(er),
            };
            append_values(funs, a, b, g)
        },
        Op::Cons => Ok(cons_value(thunk(l, env), thunk(r, env))),
    }
}

proof fn lemma_prepend_push(s: Seq<Val>, x: Val, t: Val)
    ensures
        prepend(s.push(x), t) == prepend(s, Val::Cons(Box::new(x), Box::new(t))),
    decreases s.len(),
{
    if s.len() == 0 {
        assert(s.push(x).skip(1) =~= Seq::<Val>::empty());
        assert(s.push(x)[0] == x);
        assert(prepend(s.push(x).skip(1), t) == t);
    } else {
        assert(s.push(x).skip(1) =~= s.skip(1).push(x));
        assert(s.push(x)[0] == s[0]);
        lemma_prepend_push(s.skip(1), x, t);
    }
}

/// The elements of `lv`'s spine, consed in order onto `rv`.
fn append_values(funs: &Env, lv: Value, rv: Value, fuel: u64) -> (r: Result<Value, RunTimeError>)
    ensures
        value_result(r) == (match spine(funs@, lv@, fuel as nat, u64::MAX as nat) {
            Ok(elems) => Ok(prepend(elems, rv@)),
            Err(er) => Err(er),
        }),
    decreases fuel, 0nat,
{
    let ghost whole = spine(funs@, lv@, fuel as nat, u64::MAX as nat);
    let mut elements: Vec<Value> = Vec::new();
    let mut curr = lv;
    let mut k: u64 = u64::MAX;
    proof {
        assert(values_model(elements@) =~= Seq::<Val>::empty());
        match spine(funs@, curr@, fuel as nat, k as nat) {
            Ok(rest) => {
                assert(Seq::<Val>::empty() + rest =~= rest);
            },
            Err(_) => {},
        }
    }
    loop
        invariant
            whole == spine(funs@, lv@, fuel as nat, u64::MAX as nat),
            whole == (match spine(funs@, curr@, fuel as nat, k as nat) {
                Ok(rest) => Ok(values_model(elements@) + rest),
                Err(er) => Err(er),
            }),
        ensures
            whole == Ok::<Seq<Val>, RtErr>(values_model(elements@)),
        decreases k,
    {
        if fuel == 0 || k == 0 {
            return Err(RunTimeError::OutOfFuel);
        }
        match curr {
            Value::List(x, xs) => {
                let ghost cv = Val::Cons(Box::new(x@), Box::new(xs@));
                let next = match *xs {
                    Value::Closure(e, _, c_env) => match eval_expr(funs, &c_env, &e, fuel - 1) {
                        Ok(v) => v,
                        Err(er) => {
                            assert(spine(funs@, cv, fuel as nat, k as nat) == Err::<Seq<Val>, RtErr>(er@));
                            return Err(er);
                        },
                    },
                    tail => tail,
                };
                let ghost before = elements@;
                proof {
                    lemma_values_model_push(before, *x);
                    match spine(funs@, next@, fuel as nat, (k - 1) as nat) {
                        Ok(rest) => {
                            assert(values_model(before) + (seq![x@] + rest) =~= values_model(before).push(x@) + rest);
                        },
                        Err(_) => {},
                    }
                }
                elements.push(*x);
                curr = next;
                k = k - 1;
            },
            other => {
                proof {
                    assert(values_model(elements@) + Seq::<Val>::empty() =~= values_model(elements@));
                }
                curr = other;
                break;
            },
        }
    }
    let mut acc = rv;
    let ghost elems = values_model(elements@);
    proof {
        assert(prepend(elems, acc@) == prepend(values_model(elements@), acc@));
    }
    while elements.len() > 0
        invariant
            prepend(elems, rv@) == prepend(values_model(elements@), acc@),
        decreases elements.len(),
    {
        let ghost before = elements@;
        match elements.pop() {
            Some(x) => {
                proof {
                    assert(before =~= elements@.push(x));
                    lemma_values_model_push(elements@, x);
                    lemma_prepend_push(values_model(elements@), x@, acc@);
                }
                acc = cons_value(x, acc);
            },
            None => {},
        }
    }
    proof {
        assert(values_model(elements@) =~= Seq::<Val>::empty());
    }
    Ok(acc)
}

fn eval_case(funs: &Env, env: &Env, e: &Expr, cases: &Vec<(Pattern, Expr)>, fuel: u64) -> (r: Result<Value, RunTimeError>)
    ensures
        value_result(r) == eval_case_spec(funs@, env@, e@, alts_model(cases@), fuel as nat),
    decreases fuel, cases.len(),
{
    let ghost all = alts_model(cases@);
    proof {
        lemma_alts_model(cases@);
        assert(all.skip(0) =~= all);
    }
    let mut i: usize = 0;
    while i < cases.len()
        invariant
            i <= cases.len(),
            all == alts_model(cases@),
            all.len() == cases.len(),
            forall|j: int| 0 <= j < cases.len() ==> #[trigger] all[j] == (cases@[j].0@, cases@[j].1@),
            eval_case_spec(funs@, env@, e@, all, fuel as nat) == eval_case_spec(funs@, env@, e@, all.skip(i as int), fuel as nat),
        decreases cases.len() - i,
    {
        if fuel == 0 {
            return Err(RunTimeError::OutOfFuel);
        }
        proof {
            assert(all.skip(i as int)[0] == all[i as int]);
            assert(all.skip(i as int).skip(1) =~= all.skip(i + 1));
            assert(all.skip(i as int).len() > 0);
        }
        match match_pattern(funs, env, &cases[i].0, e, fuel - 1) {
            Ok(Some(new_env)) => {
                return eval_expr(funs, &new_env, &cases[i].1, fuel - 1);
            },
            Ok(None) => {},
            Err(er) => {
                return Err(er);
            },
        }
        i = i + 1;
    }
    if fuel == 0 {
        return Err(RunTimeError::OutOfFuel);
    }
    Err(RunTimeError::NonExhaustivePattern)
}

/// Matches a pattern against an unevaluated scrutinee, returning the
/// extended scope on success.
pub fn match_pattern(funs: &Env, env: &Env, p: &Pattern, e: &Expr, fuel: u64) -> (r: Result<Option<Env>, RunTimeError>)
    ensures
        match_result(r) == match_pattern_spec(funs@, env@, p@, e@, fuel as nat),
    decreases fuel, 0nat,
{
    if fuel == 0 {
        return Err(RunTimeError::OutOfFuel);
    }
    let g = fuel - 1;
    match p {
        Pattern::Var(name) => Ok(Some(env.extended(name.clone(), thunk(e, env)))),
        Pattern::Wildcard => Ok(Some(env.clone())),
        Pattern::EmptyList => match eval_expr(funs, env, e, g) {
            Ok(Value::EmptyList) => Ok(Some(env.clone())),
            Ok(_) => Ok(None),
            Err(er) => Err(er),
        },
        Pattern::Literal(l1) => match eval_expr(funs, env, e, g) {
            Ok(Value::Literal(l2)) => if literal_eq(l1, &l2) {
                Ok(Some(env.clone()))
            } else {
                Ok(None)
            },
            Ok(_) => Ok(None),
            Err(er) => Err(er),
        },
        Pattern::List(_, _) => match eval_expr(funs, env, e, g) {
            Ok(v) => matches_value(funs, env, p, &v, g),
            Err(er) => Err(er),
        },
        Pattern::Tuple(ps) => match eval_expr(funs, env, e, g) {
            Ok(v) => matches_value(funs, env, p, &v, g),
            Err(er) => Err(er),
        },
        Pattern::FakeTuple(ps) => match eval_expr(funs, env, e, g) {
            Ok(v) => {
                let tp = Pattern::Tuple(clone_patterns(ps));
                matches_value(funs, env, &tp, &v, g)
            },
            Err(er) => Err(er),
        },
    }
}

/// Matches a pattern against a value, forcing thunks as the pattern
/// demands.
pub fn matches_value(funs: &Env, env: &Env, p: &Pattern, v: &Value, fuel: u64) -> (r: Result<Option<Env>, RunTimeError>)
    ensures
        match_result(r) == matches_value_spec(funs@, env@, p@, v@, fuel as nat),
    decreases fuel, 0nat,
{
    if fuel == 0 {
        return Err(RunTimeError::OutOfFuel);
    }
    let g = fuel - 1;
    if let Pattern::Wildcard = p {
        return Ok(Some(env.clone()));
    }
    if let (Pattern::Literal(l2), Value::Literal(l1)) = (p, v) {
        return if literal_eq(l2, l1) {
            Ok(Some(env.clone()))
        } else {
            Ok(None)
        };
    }
    if let Pattern::Var(name) = p {
        return Ok(Some(env.extended(name.clone(), v.clone())));
    }
    if let (Pattern::EmptyList, Value::EmptyList) = (p, v) {
        return Ok(Some(env.clone()));
    }
    if let (Pattern::List(p1, p2), Value::List(v1, v2)) = (p, v) {
        return match matches_value(funs, env, p1, v1, g) {
            Ok(Some(new_env)) => matches_value(funs, &new_env, p2, v2, g),
            Ok(None) => Ok(None),
            Err(er) => Err(er),
        };
    }
    if let Value::Closure(e, params, c_env) = v {
        if params.len() != 0 {
            return Ok(None);
        }
        return match eval_expr(funs, c_env, e, g) {
            Ok(v2) => matches_value(funs, env, p, &v2, g),
            Err(er) => Err(er),
        };
    }
    if let (Pattern::Tuple(ps), Value::Tuple(vs)) = (p, v) {
        proof {
            lemma_patterns_model(ps@);
            lemma_values_model(vs@);
        }
        if ps.len() != vs.len() {
            return Ok(None);
        }
        return matches_seq(funs, env, ps, vs, g);
    }
    if let (Pattern::FakeTuple(ps), Value::Tuple(vs)) = (p, v) {
        proof {
            lemma_patterns_model(ps@);
            lemma_values_model(vs@);
        }
        if ps.len() != vs.len() {
            return Ok(None);
        }
        return matches_seq(funs, env, ps, vs, g);
    }
    Ok(None)
}

fn matches_seq(funs: &Env, env: &Env, ps: &Vec<Pattern>, vs: &Vec<Value>, fuel: u64) -> (r: Result<Option<Env>, RunTimeError>)
    ensures
        match_result(r) == matches_seq_spec(funs@, env@, patterns_model(ps@), values_model(vs@), fuel as nat),
    decreases fuel, ps.len(),
{
    let ghost aps = patterns_model(ps@);
    let ghost avs = values_model(vs@);
    let ghost whole = matches_seq_spec(funs@, env@, aps, avs, fuel as nat);
    proof {
        lemma_patterns_model(ps@);
        lemma_values_model(vs@);
        assert(aps.skip(0) =~= aps);
        assert(avs.skip(0) =~= avs);
    }
    let mut curr = env.clone();
    let mut i: usize = 0;
    while i < ps.len() && i < vs.len()
        invariant
            i <= ps.len(),
            i <= vs.len(),
            aps == patterns_model(ps@),
            avs == values_model(vs@),
            aps.len() == ps.len(),
            avs.len() == vs.len(),
            forall|j: int| 0 <= j < ps.len() ==> #[trigger] aps[j] == ps@[j]@,
            forall|j: int| 0 <= j < vs.len() ==> #[trigger] avs[j] == vs@[j]@,
            whole == matches_seq_spec(funs@, env@, aps, avs, fuel as nat),
            whole == matches_seq_spec(funs@, curr@, aps.skip(i as int), avs.skip(i as int), fuel as nat),
        decreases ps.len() - i,
    {
        if fuel == 0 {
            return Err(RunTimeError::OutOfFuel);
        }
        proof {
            assert(aps.skip(i as int)[0] == aps[i as int]);
            assert(avs.skip(i as int)[0] == avs[i as int]);
            assert(aps.skip(i as int).skip(1) =~= aps.skip(i + 1));
            assert(avs.skip(i as int).skip(1) =~= avs.skip(i + 1));
            assert(aps.skip(i as int).len() > 0);
            assert(avs.skip(i as int).len() > 0);
        }
        match matches_value(funs, &curr, &ps[i], &vs[i], fuel - 1) {
            Ok(Some(new_env)) => {
                curr = new_env;
            },
            Ok(None) => {
                return Ok(None);
            },
            Err(er) => {
                return Err(er);
            },
        }
        i = i + 1;
    }
    if fuel == 0 {
        return Err(RunTimeError::OutOfFuel);
    }
    proof {
        assert(aps.skip(i as int).len() == 0 || avs.skip(i as int).len() == 0);
    }
    Ok(Some(curr))
}

/// Forces a value completely, for printing: tuple components, list cells
/// and thunks are evaluated all the way down.
pub fn force_eval(funs: &Env, v: Value, fuel: u64) -> (r: Result<Value, RunTimeError>)
    ensures
        value_result(r) == force_spec(funs@, v@, fuel as nat),
    decreases fuel, 0nat,
{
    if fuel == 0 {
        return Err(RunTimeError::OutOfFuel);
    }
    let g = fuel - 1;
    match v {
        Value::Tuple(vs) => match force_all(funs, &vs, g) {
            Ok(ws) => Ok(Value::Tuple(ws)),
            Err(er) => Err(er),
        },
        Value::Closure(e, vars, c_env) => {
            if vars.len() == 0 {
                match eval_expr(funs, &c_env, &e, g) {
                    Ok(w) => force_eval(funs, w, g),
                    Err(er) => Err(er),
                }
            } else {
                Ok(Value::Closure(e, vars, c_env))
            }
        },
        Value::List(x, xs) => {
            let fx = match force_eval(funs, *x, g) {
                Ok(w) => w,
                Err(er) => return Err(er),
            };
            let fxs = match force_eval(funs, *xs, g) {
                Ok(w) => w,
                Err(er) => return Err(er),
            };
            Ok(cons_value(fx, fxs))
        },
        x => Ok(x),
    }
}

fn force_all(funs: &Env, vs: &Vec<Value>, fuel: u64) -> (r: Result<Vec<Value>, RunTimeError>)
    ensures
        match (r, force_seq_spec(funs@, values_model(vs@), fuel as nat, Seq::empty())) {
            (Ok(a), Ok(b)) => values_model(a@) == b,
            (Err(a), Err(b)) => a@ == b,
            _ => false,
        },
    decreases fuel, vs.len(),
{
    let ghost all = values_model(vs@);
    let ghost whole = force_seq_spec(funs@, all, fuel as nat, Seq::empty());
    let mut out: Vec<Value> = Vec::new();
    proof {
        lemma_values_model(vs@);
        assert(all.skip(0) =~= all);
        assert(values_model(out@) =~= Seq::<Val>::empty());
    }
    let mut i: usize = 0;
    while i < vs.len()
        invariant
            i <= vs.len(),
            all == values_model(vs@),
            all.len() == vs.len(),
            forall|j: int| 0 <= j < vs.len() ==> #[trigger] all[j] == vs@[j]@,
            whole == force_seq_spec(funs@, all, fuel as nat, Seq::empty()),
            whole == force_seq_spec(funs@, all.skip(i as int), fuel as nat, values_model(out@)),
        decreases vs.len() - i,
    {
        if fuel == 0 {
            return Err(RunTimeError::OutOfFuel);
        }
        proof {
            assert(all.skip(i as int)[0] == all[i as int]);
            assert(all.skip(i as int).skip(1) =~= all.skip(i + 1));
            assert(all.skip(i as int).len() > 0);
        }
        let w = match force_eval(funs, vs[i].clone(), fuel - 1) {
            Ok(w) => w,
            Err(er) => return Err(er),
        };
        proof {
            lemma_values_model_push(out@, w);
        }
        out.push(w);
        i = i + 1;
    }
    if fuel == 0 {
        return Err(RunTimeError::OutOfFuel);
    }
    Ok(out)
}

/// Structural equality of forced values over their literal leaves;
/// functions are never equal.
pub fn values_equal(a: &Value, b: &Value) -> (r: bool)
    ensures
        r == values_eq(a@, b@),
    decreases a,
{
    match (a, b) {
        (Value::Literal(x), Value::Literal(y)) => literal_eq(x, y),
        (Value::Tuple(xs), Value::Tuple(ys)) => {
            if xs.len() != ys.len() {
                proof {
                    lemma_values_model(xs@);
                    lemma_values_model(ys@);
                }
                return false;
            }
            let ghost ax = values_model(xs@);
            let ghost ay = values_model(ys@);
            proof {
                lemma_values_model(xs@);
                lemma_values_model(ys@);
                assert(ax.skip(0) =~= ax);
                assert(ay.skip(0) =~= ay);
            }
            let mut i: usize = 0;
            while i < xs.len()
                invariant
                    i <= xs.len(),
                    xs.len() == ys.len(),
                    *a == Value::Tuple(*xs),
                    *b == Value::Tuple(*ys),
                    ax == values_model(xs@),
                    ay == values_model(ys@),
                    ax.len() == xs.len(),
                    ay.len() == ys.len(),
                    forall|j: int| 0 <= j < xs.len() ==> #[trigger] ax[j] == xs@[j]@,
                    forall|j: int| 0 <= j < ys.len() ==> #[trigger] ay[j] == ys@[j]@,
                    values_eq_seq(ax, ay) == values_eq_seq(ax.skip(i as int), ay.skip(i as int)),
                decreases xs.len() - i,
            {
                proof {
                    assert(ax.skip(i as int)[0] == ax[i as int]);
                    assert(ay.skip(i as int)[0] == ay[i as int]);
                    assert(ax.skip(i as int).skip(1) =~= ax.skip(i + 1));
                    assert(ay.skip(i as int).skip(1) =~= ay.skip(i + 1));
                    assert(ax.skip(i as int).len() > 0);
                    assert(ay.skip(i as int).len() > 0);
                    assert(decreases_to!(*a => a->Tuple_0));
                    assert(decreases_to!(*xs => xs[i as int]));
                }
                if !values_equal(&xs[i], &ys[i]) {
                    return false;
                }
                i = i + 1;
            }
            true
        },
        (Value::List(x, xt), Value::List(y, yt)) => values_equal(x, y) && values_equal(xt, yt),
        (Value::EmptyList, Value::EmptyList) => true,
        _ => false,
    }
}

} // verus!
