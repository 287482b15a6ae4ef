//! Algorithm W over the mathematical models: the meaning of the
//! typechecker's results. The fresh-name counter is threaded explicitly.
use vstd::prelude::*;

use crate::ast::{DeclModel, Lit, Op, Pat, Term, Ty};
use crate::subst::{Binding, TypeErr, compose_spec, extend_spec, range_spec};
use crate::tyenv::{
    EnvModel, env_get, env_insert, env_names, env_sub, fresh_bindings, fresh_spec, instance_bindings, mono,
    scvs_spec,
    dedup,
};
use crate::types::{sub_tys, subst_ty, tvars};
use crate::unify::{UNIFY_FUEL, unify_spec};

verus! {

/// What an inference step yields: a substitution, a type and the next value
/// of the name counter.
pub type Inferred = Result<(Seq<Binding>, Ty, nat), TypeErr>;

/// Unification with the standard bound.
pub open spec fn unify_ty(s: Seq<Binding>, a: Ty, b: Ty) -> Result<Seq<Binding>, TypeErr> {
    unify_spec(s, a, b, UNIFY_FUEL as nat)
}

pub open spec fn lit_ty(l: Lit) -> Ty {
    match l {
        Lit::Int(_) => Ty::Int,
        Lit::Bool(_) => Ty::Bool,
        Lit::Char(_) => Ty::Char,
        Lit::Str(_) => Ty::Str,
    }
}

/// The typing rule of a binary operator, given the composed substitution and
/// the operand types.
pub open spec fn binop_spec(op: Op, s: Seq<Binding>, lt: Ty, rt: Ty) -> Result<(Seq<Binding>, Ty), TypeErr> {
    match op {
        Op::Add | Op::Sub | Op::Mul | Op::Mod | Op::Div => match unify_ty(s, lt, Ty::Int) {
            Ok(s1) => match unify_ty(s1, rt, Ty::Int) {
                Ok(s2) => Ok((s2, Ty::Int)),
                Err(e) => Err(e),
            },
            Err(e) => Err(e),
        },
        Op::Eq | Op::Neq => match unify_ty(s, lt, rt) {
            Ok(s1) => Ok((s1, Ty::Bool)),
            Err(e) => Err(e),
        },
        Op::Lt | Op::Gt | Op::Le | Op::Ge => match unify_ty(s, lt, Ty::Int) {
            Ok(s1) => match unify_ty(s1, lt, rt) {
                Ok(s2) => Ok((s2, Ty::Bool)),
                Err(e) => Err(e),
            },
            Err(e) => Err(e),
        },
        Op::And | Op::Or => match unify_ty(s, lt, Ty::Bool) {
            Ok(s1) => match unify_ty(s1, lt, rt) {
                Ok(s2) => Ok((s2, Ty::Bool)),
                Err(e) => Err(e),
            },
            Err(e) => Err(e),
        },
        Op::Append => match unify_ty(s, lt, rt) {
            Ok(s1) => match unify_ty(s1, lt, rt) {
                Ok(s2) => Ok((s2, lt)),
                Err(e) => Err(e),
            },
            Err(e) => Err(e),
        },
        Op::Cons => match unify_ty(s, Ty::List(Box::new(lt)), rt) {
            Ok(s1) => Ok((s1, Ty::List(Box::new(lt)))),
            Err(e) => Err(e),
        },
    }
}

/// The type inferred for an expression in an environment.
pub open spec fn infer(env: EnvModel, e: Term, n: nat) -> Inferred
    decreases e,
{
    match e {
        Term::Var(x) => match env_get(env, x) {
            Option::None => Err(TypeErr::UnknownIdentifier(x)),
            Option::Some(sc) => match instance_bindings(sc.0, n, Seq::empty(), env_names(env)) {
                Ok((bs, n1)) => Ok((Seq::empty(), subst_ty(bs, sc.1), n1)),
                Err(er) => Err(er),
            },
        },
        Term::App(f, a) => match infer(env, *f, n) {
            Ok((phi, tf, n1)) => match infer(env_sub(phi, env), *a, n1) {
                Ok((psi, te, n2)) => match fresh_spec(n2) {
                    Ok((tv, n3)) => match unify_ty(
                        compose_spec(psi, phi),
                        tf,
                        Ty::Fun(Box::new(te), Box::new(Ty::Var(tv))),
                    ) {
                        Ok(s) => Ok((s, Ty::Var(tv), n3)),
                        Err(er) => Err(er),
                    },
                    Err(er) => Err(er),
                },
                Err(er) => Err(er),
            },
            Err(er) => Err(er),
        },
        Term::If(c, a, b) => match infer(env, *c, n) {
            Ok((phi, tc, n1)) => match infer(env, *a, n1) {
                Ok((st, tt, n2)) => match infer(env, *b, n2) {
                    Ok((se, te, n3)) => match unify_ty(phi, tc, Ty::Bool) {
                        Ok(cs) => match unify_ty(compose_spec(cs, compose_spec(st, se)), tt, te) {
                            Ok(s) => Ok((s, tt, n3)),
                            Err(er) => Err(er),
                        },
                        Err(er) => Err(er),
                    },
                    Err(er) => Err(er),
                },
                Err(er) => Err(er),
            },
            Err(er) => Err(er),
        },
        Term::Lambda(x, body) => match fresh_spec(n) {
            Ok((a, n1)) => match infer(env_insert(env, x, mono(Ty::Var(a))), *body, n1) {
                Ok((s, rt, n2)) => Ok((s, Ty::Fun(Box::new(Ty::Var(a)), Box::new(rt)), n2)),
                Err(er) => Err(er),
            },
            Err(er) => Err(er),
        },
        Term::Let(x, e1, e2) => match infer(env, *e1, n) {
            Ok((s1, t1, n1)) => {
                let env1 = env_sub(s1, env);
                match fresh_bindings(scvs_spec(t1, env1), n1, Seq::empty()) {
                    Ok((mapping, n2)) => match infer(
                        env_insert(env1, x, (range_spec(mapping), subst_ty(mapping, t1))),
                        *e2,
                        n2,
                    ) {
                        Ok((s2, t2, n3)) => Ok((compose_spec(s2, s1), t2, n3)),
                        Err(er) => Err(er),
                    },
                    Err(er) => Err(er),
                }
            },
            Err(er) => Err(er),
        },
        Term::Case(sc, alts) => match infer(env, *sc, n) {
            Ok((es, tce, n1)) => infer_alts(env, alts, n1, es, tce, Option::None),
            Err(er) => Err(er),
        },
        Term::BinOp(l, op, r) => match infer(env, *l, n) {
            Ok((ls, lt, n1)) => match infer(env, *r, n1) {
                Ok((rs, rt, n2)) => match binop_spec(op, compose_spec(ls, rs), lt, rt) {
                    Ok((s, t)) => Ok((s, t, n2)),
                    Err(er) => Err(er),
                },
                Err(er) => Err(er),
            },
            Err(er) => Err(er),
        },
        Term::Tuple(es) => infer_tuple(env, es, n, Seq::empty(), Seq::empty()),
        Term::List(es) => infer_list(env, es, n),
        Term::Range(from, step, to) => match infer(env, *from, n) {
            Ok((sf, tf, n1)) => match unify_ty(sf, tf, Ty::Int) {
                Ok(sf1) => match infer(env, *step, n1) {
                    Ok((ss, ts, n2)) => match unify_ty(ss, ts, Ty::Int) {
                        Ok(ss1) => {
                            let s = compose_spec(ss1, sf1);
                            match to {
                                Option::Some(to) => match infer(env, *to, n2) {
                                    Ok((st, tt, n3)) => match unify_ty(st, tt, Ty::Int) {
                                        Ok(st1) => Ok((compose_spec(st1, s), Ty::List(Box::new(Ty::Int)), n3)),
                                        Err(er) => Err(er),
                                    },
                                    Err(er) => Err(er),
                                },
                                Option::None => Ok((s, Ty::List(Box::new(Ty::Int)), n2)),
                            }
                        },
                        Err(er) => Err(er),
                    },
                    Err(er) => Err(er),
                },
                Err(er) => Err(er),
            },
            Err(er) => Err(er),
        },
        Term::Lit(l) => Ok((Seq::empty(), lit_ty(l), n)),
    }
}

/// The alternatives of a case expression, in order: each pattern is unified
/// with the scrutinee's type and each body with the previous body's type.
/// Each alternative extends the case's environment afresh with the
/// bindings of its own pattern.
pub open spec fn infer_alts(
    env: EnvModel,
    alts: Seq<(Pat, Term)>,
    n: nat,
    s: Seq<Binding>,
    tce: Ty,
    ret: Option<Ty>,
) -> Inferred
    decreases alts,
{
    if alts.len() == 0 {
        match ret {
            Option::Some(t) => Ok((s, t, n)),
            Option::None => match fresh_spec(n) {
                Ok((f, n1)) => Ok((s, Ty::Var(f), n1)),
                Err(er) => Err(er),
            },
        }
    } else {
        match infer_pat(env, s, alts[0].0, n) {
            Ok((env1, ps, pt, n1)) => match unify_ty(ps, tce, pt) {
                Ok(s1) => match infer(env1, alts[0].1, n1) {
                    Ok((cs, cbt, n2)) => {
                        let s2 = compose_spec(cs, s1);
                        match ret {
                            Option::Some(bt) => match unify_ty(s2, bt, cbt) {
                                Ok(s3) => infer_alts(env, alts.skip(1), n2, s3, tce, Option::Some(cbt)),
                                Err(er) => Err(er),
                            },
                            Option::None => infer_alts(env, alts.skip(1), n2, s2, tce, Option::Some(cbt)),
                        }
                    },
                    Err(er) => Err(er),
                },
                Err(er) => Err(er),
            },
            Err(er) => Err(er),
        }
    }
}

/// The components of a tuple, left to right, each in the environment as
/// updated by the previous ones.
pub open spec fn infer_tuple(env: EnvModel, es: Seq<Term>, n: nat, s: Seq<Binding>, types: Seq<Ty>) -> Inferred
    decreases es,
{
    if es.len() == 0 {
        Ok((s, Ty::Tuple(sub_tys(s, s.len(), types)), n))
    } else {
        match infer(env, es[0], n) {
            Ok((es1, t, n1)) => infer_tuple(
                env_sub(es1, env),
                es.skip(1),
                n1,
                compose_spec(es1, s),
                types.push(t),
            ),
            Err(er) => Err(er),
        }
    }
}

/// The elements of a list literal: the head's list type is unified with the
/// type of the tail.
pub open spec fn infer_list(env: EnvModel, es: Seq<Term>, n: nat) -> Inferred
    decreases es,
{
    if es.len() == 0 {
        match fresh_spec(n) {
            Ok((f, n1)) => Ok((Seq::empty(), Ty::List(Box::new(Ty::Var(f))), n1)),
            Err(er) => Err(er),
        }
    } else {
        match infer(env, es[0], n) {
            Ok((sf, tf, n1)) => match infer_list(env, es.skip(1), n1) {
                Ok((stl, ttl, n2)) => match unify_ty(compose_spec(sf, stl), Ty::List(Box::new(tf)), ttl) {
                    Ok(s) => Ok((s, Ty::List(Box::new(tf)), n2)),
                    Err(er) => Err(er),
                },
                Err(er) => Err(er),
            },
            Err(er) => Err(er),
        }
    }
}

/// What inferring a pattern yields: the extended environment, a
/// substitution, a type and the next counter value.
pub type PatInferred = Result<(EnvModel, Seq<Binding>, Ty, nat), TypeErr>;

/// The type of a pattern; variables it binds are added to the environment
/// with monomorphic types.
pub open spec fn infer_pat(env: EnvModel, s: Seq<Binding>, p: Pat, n: nat) -> PatInferred
    decreases p,
{
    match p {
        Pat::Lit(l) => Ok((env, Seq::empty(), lit_ty(l), n)),
        Pat::Var(x) => match fresh_spec(n) {
            Ok((f, n1)) => Ok((env_insert(env, x, mono(Ty::Var(f))), Seq::empty(), Ty::Var(f), n1)),
            Err(er) => Err(er),
        },
        Pat::Cons(h, t) => match infer_pat(env, s, *h, n) {
            Ok((env1, s1, ht, n1)) => match infer_pat(env1, s1, *t, n1) {
                Ok((env2, s2, tt, n2)) => match unify_ty(s2, Ty::List(Box::new(ht)), tt) {
                    Ok(s3) => Ok((env2, s3, Ty::List(Box::new(ht)), n2)),
                    Err(er) => Err(er),
                },
                Err(er) => Err(er),
            },
            Err(er) => Err(er),
        },
        Pat::Tuple(ps) => infer_pats(env, s, ps, n, Seq::empty()),
        Pat::FakeTuple(ps) => infer_pats(env, s, ps, n, Seq::empty()),
        Pat::EmptyList => match fresh_spec(n) {
            Ok((f, n1)) => Ok((env, Seq::empty(), Ty::List(Box::new(Ty::Var(f))), n1)),
            Err(er) => Err(er),
        },
        Pat::Wildcard => match fresh_spec(n) {
            Ok((f, n1)) => Ok((env, Seq::empty(), Ty::Var(f), n1)),
            Err(er) => Err(er),
        },
    }
}

/// The components of a tuple pattern, left to right.
pub open spec fn infer_pats(env: EnvModel, s: Seq<Binding>, ps: Seq<Pat>, n: nat, types: Seq<Ty>) -> PatInferred
    decreases ps,
{
    if ps.len() == 0 {
        Ok((env, s, Ty::Tuple(types), n))
    } else {
        match infer_pat(env, s, ps[0], n) {
            Ok((env1, s1, t, n1)) => infer_pats(env1, s1, ps.skip(1), n1, types.push(t)),
            Err(er) => Err(er),
        }
    }
}

/// Whether a character has the Unicode `Lowercase` property.
pub uninterp spec fn char_is_lowercase(c: char) -> bool;

/// The names that start with a lowercase character, in order.
pub open spec fn lowercase_initial(xs: Seq<Seq<char>>) -> Seq<Seq<char>>
    decreases xs.len(),
{
    if xs.len() == 0 {
        xs
    } else if xs.last().len() > 0 && char_is_lowercase(xs.last()[0]) {
        lowercase_initial(xs.drop_last()).push(xs.last())
    } else {
        lowercase_initial(xs.drop_last())
    }
}

/// The schematic variables of a written type signature: its variables that
/// start with a lowercase letter, each once.
pub open spec fn sig_scvs(t: Ty) -> Seq<Seq<char>> {
    dedup(lowercase_initial(tvars(t)))
}

/// The environment with each parameter bound monomorphically to its variable.
pub open spec fn insert_params(env: EnvModel, rn: Seq<Binding>) -> EnvModel
    decreases rn.len(),
{
    if rn.len() == 0 {
        env
    } else {
        env_insert(insert_params(env, rn.drop_last()), rn.last().0, mono(rn.last().1))
    }
}

/// The curried function type over the parameter types, the last parameter
/// outermost.
pub open spec fn fun_type(rn: Seq<Binding>, rt: Ty) -> Ty
    decreases rn.len(),
{
    if rn.len() == 0 {
        rt
    } else {
        Ty::Fun(Box::new(rn.last().1), Box::new(fun_type(rn.drop_last(), rt)))
    }
}

/// What checking a declaration yields: the environment, the substitution and
/// the next counter value.
pub type Checked = Result<(EnvModel, Seq<Binding>, nat), TypeErr>;

/// Checking a function declaration, once its own name is bound.
pub open spec fn check_fun(
    env: EnvModel,
    s: Seq<Binding>,
    f: Seq<char>,
    params: Seq<Seq<char>>,
    body: Term,
    env_e: EnvModel,
    n: nat,
) -> Checked {
    match fresh_bindings(params, n, Seq::empty()) {
        Ok((rn, n1)) => match infer(insert_params(env_e, rn), body, n1) {
            Ok((rs, rt, n2)) => {
                let s1 = compose_spec(s, rs);
                let ft = subst_ty(s1, fun_type(rn, rt));
                match env_get(env, f) {
                    Option::Some(sc) => match unify_ty(s1, sc.1, ft) {
                        Ok(s2) => Ok((env, s2, n2)),
                        Err(er) => Err(er),
                    },
                    Option::None => Ok((env_insert(env, f, (scvs_spec(ft, env), ft)), s1, n2)),
                }
            },
            Err(er) => Err(er),
        },
        Err(er) => Err(er),
    }
}

/// Checking one declaration.
pub open spec fn check_decl(env: EnvModel, s: Seq<Binding>, d: DeclModel, n: nat) -> Checked {
    match d {
        DeclModel::TypeAlias(x, t) => match extend_spec(s, x, t) {
            Ok(s1) => Ok((env, s1, n)),
            Err(er) => Err(er),
        },
        DeclModel::TypeSignature(x, t) => {
            let scvs = sig_scvs(t);
            let env1 = env_insert(env, x, (scvs, t));
            match env_get(env, x) {
                Option::None => Ok((env1, s, n)),
                Option::Some(prev) => match fresh_bindings(scvs, n, Seq::empty()) {
                    Ok((m1, n1)) => match fresh_bindings(prev.0, n1, Seq::empty()) {
                        Ok((m2, n2)) => match unify_ty(s, subst_ty(m1, t), subst_ty(m2, prev.1)) {
                            Ok(s1) => Ok((env1, s1, n2)),
                            Err(er) => Err(er),
                        },
                        Err(er) => Err(er),
                    },
                    Err(er) => Err(er),
                },
            }
        },
        DeclModel::FunDecl(f, params, body) => if env_get(env, f) is Some {
            check_fun(env, s, f, params, body, env, n)
        } else {
            match fresh_spec(n) {
                Ok((a, n1)) => check_fun(env, s, f, params, body, env_insert(env, f, mono(Ty::Var(a))), n1),
                Err(er) => Err(er),
            }
        },
        DeclModel::SExpr(e) => match infer(env, e, n) {
            Ok((s1, _t, n1)) => Ok((env, s1, n1)),
            Err(er) => Err(er),
        },
        DeclModel::EndOfInstruction => Ok((env, Seq::empty(), n)),
    }
}

/// Checking declarations in order.
pub open spec fn check_decls(env: EnvModel, s: Seq<Binding>, ds: Seq<DeclModel>, n: nat) -> Checked
    decreases ds.len(),
{
    if ds.len() == 0 {
        Ok((env, s, n))
    } else {
        match check_decl(env, s, ds[0], n) {
            Ok((env1, s1, n1)) => check_decls(env1, s1, ds.skip(1), n1),
            Err(er) => Err(er),
        }
    }
}

/// The outcome of checking a program from an empty environment, with the
/// name counter at zero.
pub open spec fn check_program(ds: Seq<DeclModel>) -> Checked {
    check_decls(Seq::empty(), Seq::empty(), ds, 0)
}

/// The final substitution of checking a program, or its typing error.
pub open spec fn program_outcome(ds: Seq<DeclModel>) -> Result<Seq<Binding>, TypeErr> {
    match check_program(ds) {
        Ok((_, s, _)) => Ok(s),
        Err(e) => Err(e),
    }
}

} // verus!
