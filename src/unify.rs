//! Unification of types under a substitution.
use vstd::prelude::*;

use crate::ast::{Ty, Type, types_model, lemma_types_model};
use crate::subst::{Binding, Substitution, TypeErr, TypingError, apply_spec, extend_spec};
use crate::types::{sub_type, subst_ty};

verus! {

/// Bound on the nesting of unification steps.
pub const UNIFY_FUEL: u64 = 1000000;

/// Unification of `t1` and `t2` under `s`, at most `f` steps deep.
pub open spec fn unify_spec(s: Seq<Binding>, t1: Ty, t2: Ty, f: nat) -> Result<Seq<Binding>, TypeErr>
    decreases f, 0nat,
{
    if f == 0 {
        Err(TypeErr::CannotUnify(t1, t2))
    } else {
        let g = (f - 1) as nat;
        if let Ty::Var(v) = t1 {
            unify_var(s, v, t2, g)
        } else if let Ty::Var(v) = t2 {
            unify_var(s, v, t1, g)
        } else {
            match (t1, t2) {
                (Ty::Fun(a1, b1), Ty::Fun(a2, b2)) => match unify_spec(s, *a1, *a2, g) {
                    Ok(s1) => unify_spec(s1, *b1, *b2, g),
                    Err(e) => Err(e),
                },
                (Ty::Tuple(x), Ty::Tuple(y)) => if x.len() == y.len() {
                    unify_seq(s, x, y, g)
                } else {
                    Err(TypeErr::CannotUnify(t1, t2))
                },
                (Ty::List(a), Ty::List(b)) => unify_spec(s, *a, *b, g),
                (Ty::Int, Ty::Int) => Ok(s),
                (Ty::Bool, Ty::Bool) => Ok(s),
                (Ty::Char, Ty::Char) => Ok(s),
                (Ty::Str, Ty::Str) => Ok(s),
                _ => Err(TypeErr::CannotUnify(t1, t2)),
            }
        }
    }
}

/// A variable against a type: bind it if it is unbound, otherwise unify what
/// it is bound to.
pub open spec fn unify_var(s: Seq<Binding>, v: Seq<char>, t: Ty, g: nat) -> Result<Seq<Binding>, TypeErr>
    decreases g, 1nat,
{
    let pt = subst_ty(s, t);
    let pv = apply_spec(s, v);
    if pv == Ty::Var(v) {
        extend_spec(s, v, pt)
    } else {
        unify_spec(s, pv, pt, g)
    }
}

/// Componentwise unification, left to right.
pub open spec fn unify_seq(s: Seq<Binding>, x: Seq<Ty>, y: Seq<Ty>, g: nat) -> Result<Seq<Binding>, TypeErr>
    decreases g, x.len() + 1,
{
    if x.len() == 0 || y.len() == 0 {
        Ok(s)
    } else {
        match unify_spec(s, x[0], y[0], g) {
            Ok(s1) => unify_seq(s1, x.skip(1), y.skip(1), g),
            Err(e) => Err(e),
        }
    }
}

/// The result of unification, as a mathematical value.
pub open spec fn unify_result(r: Result<Substitution, TypingError>) -> Result<Seq<Binding>, TypeErr> {
    match r {
        Ok(s) => Ok(s@),
        Err(e) => Err(e@),
    }
}

/// Unifies `t1` and `t2` under `phi`, extending it.
pub fn unify(phi: Substitution, t1: &Type, t2: &Type) -> (r: Result<Substitution, TypingError>)
    ensures
        unify_result(r) == unify_spec(phi@, t1@, t2@, UNIFY_FUEL as nat),
{
    unify_within(phi, t1, t2, UNIFY_FUEL)
}

fn unify_within(phi: Substitution, t1: &Type, t2: &Type, f: u64) -> (r: Result<Substitution, TypingError>)
    ensures
        unify_result(r) == unify_spec(phi@, t1@, t2@, f as nat),
    decreases f, 0nat,
{
    if f == 0 {
        return Err(TypingError::CannotUnify(t1.clone(), t2.clone()));
    }
    let g = f - 1;
    if let Type::TypeVariable(v) = t1 {
        return unify_variable(phi, v, t2, g);
    }
    if let Type::TypeVariable(v) = t2 {
        return unify_variable(phi, v, t1, g);
    }
    let r = match (t1, t2) {
        (Type::Function(a1, b1), Type::Function(a2, b2)) => {
            match unify_within(phi, a1, a2, g) {
                Ok(s1) => unify_within(s1, b1, b2, g),
                Err(e) => Err(e),
            }
        },
        (Type::Tuple(x), Type::Tuple(y)) => {
            proof {
                lemma_types_model(x@);
                lemma_types_model(y@);
            }
            if x.len() != y.len() {
                Err(TypingError::CannotUnify(t1.clone(), t2.clone()))
            } else {
                unify_tuple(phi, x, y, g)
            }
        },
        (Type::List(a), Type::List(b)) => unify_within(phi, a, b, g),
        (Type::Int, Type::Int) => Ok(phi),
        (Type::Bool, Type::Bool) => Ok(phi),
        (Type::Char, Type::Char) => Ok(phi),
        (Type::String, Type::String) => Ok(phi),
        _ => Err(TypingError::CannotUnify(t1.clone(), t2.clone())),
    };
    assert(unify_result(r) == unify_spec(phi@, t1@, t2@, f as nat));
    r
}

fn unify_variable(phi: Substitution, v: &String, t: &Type, g: u64) -> (r: Result<Substitution, TypingError>)
    ensures
        unify_result(r) == unify_var(phi@, v@, t@, g as nat),
    decreases g, 1nat,
{
    let pt = sub_type(&phi, t);
    let pv = phi.apply(v);
    if let Type::TypeVariable(w) = &pv {
        if *w == *v {
            return phi.extended(v.clone(), pt);
        }
    }
    proof {
        if pv@ == Ty::Var(v@) {
            assert(pv is TypeVariable);
        }
    }
    unify_within(phi, &pv, &pt, g)
}

fn unify_tuple(phi: Substitution, x: &Vec<Type>, y: &Vec<Type>, g: u64) -> (r: Result<Substitution, TypingError>)
    requires
        x.len() == y.len(),
    ensures
        unify_result(r) == unify_seq(phi@, types_model(x@), types_model(y@), g as nat),
    decreases g, x.len() + 1,
{
    let ghost xs = types_model(x@);
    let ghost ys = types_model(y@);
    let ghost s0 = phi@;
    proof {
        lemma_types_model(x@);
        lemma_types_model(y@);
        assert(xs.skip(0) =~= xs);
        assert(ys.skip(0) =~= ys);
    }
    let mut cur = phi;
    let mut i: usize = 0;
    while i < x.len()
        invariant
            i <= x.len(),
            x.len() == y.len(),
            xs == types_model(x@),
            ys == types_model(y@),
            s0 == phi@,
            xs.len() == x.len(),
            ys.len() == y.len(),
            forall|j: int| 0 <= j < x.len() ==> #[trigger] xs[j] == x@[j]@,
            forall|j: int| 0 <= j < y.len() ==> #[trigger] ys[j] == y@[j]@,
            unify_seq(s0, xs, ys, g as nat) == unify_seq(cur@, xs.skip(i as int), ys.skip(i as int), g as nat),
        decreases x.len() - i,
    {
        proof {
            assert(xs.skip(i as int)[0] == xs[i as int]);
            assert(ys.skip(i as int)[0] == ys[i as int]);
            assert(xs.skip(i as int).skip(1) =~= xs.skip(i + 1));
            assert(ys.skip(i as int).skip(1) =~= ys.skip(i + 1));
            assert(xs.skip(i as int).len() > 0);
            assert(ys.skip(i as int).len() > 0);
        }
        let ghost c = cur@;
        let r1 = unify_within(cur, &x[i], &y[i], g);
        match r1 {
            Ok(s1) => {
                cur = s1;
            },
            Err(e) => {
                return Err(e);
            },
        }
        i = i + 1;
    }
    proof {
        assert(xs.skip(i as int).len() == 0);
    }
    Ok(cur)
}

} // verus!
