//! Operations on types: their variables and the application of a
//! substitution.
use vstd::prelude::*;

use crate::ast::{Ty, Type, types_model, lemma_types_model, lemma_types_model_push};
use crate::subst::{Binding, Substitution, lookup};

verus! {

/// The type variables of a type, left to right, with repetitions.
pub open spec fn tvars(t: Ty) -> Seq<Seq<char>>
    decreases t,
{
    match t {
        Ty::Var(v) => seq![v],
        Ty::Fun(a, b) => tvars(*a) + tvars(*b),
        Ty::Tuple(ts) => tvars_seq(ts),
        Ty::List(a) => tvars(*a),
        _ => Seq::empty(),
    }
}

pub open spec fn tvars_seq(ts: Seq<Ty>) -> Seq<Seq<char>>
    decreases ts,
{
    if ts.len() == 0 {
        Seq::empty()
    } else {
        tvars_seq(ts.drop_last()) + tvars(ts.last())
    }
}

/// The type variables of `t`, left to right, with repetitions.
pub fn tvars_in(t: &Type) -> (r: Vec<String>)
    ensures
        r@.map_values(|n: String| n@) == tvars(t@),
    decreases t,
{
    match t {
        Type::TypeVariable(v) => {
            let r = vec![v.clone()];
            proof {
                assert(r@.map_values(|n: String| n@) =~= seq![v@]);
            }
            r
        },
        Type::Function(a, b) => {
            let mut r1 = tvars_in(a);
            let mut r2 = tvars_in(b);
            let ghost m1 = r1@.map_values(|n: String| n@);
            let ghost m2 = r2@.map_values(|n: String| n@);
            r1.append(&mut r2);
            proof {
                assert(r1@.map_values(|n: String| n@) =~= m1 + m2);
            }
            r1
        },
        Type::Tuple(ts) => {
            let mut r: Vec<String> = Vec::new();
            let mut i: usize = 0;
            proof {
                lemma_types_model(ts@);
            }
            while i < ts.len()
                invariant
                    i <= ts.len(),
                    *t == Type::Tuple(*ts),
                    types_model(ts@).len() == ts.len(),
                    forall|j: int| 0 <= j < ts.len() ==> #[trigger] types_model(ts@)[j] == ts@[j]@,
                    r@.map_values(|n: String| n@) == tvars_seq(types_model(ts@).subrange(0, i as int)),
                decreases ts.len() - i,
            {
                proof {
                    assert(decreases_to!(*t => t->Tuple_0));
                    assert(decreases_to!(*ts => ts[i as int]));
                }
                let mut ri = tvars_in(&ts[i]);
                let ghost m0 = r@.map_values(|n: String| n@);
                let ghost mi = ri@.map_values(|n: String| n@);
                r.append(&mut ri);
                proof {
                    let sub = types_model(ts@).subrange(0, i + 1);
                    assert(sub.drop_last() =~= types_model(ts@).subrange(0, i as int));
                    assert(r@.map_values(|n: String| n@) =~= m0 + mi);
                }
                i = i + 1;
            }
            proof {
                assert(types_model(ts@).subrange(0, ts.len() as int) =~= types_model(ts@));
            }
            r
        },
        Type::List(a) => tvars_in(a),
        _ => {
            let r: Vec<String> = Vec::new();
            proof {
                assert(r@.map_values(|n: String| n@) =~= Seq::<Seq<char>>::empty());
            }
            r
        },
    }
}


/// Applies a substitution to a type, following chains of bindings at most
/// `k` deep (a chain in a substitution without cycles is never deeper than
/// its number of bindings).
pub open spec fn sub_ty(s: Seq<Binding>, k: nat, t: Ty) -> Ty
    decreases k, t,
{
    match t {
        Ty::Var(v) => match lookup(s, v) {
            Option::None => Ty::Var(v),
            Option::Some(u) => if u == Ty::Var(v) || k == 0 {
                u
            } else {
                sub_ty(s, (k - 1) as nat, u)
            },
        },
        Ty::Fun(a, b) => Ty::Fun(Box::new(sub_ty(s, k, *a)), Box::new(sub_ty(s, k, *b))),
        Ty::Tuple(ts) => Ty::Tuple(sub_tys(s, k, ts)),
        Ty::List(a) => Ty::List(Box::new(sub_ty(s, k, *a))),
        _ => t,
    }
}

pub open spec fn sub_tys(s: Seq<Binding>, k: nat, ts: Seq<Ty>) -> Seq<Ty>
    decreases k, ts,
{
    if ts.len() == 0 {
        Seq::empty()
    } else {
        sub_tys(s, k, ts.drop_last()).push(sub_ty(s, k, ts.last()))
    }
}

/// `σ` applied to `t`, chains of bindings followed to their end.
pub open spec fn subst_ty(s: Seq<Binding>, t: Ty) -> Ty {
    sub_ty(s, s.len(), t)
}

pub proof fn lemma_sub_tys(s: Seq<Binding>, k: nat, ts: Seq<Ty>)
    ensures
        sub_tys(s, k, ts).len() == ts.len(),
        forall|i: int| 0 <= i < ts.len() ==> #[trigger] sub_tys(s, k, ts)[i] == sub_ty(s, k, ts[i]),
    decreases ts.len(),
{
    if ts.len() > 0 {
        lemma_sub_tys(s, k, ts.drop_last());
    }
}

/// Applies the substitution to every type variable of `t`, following chains
/// of bindings.
pub fn sub_type(subst: &Substitution, t: &Type) -> (r: Type)
    ensures
        r@ == subst_ty(subst@, t@),
{
    sub_type_within(subst, subst.num_bindings(), t)
}

fn sub_type_within(subst: &Substitution, k: usize, t: &Type) -> (r: Type)
    ensures
        r@ == sub_ty(subst@, k as nat, t@),
    decreases k, t,
{
    match t {
        Type::TypeVariable(v) => {
            let u = subst.apply(v);
            if let Type::TypeVariable(w) = &u {
                if *w == *v {
                    return u;
                }
            }
            proof {
                if u@ == Ty::Var(v@) {
                    assert(u is TypeVariable);
                }
            }
            if k == 0 {
                u
            } else {
                sub_type_within(subst, k - 1, &u)
            }
        },
        Type::Function(a, b) => Type::Function(
            Box::new(sub_type_within(subst, k, a)),
            Box::new(sub_type_within(subst, k, b)),
        ),
        Type::Tuple(ts) => {
            let mut out: Vec<Type> = Vec::new();
            let mut i: usize = 0;
            proof {
                lemma_types_model(ts@);
            }
            while i < ts.len()
                invariant
                    i <= ts.len(),
                    *t == Type::Tuple(*ts),
                    types_model(ts@).len() == ts.len(),
                    forall|j: int| 0 <= j < ts.len() ==> #[trigger] types_model(ts@)[j] == ts@[j]@,
                    types_model(out@) == sub_tys(subst@, k as nat, types_model(ts@).subrange(0, i as int)),
                decreases ts.len() - i,
            {
                proof {
                    assert(decreases_to!(*t => t->Tuple_0));
                    assert(decreases_to!(*ts => ts[i as int]));
                }
                let c = sub_type_within(subst, k, &ts[i]);
                proof {
                    lemma_types_model_push(out@, c);
                    let sub = types_model(ts@).subrange(0, i + 1);
                    assert(sub.drop_last() =~= types_model(ts@).subrange(0, i as int));
                }
                out.push(c);
                i = i + 1;
            }
            proof {
                assert(types_model(ts@).subrange(0, ts.len() as int) =~= types_model(ts@));
            }
            Type::Tuple(out)
        },
        Type::List(a) => Type::List(Box::new(sub_type_within(subst, k, a))),
        Type::Int => Type::Int,
        Type::Bool => Type::Bool,
        Type::Char => Type::Char,
        Type::String => Type::String,
    }
}

} // verus!
