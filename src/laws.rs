//! Laws of substitutions, unification and lazy evaluation.
use vstd::prelude::*;

use crate::ast::{DeclModel, Op, Pat, Term, Ty};
use crate::lower::{arg_name, lower_spec, merged, renamed_pats};
use crate::typing::program_outcome;
use crate::tyenv::{fresh_avoiding, instance_bindings};
use crate::semantics::{eval_spec, thunk_of, thunks};
use crate::semantics::eval_binop_spec;
use crate::subst::{Binding, TypeErr, apply_spec, as_map, compose_spec, extend_spec, lemma_lookup_append, lookup};
use crate::types::{sub_ty, sub_tys, subst_ty, tvars};
use crate::unify::{unify_spec, unify_var};
use crate::value::{Scope, Val};

verus! {

/// Typechecking is repeatable: the outcomes of two runs on one program are
/// equal, substitution for substitution, since fresh names are counted from
/// zero on each run (the outcome of a run is `program_outcome`, by the
/// contract of `typecheck_program`).
pub proof fn lemma_typecheck_repeatable(
    p: Seq<DeclModel>,
    first: Result<Seq<Binding>, TypeErr>,
    second: Result<Seq<Binding>, TypeErr>,
)
    requires
        first == program_outcome(p),
        second == program_outcome(p),
    ensures
        first == second,
{
}

/// Composition of substitutions is associative.
pub proof fn lemma_compose_associative(a: Seq<Binding>, b: Seq<Binding>, c: Seq<Binding>)
    ensures
        compose_spec(compose_spec(a, b), c) == compose_spec(a, compose_spec(b, c)),
        as_map(compose_spec(compose_spec(a, b), c)) == as_map(compose_spec(a, compose_spec(b, c))),
{
    assert(compose_spec(compose_spec(a, b), c) =~= compose_spec(a, compose_spec(b, c)));
}

/// As a finite map, the composition of `l` after `r` holds the bindings of
/// both, those of `l` winning.
pub proof fn lemma_compose_map(l: Seq<Binding>, r: Seq<Binding>)
    ensures
        as_map(compose_spec(l, r)) == as_map(r).union_prefer_right(as_map(l)),
{
    assert forall|k: Seq<char>| #![auto] as_map(compose_spec(l, r)).contains_key(k) == as_map(r).union_prefer_right(
        as_map(l),
    ).contains_key(k) by {
        lemma_lookup_append(r, l, k);
    }
    assert forall|k: Seq<char>| #![auto] as_map(compose_spec(l, r)).contains_key(k) implies as_map(compose_spec(l, r))[k]
        == as_map(r).union_prefer_right(as_map(l))[k] by {
        lemma_lookup_append(r, l, k);
    }
    assert(as_map(compose_spec(l, r)) =~= as_map(r).union_prefer_right(as_map(l)));
}

/// The empty substitution leaves every type as it is.
pub proof fn lemma_empty_subst(k: nat, t: Ty)
    ensures
        sub_ty(Seq::empty(), k, t) == t,
    decreases t,
{
    match t {
        Ty::Fun(a, b) => {
            lemma_empty_subst(k, *a);
            lemma_empty_subst(k, *b);
        },
        Ty::Tuple(ts) => {
            lemma_empty_subst_seq(k, ts);
        },
        Ty::List(a) => {
            lemma_empty_subst(k, *a);
        },
        _ => {},
    }
}

proof fn lemma_empty_subst_seq(k: nat, ts: Seq<Ty>)
    ensures
        sub_tys(Seq::empty(), k, ts) == ts,
    decreases ts,
{
    if ts.len() > 0 {
        lemma_empty_subst_seq(k, ts.drop_last());
        lemma_empty_subst(k, ts.last());
        assert(ts.drop_last().push(ts.last()) =~= ts);
    }
}

/// Occurs check: unifying a variable with a type that contains it, and is
/// not the variable itself, fails under the empty substitution.
pub proof fn lemma_occurs_check(v: Seq<char>, t: Ty, fuel: nat)
    requires
        tvars(t).contains(v),
        t != Ty::Var(v),
        fuel > 0,
    ensures
        unify_spec(Seq::empty(), Ty::Var(v), t, fuel) == Err::<Seq<Binding>, TypeErr>(TypeErr::DuplicateTypeVariable(v)),
{
    let e = Seq::<Binding>::empty();
    lemma_empty_subst(0, t);
    assert(lookup(e, v) is None);
    assert(subst_ty(e, t) == t);
    assert(apply_spec(e, v) == Ty::Var(v));
    assert(unify_var(e, v, t, (fuel - 1) as nat) == extend_spec(e, v, t));
}

/// Unifying a variable with a type under the empty substitution succeeds
/// exactly when unifying the type with the variable does; when the type is
/// not itself a variable, both give the same unifier.
pub proof fn lemma_unify_var_symmetric(v: Seq<char>, t: Ty, fuel: nat)
    requires
        fuel > 0,
    ensures
        (unify_spec(Seq::empty(), Ty::Var(v), t, fuel) is Ok) == (unify_spec(Seq::empty(), t, Ty::Var(v), fuel) is Ok),
        !(t is Var) ==> unify_spec(Seq::empty(), Ty::Var(v), t, fuel) == unify_spec(Seq::empty(), t, Ty::Var(v), fuel),
{
    let e = Seq::<Binding>::empty();
    let g = (fuel - 1) as nat;
    lemma_empty_subst(0, t);
    lemma_empty_subst(0, Ty::Var(v));
    assert(lookup(e, v) is None);
    assert(subst_ty(e, t) == t);
    assert(apply_spec(e, v) == Ty::Var(v));
    assert(unify_spec(e, Ty::Var(v), t, fuel) == unify_var(e, v, t, g));
    assert(unify_var(e, v, t, g) == extend_spec(e, v, t));
    if let Ty::Var(w) = t {
        assert(lookup(e, w) is None);
        assert(subst_ty(e, Ty::Var(v)) == Ty::Var(v));
        assert(apply_spec(e, w) == Ty::Var(w));
        assert(unify_spec(e, t, Ty::Var(v), fuel) == unify_var(e, w, Ty::Var(v), g));
        assert(unify_var(e, w, Ty::Var(v), g) == extend_spec(e, w, Ty::Var(v)));
        assert(tvars(Ty::Var(w)) == seq![w]);
        assert(tvars(Ty::Var(v)) == seq![v]);
        if w != v {
            assert(!seq![w].contains(v)) by {
                assert(seq![w][0] == w);
            }
            assert(!seq![v].contains(w)) by {
                assert(seq![v][0] == v);
            }
        }
    } else {
        assert(unify_spec(e, t, Ty::Var(v), fuel) == unify_var(e, v, t, g));
    }
}

/// Non-strictness of cons: a cell is built from its two operands without
/// evaluating either, whatever they are.
pub proof fn lemma_cons_is_lazy(funs: Scope, env: Scope, l: Term, r: Term, fuel: nat)
    requires
        fuel >= 2,
    ensures
        eval_spec(funs, env, Term::BinOp(Box::new(l), Op::Cons, Box::new(r)), fuel) == Ok::<Val, crate::value::RtErr>(
            Val::Cons(Box::new(thunk_of(l, env)), Box::new(thunk_of(r, env))),
        ),
{
    assert(eval_binop_spec(funs, env, l, Op::Cons, r, (fuel - 1) as nat) == Ok::<Val, crate::value::RtErr>(
        Val::Cons(Box::new(thunk_of(l, env)), Box::new(thunk_of(r, env))),
    ));
}

/// Non-strictness of tuples: a tuple's components are suspended, not
/// evaluated, whatever they are.
pub proof fn lemma_tuple_is_lazy(funs: Scope, env: Scope, es: Seq<Term>, fuel: nat)
    requires
        fuel >= 1,
    ensures
        eval_spec(funs, env, Term::Tuple(es), fuel) == Ok::<Val, crate::value::RtErr>(Val::Tuple(thunks(es, env))),
{
}

/// Non-strictness of `let`: the bound expression is suspended, not
/// evaluated, before the body runs, whatever it is.
pub proof fn lemma_let_is_lazy(funs: Scope, env: Scope, x: Seq<char>, d: Term, e: Term, fuel: nat)
    requires
        fuel >= 1,
    ensures
        eval_spec(funs, env, Term::Let(x, Box::new(d), Box::new(e)), fuel) == eval_spec(
            funs,
            env.push((x, thunk_of(d, env))),
            e,
            (fuel - 1) as nat,
        ),
{
}

/// Shape of a lowered multi-argument function: one parameter and one
/// scrutinee component per argument, and in each alternative a fake tuple
/// with one pattern per argument, whose variables are renamed to the
/// argument at their position.
pub proof fn lemma_lowered_shape(f: Seq<char>, eqs: Seq<(Seq<Pat>, Term)>)
    requires
        eqs.len() > 0,
        eqs[0].0.len() >= 2,
        lower_spec(f, eqs) is Ok,
    ensures
        ({
            let k = eqs[0].0.len();
            match lower_spec(f, eqs) {
                Ok(DeclModel::FunDecl(g, params, Term::Case(s, alts))) => {
                    &&& g == f
                    &&& params.len() == k
                    &&& *s == Term::Tuple(Seq::new(k, |i: int| Term::Var(arg_name(f, i as nat))))
                    &&& alts.len() == eqs.len()
                    &&& forall|i: int| 0 <= i < eqs.len() ==> {
                        &&& #[trigger] alts[i].0 == Pat::FakeTuple(renamed_pats(f, eqs[i].0))
                        &&& renamed_pats(f, eqs[i].0).len() == k
                        &&& forall|j: int| 0 <= j < k && eqs[i].0[j] is Var ==> #[trigger] renamed_pats(f, eqs[i].0)[j]
                            == Pat::Var(arg_name(f, j as nat))
                    }
                },
                _ => false,
            }
        }),
{
    let k = eqs[0].0.len();
    assert(!exists|i: int| 0 <= i < eqs.len() && #[trigger] eqs[i].0.len() != eqs[0].0.len());
    assert forall|i: int| 0 <= i < eqs.len() implies #[trigger] eqs[i].0.len() == k by {
        if eqs[i].0.len() != k {
            assert(eqs[i].0.len() != eqs[0].0.len());
        }
    }
    let alts = Seq::new(eqs.len(), |i: int| merged(f, eqs[i].0, eqs[i].1));
    assert forall|i: int| 0 <= i < eqs.len() implies #[trigger] alts[i].0 == Pat::FakeTuple(renamed_pats(f, eqs[i].0)) by {}
}


proof fn lemma_fresh_avoiding(avoid: Seq<Seq<char>>, n: nat)
    ensures
        fresh_avoiding(avoid, n) matches Ok((f, m)) ==> !avoid.contains(f) && m > n,
    decreases u64::MAX - n,
{
    if n < u64::MAX && avoid.contains(crate::tyenv::fresh_name_of(n)) {
        lemma_fresh_avoiding(avoid, n + 1);
    }
}

/// Instantiation: each quantified variable gets its own fresh variable,
/// which is none of the names to avoid (the environment's, when a scheme is
/// instantiated) and differs from the others.
pub proof fn lemma_instance_fresh(vars: Seq<Seq<char>>, n: nat, acc: Seq<Binding>, avoid: Seq<Seq<char>>)
    ensures
        instance_bindings(vars, n, acc, avoid) matches Ok((bs, m)) ==> {
            &&& bs.len() == acc.len() + vars.len()
            &&& bs.subrange(0, acc.len() as int) == acc
            &&& forall|j: int|
                acc.len() <= j < bs.len() ==> {
                    &&& #[trigger] bs[j].0 == vars[j - acc.len()]
                    &&& bs[j].1 is Var
                    &&& !avoid.contains(bs[j].1->Var_0)
                }
            &&& forall|j1: int, j2: int|
                acc.len() <= j1 < bs.len() && acc.len() <= j2 < bs.len() && j1 != j2 ==> #[trigger] bs[j1].1
                    != #[trigger] bs[j2].1
        },
    decreases vars.len(),
{
    if vars.len() == 0 {
        assert(acc.subrange(0, acc.len() as int) =~= acc);
    } else {
        lemma_fresh_avoiding(avoid, n);
        match fresh_avoiding(avoid, n) {
            Ok((f, n1)) => {
                let acc2 = acc.push((vars[0], Ty::Var(f)));
                let avoid2 = avoid.push(f);
                lemma_instance_fresh(vars.skip(1), n1, acc2, avoid2);
                match instance_bindings(vars.skip(1), n1, acc2, avoid2) {
                    Ok((bs, m)) => {
                        assert(bs.subrange(0, acc2.len() as int) == acc2);
                        assert(bs[acc.len() as int] == acc2[acc.len() as int]);
                        assert(bs.subrange(0, acc.len() as int) =~= acc2.subrange(0, acc.len() as int));
                        assert(acc2.subrange(0, acc.len() as int) =~= acc);
                        assert forall|j: int| acc.len() <= j < bs.len() implies {
                            &&& #[trigger] bs[j].0 == vars[j - acc.len()]
                            &&& bs[j].1 is Var
                            &&& !avoid.contains(bs[j].1->Var_0)
                        } by {
                            if j > acc.len() {
                                assert(bs[j].0 == vars.skip(1)[j - acc2.len()]);
                                assert(!avoid2.contains(bs[j].1->Var_0));
                                if avoid.contains(bs[j].1->Var_0) {
                                    let x = choose|x: int| 0 <= x < avoid.len() && avoid[x] == bs[j].1->Var_0;
                                    assert(avoid2[x] == bs[j].1->Var_0);
                                }
                            }
                        }
                        assert forall|j1: int, j2: int|
                            acc.len() <= j1 < bs.len() && acc.len() <= j2 < bs.len() && j1 != j2 implies #[trigger] bs[j1].1
                                != #[trigger] bs[j2].1 by {
                            if j1 > acc.len() && j2 > acc.len() {
                                assert(bs[j1].0 == vars.skip(1)[j1 - acc2.len()]);
                                assert(bs[j2].0 == vars.skip(1)[j2 - acc2.len()]);
                            } else if j1 == acc.len() {
                                assert(bs[j2].0 == vars.skip(1)[j2 - acc2.len()]);
                                assert(!avoid2.contains(bs[j2].1->Var_0));
                                assert(avoid2[avoid.len() as int] == f);
                            } else {
                                assert(bs[j1].0 == vars.skip(1)[j1 - acc2.len()]);
                                assert(!avoid2.contains(bs[j1].1->Var_0));
                                assert(avoid2[avoid.len() as int] == f);
                            }
                        }
                    },
                    Err(_) => {},
                }
            },
            Err(_) => {},
        }
    }
}

} // verus!
