//! Type schemes, typing environments, fresh names and generalization.
use vstd::prelude::*;

use crate::ast::{Ty, Type, names_model, clone_names};
use crate::subst::{Binding, Substitution, TypeErr, TypingError, exclude_spec};
use crate::text::{decimal, push_decimal};
use crate::types::{sub_type, subst_ty, tvars, tvars_in};

verus! {

/// A type scheme `∀ vars. body`, as a mathematical value.
pub type Scheme = (Seq<Seq<char>>, Ty);

/// A typing environment, as a mathematical value: bindings of names to
/// schemes, each name bound at most once.
pub type EnvModel = Seq<(Seq<char>, Scheme)>;

/// A type scheme `∀ vars. body`.
pub struct TypeScheme {
    pub vars: Vec<String>,
    pub body: Type,
}

impl View for TypeScheme {
    type V = Scheme;

    open spec fn view(&self) -> Scheme {
        (names_model(self.vars@), self.body@)
    }
}

impl Clone for TypeScheme {
    fn clone(&self) -> (r: Self)
        ensures
            r@ == self@,
    {
        TypeScheme { vars: clone_names(&self.vars), body: self.body.clone() }
    }
}

/// A mapping from identifiers to type schemes.
pub struct TypingEnvironment {
    entries: Vec<(String, TypeScheme)>,
}

pub open spec fn env_entries_model(s: Seq<(String, TypeScheme)>) -> EnvModel {
    s.map_values(|e: (String, TypeScheme)| (e.0@, e.1@))
}

impl View for TypingEnvironment {
    type V = EnvModel;

    closed spec fn view(&self) -> EnvModel {
        env_entries_model(self.entries@)
    }
}

/// The scheme bound to `k`, if any.
pub open spec fn env_get(s: EnvModel, k: Seq<char>) -> Option<Scheme>
    decreases s.len(),
{
    if s.len() == 0 {
        Option::None
    } else if s.last().0 == k {
        Option::Some(s.last().1)
    } else {
        env_get(s.drop_last(), k)
    }
}

/// The environment without the binding of `k`.
pub open spec fn env_remove(s: EnvModel, k: Seq<char>) -> EnvModel
    decreases s.len(),
{
    if s.len() == 0 {
        s
    } else if s.last().0 == k {
        env_remove(s.drop_last(), k)
    } else {
        env_remove(s.drop_last(), k).push(s.last())
    }
}

/// The environment with `k` bound to `v`, replacing any earlier binding.
pub open spec fn env_insert(s: EnvModel, k: Seq<char>, v: Scheme) -> EnvModel {
    env_remove(s, k).push((k, v))
}

/// A monomorphic scheme.
pub open spec fn mono(t: Ty) -> Scheme {
    (Seq::empty(), t)
}

/// The substitution applied to a scheme, leaving its quantified variables alone.
pub open spec fn sub_scheme_spec(s: Seq<Binding>, sc: Scheme) -> Scheme {
    (sc.0, subst_ty(exclude_spec(s, sc.0), sc.1))
}

/// The substitution applied to every scheme of the environment.
pub open spec fn env_sub(s: Seq<Binding>, env: EnvModel) -> EnvModel {
    env.map_values(|e: (Seq<char>, Scheme)| (e.0, sub_scheme_spec(s, e.1)))
}

/// The names of `xs` that are not in `ys`, in order.
pub open spec fn without(xs: Seq<Seq<char>>, ys: Seq<Seq<char>>) -> Seq<Seq<char>>
    decreases xs.len(),
{
    if xs.len() == 0 {
        xs
    } else if ys.contains(xs.last()) {
        without(xs.drop_last(), ys)
    } else {
        without(xs.drop_last(), ys).push(xs.last())
    }
}

/// `xs` with repetitions removed, first occurrences kept.
pub open spec fn dedup(xs: Seq<Seq<char>>) -> Seq<Seq<char>>
    decreases xs.len(),
{
    if xs.len() == 0 {
        xs
    } else if dedup(xs.drop_last()).contains(xs.last()) {
        dedup(xs.drop_last())
    } else {
        dedup(xs.drop_last()).push(xs.last())
    }
}

/// The variables of a scheme that are not quantified.
pub open spec fn unknowns_scheme_spec(sc: Scheme) -> Seq<Seq<char>> {
    without(tvars(sc.1), sc.0)
}

/// The variables that occur free in the environment.
pub open spec fn unknowns_te_spec(env: EnvModel) -> Seq<Seq<char>>
    decreases env.len(),
{
    if env.len() == 0 {
        Seq::empty()
    } else {
        unknowns_te_spec(env.drop_last()) + unknowns_scheme_spec(env.last().1)
    }
}

/// The schematic variables of `t` relative to `env`: those of its variables
/// that are not free in `env`, each once.
pub open spec fn scvs_spec(t: Ty, env: EnvModel) -> Seq<Seq<char>> {
    dedup(without(tvars(t), unknowns_te_spec(env)))
}

/// The name of the `n`-th fresh type variable.
pub open spec fn fresh_name_of(n: nat) -> Seq<char> {
    seq!['<'] + decimal(n) + seq!['>']
}

/// The next fresh name and counter, unless the counter is spent.
pub open spec fn fresh_spec(n: nat) -> Result<(Seq<char>, nat), TypeErr> {
    if n >= u64::MAX {
        Err(TypeErr::NameSupplyExhausted)
    } else {
        Ok((fresh_name_of(n), n + 1))
    }
}

/// Binds each of `vars` to a fresh variable, in order.
pub open spec fn fresh_bindings(vars: Seq<Seq<char>>, n: nat, acc: Seq<Binding>) -> Result<(Seq<Binding>, nat), TypeErr>
    decreases vars.len(),
{
    if vars.len() == 0 {
        Ok((acc, n))
    } else {
        match fresh_spec(n) {
            Ok((f, n1)) => fresh_bindings(vars.skip(1), n1, acc.push((vars[0], Ty::Var(f)))),
            Err(e) => Err(e),
        }
    }
}

/// Every name that occurs in the environment: quantified or not.
pub open spec fn env_names(env: EnvModel) -> Seq<Seq<char>>
    decreases env.len(),
{
    if env.len() == 0 {
        Seq::empty()
    } else {
        env_names(env.drop_last()) + env.last().1.0 + tvars(env.last().1.1)
    }
}

/// The next name drawn from the counter that is not in `avoid`.
pub open spec fn fresh_avoiding(avoid: Seq<Seq<char>>, n: nat) -> Result<(Seq<char>, nat), TypeErr>
    decreases u64::MAX - n,
{
    if n >= u64::MAX {
        Err(TypeErr::NameSupplyExhausted)
    } else if avoid.contains(fresh_name_of(n)) {
        fresh_avoiding(avoid, n + 1)
    } else {
        Ok((fresh_name_of(n), n + 1))
    }
}

/// Binds each of `vars` to its own fresh variable, in order, none of them in
/// `avoid`, nor equal to another.
pub open spec fn instance_bindings(
    vars: Seq<Seq<char>>,
    n: nat,
    acc: Seq<Binding>,
    avoid: Seq<Seq<char>>,
) -> Result<(Seq<Binding>, nat), TypeErr>
    decreases vars.len(),
{
    if vars.len() == 0 {
        Ok((acc, n))
    } else {
        match fresh_avoiding(avoid, n) {
            Ok((f, n1)) => instance_bindings(vars.skip(1), n1, acc.push((vars[0], Ty::Var(f))), avoid.push(f)),
            Err(e) => Err(e),
        }
    }
}

/// Draws a fresh type-variable name from the counter.
pub fn fresh_name(counter: &mut u64) -> (r: Result<String, TypingError>)
    ensures
        match (r, fresh_spec(*old(counter) as nat)) {
            (Ok(a), Ok((b, m))) => a@ == b && *final(counter) == m,
            (Err(a), Err(b)) => a@ == b,
            _ => false,
        },
{
    if *counter == u64::MAX {
        return Err(TypingError::NameSupplyExhausted);
    }
    let mut s = String::from_str("<");
    push_decimal(&mut s, *counter);
    s.append(">");
    proof {
        reveal_strlit("<");
        reveal_strlit(">");
    }
    *counter = *counter + 1;
    Ok(s)
}

impl Clone for TypingEnvironment {
    fn clone(&self) -> (r: Self)
        ensures
            r@ == self@,
    {
        let mut entries: Vec<(String, TypeScheme)> = Vec::new();
        let mut i: usize = 0;
        while i < self.entries.len()
            invariant
                i <= self.entries.len(),
                env_entries_model(entries@) == env_entries_model(self.entries@.subrange(0, i as int)),
            decreases self.entries.len() - i,
        {
            let ghost before = entries@;
            entries.push((self.entries[i].0.clone(), self.entries[i].1.clone()));
            proof {
                assert(env_entries_model(entries@) =~= env_entries_model(before).push(self@[i as int]));
                assert(env_entries_model(self.entries@.subrange(0, i + 1)) =~= env_entries_model(
                    self.entries@.subrange(0, i as int),
                ).push(self@[i as int]));
            }
            i = i + 1;
        }
        proof {
            assert(self.entries@.subrange(0, self.entries.len() as int) =~= self.entries@);
        }
        TypingEnvironment { entries }
    }
}

impl TypingEnvironment {
    /// The empty environment.
    pub fn new() -> (r: TypingEnvironment)
        ensures
            r@ == Seq::<(Seq<char>, Scheme)>::empty(),
    {
        let r = TypingEnvironment { entries: Vec::new() };
        proof {
            assert(r@ =~= Seq::<(Seq<char>, Scheme)>::empty());
        }
        r
    }

    /// The scheme bound to `k`, if any.
    pub fn get(&self, k: &String) -> (r: Option<&TypeScheme>)
        ensures
            match (r, env_get(self@, k@)) {
                (Option::Some(a), Option::Some(b)) => a@ == b,
                (Option::None, Option::None) => true,
                _ => false,
            },
    {
        let ghost m = self@;
        let mut i: usize = self.entries.len();
        proof {
            assert(m.subrange(0, i as int) =~= m);
        }
        while i > 0
            invariant
                i <= self.entries.len(),
                m == self@,
                env_get(m, k@) == env_get(m.subrange(0, i as int), k@),
            decreases i,
        {
            proof {
                assert(m.subrange(0, i as int).drop_last() =~= m.subrange(0, i - 1));
            }
            if self.entries[i - 1].0 == *k {
                return Some(&self.entries[i - 1].1);
            }
            i = i - 1;
        }
        None
    }

    /// Whether `k` is bound.
    pub fn contains_key(&self, k: &String) -> (r: bool)
        ensures
            r == (env_get(self@, k@) is Some),
    {
        match self.get(k) {
            Some(_) => true,
            None => false,
        }
    }

    /// Binds `k` to `v`, replacing any earlier binding of `k`.
    pub fn insert(&mut self, k: String, v: TypeScheme)
        ensures
            final(self)@ == env_insert(old(self)@, k@, v@),
    {
        let mut entries: Vec<(String, TypeScheme)> = Vec::new();
        let ghost m = old(self)@;
        let mut i: usize = 0;
        while i < self.entries.len()
            invariant
                i <= self.entries.len(),
                m == self@,
                env_entries_model(entries@) == env_remove(m.subrange(0, i as int), k@),
            decreases self.entries.len() - i,
        {
            proof {
                assert(m.subrange(0, i + 1).drop_last() =~= m.subrange(0, i as int));
            }
            if self.entries[i].0 != k {
                let ghost before = entries@;
                entries.push((self.entries[i].0.clone(), self.entries[i].1.clone()));
                proof {
                    assert(env_entries_model(entries@) =~= env_entries_model(before).push(m[i as int]));
                }
            }
            i = i + 1;
        }
        proof {
            assert(m.subrange(0, self.entries.len() as int) =~= m);
        }
        let ghost before = entries@;
        entries.push((k, v));
        proof {
            assert(env_entries_model(entries@) =~= env_entries_model(before).push((k@, v@)));
        }
        self.entries = entries;
    }
}

/// The substitution applied to a scheme, leaving its quantified variables
/// alone.
pub fn sub_scheme(subst: &Substitution, scheme_type: &TypeScheme) -> (r: TypeScheme)
    ensures
        r@ == sub_scheme_spec(subst@, scheme_type@),
{
    let body = sub_type(&subst.exclude(&scheme_type.vars), &scheme_type.body);
    TypeScheme { vars: clone_names(&scheme_type.vars), body }
}

/// The substitution applied to every scheme of the environment.
pub fn sub_type_env(subst: &Substitution, type_env: &TypingEnvironment) -> (r: TypingEnvironment)
    ensures
        r@ == env_sub(subst@, type_env@),
{
    let mut entries: Vec<(String, TypeScheme)> = Vec::new();
    let mut i: usize = 0;
    while i < type_env.entries.len()
        invariant
            i <= type_env.entries.len(),
            env_entries_model(entries@) == env_sub(subst@, type_env@.subrange(0, i as int)),
        decreases type_env.entries.len() - i,
    {
        let sc = sub_scheme(subst, &type_env.entries[i].1);
        let ghost before = entries@;
        entries.push((type_env.entries[i].0.clone(), sc));
        proof {
            let e = type_env@[i as int];
            assert(env_entries_model(entries@) =~= env_entries_model(before).push((e.0, sub_scheme_spec(subst@, e.1))));
            assert(env_sub(subst@, type_env@.subrange(0, i + 1)) =~= env_sub(subst@, type_env@.subrange(0, i as int)).push((e.0, sub_scheme_spec(subst@, e.1))));
        }
        i = i + 1;
    }
    proof {
        assert(type_env@.subrange(0, type_env.entries.len() as int) =~= type_env@);
    }
    TypingEnvironment { entries }
}

/// Whether `ns` holds `n`.
pub(crate) fn names_contain(ns: &Vec<String>, n: &String) -> (r: bool)
    ensures
        r == names_model(ns@).contains(n@),
{
    let mut i: usize = 0;
    while i < ns.len()
        invariant
            i <= ns.len(),
            forall|j: int| 0 <= j < i ==> ns@[j]@ != n@,
        decreases ns.len() - i,
    {
        if ns[i] == *n {
            proof {
                assert(names_model(ns@)[i as int] == n@);
            }
            return true;
        }
        i = i + 1;
    }
    proof {
        if names_model(ns@).contains(n@) {
            let j = choose|j: int| 0 <= j < names_model(ns@).len() && names_model(ns@)[j] == n@;
            assert(ns@[j]@ == n@);
        }
    }
    false
}

/// The names of `xs` that are not in `ys`, in order.
fn names_without(xs: &Vec<String>, ys: &Vec<String>) -> (r: Vec<String>)
    ensures
        names_model(r@) == without(names_model(xs@), names_model(ys@)),
{
    let mut out: Vec<String> = Vec::new();
    let mut i: usize = 0;
    while i < xs.len()
        invariant
            i <= xs.len(),
            names_model(out@) == without(names_model(xs@).subrange(0, i as int), names_model(ys@)),
        decreases xs.len() - i,
    {
        proof {
            assert(names_model(xs@).subrange(0, i + 1).drop_last() =~= names_model(xs@).subrange(0, i as int));
        }
        if !names_contain(ys, &xs[i]) {
            let ghost before = out@;
            out.push(xs[i].clone());
            proof {
                assert(names_model(out@) =~= names_model(before).push(xs@[i as int]@));
            }
        }
        i = i + 1;
    }
    proof {
        assert(names_model(xs@).subrange(0, xs.len() as int) =~= names_model(xs@));
    }
    out
}

/// `xs` with repetitions removed, first occurrences kept.
pub(crate) fn names_dedup(xs: &Vec<String>) -> (r: Vec<String>)
    ensures
        names_model(r@) == dedup(names_model(xs@)),
{
    let mut out: Vec<String> = Vec::new();
    let mut i: usize = 0;
    while i < xs.len()
        invariant
            i <= xs.len(),
            names_model(out@) == dedup(names_model(xs@).subrange(0, i as int)),
        decreases xs.len() - i,
    {
        proof {
            assert(names_model(xs@).subrange(0, i + 1).drop_last() =~= names_model(xs@).subrange(0, i as int));
        }
        if !names_contain(&out, &xs[i]) {
            let ghost before = out@;
            out.push(xs[i].clone());
            proof {
                assert(names_model(out@) =~= names_model(before).push(xs@[i as int]@));
            }
        }
        i = i + 1;
    }
    proof {
        assert(names_model(xs@).subrange(0, xs.len() as int) =~= names_model(xs@));
    }
    out
}

fn unknowns_scheme(scheme: &TypeScheme) -> (r: Vec<String>)
    ensures
        names_model(r@) == unknowns_scheme_spec(scheme@),
{
    names_without(&tvars_in(&scheme.body), &scheme.vars)
}

fn unknowns_te(type_env: &TypingEnvironment) -> (r: Vec<String>)
    ensures
        names_model(r@) == unknowns_te_spec(type_env@),
{
    let mut out: Vec<String> = Vec::new();
    let mut i: usize = 0;
    while i < type_env.entries.len()
        invariant
            i <= type_env.entries.len(),
            names_model(out@) == unknowns_te_spec(type_env@.subrange(0, i as int)),
        decreases type_env.entries.len() - i,
    {
        proof {
            assert(type_env@.subrange(0, i + 1).drop_last() =~= type_env@.subrange(0, i as int));
        }
        let mut u = unknowns_scheme(&type_env.entries[i].1);
        let ghost before = out@;
        let ghost ub = u@;
        out.append(&mut u);
        proof {
            assert(names_model(out@) =~= names_model(before) + names_model(ub));
        }
        i = i + 1;
    }
    proof {
        assert(type_env@.subrange(0, type_env.entries.len() as int) =~= type_env@);
    }
    out
}

/// The schematic variables of `t` relative to `type_env`: the variables of
/// `t` that are not free in the environment, each once.
pub fn scvs_given_te(t: &Type, type_env: &TypingEnvironment) -> (r: Vec<String>)
    ensures
        names_model(r@) == scvs_spec(t@, type_env@),
{
    let unknowns = unknowns_te(type_env);
    let vars = tvars_in(t);
    proof {
        assert(names_model(vars@) =~= vars@.map_values(|n: String| n@));
    }
    names_dedup(&names_without(&vars, &unknowns))
}

/// Every name that occurs in the environment.
pub fn env_type_names(type_env: &TypingEnvironment) -> (r: Vec<String>)
    ensures
        names_model(r@) == env_names(type_env@),
{
    let mut out: Vec<String> = Vec::new();
    let mut i: usize = 0;
    proof {
        assert(names_model(out@) =~= env_names(type_env@.subrange(0, 0)));
    }
    while i < type_env.entries.len()
        invariant
            i <= type_env.entries.len(),
            names_model(out@) == env_names(type_env@.subrange(0, i as int)),
        decreases type_env.entries.len() - i,
    {
        proof {
            assert(type_env@.subrange(0, i + 1).drop_last() =~= type_env@.subrange(0, i as int));
        }
        let ghost before = out@;
        let mut qs = clone_names(&type_env.entries[i].1.vars);
        let mut vs = tvars_in(&type_env.entries[i].1.body);
        let ghost q0 = qs@;
        let ghost v0 = vs@;
        out.append(&mut qs);
        out.append(&mut vs);
        proof {
            assert(names_model(out@) =~= names_model(before) + names_model(q0) + v0.map_values(|n: String| n@));
        }
        i = i + 1;
    }
    proof {
        assert(type_env@.subrange(0, type_env.entries.len() as int) =~= type_env@);
    }
    out
}

/// Draws the next name from the counter that is not in `avoid`.
pub fn fresh_name_avoiding(avoid: &Vec<String>, counter: &mut u64) -> (r: Result<String, TypingError>)
    ensures
        match (r, fresh_avoiding(names_model(avoid@), *old(counter) as nat)) {
            (Ok(a), Ok((b, m))) => a@ == b && *final(counter) == m,
            (Err(a), Err(b)) => a@ == b,
            _ => false,
        },
{
    let ghost whole = fresh_avoiding(names_model(avoid@), *counter as nat);
    loop
        invariant
            whole == fresh_avoiding(names_model(avoid@), *old(counter) as nat),
            whole == fresh_avoiding(names_model(avoid@), *counter as nat),
        decreases u64::MAX - *counter,
    {
        let f = match fresh_name(counter) {
            Ok(f) => f,
            Err(e) => {
                return Err(e);
            },
        };
        if !names_contain(avoid, &f) {
            return Ok(f);
        }
    }
}

/// Binds each of `vars` to its own fresh type variable, in order, avoiding
/// the names in `avoid`.
pub fn instantiation(vars: &Vec<String>, avoid: &Vec<String>, counter: &mut u64) -> (r: Result<Vec<(String, Type)>, TypingError>)
    ensures
        match (r, instance_bindings(names_model(vars@), *old(counter) as nat, Seq::empty(), names_model(avoid@))) {
            (Ok(a), Ok((b, m))) => a@.map_values(|e: (String, Type)| (e.0@, e.1@)) == b && *final(counter) == m,
            (Err(a), Err(b)) => a@ == b,
            _ => false,
        },
{
    let ghost all = names_model(vars@);
    let ghost whole = instance_bindings(all, *counter as nat, Seq::empty(), names_model(avoid@));
    let mut avoiding = clone_names(&avoid);
    let mut out: Vec<(String, Type)> = Vec::new();
    let mut i: usize = 0;
    proof {
        assert(all.skip(0) =~= all);
        assert(out@.map_values(|e: (String, Type)| (e.0@, e.1@)) =~= Seq::<Binding>::empty());
    }
    while i < vars.len()
        invariant
            i <= vars.len(),
            all == names_model(vars@),
            whole == instance_bindings(all, *old(counter) as nat, Seq::empty(), names_model(avoid@)),
            whole == instance_bindings(
                all.skip(i as int),
                *counter as nat,
                out@.map_values(|e: (String, Type)| (e.0@, e.1@)),
                names_model(avoiding@),
            ),
        decreases vars.len() - i,
    {
        proof {
            assert(all.skip(i as int).skip(1) =~= all.skip(i + 1));
            assert(all.skip(i as int)[0] == vars@[i as int]@);
            assert(all.skip(i as int).len() > 0);
        }
        let ghost before = out@;
        let ghost av = avoiding@;
        match fresh_name_avoiding(&avoiding, counter) {
            Ok(f) => {
                out.push((vars[i].clone(), Type::TypeVariable(f.clone())));
                avoiding.push(f);
                proof {
                    assert(out@.map_values(|e: (String, Type)| (e.0@, e.1@)) =~= before.map_values(
                        |e: (String, Type)| (e.0@, e.1@),
                    ).push((vars@[i as int]@, Ty::Var(avoiding@.last()@))));
                    assert(names_model(avoiding@) =~= names_model(av).push(avoiding@.last()@));
                }
            },
            Err(e) => {
                return Err(e);
            },
        }
        i = i + 1;
    }
    Ok(out)
}

/// Binds each of `vars` to a fresh type variable, in order.
pub fn fresh_renaming(vars: &Vec<String>, counter: &mut u64) -> (r: Result<Vec<(String, Type)>, TypingError>)
    ensures
        match (r, fresh_bindings(names_model(vars@), *old(counter) as nat, Seq::empty())) {
            (Ok(a), Ok((b, m))) => a@.map_values(|e: (String, Type)| (e.0@, e.1@)) == b && *final(counter) == m,
            (Err(a), Err(b)) => a@ == b,
            _ => false,
        },
{
    let ghost all = names_model(vars@);
    let ghost n0 = *counter as nat;
    let mut out: Vec<(String, Type)> = Vec::new();
    let mut i: usize = 0;
    proof {
        assert(all.skip(0) =~= all);
        assert(out@.map_values(|e: (String, Type)| (e.0@, e.1@)) =~= Seq::<Binding>::empty());
    }
    while i < vars.len()
        invariant
            i <= vars.len(),
            all == names_model(vars@),
            n0 == *old(counter) as nat,
            fresh_bindings(all, n0, Seq::empty()) == fresh_bindings(
                all.skip(i as int),
                *counter as nat,
                out@.map_values(|e: (String, Type)| (e.0@, e.1@)),
            ),
        decreases vars.len() - i,
    {
        proof {
            assert(all.skip(i as int).skip(1) =~= all.skip(i + 1));
            assert(all.skip(i as int)[0] == vars@[i as int]@);
            assert(all.skip(i as int).len() > 0);
        }
        let ghost before = out@;
        match fresh_name(counter) {
            Ok(f) => {
                out.push((vars[i].clone(), Type::TypeVariable(f)));
                proof {
                    assert(out@.map_values(|e: (String, Type)| (e.0@, e.1@)) =~= before.map_values(
                        |e: (String, Type)| (e.0@, e.1@),
                    ).push((vars@[i as int]@, Ty::Var(f@))));
                }
            },
            Err(e) => {
                return Err(e);
            },
        }
        i = i + 1;
    }
    Ok(out)
}

} // verus!
