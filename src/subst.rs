//! Substitutions: finite mappings from type-variable names to types.
use vstd::prelude::*;

use crate::ast::{Ty, Type};
use crate::ast::names_model;
use crate::types::{tvars, tvars_in};

verus! {

/// One binding of a substitution, as a mathematical value.
pub type Binding = (Seq<char>, Ty);

/// A substitution, kept as a list of bindings in the order they were made;
/// a later binding of a name hides an earlier one.
pub struct Substitution {
    map: Vec<(String, Type)>,
}

/// Errors raised while inferring types.
pub enum TypingError {
    HetrogenousList(Type, Type),
    UnknownIdentifier(String),
    CannotUnify(Type, Type),
    DuplicateTypeVariable(String),
    /// The supply of fresh type-variable names ran out.
    NameSupplyExhausted,
}

/// Mathematical model of a typing error.
pub enum TypeErr {
    HetrogenousList(Ty, Ty),
    UnknownIdentifier(Seq<char>),
    CannotUnify(Ty, Ty),
    DuplicateTypeVariable(Seq<char>),
    NameSupplyExhausted,
}

impl View for TypingError {
    type V = TypeErr;

    open spec fn view(&self) -> TypeErr {
        match self {
            TypingError::HetrogenousList(a, b) => TypeErr::HetrogenousList(a@, b@),
            TypingError::UnknownIdentifier(n) => TypeErr::UnknownIdentifier(n@),
            TypingError::CannotUnify(a, b) => TypeErr::CannotUnify(a@, b@),
            TypingError::DuplicateTypeVariable(n) => TypeErr::DuplicateTypeVariable(n@),
            TypingError::NameSupplyExhausted => TypeErr::NameSupplyExhausted,
        }
    }
}

pub open spec fn bindings_model(s: Seq<(String, Type)>) -> Seq<Binding> {
    s.map_values(|e: (String, Type)| (e.0@, e.1@))
}

impl View for Substitution {
    type V = Seq<Binding>;

    closed spec fn view(&self) -> Seq<Binding> {
        bindings_model(self.map@)
    }
}

/// The type bound to `k` by the latest binding of `k`, if any.
pub open spec fn lookup(s: Seq<Binding>, k: Seq<char>) -> Option<Ty>
    decreases s.len(),
{
    if s.len() == 0 {
        Option::None
    } else if s.last().0 == k {
        Option::Some(s.last().1)
    } else {
        lookup(s.drop_last(), k)
    }
}

/// The finite map that a list of bindings denotes.
pub open spec fn as_map(s: Seq<Binding>) -> Map<Seq<char>, Ty> {
    Map::new(|k: Seq<char>| lookup(s, k) is Some, |k: Seq<char>| lookup(s, k)->0)
}

/// `σ(v)`: the bound type, or the variable itself when unbound.
pub open spec fn apply_spec(s: Seq<Binding>, v: Seq<char>) -> Ty {
    match lookup(s, v) {
        Option::Some(t) => t,
        Option::None => Ty::Var(v),
    }
}

/// Extending with `v ↦ t`: a no-op for `v ↦ v`, an occurs-check failure when
/// `v` occurs in `t`, and otherwise a new binding.
pub open spec fn extend_spec(s: Seq<Binding>, v: Seq<char>, t: Ty) -> Result<Seq<Binding>, TypeErr> {
    if t == Ty::Var(v) {
        Ok(s)
    } else if tvars(t).contains(v) {
        Err(TypeErr::DuplicateTypeVariable(v))
    } else {
        Ok(s.push((v, t)))
    }
}

/// Composition: the bindings of `r`, then those of `l`, so that `l` wins.
pub open spec fn compose_spec(l: Seq<Binding>, r: Seq<Binding>) -> Seq<Binding> {
    r + l
}

/// The names of the variables that live bindings map to, latest binding
/// first; a binding of a name in `seen` is hidden by a later one.
pub open spec fn range_from(s: Seq<Binding>, seen: Seq<Seq<char>>) -> Seq<Seq<char>>
    decreases s.len(),
{
    if s.len() == 0 {
        Seq::empty()
    } else {
        let rest = range_from(s.drop_last(), seen.push(s.last().0));
        if !seen.contains(s.last().0) && s.last().1 is Var {
            seq![s.last().1->Var_0] + rest
        } else {
            rest
        }
    }
}

/// The names of the variables that the substitution maps some name to.
pub open spec fn range_spec(s: Seq<Binding>) -> Seq<Seq<char>> {
    range_from(s, Seq::empty())
}

/// A name is in the range exactly when some name not in `seen` is bound to
/// that variable.
pub proof fn lemma_range_from(s: Seq<Binding>, seen: Seq<Seq<char>>, v: Seq<char>)
    ensures
        range_from(s, seen).contains(v) <==> exists|k: Seq<char>|
            !seen.contains(k) && #[trigger] lookup(s, k) == Option::Some(Ty::Var(v)),
    decreases s.len(),
{
    if s.len() == 0 {
        assert(range_from(s, seen) =~= Seq::<Seq<char>>::empty());
    } else {
        let b = s.last();
        let seen2 = seen.push(b.0);
        let rest = range_from(s.drop_last(), seen2);
        lemma_range_from(s.drop_last(), seen2, v);
        let head: Seq<Seq<char>> = if !seen.contains(b.0) && b.1 is Var { seq![b.1->Var_0] } else { Seq::empty() };
        assert(range_from(s, seen) == head + rest);
        assert((head + rest).contains(v) <==> head.contains(v) || rest.contains(v)) by {
            if (head + rest).contains(v) {
                let i = choose|i: int| 0 <= i < (head + rest).len() && (head + rest)[i] == v;
                if i >= head.len() {
                    assert(rest[i - head.len()] == v);
                }
            }
            if rest.contains(v) {
                let i = choose|i: int| 0 <= i < rest.len() && rest[i] == v;
                assert((head + rest)[i + head.len()] == v);
            }
            if head.contains(v) {
                assert((head + rest)[0] == v);
            }
        }
        if range_from(s, seen).contains(v) {
            if head.contains(v) {
                assert(head[0] == v);
                assert(lookup(s, b.0) == Option::Some(Ty::Var(v)));
            } else {
                let k = choose|k: Seq<char>| !seen2.contains(k) && #[trigger] lookup(s.drop_last(), k) == Option::Some(Ty::Var(v));
                assert(k != b.0) by {
                    assert(seen2[seen2.len() - 1] == b.0);
                }
                assert(!seen.contains(k)) by {
                    if seen.contains(k) {
                        let j = choose|j: int| 0 <= j < seen.len() && seen[j] == k;
                        assert(seen2[j] == k);
                    }
                }
                assert(lookup(s, k) == Option::Some(Ty::Var(v)));
            }
        }
        if exists|k: Seq<char>| !seen.contains(k) && #[trigger] lookup(s, k) == Option::Some(Ty::Var(v)) {
            let k = choose|k: Seq<char>| !seen.contains(k) && #[trigger] lookup(s, k) == Option::Some(Ty::Var(v));
            if k == b.0 {
                assert(head == seq![v]);
                assert(head[0] == v);
            } else {
                assert(!seen2.contains(k)) by {
                    if seen2.contains(k) {
                        let j = choose|j: int| 0 <= j < seen2.len() && seen2[j] == k;
                        if j < seen.len() {
                            assert(seen[j] == k);
                        }
                    }
                }
                assert(lookup(s.drop_last(), k) == Option::Some(Ty::Var(v)));
                assert(rest.contains(v));
            }
        }
    }
}

/// The bindings whose names are not in `names`.
pub open spec fn exclude_spec(s: Seq<Binding>, names: Seq<Seq<char>>) -> Seq<Binding>
    decreases s.len(),
{
    if s.len() == 0 {
        s
    } else if names.contains(s.last().0) {
        exclude_spec(s.drop_last(), names)
    } else {
        exclude_spec(s.drop_last(), names).push(s.last())
    }
}

pub proof fn lemma_lookup_append(a: Seq<Binding>, b: Seq<Binding>, k: Seq<char>)
    ensures
        lookup(a + b, k) == (match lookup(b, k) {
            Option::Some(t) => Option::Some(t),
            Option::None => lookup(a, k),
        }),
    decreases b.len(),
{
    if b.len() == 0 {
        assert(a + b =~= a);
    } else {
        assert((a + b).drop_last() =~= a + b.drop_last());
        lemma_lookup_append(a, b.drop_last(), k);
    }
}

pub proof fn lemma_exclude_lookup(s: Seq<Binding>, names: Seq<Seq<char>>, k: Seq<char>)
    ensures
        lookup(exclude_spec(s, names), k) == if names.contains(k) {
            Option::None
        } else {
            lookup(s, k)
        },
    decreases s.len(),
{
    if s.len() > 0 {
        lemma_exclude_lookup(s.drop_last(), names, k);
        let e = exclude_spec(s.drop_last(), names);
        if !names.contains(s.last().0) {
            assert(e.push(s.last()).drop_last() =~= e);
        }
    }
}

impl Clone for Substitution {
    fn clone(&self) -> (r: Self)
        ensures
            r@ == self@,
    {
        let mut map: Vec<(String, Type)> = Vec::new();
        let mut i: usize = 0;
        while i < self.map.len()
            invariant
                i <= self.map.len(),
                bindings_model(map@) == bindings_model(self.map@.subrange(0, i as int)),
            decreases self.map.len() - i,
        {
            let ghost before = map@;
            map.push((self.map[i].0.clone(), self.map[i].1.clone()));
            proof {
                assert(bindings_model(map@) =~= bindings_model(before).push(self@[i as int]));
                assert(bindings_model(self.map@.subrange(0, i + 1)) =~= bindings_model(self.map@.subrange(0, i as int)).push(
                    self@[i as int],
                ));
            }
            i = i + 1;
        }
        proof {
            assert(self.map@.subrange(0, self.map.len() as int) =~= self.map@);
        }
        Substitution { map }
    }
}

impl Substitution {
    /// Number of bindings held, hidden ones included.
    pub open spec fn size(&self) -> nat {
        self@.len()
    }

    /// Number of bindings held.
    pub fn num_bindings(&self) -> (r: usize)
        ensures
            r == self.size(),
    {
        self.map.len()
    }

    /// Extends the substitution by `tv ↦ t`, with the occurs check.
    pub fn extended(self, tv: String, t: Type) -> (r: Result<Substitution, TypingError>)
        ensures
            match (r, extend_spec(self@, tv@, t@)) {
                (Ok(a), Ok(b)) => a@ == b,
                (Err(a), Err(b)) => a@ == b,
                _ => false,
            },
    {
        if let Type::TypeVariable(tv2) = &t {
            if tv == *tv2 {
                return Ok(self);
            }
        }
        proof {
            if t@ == Ty::Var(tv@) {
                assert(t is TypeVariable);
            }
        }
        let vars = tvars_in(&t);
        let mut i: usize = 0;
        while i < vars.len()
            invariant
                i <= vars.len(),
                vars@.map_values(|n: String| n@) == tvars(t@),
                t@ != Ty::Var(tv@),
                forall|j: int| 0 <= j < i ==> vars@[j]@ != tv@,
            decreases vars.len() - i,
        {
            if vars[i] == tv {
                proof {
                    assert(tvars(t@)[i as int] == tv@);
                }
                return Err(TypingError::DuplicateTypeVariable(tv));
            }
            i = i + 1;
        }
        proof {
            assert(!tvars(t@).contains(tv@)) by {
                if tvars(t@).contains(tv@) {
                    let j = choose|j: int| 0 <= j < tvars(t@).len() && tvars(t@)[j] == tv@;
                    assert(vars@[j]@ == tv@);
                }
            }
        }
        let mut map = self.map;
        let ghost old_map = map@;
        map.push((tv, t));
        proof {
            assert(bindings_model(map@) =~= bindings_model(old_map).push((tv@, t@)));
        }
        Ok(Substitution { map })
    }

    /// `σ(tv)`: the bound type, or the variable itself when unbound.
    pub fn apply(&self, tv: &String) -> (r: Type)
        ensures
            r@ == apply_spec(self@, tv@),
    {
        let ghost m = self@;
        let mut i: usize = self.map.len();
        proof {
            assert(m.subrange(0, i as int) =~= m);
        }
        while i > 0
            invariant
                i <= self.map.len(),
                m == self@,
                lookup(m, tv@) == lookup(m.subrange(0, i as int), tv@),
            decreases i,
        {
            proof {
                assert(m.subrange(0, i as int).drop_last() =~= m.subrange(0, i - 1));
            }
            if self.map[i - 1].0 == *tv {
                return self.map[i - 1].1.clone();
            }
            i = i - 1;
        }
        Type::TypeVariable(tv.clone())
    }

    fn new() -> (r: Substitution)
        ensures
            r@ == Seq::<Binding>::empty(),
    {
        let r = Substitution { map: Vec::new() };
        proof {
            assert(r@ =~= Seq::<Binding>::empty());
        }
        r
    }

    /// The identity substitution.
    pub fn id_subst() -> (r: Substitution)
        ensures
            r@ == Seq::<Binding>::empty(),
    {
        Substitution::new()
    }

    /// A substitution made of the given bindings, in order.
    pub fn from(map: Vec<(String, Type)>) -> (r: Substitution)
        ensures
            r@ == bindings_model(map@),
    {
        Substitution { map }
    }

    /// The names of the variables that the substitution maps some name to,
    /// latest binding first.
    pub fn range(&self) -> (r: Vec<String>)
        ensures
            r@.map_values(|n: String| n@) == range_spec(self@),
            forall|v: Seq<char>|
                #[trigger] names_model(r@).contains(v) <==> exists|k: Seq<char>| #[trigger]
                    lookup(self@, k) == Option::Some(Ty::Var(v)),
    {
        let ghost m = self@;
        let mut out: Vec<String> = Vec::new();
        let mut seen: Vec<String> = Vec::new();
        let mut i: usize = self.map.len();
        proof {
            assert(m.subrange(0, i as int) =~= m);
            assert(out@.map_values(|n: String| n@) =~= Seq::<Seq<char>>::empty());
            assert(seen@.map_values(|n: String| n@) =~= Seq::<Seq<char>>::empty());
            assert(Seq::<Seq<char>>::empty() + range_from(m, Seq::empty()) =~= range_from(m, Seq::empty()));
        }
        while i > 0
            invariant
                i <= self.map.len(),
                m == self@,
                range_spec(m) == out@.map_values(|n: String| n@) + range_from(
                    m.subrange(0, i as int),
                    seen@.map_values(|n: String| n@),
                ),
            decreases i,
        {
            let ghost sub = m.subrange(0, i as int);
            let ghost sv = seen@.map_values(|n: String| n@);
            let ghost o = out@.map_values(|n: String| n@);
            proof {
                assert(sub.drop_last() =~= m.subrange(0, i - 1));
                assert(sub.last() == m[i - 1]);
            }
            let hidden = crate::tyenv::names_contain(&seen, &self.map[i - 1].0);
            proof {
                assert(sv =~= names_model(seen@));
            }
            if !hidden {
                if let Type::TypeVariable(v) = &self.map[i - 1].1 {
                    out.push(v.clone());
                    proof {
                        assert(out@.map_values(|n: String| n@) =~= o.push(v@));
                        assert(o.push(v@) + range_from(m.subrange(0, i - 1), sv.push(m[i - 1].0)) =~= o + (seq![v@]
                            + range_from(m.subrange(0, i - 1), sv.push(m[i - 1].0))));
                    }
                }
            }
            seen.push(self.map[i - 1].0.clone());
            proof {
                assert(seen@.map_values(|n: String| n@) =~= sv.push(m[i - 1].0));
            }
            i = i - 1;
        }
        proof {
            assert(m.subrange(0, 0) =~= Seq::<Binding>::empty());
            assert(out@.map_values(|n: String| n@) + Seq::<Seq<char>>::empty() =~= out@.map_values(|n: String| n@));
            assert forall|v: Seq<char>|
                #[trigger] names_model(out@).contains(v) <==> exists|k: Seq<char>| #[trigger]
                    lookup(self@, k) == Option::Some(Ty::Var(v)) by {
                lemma_range_from(m, Seq::empty(), v);
            }
        }
        out
    }

    /// The substitution without the bindings of the given names.
    pub fn exclude(&self, scheme_vars: &Vec<String>) -> (r: Substitution)
        ensures
            r@ == exclude_spec(self@, scheme_vars@.map_values(|n: String| n@)),
    {
        let ghost names = scheme_vars@.map_values(|n: String| n@);
        let mut map: Vec<(String, Type)> = Vec::new();
        let mut i: usize = 0;
        while i < self.map.len()
            invariant
                i <= self.map.len(),
                names == scheme_vars@.map_values(|n: String| n@),
                bindings_model(map@) == exclude_spec(self@.subrange(0, i as int), names),
            decreases self.map.len() - i,
        {
            proof {
                assert(self@.subrange(0, i + 1).drop_last() =~= self@.subrange(0, i as int));
            }
            let mut found = false;
            let mut j: usize = 0;
            while j < scheme_vars.len()
                invariant
                    j <= scheme_vars.len(),
                    i < self.map.len(),
                    names == scheme_vars@.map_values(|n: String| n@),
                    found == exists|x: int| 0 <= x < j && names[x] == self.map@[i as int].0@,
                decreases scheme_vars.len() - j,
            {
                let ghost f0 = found;
                if scheme_vars[j] == self.map[i].0 {
                    found = true;
                }
                proof {
                    if found && !f0 {
                        assert(names[j as int] == self.map@[i as int].0@);
                    }
                }
                j = j + 1;
            }
            if !found {
                let ghost before = map@;
                map.push((self.map[i].0.clone(), self.map[i].1.clone()));
                proof {
                    assert(bindings_model(map@) =~= bindings_model(before).push(self@[i as int]));
                }
            }
            i = i + 1;
        }
        proof {
            assert(self@.subrange(0, self.map.len() as int) =~= self@);
        }
        Substitution { map }
    }
}

/// Composes two substitutions; the bindings of `left` win over those of
/// `right`.
pub fn subst_combine(left: Substitution, right: Substitution) -> (r: Substitution)
    ensures
        r@ == compose_spec(left@, right@),
{
    let mut map = right.map;
    let mut l = left.map;
    let ghost m0 = bindings_model(map@);
    let ghost l0 = bindings_model(l@);
    map.append(&mut l);
    proof {
        assert(bindings_model(map@) =~= m0 + l0);
    }
    Substitution { map }
}

} // verus!
