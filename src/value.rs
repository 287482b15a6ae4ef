//! Runtime values and environments of the lazy evaluator.
use std::rc::Rc;

use vstd::prelude::*;

use crate::ast::{Expr, Lit, Literal, Term, Type, clone_names, names_model};

verus! {

/// A runtime value. A closure with no parameters left is a thunk.
pub enum Value {
    Literal(Literal),
    Tuple(Vec<Value>),
    Closure(Expr, Vec<String>, Env),
    List(Box<Value>, Box<Value>),
    EmptyList,
}

/// A lexical scope: bindings of names to values, a later binding hiding an
/// earlier one. Values are shared between the scopes that hold them.
pub struct Env {
    pub vars: Vec<(String, Rc<Value>)>,
}

/// Mathematical model of a value.
pub enum Val {
    Lit(Lit),
    Tuple(Seq<Val>),
    Closure(Term, Seq<Seq<char>>, Seq<(Seq<char>, Val)>),
    Cons(Box<Val>, Box<Val>),
    Nil,
}

/// Mathematical model of a scope.
pub type Scope = Seq<(Seq<char>, Val)>;

/// Errors raised while evaluating.
pub enum RunTimeError {
    MissingArgument,
    VariableNotFound(String),
    /// A value was demanded at one type and found to be of another kind.
    TypeError(Type, String),
    EndOfProgram,
    NonExhaustivePattern,
    DivisionByZero,
    /// The evaluation went deeper than its budget allows.
    OutOfFuel,
}

/// Mathematical model of a runtime error.
pub enum RtErr {
    MissingArgument,
    VariableNotFound(Seq<char>),
    TypeError(crate::ast::Ty, Seq<char>),
    EndOfProgram,
    NonExhaustivePattern,
    DivisionByZero,
    OutOfFuel,
}

impl View for RunTimeError {
    type V = RtErr;

    open spec fn view(&self) -> RtErr {
        match self {
            RunTimeError::MissingArgument => RtErr::MissingArgument,
            RunTimeError::VariableNotFound(n) => RtErr::VariableNotFound(n@),
            RunTimeError::TypeError(t, s) => RtErr::TypeError(t@, s@),
            RunTimeError::EndOfProgram => RtErr::EndOfProgram,
            RunTimeError::NonExhaustivePattern => RtErr::NonExhaustivePattern,
            RunTimeError::DivisionByZero => RtErr::DivisionByZero,
            RunTimeError::OutOfFuel => RtErr::OutOfFuel,
        }
    }
}

impl Value {
    pub open spec fn model(&self) -> Val
        decreases self,
    {
        match self {
            Value::Literal(l) => Val::Lit(l@),
            Value::Tuple(vs) => Val::Tuple(values_model(vs@)),
            Value::Closure(e, ps, env) => Val::Closure(e@, names_model(ps@), scope_model(env.vars@)),
            Value::List(h, t) => Val::Cons(Box::new(h.model()), Box::new(t.model())),
            Value::EmptyList => Val::Nil,
        }
    }
}

pub open spec fn values_model(vs: Seq<Value>) -> Seq<Val>
    decreases vs,
{
    if vs.len() == 0 {
        Seq::empty()
    } else {
        values_model(vs.drop_last()).push(vs.last().model())
    }
}

pub open spec fn scope_model(s: Seq<(String, Rc<Value>)>) -> Scope
    decreases s,
{
    if s.len() == 0 {
        Seq::empty()
    } else {
        scope_model(s.drop_last()).push((s.last().0@, (*s.last().1).model()))
    }
}

impl View for Value {
    type V = Val;

    open spec fn view(&self) -> Val {
        self.model()
    }
}

impl View for Env {
    type V = Scope;

    open spec fn view(&self) -> Scope {
        scope_model(self.vars@)
    }
}

pub proof fn lemma_values_model(s: Seq<Value>)
    ensures
        values_model(s).len() == s.len(),
        forall|i: int| 0 <= i < s.len() ==> #[trigger] values_model(s)[i] == s[i].model(),
    decreases s.len(),
{
    if s.len() > 0 {
        lemma_values_model(s.drop_last());
    }
}

pub proof fn lemma_values_model_push(s: Seq<Value>, v: Value)
    ensures
        values_model(s.push(v)) == values_model(s).push(v.model()),
{
    assert(s.push(v).drop_last() =~= s);
}

/// The value bound to `k` by the latest binding of `k`, if any.
pub open spec fn scope_get(s: Scope, k: Seq<char>) -> Option<Val>
    decreases s.len(),
{
    if s.len() == 0 {
        Option::None
    } else if s.last().0 == k {
        Option::Some(s.last().1)
    } else {
        scope_get(s.drop_last(), k)
    }
}

/// The scope with the latest binding of `k` replaced, if `k` is bound.
pub open spec fn scope_update(s: Scope, k: Seq<char>, v: Val) -> Scope
    decreases s.len(),
{
    if s.len() == 0 {
        s
    } else if s.last().0 == k {
        s.drop_last().push((k, v))
    } else {
        scope_update(s.drop_last(), k, v).push(s.last())
    }
}

/// Relies on `Rc::clone`: a new pointer to the same value.
#[verifier::external_body]
fn share(r: &Rc<Value>) -> (s: Rc<Value>)
    ensures
        s == *r,
{
    Rc::clone(r)
}

impl Clone for Env {
    fn clone(&self) -> (r: Self)
        ensures
            r@ == self@,
    {
        let mut vars: Vec<(String, Rc<Value>)> = Vec::new();
        let mut i: usize = 0;
        while i < self.vars.len()
            invariant
                i <= self.vars.len(),
                scope_model(vars@) == scope_model(self.vars@.subrange(0, i as int)),
            decreases self.vars.len() - i,
        {
            let ghost before = vars@;
            vars.push((self.vars[i].0.clone(), share(&self.vars[i].1)));
            proof {
                assert(vars@.drop_last() =~= before);
                assert(self.vars@.subrange(0, i + 1).drop_last() =~= self.vars@.subrange(0, i as int));
            }
            i = i + 1;
        }
        proof {
            assert(self.vars@.subrange(0, self.vars.len() as int) =~= self.vars@);
        }
        Env { vars }
    }
}

impl Clone for Value {
    fn clone(&self) -> (r: Self)
        ensures
            r@ == self@,
        decreases self,
    {
        match self {
            Value::Literal(l) => Value::Literal(l.clone()),
            Value::Tuple(vs) => {
                let mut out: Vec<Value> = Vec::new();
                let mut i: usize = 0;
                while i < vs.len()
                    invariant
                        i <= vs.len(),
                        *self == Value::Tuple(*vs),
                        values_model(out@) == values_model(vs@.subrange(0, i as int)),
                    decreases vs.len() - i,
                {
                    proof {
                        assert(decreases_to!(*self => self->Tuple_0));
                        assert(decreases_to!(*vs => vs[i as int]));
                    }
                    let c = vs[i].clone();
                    proof {
                        lemma_values_model_push(out@, c);
                        assert(vs@.subrange(0, i + 1).drop_last() =~= vs@.subrange(0, i as int));
                    }
                    out.push(c);
                    i = i + 1;
                }
                proof {
                    assert(vs@.subrange(0, vs.len() as int) =~= vs@);
                }
                Value::Tuple(out)
            },
            Value::Closure(e, ps, env) => Value::Closure(e.clone(), clone_names(ps), env.clone()),
            Value::List(h, t) => Value::List(Box::new((**h).clone()), Box::new((**t).clone())),
            Value::EmptyList => Value::EmptyList,
        }
    }
}

impl Env {
    /// The empty scope.
    pub fn new() -> (r: Env)
        ensures
            r@ == Seq::<(Seq<char>, Val)>::empty(),
    {
        let r = Env { vars: Vec::new() };
        proof {
            assert(r@ =~= Seq::<(Seq<char>, Val)>::empty());
        }
        r
    }

    /// Binds `name` to `v`, hiding any earlier binding of it.
    pub fn add_function(&mut self, name: String, v: Value)
        ensures
            final(self)@ == old(self)@.push((name@, v@)),
    {
        let ghost before = self.vars@;
        self.vars.push((name, Rc::new(v)));
        proof {
            assert(self.vars@.drop_last() =~= before);
        }
    }

    /// A copy of the scope with `name` bound to `val`.
    pub fn extended(&self, name: String, val: Value) -> (r: Env)
        ensures
            r@ == self@.push((name@, val@)),
    {
        let mut r = self.clone();
        r.add_function(name, val);
        r
    }

    /// The scope with `name` bound to `val`, hiding any earlier binding of
    /// it; the scope is consumed rather than copied.
    pub fn extend(self, name: String, val: Value) -> (r: Env)
        ensures
            r@ == self@.push((name@, val@)),
    {
        let mut r = self;
        r.add_function(name, val);
        r
    }

    /// Whether `name` is bound.
    pub fn contains(&self, name: &String) -> (r: bool)
        ensures
            r == (scope_get(self@, name@) is Some),
    {
        match self.lookup(name) {
            Some(_) => true,
            None => false,
        }
    }

    /// The value bound to `name`, if any.
    pub fn lookup(&self, name: &String) -> (r: Option<Value>)
        ensures
            match (r, scope_get(self@, name@)) {
                (Option::Some(a), Option::Some(b)) => a@ == b,
                (Option::None, Option::None) => true,
                _ => false,
            },
    {
        let ghost m = self@;
        let mut i: usize = self.vars.len();
        proof {
            assert(self.vars@.subrange(0, i as int) =~= self.vars@);
        }
        while i > 0
            invariant
                i <= self.vars.len(),
                m == self@,
                scope_get(m, name@) == scope_get(scope_model(self.vars@.subrange(0, i as int)), name@),
            decreases i,
        {
            proof {
                let sub = self.vars@.subrange(0, i as int);
                assert(sub.drop_last() =~= self.vars@.subrange(0, i - 1));
                assert(scope_model(sub).drop_last() =~= scope_model(self.vars@.subrange(0, i - 1)));
            }
            if self.vars[i - 1].0 == *name {
                let v: &Value = &*self.vars[i - 1].1;
                return Some(v.clone());
            }
            i = i - 1;
        }
        None
    }

    /// The value bound to `name`, or `VariableNotFound`.
    pub fn get(&self, name: &String) -> (r: Result<Value, RunTimeError>)
        ensures
            match (r, scope_get(self@, name@)) {
                (Ok(a), Option::Some(b)) => a@ == b,
                (Err(e), Option::None) => e@ == RtErr::VariableNotFound(name@),
                _ => false,
            },
    {
        match self.lookup(name) {
            Some(v) => Ok(v),
            None => Err(RunTimeError::VariableNotFound(name.clone())),
        }
    }

    /// Replaces the value of `name`'s latest binding, when `name` is bound.
    pub fn update_value(&mut self, name: &String, val: Value)
        ensures
            final(self)@ == scope_update(old(self)@, name@, val@),
    {
        let ghost m = self@;
        proof {
            lemma_scope_model(self.vars@);
        }
        let mut i: usize = self.vars.len();
        while i > 0
            invariant
                i <= self.vars.len(),
                m == old(self)@,
                self.vars@ == old(self).vars@,
                m.len() == self.vars.len(),
                forall|j: int| 0 <= j < m.len() ==> #[trigger] m[j] == (self.vars@[j].0@, (*self.vars@[j].1).model()),
                forall|j: int| i <= j < m.len() ==> m[j].0 != name@,
            decreases i,
        {
            if self.vars[i - 1].0 == *name {
                proof {
                    lemma_scope_update_at(m, name@, val@, i - 1);
                }
                let ghost before = self.vars@;
                self.vars.set(i - 1, (name.clone(), Rc::new(val)));
                proof {
                    lemma_scope_model(self.vars@);
                    assert(self@ =~= m.update(i - 1, (name@, val@)));
                }
                return;
            }
            i = i - 1;
        }
        proof {
            lemma_scope_update_none(m, name@, val@);
        }
    }
}

pub proof fn lemma_scope_model(s: Seq<(String, Rc<Value>)>)
    ensures
        scope_model(s).len() == s.len(),
        forall|i: int| 0 <= i < s.len() ==> #[trigger] scope_model(s)[i] == (s[i].0@, (*s[i].1).model()),
    decreases s.len(),
{
    if s.len() > 0 {
        lemma_scope_model(s.drop_last());
    }
}

proof fn lemma_scope_update_at(m: Scope, k: Seq<char>, v: Val, idx: int)
    requires
        0 <= idx < m.len(),
        m[idx].0 == k,
        forall|j: int| idx < j < m.len() ==> m[j].0 != k,
    ensures
        scope_update(m, k, v) == m.update(idx, (k, v)),
    decreases m.len(),
{
    if idx == m.len() - 1 {
        assert(m.drop_last().push((k, v)) =~= m.update(idx, (k, v)));
    } else {
        lemma_scope_update_at(m.drop_last(), k, v, idx);
        assert(m.drop_last().update(idx, (k, v)).push(m.last()) =~= m.update(idx, (k, v)));
    }
}

proof fn lemma_scope_update_none(m: Scope, k: Seq<char>, v: Val)
    requires
        forall|j: int| 0 <= j < m.len() ==> m[j].0 != k,
    ensures
        scope_update(m, k, v) == m,
    decreases m.len(),
{
    if m.len() > 0 {
        lemma_scope_update_none(m.drop_last(), k, v);
        assert(m.drop_last().push(m.last()) =~= m);
    }
}

} // verus!
