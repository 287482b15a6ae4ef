//! Abstract syntax of programs, types, expressions and patterns, with the
//! mathematical models that contracts speak of.
use vstd::prelude::*;

verus! {

/// A cons list, as used for list literals.
pub enum List<T> {
    Cons(Box<T>, Box<List<T>>),
    Empty,
}

pub enum Decl {
    TypeAlias(String, Type),
    TypeSignature(String, Type),
    FunDecl(String, Vec<String>, Expr),
    SExpr(Expr),
    EndOfInstruction,
}

pub enum Type {
    TypeVariable(String),
    Function(Box<Type>, Box<Type>),
    Tuple(Vec<Type>),
    List(Box<Type>),
    Int,
    Bool,
    Char,
    String,
}

pub enum Expr {
    Var(String),
    Application(Box<Expr>, Box<Expr>),
    If(Box<Expr>, Box<Expr>, Box<Expr>),
    Let(String, Box<Expr>, Box<Expr>),
    Lambda(String, Box<Expr>),
    Case(Box<Expr>, Vec<(Pattern, Expr)>),
    BinOp(Box<Expr>, Op, Box<Expr>),
    Tuple(Vec<Expr>),
    List(List<Expr>),
    Range(Box<Expr>, Box<Expr>, Option<Box<Expr>>),
    Literal(Literal),
}

pub enum Literal {
    Int(i64),
    Bool(bool),
    String(String),
    Char(char),
}

pub enum Pattern {
    Literal(Literal),
    Var(String),
    Wildcard,
    EmptyList,
    Tuple(Vec<Pattern>),
    FakeTuple(Vec<Pattern>),
    List(Box<Pattern>, Box<Pattern>),
}

#[derive(PartialEq, Eq, Structural, Clone, Copy, Debug)]
pub enum Op {
    Add,
    Sub,
    Mul,
    Div,
    Mod,
    Eq,
    Neq,
    Lt,
    Gt,
    Le,
    Ge,
    And,
    Or,
    Append,
    Cons,
}

/// Mathematical model of a type.
pub enum Ty {
    Var(Seq<char>),
    Fun(Box<Ty>, Box<Ty>),
    Tuple(Seq<Ty>),
    List(Box<Ty>),
    Int,
    Bool,
    Char,
    Str,
}

/// Mathematical model of a literal.
pub enum Lit {
    Int(i64),
    Bool(bool),
    Str(Seq<char>),
    Char(char),
}

/// Mathematical model of a pattern.
pub enum Pat {
    Lit(Lit),
    Var(Seq<char>),
    Wildcard,
    EmptyList,
    Tuple(Seq<Pat>),
    FakeTuple(Seq<Pat>),
    Cons(Box<Pat>, Box<Pat>),
}

/// Mathematical model of an expression.
pub enum Term {
    Var(Seq<char>),
    App(Box<Term>, Box<Term>),
    If(Box<Term>, Box<Term>, Box<Term>),
    Let(Seq<char>, Box<Term>, Box<Term>),
    Lambda(Seq<char>, Box<Term>),
    Case(Box<Term>, Seq<(Pat, Term)>),
    BinOp(Box<Term>, Op, Box<Term>),
    Tuple(Seq<Term>),
    List(Seq<Term>),
    Range(Box<Term>, Box<Term>, Option<Box<Term>>),
    Lit(Lit),
}

/// Mathematical model of a declaration.
pub enum DeclModel {
    TypeAlias(Seq<char>, Ty),
    TypeSignature(Seq<char>, Ty),
    FunDecl(Seq<char>, Seq<Seq<char>>, Term),
    SExpr(Term),
    EndOfInstruction,
}

pub open spec fn names_model(ns: Seq<String>) -> Seq<Seq<char>> {
    ns.map_values(|n: String| n@)
}

impl Type {
    pub open spec fn model(&self) -> Ty
        decreases self,
    {
        match self {
            Type::TypeVariable(n) => Ty::Var(n@),
            Type::Function(a, b) => Ty::Fun(Box::new(a.model()), Box::new(b.model())),
            Type::Tuple(ts) => Ty::Tuple(types_model(ts@)),
            Type::List(a) => Ty::List(Box::new(a.model())),
            Type::Int => Ty::Int,
            Type::Bool => Ty::Bool,
            Type::Char => Ty::Char,
            Type::String => Ty::Str,
        }
    }
}

pub open spec fn types_model(ts: Seq<Type>) -> Seq<Ty>
    decreases ts,
{
    if ts.len() == 0 {
        Seq::empty()
    } else {
        types_model(ts.drop_last()).push(ts.last().model())
    }
}

impl View for Type {
    type V = Ty;

    open spec fn view(&self) -> Ty {
        self.model()
    }
}

impl View for Literal {
    type V = Lit;

    open spec fn view(&self) -> Lit {
        match self {
            Literal::Int(i) => Lit::Int(*i),
            Literal::Bool(b) => Lit::Bool(*b),
            Literal::String(s) => Lit::Str(s@),
            Literal::Char(c) => Lit::Char(*c),
        }
    }
}

impl Pattern {
    pub open spec fn model(&self) -> Pat
        decreases self,
    {
        match self {
            Pattern::Literal(l) => Pat::Lit(l@),
            Pattern::Var(n) => Pat::Var(n@),
            Pattern::Wildcard => Pat::Wildcard,
            Pattern::EmptyList => Pat::EmptyList,
            Pattern::Tuple(ps) => Pat::Tuple(patterns_model(ps@)),
            Pattern::FakeTuple(ps) => Pat::FakeTuple(patterns_model(ps@)),
            Pattern::List(h, t) => Pat::Cons(Box::new(h.model()), Box::new(t.model())),
        }
    }
}

pub open spec fn patterns_model(ps: Seq<Pattern>) -> Seq<Pat>
    decreases ps,
{
    if ps.len() == 0 {
        Seq::empty()
    } else {
        patterns_model(ps.drop_last()).push(ps.last().model())
    }
}

impl View for Pattern {
    type V = Pat;

    open spec fn view(&self) -> Pat {
        self.model()
    }
}

impl Expr {
    pub open spec fn model(&self) -> Term
        decreases self,
    {
        match self {
            Expr::Var(n) => Term::Var(n@),
            Expr::Application(f, a) => Term::App(Box::new(f.model()), Box::new(a.model())),
            Expr::If(c, t, e) => Term::If(
                Box::new(c.model()),
                Box::new(t.model()),
                Box::new(e.model()),
            ),
            Expr::Let(x, a, b) => Term::Let(x@, Box::new(a.model()), Box::new(b.model())),
            Expr::Lambda(x, b) => Term::Lambda(x@, Box::new(b.model())),
            Expr::Case(s, alts) => Term::Case(Box::new(s.model()), alts_model(alts@)),
            Expr::BinOp(l, op, r) => Term::BinOp(Box::new(l.model()), *op, Box::new(r.model())),
            Expr::Tuple(es) => Term::Tuple(exprs_model(es@)),
            Expr::List(l) => Term::List(list_model(l)),
            Expr::Range(a, s, b) => Term::Range(
                Box::new(a.model()),
                Box::new(s.model()),
                match b {
                    Option::Some(b) => Option::Some(Box::new(b.model())),
                    Option::None => Option::None,
                },
            ),
            Expr::Literal(l) => Term::Lit(l@),
        }
    }
}

pub open spec fn exprs_model(es: Seq<Expr>) -> Seq<Term>
    decreases es,
{
    if es.len() == 0 {
        Seq::empty()
    } else {
        exprs_model(es.drop_last()).push(es.last().model())
    }
}

pub open spec fn alts_model(alts: Seq<(Pattern, Expr)>) -> Seq<(Pat, Term)>
    decreases alts,
{
    if alts.len() == 0 {
        Seq::empty()
    } else {
        alts_model(alts.drop_last()).push((alts.last().0.model(), alts.last().1.model()))
    }
}

pub open spec fn list_model(l: &List<Expr>) -> Seq<Term>
    decreases l,
{
    match l {
        List::Cons(h, t) => seq![h.model()] + list_model(t),
        List::Empty => Seq::empty(),
    }
}

impl View for Expr {
    type V = Term;

    open spec fn view(&self) -> Term {
        self.model()
    }
}

impl View for Decl {
    type V = DeclModel;

    open spec fn view(&self) -> DeclModel {
        match self {
            Decl::TypeAlias(n, t) => DeclModel::TypeAlias(n@, t@),
            Decl::TypeSignature(n, t) => DeclModel::TypeSignature(n@, t@),
            Decl::FunDecl(n, ps, e) => DeclModel::FunDecl(n@, names_model(ps@), e@),
            Decl::SExpr(e) => DeclModel::SExpr(e@),
            Decl::EndOfInstruction => DeclModel::EndOfInstruction,
        }
    }
}


pub proof fn lemma_types_model(s: Seq<Type>)
    ensures
        types_model(s).len() == s.len(),
        forall|i: int| 0 <= i < s.len() ==> #[trigger] types_model(s)[i] == s[i].model(),
    decreases s.len(),
{
    if s.len() > 0 {
        lemma_types_model(s.drop_last());
    }
}

pub proof fn lemma_types_model_push(s: Seq<Type>, t: Type)
    ensures
        types_model(s.push(t)) == types_model(s).push(t.model()),
{
    assert(s.push(t).drop_last() =~= s);
}

impl Clone for Type {
    fn clone(&self) -> (r: Self)
        ensures
            r@ == self@,
        decreases self,
    {
        match self {
            Type::TypeVariable(n) => Type::TypeVariable(n.clone()),
            Type::Function(a, b) => Type::Function(Box::new((**a).clone()), Box::new((**b).clone())),
            Type::Tuple(ts) => {
                let mut out: Vec<Type> = Vec::new();
                let mut i: usize = 0;
                while i < ts.len()
                    invariant
                        i <= ts.len(),
                        *self == Type::Tuple(*ts),
                        types_model(out@) == types_model(ts@.subrange(0, i as int)),
                    decreases ts.len() - i,
                {
                    proof {
                        assert(decreases_to!(*self => self->Tuple_0));
                        assert(decreases_to!(*ts => ts[i as int]));
                    }
                    let c = ts[i].clone();
                    proof {
                        lemma_types_model_push(out@, c);
                        lemma_types_model_push(ts@.subrange(0, i as int), ts[i as int]);
                        assert(ts@.subrange(0, i as int).push(ts[i as int]) =~= ts@.subrange(0, i + 1));
                    }
                    out.push(c);
                    i = i + 1;
                }
                proof {
                    assert(ts@.subrange(0, ts.len() as int) =~= ts@);
                }
                Type::Tuple(out)
            },
            Type::List(a) => Type::List(Box::new((**a).clone())),
            Type::Int => Type::Int,
            Type::Bool => Type::Bool,
            Type::Char => Type::Char,
            Type::String => Type::String,
        }
    }
}


pub proof fn lemma_patterns_model(s: Seq<Pattern>)
    ensures
        patterns_model(s).len() == s.len(),
        forall|i: int| 0 <= i < s.len() ==> #[trigger] patterns_model(s)[i] == s[i].model(),
    decreases s.len(),
{
    if s.len() > 0 {
        lemma_patterns_model(s.drop_last());
    }
}

pub proof fn lemma_patterns_model_push(s: Seq<Pattern>, p: Pattern)
    ensures
        patterns_model(s.push(p)) == patterns_model(s).push(p.model()),
{
    assert(s.push(p).drop_last() =~= s);
}

pub proof fn lemma_exprs_model(s: Seq<Expr>)
    ensures
        exprs_model(s).len() == s.len(),
        forall|i: int| 0 <= i < s.len() ==> #[trigger] exprs_model(s)[i] == s[i].model(),
    decreases s.len(),
{
    if s.len() > 0 {
        lemma_exprs_model(s.drop_last());
    }
}

pub proof fn lemma_exprs_model_push(s: Seq<Expr>, e: Expr)
    ensures
        exprs_model(s.push(e)) == exprs_model(s).push(e.model()),
{
    assert(s.push(e).drop_last() =~= s);
}

pub proof fn lemma_alts_model(s: Seq<(Pattern, Expr)>)
    ensures
        alts_model(s).len() == s.len(),
        forall|i: int|
            0 <= i < s.len() ==> #[trigger] alts_model(s)[i] == (s[i].0.model(), s[i].1.model()),
    decreases s.len(),
{
    if s.len() > 0 {
        lemma_alts_model(s.drop_last());
    }
}

pub proof fn lemma_alts_model_push(s: Seq<(Pattern, Expr)>, a: (Pattern, Expr))
    ensures
        alts_model(s.push(a)) == alts_model(s).push((a.0.model(), a.1.model())),
{
    assert(s.push(a).drop_last() =~= s);
}

impl Clone for Literal {
    fn clone(&self) -> (r: Self)
        ensures
            r@ == self@,
    {
        match self {
            Literal::Int(i) => Literal::Int(*i),
            Literal::Bool(b) => Literal::Bool(*b),
            Literal::String(s) => Literal::String(s.clone()),
            Literal::Char(c) => Literal::Char(*c),
        }
    }
}

impl Clone for Pattern {
    fn clone(&self) -> (r: Self)
        ensures
            r@ == self@,
        decreases self,
    {
        match self {
            Pattern::Literal(l) => Pattern::Literal(l.clone()),
            Pattern::Var(n) => Pattern::Var(n.clone()),
            Pattern::Wildcard => Pattern::Wildcard,
            Pattern::EmptyList => Pattern::EmptyList,
            Pattern::Tuple(ps) => {
                proof {
                    assert(decreases_to!(*self => self->Tuple_0));
                }
                Pattern::Tuple(clone_patterns(ps))
            },
            Pattern::FakeTuple(ps) => {
                proof {
                    assert(decreases_to!(*self => self->FakeTuple_0));
                }
                Pattern::FakeTuple(clone_patterns(ps))
            },
            Pattern::List(h, t) => Pattern::List(Box::new((**h).clone()), Box::new((**t).clone())),
        }
    }
}

/// Copies a sequence of patterns.
pub fn clone_patterns(ps: &Vec<Pattern>) -> (r: Vec<Pattern>)
    ensures
        patterns_model(r@) == patterns_model(ps@),
    decreases ps,
{
    let mut out: Vec<Pattern> = Vec::new();
    let mut i: usize = 0;
    while i < ps.len()
        invariant
            i <= ps.len(),
            patterns_model(out@) == patterns_model(ps@.subrange(0, i as int)),
        decreases ps.len() - i,
    {
        proof {
            assert(decreases_to!(*ps => ps[i as int]));
        }
        let c = ps[i].clone();
        proof {
            lemma_patterns_model_push(out@, c);
            lemma_patterns_model_push(ps@.subrange(0, i as int), ps[i as int]);
            assert(ps@.subrange(0, i as int).push(ps[i as int]) =~= ps@.subrange(0, i + 1));
        }
        out.push(c);
        i = i + 1;
    }
    proof {
        assert(ps@.subrange(0, ps.len() as int) =~= ps@);
    }
    out
}


impl Clone for Expr {
    fn clone(&self) -> (r: Self)
        ensures
            r@ == self@,
        decreases self,
    {
        match self {
            Expr::Var(n) => Expr::Var(n.clone()),
            Expr::Application(f, a) => Expr::Application(
                Box::new((**f).clone()),
                Box::new((**a).clone()),
            ),
            Expr::If(c, t, e) => Expr::If(
                Box::new((**c).clone()),
                Box::new((**t).clone()),
                Box::new((**e).clone()),
            ),
            Expr::Let(x, a, b) => Expr::Let(
                x.clone(),
                Box::new((**a).clone()),
                Box::new((**b).clone()),
            ),
            Expr::Lambda(x, b) => Expr::Lambda(x.clone(), Box::new((**b).clone())),
            Expr::Case(sc, alts) => {
                proof {
                    assert(decreases_to!(*self => self->Case_1));
                }
                Expr::Case(Box::new((**sc).clone()), clone_alts(alts))
            },
            Expr::BinOp(l, op, r) => Expr::BinOp(
                Box::new((**l).clone()),
                *op,
                Box::new((**r).clone()),
            ),
            Expr::Tuple(es) => {
                proof {
                    assert(decreases_to!(*self => self->Tuple_0));
                }
                Expr::Tuple(clone_exprs(es))
            },
            Expr::List(l) => Expr::List(clone_list(l)),
            Expr::Range(a, st, b) => {
                let b2 = match b {
                    Option::Some(b) => Option::Some(Box::new((**b).clone())),
                    Option::None => Option::None,
                };
                Expr::Range(Box::new((**a).clone()), Box::new((**st).clone()), b2)
            },
            Expr::Literal(l) => Expr::Literal(l.clone()),
        }
    }
}

/// Copies a list literal.
pub fn clone_list(l: &List<Expr>) -> (r: List<Expr>)
    ensures
        list_model(&r) == list_model(l),
    decreases l,
{
    match l {
        List::Cons(h, t) => List::Cons(Box::new((**h).clone()), Box::new(clone_list(t))),
        List::Empty => List::Empty,
    }
}

/// Copies a sequence of expressions.
pub fn clone_exprs(es: &Vec<Expr>) -> (r: Vec<Expr>)
    ensures
        exprs_model(r@) == exprs_model(es@),
    decreases es,
{
    let mut out: Vec<Expr> = Vec::new();
    let mut i: usize = 0;
    while i < es.len()
        invariant
            i <= es.len(),
            exprs_model(out@) == exprs_model(es@.subrange(0, i as int)),
        decreases es.len() - i,
    {
        proof {
            assert(decreases_to!(*es => es[i as int]));
        }
        let c = es[i].clone();
        proof {
            lemma_exprs_model_push(out@, c);
            lemma_exprs_model_push(es@.subrange(0, i as int), es[i as int]);
            assert(es@.subrange(0, i as int).push(es[i as int]) =~= es@.subrange(0, i + 1));
        }
        out.push(c);
        i = i + 1;
    }
    proof {
        assert(es@.subrange(0, es.len() as int) =~= es@);
    }
    out
}

/// Copies the alternatives of a case expression.
pub fn clone_alts(alts: &Vec<(Pattern, Expr)>) -> (r: Vec<(Pattern, Expr)>)
    ensures
        alts_model(r@) == alts_model(alts@),
    decreases alts,
{
    let mut out: Vec<(Pattern, Expr)> = Vec::new();
    let mut i: usize = 0;
    while i < alts.len()
        invariant
            i <= alts.len(),
            alts_model(out@) == alts_model(alts@.subrange(0, i as int)),
        decreases alts.len() - i,
    {
        proof {
            assert(decreases_to!(*alts => alts[i as int]));
            assert(decreases_to!(alts[i as int] => alts[i as int].0));
            assert(decreases_to!(alts[i as int] => alts[i as int].1));
        }
        let p = alts[i].0.clone();
        let e = alts[i].1.clone();
        proof {
            lemma_alts_model_push(out@, (p, e));
            lemma_alts_model_push(alts@.subrange(0, i as int), alts[i as int]);
            assert(alts@.subrange(0, i as int).push(alts[i as int]) =~= alts@.subrange(0, i + 1));
        }
        out.push((p, e));
        i = i + 1;
    }
    proof {
        assert(alts@.subrange(0, alts.len() as int) =~= alts@);
    }
    out
}

/// Copies a sequence of names.
pub fn clone_names(ns: &Vec<String>) -> (r: Vec<String>)
    ensures
        r@ == ns@,
{
    let mut out: Vec<String> = Vec::new();
    let mut i: usize = 0;
    while i < ns.len()
        invariant
            i <= ns.len(),
            out@ == ns@.subrange(0, i as int),
        decreases ns.len() - i,
    {
        out.push(ns[i].clone());
        proof {
            assert(out@ =~= ns@.subrange(0, i + 1));
        }
        i = i + 1;
    }
    proof {
        assert(out@ =~= ns@);
    }
    out
}

impl Clone for Decl {
    fn clone(&self) -> (r: Self)
        ensures
            r@ == self@,
    {
        match self {
            Decl::TypeAlias(n, t) => Decl::TypeAlias(n.clone(), t.clone()),
            Decl::TypeSignature(n, t) => Decl::TypeSignature(n.clone(), t.clone()),
            Decl::FunDecl(n, ps, e) => Decl::FunDecl(n.clone(), clone_names(ps), e.clone()),
            Decl::SExpr(e) => Decl::SExpr(e.clone()),
            Decl::EndOfInstruction => Decl::EndOfInstruction,
        }
    }
}

} // verus!
