//! A statically typed, lazily evaluated interpreter for a small Haskell-like
//! language: parsing and lowering, Hindley-Milner type inference, and a lazy
//! evaluator.
pub mod ast;
pub mod text;
pub mod lexer;
pub mod lower;
pub mod parse;
pub mod grammar;
pub mod types;
pub mod subst;
pub mod unify;
pub mod tyenv;
pub mod typing;
pub mod typecheck;
pub mod value;
pub mod semantics;
pub mod eval;
pub mod interpreter;
pub mod display;
pub mod laws;
