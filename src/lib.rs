//! An interpreter for Monkey, a small dynamically typed expression language.
//!
//! Source text is split into tokens (`lexer`), parsed by a Pratt parser into a
//! syntax tree (`parser`, with the grammar stated in `syntax`), and evaluated
//! against a chain of scopes (`evaluator`, with the meaning stated in
//! `semantics`). Each stage is proved to compute what its model says; `laws`
//! and `round_trip` state and prove properties of those models.
use vstd::prelude::*;

pub mod ast;
pub mod environment;
pub mod equality;
pub mod evaluator;
pub mod expression;
pub mod laws;
pub mod lexer;
pub mod object;
pub mod parser;
pub mod precedence;
pub mod program;
pub mod round_trip;
pub mod semantics;
pub mod statement;
pub mod syntax;
pub mod text;
pub mod token;

pub use environment::Environment;
pub use lexer::Lexer;
pub use object::Object;
pub use parser::Parser;
pub use program::Program;

verus! {

} // verus!
