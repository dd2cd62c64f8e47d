//! Merlin: a small dynamically typed language — lexer, parser, bytecode
//! compiler, object model and register-based interpreter, with their
//! behaviour stated as Verus contracts.

pub mod text;
pub mod lexer;
pub mod errors;
pub mod parser;
pub mod objects;
pub mod compiler;
pub mod ops;
pub mod interpreter;
pub mod types;
pub mod rc;
pub mod trc;
pub mod program;
