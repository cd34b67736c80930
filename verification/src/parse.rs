//! Syntactic analysis: the syntax tree and the parser.
pub mod ast;
pub mod grammar;
pub mod laws;
pub mod number;
pub mod parser;
