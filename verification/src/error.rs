//! The error values of the tokenizer, the parser and the runtime.
pub mod lexer;
pub mod parser;
pub mod runtime;
