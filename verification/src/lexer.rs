//! Lexical analysis: symbols, tokens and the tokenizer.
pub mod laws;
pub mod scan;
pub mod symbols;
pub mod tokenizer;
pub mod unicode;
