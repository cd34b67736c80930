//! Front end of a small scripting language: a character-level tokenizer and a
//! recursive-descent parser that turns source text into a syntax tree.
//!
//! Every executable function carries a contract over a mathematical model of
//! its data: the source is a `Seq<char>`, the tokenizer's progress a
//! [`lexer::scan::Cursor`], the remaining tokens a
//! [`lexer::scan::TokenStream`] and the tree an [`parse::ast::Ast`].
pub mod error;
pub mod lexer;
pub mod parse;
pub mod runtime;
