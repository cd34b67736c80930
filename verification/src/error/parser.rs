//! Syntactic errors.
use crate::parse::parser::StatParser;
use vstd::prelude::*;

verus! {

/// A violation of the grammar, with the place of the token at which the
/// parser stood.
#[derive(Debug)]
pub struct ParserError {
    /// What was wrong.
    pub message: String,
    /// Where the current token began, or 0 where there was none.
    pub position: i128,
}

/// The mathematical value of a [`ParserError`].
pub ghost struct ParserErrorView {
    pub message: Seq<char>,
    pub position: int,
}

impl View for ParserError {
    type V = ParserErrorView;

    open spec fn view(&self) -> ParserErrorView {
        ParserErrorView { message: self.message@, position: self.position as int }
    }
}

impl ParserError {
    /// An error at the token at which `parser` stands.
    pub fn new(parser: &StatParser, message: String) -> (r: Self)
        ensures
            r@ == (ParserErrorView { message: message@, position: parser@.position() }),
    {
        ParserError { message, position: parser.position() }
    }
}

} // verus!
