//! Lexical errors.
use crate::lexer::tokenizer::Tokenizer;
use vstd::prelude::*;

verus! {

/// A malformed character sequence, with the place where the tokenizer gave up.
#[derive(Debug)]
pub struct TokenizerError {
    /// How many characters the tokenizer had read when it failed.
    pub position: i128,
    /// The line counter at that moment.
    pub line: i128,
    /// What was wrong.
    pub message: String,
}

/// The mathematical value of a [`TokenizerError`].
pub ghost struct TokenizerErrorView {
    pub position: int,
    pub line: int,
    pub message: Seq<char>,
}

impl View for TokenizerError {
    type V = TokenizerErrorView;

    open spec fn view(&self) -> TokenizerErrorView {
        TokenizerErrorView {
            position: self.position as int,
            line: self.line as int,
            message: self.message@,
        }
    }
}

impl TokenizerError {
    /// An error at the place where `tokenizer` stands.
    pub fn new(tokenizer: &Tokenizer, message: String) -> (r: Self)
        ensures
            r@ == (TokenizerErrorView {
                position: tokenizer.cursor().position,
                line: tokenizer.cursor().line,
                message: message@,
            }),
    {
        TokenizerError {
            position: tokenizer.cursor_position(),
            line: tokenizer.cursor_line(),
            message,
        }
    }
}

} // verus!
