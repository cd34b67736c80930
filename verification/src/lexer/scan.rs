//! What the tokenizer computes, as functions on the source text.
//!
//! The source is a sequence of characters. A [`Cursor`] says how far the
//! tokenizer has read and on which line it stands. [`scan_token`] gives the
//! next token after a cursor, and [`token_stream`] all the tokens that follow.
use crate::error::lexer::{TokenizerError, TokenizerErrorView};
use crate::lexer::symbols::SymbolType;
use crate::lexer::tokenizer::{Token, TokenType, TokenView};
use crate::lexer::unicode::{alphabetic, numeric, whitespace};
use vstd::prelude::*;

verus! {

/// How a token may begin.
#[derive(Debug, PartialEq, Eq, Clone, Copy, Structural)]
pub enum TokenStart {
    /// An alphabetic character: an identifier follows.
    Letter,
    /// A numeric character: a number follows.
    Digit,
    /// `"`: a string literal follows.
    StringQuote,
    /// `'`: a character literal follows.
    CharacterQuote,
    /// White space, which belongs to no token.
    Blank,
    /// A punctuation mark, which is a token by itself.
    Symbol(SymbolType),
    /// A character with which no token begins.
    Invalid,
}

/// The kind of token that begins with `c`, given the Unicode classes of `c`.
/// The classes are tried in a fixed order: letters, digits, the two quotes,
/// white space, symbols.
pub open spec fn token_start_of(
    c: char,
    is_alphabetic: bool,
    is_numeric: bool,
    is_whitespace: bool,
) -> TokenStart {
    if is_alphabetic {
        TokenStart::Letter
    } else if is_numeric {
        TokenStart::Digit
    } else if c == '"' {
        TokenStart::StringQuote
    } else if c == '\'' {
        TokenStart::CharacterQuote
    } else if is_whitespace {
        TokenStart::Blank
    } else {
        match SymbolType::of(c) {
            Some(symbol) => TokenStart::Symbol(symbol),
            None => TokenStart::Invalid,
        }
    }
}

/// The kind of token that begins with `c`.
pub open spec fn token_start(c: char) -> TokenStart {
    token_start_of(c, alphabetic(c), numeric(c), whitespace(c))
}

impl TokenStart {
    /// Decides how a token begins from the character and its Unicode classes.
    pub fn classify(c: char, is_alphabetic: bool, is_numeric: bool, is_whitespace: bool) -> (r:
        TokenStart)
        ensures
            r == token_start_of(c, is_alphabetic, is_numeric, is_whitespace),
    {
        if is_alphabetic {
            TokenStart::Letter
        } else if is_numeric {
            TokenStart::Digit
        } else if c == '"' {
            TokenStart::StringQuote
        } else if c == '\'' {
            TokenStart::CharacterQuote
        } else if is_whitespace {
            TokenStart::Blank
        } else {
            match SymbolType::from_char(c) {
                Some(symbol) => TokenStart::Symbol(symbol),
                None => TokenStart::Invalid,
            }
        }
    }

    /// Decides how a token begins with `c`.
    pub fn of(c: char) -> (r: TokenStart)
        ensures
            r == token_start(c),
    {
        TokenStart::classify(c, c.is_alphabetic(), c.is_numeric(), c.is_whitespace())
    }
}

/// Whether `c` may continue an identifier.
pub open spec fn is_identifier_part(c: char) -> bool {
    alphabetic(c) || numeric(c) || c == '_'
}

/// The tokenizer's place in the source.
pub ghost struct Cursor {
    /// The number of characters read so far; also the index of the next one.
    pub position: int,
    /// The line counter, which starts at 1.
    pub line: int,
}

/// The number of newline characters of `source` at the indices from `from`
/// up to, but not including, `to`. Indices beyond the source count nothing.
pub open spec fn newlines(source: Seq<char>, from: int, to: int) -> int
    decreases to - from,
{
    if to <= from {
        0
    } else {
        newlines(source, from, to - 1) + if 0 <= to - 1 < source.len() && source[to - 1]
            == '\n' {
            1int
        } else {
            0int
        }
    }
}

impl Cursor {
    /// The cursor at the beginning of a text.
    pub open spec fn start() -> Cursor {
        Cursor { position: 0, line: 1 }
    }

    /// The cursor after reading one character, or after finding that none is
    /// left: a newline adds one to the line counter.
    pub open spec fn read_one(self, source: Seq<char>) -> Cursor {
        Cursor {
            position: self.position + 1,
            line: self.line + if 0 <= self.position < source.len() && source[self.position]
                == '\n' {
                1int
            } else {
                0int
            },
        }
    }

    /// The cursor after reading on to index `to`: every newline on the way
    /// adds one to the line counter.
    pub open spec fn read_to(self, source: Seq<char>, to: int) -> Cursor {
        Cursor { position: to, line: self.line + newlines(source, self.position, to) }
    }

    /// The number of characters that are left to read.
    pub open spec fn remaining(self, source: Seq<char>) -> nat {
        if self.position < source.len() {
            (source.len() - self.position) as nat
        } else {
            0
        }
    }
}

/// The index at which the identifier characters that begin at `from` end.
pub open spec fn identifier_end(source: Seq<char>, from: int) -> int
    decreases source.len() - from,
{
    if 0 <= from < source.len() && is_identifier_part(source[from]) {
        identifier_end(source, from + 1)
    } else {
        from
    }
}

/// How the scan of a number ends.
pub ghost enum NumberScan {
    /// The digits end before index `end`; `decimal` says whether a point was
    /// among them.
    Complete { end: int, decimal: bool },
    /// A second decimal point stands at index `at`.
    SecondPoint { at: int },
}

/// Scans digits and at most one decimal point from `from` on. `decimal` says
/// whether a point has been seen already.
pub open spec fn number_scan(source: Seq<char>, from: int, decimal: bool) -> NumberScan
    decreases source.len() - from,
{
    if 0 <= from < source.len() {
        let c = source[from];
        if numeric(c) {
            number_scan(source, from + 1, decimal)
        } else if c == '.' {
            if decimal {
                NumberScan::SecondPoint { at: from }
            } else {
                number_scan(source, from + 1, true)
            }
        } else {
            NumberScan::Complete { end: from, decimal }
        }
    } else {
        NumberScan::Complete { end: from, decimal }
    }
}

/// How the scan of a string literal ends.
pub ghost enum StringScan {
    /// The closing quote stands at index `at`; `text` is the literal's value.
    Closed { at: int, text: Seq<char> },
    /// The source ends before the literal does.
    Unclosed,
}

/// Scans the body of a string literal from `from` on, after `text` has been
/// gathered. A backslash that is not itself escaped is dropped and escapes
/// the character after it, whatever it is; an unescaped `"` ends the literal.
pub open spec fn string_scan(
    source: Seq<char>,
    from: int,
    escaped: bool,
    text: Seq<char>,
) -> StringScan
    decreases source.len() - from,
{
    if 0 <= from < source.len() {
        let c = source[from];
        if escaped {
            string_scan(source, from + 1, false, text.push(c))
        } else if c == '"' {
            StringScan::Closed { at: from, text }
        } else if c == '\\' {
            string_scan(source, from + 1, true, text)
        } else {
            string_scan(source, from + 1, false, text.push(c))
        }
    } else {
        StringScan::Unclosed
    }
}

/// The first index from `from` on at which `'` stands, or the length of the
/// source if there is none.
pub open spec fn apostrophe_at(source: Seq<char>, from: int) -> int
    decreases source.len() - from,
{
    if 0 <= from < source.len() && source[from] != '\'' {
        apostrophe_at(source, from + 1)
    } else {
        from
    }
}

/// The message of the error for a character with which no token begins.
pub open spec fn invalid_start_message(c: char) -> Seq<char> {
    "Invalid char at beginning of token: "@.push(c)
}

/// The message of the error for a second decimal point in a number.
pub open spec fn second_point_message() -> Seq<char> {
    "Cannot have more than one decimal in number."@
}

/// The message of the error for a string literal without its closing quote.
pub open spec fn unclosed_string_message() -> Seq<char> {
    "Unclosed string literal."@
}

/// The message of the error for a character literal without its closing quote.
pub open spec fn unclosed_character_message() -> Seq<char> {
    "Unclosed char literal"@
}

/// The message of the error for `''`.
pub open spec fn empty_character_message() -> Seq<char> {
    "Empty char literal"@
}

/// What one call of the tokenizer yields.
pub ghost enum Scanned {
    /// The source is exhausted.
    End,
    /// The next token.
    Token(TokenView),
    /// The text at the cursor is no token.
    Failure(TokenizerErrorView),
}

/// The outcome that a result of the tokenizer stands for.
pub open spec fn outcome_of(r: Result<Option<Token>, TokenizerError>) -> Scanned {
    match r {
        Ok(None) => Scanned::End,
        Ok(Some(token)) => Scanned::Token(token@),
        Err(error) => Scanned::Failure(error@),
    }
}

/// The outcome of one call of the tokenizer and the cursor it leaves behind.
pub ghost struct Step {
    pub outcome: Scanned,
    pub cursor: Cursor,
}

/// A token of kind `token_type` whose first character was read just before
/// `after` and whose last read ends at `stop`.
///
/// Positions count from 1, so the token begins at `after.position`. It ends
/// one before the place where reading stopped, and it carries the line
/// counter of that moment.
pub open spec fn token_read(
    source: Seq<char>,
    after: Cursor,
    stop: int,
    value: Seq<char>,
    token_type: TokenType,
) -> TokenView {
    TokenView {
        start_pos: after.position,
        end_pos: stop - 1,
        line: after.read_to(source, stop).line,
        value: Some(value),
        token_type: Some(token_type),
    }
}

/// The failure after reading on from `after` to `stop`.
pub open spec fn failure_read(
    source: Seq<char>,
    after: Cursor,
    stop: int,
    message: Seq<char>,
) -> Step {
    let cursor = after.read_to(source, stop);
    Step {
        outcome: Scanned::Failure(
            TokenizerErrorView { position: cursor.position, line: cursor.line, message },
        ),
        cursor,
    }
}

/// The identifier whose first character was read just before `after`.
///
/// The tokenizer reads one character beyond the identifier, or finds the end
/// of the source there, and then steps back by one: the line counter keeps
/// what that last read added to it.
pub open spec fn identifier_step(source: Seq<char>, after: Cursor) -> Step {
    let end = identifier_end(source, after.position);
    let read = after.read_to(source, end + 1);
    Step {
        outcome: Scanned::Token(
            token_read(
                source,
                after,
                end + 1,
                source.subrange(after.position - 1, end),
                TokenType::Identifier,
            ),
        ),
        cursor: Cursor { position: end, line: read.line },
    }
}

/// The number whose first digit was read just before `after`. Its value is
/// the text as it stands in the source; a second decimal point is an error.
pub open spec fn number_step(source: Seq<char>, after: Cursor) -> Step {
    match number_scan(source, after.position, false) {
        NumberScan::Complete { end, decimal } => {
            let read = after.read_to(source, end + 1);
            Step {
                outcome: Scanned::Token(
                    token_read(
                        source,
                        after,
                        end + 1,
                        source.subrange(after.position - 1, end),
                        TokenType::Number(decimal),
                    ),
                ),
                cursor: Cursor { position: end, line: read.line },
            }
        },
        NumberScan::SecondPoint { at } => failure_read(
            source,
            after,
            at + 1,
            second_point_message(),
        ),
    }
}

/// The string literal whose opening quote was read just before `after`.
pub open spec fn string_step(source: Seq<char>, after: Cursor) -> Step {
    match string_scan(source, after.position, false, Seq::empty()) {
        StringScan::Closed { at, text } => Step {
            outcome: Scanned::Token(token_read(source, after, at + 1, text, TokenType::String)),
            cursor: after.read_to(source, at + 1),
        },
        StringScan::Unclosed => failure_read(
            source,
            after,
            source.len() as int + 1,
            unclosed_string_message(),
        ),
    }
}

/// The character literal whose opening quote was read just before `after`.
///
/// Everything up to the next `'` is the token's value, taken as it stands;
/// the token's kind carries the first of these characters. There must be at
/// least one.
pub open spec fn character_step(source: Seq<char>, after: Cursor) -> Step {
    let close = apostrophe_at(source, after.position);
    if close >= source.len() {
        failure_read(source, after, source.len() as int + 1, unclosed_character_message())
    } else if close == after.position {
        failure_read(source, after, close + 1, empty_character_message())
    } else {
        Step {
            outcome: Scanned::Token(
                token_read(
                    source,
                    after,
                    close + 1,
                    source.subrange(after.position, close),
                    TokenType::Character(source[after.position]),
                ),
            ),
            cursor: after.read_to(source, close + 1),
        }
    }
}

/// The token that consists of the punctuation mark read just before `after`.
pub open spec fn symbol_step(source: Seq<char>, after: Cursor, symbol: SymbolType) -> Step {
    Step {
        outcome: Scanned::Token(
            TokenView {
                start_pos: after.position,
                end_pos: after.position,
                line: after.line,
                value: Some(seq![source[after.position - 1]]),
                token_type: Some(TokenType::Symbol(symbol)),
            },
        ),
        cursor: after,
    }
}

/// What the tokenizer yields when it is called at `cursor`, and where it
/// stands afterwards. At the end of the source it yields nothing and stays
/// where it is.
pub open spec fn scan_token(source: Seq<char>, cursor: Cursor) -> Step
    decreases source.len() - cursor.position,
{
    if 0 <= cursor.position < source.len() {
        let c = source[cursor.position];
        let after = cursor.read_one(source);
        match token_start(c) {
            TokenStart::Letter => identifier_step(source, after),
            TokenStart::Digit => number_step(source, after),
            TokenStart::StringQuote => string_step(source, after),
            TokenStart::CharacterQuote => character_step(source, after),
            TokenStart::Blank => scan_token(source, after),
            TokenStart::Symbol(symbol) => symbol_step(source, after, symbol),
            TokenStart::Invalid => failure_read(
                source,
                after,
                after.position,
                invalid_start_message(c),
            ),
        }
    } else {
        Step { outcome: Scanned::End, cursor }
    }
}

/// All the tokens that follow a cursor, up to the end of the source or to the
/// first piece of text that is no token.
pub ghost struct TokenStream {
    /// The tokens, in the order of the source.
    pub tokens: Seq<TokenView>,
    /// The error that follows the last token, if the text goes wrong there.
    pub failure: Option<TokenizerErrorView>,
}

/// The tokens that the tokenizer yields, call by call, from `cursor` on.
pub open spec fn token_stream(source: Seq<char>, cursor: Cursor) -> TokenStream
    decreases cursor.remaining(source),
{
    let step = scan_token(source, cursor);
    match step.outcome {
        Scanned::End => TokenStream { tokens: Seq::empty(), failure: None },
        Scanned::Failure(error) => TokenStream { tokens: Seq::empty(), failure: Some(error) },
        Scanned::Token(token) => {
            proof {
                lemma_scan_advances(source, cursor);
            }
            let rest = token_stream(source, step.cursor);
            TokenStream { tokens: seq![token] + rest.tokens, failure: rest.failure }
        },
    }
}

/// The identifier characters that begin at `from` end at or after `from`, and
/// within the source.
pub proof fn lemma_identifier_end_bounds(source: Seq<char>, from: int)
    requires
        0 <= from <= source.len(),
    ensures
        from <= identifier_end(source, from) <= source.len(),
    decreases source.len() - from,
{
    if from < source.len() && is_identifier_part(source[from]) {
        lemma_identifier_end_bounds(source, from + 1);
    }
}

/// A scan of a number stops at or after the place where it began, and within
/// the source.
pub proof fn lemma_number_scan_bounds(source: Seq<char>, from: int, decimal: bool)
    requires
        0 <= from <= source.len(),
    ensures
        match number_scan(source, from, decimal) {
            NumberScan::Complete { end, .. } => from <= end <= source.len(),
            NumberScan::SecondPoint { at } => from <= at < source.len(),
        },
    decreases source.len() - from,
{
    if from < source.len() {
        let c = source[from];
        if numeric(c) {
            lemma_number_scan_bounds(source, from + 1, decimal);
        } else if c == '.' && !decimal {
            lemma_number_scan_bounds(source, from + 1, true);
        }
    }
}

/// The closing quote of a string literal stands at or after the place where
/// the scan began, and within the source.
pub proof fn lemma_string_scan_bounds(
    source: Seq<char>,
    from: int,
    escaped: bool,
    text: Seq<char>,
)
    requires
        0 <= from <= source.len(),
    ensures
        string_scan(source, from, escaped, text) matches StringScan::Closed { at, .. } ==> from
            <= at < source.len(),
    decreases source.len() - from,
{
    if from < source.len() {
        let c = source[from];
        if escaped {
            lemma_string_scan_bounds(source, from + 1, false, text.push(c));
        } else if c == '"' {
        } else if c == '\\' {
            lemma_string_scan_bounds(source, from + 1, true, text);
        } else {
            lemma_string_scan_bounds(source, from + 1, false, text.push(c));
        }
    }
}

/// The search for `'` stops at or after the place where it began, and within
/// the source.
pub proof fn lemma_apostrophe_bounds(source: Seq<char>, from: int)
    requires
        0 <= from <= source.len(),
    ensures
        from <= apostrophe_at(source, from) <= source.len(),
    decreases source.len() - from,
{
    if from < source.len() && source[from] != '\'' {
        lemma_apostrophe_bounds(source, from + 1);
    }
}

/// The tokenizer never moves backwards, never runs more than one step beyond
/// the source, and a token takes it at least one character further, to a
/// place within the source.
pub proof fn lemma_scan_advances(source: Seq<char>, cursor: Cursor)
    ensures
        cursor.position <= scan_token(source, cursor).cursor.position,
        scan_token(source, cursor).cursor.position <= source.len() + 1 || scan_token(
            source,
            cursor,
        ).cursor == cursor,
        scan_token(source, cursor).outcome is Token ==> cursor.position < scan_token(
            source,
            cursor,
        ).cursor.position <= source.len(),
        scan_token(source, cursor).outcome is End ==> scan_token(
            source,
            scan_token(source, cursor).cursor,
        ) == scan_token(source, cursor),
    decreases source.len() - cursor.position,
{
    if 0 <= cursor.position < source.len() {
        let after = cursor.read_one(source);
        match token_start(source[cursor.position]) {
            TokenStart::Letter => {
                lemma_identifier_end_bounds(source, after.position);
            },
            TokenStart::Digit => {
                lemma_number_scan_bounds(source, after.position, false);
            },
            TokenStart::StringQuote => {
                lemma_string_scan_bounds(source, after.position, false, Seq::empty());
            },
            TokenStart::CharacterQuote => {
                lemma_apostrophe_bounds(source, after.position);
            },
            TokenStart::Blank => {
                lemma_scan_advances(source, after);
            },
            TokenStart::Symbol(_) => {},
            TokenStart::Invalid => {},
        }
    }
}

/// A token of the tokenizer has a text and a kind, begins at or after the
/// first character and does not end before it begins.
pub proof fn lemma_scanned_token_is_complete(source: Seq<char>, cursor: Cursor)
    ensures
        scan_token(source, cursor).outcome matches Scanned::Token(token) ==> {
            &&& token.value is Some
            &&& token.token_type is Some
            &&& cursor.position < token.start_pos <= source.len()
        },
    decreases source.len() - cursor.position,
{
    if 0 <= cursor.position < source.len() {
        if token_start(source[cursor.position]) == TokenStart::Blank {
            lemma_scanned_token_is_complete(source, cursor.read_one(source));
        }
    }
}

/// Every token of a stream has a text and a kind.
pub proof fn lemma_stream_is_complete(source: Seq<char>, cursor: Cursor)
    ensures
        forall|i: int|
            0 <= i < token_stream(source, cursor).tokens.len() ==> {
                &&& (#[trigger] token_stream(source, cursor).tokens[i]).value is Some
                &&& token_stream(source, cursor).tokens[i].token_type is Some
                &&& token_stream(source, cursor).tokens[i].start_pos >= 1
            },
    decreases cursor.remaining(source),
{
    let step = scan_token(source, cursor);
    if step.outcome is Token {
        lemma_scan_advances(source, cursor);
        lemma_scanned_token_is_complete(source, cursor);
        lemma_stream_is_complete(source, step.cursor);
    }
}

/// No stretch of text holds more newlines than characters.
pub proof fn lemma_newlines_bounds(source: Seq<char>, from: int, to: int)
    ensures
        0 <= newlines(source, from, to),
        from <= to ==> newlines(source, from, to) <= to - from,
    decreases to - from,
{
    if to > from {
        lemma_newlines_bounds(source, from, to - 1);
    }
}

} // verus!
