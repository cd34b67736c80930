//! Tokens and the tokenizer.
use crate::error::lexer::TokenizerError;
use crate::lexer::scan::{
    apostrophe_at, character_step, identifier_end, identifier_step, lemma_newlines_bounds,
    lemma_scanned_token_is_complete, number_scan, number_step, outcome_of, scan_token,
    string_scan, string_step, symbol_step, Cursor, NumberScan, StringScan, TokenStart,
};
use crate::lexer::symbols::SymbolType;
use vstd::prelude::*;

verus! {

/// The kinds of token.
#[derive(Debug, PartialEq, Eq, Clone, Copy, Structural)]
pub enum TokenType {
    /// A name or a keyword.
    Identifier,
    /// A number; the flag says whether it has a decimal point.
    Number(bool),
    /// A punctuation mark.
    Symbol(SymbolType),
    /// A string literal.
    String,
    /// A character literal, with its first character.
    Character(char),
}

impl TokenType {
    /// The kind as it is written in messages: its name, and in brackets what
    /// it carries.
    pub open spec fn description(self) -> Seq<char> {
        match self {
            TokenType::Identifier => "Identifier"@,
            TokenType::Number(decimal) => "Number("@ + if decimal {
                "true"@
            } else {
                "false"@
            } + ")"@,
            TokenType::Symbol(symbol) => "Symbol("@ + symbol.name_text() + ")"@,
            TokenType::String => "String"@,
            TokenType::Character(c) => "Character('"@.push(c) + "')"@,
        }
    }

    /// The kind as it is written in messages.
    pub fn describe(&self) -> (r: String)
        ensures
            r@ == self.description(),
    {
        match self {
            TokenType::Identifier => String::from_str("Identifier"),
            TokenType::Number(decimal) => {
                let mut text = String::from_str("Number(");
                text.append(
                    if *decimal {
                        "true"
                    } else {
                        "false"
                    },
                );
                text.append(")");
                text
            },
            TokenType::Symbol(symbol) => {
                let mut text = String::from_str("Symbol(");
                text.append(symbol.name());
                text.append(")");
                text
            },
            TokenType::String => String::from_str("String"),
            TokenType::Character(c) => {
                let mut text = String::from_str("Character('");
                text.push(*c);
                text.append("')");
                text
            },
        }
    }
}

/// A piece of the source text with its place and kind. Positions count
/// characters from 1, and `start_pos` and `end_pos` are both part of the
/// token.
#[derive(Debug, Default, PartialEq)]
pub struct Token {
    pub start_pos: i128,
    pub end_pos: i128,
    pub line: i128,
    pub value: Option<String>,
    pub token_type: Option<TokenType>,
}

/// The mathematical value of a [`Token`].
pub ghost struct TokenView {
    pub start_pos: int,
    pub end_pos: int,
    pub line: int,
    pub value: Option<Seq<char>>,
    pub token_type: Option<TokenType>,
}

impl View for Token {
    type V = TokenView;

    open spec fn view(&self) -> TokenView {
        TokenView {
            start_pos: self.start_pos as int,
            end_pos: self.end_pos as int,
            line: self.line as int,
            value: match self.value {
                Some(text) => Some(text@),
                None => None,
            },
            token_type: self.token_type,
        }
    }
}

impl Clone for Token {
    fn clone(&self) -> (r: Self)
        ensures
            r@ == self@,
    {
        Token {
            start_pos: self.start_pos,
            end_pos: self.end_pos,
            line: self.line,
            value: match &self.value {
                Some(text) => Some(text.clone()),
                None => None,
            },
            token_type: self.token_type,
        }
    }
}

impl Token {
    /// Whether the token is of the given kind.
    pub fn is_kind(&self, kind: TokenType) -> (r: bool)
        ensures
            r == (self@.token_type == Some(kind)),
    {
        match self.token_type {
            Some(found) => found == kind,
            None => false,
        }
    }

    /// Whether the token is the given punctuation mark.
    pub fn is_symbol(&self, symbol: SymbolType) -> (r: bool)
        ensures
            r == (self@.token_type == Some(TokenType::Symbol(symbol))),
    {
        self.is_kind(TokenType::Symbol(symbol))
    }

    /// The text of the token; the empty text where it has none.
    pub fn into_text(self) -> (r: String)
        ensures
            r@ == match self@.value {
                Some(text) => text,
                None => Seq::empty(),
            },
    {
        match self.value {
            Some(text) => text,
            None => String::new(),
        }
    }

    /// The kind of the token as it is written in messages.
    pub fn describe_kind(&self) -> (r: String)
        ensures
            r@ == match self@.token_type {
                Some(kind) => kind.description(),
                None => "None"@,
            },
    {
        match &self.token_type {
            Some(kind) => kind.describe(),
            None => String::from_str("None"),
        }
    }
}

/// Reads a source text token by token.
#[derive(Debug)]
pub struct Tokenizer {
    content: Vec<char>,
    cursor_position: i128,
    cursor_line: i128,
}

impl Tokenizer {
    /// The cursor never runs more than one step beyond the source, and the
    /// line counter never grows faster than twice the position: each
    /// character is read at most twice.
    #[verifier::type_invariant]
    spec fn well_formed(&self) -> bool {
        &&& 0 <= self.cursor_position <= self.content@.len() + 1
        &&& 1 <= self.cursor_line <= 1 + 2 * self.cursor_position
    }

    /// The text that is being read.
    pub closed spec fn source(&self) -> Seq<char> {
        self.content@
    }

    /// Where the tokenizer stands.
    pub closed spec fn cursor(&self) -> Cursor {
        Cursor { position: self.cursor_position as int, line: self.cursor_line as int }
    }

    /// A tokenizer at the beginning of `content`.
    pub fn new(content: String) -> (r: Self)
        ensures
            r.source() == content@,
            r.cursor() == Cursor::start(),
    {
        let mut chars: Vec<char> = Vec::new();
        for c in it: content.as_str().chars()
            invariant
                chars@ == it.seq().take(it.index() as int),
        {
            chars.push(c);
        }
        Tokenizer { content: chars, cursor_position: 0, cursor_line: 1 }
    }

    /// The number of characters read so far. It is never more than one
    /// beyond the length of the source.
    pub fn cursor_position(&self) -> (r: i128)
        ensures
            r == self.cursor().position,
            0 <= r <= self.source().len() + 1,
    {
        proof {
            use_type_invariant(self);
        }
        self.cursor_position
    }

    /// The line counter, which starts at 1.
    pub fn cursor_line(&self) -> (r: i128)
        ensures
            r == self.cursor().line,
            1 <= r,
    {
        proof {
            use_type_invariant(self);
        }
        self.cursor_line
    }

    /// Reads one character, if there is one left, and counts it; a newline
    /// also counts as a line.
    fn next_char(&mut self) -> (r: Option<char>)
        requires
            old(self).cursor().position <= old(self).source().len(),
        ensures
            final(self).source() == old(self).source(),
            final(self).cursor() == old(self).cursor().read_one(old(self).source()),
            r == if old(self).cursor().position < old(self).source().len() {
                Some(old(self).source()[old(self).cursor().position])
            } else {
                None::<char>
            },
    {
        proof {
            use_type_invariant(&*self);
        }
        let length = self.content.len();
        if self.cursor_position < length as i128 {
            let c = self.content[self.cursor_position as usize];
            self.cursor_position = self.cursor_position + 1;
            if c == '\n' {
                self.cursor_line = self.cursor_line + 1;
            }
            Some(c)
        } else {
            self.cursor_position = self.cursor_position + 1;
            None
        }
    }

    /// Yields the next token, `None` at the end of the source, or the error
    /// for the text at the cursor. White space before the token is skipped.
    pub fn next_token(&mut self) -> (r: Result<Option<Token>, TokenizerError>)
        ensures
            final(self).source() == old(self).source(),
            final(self).cursor() == scan_token(old(self).source(), old(self).cursor()).cursor,
            outcome_of(r) == scan_token(old(self).source(), old(self).cursor()).outcome,
            r matches Ok(Some(token)) ==> token.value is Some && token.token_type is Some,
    {
        proof {
            lemma_scanned_token_is_complete(self.source(), self.cursor());
        }
        loop
            invariant
                self.source() == old(self).source(),
                scan_token(self.source(), self.cursor()) == scan_token(
                    old(self).source(),
                    old(self).cursor(),
                ),
            decreases self.source().len() - self.cursor().position,
        {
            proof {
                use_type_invariant(&*self);
            }
            if self.cursor_position >= self.content.len() as i128 {
                return Ok(None);
            }
            let token = Token {
                start_pos: self.cursor_position + 1,
                end_pos: 0,
                line: 0,
                value: None,
                token_type: None,
            };
            let c = self.content[self.cursor_position as usize];
            self.next_char();
            proof {
                lemma_newlines_bounds(
                    self.source(),
                    self.cursor().position - 1,
                    self.cursor().position,
                );
            }
            match TokenStart::of(c) {
                TokenStart::Letter => {
                    return self.parse_identifier(token, c);
                },
                TokenStart::Digit => {
                    return self.parse_number(token, c);
                },
                TokenStart::StringQuote => {
                    return self.parse_string(token);
                },
                TokenStart::CharacterQuote => {
                    return self.parse_char(token);
                },
                TokenStart::Blank => {},
                TokenStart::Symbol(symbol) => {
                    return self.parse_symbol(token, c, symbol);
                },
                TokenStart::Invalid => {
                    let mut message = String::from_str("Invalid char at beginning of token: ");
                    message.push(c);
                    return Err(TokenizerError::new(self, message));
                },
            }
        }
    }

    /// Reads a character literal after its opening quote.
    fn parse_char(&mut self, token: Token) -> (r: Result<Option<Token>, TokenizerError>)
        requires
            1 <= old(self).cursor().position <= old(self).source().len(),
            token.start_pos == old(self).cursor().position,
        ensures
            final(self).source() == old(self).source(),
            final(self).cursor() == character_step(old(self).source(), old(self).cursor()).cursor,
            outcome_of(r) == character_step(old(self).source(), old(self).cursor()).outcome,
    {
        let mut token = token;
        let mut buffer = String::new();
        let mut first: Option<char> = None;
        let ghost source = self.source();
        let ghost after = self.cursor();
        loop
            invariant
                self.source() == source,
                after.position <= self.cursor().position <= source.len(),
                self.cursor() == after.read_to(source, self.cursor().position),
                apostrophe_at(source, self.cursor().position) == apostrophe_at(
                    source,
                    after.position,
                ),
                buffer@ == source.subrange(after.position, self.cursor().position),
                first == if self.cursor().position > after.position {
                    Some(source[after.position])
                } else {
                    None::<char>
                },
                1 <= after.position <= source.len(),
                token.start_pos == after.position,
                after == old(self).cursor(),
                source == old(self).source(),
            decreases source.len() - self.cursor().position,
        {
            match self.next_char() {
                None => {
                    return Err(
                        TokenizerError::new(self, String::from_str("Unclosed char literal")),
                    );
                },
                Some(c) => {
                    if c == '\'' {
                        match first {
                            None => {
                                return Err(
                                    TokenizerError::new(
                                        self,
                                        String::from_str("Empty char literal"),
                                    ),
                                );
                            },
                            Some(character) => {
                                token.token_type = Some(TokenType::Character(character));
                                self.finish_token(&mut token, buffer);
                                return Ok(Some(token));
                            },
                        }
                    }
                    if first.is_none() {
                        first = Some(c);
                    }
                    buffer.push(c);
                },
            }
        }
    }

    /// Reads the rest of an identifier after its first character.
    fn parse_identifier(&mut self, token: Token, start: char) -> (r: Result<
        Option<Token>,
        TokenizerError,
    >)
        requires
            1 <= old(self).cursor().position <= old(self).source().len(),
            old(self).source()[old(self).cursor().position - 1] == start,
            old(self).cursor().line <= 2 * old(self).cursor().position,
            token.start_pos == old(self).cursor().position,
        ensures
            final(self).source() == old(self).source(),
            final(self).cursor() == identifier_step(old(self).source(), old(self).cursor()).cursor,
            outcome_of(r) == identifier_step(old(self).source(), old(self).cursor()).outcome,
    {
        let mut token = token;
        token.token_type = Some(TokenType::Identifier);
        let mut buffer = String::new();
        buffer.push(start);
        let ghost source = self.source();
        let ghost after = self.cursor();
        let ghost end = identifier_end(source, after.position);
        loop
            invariant_except_break
                after.position <= self.cursor().position <= source.len(),
                self.cursor() == after.read_to(source, self.cursor().position),
                identifier_end(source, self.cursor().position) == end,
                buffer@ == source.subrange(after.position - 1, self.cursor().position),
            invariant
                self.source() == source,
                1 <= after.position <= source.len(),
                end == identifier_end(source, after.position),
            ensures
                after.position <= end <= source.len(),
                self.cursor() == after.read_to(source, end + 1),
                buffer@ == source.subrange(after.position - 1, end),
            decreases source.len() - self.cursor().position,
        {
            match self.next_char() {
                None => {
                    break ;
                },
                Some(c) => {
                    if !c.is_alphanumeric() && c != '_' {
                        break ;
                    }
                    buffer.push(c);
                },
            }
        }
        self.finish_token(&mut token, buffer);
        proof {
            use_type_invariant(&*self);
            lemma_newlines_bounds(source, after.position, end + 1);
        }
        self.cursor_position = self.cursor_position - 1;
        Ok(Some(token))
    }

    /// Reads the rest of a number after its first digit.
    fn parse_number(&mut self, token: Token, start: char) -> (r: Result<
        Option<Token>,
        TokenizerError,
    >)
        requires
            1 <= old(self).cursor().position <= old(self).source().len(),
            old(self).source()[old(self).cursor().position - 1] == start,
            old(self).cursor().line <= 2 * old(self).cursor().position,
            token.start_pos == old(self).cursor().position,
        ensures
            final(self).source() == old(self).source(),
            final(self).cursor() == number_step(old(self).source(), old(self).cursor()).cursor,
            outcome_of(r) == number_step(old(self).source(), old(self).cursor()).outcome,
    {
        let mut token = token;
        let mut is_decimal = false;
        let mut buffer = String::new();
        buffer.push(start);
        let ghost source = self.source();
        let ghost after = self.cursor();
        let ghost scan = number_scan(source, after.position, false);
        loop
            invariant_except_break
                after.position <= self.cursor().position <= source.len(),
                self.cursor() == after.read_to(source, self.cursor().position),
                number_scan(source, self.cursor().position, is_decimal) == scan,
                buffer@ == source.subrange(after.position - 1, self.cursor().position),
            invariant
                self.source() == source,
                scan == number_scan(source, after.position, false),
                1 <= after.position <= source.len(),
                token.start_pos == after.position,
                after == old(self).cursor(),
                source == old(self).source(),
            ensures
                scan matches NumberScan::Complete { end, decimal } && {
                    &&& decimal == is_decimal
                    &&& after.position <= end <= source.len()
                    &&& self.cursor() == after.read_to(source, end + 1)
                    &&& buffer@ == source.subrange(after.position - 1, end)
                },
            decreases source.len() - self.cursor().position,
        {
            match self.next_char() {
                None => {
                    break ;
                },
                Some(c) => {
                    if c.is_numeric() {
                        buffer.push(c);
                        continue ;
                    }
                    if c == '.' {
                        if is_decimal {
                            return Err(
                                TokenizerError::new(
                                    self,
                                    String::from_str(
                                        "Cannot have more than one decimal in number.",
                                    ),
                                ),
                            );
                        }
                        buffer.push(c);
                        is_decimal = true;
                        continue ;
                    }
                    break ;
                },
            }
        }
        token.token_type = Some(TokenType::Number(is_decimal));
        self.finish_token(&mut token, buffer);
        proof {
            use_type_invariant(&*self);
            lemma_newlines_bounds(source, after.position, scan->end + 1);
        }
        self.cursor_position = self.cursor_position - 1;
        Ok(Some(token))
    }

    /// Makes the token of a punctuation mark that has just been read.
    fn parse_symbol(&mut self, token: Token, c: char, symbol: SymbolType) -> (r: Result<
        Option<Token>,
        TokenizerError,
    >)
        requires
            1 <= old(self).cursor().position <= old(self).source().len(),
            old(self).source()[old(self).cursor().position - 1] == c,
            token.start_pos == old(self).cursor().position,
        ensures
            final(self).source() == old(self).source(),
            final(self).cursor() == old(self).cursor(),
            outcome_of(r) == symbol_step(old(self).source(), old(self).cursor(), symbol).outcome,
    {
        let mut token = token;
        let mut value = String::new();
        value.push(c);
        token.value = Some(value);
        token.token_type = Some(TokenType::Symbol(symbol));
        token.end_pos = self.cursor_position;
        token.line = self.cursor_line;
        Ok(Some(token))
    }

    /// Reads a string literal after its opening quote.
    fn parse_string(&mut self, token: Token) -> (r: Result<Option<Token>, TokenizerError>)
        requires
            1 <= old(self).cursor().position <= old(self).source().len(),
            token.start_pos == old(self).cursor().position,
        ensures
            final(self).source() == old(self).source(),
            final(self).cursor() == string_step(old(self).source(), old(self).cursor()).cursor,
            outcome_of(r) == string_step(old(self).source(), old(self).cursor()).outcome,
    {
        let mut token = token;
        let mut is_escaped = false;
        let mut buffer = String::new();
        let ghost source = self.source();
        let ghost after = self.cursor();
        let ghost scan = string_scan(source, after.position, false, Seq::empty());
        loop
            invariant_except_break
                after.position <= self.cursor().position <= source.len(),
                self.cursor() == after.read_to(source, self.cursor().position),
                string_scan(source, self.cursor().position, is_escaped, buffer@) == scan,
            invariant
                self.source() == source,
                scan == string_scan(source, after.position, false, Seq::empty()),
                1 <= after.position <= source.len(),
                token.start_pos == after.position,
                after == old(self).cursor(),
                source == old(self).source(),
            ensures
                scan matches StringScan::Closed { at, text } && {
                    &&& after.position <= at < source.len()
                    &&& self.cursor() == after.read_to(source, at + 1)
                    &&& buffer@ == text
                },
            decreases source.len() - self.cursor().position,
        {
            match self.next_char() {
                None => {
                    return Err(
                        TokenizerError::new(self, String::from_str("Unclosed string literal.")),
                    );
                },
                Some(c) => {
                    if is_escaped {
                        is_escaped = false;
                        buffer.push(c);
                    } else if c == '"' {
                        break ;
                    } else if c == '\\' {
                        is_escaped = true;
                    } else {
                        buffer.push(c);
                    }
                },
            }
        }
        token.token_type = Some(TokenType::String);
        self.finish_token(&mut token, buffer);
        Ok(Some(token))
    }

    /// Completes a token at the place where reading stopped: it ends one
    /// before the cursor, holds the gathered text and the current line.
    fn finish_token(&self, token: &mut Token, buffer: String)
        requires
            self.cursor().position >= 1,
        ensures
            final(token).start_pos == old(token).start_pos,
            final(token).token_type == old(token).token_type,
            final(token).end_pos == self.cursor().position - 1,
            final(token).value == Some(buffer),
            final(token).line == self.cursor().line,
    {
        proof {
            use_type_invariant(self);
        }
        token.end_pos = self.cursor_position - 1;
        token.value = Some(buffer);
        token.line = self.cursor_line;
    }
}

} // verus!
