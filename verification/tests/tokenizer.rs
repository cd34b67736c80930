use stat_script::error::lexer::TokenizerError;
use stat_script::lexer::scan::TokenStart;
use stat_script::lexer::symbols::SymbolType;
use stat_script::lexer::tokenizer::{Token, TokenType, Tokenizer};

fn token(start_pos: i128, end_pos: i128, line: i128, value: &str, token_type: TokenType) -> Token {
    Token { start_pos, end_pos, line, value: Some(value.into()), token_type: Some(token_type) }
}

fn all_tokens(source: &str) -> Result<Vec<Token>, TokenizerError> {
    let mut tokenizer = Tokenizer::new(source.into());
    let mut tokens = Vec::new();
    while let Some(token) = tokenizer.next_token()? {
        tokens.push(token);
    }
    Ok(tokens)
}

fn error_of(source: &str) -> (i128, i128, String) {
    let error = all_tokens(source).unwrap_err();
    (error.position, error.line, error.message)
}

#[test]
fn test_identifier() {
    let mut tokenizer = Tokenizer::new("abc cba".into());

    let token = tokenizer.next_token().unwrap().unwrap();

    assert_eq!(
        token,
        Token {
            start_pos: 1,
            end_pos: 3,
            line: 1,
            value: Some("abc".into()),
            token_type: Some(TokenType::Identifier),
        }
    );

    let token1 = tokenizer.next_token().unwrap().unwrap();

    assert_eq!(
        token1,
        Token {
            start_pos: 5,
            end_pos: 7,
            line: 1,
            value: Some("cba".into()),
            token_type: Some(TokenType::Identifier),
        }
    )
}

#[test]
fn end_of_input_yields_none_again_and_again() {
    let mut tokenizer = Tokenizer::new("x".into());
    assert!(tokenizer.next_token().unwrap().is_some());
    assert!(tokenizer.next_token().unwrap().is_none());
    assert!(tokenizer.next_token().unwrap().is_none());
    assert_eq!(tokenizer.cursor_position(), 1);
    assert_eq!(tokenizer.cursor_line(), 1);
}

#[test]
fn empty_and_blank_sources_hold_no_token() {
    assert_eq!(all_tokens("").unwrap(), vec![]);
    assert_eq!(all_tokens(" \t\r\n ").unwrap(), vec![]);
}

#[test]
fn a_fresh_tokenizer_stands_at_the_beginning() {
    let tokenizer = Tokenizer::new("abc".into());
    assert_eq!(tokenizer.cursor_position(), 0);
    assert_eq!(tokenizer.cursor_line(), 1);
}

#[test]
fn symbols_are_single_characters() {
    assert_eq!(
        all_tokens("<-").unwrap(),
        vec![
            token(1, 1, 1, "<", TokenType::Symbol(SymbolType::TagLeft)),
            token(2, 2, 1, "-", TokenType::Symbol(SymbolType::Minus)),
        ]
    );
}

#[test]
fn whitespace_separated_identifiers() {
    assert_eq!(
        all_tokens("  alpha\tbeta  gamma ").unwrap(),
        vec![
            token(3, 7, 1, "alpha", TokenType::Identifier),
            token(9, 12, 1, "beta", TokenType::Identifier),
            token(15, 19, 1, "gamma", TokenType::Identifier),
        ]
    );
}

#[test]
fn positions_count_characters_not_bytes() {
    assert_eq!(
        all_tokens("h\u{e9}llo w\u{f6}rld").unwrap(),
        vec![
            token(1, 5, 1, "h\u{e9}llo", TokenType::Identifier),
            token(7, 11, 1, "w\u{f6}rld", TokenType::Identifier),
        ]
    );
}

#[test]
fn identifiers_go_on_with_digits_and_underscores() {
    assert_eq!(
        all_tokens("a_1b(").unwrap(),
        vec![
            token(1, 4, 1, "a_1b", TokenType::Identifier),
            token(5, 5, 1, "(", TokenType::Symbol(SymbolType::ParenthesisLeft)),
        ]
    );
}

#[test]
fn numbers_keep_their_text() {
    assert_eq!(
        all_tokens("7 12.5 3. 12abc").unwrap(),
        vec![
            token(1, 1, 1, "7", TokenType::Number(false)),
            token(3, 6, 1, "12.5", TokenType::Number(true)),
            token(8, 9, 1, "3.", TokenType::Number(true)),
            token(11, 12, 1, "12", TokenType::Number(false)),
            token(13, 15, 1, "abc", TokenType::Identifier),
        ]
    );
}

#[test]
fn a_second_decimal_point_is_an_error() {
    assert_eq!(
        error_of("ab 1.2.3"),
        (7, 1, "Cannot have more than one decimal in number.".to_string())
    );
}

#[test]
fn string_literals() {
    assert_eq!(all_tokens("\"hi\"").unwrap(), vec![token(1, 3, 1, "hi", TokenType::String)]);
    assert_eq!(all_tokens("\"\"").unwrap(), vec![token(1, 1, 1, "", TokenType::String)]);
    assert_eq!(
        all_tokens("x \"a b\" y").unwrap(),
        vec![
            token(1, 1, 1, "x", TokenType::Identifier),
            token(3, 6, 1, "a b", TokenType::String),
            token(9, 9, 1, "y", TokenType::Identifier),
        ]
    );
}

#[test]
fn string_escapes() {
    // "a\"b\\c\nd" : an escaped quote, an escaped backslash, and a
    // backslash before another character, which is dropped.
    assert_eq!(
        all_tokens("\"a\\\"b\\\\c\\nd\"").unwrap(),
        vec![token(1, 11, 1, "a\"b\\cnd", TokenType::String)]
    );
    // "\\" is one backslash, and the quote after it closes the literal.
    assert_eq!(all_tokens("\"\\\\\"").unwrap(), vec![token(1, 3, 1, "\\", TokenType::String)]);
}

#[test]
fn unterminated_strings_are_unclosed() {
    assert_eq!(error_of("\"hi"), (4, 1, "Unclosed string literal.".to_string()));
    assert_eq!(error_of("\""), (2, 1, "Unclosed string literal.".to_string()));
    assert_eq!(error_of("\"abc\\\""), (7, 1, "Unclosed string literal.".to_string()));
    assert_eq!(error_of("ok \"a\nb"), (8, 2, "Unclosed string literal.".to_string()));
    assert_eq!(error_of("\"a\" \"b"), (7, 1, "Unclosed string literal.".to_string()));
}

#[test]
fn character_literals() {
    assert_eq!(
        all_tokens("'x'").unwrap(),
        vec![token(1, 2, 1, "x", TokenType::Character('x'))]
    );
    assert_eq!(
        all_tokens("'ab'").unwrap(),
        vec![token(1, 3, 1, "ab", TokenType::Character('a'))]
    );
    assert_eq!(
        all_tokens("'\\' '\"'").unwrap(),
        vec![
            token(1, 2, 1, "\\", TokenType::Character('\\')),
            token(5, 6, 1, "\"", TokenType::Character('"')),
        ]
    );
}

#[test]
fn character_literal_errors() {
    assert_eq!(error_of("''"), (2, 1, "Empty char literal".to_string()));
    assert_eq!(error_of("'x"), (3, 1, "Unclosed char literal".to_string()));
    assert_eq!(error_of("'"), (2, 1, "Unclosed char literal".to_string()));
}

#[test]
fn invalid_first_character() {
    assert_eq!(
        error_of("a \u{a7}"),
        (3, 1, "Invalid char at beginning of token: \u{a7}".to_string())
    );
    assert_eq!(error_of("_a"), (1, 1, "Invalid char at beginning of token: _".to_string()));
}

#[test]
fn lines_are_counted_as_newlines_are_read() {
    // The newline after an identifier is read twice: once to find the end
    // of the identifier, once more by the next call.
    assert_eq!(
        all_tokens("a\nb").unwrap(),
        vec![token(1, 1, 2, "a", TokenType::Identifier), token(3, 3, 3, "b", TokenType::Identifier)]
    );
    assert_eq!(
        all_tokens("(\n)\n\n(").unwrap(),
        vec![
            token(1, 1, 1, "(", TokenType::Symbol(SymbolType::ParenthesisLeft)),
            token(3, 3, 2, ")", TokenType::Symbol(SymbolType::ParenthesisRight)),
            token(6, 6, 4, "(", TokenType::Symbol(SymbolType::ParenthesisLeft)),
        ]
    );
    assert_eq!(all_tokens("\"a\nb\"").unwrap(), vec![token(1, 4, 2, "a\nb", TokenType::String)]);
}

#[test]
fn tokenizing_twice_gives_the_same_tokens() {
    let source = "func main() { set<inherit> x <- 5.5 return \"a\\\"b\" 'c' }\nfunc";
    let first = all_tokens(source).unwrap();
    let second = all_tokens(source).unwrap();
    assert_eq!(first.len(), 18);
    assert_eq!(first, second);
    assert_eq!(error_of("ab \"cd").0, error_of("ab \"cd").0);
}

#[test]
fn every_symbol_has_its_character() {
    let table = [
        ('!', SymbolType::ExclamationMark, "ExclamationMark"),
        ('@', SymbolType::AtSign, "AtSign"),
        ('#', SymbolType::Hashtag, "Hashtag"),
        ('$', SymbolType::Dollar, "Dollar"),
        ('%', SymbolType::Percent, "Percent"),
        ('^', SymbolType::Power, "Power"),
        ('&', SymbolType::Ampersand, "Ampersand"),
        ('*', SymbolType::Asterisk, "Asterisk"),
        ('(', SymbolType::ParenthesisLeft, "ParenthesisLeft"),
        (')', SymbolType::ParenthesisRight, "ParenthesisRight"),
        ('[', SymbolType::BracketLeft, "BracketLeft"),
        (']', SymbolType::BracketRight, "BracketRight"),
        ('{', SymbolType::BraceLeft, "BraceLeft"),
        ('}', SymbolType::BraceRight, "BraceRight"),
        ('-', SymbolType::Minus, "Minus"),
        ('+', SymbolType::Plus, "Plus"),
        ('/', SymbolType::Slash, "Slash"),
        ('\\', SymbolType::Backslash, "Backslash"),
        ('=', SymbolType::Equals, "Equals"),
        (':', SymbolType::Colon, "Colon"),
        (';', SymbolType::Semicolon, "Semicolon"),
        ('.', SymbolType::Dot, "Dot"),
        (',', SymbolType::Comma, "Comma"),
        ('?', SymbolType::QuestionMark, "QuestionMark"),
        ('"', SymbolType::DoubleQuote, "DoubleQuote"),
        ('\'', SymbolType::SingleQuote, "SingleQuote"),
        ('`', SymbolType::Backtick, "Backtick"),
        ('~', SymbolType::Tilde, "Tilde"),
        ('|', SymbolType::Pipe, "Pipe"),
        ('<', SymbolType::TagLeft, "TagLeft"),
        ('>', SymbolType::TagRight, "TagRight"),
    ];
    for (character, symbol, name) in table {
        assert_eq!(SymbolType::from_char(character), Some(symbol));
        assert_eq!(symbol.name(), name);
    }
    for character in ['a', '0', ' ', '_', '\n', '\u{a7}'] {
        assert_eq!(SymbolType::from_char(character), None);
    }
}

#[test]
fn every_symbol_but_the_quotes_is_a_token() {
    let source = "!@#$%^&*()[]{}-+/\\=:;.,?`~|<>";
    let tokens = all_tokens(source).unwrap();
    assert_eq!(tokens.len(), 29);
    for (i, (token, character)) in tokens.iter().zip(source.chars()).enumerate() {
        assert_eq!(token.start_pos, i as i128 + 1);
        assert_eq!(token.end_pos, i as i128 + 1);
        assert_eq!(token.value, Some(character.to_string()));
        assert_eq!(
            token.token_type,
            Some(TokenType::Symbol(SymbolType::from_char(character).unwrap()))
        );
    }
}

#[test]
fn how_a_token_begins() {
    assert_eq!(TokenStart::classify('a', true, false, false), TokenStart::Letter);
    assert_eq!(TokenStart::classify('1', false, true, false), TokenStart::Digit);
    assert_eq!(TokenStart::classify('"', false, false, false), TokenStart::StringQuote);
    assert_eq!(TokenStart::classify('\'', false, false, false), TokenStart::CharacterQuote);
    assert_eq!(TokenStart::classify(' ', false, false, true), TokenStart::Blank);
    assert_eq!(
        TokenStart::classify('{', false, false, false),
        TokenStart::Symbol(SymbolType::BraceLeft)
    );
    assert_eq!(TokenStart::classify('_', false, false, false), TokenStart::Invalid);
    // The classes are tried in order: a letter is a letter whatever else it is.
    assert_eq!(TokenStart::classify('"', true, true, true), TokenStart::Letter);
    assert_eq!(TokenStart::classify('"', false, true, true), TokenStart::Digit);
    assert_eq!(TokenStart::classify('"', false, false, true), TokenStart::StringQuote);

    assert_eq!(TokenStart::of('x'), TokenStart::Letter);
    assert_eq!(TokenStart::of('\u{e9}'), TokenStart::Letter);
    assert_eq!(TokenStart::of('7'), TokenStart::Digit);
    assert_eq!(TokenStart::of('\u{0663}'), TokenStart::Digit);
    assert_eq!(TokenStart::of('\t'), TokenStart::Blank);
    assert_eq!(TokenStart::of('\u{a0}'), TokenStart::Blank);
    assert_eq!(TokenStart::of(';'), TokenStart::Symbol(SymbolType::Semicolon));
    assert_eq!(TokenStart::of('\u{a7}'), TokenStart::Invalid);
}

#[test]
fn kinds_are_described_in_messages() {
    assert_eq!(TokenType::Identifier.describe(), "Identifier");
    assert_eq!(TokenType::Number(true).describe(), "Number(true)");
    assert_eq!(TokenType::Number(false).describe(), "Number(false)");
    assert_eq!(TokenType::Symbol(SymbolType::Comma).describe(), "Symbol(Comma)");
    assert_eq!(TokenType::String.describe(), "String");
    assert_eq!(TokenType::Character('c').describe(), "Character('c')");
}

#[test]
fn what_a_token_tells() {
    let comma = token(4, 4, 1, ",", TokenType::Symbol(SymbolType::Comma));
    assert!(comma.is_symbol(SymbolType::Comma));
    assert!(!comma.is_symbol(SymbolType::Dot));
    assert!(comma.is_kind(TokenType::Symbol(SymbolType::Comma)));
    assert!(!comma.is_kind(TokenType::Identifier));
    assert_eq!(comma.describe_kind(), "Symbol(Comma)");
    assert_eq!(comma.clone(), comma);
    assert_eq!(comma.into_text(), ",");

    let empty = Token::default();
    assert_eq!(empty.start_pos, 0);
    assert!(!empty.is_kind(TokenType::Identifier));
    assert_eq!(empty.describe_kind(), "None");
    assert_eq!(empty.into_text(), "");
}

#[test]
fn an_error_stands_where_the_tokenizer_stands() {
    let mut tokenizer = Tokenizer::new("ab\ncd".into());
    tokenizer.next_token().unwrap();
    let error = TokenizerError::new(&tokenizer, "here".into());
    assert_eq!(error.position, 2);
    assert_eq!(error.line, 2);
    assert_eq!(error.message, "here");
}
