//! The grammar, as functions from the tokens that are left to the tree that
//! they form.
//!
//! ```text
//! Program             := FunctionDefinition*
//! FunctionDefinition  := 'func' IDENT '(' [ParamList] ')' ['@' IDENT] Block
//! ParamList           := Param (',' Param)*
//! Param               := IDENT '@' IDENT
//! Block               := '{' Statement* '}'
//! Statement           := VariableDeclaration | ReturnStatement | BuiltinCall | Block
//! VariableDeclaration := 'set' '<' IDENT '>' IDENT '<' '-' Expression
//! ReturnStatement     := 'return' Expression
//! BuiltinCall         := 'builtin' IDENT '(' [ArgList] ')'
//! ArgList             := Arg (',' Arg)*
//! Arg                 := IDENT '=' Expression
//! Expression          := String | Number | Block
//! ```
//!
//! Each rule takes an [`Input`] and gives either what it has recognised,
//! with the input that is left, or the first error. An error carries the
//! place of the token that was read last.
use crate::error::lexer::TokenizerErrorView;
use crate::error::parser::ParserErrorView;
use crate::lexer::scan::TokenStream;
use crate::lexer::symbols::SymbolType;
use crate::lexer::tokenizer::{TokenType, TokenView};
use crate::parse::ast::{Ast, ParameterView};
use crate::parse::number::{digits_of, integer_literal, integer_text, is_decimal_number, Digits};
use vstd::prelude::*;

verus! {

/// What the parser has before it: the tokens that are left, and the token
/// that was read last.
pub ghost struct Input {
    /// The tokens that have not been read yet.
    pub rest: TokenStream,
    /// The token that was read last; `None` at the beginning and after the
    /// end of the tokens has been found.
    pub current: Option<TokenView>,
}

/// What a rule gives: its result with the input that is left, or an error.
pub type Parsed<T> = Result<(T, Input), ParserErrorView>;

/// The largest number of parameters that a function can declare.
pub const MAX_PARAMETERS: usize = 128;

impl Input {
    /// The place that an error is given at this point: where the current
    /// token begins, or 0 where there is none.
    pub open spec fn position(self) -> int {
        match self.current {
            Some(token) => token.start_pos,
            None => 0,
        }
    }

    /// The number of tokens that are left.
    pub open spec fn len(self) -> nat {
        self.rest.tokens.len()
    }
}

/// The text of a token.
pub open spec fn text_of(token: TokenView) -> Seq<char> {
    match token.value {
        Some(text) => text,
        None => Seq::empty(),
    }
}

/// The kind of a token as it is written in messages.
pub open spec fn kind_text(token: TokenView) -> Seq<char> {
    match token.token_type {
        Some(kind) => kind.description(),
        None => "None"@,
    }
}

/// Whether the token is of the given kind.
pub open spec fn is_kind(token: TokenView, kind: TokenType) -> bool {
    token.token_type == Some(kind)
}

/// Whether the token is the given punctuation mark.
pub open spec fn is_symbol(token: TokenView, symbol: SymbolType) -> bool {
    token.token_type == Some(TokenType::Symbol(symbol))
}

/// The error with `message` at the current token of `input`.
pub open spec fn failure(input: Input, message: Seq<char>) -> ParserErrorView {
    ParserErrorView { message, position: input.position() }
}

/// The message under which a lexical error is handed on.
pub open spec fn tokenizer_message(error: TokenizerErrorView) -> Seq<char> {
    "Tokenizer error: "@ + integer_text(error.position) + ":"@ + integer_text(error.line) + " "@
        + error.message
}

/// The message of the error for the end of the tokens where one more is needed.
pub open spec fn expected_token_message() -> Seq<char> {
    "Expected token"@
}

/// The message of the error for another identifier than `func` at top level.
pub open spec fn unexpected_identifier_message(name: Seq<char>) -> Seq<char> {
    "Unexpected identifier '"@ + name + "'"@
}

/// The message of the error for a token at top level that is no identifier.
pub open spec fn top_level_message(token: TokenView) -> Seq<char> {
    "Invalid token type "@ + kind_text(token) + " as top-level statement"@
}

/// The message of the error for a function without a name.
pub open spec fn function_name_message() -> Seq<char> {
    "Expected identifier as function name"@
}

/// The message of the error for a function name that no `(` follows.
pub open spec fn parameters_open_message() -> Seq<char> {
    "Expected '(' after function name"@
}

/// The message of the error for `@` after the parameters without a type.
pub open spec fn return_type_message() -> Seq<char> {
    "Expected identifier as function return type"@
}

/// The message of the error for a function whose body does not begin with `{`.
pub open spec fn body_open_message() -> Seq<char> {
    "Expected '{' as begin of function body"@
}

/// The message of the error for two parameters without a comma between them.
pub open spec fn parameter_comma_message() -> Seq<char> {
    "Expected symbol ',' to separate different parameters"@
}

/// The message of the error for a parameter beyond the largest number.
pub open spec fn too_many_parameters_message() -> Seq<char> {
    "Function definition only supports up to 128 arguments"@
}

/// The message of the error for `token` where an identifier is needed.
pub open spec fn expected_identifier_message(token: TokenView) -> Seq<char> {
    "Expected identifier got "@ + kind_text(token)
}

/// The message of the error for `token` where the `@` of a parameter is needed.
pub open spec fn expected_at_message(token: TokenView) -> Seq<char> {
    "Expected token '@' got "@ + kind_text(token)
}

/// The message of the error for `token` where a token of kind `kind` is needed.
pub open spec fn expected_kind_message(kind: TokenType, token: TokenView) -> Seq<char> {
    "Expected "@ + kind.description() + " got "@ + kind_text(token)
}

/// The message of the error for two arguments without a comma between them.
pub open spec fn argument_comma_message() -> Seq<char> {
    "Expected symbol ',' to separate different arguments"@
}

/// The message of the error for a number with a point that is no decimal number.
pub open spec fn invalid_double_message(text: Seq<char>) -> Seq<char> {
    "Literal "@ + text + " is not a valid double."@
}

/// The message of the error for a number that does not consist of decimal digits.
pub open spec fn invalid_number_message(text: Seq<char>) -> Seq<char> {
    "Number "@ + text + " is an invalid number"@
}

/// The message of the error for an integer of more than 128 bits.
pub open spec fn number_too_large_message(text: Seq<char>) -> Seq<char> {
    "Number "@ + text + " does not fit in 128 bits"@
}

/// The message of the error for `token` where an expression is needed.
pub open spec fn invalid_expression_message(token: TokenView) -> Seq<char> {
    "Invalid token "@ + kind_text(token) + " as start of an expression."@
}

/// The message of the error for a variable declaration of another form.
pub open spec fn declaration_message() -> Seq<char> {
    "Syntax error in variable declaration. Example: 'set<i32> num <- 3"@
}

/// The message of the error for a variable declaration without a type.
pub open spec fn variable_type_message() -> Seq<char> {
    "Expected identifier as variable type"@
}

/// The message of the error for a variable declaration without a name.
pub open spec fn variable_name_message() -> Seq<char> {
    "Expected identifier as variable name"@
}

/// The message of the error for a token with which no statement begins.
pub open spec fn unexpected_token_message(text: Seq<char>) -> Seq<char> {
    "Unexpected token "@ + text
}

/// The message of the error for a block that is not closed.
pub open spec fn block_closure_message() -> Seq<char> {
    "Expected block closure"@
}

/// The message of the error for a rule that gave back more tokens than it took; no rule does.
pub open spec fn no_progress_message() -> Seq<char> {
    "Internal error: a rule gave back more tokens than it had"@
}

/// The type name that stands for "take the type from the value".
pub open spec fn inherit_text() -> Seq<char> {
    "inherit"@
}

/// The return type of a function that declares none.
pub open spec fn nothing_text() -> Seq<char> {
    "Nothing"@
}

/// Reads one token, if one is left. A lexical error that stands in its place
/// becomes a syntactic error at the token that was current before.
pub open spec fn advance(input: Input) -> Parsed<Option<TokenView>> {
    if input.rest.tokens.len() > 0 {
        let token = input.rest.tokens[0];
        Ok(
            (
                Some(token),
                Input {
                    rest: TokenStream {
                        tokens: input.rest.tokens.drop_first(),
                        failure: input.rest.failure,
                    },
                    current: Some(token),
                },
            ),
        )
    } else {
        match input.rest.failure {
            None => Ok((None, Input { rest: input.rest, current: None })),
            Some(error) => Err(failure(input, tokenizer_message(error))),
        }
    }
}

/// Reads one token; that none is left is an error.
pub open spec fn expect(input: Input) -> Parsed<TokenView> {
    match advance(input) {
        Err(error) => Err(error),
        Ok((None, next)) => Err(failure(next, expected_token_message())),
        Ok((Some(token), next)) => Ok((token, next)),
    }
}

/// Reads one token, which must be the given punctuation mark; `message` is
/// the error if it is another token.
pub open spec fn expect_symbol(input: Input, symbol: SymbolType, message: Seq<char>) -> Parsed<
    TokenView,
> {
    match expect(input) {
        Err(error) => Err(error),
        Ok((token, next)) => if is_symbol(token, symbol) {
            Ok((token, next))
        } else {
            Err(failure(next, message))
        },
    }
}

/// Reads one token, which must be an identifier, and gives its text;
/// `message` is the error if it is another token.
pub open spec fn expect_identifier(input: Input, message: Seq<char>) -> Parsed<Seq<char>> {
    match expect(input) {
        Err(error) => Err(error),
        Ok((token, next)) => if is_kind(token, TokenType::Identifier) {
            Ok((text_of(token), next))
        } else {
            Err(failure(next, message))
        },
    }
}

/// Reads one token, which must be of the given kind; the error names the
/// kind that was wanted and the kind that was found.
pub open spec fn expect_token_type(input: Input, kind: TokenType) -> Parsed<TokenView> {
    match expect(input) {
        Err(error) => Err(error),
        Ok((token, next)) => if is_kind(token, kind) {
            Ok((token, next))
        } else {
            Err(failure(next, expected_kind_message(kind, token)))
        },
    }
}

/// The literal that a number token stands for.
///
/// Without a decimal point the text is read as an unsigned integer of any
/// size and becomes the literal of the narrowest of the widths 8, 16, 32, 64
/// and 128 that holds it. With a point the literal keeps the text.
pub open spec fn number_literal(text: Seq<char>, decimal: bool) -> Result<Ast, Seq<char>> {
    if decimal {
        if is_decimal_number(text) {
            Ok(Ast::DoubleLiteral(text))
        } else {
            Err(invalid_double_message(text))
        }
    } else {
        match digits_of(text) {
            Digits::Invalid => Err(invalid_number_message(text)),
            Digits::TooLarge => Err(number_too_large_message(text)),
            Digits::Value(n) => match integer_literal(n as nat) {
                Some(literal) => Ok(literal),
                None => Err(number_too_large_message(text)),
            },
        }
    }
}

/// `Expression := String | Number | Block`
pub open spec fn expression(input: Input) -> Parsed<Ast>
    decreases input.len(), 3int,
{
    match expect(input) {
        Err(error) => Err(error),
        Ok((token, next)) => match token.token_type {
            Some(TokenType::String) => Ok((Ast::StringLiteral(text_of(token)), next)),
            Some(TokenType::Number(decimal)) => match number_literal(text_of(token), decimal) {
                Ok(literal) => Ok((literal, next)),
                Err(message) => Err(failure(next, message)),
            },
            Some(TokenType::Symbol(SymbolType::BraceLeft)) => block(next),
            _ => Err(failure(next, invalid_expression_message(token))),
        },
    }
}

/// `Block := '{' Statement* '}'`, after the opening brace has been read.
pub open spec fn block(input: Input) -> Parsed<Ast>
    decreases input.len(), 1int,
{
    match statements(input, Seq::empty()) {
        Err(error) => Err(error),
        Ok((nodes, after)) => Ok((Ast::Block(nodes), after)),
    }
}

/// `Statement* '}'`, after the statements `done` have been read.
///
/// A statement reads at least the token that it begins with and gives no
/// token back ([`lemma_statement_consumes`]), so the error for a rule that did is
/// never given.
pub open spec fn statements(input: Input, done: Seq<Ast>) -> Parsed<Seq<Ast>>
    decreases input.len(), 0int,
{
    match advance(input) {
        Err(error) => Err(error),
        Ok((None, next)) => Err(failure(next, block_closure_message())),
        Ok((Some(token), next)) => if is_symbol(token, SymbolType::BraceRight) {
            Ok((done, next))
        } else {
            match statement(token, next) {
                Err(error) => Err(error),
                Ok((node, after)) => if after.len() <= next.len() {
                    statements(after, done.push(node))
                } else {
                    Err(failure(after, no_progress_message()))
                },
            }
        },
    }
}

/// `Statement := VariableDeclaration | ReturnStatement | BuiltinCall | Block`,
/// after its first token has been read. The text of that token decides,
/// whatever its kind.
pub open spec fn statement(token: TokenView, input: Input) -> Parsed<Ast>
    decreases input.len(), 4int,
{
    let word = text_of(token);
    if word == "set"@ {
        variable_declaration(input)
    } else if word == "return"@ {
        match expression(input) {
            Err(error) => Err(error),
            Ok((value, after)) => Ok((Ast::ReturnExpression(Box::new(value)), after)),
        }
    } else if word == "builtin"@ {
        function_call(input, true)
    } else if is_symbol(token, SymbolType::BraceLeft) {
        block(input)
    } else {
        Err(failure(input, unexpected_token_message(word)))
    }
}

/// `VariableDeclaration := 'set' '<' IDENT '>' IDENT '<' '-' Expression`,
/// after `set` has been read. The type `inherit` is recorded as no type.
pub open spec fn variable_declaration(input: Input) -> Parsed<Ast>
    decreases input.len(), 2int,
{
    match expect_symbol(input, SymbolType::TagLeft, declaration_message()) {
        Err(error) => Err(error),
        Ok((_, input)) => match expect_identifier(input, variable_type_message()) {
            Err(error) => Err(error),
            Ok((declared_type, input)) => match expect_symbol(
                input,
                SymbolType::TagRight,
                declaration_message(),
            ) {
                Err(error) => Err(error),
                Ok((_, input)) => match expect_identifier(input, variable_name_message()) {
                    Err(error) => Err(error),
                    Ok((name, input)) => match expect_symbol(
                        input,
                        SymbolType::TagLeft,
                        declaration_message(),
                    ) {
                        Err(error) => Err(error),
                        Ok((_, input)) => match expect_symbol(
                            input,
                            SymbolType::Minus,
                            declaration_message(),
                        ) {
                            Err(error) => Err(error),
                            Ok((_, input)) => match expression(input) {
                                Err(error) => Err(error),
                                Ok((value, after)) => Ok(
                                    (
                                        Ast::VariableDeclaration {
                                            name,
                                            variable_type: if declared_type == inherit_text() {
                                                None
                                            } else {
                                                Some(declared_type)
                                            },
                                            value: Box::new(value),
                                        },
                                        after,
                                    ),
                                ),
                            },
                        },
                    },
                },
            },
        },
    }
}

/// `BuiltinCall := 'builtin' IDENT '(' [ArgList] ')'`, after the keyword has
/// been read.
pub open spec fn function_call(input: Input, builtin: bool) -> Parsed<Ast>
    decreases input.len(), 2int,
{
    match expect(input) {
        Err(error) => Err(error),
        Ok((token, input)) => if !is_kind(token, TokenType::Identifier) {
            Err(failure(input, expected_identifier_message(token)))
        } else {
            match expect_token_type(input, TokenType::Symbol(SymbolType::ParenthesisLeft)) {
                Err(error) => Err(error),
                Ok((_, input)) => match expect(input) {
                    Err(error) => Err(error),
                    Ok((first, input)) => match arguments(first, input, Map::empty(), false) {
                        Err(error) => Err(error),
                        Ok((parameters, after)) => Ok(
                            (
                                Ast::FunctionCall { builtin, name: text_of(token), parameters },
                                after,
                            ),
                        ),
                    },
                },
            }
        },
    }
}

/// `[Arg (',' Arg)*] ')'` with `Arg := IDENT '=' Expression`, after the
/// arguments `done` and then `token` have been read; `separated` says
/// whether an argument has been read already, so that a comma must come
/// first. An argument that is named again replaces the earlier one.
pub open spec fn arguments(
    token: TokenView,
    input: Input,
    done: Map<Seq<char>, Ast>,
    separated: bool,
) -> Parsed<Map<Seq<char>, Ast>>
    decreases input.len(), 1int,
{
    if is_symbol(token, SymbolType::ParenthesisRight) {
        Ok((done, input))
    } else {
        match item_start(token, input, separated, argument_comma_message()) {
            Err(error) => Err(error),
            Ok((name_token, input)) => if !is_kind(name_token, TokenType::Identifier) {
                Err(failure(input, expected_identifier_message(name_token)))
            } else {
                match expect_token_type(input, TokenType::Symbol(SymbolType::Equals)) {
                    Err(error) => Err(error),
                    Ok((_, input)) => match expression(input) {
                        Err(error) => Err(error),
                        Ok((value, after)) => if after.len() <= input.len() {
                            match expect(after) {
                                Err(error) => Err(error),
                                Ok((next, after)) => arguments(
                                    next,
                                    after,
                                    done.insert(text_of(name_token), value),
                                    true,
                                ),
                            }
                        } else {
                            Err(failure(after, no_progress_message()))
                        },
                    },
                }
            },
        }
    }
}

/// `[Param (',' Param)*] ')'` with `Param := IDENT '@' IDENT`, after the
/// parameters `done` and then `token` have been read.
pub open spec fn parameters(
    token: TokenView,
    input: Input,
    done: Seq<ParameterView>,
) -> Parsed<Seq<ParameterView>>
    decreases input.len(),
{
    if is_symbol(token, SymbolType::ParenthesisRight) {
        Ok((done, input))
    } else {
        match item_start(token, input, done.len() > 0, parameter_comma_message()) {
            Err(error) => Err(error),
            Ok((name_token, input)) => if done.len() >= MAX_PARAMETERS {
                Err(failure(input, too_many_parameters_message()))
            } else if !is_kind(name_token, TokenType::Identifier) {
                Err(failure(input, expected_identifier_message(name_token)))
            } else {
                match expect(input) {
                    Err(error) => Err(error),
                    Ok((at, input)) => if !is_symbol(at, SymbolType::AtSign) {
                        Err(failure(input, expected_at_message(at)))
                    } else {
                        match expect(input) {
                            Err(error) => Err(error),
                            Ok((type_token, input)) => if !is_kind(
                                type_token,
                                TokenType::Identifier,
                            ) {
                                Err(failure(input, expected_identifier_message(type_token)))
                            } else {
                                match expect(input) {
                                    Err(error) => Err(error),
                                    Ok((next, after)) => parameters(
                                        next,
                                        after,
                                        done.push(
                                            ParameterView {
                                                param_type: text_of(type_token),
                                                param_name: text_of(name_token),
                                            },
                                        ),
                                    ),
                                }
                            },
                        }
                    },
                }
            },
        }
    }
}

/// The token with which an item of a list begins: `token` itself for the
/// first item, and the token after `token` for the others, where `token`
/// must be a comma; `message` is the error if it is not.
pub open spec fn item_start(
    token: TokenView,
    input: Input,
    separated: bool,
    message: Seq<char>,
) -> Parsed<TokenView> {
    if !separated {
        Ok((token, input))
    } else if is_symbol(token, SymbolType::Comma) {
        expect(input)
    } else {
        Err(failure(input, message))
    }
}

/// What may stand between the parameters and the body: `'@' IDENT`, the
/// return type. Gives the type, if one is declared, and the token after it;
/// `token` is the token after the closing parenthesis.
pub open spec fn return_type(token: TokenView, input: Input) -> Parsed<
    (Option<Seq<char>>, TokenView),
> {
    if is_symbol(token, SymbolType::AtSign) {
        match expect_identifier(input, return_type_message()) {
            Err(error) => Err(error),
            Ok((name, input)) => match expect(input) {
                Err(error) => Err(error),
                Ok((next, after)) => Ok(((Some(name), next), after)),
            },
        }
    } else {
        Ok(((None, token), input))
    }
}

/// `FunctionDefinition := 'func' IDENT '(' [ParamList] ')' ['@' IDENT] Block`,
/// after `func` has been read. A function without a return type returns
/// `Nothing`.
pub open spec fn function_definition(input: Input) -> Parsed<Ast> {
    match expect_identifier(input, function_name_message()) {
        Err(error) => Err(error),
        Ok((name, input)) => match expect_symbol(
            input,
            SymbolType::ParenthesisLeft,
            parameters_open_message(),
        ) {
            Err(error) => Err(error),
            Ok((_, input)) => match expect(input) {
                Err(error) => Err(error),
                Ok((first, input)) => match parameters(first, input, Seq::empty()) {
                    Err(error) => Err(error),
                    Ok((signature, input)) => match expect(input) {
                        Err(error) => Err(error),
                        Ok((token, input)) => match return_type(token, input) {
                            Err(error) => Err(error),
                            Ok(((declared, open), input)) => if !is_symbol(
                                open,
                                SymbolType::BraceLeft,
                            ) {
                                Err(failure(input, body_open_message()))
                            } else {
                                match block(input) {
                                    Err(error) => Err(error),
                                    Ok((body, after)) => Ok(
                                        (
                                            Ast::FunctionDefinition {
                                                name,
                                                signature,
                                                return_type: match declared {
                                                    Some(text) => text,
                                                    None => nothing_text(),
                                                },
                                                body: Box::new(body),
                                            },
                                            after,
                                        ),
                                    ),
                                }
                            },
                        },
                    },
                },
            },
        },
    }
}

/// `Program := FunctionDefinition*`, after the functions `done` have been
/// read. Only `func` may begin an item.
///
/// A function definition gives no token back ([`lemma_function_definition_consumes`]), so
/// the error for a rule that did is never given.
pub open spec fn program(input: Input, done: Seq<Ast>) -> Parsed<Ast>
    decreases input.len(),
{
    match advance(input) {
        Err(error) => Err(error),
        Ok((None, next)) => Ok((Ast::Program(done), next)),
        Ok((Some(token), next)) => if !is_kind(token, TokenType::Identifier) {
            Err(failure(next, top_level_message(token)))
        } else if text_of(token) != "func"@ {
            Err(failure(next, unexpected_identifier_message(text_of(token))))
        } else {
            match function_definition(next) {
                Err(error) => Err(error),
                Ok((node, after)) => if after.len() <= next.len() {
                    program(after, done.push(node))
                } else {
                    Err(failure(after, no_progress_message()))
                },
            }
        },
    }
}

/// Whether a rule that gave `result` for `input` has read at least `least`
/// tokens, if it has recognised anything.
pub open spec fn consumed<T>(result: Parsed<T>, input: Input, least: nat) -> bool {
    result matches Ok((_, after)) ==> after.len() + least <= input.len()
}

/// An expression reads at least one token.
pub proof fn lemma_expression_consumes(input: Input)
    ensures
        consumed(expression(input), input, 1),
    decreases input.len(), 3int,
{
    if let Ok((token, next)) = expect(input) {
        if token.token_type == Some(TokenType::Symbol(SymbolType::BraceLeft)) {
            lemma_block_consumes(next);
        }
    }
}

/// A block reads at least its closing brace.
pub proof fn lemma_block_consumes(input: Input)
    ensures
        consumed(block(input), input, 1),
    decreases input.len(), 1int,
{
    lemma_statements_consume(input, Seq::empty());
}

/// The statements of a block, with its closing brace, are at least one
/// token.
pub proof fn lemma_statements_consume(input: Input, done: Seq<Ast>)
    ensures
        consumed(statements(input, done), input, 1),
    decreases input.len(), 0int,
{
    if let Ok((Some(token), next)) = advance(input) {
        if !is_symbol(token, SymbolType::BraceRight) {
            lemma_statement_consumes(token, next);
            if let Ok((node, after)) = statement(token, next) {
                lemma_statements_consume(after, done.push(node));
            }
        }
    }
}

/// A statement reads at least one token after the one that it begins with.
pub proof fn lemma_statement_consumes(token: TokenView, input: Input)
    ensures
        consumed(statement(token, input), input, 1),
    decreases input.len(), 4int,
{
    let word = text_of(token);
    if word == "set"@ {
        lemma_variable_declaration_consumes(input);
    } else if word == "return"@ {
        lemma_expression_consumes(input);
    } else if word == "builtin"@ {
        lemma_function_call_consumes(input);
    } else if is_symbol(token, SymbolType::BraceLeft) {
        lemma_block_consumes(input);
    }
}

/// A variable declaration reads at least one token after `set`.
pub proof fn lemma_variable_declaration_consumes(input: Input)
    ensures
        consumed(variable_declaration(input), input, 1),
    decreases input.len(), 2int,
{
    if let Ok((_, a)) = expect_symbol(input, SymbolType::TagLeft, declaration_message()) {
        if let Ok((_, b)) = expect_identifier(a, variable_type_message()) {
            if let Ok((_, c)) = expect_symbol(b, SymbolType::TagRight, declaration_message()) {
                if let Ok((_, d)) = expect_identifier(c, variable_name_message()) {
                    if let Ok((_, e)) = expect_symbol(
                        d,
                        SymbolType::TagLeft,
                        declaration_message(),
                    ) {
                        if let Ok((_, f)) = expect_symbol(
                            e,
                            SymbolType::Minus,
                            declaration_message(),
                        ) {
                            lemma_expression_consumes(f);
                        }
                    }
                }
            }
        }
    }
}

/// A call reads at least one token after its keyword.
pub proof fn lemma_function_call_consumes(input: Input)
    ensures
        consumed(function_call(input, true), input, 1),
        consumed(function_call(input, false), input, 1),
    decreases input.len(), 2int,
{
    if let Ok((token, a)) = expect(input) {
        if let Ok((_, b)) = expect_token_type(
            a,
            TokenType::Symbol(SymbolType::ParenthesisLeft),
        ) {
            if let Ok((first, c)) = expect(b) {
                lemma_arguments_consume(first, c, Map::empty(), false);
            }
        }
    }
}

/// The arguments of a call give no token back.
pub proof fn lemma_arguments_consume(
    token: TokenView,
    input: Input,
    done: Map<Seq<char>, Ast>,
    separated: bool,
)
    ensures
        consumed(arguments(token, input, done, separated), input, 0),
    decreases input.len(), 1int,
{
    if !is_symbol(token, SymbolType::ParenthesisRight) {
        if let Ok((name_token, a)) = item_start(
            token,
            input,
            separated,
            argument_comma_message(),
        ) {
            if is_kind(name_token, TokenType::Identifier) {
                if let Ok((_, b)) = expect_token_type(
                    a,
                    TokenType::Symbol(SymbolType::Equals),
                ) {
                    lemma_expression_consumes(b);
                    if let Ok((value, c)) = expression(b) {
                        if let Ok((next, d)) = expect(c) {
                            lemma_arguments_consume(
                                next,
                                d,
                                done.insert(text_of(name_token), value),
                                true,
                            );
                        }
                    }
                }
            }
        }
    }
}

/// The parameters of a function give no token back.
pub proof fn lemma_parameters_consume(token: TokenView, input: Input, done: Seq<ParameterView>)
    ensures
        consumed(parameters(token, input, done), input, 0),
    decreases input.len(),
{
    if !is_symbol(token, SymbolType::ParenthesisRight) {
        if let Ok((name_token, a)) = item_start(
            token,
            input,
            done.len() > 0,
            parameter_comma_message(),
        ) {
            if done.len() < MAX_PARAMETERS && is_kind(name_token, TokenType::Identifier) {
                if let Ok((at, b)) = expect(a) {
                    if is_symbol(at, SymbolType::AtSign) {
                        if let Ok((type_token, c)) = expect(b) {
                            if is_kind(type_token, TokenType::Identifier) {
                                if let Ok((next, d)) = expect(c) {
                                    lemma_parameters_consume(
                                        next,
                                        d,
                                        done.push(
                                            ParameterView {
                                                param_type: text_of(type_token),
                                                param_name: text_of(name_token),
                                            },
                                        ),
                                    );
                                }
                            }
                        }
                    }
                }
            }
        }
    }
}

/// A function definition reads at least one token after `func`.
pub proof fn lemma_function_definition_consumes(input: Input)
    ensures
        consumed(function_definition(input), input, 1),
{
    if let Ok((_, a)) = expect_identifier(input, function_name_message()) {
        if let Ok((_, b)) = expect_symbol(
            a,
            SymbolType::ParenthesisLeft,
            parameters_open_message(),
        ) {
            if let Ok((first, c)) = expect(b) {
                lemma_parameters_consume(first, c, Seq::empty());
                if let Ok((_, d)) = parameters(first, c, Seq::empty()) {
                    if let Ok((token, e)) = expect(d) {
                        if let Ok(((_, open), f)) = return_type(token, e) {
                            if is_symbol(open, SymbolType::BraceLeft) {
                                lemma_block_consumes(f);
                            }
                        }
                    }
                }
            }
        }
    }
}

} // verus!
