//! The parser: one pass over the tokens, by recursive descent, which stops
//! at the first error.
use crate::error::lexer::TokenizerError;
use crate::error::parser::{ParserError, ParserErrorView};
use crate::lexer::scan::{
    lemma_scan_advances, lemma_scanned_token_is_complete, scan_token, token_stream,
};
use crate::lexer::symbols::SymbolType;
use crate::lexer::tokenizer::{Token, TokenType, TokenView, Tokenizer};
use crate::parse::ast::{node_views, parameter_views, Arguments, Ast, ParameterView};
pub use crate::parse::ast::{
    FunctionCall, FunctionDefinition, FunctionParameter, Node, NodeType, UnaryType,
    VariableDeclaration,
};
use crate::parse::grammar::{
    advance, arguments, block, expect, expect_identifier, expect_symbol, expect_token_type,
    expected_identifier_message, expression, failure, function_call, function_definition,
    lemma_expression_consumes, lemma_function_definition_consumes, lemma_statement_consumes,
    number_literal, parameters, program, statement, statements, tokenizer_message,
    variable_declaration, Input, Parsed, MAX_PARAMETERS,
};
use crate::parse::laws::{
    is_program, is_well_formed, lemma_program_holds_functions, lemma_program_is_well_formed,
};
use crate::parse::number::{
    integer_node, integer_string, is_decimal, lemma_bit_length_of_widths, read_digits, Digits,
};
use vstd::prelude::*;

verus! {

/// Turns the tokens of a tokenizer into a syntax tree.
pub struct StatParser {
    tokenizer: Tokenizer,
    current_token: Option<Token>,
}

/// The mathematical value of a token that may be missing.
pub open spec fn token_view(token: Option<Token>) -> Option<TokenView> {
    match token {
        Some(token) => Some(token@),
        None => None,
    }
}

/// Whether a token of the tokenizer came out of a rule: `got` and the state
/// in which the parser was left are what `rule` gives.
pub open spec fn token_parsed(
    rule: Parsed<TokenView>,
    got: Result<Token, ParserError>,
    left: Input,
) -> bool {
    match rule {
        Ok((token, after)) => got matches Ok(found) && found@ == token && left == after
            && found.value is Some && found.token_type is Some,
        Err(error) => got matches Err(found) && found@ == error && found@.position
            == left.position(),
    }
}

/// Whether a text came out of a rule: `got` and the state in which the
/// parser was left are what `rule` gives.
pub open spec fn text_parsed(
    rule: Parsed<Seq<char>>,
    got: Result<String, ParserError>,
    left: Input,
) -> bool {
    match rule {
        Ok((text, after)) => got matches Ok(found) && found@ == text && left == after,
        Err(error) => got matches Err(found) && found@ == error && found@.position
            == left.position(),
    }
}

/// Whether a node came out of a rule: `got` and the state in which the
/// parser was left are what `rule` gives.
pub open spec fn node_parsed(rule: Parsed<Ast>, got: Result<Node, ParserError>, left: Input) -> bool {
    match rule {
        Ok((tree, after)) => got matches Ok(found) && found@ == tree && left == after,
        Err(error) => got matches Err(found) && found@ == error && found@.position
            == left.position(),
    }
}

/// Whether a list of parameters came out of a rule.
pub open spec fn parameters_parsed(
    rule: Parsed<Seq<ParameterView>>,
    got: Result<Vec<FunctionParameter>, ParserError>,
    left: Input,
) -> bool {
    match rule {
        Ok((list, after)) => got matches Ok(found) && parameter_views(found@) == list && left
            == after,
        Err(error) => got matches Err(found) && found@ == error && found@.position
            == left.position(),
    }
}

impl View for StatParser {
    type V = Input;

    /// The tokens that the tokenizer has yet to yield, and the token that
    /// was read last.
    closed spec fn view(&self) -> Input {
        Input {
            rest: token_stream(self.tokenizer.source(), self.tokenizer.cursor()),
            current: token_view(self.current_token),
        }
    }
}

impl StatParser {
    /// A parser that has read nothing of what `tokenizer` has yet to yield.
    pub fn new(tokenizer: Tokenizer) -> (r: Self)
        ensures
            r@ == (Input {
                rest: token_stream(tokenizer.source(), tokenizer.cursor()),
                current: None,
            }),
    {
        StatParser { tokenizer, current_token: None }
    }

    /// The place that an error is given at this point: where the current
    /// token begins, or 0 where there is none.
    pub fn position(&self) -> (r: i128)
        ensures
            r == self@.position(),
    {
        match &self.current_token {
            Some(token) => token.start_pos,
            None => 0,
        }
    }

    /// The error under which a lexical error is handed on.
    fn lexical_error(&self, error: TokenizerError) -> (r: ParserError)
        ensures
            r@ == failure(self@, tokenizer_message(error@)),
    {
        let mut message = String::from_str("Tokenizer error: ");
        message.append(integer_string(error.position).as_str());
        message.append(":");
        message.append(integer_string(error.line).as_str());
        message.append(" ");
        message.append(error.message.as_str());
        ParserError::new(self, message)
    }

    /// Reads one token, if one is left, and makes it the current token.
    fn next_token(&mut self) -> (r: Result<Option<Token>, ParserError>)
        ensures
            match advance(old(self)@) {
                Ok((token, after)) => r matches Ok(found) && token_view(found) == token
                    && final(self)@ == after && (found matches Some(read) ==> read.value is Some
                    && read.token_type is Some),
                Err(error) => r matches Err(found) && found@ == error && found@.position
                    == final(self)@.position(),
            },
    {
        let ghost source = self.tokenizer.source();
        let ghost cursor = self.tokenizer.cursor();
        proof {
            lemma_scan_advances(source, cursor);
            lemma_scanned_token_is_complete(source, cursor);
        }
        match self.tokenizer.next_token() {
            Err(error) => Err(self.lexical_error(error)),
            Ok(None) => {
                self.current_token = None;
                Ok(None)
            },
            Ok(Some(token)) => {
                self.current_token = Some(token.clone());
                proof {
                    let rest = token_stream(source, scan_token(source, cursor).cursor);
                    assert((seq![token@] + rest.tokens).drop_first() =~= rest.tokens);
                }
                Ok(Some(token))
            },
        }
    }

    /// Reads one token; that none is left is an error.
    fn next_token_expect(&mut self) -> (r: Result<Token, ParserError>)
        ensures
            token_parsed(expect(old(self)@), r, final(self)@),
    {
        match self.next_token()? {
            None => Err(ParserError::new(self, String::from_str("Expected token"))),
            Some(token) => Ok(token),
        }
    }

    /// Reads one token, which must be the given punctuation mark.
    fn expect_symbol(&mut self, symbol: SymbolType, message: &str) -> (r: Result<
        Token,
        ParserError,
    >)
        ensures
            token_parsed(expect_symbol(old(self)@, symbol, message@), r, final(self)@),
    {
        let token = self.next_token_expect()?;
        if !token.is_symbol(symbol) {
            return Err(ParserError::new(self, String::from_str(message)));
        }
        Ok(token)
    }

    /// Reads one token, which must be an identifier, and gives its text.
    fn expect_identifier(&mut self, message: &str) -> (r: Result<String, ParserError>)
        ensures
            text_parsed(expect_identifier(old(self)@, message@), r, final(self)@),
    {
        let token = self.next_token_expect()?;
        if !token.is_kind(TokenType::Identifier) {
            return Err(ParserError::new(self, String::from_str(message)));
        }
        Ok(token.into_text())
    }

    /// Reads one token, which must be of the given kind.
    fn expect_token_type(&mut self, token_type: TokenType) -> (r: Result<Token, ParserError>)
        ensures
            token_parsed(expect_token_type(old(self)@, token_type), r, final(self)@),
    {
        let token = self.next_token_expect()?;
        if !token.is_kind(token_type) {
            let mut message = String::from_str("Expected ");
            message.append(token_type.describe().as_str());
            message.append(" got ");
            message.append(token.describe_kind().as_str());
            return Err(ParserError::new(self, message));
        }
        Ok(token)
    }

    /// The text of `token`, which must be an identifier.
    fn get_expected_identifier(&self, token: Token) -> (r: Result<String, ParserError>)
        ensures
            match r {
                Ok(text) => token@.token_type == Some(TokenType::Identifier) && text@
                    == crate::parse::grammar::text_of(token@),
                Err(error) => token@.token_type != Some(TokenType::Identifier) && error@
                    == failure(self@, expected_identifier_message(token@)),
            },
    {
        if !token.is_kind(TokenType::Identifier) {
            let mut message = String::from_str("Expected identifier got ");
            message.append(token.describe_kind().as_str());
            return Err(ParserError::new(self, message));
        }
        Ok(token.into_text())
    }

    /// The literal that a number token with this text stands for.
    fn number_node(&self, text: String, decimal: bool) -> (r: Result<Node, ParserError>)
        ensures
            match number_literal(text@, decimal) {
                Ok(literal) => r matches Ok(node) && node@ == literal,
                Err(message) => r matches Err(error) && error@ == failure(self@, message),
            },
    {
        if decimal {
            if is_decimal(text.as_str()) {
                Ok(Node::new(NodeType::DoubleLiteral(text)))
            } else {
                let mut message = String::from_str("Literal ");
                message.append(text.as_str());
                message.append(" is not a valid double.");
                Err(ParserError::new(self, message))
            }
        } else {
            match read_digits(text.as_str()) {
                Digits::Invalid => {
                    let mut message = String::from_str("Number ");
                    message.append(text.as_str());
                    message.append(" is an invalid number");
                    Err(ParserError::new(self, message))
                },
                Digits::TooLarge => {
                    let mut message = String::from_str("Number ");
                    message.append(text.as_str());
                    message.append(" does not fit in 128 bits");
                    Err(ParserError::new(self, message))
                },
                Digits::Value(n) => {
                    proof {
                        lemma_bit_length_of_widths(n as nat);
                    }
                    Ok(integer_node(n))
                },
            }
        }
    }

    /// `Expression := String | Number | Block`
    fn parse_expression(&mut self) -> (r: Result<Node, ParserError>)
        ensures
            node_parsed(expression(old(self)@), r, final(self)@),
        decreases old(self)@.len(), 3int,
    {
        let token = self.next_token_expect()?;
        match token.token_type {
            Some(TokenType::String) => Ok(Node::new(NodeType::StringLiteral(token.into_text()))),
            Some(TokenType::Number(decimal)) => self.number_node(token.into_text(), decimal),
            Some(TokenType::Symbol(SymbolType::BraceLeft)) => self.parse_block(),
            _ => {
                let mut message = String::from_str("Invalid token ");
                message.append(token.describe_kind().as_str());
                message.append(" as start of an expression.");
                Err(ParserError::new(self, message))
            },
        }
    }

    /// `Block := '{' Statement* '}'`, after the opening brace has been read.
    fn parse_block(&mut self) -> (r: Result<Node, ParserError>)
        ensures
            node_parsed(block(old(self)@), r, final(self)@),
        decreases old(self)@.len(), 1int,
    {
        let mut nodes: Vec<Node> = Vec::new();
        assert(node_views(nodes@) =~= Seq::<Ast>::empty());
        loop
            invariant
                statements(self@, node_views(nodes@)) == statements(old(self)@, Seq::empty()),
                self@.len() <= old(self)@.len(),
            decreases self@.len(),
        {
            let token = match self.next_token()? {
                None => {
                    return Err(
                        ParserError::new(self, String::from_str("Expected block closure")),
                    );
                },
                Some(token) => token,
            };
            if token.is_symbol(SymbolType::BraceRight) {
                return Ok(Node::block(nodes));
            }
            proof {
                lemma_statement_consumes(token@, self@);
            }
            let ghost done = node_views(nodes@);
            let node = self.parse_statement(token)?;
            nodes.push(node);
            assert(node_views(nodes@) =~= done.push(node@));
        }
    }

    /// `Statement := VariableDeclaration | ReturnStatement | BuiltinCall | Block`,
    /// after its first token has been read.
    fn parse_statement(&mut self, token: Token) -> (r: Result<Node, ParserError>)
        requires
            token.value is Some,
        ensures
            node_parsed(statement(token@, old(self)@), r, final(self)@),
        decreases old(self)@.len(), 4int,
    {
        let opens_block = token.is_symbol(SymbolType::BraceLeft);
        let word = token.into_text();
        if word == String::from_str("set") {
            self.parse_variable_declaration()
        } else if word == String::from_str("return") {
            let value = self.parse_expression()?;
            Ok(Node::new(NodeType::ReturnExpression(value)))
        } else if word == String::from_str("builtin") {
            self.parse_function_call(true)
        } else if opens_block {
            self.parse_block()
        } else {
            let mut message = String::from_str("Unexpected token ");
            message.append(word.as_str());
            Err(ParserError::new(self, message))
        }
    }

    /// `VariableDeclaration := 'set' '<' IDENT '>' IDENT '<' '-' Expression`,
    /// after `set` has been read.
    fn parse_variable_declaration(&mut self) -> (r: Result<Node, ParserError>)
        ensures
            node_parsed(variable_declaration(old(self)@), r, final(self)@),
        decreases old(self)@.len(), 2int,
    {
        let syntax = "Syntax error in variable declaration. Example: 'set<i32> num <- 3";
        self.expect_symbol(SymbolType::TagLeft, syntax)?;
        let declared_type = self.expect_identifier("Expected identifier as variable type")?;
        self.expect_symbol(SymbolType::TagRight, syntax)?;
        let name = self.expect_identifier("Expected identifier as variable name")?;
        self.expect_symbol(SymbolType::TagLeft, syntax)?;
        self.expect_symbol(SymbolType::Minus, syntax)?;
        let value = self.parse_expression()?;
        let variable_type = if declared_type == String::from_str("inherit") {
            None
        } else {
            Some(declared_type)
        };
        Ok(
            Node::new(
                NodeType::VariableDeclaration(VariableDeclaration { name, variable_type, value }),
            ),
        )
    }

    /// `BuiltinCall := 'builtin' IDENT '(' [ArgList] ')'`, after the keyword
    /// has been read.
    fn parse_function_call(&mut self, builtin: bool) -> (r: Result<Node, ParserError>)
        ensures
            node_parsed(function_call(old(self)@, builtin), r, final(self)@),
        decreases old(self)@.len(), 2int,
    {
        let name_token = self.next_token_expect()?;
        let name = self.get_expected_identifier(name_token)?;
        self.expect_token_type(TokenType::Symbol(SymbolType::ParenthesisLeft))?;
        let mut next = self.next_token_expect()?;
        let mut parameters = Arguments::new();
        let mut separated = false;
        let ghost first = next@;
        let ghost start = self@;
        while !next.is_symbol(SymbolType::ParenthesisRight)
            invariant
                arguments(next@, self@, parameters@, separated) == arguments(
                    first,
                    start,
                    Map::empty(),
                    false,
                ),
                self@.len() <= start.len(),
                start.len() < old(self)@.len(),
                arguments(first, start, Map::empty(), false) matches Err(error) ==> function_call(
                    old(self)@,
                    builtin,
                ) == Err::<(Ast, Input), ParserErrorView>(error),
            decreases self@.len(),
        {
            if separated {
                if !next.is_symbol(SymbolType::Comma) {
                    return Err(
                        ParserError::new(
                            self,
                            String::from_str(
                                "Expected symbol ',' to separate different arguments",
                            ),
                        ),
                    );
                }
                next = self.next_token_expect()?;
            }
            let parameter_name = self.get_expected_identifier(next)?;
            self.expect_token_type(TokenType::Symbol(SymbolType::Equals))?;
            proof {
                lemma_expression_consumes(self@);
            }
            let value = self.parse_expression()?;
            parameters.insert(parameter_name, value);
            separated = true;
            next = self.next_token_expect()?;
        }
        Ok(Node::new(NodeType::FunctionCall(FunctionCall { builtin, name, parameters })))
    }

    /// `[Param (',' Param)*] ')'`, after `first` has been read.
    fn parse_function_definition_signature(&mut self, first: Token) -> (r: Result<
        Vec<FunctionParameter>,
        ParserError,
    >)
        ensures
            parameters_parsed(parameters(first@, old(self)@, Seq::empty()), r, final(self)@),
    {
        let mut next = first;
        let mut list: Vec<FunctionParameter> = Vec::new();
        assert(parameter_views(list@) =~= Seq::<ParameterView>::empty());
        while !next.is_symbol(SymbolType::ParenthesisRight)
            invariant
                parameters(next@, self@, parameter_views(list@)) == parameters(
                    first@,
                    old(self)@,
                    Seq::empty(),
                ),
                list.len() <= MAX_PARAMETERS,
            decreases self@.len(),
        {
            if list.len() > 0 {
                if !next.is_symbol(SymbolType::Comma) {
                    return Err(
                        ParserError::new(
                            self,
                            String::from_str(
                                "Expected symbol ',' to separate different parameters",
                            ),
                        ),
                    );
                }
                next = self.next_token_expect()?;
            }
            if list.len() >= MAX_PARAMETERS {
                return Err(
                    ParserError::new(
                        self,
                        String::from_str("Function definition only supports up to 128 arguments"),
                    ),
                );
            }
            let param_name = self.get_expected_identifier(next)?;
            let at = self.next_token_expect()?;
            if !at.is_symbol(SymbolType::AtSign) {
                let mut message = String::from_str("Expected token '@' got ");
                message.append(at.describe_kind().as_str());
                return Err(ParserError::new(self, message));
            }
            let type_token = self.next_token_expect()?;
            let param_type = self.get_expected_identifier(type_token)?;
            let ghost done = parameter_views(list@);
            let parameter = FunctionParameter { param_type, param_name };
            let ghost added = parameter@;
            list.push(parameter);
            assert(parameter_views(list@) =~= done.push(added));
            next = self.next_token_expect()?;
        }
        Ok(list)
    }

    /// `FunctionDefinition := 'func' IDENT '(' [ParamList] ')' ['@' IDENT] Block`,
    /// after `func` has been read.
    fn parse_function_definition(&mut self) -> (r: Result<Node, ParserError>)
        ensures
            node_parsed(function_definition(old(self)@), r, final(self)@),
    {
        let name = self.expect_identifier("Expected identifier as function name")?;
        self.expect_symbol(SymbolType::ParenthesisLeft, "Expected '(' after function name")?;
        let first = self.next_token_expect()?;
        let signature = self.parse_function_definition_signature(first)?;
        let mut token = self.next_token_expect()?;
        let mut declared: Option<String> = None;
        if token.is_symbol(SymbolType::AtSign) {
            declared =
            Some(self.expect_identifier("Expected identifier as function return type")?);
            token = self.next_token_expect()?;
        }
        if !token.is_symbol(SymbolType::BraceLeft) {
            return Err(
                ParserError::new(
                    self,
                    String::from_str("Expected '{' as begin of function body"),
                ),
            );
        }
        let body = self.parse_block()?;
        let return_type = match declared {
            Some(text) => text,
            None => String::from_str("Nothing"),
        };
        Ok(
            Node::new(
                NodeType::FunctionDefinition(
                    FunctionDefinition { name, signature, return_type, body },
                ),
            ),
        )
    }

    /// `Program := FunctionDefinition*`
    fn parse_program(&mut self) -> (r: Result<Node, ParserError>)
        ensures
            node_parsed(program(old(self)@, Seq::empty()), r, final(self)@),
    {
        let mut nodes: Vec<Node> = Vec::new();
        assert(node_views(nodes@) =~= Seq::<Ast>::empty());
        loop
            invariant
                program(self@, node_views(nodes@)) == program(old(self)@, Seq::empty()),
            decreases self@.len(),
        {
            let token = match self.next_token()? {
                None => {
                    return Ok(Node::program(nodes));
                },
                Some(token) => token,
            };
            if !token.is_kind(TokenType::Identifier) {
                let mut message = String::from_str("Invalid token type ");
                message.append(token.describe_kind().as_str());
                message.append(" as top-level statement");
                return Err(ParserError::new(self, message));
            }
            let word = token.into_text();
            if word != String::from_str("func") {
                let mut message = String::from_str("Unexpected identifier '");
                message.append(word.as_str());
                message.append("'");
                return Err(ParserError::new(self, message));
            }
            proof {
                lemma_function_definition_consumes(self@);
            }
            let ghost done = node_views(nodes@);
            let node = self.parse_function_definition()?;
            nodes.push(node);
            assert(node_views(nodes@) =~= done.push(node@));
        }
    }

    /// Parses the whole source: a list of function definitions. The first
    /// error ends the parse, and no tree is given then.
    pub fn parse(&mut self) -> (r: Result<Node, ParserError>)
        ensures
            node_parsed(program(old(self)@, Seq::empty()), r, final(self)@),
            r matches Ok(node) ==> is_program(node@) && is_well_formed(node@),
    {
        proof {
            lemma_program_holds_functions(self@, Seq::empty());
            lemma_program_is_well_formed(self@, Seq::empty());
        }
        self.parse_program()
    }
}

} // verus!
