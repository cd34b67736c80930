//! What holds of every tree that the grammar gives.
use crate::lexer::symbols::SymbolType;
use crate::lexer::tokenizer::{TokenType, TokenView};
use crate::parse::ast::{Ast, ParameterView};
use crate::parse::grammar::{
    advance, argument_comma_message, arguments, block, declaration_message, expect,
    expect_identifier, expect_symbol, expect_token_type, expression, function_call,
    function_definition, function_name_message, inherit_text, is_kind, is_symbol, item_start,
    number_literal, parameter_comma_message, parameters, parameters_open_message, program,
    return_type, statement, statements, text_of, variable_declaration, variable_name_message,
    variable_type_message, Input, Parsed, MAX_PARAMETERS,
};
use crate::parse::number::{
    bit_length, decimal_text, digits_of, integer_literal, is_decimal_number,
    lemma_bit_length_of_widths, lemma_decimal_text_reads_back, literal_width, Digits,
};
use vstd::prelude::*;

verus! {

/// Whether `width` is one of the widths that an integer literal can have.
pub open spec fn is_literal_width(width: nat) -> bool {
    width == 8 || width == 16 || width == 32 || width == 64 || width == 128
}

/// The integer literal of the given width with the value `n`.
pub open spec fn literal_of_width(width: nat, n: nat) -> Ast {
    if width == 8 {
        Ast::Int8Literal(n as u8)
    } else if width == 16 {
        Ast::Int16Literal(n as u16)
    } else if width == 32 {
        Ast::Int32Literal(n as u32)
    } else if width == 64 {
        Ast::Int64Literal(n as u64)
    } else {
        Ast::Int128Literal(n as u128)
    }
}

/// The decimal text of a number of at most 128 bits stands for the integer
/// literal of the narrowest width that holds the number: the least of 8,
/// 16, 32, 64 and 128 that is no less than the number of its binary
/// digits. So 255 is a literal of 8 bits and 256 one of 16.
pub proof fn lemma_integer_literal_is_narrowest(n: nat)
    requires
        n <= u128::MAX,
    ensures
        literal_width(bit_length(n)) matches Some(width) && {
            &&& is_literal_width(width)
            &&& bit_length(n) <= width
            &&& forall|other: nat|
                is_literal_width(other) && bit_length(n) <= other ==> width <= other
            &&& number_literal(decimal_text(n), false) == Ok::<Ast, Seq<char>>(
                literal_of_width(width, n),
            )
        },
        number_literal(decimal_text(n), false) == Ok::<Ast, Seq<char>>(
            if n <= u8::MAX {
                Ast::Int8Literal(n as u8)
            } else if n <= u16::MAX {
                Ast::Int16Literal(n as u16)
            } else if n <= u32::MAX {
                Ast::Int32Literal(n as u32)
            } else if n <= u64::MAX {
                Ast::Int64Literal(n as u64)
            } else {
                Ast::Int128Literal(n as u128)
            },
        ),
{
    lemma_decimal_text_reads_back(n);
    lemma_bit_length_of_widths(n);
}

/// Where a number token without a decimal point stands that holds the
/// decimal text of a number of at most 128 bits, an expression is that one
/// token, and its tree is the integer literal of the narrowest width.
pub proof fn lemma_number_token_is_literal(input: Input, n: nat)
    requires
        n <= u128::MAX,
        input.rest.tokens.len() > 0,
        input.rest.tokens[0].token_type == Some(TokenType::Number(false)),
        input.rest.tokens[0].value == Some(decimal_text(n)),
    ensures
        expression(input) matches Ok((literal, after)) && Some(literal) == integer_literal(n) && (
        advance(input) matches Ok((_, next)) && after == next),
{
    lemma_integer_literal_is_narrowest(n);
}

/// Whether every tree of the list is a function definition whose body is a
/// block.
pub open spec fn is_function_list(items: Seq<Ast>) -> bool {
    forall|i: int|
        0 <= i < items.len() ==> (#[trigger] items[i] matches Ast::FunctionDefinition {
            body,
            ..
        } && *body is Block)
}

/// Whether the tree is a program that consists of function definitions.
pub open spec fn is_program(tree: Ast) -> bool {
    tree matches Ast::Program(items) && is_function_list(items)
}

/// What a function definition gives is a function definition, and its body
/// is a block.
pub proof fn lemma_function_definition_is_one(input: Input)
    ensures
        function_definition(input) matches Ok((tree, _)) ==> is_function_list(seq![tree]),
{
}

/// The root of every tree that a parse gives is a program, and every child
/// of it is a function definition whose body is a block.
pub proof fn lemma_program_holds_functions(input: Input, done: Seq<Ast>)
    requires
        is_function_list(done),
    ensures
        program(input, done) matches Ok((tree, _)) ==> is_program(tree),
    decreases input.len(),
{
    if let Ok((Some(token), next)) = advance(input) {
        if let Ok((node, after)) = function_definition(next) {
            lemma_function_definition_is_one(next);
            if after.len() <= next.len() {
                lemma_program_holds_functions(after, done.push(node));
            }
        }
    }
}

/// Whether a tree is of the form that the parser gives:
///
/// - the children of a program are function definitions, and the body of a
///   function is a block;
/// - an integer literal has the narrowest width that holds its value;
/// - a decimal literal is a decimal number;
/// - no variable has the type `inherit`, which stands for no type;
/// - no function has more than the largest number of parameters.
pub open spec fn is_well_formed(tree: Ast) -> bool
    decreases tree,
{
    match tree {
        Ast::Program(items) => is_function_list(items) && forall|i: int|
            0 <= i < items.len() ==> is_well_formed(#[trigger] items[i]),
        Ast::Block(items) => forall|i: int|
            0 <= i < items.len() ==> is_well_formed(#[trigger] items[i]),
        Ast::StringLiteral(_) => true,
        Ast::Int8Literal(_) => true,
        Ast::Int16Literal(n) => n > u8::MAX,
        Ast::Int32Literal(n) => n > u16::MAX,
        Ast::Int64Literal(n) => n > u32::MAX,
        Ast::Int128Literal(n) => n > u64::MAX,
        Ast::DoubleLiteral(text) => is_decimal_number(text),
        Ast::ReturnExpression(value) => is_well_formed(*value),
        Ast::UnaryNode(_, operand) => is_well_formed(*operand),
        Ast::FunctionDefinition { signature, body, .. } => signature.len() <= MAX_PARAMETERS
            && *body is Block && is_well_formed(*body),
        Ast::VariableDeclaration { variable_type, value, .. } => variable_type != Some(
            inherit_text(),
        ) && is_well_formed(*value),
        Ast::FunctionCall { parameters, .. } => forall|name: Seq<char>|
            parameters.contains_key(name) ==> is_well_formed(#[trigger] parameters[name]),
    }
}

/// Whether all the trees of a list are well formed.
pub open spec fn all_well_formed(items: Seq<Ast>) -> bool {
    forall|i: int| 0 <= i < items.len() ==> is_well_formed(#[trigger] items[i])
}

/// Whether what a rule gives is well formed.
pub open spec fn gives_well_formed(result: Parsed<Ast>) -> bool {
    result matches Ok((tree, _)) ==> is_well_formed(tree)
}

/// The literal of a number token is well formed.
pub proof fn lemma_number_literal_is_well_formed(text: Seq<char>, decimal: bool)
    ensures
        number_literal(text, decimal) matches Ok(literal) ==> is_well_formed(literal),
{
    if !decimal {
        if let Digits::Value(n) = digits_of(text) {
            lemma_bit_length_of_widths(n as nat);
        }
    }
}

/// An expression is well formed.
pub proof fn lemma_expression_is_well_formed(input: Input)
    ensures
        gives_well_formed(expression(input)),
    decreases input.len(), 3int,
{
    if let Ok((token, next)) = expect(input) {
        match token.token_type {
            Some(TokenType::Number(decimal)) => {
                lemma_number_literal_is_well_formed(text_of(token), decimal);
            },
            Some(TokenType::Symbol(SymbolType::BraceLeft)) => {
                lemma_block_is_well_formed(next);
            },
            _ => {},
        }
    }
}

/// A block is well formed.
pub proof fn lemma_block_is_well_formed(input: Input)
    ensures
        gives_well_formed(block(input)),
        block(input) matches Ok((tree, _)) ==> tree is Block,
    decreases input.len(), 1int,
{
    lemma_statements_are_well_formed(input, Seq::empty());
}

/// The statements of a block are well formed.
pub proof fn lemma_statements_are_well_formed(input: Input, done: Seq<Ast>)
    requires
        all_well_formed(done),
    ensures
        statements(input, done) matches Ok((items, _)) ==> all_well_formed(items),
    decreases input.len(), 0int,
{
    if let Ok((Some(token), next)) = advance(input) {
        if !is_symbol(token, SymbolType::BraceRight) {
            lemma_statement_is_well_formed(token, next);
            if let Ok((node, after)) = statement(token, next) {
                if after.len() <= next.len() {
                    lemma_statements_are_well_formed(after, done.push(node));
                }
            }
        }
    }
}

/// A statement is well formed.
pub proof fn lemma_statement_is_well_formed(token: TokenView, input: Input)
    ensures
        gives_well_formed(statement(token, input)),
    decreases input.len(), 4int,
{
    let word = text_of(token);
    if word == "set"@ {
        lemma_variable_declaration_is_well_formed(input);
    } else if word == "return"@ {
        lemma_expression_is_well_formed(input);
    } else if word == "builtin"@ {
        lemma_function_call_is_well_formed(input);
    } else if is_symbol(token, SymbolType::BraceLeft) {
        lemma_block_is_well_formed(input);
    }
}

/// A variable declaration is well formed.
pub proof fn lemma_variable_declaration_is_well_formed(input: Input)
    ensures
        gives_well_formed(variable_declaration(input)),
    decreases input.len(), 2int,
{
    if let Ok((_, a)) = expect_symbol(input, SymbolType::TagLeft, declaration_message()) {
        if let Ok((_, b)) = expect_identifier(a, variable_type_message()) {
            if let Ok((_, c)) = expect_symbol(b, SymbolType::TagRight, declaration_message()) {
                if let Ok((_, d)) = expect_identifier(c, variable_name_message()) {
                    if let Ok((_, e)) = expect_symbol(
                        d,
                        SymbolType::TagLeft,
                        declaration_message(),
                    ) {
                        if let Ok((_, f)) = expect_symbol(
                            e,
                            SymbolType::Minus,
                            declaration_message(),
                        ) {
                            lemma_expression_is_well_formed(f);
                        }
                    }
                }
            }
        }
    }
}

/// A call is well formed.
pub proof fn lemma_function_call_is_well_formed(input: Input)
    ensures
        gives_well_formed(function_call(input, true)),
        gives_well_formed(function_call(input, false)),
    decreases input.len(), 2int,
{
    if let Ok((_, a)) = expect(input) {
        if let Ok((_, b)) = expect_token_type(
            a,
            TokenType::Symbol(SymbolType::ParenthesisLeft),
        ) {
            if let Ok((first, c)) = expect(b) {
                lemma_arguments_are_well_formed(first, c, Map::empty(), false);
            }
        }
    }
}

/// The arguments of a call are well formed.
pub proof fn lemma_arguments_are_well_formed(
    token: TokenView,
    input: Input,
    done: Map<Seq<char>, Ast>,
    separated: bool,
)
    requires
        forall|name: Seq<char>| done.contains_key(name) ==> is_well_formed(#[trigger] done[name]),
    ensures
        arguments(token, input, done, separated) matches Ok((all, _)) ==> forall|name: Seq<char>|
            all.contains_key(name) ==> is_well_formed(#[trigger] all[name]),
    decreases input.len(), 1int,
{
    if !is_symbol(token, SymbolType::ParenthesisRight) {
        if let Ok((name_token, a)) = item_start(
            token,
            input,
            separated,
            argument_comma_message(),
        ) {
            if is_kind(name_token, TokenType::Identifier) {
                if let Ok((_, b)) = expect_token_type(
                    a,
                    TokenType::Symbol(SymbolType::Equals),
                ) {
                    lemma_expression_is_well_formed(b);
                    if let Ok((value, c)) = expression(b) {
                        if c.len() <= b.len() {
                            if let Ok((next, d)) = expect(c) {
                                lemma_arguments_are_well_formed(
                                    next,
                                    d,
                                    done.insert(text_of(name_token), value),
                                    true,
                                );
                            }
                        }
                    }
                }
            }
        }
    }
}

/// A function never has more than the largest number of parameters.
pub proof fn lemma_parameters_are_few(token: TokenView, input: Input, done: Seq<ParameterView>)
    requires
        done.len() <= MAX_PARAMETERS,
    ensures
        parameters(token, input, done) matches Ok((all, _)) ==> all.len() <= MAX_PARAMETERS,
    decreases input.len(),
{
    if !is_symbol(token, SymbolType::ParenthesisRight) {
        if let Ok((name_token, a)) = item_start(
            token,
            input,
            done.len() > 0,
            parameter_comma_message(),
        ) {
            if done.len() < MAX_PARAMETERS && is_kind(name_token, TokenType::Identifier) {
                if let Ok((at, b)) = expect(a) {
                    if is_symbol(at, SymbolType::AtSign) {
                        if let Ok((type_token, c)) = expect(b) {
                            if is_kind(type_token, TokenType::Identifier) {
                                if let Ok((next, d)) = expect(c) {
                                    lemma_parameters_are_few(
                                        next,
                                        d,
                                        done.push(
                                            ParameterView {
                                                param_type: text_of(type_token),
                                                param_name: text_of(name_token),
                                            },
                                        ),
                                    );
                                }
                            }
                        }
                    }
                }
            }
        }
    }
}

/// A function definition is well formed.
pub proof fn lemma_function_definition_is_well_formed(input: Input)
    ensures
        gives_well_formed(function_definition(input)),
{
    if let Ok((_, a)) = expect_identifier(input, function_name_message()) {
        if let Ok((_, b)) = expect_symbol(
            a,
            SymbolType::ParenthesisLeft,
            parameters_open_message(),
        ) {
            if let Ok((first, c)) = expect(b) {
                lemma_parameters_are_few(first, c, Seq::empty());
                if let Ok((_, d)) = parameters(first, c, Seq::empty()) {
                    if let Ok((token, e)) = expect(d) {
                        if let Ok(((_, open), f)) = return_type(token, e) {
                            if is_symbol(open, SymbolType::BraceLeft) {
                                lemma_block_is_well_formed(f);
                            }
                        }
                    }
                }
            }
        }
    }
}

/// Every tree that a parse gives is well formed.
pub proof fn lemma_program_is_well_formed(input: Input, done: Seq<Ast>)
    requires
        is_function_list(done),
        all_well_formed(done),
    ensures
        gives_well_formed(program(input, done)),
    decreases input.len(),
{
    if let Ok((Some(token), next)) = advance(input) {
        if let Ok((node, after)) = function_definition(next) {
            lemma_function_definition_is_one(next);
            lemma_function_definition_is_well_formed(next);
            if after.len() <= next.len() {
                lemma_program_is_well_formed(after, done.push(node));
            }
        }
    }
}

} // verus!
