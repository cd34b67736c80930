use stat_script::error::parser::ParserError;
use stat_script::lexer::tokenizer::Tokenizer;
use stat_script::parse::parser::{
    FunctionDefinition, FunctionParameter, Node, NodeType, StatParser,
};

fn parse(source: &str) -> Result<Node, ParserError> {
    StatParser::new(Tokenizer::new(source.into())).parse()
}

fn functions(source: &str) -> Vec<Node> {
    match *parse(source).unwrap().node_type {
        NodeType::Program(functions) => functions,
        other => panic!("the root is {:?}", other),
    }
}

fn only_function(source: &str) -> FunctionDefinition {
    let mut all = functions(source);
    assert_eq!(all.len(), 1);
    match *all.remove(0).node_type {
        NodeType::FunctionDefinition(definition) => definition,
        other => panic!("the item is {:?}", other),
    }
}

fn body(source: &str) -> Vec<Node> {
    match *only_function(source).body.node_type {
        NodeType::Block(statements) => statements,
        other => panic!("the body is {:?}", other),
    }
}

fn node(node_type: NodeType) -> Node {
    Node { node_type: Box::new(node_type) }
}

#[test]
fn main_returning_a_string() {
    let tree = parse("func main() { return \"hi\" }").unwrap();
    let expected = node(NodeType::Program(vec![node(NodeType::FunctionDefinition(
        FunctionDefinition {
            name: "main".into(),
            signature: vec![],
            return_type: "Nothing".into(),
            body: node(NodeType::Block(vec![node(NodeType::ReturnExpression(node(
                NodeType::StringLiteral("hi".into()),
            )))])),
        },
    ))]));
    assert_eq!(tree, expected);
}

#[test]
fn inherited_variable_type_is_none() {
    let statements = body("func main() { set<inherit> x <- 5 }");
    assert_eq!(statements.len(), 1);
    match &*statements[0].node_type {
        NodeType::VariableDeclaration(declaration) => {
            assert_eq!(declaration.name, "x");
            assert_eq!(declaration.variable_type, None);
            assert_eq!(declaration.value, node(NodeType::Int8Literal(5)));
        }
        other => panic!("the statement is {:?}", other),
    }
}

#[test]
fn declared_variable_type_is_kept() {
    let statements = body("func main() { set<i32> num <- 300 }");
    match &*statements[0].node_type {
        NodeType::VariableDeclaration(declaration) => {
            assert_eq!(declaration.name, "num");
            assert_eq!(declaration.variable_type, Some("i32".to_string()));
            assert_eq!(declaration.value, node(NodeType::Int16Literal(300)));
        }
        other => panic!("the statement is {:?}", other),
    }
}

fn function_with_parameters(count: usize) -> String {
    let mut source = String::from("func f(");
    for i in 0..count {
        if i > 0 {
            source.push_str(", ");
        }
        source.push_str(&format!("p{}@i32", i));
    }
    source.push_str(") { }");
    source
}

#[test]
fn one_hundred_and_thirty_parameters_are_too_many() {
    let error = parse(&function_with_parameters(130)).unwrap_err();
    assert_eq!(error.message, "Function definition only supports up to 128 arguments");
}

#[test]
fn one_hundred_and_twenty_eight_parameters_are_accepted() {
    let definition = only_function(&function_with_parameters(128));
    assert_eq!(definition.signature.len(), 128);
    assert_eq!(
        definition.signature[127],
        FunctionParameter { param_type: "i32".into(), param_name: "p127".into() }
    );
}

#[test]
fn the_129th_parameter_is_refused_before_it_is_read() {
    let mut source = function_with_parameters(128);
    source.truncate(source.len() - ") { }".len());
    source.push_str(", 5");
    let error = parse(&source).unwrap_err();
    assert_eq!(error.message, "Function definition only supports up to 128 arguments");
}

#[test]
fn unclosed_string_is_a_lexical_error() {
    let error = parse("func main() { return \"hi }").unwrap_err();
    assert_eq!(error.message, "Tokenizer error: 27:1 Unclosed string literal.");
    assert_eq!(error.position, 15);
}

#[test]
fn missing_block_closure() {
    let error = parse("func f(a@i32, b@i32) { return 1 ").unwrap_err();
    assert_eq!(error.message, "Expected block closure");
    assert_eq!(error.position, 0);
}

#[test]
fn parameters_and_return_type() {
    let definition = only_function("func f(a@i32, b@text) @ i64 { return 1 }");
    assert_eq!(definition.name, "f");
    assert_eq!(
        definition.signature,
        vec![
            FunctionParameter { param_type: "i32".into(), param_name: "a".into() },
            FunctionParameter { param_type: "text".into(), param_name: "b".into() },
        ]
    );
    assert_eq!(definition.return_type, "i64");
    assert_eq!(
        definition.body,
        node(NodeType::Block(vec![node(NodeType::ReturnExpression(node(
            NodeType::Int8Literal(1)
        )))]))
    );
}

#[test]
fn empty_source_is_an_empty_program() {
    assert_eq!(parse("").unwrap(), node(NodeType::Program(vec![])));
    assert_eq!(parse("  \n\t ").unwrap(), node(NodeType::Program(vec![])));
}

#[test]
fn several_functions_in_order() {
    let all = functions("func a() { } func b() { }");
    let names: Vec<String> = all
        .into_iter()
        .map(|item| match *item.node_type {
            NodeType::FunctionDefinition(definition) => definition.name,
            other => panic!("the item is {:?}", other),
        })
        .collect();
    assert_eq!(names, vec!["a".to_string(), "b".to_string()]);
}

#[test]
fn only_functions_at_top_level() {
    let error = parse("set<i32> x <- 1").unwrap_err();
    assert_eq!(error.message, "Unexpected identifier 'set'");
    assert_eq!(error.position, 1);
    let error = parse("func a() { } 12").unwrap_err();
    assert_eq!(error.message, "Invalid token type Number(false) as top-level statement");
    assert_eq!(error.position, 14);
    let error = parse("{").unwrap_err();
    assert_eq!(error.message, "Invalid token type Symbol(BraceLeft) as top-level statement");
}

#[test]
fn function_definition_errors() {
    assert_eq!(parse("func").unwrap_err().message, "Expected token");
    assert_eq!(parse("func 1").unwrap_err().message, "Expected identifier as function name");
    assert_eq!(parse("func f {").unwrap_err().message, "Expected '(' after function name");
    assert_eq!(parse("func f(1").unwrap_err().message, "Expected identifier got Number(false)");
    assert_eq!(parse("func f(a b").unwrap_err().message, "Expected token '@' got Identifier");
    assert_eq!(parse("func f(a@'c'").unwrap_err().message, "Expected identifier got Character('c')");
    assert_eq!(
        parse("func f(a@b c@d)").unwrap_err().message,
        "Expected symbol ',' to separate different parameters"
    );
    assert_eq!(
        parse("func f() @ 1").unwrap_err().message,
        "Expected identifier as function return type"
    );
    assert_eq!(
        parse("func f() x").unwrap_err().message,
        "Expected '{' as begin of function body"
    );
    assert_eq!(
        parse("func f() @ t x").unwrap_err().message,
        "Expected '{' as begin of function body"
    );
}

#[test]
fn nested_blocks() {
    let statements = body("func main() { { } return { return \"x\" } }");
    assert_eq!(
        statements,
        vec![
            node(NodeType::Block(vec![])),
            node(NodeType::ReturnExpression(node(NodeType::Block(vec![node(
                NodeType::ReturnExpression(node(NodeType::StringLiteral("x".into())))
            )])))),
        ]
    );
}

#[test]
fn builtin_call_with_named_arguments() {
    let statements = body("func main() { builtin print(text = \"a\", count = 2, text = \"b\") }");
    assert_eq!(statements.len(), 1);
    match &*statements[0].node_type {
        NodeType::FunctionCall(call) => {
            assert!(call.builtin);
            assert_eq!(call.name, "print");
            assert_eq!(call.parameters.entries().len(), 2);
            assert_eq!(
                call.parameters.get("text"),
                Some(&node(NodeType::StringLiteral("b".into())))
            );
            assert_eq!(call.parameters.get("count"), Some(&node(NodeType::Int8Literal(2))));
            assert_eq!(call.parameters.get("other"), None);
        }
        other => panic!("the statement is {:?}", other),
    }
}

#[test]
fn builtin_call_without_arguments() {
    let statements = body("func main() { builtin stop() }");
    match &*statements[0].node_type {
        NodeType::FunctionCall(call) => {
            assert_eq!(call.name, "stop");
            assert!(call.parameters.entries().is_empty());
        }
        other => panic!("the statement is {:?}", other),
    }
}

#[test]
fn builtin_call_errors() {
    let inside = |text: &str| parse(&format!("func main() {{ {} }}", text)).unwrap_err().message;
    assert_eq!(inside("builtin 1"), "Expected identifier got Number(false)");
    assert_eq!(inside("builtin f 1"), "Expected Symbol(ParenthesisLeft) got Number(false)");
    assert_eq!(inside("builtin f(1)"), "Expected identifier got Number(false)");
    assert_eq!(inside("builtin f(a 1)"), "Expected Symbol(Equals) got Number(false)");
    assert_eq!(
        inside("builtin f(a = 1 b = 2)"),
        "Expected symbol ',' to separate different arguments"
    );
    assert_eq!(inside("builtin f(a = 1,)"), "Expected identifier got Symbol(ParenthesisRight)");
}

#[test]
fn statement_errors() {
    let inside = |text: &str| parse(&format!("func main() {{ {} }}", text)).unwrap_err().message;
    assert_eq!(inside("print"), "Unexpected token print");
    assert_eq!(inside("return )"), "Invalid token Symbol(ParenthesisRight) as start of an expression.");
    assert_eq!(inside("return x"), "Invalid token Identifier as start of an expression.");
    let syntax = "Syntax error in variable declaration. Example: 'set<i32> num <- 3";
    assert_eq!(inside("set x"), syntax);
    assert_eq!(inside("set<1"), "Expected identifier as variable type");
    assert_eq!(inside("set<t<"), syntax);
    assert_eq!(inside("set<t> 1"), "Expected identifier as variable name");
    assert_eq!(inside("set<t> x = 1"), syntax);
    assert_eq!(inside("set<t> x <= 1"), syntax);
}

#[test]
fn error_position_is_the_start_of_the_current_token() {
    let error = parse("func main() { return x }").unwrap_err();
    assert_eq!(error.position, 22);
    let error = parse("func main() {\n  oops }").unwrap_err();
    assert_eq!(error.message, "Unexpected token oops");
    assert_eq!(error.position, 17);
}

#[test]
fn integer_literals_take_the_narrowest_width() {
    let literal = |text: &str| {
        let mut statements = body(&format!("func main() {{ return {} }}", text));
        match *statements.remove(0).node_type {
            NodeType::ReturnExpression(value) => *value.node_type,
            other => panic!("the statement is {:?}", other),
        }
    };
    assert_eq!(literal("0"), NodeType::Int8Literal(0));
    assert_eq!(literal("255"), NodeType::Int8Literal(255));
    assert_eq!(literal("256"), NodeType::Int16Literal(256));
    assert_eq!(literal("65535"), NodeType::Int16Literal(65535));
    assert_eq!(literal("65536"), NodeType::Int32Literal(65536));
    assert_eq!(literal("4294967295"), NodeType::Int32Literal(4294967295));
    assert_eq!(literal("4294967296"), NodeType::Int64Literal(4294967296));
    assert_eq!(literal("18446744073709551615"), NodeType::Int64Literal(u64::MAX));
    assert_eq!(literal("18446744073709551616"), NodeType::Int128Literal(1 << 64));
    assert_eq!(
        literal("340282366920938463463374607431768211455"),
        NodeType::Int128Literal(u128::MAX)
    );
    assert_eq!(literal("007"), NodeType::Int8Literal(7));
}

#[test]
fn integer_literal_beyond_128_bits_is_refused() {
    let error = parse("func main() { return 340282366920938463463374607431768211456 }").unwrap_err();
    assert_eq!(
        error.message,
        "Number 340282366920938463463374607431768211456 does not fit in 128 bits"
    );
    assert_eq!(error.position, 22);
}

#[test]
fn digits_outside_ascii_are_no_number() {
    let error = parse("func main() { return 1\u{0663} }").unwrap_err();
    assert_eq!(error.message, "Number 1\u{0663} is an invalid number");
    let error = parse("func main() { return 1.\u{0663} }").unwrap_err();
    assert_eq!(error.message, "Literal 1.\u{0663} is not a valid double.");
}

#[test]
fn decimal_literals_keep_their_text() {
    let statements = body("func main() { return 3.25 return 7. }");
    assert_eq!(
        statements,
        vec![
            node(NodeType::ReturnExpression(node(NodeType::DoubleLiteral("3.25".into())))),
            node(NodeType::ReturnExpression(node(NodeType::DoubleLiteral("7.".into())))),
        ]
    );
    let value: f64 = "3.25".parse().unwrap();
    assert_eq!(value, 3.25);
}

#[test]
fn second_decimal_point_is_a_lexical_error() {
    let error = parse("func main() { return 1.2.3 }").unwrap_err();
    assert_eq!(
        error.message,
        "Tokenizer error: 25:1 Cannot have more than one decimal in number."
    );
}

#[test]
fn keywords_are_recognised_by_their_text() {
    let statements = body("func main() { \"return\" 1 }");
    assert_eq!(
        statements,
        vec![node(NodeType::ReturnExpression(node(NodeType::Int8Literal(1))))]
    );
}
