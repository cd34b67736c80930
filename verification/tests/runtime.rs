use stat_script::error::parser::ParserError;
use stat_script::error::runtime::RuntimeError;
use stat_script::lexer::tokenizer::Tokenizer;
use stat_script::parse::ast::{Node, NodeType};
use stat_script::parse::parser::StatParser;
use stat_script::runtime::frame::Frame;
use stat_script::runtime::program::Program;

fn program(source: &str) -> Program {
    Program::new(StatParser::new(Tokenizer::new(source.into())).parse().unwrap())
}

#[test]
fn a_program_with_main_runs() {
    assert!(program("func main() { }").execute().is_none());
    assert!(program("func main() { return 1 }").execute().is_none());
    assert!(program("func other() { } func main() { { } }").execute().is_none());
}

#[test]
fn a_program_without_main_does_not_run() {
    for source in ["", "func other() { }", "func Main() { } func mai() { }"] {
        let error = program(source).execute().unwrap();
        assert_eq!(error.message, "No main method present in top-level context.");
    }
    let no_program = Program::new(Node::block(vec![]));
    let error = no_program.execute().unwrap();
    assert_eq!(error.message, "No main method present in top-level context.");
}

#[test]
fn the_first_main_is_the_entry_point() {
    let program = program("func a() { } func main() { return \"x\" } func main() { }");
    let body = program.find_main_method().unwrap();
    assert_eq!(
        body,
        &Node::block(vec![Node::new(NodeType::ReturnExpression(Node::new(
            NodeType::StringLiteral("x".into())
        )))])
    );
    assert!(Program::new(Node::block(vec![])).find_main_method().is_none());
}

#[test]
fn only_a_function_definition_is_entered() {
    let program = program("func main() { { } { { } } }");
    let main = match &*program.ast.node_type {
        NodeType::Program(functions) => &functions[0],
        other => panic!("the root is {:?}", other),
    };
    assert!(program.execute_entrypoint(main).is_none());
    assert!(program.execute_node(program.find_main_method().unwrap()).is_none());
    assert!(program.execute_block(&vec![Node::block(vec![Node::block(vec![])])]).is_none());
    assert!(program.start().is_none());
    let error = program.execute_entrypoint(&program.ast).unwrap();
    assert_eq!(
        error.message,
        "Internal error! Expected node of type 'function definition' but got 'Program'"
    );
}

#[test]
fn runtime_errors_carry_their_message() {
    assert_eq!(RuntimeError::new("broken".into()).message, "broken");
    let error = RuntimeError::expected_node_type("block", &NodeType::Int8Literal(1));
    assert_eq!(error.message, "Internal error! Expected node of type 'block' but got 'Int8Literal'");
}

#[test]
fn variables_are_found_in_the_nearest_frame() {
    let mut outer: Frame<u32> = Frame::new(None);
    outer.variables.insert("x".to_string(), 1);
    outer.variables.insert("y".to_string(), 2);
    let mut middle = Frame::new(Some(&outer));
    middle.variables.insert("x".to_string(), 10);
    let inner = Frame::new(Some(&middle));
    assert!(inner.children.is_empty());
    assert_eq!(inner.find_variable("x"), Some(&10));
    assert_eq!(inner.find_variable("y"), Some(&2));
    assert_eq!(inner.find_variable("z"), None);
    assert_eq!(middle.find_variable("x"), Some(&10));
    assert_eq!(outer.find_variable("x"), Some(&1));
    assert_eq!(Frame::<u32>::new(None).find_variable("x"), None);
}

#[test]
fn a_parser_error_stands_at_the_current_token() {
    let mut parser = StatParser::new(Tokenizer::new("func  oops".into()));
    assert_eq!(parser.position(), 0);
    let error = ParserError::new(&parser, "nothing read".into());
    assert_eq!(error.position, 0);
    assert_eq!(error.message, "nothing read");
    let error = parser.parse().unwrap_err();
    assert_eq!(error.message, "Expected token");
    assert_eq!(error.position, 0);
    assert_eq!(parser.position(), 0);

    let mut parser = StatParser::new(Tokenizer::new("func  7".into()));
    parser.parse().unwrap_err();
    assert_eq!(parser.position(), 7);
    assert_eq!(ParserError::new(&parser, "here".into()).position, 7);
}
