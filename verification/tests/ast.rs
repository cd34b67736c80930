use stat_script::parse::ast::{
    Argument, Arguments, FunctionCall, FunctionDefinition, FunctionParameter, Node, NodeType,
    UnaryType, VariableDeclaration,
};

fn text(value: &str) -> Node {
    Node::new(NodeType::StringLiteral(value.into()))
}

#[test]
fn nodes_own_their_kind() {
    assert_eq!(*Node::new(NodeType::Int8Literal(3)).node_type, NodeType::Int8Literal(3));
    assert_eq!(
        Node::program(vec![text("a")]),
        Node { node_type: Box::new(NodeType::Program(vec![text("a")])) }
    );
    assert_eq!(
        Node::block(vec![text("a"), text("b")]),
        Node { node_type: Box::new(NodeType::Block(vec![text("a"), text("b")])) }
    );
    assert_eq!(Node::block(vec![]), Node::new(NodeType::Block(vec![])));
}

#[test]
fn arguments_are_found_by_name() {
    let mut arguments = Arguments::new();
    assert!(arguments.entries().is_empty());
    assert_eq!(arguments.get("a"), None);
    arguments.insert("a".into(), text("1"));
    arguments.insert("b".into(), text("2"));
    assert_eq!(arguments.get("a"), Some(&text("1")));
    assert_eq!(arguments.get("b"), Some(&text("2")));
    assert_eq!(arguments.get("c"), None);
    assert_eq!(arguments.get(""), None);
    assert_eq!(arguments.entries().len(), 2);
}

#[test]
fn a_later_argument_replaces_an_earlier_one() {
    let mut arguments = Arguments::new();
    arguments.insert("a".into(), text("1"));
    arguments.insert("b".into(), text("2"));
    arguments.insert("a".into(), text("3"));
    assert_eq!(arguments.get("a"), Some(&text("3")));
    assert_eq!(arguments.get("b"), Some(&text("2")));
    assert_eq!(
        arguments.entries(),
        &vec![
            Argument { name: "a".into(), value: text("3") },
            Argument { name: "b".into(), value: text("2") },
        ]
    );
}

#[test]
fn kinds_of_node_have_names() {
    let parameter = FunctionParameter::default();
    assert_eq!(parameter.param_name, "");
    let kinds = vec![
        (NodeType::Program(vec![]), "Program"),
        (NodeType::Block(vec![]), "Block"),
        (NodeType::StringLiteral("s".into()), "StringLiteral"),
        (NodeType::Int8Literal(1), "Int8Literal"),
        (NodeType::Int16Literal(1), "Int16Literal"),
        (NodeType::Int32Literal(1), "Int32Literal"),
        (NodeType::Int64Literal(1), "Int64Literal"),
        (NodeType::Int128Literal(1), "Int128Literal"),
        (NodeType::DoubleLiteral("1.5".into()), "DoubleLiteral"),
        (NodeType::ReturnExpression(text("r")), "ReturnExpression"),
        (NodeType::UnaryNode(UnaryType::Not, text("u")), "UnaryNode"),
        (
            NodeType::FunctionDefinition(FunctionDefinition {
                name: "f".into(),
                signature: vec![parameter],
                return_type: "Nothing".into(),
                body: Node::block(vec![]),
            }),
            "FunctionDefinition",
        ),
        (
            NodeType::VariableDeclaration(VariableDeclaration {
                name: "v".into(),
                variable_type: None,
                value: text("x"),
            }),
            "VariableDeclaration",
        ),
        (
            NodeType::FunctionCall(FunctionCall {
                builtin: true,
                name: "c".into(),
                parameters: Arguments::new(),
            }),
            "FunctionCall",
        ),
    ];
    for (kind, name) in kinds {
        assert_eq!(kind.name(), name);
    }
}
