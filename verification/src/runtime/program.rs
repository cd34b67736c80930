//! A parsed program as the execution engine receives it.
use crate::error::runtime::{expected_node_message, RuntimeError};
use crate::parse::ast::{Ast, Node, NodeType};
use vstd::prelude::*;

verus! {

/// A program that is about to be run.
pub struct Program {
    pub ast: Node,
}

/// The name of the function with which a program begins.
pub open spec fn main_text() -> Seq<char> {
    "main"@
}

/// The message of the error for a program without entry point.
pub open spec fn no_main_message() -> Seq<char> {
    "No main method present in top-level context."@
}

/// The body of the first function called `main` among `items` from index
/// `from` on.
pub open spec fn first_main(items: Seq<Ast>, from: int) -> Option<Ast>
    decreases items.len() - from,
{
    if from < 0 || from >= items.len() {
        None
    } else {
        match items[from] {
            Ast::FunctionDefinition { name, body, .. } => if name == main_text() {
                Some(*body)
            } else {
                first_main(items, from + 1)
            },
            _ => first_main(items, from + 1),
        }
    }
}

/// The body of the entry point of `tree`: of the first function called
/// `main` among the children of the program.
pub open spec fn main_body(tree: Ast) -> Option<Ast> {
    match tree {
        Ast::Program(items) => first_main(items, 0),
        _ => None,
    }
}

/// Whether the engine can run `tree`: it is a block that holds nothing but
/// such blocks. Statements of any other kind have no meaning to it yet.
pub open spec fn is_block_tree(tree: Ast) -> bool
    decreases tree,
{
    tree matches Ast::Block(items) && forall|i: int|
        0 <= i < items.len() ==> is_block_tree(#[trigger] items[i])
}

/// Whether the engine can enter `tree`: if it is a function definition, its
/// body can be run.
pub open spec fn can_enter(tree: Ast) -> bool {
    tree matches Ast::FunctionDefinition { body, .. } ==> is_block_tree(*body)
}

impl Program {
    /// The program with the given tree.
    pub fn new(ast: Node) -> (r: Self)
        ensures
            r.ast == ast,
    {
        Self { ast }
    }

    /// Runs the program from `start` on. What the entry point reports is not
    /// handed on.
    pub fn start(&self) -> (r: Option<RuntimeError>)
        requires
            can_enter(self.ast@),
        ensures
            r is None,
    {
        let _ = self.execute_entrypoint(&self.ast);
        None
    }

    /// Runs the body of the function definition `node`; any other node is an
    /// error.
    pub fn execute_entrypoint(&self, node: &Node) -> (r: Option<RuntimeError>)
        requires
            can_enter(node@),
        ensures
            node@ is FunctionDefinition ==> r is None,
            !(node@ is FunctionDefinition) ==> (r matches Some(error) && error.message@
                == expected_node_message("function definition"@, *node.node_type)),
    {
        match &*node.node_type {
            NodeType::FunctionDefinition(definition) => self.execute_node(&definition.body),
            other => Some(RuntimeError::expected_node_type("function definition", other)),
        }
    }

    /// Runs a node that the engine can run.
    pub fn execute_node(&self, node: &Node) -> (r: Option<RuntimeError>)
        requires
            is_block_tree(node@),
        ensures
            r is None,
        decreases node,
    {
        match &*node.node_type {
            NodeType::Block(nodes) => {
                assert forall|i: int| 0 <= i < nodes.len() implies is_block_tree(
                    #[trigger] nodes[i]@,
                ) by {
                    assert(node@->Block_0[i] == nodes[i]@);
                }
                self.execute_block(nodes)
            },
            _ => None,
        }
    }

    /// Runs the nodes of a block, one after the other, up to the first error.
    pub fn execute_block(&self, inner_nodes: &Vec<Node>) -> (r: Option<RuntimeError>)
        requires
            forall|i: int| 0 <= i < inner_nodes.len() ==> is_block_tree(#[trigger] inner_nodes[i]@),
        ensures
            r is None,
        decreases inner_nodes,
    {
        let mut i: usize = 0;
        while i < inner_nodes.len()
            invariant
                forall|i: int|
                    0 <= i < inner_nodes.len() ==> is_block_tree(#[trigger] inner_nodes[i]@),
            decreases inner_nodes.len() - i,
        {
            match self.execute_node(&inner_nodes[i]) {
                Some(error) => {
                    return Some(error);
                },
                None => {},
            }
            i = i + 1;
        }
        None
    }

    /// Runs the program: it must have a function called `main`.
    pub fn execute(&self) -> (r: Option<RuntimeError>)
        ensures
            r is None <==> main_body(self.ast@) is Some,
            r matches Some(error) ==> error.message@ == no_main_message(),
    {
        let main_method = self.find_main_method();
        if main_method.is_none() {
            return Some(
                RuntimeError::new(String::from_str("No main method present in top-level context.")),
            );
        }
        self.start()
    }

    /// The body of the first function called `main` among the children of
    /// the program.
    pub fn find_main_method(&self) -> (r: Option<&Node>)
        ensures
            match r {
                Some(body) => main_body(self.ast@) == Some(body@),
                None => main_body(self.ast@) is None,
            },
    {
        match &*self.ast.node_type {
            NodeType::Program(nodes) => {
                let ghost items = self.ast@->Program_0;
                let mut i: usize = 0;
                while i < nodes.len()
                    invariant
                        i <= nodes.len(),
                        self.ast@ == Ast::Program(items),
                        items.len() == nodes.len(),
                        forall|k: int| 0 <= k < nodes.len() ==> items[k] == (#[trigger] nodes[k])@,
                        first_main(items, i as int) == first_main(items, 0),
                    decreases nodes.len() - i,
                {
                    match &*nodes[i].node_type {
                        NodeType::FunctionDefinition(definition) => {
                            if definition.name == String::from_str("main") {
                                return Some(&definition.body);
                            }
                        },
                        _ => {},
                    }
                    i = i + 1;
                }
                None
            },
            _ => None,
        }
    }
}

} // verus!
