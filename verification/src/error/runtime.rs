//! Errors of the execution engine.
use crate::parse::ast::NodeType;
use vstd::prelude::*;

verus! {

/// What went wrong while a program was run.
#[derive(Debug)]
pub struct RuntimeError {
    pub message: String,
}

/// The message of the error for a node of another kind than the engine
/// asked for.
pub open spec fn expected_node_message(wanted: Seq<char>, found: NodeType) -> Seq<char> {
    "Internal error! Expected node of type '"@ + wanted + "' but got '"@ + found.name_text()
        + "'"@
}

impl RuntimeError {
    /// An error with the given message.
    pub fn new(message: String) -> (r: Self)
        ensures
            r.message == message,
    {
        Self { message }
    }

    /// The error for a node of kind `actual_type` where one of kind
    /// `node_type` was asked for.
    pub fn expected_node_type(node_type: &str, actual_type: &NodeType) -> (r: Self)
        ensures
            r.message@ == expected_node_message(node_type@, *actual_type),
    {
        let mut message = String::from_str("Internal error! Expected node of type '");
        message.append(node_type);
        message.append("' but got '");
        message.append(actual_type.name());
        message.append("'");
        Self::new(message)
    }
}

} // verus!
