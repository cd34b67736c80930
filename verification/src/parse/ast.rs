//! The syntax tree.
//!
//! A [`Node`] owns its children. Its mathematical value is an [`Ast`], in
//! which texts are sequences of characters, lists are sequences and the
//! arguments of a call are a map from names to trees.
use vstd::prelude::*;

verus! {

/// The unary operators.
#[derive(Debug, Clone, Copy, PartialEq, Eq, Structural)]
pub enum UnaryType {
    Not,
}

/// A declared parameter of a function.
#[derive(Debug, Clone, PartialEq, Default)]
pub struct FunctionParameter {
    pub param_type: String,
    pub param_name: String,
}

/// The mathematical value of a [`FunctionParameter`].
pub ghost struct ParameterView {
    pub param_type: Seq<char>,
    pub param_name: Seq<char>,
}

impl View for FunctionParameter {
    type V = ParameterView;

    open spec fn view(&self) -> ParameterView {
        ParameterView { param_type: self.param_type@, param_name: self.param_name@ }
    }
}

/// A function with its body, which is a block.
#[derive(Debug, PartialEq)]
pub struct FunctionDefinition {
    pub name: String,
    pub signature: Vec<FunctionParameter>,
    /// The declared return type, or `Nothing` where none is declared.
    pub return_type: String,
    pub body: Node,
}

/// A call with named arguments.
#[derive(Debug, PartialEq)]
pub struct FunctionCall {
    /// Whether the callee is a primitive of the language.
    pub builtin: bool,
    pub name: String,
    pub parameters: Arguments,
}

/// The declaration of a variable with its first value.
#[derive(Debug, PartialEq)]
pub struct VariableDeclaration {
    pub name: String,
    /// The declared type; `None` where the type is taken from the value.
    pub variable_type: Option<String>,
    pub value: Node,
}

/// A node of the syntax tree.
#[derive(Debug, PartialEq)]
pub struct Node {
    pub node_type: Box<NodeType>,
}

/// What a node is.
#[derive(Debug, PartialEq)]
pub enum NodeType {
    /// The whole source: a list of function definitions.
    Program(Vec<Node>),
    /// A sequence of statements in braces.
    Block(Vec<Node>),
    StringLiteral(String),
    Int8Literal(u8),
    Int16Literal(u16),
    Int32Literal(u32),
    Int64Literal(u64),
    Int128Literal(u128),
    /// A number with a decimal point, kept as the digits and the point of
    /// the source.
    DoubleLiteral(String),
    ReturnExpression(Node),
    UnaryNode(UnaryType, Node),
    FunctionDefinition(FunctionDefinition),
    VariableDeclaration(VariableDeclaration),
    FunctionCall(FunctionCall),
}

impl NodeType {
    /// The name of the kind of node, as it is written in messages.
    pub open spec fn name_text(self) -> Seq<char> {
        match self {
            NodeType::Program(_) => "Program"@,
            NodeType::Block(_) => "Block"@,
            NodeType::StringLiteral(_) => "StringLiteral"@,
            NodeType::Int8Literal(_) => "Int8Literal"@,
            NodeType::Int16Literal(_) => "Int16Literal"@,
            NodeType::Int32Literal(_) => "Int32Literal"@,
            NodeType::Int64Literal(_) => "Int64Literal"@,
            NodeType::Int128Literal(_) => "Int128Literal"@,
            NodeType::DoubleLiteral(_) => "DoubleLiteral"@,
            NodeType::ReturnExpression(_) => "ReturnExpression"@,
            NodeType::UnaryNode(_, _) => "UnaryNode"@,
            NodeType::FunctionDefinition(_) => "FunctionDefinition"@,
            NodeType::VariableDeclaration(_) => "VariableDeclaration"@,
            NodeType::FunctionCall(_) => "FunctionCall"@,
        }
    }

    /// The name of the kind of node, as it is written in messages.
    pub fn name(&self) -> (r: &'static str)
        ensures
            r@ == self.name_text(),
    {
        match self {
            NodeType::Program(_) => "Program",
            NodeType::Block(_) => "Block",
            NodeType::StringLiteral(_) => "StringLiteral",
            NodeType::Int8Literal(_) => "Int8Literal",
            NodeType::Int16Literal(_) => "Int16Literal",
            NodeType::Int32Literal(_) => "Int32Literal",
            NodeType::Int64Literal(_) => "Int64Literal",
            NodeType::Int128Literal(_) => "Int128Literal",
            NodeType::DoubleLiteral(_) => "DoubleLiteral",
            NodeType::ReturnExpression(_) => "ReturnExpression",
            NodeType::UnaryNode(_, _) => "UnaryNode",
            NodeType::FunctionDefinition(_) => "FunctionDefinition",
            NodeType::VariableDeclaration(_) => "VariableDeclaration",
            NodeType::FunctionCall(_) => "FunctionCall",
        }
    }
}

/// One named argument of a call.
#[derive(Debug, PartialEq)]
pub struct Argument {
    pub name: String,
    pub value: Node,
}

/// The arguments of a call, by name. A name that is given again replaces the
/// value that it had.
#[derive(Debug, PartialEq)]
pub struct Arguments {
    entries: Vec<Argument>,
}

/// The mathematical value of a [`Node`].
pub ghost enum Ast {
    Program(Seq<Ast>),
    Block(Seq<Ast>),
    StringLiteral(Seq<char>),
    Int8Literal(u8),
    Int16Literal(u16),
    Int32Literal(u32),
    Int64Literal(u64),
    Int128Literal(u128),
    DoubleLiteral(Seq<char>),
    ReturnExpression(Box<Ast>),
    UnaryNode(UnaryType, Box<Ast>),
    FunctionDefinition {
        name: Seq<char>,
        signature: Seq<ParameterView>,
        return_type: Seq<char>,
        body: Box<Ast>,
    },
    VariableDeclaration { name: Seq<char>, variable_type: Option<Seq<char>>, value: Box<Ast> },
    FunctionCall { builtin: bool, name: Seq<char>, parameters: Map<Seq<char>, Ast> },
}

/// The values of a list of parameters.
pub open spec fn parameter_views(parameters: Seq<FunctionParameter>) -> Seq<ParameterView> {
    Seq::new(parameters.len(), |i: int| parameters[i]@)
}

/// The values of a list of nodes.
pub open spec fn node_views(nodes: Seq<Node>) -> Seq<Ast> {
    Seq::new(nodes.len(), |i: int| nodes[i]@)
}

/// The last index below `below` at which an argument called `name` stands,
/// or -1 if there is none.
pub open spec fn last_place(entries: Seq<Argument>, name: Seq<char>, below: int) -> int
    decreases below,
{
    if below <= 0 {
        -1
    } else if entries[below - 1].name@ == name {
        below - 1
    } else {
        last_place(entries, name, below - 1)
    }
}

/// `last_place` finds an argument of the name, and the last one below the
/// bound.
pub proof fn lemma_last_place(entries: Seq<Argument>, name: Seq<char>, below: int)
    requires
        below <= entries.len(),
    ensures
        -1 <= last_place(entries, name, below) < below || (below < 0 && last_place(
            entries,
            name,
            below,
        ) == -1),
        last_place(entries, name, below) >= 0 ==> entries[last_place(entries, name, below)].name@
            == name,
        forall|j: int|
            last_place(entries, name, below) < j < below && 0 <= j ==> (#[trigger] entries[j]).name@
                != name,
    decreases below,
{
    if below > 0 && entries[below - 1].name@ != name {
        lemma_last_place(entries, name, below - 1);
    }
}

/// Two lists whose names agree index by index below the bound have their
/// arguments of each name at the same places.
pub proof fn lemma_last_place_by_names(
    a: Seq<Argument>,
    b: Seq<Argument>,
    name: Seq<char>,
    below: int,
)
    requires
        below <= a.len(),
        below <= b.len(),
        forall|j: int| 0 <= j < below ==> (#[trigger] a[j]).name@ == (#[trigger] b[j]).name@,
    ensures
        last_place(a, name, below) == last_place(b, name, below),
    decreases below,
{
    if below > 0 {
        if a[below - 1].name@ != name {
            lemma_last_place_by_names(a, b, name, below - 1);
        }
    }
}

/// The map that a list of arguments stands for: each name with the value of
/// the last argument of that name.
pub open spec fn entries_map(entries: Seq<Argument>) -> Map<Seq<char>, Ast> {
    Map::new(
        |name: Seq<char>| last_place(entries, name, entries.len() as int) >= 0,
        |name: Seq<char>| entries[last_place(entries, name, entries.len() as int)].value@,
    )
}

impl Arguments {
    /// The place of the argument of this name that was given last, or -1.
    pub closed spec fn place(&self, name: Seq<char>) -> int {
        last_place(self.entries@, name, self.entries.len() as int)
    }

    /// The arguments as a map from names to values. Of two arguments of
    /// one name the later counts.
    pub closed spec fn view(&self) -> Map<Seq<char>, Ast>
        decreases self,
    {
        Map::new(
            |name: Seq<char>| self.place(name) >= 0,
            |name: Seq<char>|
                {
                    let i = self.place(name);
                    if 0 <= i < self.entries.len() {
                        self.entries[i].value.view()
                    } else {
                        Ast::Block(Seq::empty())
                    }
                },
        )
    }

    /// Whether no name stands twice in the list.
    pub closed spec fn names_unique(&self) -> bool {
        forall|i: int, j: int|
            0 <= i < j < self.entries.len() ==> (#[trigger] self.entries[i]).name@ != (
            #[trigger] self.entries[j]).name@
    }

    /// No arguments.
    pub fn new() -> (r: Arguments)
        ensures
            r@ == Map::<Seq<char>, Ast>::empty(),
            r.names_unique(),
    {
        let r = Arguments { entries: Vec::new() };
        r
    }

    /// Gives the argument `name` the value `value`, whether or not it had
    /// one.
    pub fn insert(&mut self, name: String, value: Node)
        ensures
            final(self)@ == old(self)@.insert(name@, value@),
            old(self).names_unique() ==> final(self).names_unique(),
    {
        let ghost before = self.entries@;
        let ghost key = name@;
        let ghost tree = value@;
        let mut i = self.entries.len();
        while i > 0
            invariant
                i <= self.entries.len(),
                self.entries@ == before,
                old(self).entries@ == before,
                key == name@,
                tree == value@,
                last_place(before, key, before.len() as int) == last_place(before, key, i as int),
            decreases i,
        {
            i = i - 1;
            if self.entries[i].name == name {
                self.entries.set(i, Argument { name, value });
                proof {
                    let after = self.entries@;
                    assert forall|k: Seq<char>|
                        {
                            let place = #[trigger] last_place(after, k, after.len() as int);
                            &&& place == last_place(before, k, before.len() as int)
                            &&& place < after.len()
                            &&& (place == i <==> k == key)
                        } by {
                        lemma_last_place_by_names(after, before, k, before.len() as int);
                        lemma_last_place(before, k, before.len() as int);
                    }
                    assert(self@ =~= old(self)@.insert(key, tree));
                    assert forall|a: int, b: int| 0 <= a < after.len() && 0 <= b < after.len()
                        && (#[trigger] before[a]).name@ != (#[trigger] before[b]).name@ implies (
                    #[trigger] after[a]).name@ != (#[trigger] after[b]).name@ by {}
                }
                return ;
            }
        }
        self.entries.push(Argument { name, value });
        proof {
            let after = self.entries@;
            assert forall|k: Seq<char>| k != key implies last_place(after, k, after.len() as int)
                == last_place(before, k, before.len() as int) by {
                lemma_last_place_by_names(after, before, k, before.len() as int);
            }
            assert forall|k: Seq<char>|
                last_place(before, k, before.len() as int) < before.len() by {
                lemma_last_place(before, k, before.len() as int);
            }
            assert(self@ =~= old(self)@.insert(key, tree));
            if old(self).names_unique() {
                lemma_last_place(before, key, before.len() as int);
            }
        }
    }

    /// The value of the argument `name`, if it has one.
    pub fn get(&self, name: &str) -> (r: Option<&Node>)
        ensures
            r is Some <==> self@.contains_key(name@),
            r matches Some(node) ==> node@ == self@[name@],
    {
        let wanted = String::from_str(name);
        let mut i = self.entries.len();
        while i > 0
            invariant
                i <= self.entries.len(),
                wanted@ == name@,
                self.place(name@) == last_place(self.entries@, name@, i as int),
            decreases i,
        {
            i = i - 1;
            if self.entries[i].name == wanted {
                return Some(&self.entries[i].value);
            }
        }
        None
    }

    /// The arguments in the order in which their names were first given.
    pub fn entries(&self) -> (r: &Vec<Argument>)
        ensures
            self@ == entries_map(r@),
            self.names_unique() ==> forall|i: int, j: int|
                0 <= i < j < r.len() ==> (#[trigger] r[i]).name@ != (#[trigger] r[j]).name@,
    {
        assert forall|k: Seq<char>| #[trigger] self.place(k) < self.entries.len() by {
            lemma_last_place(self.entries@, k, self.entries.len() as int);
        }
        &self.entries
    }
}

impl Node {
    /// The tree that this node stands for.
    pub open spec fn view(&self) -> Ast
        decreases self,
    {
        match *self.node_type {
            NodeType::Program(nodes) => Ast::Program(
                Seq::new(
                    nodes.len() as nat,
                    |i: int|
                        if 0 <= i < nodes.len() {
                            nodes[i].view()
                        } else {
                            Ast::Block(Seq::empty())
                        },
                ),
            ),
            NodeType::Block(nodes) => Ast::Block(
                Seq::new(
                    nodes.len() as nat,
                    |i: int|
                        if 0 <= i < nodes.len() {
                            nodes[i].view()
                        } else {
                            Ast::Block(Seq::empty())
                        },
                ),
            ),
            NodeType::StringLiteral(text) => Ast::StringLiteral(text@),
            NodeType::Int8Literal(n) => Ast::Int8Literal(n),
            NodeType::Int16Literal(n) => Ast::Int16Literal(n),
            NodeType::Int32Literal(n) => Ast::Int32Literal(n),
            NodeType::Int64Literal(n) => Ast::Int64Literal(n),
            NodeType::Int128Literal(n) => Ast::Int128Literal(n),
            NodeType::DoubleLiteral(text) => Ast::DoubleLiteral(text@),
            NodeType::ReturnExpression(value) => Ast::ReturnExpression(Box::new(value.view())),
            NodeType::UnaryNode(operator, operand) => Ast::UnaryNode(
                operator,
                Box::new(operand.view()),
            ),
            NodeType::FunctionDefinition(definition) => Ast::FunctionDefinition {
                name: definition.name@,
                signature: parameter_views(definition.signature@),
                return_type: definition.return_type@,
                body: Box::new(definition.body.view()),
            },
            NodeType::VariableDeclaration(declaration) => Ast::VariableDeclaration {
                name: declaration.name@,
                variable_type: match declaration.variable_type {
                    Some(text) => Some(text@),
                    None => None,
                },
                value: Box::new(declaration.value.view()),
            },
            NodeType::FunctionCall(call) => Ast::FunctionCall {
                builtin: call.builtin,
                name: call.name@,
                parameters: call.parameters.view(),
            },
        }
    }

    /// A node of the given kind.
    pub fn new(node_type: NodeType) -> (r: Node)
        ensures
            *r.node_type == node_type,
    {
        Node { node_type: Box::new(node_type) }
    }

    /// The program that consists of `functions`.
    pub fn program(functions: Vec<Node>) -> (r: Node)
        ensures
            r@ == Ast::Program(node_views(functions@)),
    {
        let ghost expected = node_views(functions@);
        let r = Node { node_type: Box::new(NodeType::Program(functions)) };
        assert(r@->Program_0 =~= expected);
        r
    }

    /// The block that consists of `statements`.
    pub fn block(statements: Vec<Node>) -> (r: Node)
        ensures
            r@ == Ast::Block(node_views(statements@)),
    {
        let ghost expected = node_views(statements@);
        let r = Node { node_type: Box::new(NodeType::Block(statements)) };
        assert(r@->Block_0 =~= expected);
        r
    }
}

} // verus!
