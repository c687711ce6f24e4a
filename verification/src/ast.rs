//! The syntax tree that the parser builds, and its mathematical model.

use vstd::prelude::*;
use crate::span::Slice;

verus! {

/// The operator of a binary expression. The parser makes the operators
/// that a token denotes; no token denotes `And`, `Or`, `Not` or `Assign`.
#[derive(Clone, Copy, Debug, PartialEq, Eq, Structural)]
pub enum Operator {
    Add,
    Sub,
    Mul,
    Div,
    Mod,
    Pow,
    Eq,
    Ne,
    Lt,
    Le,
    Gt,
    Ge,
    And,
    Or,
    Not,
    Assign,
}

/// The type that a parameter or a function result is declared with. The
/// parser makes the four types that a name spells: `String`, `Integer`,
/// `Float` and `Char`.
#[derive(Debug, PartialEq, Eq)]
pub enum NodeType {
    String,
    Integer,
    Float,
    Char,
    Bool,
    Void,
    /// The type of a function with the given parameter and result types.
    Fn { args: Vec<NodeType>, ret: Box<NodeType> },
}

/// What an import brings in.
#[derive(Debug, PartialEq, Eq)]
pub enum ImportMember {
    /// The whole module under one name: `import name from ...`.
    All(Slice),
    /// Every member of the module: `import * from ...`.
    Wildcard,
    /// The members listed in parentheses: `import (a, b) from ...`.
    Named(Vec<Slice>),
}

/// A node of the syntax tree. Names and literal texts are byte ranges into
/// the source; a string's range excludes its quotes.
#[derive(Debug, PartialEq, Eq)]
pub enum Node {
    String(Slice),
    Integer(i32),
    Float(Slice),
    Char(char),
    Boolean(bool),
    Null,
    Undefined,
    Identifier(Slice),
    Atom(Slice),
    Import { path: Slice, members: ImportMember },
    ConstDeclaration { name: Slice, value: Box<Node> },
    FunctionDeclaration {
        name: Slice,
        params: Vec<(Slice, NodeType)>,
        return_type: NodeType,
        body: Box<Node>,
    },
    Block(Vec<Node>),
    Call { callee: Slice, args: Vec<Node> },
    BinaryExpr { left: Box<Node>, op: Operator, right: Box<Node> },
}

/// The result of a parse: the statements of a program, by kind, each kind in
/// source order.
#[derive(Debug, PartialEq, Eq)]
pub struct TopLevel {
    pub imports: Vec<Node>,
    pub consts: Vec<Node>,
    pub functions: Vec<Node>,
}

/// The model of `ImportMember`.
pub ghost enum Members {
    All(Slice),
    Wildcard,
    Named(Seq<Slice>),
}

/// The model of `Node`: the same tree, with sequences for vectors.
pub ghost enum Tree {
    String(Slice),
    Integer(i32),
    Float(Slice),
    Char(char),
    Boolean(bool),
    Null,
    Undefined,
    Identifier(Slice),
    Atom(Slice),
    Import { path: Slice, members: Members },
    ConstDeclaration { name: Slice, value: Box<Tree> },
    FunctionDeclaration {
        name: Slice,
        params: Seq<(Slice, NodeType)>,
        return_type: NodeType,
        body: Box<Tree>,
    },
    Block(Seq<Tree>),
    Call { callee: Slice, args: Seq<Tree> },
    BinaryExpr { left: Box<Tree>, op: Operator, right: Box<Tree> },
}

/// The model of `TopLevel`.
pub ghost struct Program {
    pub imports: Seq<Tree>,
    pub consts: Seq<Tree>,
    pub functions: Seq<Tree>,
}

impl View for ImportMember {
    type V = Members;

    open spec fn view(&self) -> Members {
        match self {
            ImportMember::All(name) => Members::All(*name),
            ImportMember::Wildcard => Members::Wildcard,
            ImportMember::Named(names) => Members::Named(names@),
        }
    }
}

/// The models of a sequence of nodes.
pub open spec fn trees(nodes: Seq<Node>) -> Seq<Tree>
    decreases nodes,
{
    Seq::new(
        nodes.len(),
        |i: int|
            if 0 <= i < nodes.len() {
                tree_of(nodes[i])
            } else {
                Tree::Null
            },
    )
}

/// The model of a node.
pub open spec fn tree_of(node: Node) -> Tree
    decreases node,
{
    match node {
        Node::String(s) => Tree::String(s),
        Node::Integer(i) => Tree::Integer(i),
        Node::Float(s) => Tree::Float(s),
        Node::Char(c) => Tree::Char(c),
        Node::Boolean(b) => Tree::Boolean(b),
        Node::Null => Tree::Null,
        Node::Undefined => Tree::Undefined,
        Node::Identifier(s) => Tree::Identifier(s),
        Node::Atom(s) => Tree::Atom(s),
        Node::Import { path, members } => Tree::Import { path, members: members@ },
        Node::ConstDeclaration { name, value } => Tree::ConstDeclaration {
            name,
            value: Box::new(tree_of(*value)),
        },
        Node::FunctionDeclaration { name, params, return_type, body } => Tree::FunctionDeclaration {
            name,
            params: params@,
            return_type,
            body: Box::new(tree_of(*body)),
        },
        Node::Block(items) => Tree::Block(trees(items@)),
        Node::Call { callee, args } => Tree::Call { callee, args: trees(args@) },
        Node::BinaryExpr { left, op, right } => Tree::BinaryExpr {
            left: Box::new(tree_of(*left)),
            op,
            right: Box::new(tree_of(*right)),
        },
    }
}

impl View for Node {
    type V = Tree;

    open spec fn view(&self) -> Tree {
        tree_of(*self)
    }
}

impl View for TopLevel {
    type V = Program;

    open spec fn view(&self) -> Program {
        Program {
            imports: trees(self.imports@),
            consts: trees(self.consts@),
            functions: trees(self.functions@),
        }
    }
}

/// Appending a node appends its model.
pub proof fn lemma_trees_push(nodes: Seq<Node>, node: Node)
    ensures
        trees(nodes.push(node)) == trees(nodes).push(tree_of(node)),
{
    assert(trees(nodes.push(node)) =~= trees(nodes).push(tree_of(node)));
}

/// No nodes, no models.
pub proof fn lemma_trees_empty()
    ensures
        trees(Seq::<Node>::empty()) == Seq::<Tree>::empty(),
{
    assert(trees(Seq::<Node>::empty()) =~= Seq::<Tree>::empty());
}

} // verus!
