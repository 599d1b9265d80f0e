//! Nodes and trees of every language an audit holds.
use crate::comments::CommentNode;
use crate::documentation::{DocumentationAST, DocumentationNode};
use crate::solidity::ast::location_of;
use vstd::prelude::*;

verus! {

#[derive(Debug)]
pub enum Node {
    Solidity(crate::solidity::ast::ASTNode),
    Documentation(DocumentationNode),
    Comment(Vec<CommentNode>),
    Rust(crate::rust::ast::ASTNode),
}

impl Node {
    /// Where in its source a node starts.
    pub open spec fn start(self) -> Option<usize> {
        match self {
            Node::Solidity(n) => location_of(&n).start,
            Node::Documentation(n) => n.position,
            Node::Comment(_) => None,
            Node::Rust(n) => n.location().start,
        }
    }

    /// Where in its source this node starts. A comment has no such place.
    pub fn source_location_start(&self) -> (r: Option<usize>)
        ensures
            r == self.start(),
    {
        match self {
            Node::Solidity(n) => n.src_location().start,
            Node::Documentation(n) => n.position(),
            Node::Comment(_) => None,
            Node::Rust(n) => n.src_location().start,
        }
    }
}

#[derive(Debug)]
pub enum AST {
    Solidity(crate::solidity::ast::SolidityAST),
    Documentation(DocumentationAST),
    Rust(crate::rust::ast::RustAST),
}

} // verus!
