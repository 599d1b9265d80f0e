//! Nodes of Rust syntax trees. Only the file root exists so far.
use crate::domain::path::ProjectPath;
use vstd::prelude::*;

verus! {

/// The syntax tree of one Rust file.
#[derive(Debug)]
pub struct RustAST {
    pub node_id: i32,
    pub nodes: Vec<ASTNode>,
    pub project_path: ProjectPath,
}

/// A stretch of a Rust file.
#[derive(Debug, Clone, Copy, PartialEq, Eq, Hash, Structural)]
pub struct SourceLocation {
    pub start: Option<usize>,
    pub length: Option<usize>,
    pub index: Option<usize>,
}

#[derive(Debug)]
pub enum ASTNode {
    /// The file root.
    SourceFile { node_id: i32, src_location: SourceLocation, items: Vec<ASTNode> },
}

impl ASTNode {
    pub open spec fn location(self) -> SourceLocation {
        match self {
            ASTNode::SourceFile { src_location, .. } => src_location,
        }
    }

    pub fn src_location(&self) -> (r: &SourceLocation)
        ensures
            *r == self.location(),
    {
        match self {
            ASTNode::SourceFile { src_location, .. } => src_location,
        }
    }

    pub fn node_id(&self) -> (r: i32)
        ensures
            r == match self {
                ASTNode::SourceFile { node_id, .. } => *node_id,
            },
    {
        match self {
            ASTNode::SourceFile { node_id, .. } => *node_id,
        }
    }
}

} // verus!
