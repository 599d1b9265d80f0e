//! Documentation trees, as far as the audit logic reads them.
use crate::domain::path::ProjectPath;
use crate::domain::topic::Topic;
use vstd::prelude::*;

verus! {

/// A node of a documentation file.
#[derive(Debug)]
pub struct DocumentationNode {
    pub topic: Topic,
    /// Where the node starts in its file.
    pub position: Option<usize>,
    pub children: Vec<DocumentationNode>,
}

impl DocumentationNode {
    pub fn position(&self) -> (r: Option<usize>)
        ensures
            r == self.position,
    {
        self.position
    }
}

/// The tree of one documentation file.
#[derive(Debug)]
pub struct DocumentationAST {
    pub nodes: Vec<DocumentationNode>,
    pub project_path: ProjectPath,
}

} // verus!
