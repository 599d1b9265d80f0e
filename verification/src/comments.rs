//! Comment text, parsed into nodes.
use crate::domain::kinds::NamedTopicKind;
use crate::domain::topic::Topic;
use vstd::prelude::*;

verus! {

/// A piece of a comment.
#[derive(Debug)]
pub enum CommentNode {
    Text { value: String },
    InlineCode { children: Vec<CommentNode> },
    CodeKeyword { value: String },
    CodeOperator { value: String },
    /// An identifier in code, with the declaration that it refers to.
    CodeIdentifier {
        value: String,
        referenced_topic: Option<Topic>,
        kind: Option<NamedTopicKind>,
        referenced_name: Option<String>,
    },
    CodeText { value: String },
    Emphasis { text: String },
    Strong { text: String },
    Link { url: String, text: String },
}

} // verus!
