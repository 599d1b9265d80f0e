//! The delimiters of control flow statements.
use crate::domain::topic::{new_node_topic, Topic};
use crate::solidity::ast::{id_of, ASTNode};
use vstd::prelude::*;

verus! {

/// A control flow statement with delimiters.
#[derive(Debug, Clone, Copy, PartialEq, Eq, Structural)]
pub enum DelimiterKind {
    If,
    For,
    While,
    DoWhile,
}

/// What is needed to render the delimiters of a statement: its kind, its topic
/// and the topic of its condition.
#[derive(Debug, Clone, Copy, PartialEq, Eq, Structural)]
pub struct DelimiterInfo {
    pub kind: DelimiterKind,
    pub node_topic: Topic,
    pub condition_topic: Topic,
}

pub open spec fn delimiter_info(node: &ASTNode) -> Option<DelimiterInfo> {
    match node {
        ASTNode::IfStatement { condition, .. } => Some(
            DelimiterInfo {
                kind: DelimiterKind::If,
                node_topic: Topic::Node(id_of(node)),
                condition_topic: Topic::Node(id_of(&**condition)),
            },
        ),
        ASTNode::ForStatement { condition, .. } => Some(
            DelimiterInfo {
                kind: DelimiterKind::For,
                node_topic: Topic::Node(id_of(node)),
                condition_topic: Topic::Node(id_of(&**condition)),
            },
        ),
        ASTNode::WhileStatement { condition, .. } => Some(
            DelimiterInfo {
                kind: DelimiterKind::While,
                node_topic: Topic::Node(id_of(node)),
                condition_topic: Topic::Node(id_of(&**condition)),
            },
        ),
        ASTNode::DoWhileStatement { condition, .. } => Some(
            DelimiterInfo {
                kind: DelimiterKind::DoWhile,
                node_topic: Topic::Node(id_of(node)),
                condition_topic: Topic::Node(id_of(&**condition)),
            },
        ),
        _ => None,
    }
}

/// The delimiters of a node, if it is a control flow statement.
pub fn delimiter_info_for_node(node: &ASTNode) -> (r: Option<DelimiterInfo>)
    ensures
        r == delimiter_info(node),
{
    let (kind, condition) = match node {
        ASTNode::IfStatement { condition, .. } => (DelimiterKind::If, condition),
        ASTNode::ForStatement { condition, .. } => (DelimiterKind::For, condition),
        ASTNode::WhileStatement { condition, .. } => (DelimiterKind::While, condition),
        ASTNode::DoWhileStatement { condition, .. } => (DelimiterKind::DoWhile, condition),
        _ => {
            return None;
        },
    };
    Some(
        DelimiterInfo {
            kind,
            node_topic: new_node_topic(&node.node_id()),
            condition_topic: new_node_topic(&condition.node_id()),
        },
    )
}

} // verus!
