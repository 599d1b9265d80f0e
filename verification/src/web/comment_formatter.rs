//! What is shown of a comment, piece by piece.
use crate::comments::CommentNode;
use crate::domain::kinds::NamedTopicKind;
use crate::domain::topic::Topic;
use vstd::prelude::*;
use vstd::string::*;

verus! {

/// A piece of a comment as it is shown. Texts are still to be escaped, except the
/// operator and the target of a link.
#[derive(Debug)]
pub enum Piece {
    Text { text: String },
    InlineCode { pieces: Vec<Piece> },
    Keyword { text: String },
    Operator { text: String },
    /// A name in code that leads to its declaration.
    Reference { text: String, kind: Option<NamedTopicKind>, topic: Topic },
    /// A name in code that leads nowhere.
    Name { text: String, kind: Option<NamedTopicKind> },
    Emphasis { text: String },
    Strong { text: String },
    Link { url: String, text: String },
}

/// The text that a name in code is shown with: that of its declaration, where one
/// is known.
pub open spec fn shown_text(value: Seq<char>, referenced_name: Option<String>) -> Seq<char> {
    match referenced_name {
        Some(name) => name@,
        None => value,
    }
}

/// `p` shows `n`.
pub open spec fn shows(p: Piece, n: CommentNode) -> bool
    decreases n,
{
    match n {
        CommentNode::Text { value } => p is Text && p->Text_text@ == value@,
        CommentNode::CodeText { value } => p is Text && p->Text_text@ == value@,
        CommentNode::InlineCode { children } => p is InlineCode && show_each(
            p->pieces@,
            children@,
        ),
        CommentNode::CodeKeyword { value } => p is Keyword && p->Keyword_text@ == value@,
        CommentNode::CodeOperator { value } => p is Operator && p->Operator_text@ == value@,
        CommentNode::CodeIdentifier { value, referenced_topic, kind, referenced_name } => {
            match referenced_topic {
                Some(t) => p is Reference && p->Reference_text@ == shown_text(
                    value@,
                    referenced_name,
                ) && p->Reference_kind == kind && p->topic == t,
                None => p is Name && p->Name_text@ == shown_text(value@, referenced_name)
                    && p->Name_kind == kind,
            }
        },
        CommentNode::Emphasis { text } => p is Emphasis && p->Emphasis_text@ == text@,
        CommentNode::Strong { text } => p is Strong && p->Strong_text@ == text@,
        CommentNode::Link { url, text } => p is Link && p->url@ == url@ && p->Link_text@ == text@,
    }
}

pub open spec fn show_each(p: Seq<Piece>, n: Seq<CommentNode>) -> bool
    decreases n,
{
    if n.len() == 0 {
        p.len() == 0
    } else {
        p.len() == n.len() && show_each(p.drop_last(), n.drop_last()) && shows(p.last(), n.last())
    }
}

fn shown_name(value: &String, referenced_name: &Option<String>) -> (r: String)
    ensures
        r@ == shown_text(value@, *referenced_name),
{
    match referenced_name {
        Some(name) => name.clone(),
        None => value.clone(),
    }
}

/// What is shown of a node of a comment.
pub fn node_piece(node: &CommentNode) -> (r: Piece)
    ensures
        shows(r, *node),
    decreases node,
{
    match node {
        CommentNode::Text { value } => Piece::Text { text: value.clone() },
        CommentNode::CodeText { value } => Piece::Text { text: value.clone() },
        CommentNode::InlineCode { children } => Piece::InlineCode {
            pieces: comment_pieces(children),
        },
        CommentNode::CodeKeyword { value } => Piece::Keyword { text: value.clone() },
        CommentNode::CodeOperator { value } => Piece::Operator { text: value.clone() },
        CommentNode::CodeIdentifier { value, referenced_topic, kind, referenced_name } => {
            let text = shown_name(value, referenced_name);
            match referenced_topic {
                Some(topic) => Piece::Reference { text, kind: *kind, topic: *topic },
                None => Piece::Name { text, kind: *kind },
            }
        },
        CommentNode::Emphasis { text } => Piece::Emphasis { text: text.clone() },
        CommentNode::Strong { text } => Piece::Strong { text: text.clone() },
        CommentNode::Link { url, text } => Piece::Link { url: url.clone(), text: text.clone() },
    }
}

/// What is shown of a comment.
pub fn comment_pieces(nodes: &Vec<CommentNode>) -> (r: Vec<Piece>)
    ensures
        show_each(r@, nodes@),
    decreases nodes,
{
    let mut out: Vec<Piece> = Vec::new();
    let mut i: usize = 0;
    assert(nodes@.take(0) =~= Seq::empty());
    while i < nodes.len()
        invariant
            i <= nodes@.len(),
            out@.len() == i,
            show_each(out@, nodes@.take(i as int)),
        decreases nodes@.len() - i,
    {
        assert(decreases_to!(nodes => nodes@[i as int]));
        let piece = node_piece(&nodes[i]);
        let ghost before = out@;
        out.push(piece);
        assert(out@.drop_last() =~= before);
        assert(nodes@.take(i + 1).drop_last() =~= nodes@.take(i as int));
        i += 1;
    }
    assert(nodes@.take(nodes@.len() as int) =~= nodes@);
    out
}

} // verus!
