//! What is shown of comments, node by node.
use crate::comments::CommentNode;
use crate::web::comment_formatter::{show_each, shows, Piece};
use vstd::prelude::*;

verus! {

/// A comment is shown node by node: as many pieces as nodes, each of its node.
pub proof fn comments_are_shown_node_by_node(p: Seq<Piece>, n: Seq<CommentNode>, i: int)
    requires
        show_each(p, n),
    ensures
        p.len() == n.len(),
        0 <= i < n.len() ==> shows(p[i], n[i]),
    decreases n.len(),
{
    if n.len() > 0 {
        comments_are_shown_node_by_node(p.drop_last(), n.drop_last(), i);
        if i == n.len() - 1 {
            assert(p.last() == p[i] && n.last() == n[i]);
        }
    }
}

/// A text is shown as it was written, in the form that its node has.
pub proof fn texts_are_shown_as_written(p: Piece, n: CommentNode)
    requires
        shows(p, n),
    ensures
        n matches CommentNode::Text { value } ==> p is Text && p->Text_text@ == value@,
        n matches CommentNode::CodeText { value } ==> p is Text && p->Text_text@ == value@,
        n matches CommentNode::CodeKeyword { value } ==> p is Keyword && p->Keyword_text@ == value@,
        n matches CommentNode::CodeOperator { value } ==> p is Operator && p->Operator_text@
            == value@,
        n matches CommentNode::Emphasis { text } ==> p is Emphasis && p->Emphasis_text@ == text@,
        n matches CommentNode::Strong { text } ==> p is Strong && p->Strong_text@ == text@,
        n matches CommentNode::Link { url, text } ==> p is Link && p->url@ == url@ && p->Link_text@
            == text@,
{
}

/// Code in a comment is shown piece by piece, like the comment itself.
pub proof fn inline_code_is_shown_piece_by_piece(p: Piece, n: CommentNode, i: int)
    requires
        shows(p, n),
        n is InlineCode,
        0 <= i < n->children@.len(),
    ensures
        p is InlineCode,
        p->pieces@.len() == n->children@.len(),
        shows(p->pieces@[i], n->children@[i]),
{
    comments_are_shown_node_by_node(p->pieces@, n->children@, i);
}

/// A name in code leads to the declaration that it was found to mean, under the name
/// that the declaration has, and otherwise nowhere.
pub proof fn names_lead_to_their_declaration(p: Piece, n: CommentNode)
    requires
        shows(p, n),
        n is CodeIdentifier,
    ensures
        n->referenced_topic is Some ==> p is Reference && p->topic == n->referenced_topic->0
            && p->Reference_kind == n->kind,
        n->referenced_topic is None ==> p is Name && p->Name_kind == n->kind,
        n->referenced_topic is Some && n->referenced_name is Some ==> p->Reference_text@
            == n->referenced_name->0@,
        n->referenced_topic is Some && n->referenced_name is None ==> p->Reference_text@
            == n->CodeIdentifier_value@,
        n->referenced_topic is None && n->referenced_name is Some ==> p->Name_text@
            == n->referenced_name->0@,
        n->referenced_topic is None && n->referenced_name is None ==> p->Name_text@
            == n->CodeIdentifier_value@,
{
}

} // verus!
