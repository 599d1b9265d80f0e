use o11a_core::domain::topic::{new_comment_topic, new_node_topic, Topic};
use o11a_core::domain::{ensure_context, insert_into_context, merge_context_groups};
use o11a_core::domain::{BlockAnnotation, BlockAnnotationKind, ControlFlowBranch};
use o11a_core::domain::{NestedSourceContext, Reference, SourceChild, SourceContext};

fn n(id: i32) -> Topic {
    new_node_topic(&id)
}

fn put(
    groups: &mut Vec<SourceContext>,
    scope: i32,
    subscope: Option<(Topic, Option<usize>)>,
    chain: &Vec<BlockAnnotation>,
    r: Reference,
) {
    insert_into_context(groups, n(scope), Some(scope as usize), true, subscope, chain, r);
}

fn topics(c: &SourceContext) -> Vec<Topic> {
    c.scope_references().iter().map(|r| *r.reference_topic()).collect()
}

#[test]
fn references_are_sorted_and_kept_once() {
    let mut groups: Vec<SourceContext> = Vec::new();
    let none: Vec<BlockAnnotation> = Vec::new();
    put(&mut groups, 2, None, &none, Reference::project_reference(n(30), Some(30)));
    put(&mut groups, 2, None, &none, Reference::project_reference(n(10), Some(10)));
    put(&mut groups, 1, None, &none, Reference::project_reference(n(5), None));
    put(&mut groups, 2, None, &none, Reference::project_reference(n(20), Some(20)));
    put(&mut groups, 2, None, &none, Reference::project_reference(n(10), Some(10)));
    assert_eq!(groups.len(), 2);
    assert_eq!(*groups[0].scope(), n(1));
    assert_eq!(*groups[1].scope(), n(2));
    assert_eq!(topics(&groups[1]), vec![n(10), n(20), n(30)]);
}

#[test]
fn references_of_one_key_keep_their_order() {
    let mut groups: Vec<SourceContext> = Vec::new();
    let none: Vec<BlockAnnotation> = Vec::new();
    for (id, key) in [(1, 7), (2, 9), (3, 7), (4, 7), (5, 8)] {
        put(&mut groups, 1, None, &none, Reference::project_reference(n(id), Some(key)));
    }
    assert_eq!(topics(&groups[0]), vec![n(1), n(3), n(4), n(5), n(2)]);
}

#[test]
fn mentions_join_the_reference() {
    let mut groups: Vec<SourceContext> = Vec::new();
    let none: Vec<BlockAnnotation> = Vec::new();
    put(&mut groups, 1, None, &none, Reference::project_reference(n(5), Some(5)));
    let c = new_comment_topic;
    put(&mut groups, 1, None, &none, Reference::comment_mention(n(5), c(1), Some(9)));
    put(&mut groups, 1, None, &none, Reference::comment_mention(n(5), c(2), Some(9)));
    put(&mut groups, 1, None, &none, Reference::comment_mention(n(5), c(1), Some(9)));
    let refs = groups[0].scope_references();
    assert_eq!(refs.len(), 1);
    assert!(matches!(refs[0], Reference::ProjectReferenceWithMentions { .. }));
    assert_eq!(refs[0].mention_topics().unwrap(), &[c(1), c(2)]);
    assert_eq!(refs[0].sort_key(), Some(5));
    let mut other: Vec<SourceContext> = Vec::new();
    put(&mut other, 1, None, &none, Reference::comment_mention(n(5), c(1), Some(9)));
    put(&mut other, 1, None, &none, Reference::project_reference(n(5), Some(5)));
    assert!(matches!(
        other[0].scope_references()[0],
        Reference::ProjectReferenceWithMentions { .. }
    ));
    assert_eq!(other[0].scope_references()[0].sort_key(), Some(9));
}

#[test]
fn branches_of_one_statement_know_each_other() {
    let mut groups: Vec<SourceContext> = Vec::new();
    let yes = BlockAnnotation { topic: n(40), kind: BlockAnnotationKind::If(ControlFlowBranch::True) };
    let no = BlockAnnotation { topic: n(40), kind: BlockAnnotationKind::If(ControlFlowBranch::False) };
    let sub = Some((n(7), Some(7)));
    put(&mut groups, 1, sub, &vec![yes], Reference::project_reference(n(41), Some(41)));
    put(&mut groups, 1, sub, &vec![no], Reference::project_reference(n(42), Some(42)));
    put(&mut groups, 1, sub, &vec![no], Reference::project_reference(n(42), Some(42)));
    let nested = &groups[0].nested_references()[0];
    assert_eq!(*nested.subscope(), n(7));
    assert_eq!(nested.children().len(), 2);
    for child in nested.children() {
        match child {
            SourceChild::AnnotatedBlock(b) => {
                assert!(b.has_sibling_branch());
                assert_eq!(b.children().len(), 1);
                assert_eq!(b.sort_key(), Some(40));
            }
            SourceChild::Reference(_) => panic!("a block was expected"),
        }
    }
}

#[test]
fn contexts_of_one_scope_are_joined() {
    let a = SourceContext::new_with_scope_references(
        n(2),
        Some(2),
        true,
        vec![Reference::project_reference(n(9), Some(9))],
    );
    let b = SourceContext::new_with_scope_references(n(1), Some(1), false, vec![]);
    let c = SourceContext::new_with_scope_references(
        n(2),
        Some(2),
        true,
        vec![
            Reference::project_reference(n(8), Some(8)),
            Reference::project_reference(n(9), Some(9)),
        ],
    );
    let merged = merge_context_groups(vec![a, b, c]);
    assert_eq!(merged.len(), 2);
    assert_eq!(*merged[0].scope(), n(1));
    assert!(!merged[0].is_in_scope());
    assert_eq!(topics(&merged[1]), vec![n(8), n(9)]);
}

#[test]
fn nested_contexts_of_one_subscope_are_joined() {
    let child = |id: i32| SourceChild::Reference(Reference::project_reference(n(id), Some(id as usize)));
    let make = |id: i32| {
        SourceContext::new(
            n(1),
            Some(1),
            true,
            vec![],
            vec![NestedSourceContext::new(n(3), Some(3), vec![child(id)])],
        )
    };
    let merged = merge_context_groups(vec![make(9), make(4)]);
    let nested = merged[0].nested_references();
    assert_eq!(nested.len(), 1);
    let keys: Vec<Option<usize>> = nested[0].children().iter().map(|c| c.sort_key()).collect();
    assert_eq!(keys, vec![Some(4), Some(9)]);
}

#[test]
fn joined_children_of_one_key_keep_their_order() {
    let child = |id: i32| SourceChild::Reference(Reference::project_reference(n(id), Some(7)));
    let make = |id: i32| {
        let nested = NestedSourceContext::new(n(3), Some(3), vec![child(id)]);
        SourceContext::new(n(1), Some(1), true, vec![], vec![nested])
    };
    let merged = merge_context_groups(vec![make(9), make(4)]);
    let ids: Vec<Topic> = merged[0].nested_references()[0]
        .children()
        .iter()
        .map(|c| match c {
            SourceChild::Reference(r) => *r.reference_topic(),
            _ => panic!("no reference"),
        })
        .collect();
    assert_eq!(ids, vec![n(9), n(4)]);
}

#[test]
fn repeated_insertions_change_nothing() {
    let chain = vec![BlockAnnotation {
        topic: n(20),
        kind: BlockAnnotationKind::If(ControlFlowBranch::True),
    }];
    let mut groups: Vec<SourceContext> = Vec::new();
    let sub = Some((n(2), Some(2)));
    put(&mut groups, 1, sub, &chain, Reference::project_reference(n(9), Some(9)));
    put(&mut groups, 1, sub, &chain, Reference::comment_mention(n(9), new_comment_topic(1), None));
    let once = format!("{:?}", groups);
    put(&mut groups, 1, sub, &chain, Reference::comment_mention(n(9), new_comment_topic(1), None));
    put(&mut groups, 1, sub, &chain, Reference::project_reference(n(9), Some(9)));
    assert_eq!(format!("{:?}", groups), once);
}

#[test]
fn opened_contexts_stay_as_they_are() {
    let mut groups: Vec<SourceContext> = Vec::new();
    ensure_context(&mut groups, n(1), Some(5), true);
    ensure_context(&mut groups, n(1), Some(9), false);
    assert_eq!(groups.len(), 1);
    assert_eq!(groups[0].sort_key(), Some(5));
    assert!(groups[0].is_in_scope());
    assert!(groups[0].scope_references().is_empty());
}
