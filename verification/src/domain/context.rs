//! References to a topic, grouped by the scopes in which they occur.
use crate::domain::lists::{any, copy_topics, first_index, is_first, lemma_first_exists};
use crate::domain::lists::{lemma_first_index, push_all_new, with_topics};
use crate::domain::scope::{BlockAnnotation, BlockAnnotationKind};
use crate::domain::topic::{number_of, Topic};
use vstd::prelude::*;

verus! {

/// A reference to a topic, with its source.
#[derive(Debug)]
pub enum Reference {
    /// A reference found in the project.
    ProjectReference { reference_topic: Topic, sort_key: Option<usize> },
    /// A project reference that comments mention too.
    ProjectReferenceWithMentions {
        reference_topic: Topic,
        mention_topics: Vec<Topic>,
        sort_key: Option<usize>,
    },
    /// A reference from comments only.
    CommentMention {
        reference_topic: Topic,
        mention_topics: Vec<Topic>,
        sort_key: Option<usize>,
    },
}

/// The references of one scope: a contract, a file or a feature.
#[derive(Debug)]
pub struct SourceContext {
    scope: Topic,
    sort_key: Option<usize>,
    is_in_scope: bool,
    scope_references: Vec<Reference>,
    nested_references: Vec<NestedSourceContext>,
}

/// A child of a nested context, in source order.
#[derive(Debug)]
pub enum SourceChild {
    Reference(Reference),
    AnnotatedBlock(AnnotatedBlockSourceContext),
}

/// The references within an annotated block.
#[derive(Debug)]
pub struct AnnotatedBlockSourceContext {
    annotation: BlockAnnotation,
    sort_key: Option<usize>,
    children: Vec<SourceChild>,
    has_sibling_branch: bool,
}

/// The references within a nested scope: a function or a section.
#[derive(Debug)]
pub struct NestedSourceContext {
    subscope: Topic,
    sort_key: Option<usize>,
    children: Vec<SourceChild>,
}

pub ghost enum RefKind {
    Project,
    ProjectWithMentions,
    Mention,
}

/// What a reference holds. A plain project reference has no mentions.
pub ghost struct RefView {
    pub kind: RefKind,
    pub topic: Topic,
    pub mentions: Seq<Topic>,
    pub sort_key: Option<usize>,
}

pub ghost enum ChildView {
    Reference(RefView),
    Block {
        annotation: BlockAnnotation,
        sort_key: Option<usize>,
        children: Seq<ChildView>,
        has_sibling: bool,
    },
}

pub ghost struct NestedView {
    pub subscope: Topic,
    pub sort_key: Option<usize>,
    pub children: Seq<ChildView>,
}

pub ghost struct ContextView {
    pub scope: Topic,
    pub sort_key: Option<usize>,
    pub is_in_scope: bool,
    pub references: Seq<RefView>,
    pub nested: Seq<NestedView>,
}

impl View for Reference {
    type V = RefView;

    open spec fn view(&self) -> RefView {
        match self {
            Reference::ProjectReference { reference_topic, sort_key } => RefView {
                kind: RefKind::Project,
                topic: *reference_topic,
                mentions: seq![],
                sort_key: *sort_key,
            },
            Reference::ProjectReferenceWithMentions {
                reference_topic,
                mention_topics,
                sort_key,
            } => RefView {
                kind: RefKind::ProjectWithMentions,
                topic: *reference_topic,
                mentions: mention_topics@,
                sort_key: *sort_key,
            },
            Reference::CommentMention { reference_topic, mention_topics, sort_key } => RefView {
                kind: RefKind::Mention,
                topic: *reference_topic,
                mentions: mention_topics@,
                sort_key: *sort_key,
            },
        }
    }
}

pub closed spec fn child_view(c: SourceChild) -> ChildView
    decreases c,
{
    match c {
        SourceChild::Reference(r) => ChildView::Reference(r@),
        SourceChild::AnnotatedBlock(b) => ChildView::Block {
            annotation: b.annotation,
            sort_key: b.sort_key,
            children: child_views(b.children@),
            has_sibling: b.has_sibling_branch,
        },
    }
}

pub closed spec fn child_views(s: Seq<SourceChild>) -> Seq<ChildView>
    decreases s,
{
    if s.len() == 0 {
        seq![]
    } else {
        child_views(s.drop_last()).push(child_view(s.last()))
    }
}

impl View for SourceChild {
    type V = ChildView;

    open spec fn view(&self) -> ChildView {
        child_view(*self)
    }
}

impl View for AnnotatedBlockSourceContext {
    type V = ChildView;

    open spec fn view(&self) -> ChildView {
        child_view(SourceChild::AnnotatedBlock(*self))
    }
}

impl View for NestedSourceContext {
    type V = NestedView;

    closed spec fn view(&self) -> NestedView {
        NestedView {
            subscope: self.subscope,
            sort_key: self.sort_key,
            children: child_views(self.children@),
        }
    }
}

pub open spec fn ref_views(s: Seq<Reference>) -> Seq<RefView> {
    s.map_values(|r: Reference| r@)
}

pub open spec fn nested_views(s: Seq<NestedSourceContext>) -> Seq<NestedView> {
    s.map_values(|n: NestedSourceContext| n@)
}

impl View for SourceContext {
    type V = ContextView;

    closed spec fn view(&self) -> ContextView {
        ContextView {
            scope: self.scope,
            sort_key: self.sort_key,
            is_in_scope: self.is_in_scope,
            references: ref_views(self.scope_references@),
            nested: nested_views(self.nested_references@),
        }
    }
}

pub open spec fn context_views(s: Seq<SourceContext>) -> Seq<ContextView> {
    s.map_values(|c: SourceContext| c@)
}

pub proof fn lemma_child_views(s: Seq<SourceChild>)
    ensures
        child_views(s).len() == s.len(),
        forall|i: int| 0 <= i < s.len() ==> #[trigger] child_views(s)[i] == child_view(s[i]),
    decreases s.len(),
{
    if s.len() > 0 {
        lemma_child_views(s.drop_last());
        assert forall|i: int| 0 <= i < s.len() implies #[trigger] child_views(s)[i] == child_view(
            s[i],
        ) by {
            if i < s.len() - 1 {
                assert(s.drop_last()[i] == s[i]);
            }
        }
    }
}

/// The sort key of a child.
pub open spec fn child_key(c: ChildView) -> Option<usize> {
    match c {
        ChildView::Reference(r) => r.sort_key,
        ChildView::Block { sort_key, .. } => sort_key,
    }
}

/// Keys are ordered by number. No key comes first.
pub open spec fn key_less(a: Option<usize>, b: Option<usize>) -> bool {
    match (a, b) {
        (None, Some(_)) => true,
        (Some(x), Some(y)) => x < y,
        _ => false,
    }
}

pub open spec fn keys_sorted(keys: Seq<Option<usize>>) -> bool {
    forall|i: int, j: int| 0 <= i < j < keys.len() ==> !key_less(#[trigger] keys[j], #[trigger] keys[i])
}

/// Where an item with `key` goes among items with `keys`: behind the last one that
/// it does not come before. Among sorted keys, that is behind all that are not
/// greater.
pub open spec fn insertion_point(keys: Seq<Option<usize>>, key: Option<usize>) -> int
    decreases keys.len(),
{
    if keys.len() == 0 || !key_less(key, keys.last()) {
        keys.len() as int
    } else {
        insertion_point(keys.drop_last(), key)
    }
}

pub proof fn lemma_insertion_point_range(keys: Seq<Option<usize>>, key: Option<usize>)
    ensures
        0 <= insertion_point(keys, key) <= keys.len(),
    decreases keys.len(),
{
    if keys.len() > 0 {
        lemma_insertion_point_range(keys.drop_last(), key);
    }
}

/// Among sorted keys, those before the insertion point are not greater, and those
/// behind it are.
pub proof fn insertion_point_splits(keys: Seq<Option<usize>>, key: Option<usize>)
    requires
        keys_sorted(keys),
    ensures
        0 <= insertion_point(keys, key) <= keys.len(),
        forall|i: int|
            0 <= i < insertion_point(keys, key) ==> !key_less(key, #[trigger] keys[i]),
        forall|i: int|
            insertion_point(keys, key) <= i < keys.len() ==> key_less(key, #[trigger] keys[i]),
    decreases keys.len(),
{
    if keys.len() > 0 {
        let last = keys[keys.len() - 1];
        if key_less(key, last) {
            let rest = keys.drop_last();
            assert forall|i: int, j: int| 0 <= i < j < rest.len() implies !key_less(
                #[trigger] rest[j],
                #[trigger] rest[i],
            ) by {
                assert(!key_less(keys[j], keys[i]));
            }
            insertion_point_splits(rest, key);
            assert forall|i: int| 0 <= i < insertion_point(keys, key) implies !key_less(
                key,
                #[trigger] keys[i],
            ) by {
                assert(rest[i] == keys[i]);
            }
            assert forall|i: int| insertion_point(keys, key) <= i < keys.len() implies key_less(
                key,
                #[trigger] keys[i],
            ) by {
                if i < rest.len() {
                    assert(rest[i] == keys[i]);
                }
            }
        } else {
            assert forall|i: int| 0 <= i < keys.len() implies !key_less(
                key,
                #[trigger] keys[i],
            ) by {
                if i < keys.len() - 1 {
                    assert(!key_less(last, keys[i]));
                }
            }
        }
    }
}

/// Inserting at the insertion point keeps sorted keys sorted.
pub proof fn insertion_keeps_order(keys: Seq<Option<usize>>, key: Option<usize>)
    requires
        keys_sorted(keys),
    ensures
        0 <= insertion_point(keys, key) <= keys.len(),
        keys_sorted(keys.insert(insertion_point(keys, key), key)),
{
    insertion_point_splits(keys, key);
    let p = insertion_point(keys, key);
    let r = keys.insert(p, key);
    assert forall|i: int, j: int| 0 <= i < j < r.len() implies !key_less(
        #[trigger] r[j],
        #[trigger] r[i],
    ) by {
        let i0 = if i < p {
            i
        } else {
            i - 1
        };
        let j0 = if j < p {
            j
        } else {
            j - 1
        };
        if i != p && j != p {
            assert(!key_less(keys[j0], keys[i0]));
        } else if i == p {
            assert(key_less(key, keys[j0]));
        } else {
            assert(!key_less(key, keys[i0]));
        }
    }
}

/// The reference `old` after `new`, a reference to the same topic, has come in.
pub open spec fn merged_ref(old_ref: RefView, new_ref: RefView) -> RefView {
    match (old_ref.kind, new_ref.kind) {
        (RefKind::Project, RefKind::Mention) => RefView {
            kind: RefKind::ProjectWithMentions,
            mentions: new_ref.mentions,
            ..old_ref
        },
        (RefKind::ProjectWithMentions, RefKind::Mention) => RefView {
            mentions: with_topics(old_ref.mentions, new_ref.mentions),
            ..old_ref
        },
        (RefKind::Mention, RefKind::Mention) => RefView {
            mentions: with_topics(old_ref.mentions, new_ref.mentions),
            ..old_ref
        },
        (RefKind::Mention, RefKind::Project) => RefView {
            kind: RefKind::ProjectWithMentions,
            ..old_ref
        },
        _ => old_ref,
    }
}

pub open spec fn ref_is(t: Topic) -> spec_fn(RefView) -> bool {
    |r: RefView| r.topic == t
}

pub open spec fn ref_keys(refs: Seq<RefView>) -> Seq<Option<usize>> {
    refs.map_values(|r: RefView| r.sort_key)
}

/// `refs` with `r`: merged into the reference to the same topic, or at its
/// place in the order.
pub open spec fn with_ref(refs: Seq<RefView>, r: RefView) -> Seq<RefView> {
    if any(refs, ref_is(r.topic)) {
        let i = first_index(refs, ref_is(r.topic));
        refs.update(i, merged_ref(refs[i], r))
    } else {
        refs.insert(insertion_point(ref_keys(refs), r.sort_key), r)
    }
}

pub open spec fn child_is(t: Topic) -> spec_fn(ChildView) -> bool {
    |c: ChildView|
        match c {
            ChildView::Reference(r) => r.topic == t,
            _ => false,
        }
}

pub open spec fn child_keys(children: Seq<ChildView>) -> Seq<Option<usize>> {
    children.map_values(|c: ChildView| child_key(c))
}

/// `children` with the reference `r`.
pub open spec fn with_child(children: Seq<ChildView>, r: RefView) -> Seq<ChildView> {
    if any(children, child_is(r.topic)) {
        let i = first_index(children, child_is(r.topic));
        children.update(i, ChildView::Reference(merged_ref(children[i]->Reference_0, r)))
    } else {
        children.insert(
            insertion_point(child_keys(children), r.sort_key),
            ChildView::Reference(r),
        )
    }
}

pub open spec fn block_is(a: BlockAnnotation) -> spec_fn(ChildView) -> bool {
    |c: ChildView|
        match c {
            ChildView::Block { annotation, .. } => annotation == a,
            _ => false,
        }
}

/// The block of the other branch of the same statement.
pub open spec fn sibling_of(a: BlockAnnotation) -> spec_fn(ChildView) -> bool {
    |c: ChildView|
        match c {
            ChildView::Block { annotation, .. } => annotation.topic == a.topic && annotation.kind
                != a.kind,
            _ => false,
        }
}

pub open spec fn marked_sibling(c: ChildView) -> ChildView {
    match c {
        ChildView::Block { annotation, sort_key, children, .. } => ChildView::Block {
            annotation,
            sort_key,
            children,
            has_sibling: true,
        },
        _ => c,
    }
}

/// The sort key of a topic: its number.
pub open spec fn topic_key(t: Topic) -> Option<usize> {
    Some(number_of(t) as usize)
}

/// `children` with a block for annotation `a`. A branch whose other branch is
/// there marks both as siblings.
pub open spec fn with_block(children: Seq<ChildView>, a: BlockAnnotation) -> Seq<ChildView> {
    if any(children, block_is(a)) {
        children
    } else {
        let has_sibling = a.kind is If && any(children, sibling_of(a));
        let opened = children.insert(
            insertion_point(child_keys(children), topic_key(a.topic)),
            ChildView::Block {
                annotation: a,
                sort_key: topic_key(a.topic),
                children: seq![],
                has_sibling,
            },
        );
        if has_sibling {
            let i = first_index(opened, sibling_of(a));
            opened.update(i, marked_sibling(opened[i]))
        } else {
            opened
        }
    }
}

/// `children` with the reference `r` under the chain of annotated blocks.
pub open spec fn with_annotated(
    children: Seq<ChildView>,
    chain: Seq<BlockAnnotation>,
    r: RefView,
) -> Seq<ChildView>
    decreases chain.len(),
{
    if chain.len() == 0 {
        with_child(children, r)
    } else {
        let opened = with_block(children, chain[0]);
        let i = first_index(opened, block_is(chain[0]));
        match opened[i] {
            ChildView::Block { annotation, sort_key, children: inner, has_sibling } =>
                opened.update(
                i,
                ChildView::Block {
                    annotation,
                    sort_key,
                    children: with_annotated(inner, chain.drop_first(), r),
                    has_sibling,
                },
            ),
            _ => opened,
        }
    }
}

pub open spec fn nested_is(t: Topic) -> spec_fn(NestedView) -> bool {
    |n: NestedView| n.subscope == t
}

pub open spec fn nested_keys(nested: Seq<NestedView>) -> Seq<Option<usize>> {
    nested.map_values(|n: NestedView| n.sort_key)
}

/// `children` with one more child, behind those that it does not come before.
pub open spec fn joined_by(children: Seq<ChildView>, c: ChildView) -> Seq<ChildView> {
    children.insert(insertion_point(child_keys(children), child_key(c)), c)
}

/// `children` with each of `more` at its place.
pub open spec fn joined_children(children: Seq<ChildView>, more: Seq<ChildView>) -> Seq<ChildView>
    decreases more.len(),
{
    if more.len() == 0 {
        children
    } else {
        joined_by(joined_children(children, more.drop_last()), more.last())
    }
}

/// `nested` with the context `n`: its children join those of the same subscope,
/// each at its place in the order.
pub open spec fn with_nested(nested: Seq<NestedView>, n: NestedView) -> Seq<NestedView> {
    if any(nested, nested_is(n.subscope)) {
        let i = first_index(nested, nested_is(n.subscope));
        nested.update(
            i,
            NestedView { children: joined_children(nested[i].children, n.children), ..nested[i] },
        )
    } else {
        nested.insert(insertion_point(nested_keys(nested), n.sort_key), n)
    }
}

/// `nested` with a context for the subscope.
pub open spec fn with_subscope(
    nested: Seq<NestedView>,
    subscope: Topic,
    key: Option<usize>,
) -> Seq<NestedView> {
    if any(nested, nested_is(subscope)) {
        nested
    } else {
        nested.insert(
            insertion_point(nested_keys(nested), key),
            NestedView { subscope, sort_key: key, children: seq![] },
        )
    }
}

pub open spec fn context_is(t: Topic) -> spec_fn(ContextView) -> bool {
    |c: ContextView| c.scope == t
}

pub open spec fn context_keys(groups: Seq<ContextView>) -> Seq<Option<usize>> {
    groups.map_values(|c: ContextView| c.sort_key)
}

/// `groups` with a context for the scope.
pub open spec fn with_context(
    groups: Seq<ContextView>,
    scope: Topic,
    key: Option<usize>,
    in_scope: bool,
) -> Seq<ContextView> {
    if any(groups, context_is(scope)) {
        groups
    } else {
        groups.insert(
            insertion_point(context_keys(groups), key),
            ContextView {
                scope,
                sort_key: key,
                is_in_scope: in_scope,
                references: seq![],
                nested: seq![],
            },
        )
    }
}

/// The context `c` with the reference `r` at the scope itself or under a
/// subscope.
pub open spec fn context_with(
    c: ContextView,
    subscope: Option<(Topic, Option<usize>)>,
    chain: Seq<BlockAnnotation>,
    r: RefView,
) -> ContextView {
    match subscope {
        None => ContextView { references: with_ref(c.references, r), ..c },
        Some((t, key)) => {
            let nested = with_subscope(c.nested, t, key);
            let i = first_index(nested, nested_is(t));
            ContextView {
                nested: nested.update(
                    i,
                    NestedView {
                        children: with_annotated(nested[i].children, chain, r),
                        ..nested[i]
                    },
                ),
                ..c
            }
        },
    }
}

/// `groups` with the reference `r` in the context of the scope.
pub open spec fn with_reference(
    groups: Seq<ContextView>,
    scope: Topic,
    key: Option<usize>,
    in_scope: bool,
    subscope: Option<(Topic, Option<usize>)>,
    chain: Seq<BlockAnnotation>,
    r: RefView,
) -> Seq<ContextView> {
    let g = with_context(groups, scope, key, in_scope);
    let i = first_index(g, context_is(scope));
    g.update(i, context_with(g[i], subscope, chain, r))
}

pub open spec fn with_refs(refs: Seq<RefView>, more: Seq<RefView>) -> Seq<RefView>
    decreases more.len(),
{
    if more.len() == 0 {
        refs
    } else {
        with_ref(with_refs(refs, more.drop_last()), more.last())
    }
}

pub open spec fn with_all_nested(nested: Seq<NestedView>, more: Seq<NestedView>) -> Seq<
    NestedView,
>
    decreases more.len(),
{
    if more.len() == 0 {
        nested
    } else {
        with_nested(with_all_nested(nested, more.drop_last()), more.last())
    }
}

/// `groups` with the references of `c` joined to those of its scope.
pub open spec fn with_group(groups: Seq<ContextView>, c: ContextView) -> Seq<ContextView> {
    let g = with_context(groups, c.scope, c.sort_key, c.is_in_scope);
    let i = first_index(g, context_is(c.scope));
    g.update(
        i,
        ContextView {
            references: with_refs(g[i].references, c.references),
            nested: with_all_nested(g[i].nested, c.nested),
            ..g[i]
        },
    )
}

/// The contexts joined scope by scope.
pub open spec fn merged_contexts(contexts: Seq<ContextView>) -> Seq<ContextView>
    decreases contexts.len(),
{
    if contexts.len() == 0 {
        seq![]
    } else {
        with_group(merged_contexts(contexts.drop_last()), contexts.last())
    }
}

impl Reference {
    /// The topic that is referred to.
    pub fn reference_topic(&self) -> (r: &Topic)
        ensures
            *r == self@.topic,
    {
        match self {
            Reference::ProjectReference { reference_topic, .. } => reference_topic,
            Reference::ProjectReferenceWithMentions { reference_topic, .. } => reference_topic,
            Reference::CommentMention { reference_topic, .. } => reference_topic,
        }
    }

    /// The mentioning comments, unless this is a plain project reference.
    pub fn mention_topics(&self) -> (r: Option<&[Topic]>)
        ensures
            r is None == (self@.kind == RefKind::Project),
            r is Some ==> r->0@ == self@.mentions,
    {
        match self {
            Reference::ProjectReference { .. } => None,
            Reference::ProjectReferenceWithMentions { mention_topics, .. } => Some(
                mention_topics.as_slice(),
            ),
            Reference::CommentMention { mention_topics, .. } => Some(mention_topics.as_slice()),
        }
    }

    /// The key that orders this reference within its group.
    pub fn sort_key(&self) -> (r: Option<usize>)
        ensures
            r == self@.sort_key,
    {
        match self {
            Reference::ProjectReference { sort_key, .. } => *sort_key,
            Reference::ProjectReferenceWithMentions { sort_key, .. } => *sort_key,
            Reference::CommentMention { sort_key, .. } => *sort_key,
        }
    }

    pub fn project_reference(reference_topic: Topic, sort_key: Option<usize>) -> (r: Self)
        ensures
            r@ == project_ref(reference_topic, sort_key),
    {
        Reference::ProjectReference { reference_topic, sort_key }
    }

    pub fn comment_mention(
        reference_topic: Topic,
        mention_topic: Topic,
        sort_key: Option<usize>,
    ) -> (r: Self)
        ensures
            r@ == (RefView {
                kind: RefKind::Mention,
                topic: reference_topic,
                mentions: seq![mention_topic],
                sort_key,
            }),
    {
        let mention_topics = vec![mention_topic];
        assert(mention_topics@ =~= seq![mention_topic]);
        Reference::CommentMention { reference_topic, mention_topics, sort_key }
    }

    /// A reference that holds the same.
    pub fn copy(&self) -> (r: Reference)
        ensures
            r@ == self@,
    {
        match self {
            Reference::ProjectReference { reference_topic, sort_key } =>
                Reference::ProjectReference {
                reference_topic: *reference_topic,
                sort_key: *sort_key,
            },
            Reference::ProjectReferenceWithMentions {
                reference_topic,
                mention_topics,
                sort_key,
            } => Reference::ProjectReferenceWithMentions {
                reference_topic: *reference_topic,
                mention_topics: copy_topics(mention_topics),
                sort_key: *sort_key,
            },
            Reference::CommentMention { reference_topic, mention_topics, sort_key } =>
                Reference::CommentMention {
                reference_topic: *reference_topic,
                mention_topics: copy_topics(mention_topics),
                sort_key: *sort_key,
            },
        }
    }
}

/// A plain project reference.
pub open spec fn project_ref(topic: Topic, sort_key: Option<usize>) -> RefView {
    RefView { kind: RefKind::Project, topic, mentions: seq![], sort_key }
}

impl SourceChild {
    /// The key that orders children among each other.
    pub fn sort_key(&self) -> (r: Option<usize>)
        ensures
            r == child_key(self@),
    {
        match self {
            SourceChild::Reference(r) => r.sort_key(),
            SourceChild::AnnotatedBlock(a) => a.sort_key(),
        }
    }
}

/// The child that is a reference.
pub fn reference_child(r: Reference) -> (c: SourceChild)
    ensures
        c@ == ChildView::Reference(r@),
{
    SourceChild::Reference(r)
}

impl AnnotatedBlockSourceContext {
    pub fn annotation(&self) -> (r: &BlockAnnotation)
        ensures
            *r == self@->annotation,
    {
        &self.annotation
    }

    pub fn sort_key(&self) -> (r: Option<usize>)
        ensures
            r == child_key(self@),
            r == self@->sort_key,
    {
        self.sort_key
    }

    pub fn children(&self) -> (r: &[SourceChild])
        ensures
            child_views(r@) == self@->children,
    {
        self.children.as_slice()
    }

    pub fn has_sibling_branch(&self) -> (r: bool)
        ensures
            r == self@->has_sibling,
    {
        self.has_sibling_branch
    }
}

impl NestedSourceContext {
    pub fn new(subscope: Topic, sort_key: Option<usize>, children: Vec<SourceChild>) -> (r: Self)
        ensures
            r@ == (NestedView { subscope, sort_key, children: child_views(children@) }),
    {
        NestedSourceContext { subscope, sort_key, children }
    }

    pub fn subscope(&self) -> (r: &Topic)
        ensures
            *r == self@.subscope,
    {
        &self.subscope
    }

    pub fn sort_key(&self) -> (r: Option<usize>)
        ensures
            r == self@.sort_key,
    {
        self.sort_key
    }

    pub fn children(&self) -> (r: &[SourceChild])
        ensures
            child_views(r@) == self@.children,
    {
        self.children.as_slice()
    }
}

impl SourceContext {
    pub fn new_with_scope_references(
        scope: Topic,
        sort_key: Option<usize>,
        is_in_scope: bool,
        scope_references: Vec<Reference>,
    ) -> (r: Self)
        ensures
            r@ == (ContextView {
                scope,
                sort_key,
                is_in_scope,
                references: ref_views(scope_references@),
                nested: seq![],
            }),
    {
        let r = SourceContext {
            scope,
            sort_key,
            is_in_scope,
            scope_references,
            nested_references: Vec::new(),
        };
        assert(r@.nested =~= seq![]);
        r
    }

    /// A context with references at the scope and under subscopes.
    pub fn new(
        scope: Topic,
        sort_key: Option<usize>,
        is_in_scope: bool,
        scope_references: Vec<Reference>,
        nested_references: Vec<NestedSourceContext>,
    ) -> (r: Self)
        ensures
            r@ == (ContextView {
                scope,
                sort_key,
                is_in_scope,
                references: ref_views(scope_references@),
                nested: nested_views(nested_references@),
            }),
    {
        SourceContext { scope, sort_key, is_in_scope, scope_references, nested_references }
    }

    pub fn scope(&self) -> (r: &Topic)
        ensures
            *r == self@.scope,
    {
        &self.scope
    }

    pub fn sort_key(&self) -> (r: Option<usize>)
        ensures
            r == self@.sort_key,
    {
        self.sort_key
    }

    pub fn is_in_scope(&self) -> (r: bool)
        ensures
            r == self@.is_in_scope,
    {
        self.is_in_scope
    }

    pub fn scope_references(&self) -> (r: &[Reference])
        ensures
            ref_views(r@) == self@.references,
    {
        self.scope_references.as_slice()
    }

    pub fn nested_references(&self) -> (r: &[NestedSourceContext])
        ensures
            nested_views(r@) == self@.nested,
    {
        self.nested_references.as_slice()
    }

    /// A context that holds the same.
    pub fn copy(&self) -> (r: SourceContext)
        ensures
            r@ == self@,
    {
        let mut scope_references: Vec<Reference> = Vec::new();
        for i in 0..self.scope_references.len()
            invariant
                ref_views(scope_references@) == ref_views(self.scope_references@.take(i as int)),
        {
            let x = self.scope_references[i].copy();
            scope_references.push(x);
            assert(ref_views(scope_references@) =~= ref_views(
                self.scope_references@.take(i as int),
            ).push(x@));
            assert(ref_views(self.scope_references@.take(i + 1)) =~= ref_views(
                self.scope_references@.take(i as int),
            ).push(x@));
        }
        assert(self.scope_references@.take(self.scope_references@.len() as int)
            =~= self.scope_references@);
        let mut nested_references: Vec<NestedSourceContext> = Vec::new();
        for i in 0..self.nested_references.len()
            invariant
                nested_views(nested_references@) == nested_views(
                    self.nested_references@.take(i as int),
                ),
        {
            let n = &self.nested_references[i];
            let x = NestedSourceContext {
                subscope: n.subscope,
                sort_key: n.sort_key,
                children: copy_children(&n.children),
            };
            nested_references.push(x);
            assert(nested_views(nested_references@) =~= nested_views(
                self.nested_references@.take(i as int),
            ).push(x@));
            assert(nested_views(self.nested_references@.take(i + 1)) =~= nested_views(
                self.nested_references@.take(i as int),
            ).push(x@));
        }
        assert(self.nested_references@.take(self.nested_references@.len() as int)
            =~= self.nested_references@);
        SourceContext {
            scope: self.scope,
            sort_key: self.sort_key,
            is_in_scope: self.is_in_scope,
            scope_references,
            nested_references,
        }
    }
}

fn copy_children(children: &Vec<SourceChild>) -> (r: Vec<SourceChild>)
    ensures
        child_views(r@) == child_views(children@),
    decreases children,
{
    let mut r: Vec<SourceChild> = Vec::new();
    let mut i: usize = 0;
    while i < children.len()
        invariant
            i <= children@.len(),
            child_views(r@) == child_views(children@.take(i as int)),
        decreases children@.len() - i,
    {
        let c = &children[i];
        let x = match c {
            SourceChild::Reference(x) => SourceChild::Reference(x.copy()),
            SourceChild::AnnotatedBlock(b) => {
                assert(decreases_to!(children => children@[i as int]));
                SourceChild::AnnotatedBlock(
                    AnnotatedBlockSourceContext {
                        annotation: b.annotation,
                        sort_key: b.sort_key,
                        children: copy_children(&b.children),
                        has_sibling_branch: b.has_sibling_branch,
                    },
                )
            },
        };
        assert(child_view(x) == child_view(children@[i as int]));
        let ghost was = r@;
        r.push(x);
        assert(r@.drop_last() =~= was);
        assert(children@.take(i + 1).drop_last() =~= children@.take(i as int));
        i += 1;
    }
    assert(children@.take(children@.len() as int) =~= children@);
    r
}

/// Copies of the contexts.
pub fn copy_contexts(contexts: &Vec<SourceContext>) -> (r: Vec<SourceContext>)
    ensures
        context_views(r@) == context_views(contexts@),
{
    let mut r: Vec<SourceContext> = Vec::new();
    append_contexts(&mut r, contexts);
    assert(context_views(r@) =~= context_views(contexts@));
    r
}

/// Puts copies of `more` at the end of `list`.
pub fn append_contexts(list: &mut Vec<SourceContext>, more: &Vec<SourceContext>)
    ensures
        context_views(final(list)@) == context_views(old(list)@) + context_views(more@),
{
    for i in 0..more.len()
        invariant
            context_views(list@) == context_views(old(list)@) + context_views(
                more@.take(i as int),
            ),
    {
        let x = more[i].copy();
        let ghost was = list@;
        list.push(x);
        assert(context_views(list@) =~= context_views(was).push(x@));
        assert(context_views(more@.take(i + 1)) =~= context_views(more@.take(i as int)).push(x@));
        assert(context_views(list@) =~= context_views(old(list)@) + context_views(
            more@.take(i + 1),
        ));
    }
    assert(more@.take(more@.len() as int) =~= more@);
}

fn key_precedes(a: Option<usize>, b: Option<usize>) -> (r: bool)
    ensures
        r == key_less(a, b),
{
    match (a, b) {
        (None, Some(_)) => true,
        (Some(x), Some(y)) => x < y,
        _ => false,
    }
}

/// Where an item with `key` goes among items with `keys`.
fn find_insertion_point(keys: &Vec<Option<usize>>, key: Option<usize>) -> (r: usize)
    ensures
        r == insertion_point(keys@, key),
        r <= keys@.len(),
{
    let mut pos: usize = keys.len();
    assert(keys@.take(keys@.len() as int) =~= keys@);
    while pos > 0 && key_precedes(key, keys[pos - 1])
        invariant
            pos <= keys@.len(),
            insertion_point(keys@, key) == insertion_point(keys@.take(pos as int), key),
        decreases pos,
    {
        assert(keys@.take(pos as int).drop_last() =~= keys@.take(pos - 1));
        pos -= 1;
    }
    pos
}

/// The sort key of a topic: its number.
pub fn sort_key_of(t: &Topic) -> (r: Option<usize>)
    ensures
        r == topic_key(*t),
{
    Some(#[verifier::truncate] (t.numeric_id() as usize))
}

/// Merges `incoming` into `existing`, a reference to the same topic: a mention
/// of a project reference promotes it, mentions of both are joined, and a
/// project reference met again changes nothing.
fn merge_reference(existing: &mut Reference, incoming: &Reference)
    requires
        old(existing)@.topic == incoming@.topic,
    ensures
        final(existing)@ == merged_ref(old(existing)@, incoming@),
{
    let topic = *existing.reference_topic();
    let key = existing.sort_key();
    match existing {
        Reference::ProjectReference { .. } => match incoming {
            Reference::CommentMention { mention_topics, .. } => {
                *existing = Reference::ProjectReferenceWithMentions {
                    reference_topic: topic,
                    mention_topics: copy_topics(mention_topics),
                    sort_key: key,
                };
            },
            _ => {},
        },
        Reference::ProjectReferenceWithMentions { mention_topics: mentions, .. } =>
            match incoming {
            Reference::CommentMention { mention_topics, .. } => {
                push_all_new(mentions, mention_topics);
            },
            _ => {},
        },
        Reference::CommentMention { mention_topics: mentions, .. } => match incoming {
            Reference::CommentMention { mention_topics, .. } => {
                push_all_new(mentions, mention_topics);
            },
            Reference::ProjectReference { .. } => {
                let mention_topics = copy_topics(mentions);
                *existing = Reference::ProjectReferenceWithMentions {
                    reference_topic: topic,
                    mention_topics,
                    sort_key: key,
                };
            },
            _ => {},
        },
    }
}

fn keys_of_refs(refs: &Vec<Reference>) -> (r: Vec<Option<usize>>)
    ensures
        r@ == ref_keys(ref_views(refs@)),
{
    let mut keys: Vec<Option<usize>> = Vec::new();
    for i in 0..refs.len()
        invariant
            keys@.len() == i,
            forall|j: int| 0 <= j < i ==> #[trigger] keys@[j] == refs@[j]@.sort_key,
    {
        keys.push(refs[i].sort_key());
    }
    assert(keys@ =~= ref_keys(ref_views(refs@)));
    keys
}

/// Puts a reference into a sorted list, or merges it into the reference to the
/// same topic.
fn insert_ref_sorted(refs: &mut Vec<Reference>, reference: Reference)
    ensures
        ref_views(final(refs)@) == with_ref(ref_views(old(refs)@), reference@),
{
    let ghost was = ref_views(refs@);
    let ghost p = ref_is(reference@.topic);
    let topic = *reference.reference_topic();
    let n: usize = refs.len();
    for i in 0..n
        invariant
            n == refs@.len(),
            *refs == *old(refs),
            was == ref_views(refs@),
            p == ref_is(reference@.topic),
            topic == reference@.topic,
            forall|j: int| 0 <= j < i ==> !#[trigger] p(was[j]),
    {
        assert(was[i as int] == refs@[i as int]@);
        if *refs[i].reference_topic() == topic {
            proof {
                assert(is_first(was, p, i as int));
                lemma_first_index(was, p, i as int);
            }
            merge_reference(&mut refs[i], &reference);
            assert(ref_views(refs@) =~= with_ref(was, reference@));
            return;
        }
    }
    assert(!any(was, p));
    let keys = keys_of_refs(refs);
    let pos = find_insertion_point(&keys, reference.sort_key());
    let ghost r = reference@;
    refs.insert(pos, reference);
    assert(ref_views(refs@) =~= was.insert(pos as int, r));
}

fn keys_of_children(children: &Vec<SourceChild>) -> (r: Vec<Option<usize>>)
    ensures
        r@ == child_keys(child_views(children@)),
{
    proof {
        lemma_child_views(children@);
    }
    let mut keys: Vec<Option<usize>> = Vec::new();
    for i in 0..children.len()
        invariant
            keys@.len() == i,
            forall|j: int| 0 <= j < i ==> #[trigger] keys@[j] == child_key(children@[j]@),
    {
        keys.push(children[i].sort_key());
    }
    assert(keys@ =~= child_keys(child_views(children@)));
    keys
}

proof fn lemma_child_views_update(s: Seq<SourceChild>, i: int, c: SourceChild)
    requires
        0 <= i < s.len(),
    ensures
        child_views(s.update(i, c)) == child_views(s).update(i, child_view(c)),
{
    lemma_child_views(s);
    lemma_child_views(s.update(i, c));
    assert(child_views(s.update(i, c)) =~= child_views(s).update(i, child_view(c)));
}

proof fn lemma_child_views_insert(s: Seq<SourceChild>, i: int, c: SourceChild)
    requires
        0 <= i <= s.len(),
    ensures
        child_views(s.insert(i, c)) == child_views(s).insert(i, child_view(c)),
{
    lemma_child_views(s);
    lemma_child_views(s.insert(i, c));
    assert(child_views(s.insert(i, c)) =~= child_views(s).insert(i, child_view(c)));
}

/// Puts a reference among sorted children, or merges it into the reference to
/// the same topic.
fn insert_child_ref(children: &mut Vec<SourceChild>, reference: Reference)
    ensures
        child_views(final(children)@) == with_child(child_views(old(children)@), reference@),
{
    let ghost was = child_views(children@);
    let ghost s = children@;
    let ghost p = child_is(reference@.topic);
    proof {
        lemma_child_views(children@);
    }
    let topic = *reference.reference_topic();
    let n: usize = children.len();
    for i in 0..n
        invariant
            n == children@.len(),
            *children == *old(children),
            s == children@,
            was == child_views(s),
            was.len() == s.len(),
            forall|j: int| 0 <= j < s.len() ==> #[trigger] was[j] == child_view(s[j]),
            p == child_is(reference@.topic),
            topic == reference@.topic,
            forall|j: int| 0 <= j < i ==> !#[trigger] p(was[j]),
    {
        assert(was[i as int] == child_view(s[i as int]));
        let found = match &children[i] {
            SourceChild::Reference(x) => *x.reference_topic() == topic,
            _ => false,
        };
        if found {
            proof {
                assert(is_first(was, p, i as int));
                lemma_first_index(was, p, i as int);
            }
            match &mut children[i] {
                SourceChild::Reference(x) => {
                    merge_reference(x, &reference);
                },
                _ => {},
            }
            proof {
                lemma_child_views_update(s, i as int, children@[i as int]);
                assert(children@ =~= s.update(i as int, children@[i as int]));
            }
            return;
        }
    }
    assert(!any(was, p));
    let keys = keys_of_children(children);
    let pos = find_insertion_point(&keys, reference.sort_key());
    proof {
        lemma_child_views_insert(s, pos as int, SourceChild::Reference(reference));
    }
    children.insert(pos, SourceChild::Reference(reference));
}

/// Opens a block for annotation `ann` among `children` and says where it stands.
fn open_block(children: &mut Vec<SourceChild>, ann: &BlockAnnotation) -> (r: usize)
    ensures
        child_views(final(children)@) == with_block(child_views(old(children)@), *ann),
        r < final(children)@.len(),
        r == first_index(child_views(final(children)@), block_is(*ann)),
        final(children)@[r as int] is AnnotatedBlock,
{
    let ghost was = child_views(children@);
    let ghost s = children@;
    let ghost p = block_is(*ann);
    let ghost q = sibling_of(*ann);
    proof {
        lemma_child_views(children@);
    }
    let mut sibling = false;
    let n: usize = children.len();
    for i in 0..n
        invariant
            n == children@.len(),
            *children == *old(children),
            s == children@,
            was == child_views(s),
            was.len() == s.len(),
            forall|j: int| 0 <= j < s.len() ==> #[trigger] was[j] == child_view(s[j]),
            p == block_is(*ann),
            q == sibling_of(*ann),
            forall|j: int| 0 <= j < i ==> !#[trigger] p(was[j]),
            sibling == exists|j: int| 0 <= j < i && #[trigger] q(was[j]),
    {
        assert(was[i as int] == child_view(s[i as int]));
        match &children[i] {
            SourceChild::AnnotatedBlock(g) => {
                if g.annotation.topic == ann.topic {
                    if g.annotation.kind == ann.kind {
                        assert(is_first(was, p, i as int));
                        proof {
                            lemma_first_index(was, p, i as int);
                        }
                        return i;
                    }
                    assert(q(was[i as int]));
                    sibling = true;
                }
            },
            _ => {},
        }
    }
    assert(!any(was, p));
    let has_sibling = matches!(ann.kind, BlockAnnotationKind::If(_)) && sibling;
    let sort_key = sort_key_of(&ann.topic);
    let keys = keys_of_children(children);
    let pos = find_insertion_point(&keys, sort_key);
    let block = SourceChild::AnnotatedBlock(
        AnnotatedBlockSourceContext {
            annotation: *ann,
            sort_key,
            children: Vec::new(),
            has_sibling_branch: has_sibling,
        },
    );
    let ghost opened = s.insert(pos as int, block);
    proof {
        lemma_child_views_insert(s, pos as int, block);
        lemma_child_views(opened);
    }
    let ghost block_view = child_view(block);
    children.insert(pos, block);
    let ghost o = child_views(opened);
    assert(o =~= was.insert(pos as int, block_view));
    proof {
        assert forall|j: int| 0 <= j < pos implies !#[trigger] p(o[j]) by {
            assert(o[j] == was[j]);
        }
        assert(p(o[pos as int]));
    }
    if !has_sibling {
        proof {
            assert(is_first(o, p, pos as int));
            lemma_first_index(o, p, pos as int);
        }
        return pos;
    }
    proof {
        let k = choose|j: int| 0 <= j < was.len() && #[trigger] q(was[j]);
        assert(any(was, q));
        assert(q(o[if k < pos {
            k
        } else {
            k + 1
        }]));
        assert(any(o, q));
        lemma_first_exists(o, q);
    }
    let mut i: usize = 0;
    loop
        invariant
            children@ == opened,
            o == child_views(opened),
            o.len() == opened.len(),
            forall|j: int| 0 <= j < opened.len() ==> #[trigger] o[j] == child_view(opened[j]),
            q == sibling_of(*ann),
            p == block_is(*ann),
            is_first(o, q, first_index(o, q)),
            i <= first_index(o, q),
            pos < opened.len(),
            p(o[pos as int]),
            forall|j: int| 0 <= j < pos ==> !#[trigger] p(o[j]),
            has_sibling,
            with_block(was, *ann) == o.update(
                first_index(o, q),
                marked_sibling(o[first_index(o, q)]),
            ),
            was == child_views(old(children)@),
        decreases first_index(o, q) - i,
    {
        assert(o[i as int] == child_view(opened[i as int]));
        let found = match &children[i] {
            SourceChild::AnnotatedBlock(g) => g.annotation.topic == ann.topic && g.annotation.kind
                != ann.kind,
            _ => false,
        };
        if found {
            proof {
                assert(is_first(o, q, i as int)) by {
                    assert(q(o[i as int]));
                }
                lemma_first_index(o, q, i as int);
            }
            match &mut children[i] {
                SourceChild::AnnotatedBlock(g) => {
                    g.has_sibling_branch = true;
                },
                _ => {},
            }
            let ghost marked = o.update(i as int, marked_sibling(o[i as int]));
            proof {
                assert(children@ =~= opened.update(i as int, children@[i as int]));
                lemma_child_views_update(opened, i as int, children@[i as int]);
                assert(child_views(children@) =~= marked);
                assert forall|j: int| 0 <= j < pos implies !#[trigger] p(marked[j]) by {
                    if j == i {
                        assert(q(o[i as int]));
                    } else {
                        assert(marked[j] == o[j]);
                    }
                }
                assert(i != pos);
                assert(marked[pos as int] == o[pos as int]);
                assert(is_first(marked, p, pos as int));
                lemma_first_index(marked, p, pos as int);
                lemma_child_views(children@);
                assert(child_view(children@[pos as int]) == marked[pos as int]);
            }
            return pos;
        }
        assert(!q(o[i as int]));
        assert(i < children.len());
        i += 1;
    }
}

/// Puts a reference under the chain of annotated blocks from `depth` on.
fn insert_annotated(
    children: &mut Vec<SourceChild>,
    chain: &[BlockAnnotation],
    depth: usize,
    reference: Reference,
)
    requires
        depth <= chain@.len(),
    ensures
        child_views(final(children)@) == with_annotated(
            child_views(old(children)@),
            chain@.subrange(depth as int, chain@.len() as int),
            reference@,
        ),
    decreases chain@.len() - depth,
{
    let ghost rest = chain@.subrange(depth as int, chain@.len() as int);
    if depth == chain.len() {
        insert_child_ref(children, reference);
        return;
    }
    let ghost was = child_views(children@);
    let i = open_block(children, &chain[depth]);
    let ghost opened = children@;
    proof {
        lemma_child_views(opened);
        assert(rest.drop_first() =~= chain@.subrange(depth + 1, chain@.len() as int));
        assert(rest[0] == chain@[depth as int]);
    }
    match &mut children[i] {
        SourceChild::AnnotatedBlock(g) => {
            insert_annotated(&mut g.children, chain, depth + 1, reference);
        },
        _ => {},
    }
    proof {
        assert(children@ =~= opened.update(i as int, children@[i as int]));
        lemma_child_views_update(opened, i as int, children@[i as int]);
    }
}

fn keys_of_nested(nested: &Vec<NestedSourceContext>) -> (r: Vec<Option<usize>>)
    ensures
        r@ == nested_keys(nested_views(nested@)),
{
    let mut keys: Vec<Option<usize>> = Vec::new();
    for i in 0..nested.len()
        invariant
            keys@.len() == i,
            forall|j: int| 0 <= j < i ==> #[trigger] keys@[j] == nested@[j]@.sort_key,
    {
        keys.push(nested[i].sort_key);
    }
    assert(keys@ =~= nested_keys(nested_views(nested@)));
    keys
}

fn find_nested(nested: &Vec<NestedSourceContext>, subscope: &Topic) -> (r: Option<usize>)
    ensures
        match r {
            Some(i) => i < nested@.len() && any(nested_views(nested@), nested_is(*subscope)) && i
                == first_index(nested_views(nested@), nested_is(*subscope)),
            None => !any(nested_views(nested@), nested_is(*subscope)),
        },
{
    let ghost v = nested_views(nested@);
    let ghost p = nested_is(*subscope);
    for i in 0..nested.len()
        invariant
            v == nested_views(nested@),
            p == nested_is(*subscope),
            forall|j: int| 0 <= j < i ==> !#[trigger] p(v[j]),
    {
        assert(v[i as int] == nested@[i as int]@);
        if nested[i].subscope == *subscope {
            proof {
                assert(is_first(v, p, i as int));
                lemma_first_index(v, p, i as int);
            }
            return Some(i);
        }
    }
    assert(!any(v, p));
    None
}

/// Puts a child into a list, behind those that it does not come before.
fn join_child(children: &mut Vec<SourceChild>, child: SourceChild)
    ensures
        child_views(final(children)@) == joined_by(child_views(old(children)@), child@),
{
    let keys = keys_of_children(children);
    let pos = find_insertion_point(&keys, child.sort_key());
    proof {
        lemma_child_views(children@);
        lemma_child_views_insert(children@, pos as int, child);
    }
    children.insert(pos, child);
}

/// Puts a nested context into a sorted list. Where its subscope is there, its
/// children join those that are there.
fn insert_nested_sorted(nested_refs: &mut Vec<NestedSourceContext>, nested: NestedSourceContext)
    ensures
        nested_views(final(nested_refs)@) == with_nested(nested_views(old(nested_refs)@), nested@),
{
    let ghost was = nested_views(nested_refs@);
    let ghost n = nested@;
    match find_nested(nested_refs, &nested.subscope) {
        Some(i) => {
            let NestedSourceContext { children, .. } = nested;
            let ghost more = child_views(children@);
            let ghost before = nested_refs@[i as int];
            let ghost all = children@;
            proof {
                lemma_child_views(all);
            }
            assert(more.take(0) =~= seq![]);
            for child in it: children
                invariant
                    it.seq() == all,
                    more == child_views(all),
                    more.len() == all.len(),
                    i < old(nested_refs)@.len(),
                    nested_refs@ == old(nested_refs)@.update(i as int, nested_refs@[i as int]),
                    before == old(nested_refs)@[i as int],
                    nested_refs@[i as int].subscope == before.subscope,
                    nested_refs@[i as int].sort_key == before.sort_key,
                    child_views(nested_refs@[i as int].children@) == joined_children(
                        child_views(before.children@),
                        more.take(it.index() as int),
                    ),
            {
                proof {
                    lemma_child_views(all);
                    let k = it.index() as int;
                    assert(more.take(k + 1).drop_last() =~= more.take(k));
                    assert(more.take(k + 1).last() == child@);
                }
                join_child(&mut nested_refs[i].children, child);
                assert(nested_refs@ =~= old(nested_refs)@.update(i as int, nested_refs@[i as int]));
            }
            assert(more.take(more.len() as int) =~= more);
            assert(was[i as int] == before@);
            assert(nested_views(nested_refs@) =~= with_nested(was, n));
        },
        None => {
            let keys = keys_of_nested(nested_refs);
            let pos = find_insertion_point(&keys, nested.sort_key);
            nested_refs.insert(pos, nested);
            assert(nested_views(nested_refs@) =~= was.insert(pos as int, n));
        },
    }
}

fn keys_of_contexts(groups: &Vec<SourceContext>) -> (r: Vec<Option<usize>>)
    ensures
        r@ == context_keys(context_views(groups@)),
{
    let mut keys: Vec<Option<usize>> = Vec::new();
    for i in 0..groups.len()
        invariant
            keys@.len() == i,
            forall|j: int| 0 <= j < i ==> #[trigger] keys@[j] == groups@[j]@.sort_key,
    {
        keys.push(groups[i].sort_key);
    }
    assert(keys@ =~= context_keys(context_views(groups@)));
    keys
}

fn find_context(groups: &Vec<SourceContext>, scope: &Topic) -> (r: Option<usize>)
    ensures
        match r {
            Some(i) => i < groups@.len() && any(context_views(groups@), context_is(*scope)) && i
                == first_index(context_views(groups@), context_is(*scope)),
            None => !any(context_views(groups@), context_is(*scope)),
        },
{
    let ghost v = context_views(groups@);
    let ghost p = context_is(*scope);
    for i in 0..groups.len()
        invariant
            v == context_views(groups@),
            p == context_is(*scope),
            forall|j: int| 0 <= j < i ==> !#[trigger] p(v[j]),
    {
        assert(v[i as int] == groups@[i as int]@);
        if groups[i].scope == *scope {
            proof {
                assert(is_first(v, p, i as int));
                lemma_first_index(v, p, i as int);
            }
            return Some(i);
        }
    }
    assert(!any(v, p));
    None
}

/// A new group, inserted where none of its scope was, is the first of its scope.
proof fn lemma_inserted_is_first<A>(s: Seq<A>, p: spec_fn(A) -> bool, pos: int, a: A)
    requires
        !any(s, p),
        p(a),
        0 <= pos <= s.len(),
    ensures
        any(s.insert(pos, a), p),
        first_index(s.insert(pos, a), p) == pos,
{
    let o = s.insert(pos, a);
    assert forall|j: int| 0 <= j < pos implies !#[trigger] p(o[j]) by {
        assert(o[j] == s[j]);
        if p(s[j]) {
            assert(any(s, p));
        }
    }
    assert(is_first(o, p, pos));
    lemma_first_index(o, p, pos);
}

/// Opens a context for the scope and says where it stands.
fn open_context(
    groups: &mut Vec<SourceContext>,
    scope: Topic,
    scope_sort_key: Option<usize>,
    is_in_scope: bool,
) -> (r: usize)
    ensures
        context_views(final(groups)@) == with_context(
            context_views(old(groups)@),
            scope,
            scope_sort_key,
            is_in_scope,
        ),
        r < final(groups)@.len(),
        r == first_index(context_views(final(groups)@), context_is(scope)),
{
    let ghost was = context_views(groups@);
    match find_context(groups, &scope) {
        Some(i) => i,
        None => {
            let keys = keys_of_contexts(groups);
            let pos = find_insertion_point(&keys, scope_sort_key);
            let c = SourceContext::new_with_scope_references(
                scope,
                scope_sort_key,
                is_in_scope,
                Vec::new(),
            );
            assert(c@.references =~= seq![]);
            proof {
                lemma_inserted_is_first(was, context_is(scope), pos as int, c@);
            }
            let ghost v = c@;
            groups.insert(pos, c);
            assert(context_views(groups@) =~= was.insert(pos as int, v));
            pos
        },
    }
}

/// Ensures that there is a context for the scope, at its place in the order.
pub fn ensure_context(
    groups: &mut Vec<SourceContext>,
    scope: Topic,
    scope_sort_key: Option<usize>,
    is_in_scope: bool,
)
    ensures
        context_views(final(groups)@) == with_context(
            context_views(old(groups)@),
            scope,
            scope_sort_key,
            is_in_scope,
        ),
{
    let _ = open_context(groups, scope, scope_sort_key, is_in_scope);
}

/// Puts a reference into the context of its scope and subscope, under the
/// chain of annotated blocks. A reference to a topic that is referred to there
/// already is merged.
pub fn insert_into_context(
    groups: &mut Vec<SourceContext>,
    scope: Topic,
    scope_sort_key: Option<usize>,
    is_in_scope: bool,
    subscope: Option<(Topic, Option<usize>)>,
    annotation_chain: &[BlockAnnotation],
    reference: Reference,
)
    ensures
        context_views(final(groups)@) == with_reference(
            context_views(old(groups)@),
            scope,
            scope_sort_key,
            is_in_scope,
            subscope,
            annotation_chain@,
            reference@,
        ),
{
    let i = open_context(groups, scope, scope_sort_key, is_in_scope);
    let ghost opened = groups@;
    let ghost v = context_views(opened);
    let ghost r = reference@;
    assert(v[i as int] == opened[i as int]@);
    match subscope {
        None => {
            insert_ref_sorted(&mut groups[i].scope_references, reference);
        },
        Some((subscope_topic, subscope_sort_key)) => {
            let ghost nested0 = nested_views(groups@[i as int].nested_references@);
            let k: usize = match find_nested(&groups[i].nested_references, &subscope_topic) {
                Some(k) => k,
                None => {
                    let keys = keys_of_nested(&groups[i].nested_references);
                    let pos = find_insertion_point(&keys, subscope_sort_key);
                    let n = NestedSourceContext {
                        subscope: subscope_topic,
                        sort_key: subscope_sort_key,
                        children: Vec::new(),
                    };
                    proof {
                        lemma_child_views(n.children@);
                        assert(child_views(n.children@) =~= seq![]);
                        lemma_inserted_is_first(
                            nested0,
                            nested_is(subscope_topic),
                            pos as int,
                            n@,
                        );
                    }
                    let ghost nv = n@;
                    groups[i].nested_references.insert(pos, n);
                    assert(nested_views(groups@[i as int].nested_references@) =~= nested0.insert(
                        pos as int,
                        nv,
                    ));
                    pos
                },
            };
            let ghost nested1 = groups@[i as int].nested_references@;
            assert(nested_views(nested1) == with_subscope(
                nested0,
                subscope_topic,
                subscope_sort_key,
            ));
            assert(nested_views(nested1)[k as int] == nested1[k as int]@);
            assert(annotation_chain@.subrange(0, annotation_chain@.len() as int)
                =~= annotation_chain@);
            insert_annotated(
                &mut groups[i].nested_references[k].children,
                annotation_chain,
                0,
                reference,
            );
            assert(nested_views(groups@[i as int].nested_references@) =~= nested_views(
                nested1,
            ).update(k as int, groups@[i as int].nested_references@[k as int]@));
        },
    }
    assert(context_views(groups@) =~= v.update(i as int, groups@[i as int]@));
}

/// Joins contexts of the same scope into one, with their references merged.
pub fn merge_context_groups(contexts: Vec<SourceContext>) -> (r: Vec<SourceContext>)
    ensures
        context_views(r@) == merged_contexts(context_views(contexts@)),
{
    let ghost all = context_views(contexts@);
    let mut merged: Vec<SourceContext> = Vec::new();
    let mut contexts = contexts;
    let ghost mut done: int = 0;
    assert(context_views(merged@) =~= seq![]);
    assert(all.take(0) =~= seq![]);
    while contexts.len() > 0
        invariant
            0 <= done <= all.len(),
            context_views(contexts@) == all.skip(done),
            context_views(merged@) == merged_contexts(all.take(done)),
        decreases contexts@.len(),
    {
        let ghost c = contexts@[0]@;
        let ghost before = contexts@;
        let ctx = contexts.remove(0);
        proof {
            assert(context_views(before).len() == before.len());
            assert(context_views(before)[0] == c);
            assert(all.skip(done)[0] == all[done]);
            assert(context_views(contexts@) =~= context_views(before).drop_first());
            assert(all.skip(done).drop_first() =~= all.skip(done + 1));
            assert(all.take(done + 1).drop_last() =~= all.take(done));
        }
        let SourceContext { scope, sort_key, is_in_scope, scope_references, nested_references } =
            ctx;
        let ghost refs = ref_views(scope_references@);
        let ghost nesteds = nested_views(nested_references@);
        let i = open_context(&mut merged, scope, sort_key, is_in_scope);
        let ghost opened = merged@;
        let ghost v = context_views(opened);
        assert(v[i as int] == opened[i as int]@);
        let mut scope_references = scope_references;
        let ghost mut n: int = 0;
        assert(refs.take(0) =~= seq![]);
        while scope_references.len() > 0
            invariant
                i < opened.len(),
                merged@.len() == opened.len(),
                forall|j: int| 0 <= j < opened.len() && j != i ==> merged@[j] == opened[j],
                merged@[i as int].scope == opened[i as int].scope,
                merged@[i as int].sort_key == opened[i as int].sort_key,
                merged@[i as int].is_in_scope == opened[i as int].is_in_scope,
                merged@[i as int].nested_references == opened[i as int].nested_references,
                0 <= n <= refs.len(),
                ref_views(scope_references@) == refs.skip(n),
                ref_views(merged@[i as int].scope_references@) == with_refs(
                    opened[i as int]@.references,
                    refs.take(n),
                ),
            decreases scope_references@.len(),
        {
            let ghost was = scope_references@;
            let x = scope_references.remove(0);
            proof {
                assert(ref_views(was).len() == was.len());
                assert(ref_views(was)[0] == x@);
                assert(refs.skip(n)[0] == refs[n]);
                assert(ref_views(scope_references@) =~= ref_views(was).drop_first());
                assert(refs.skip(n).drop_first() =~= refs.skip(n + 1));
                assert(refs.take(n + 1).drop_last() =~= refs.take(n));
            }
            insert_ref_sorted(&mut merged[i].scope_references, x);
            proof {
                n = n + 1;
            }
        }
        assert(refs.take(n) =~= refs);
        let mut nested_references = nested_references;
        let ghost mut m: int = 0;
        assert(nesteds.take(0) =~= seq![]);
        while nested_references.len() > 0
            invariant
                i < opened.len(),
                merged@.len() == opened.len(),
                forall|j: int| 0 <= j < opened.len() && j != i ==> merged@[j] == opened[j],
                merged@[i as int].scope == opened[i as int].scope,
                merged@[i as int].sort_key == opened[i as int].sort_key,
                merged@[i as int].is_in_scope == opened[i as int].is_in_scope,
                ref_views(merged@[i as int].scope_references@) == with_refs(
                    opened[i as int]@.references,
                    refs,
                ),
                0 <= m <= nesteds.len(),
                nested_views(nested_references@) == nesteds.skip(m),
                nested_views(merged@[i as int].nested_references@) == with_all_nested(
                    opened[i as int]@.nested,
                    nesteds.take(m),
                ),
            decreases nested_references@.len(),
        {
            let ghost was = nested_references@;
            let x = nested_references.remove(0);
            proof {
                assert(nested_views(was).len() == was.len());
                assert(nested_views(was)[0] == x@);
                assert(nesteds.skip(m)[0] == nesteds[m]);
                assert(nested_views(nested_references@) =~= nested_views(was).drop_first());
                assert(nesteds.skip(m).drop_first() =~= nesteds.skip(m + 1));
                assert(nesteds.take(m + 1).drop_last() =~= nesteds.take(m));
            }
            insert_nested_sorted(&mut merged[i].nested_references, x);
            proof {
                m = m + 1;
            }
        }
        assert(nesteds.take(m) =~= nesteds);
        assert(context_views(merged@) =~= v.update(i as int, merged@[i as int]@));
        proof {
            done = done + 1;
        }
    }
    assert(all.take(done) =~= all);
    merged
}

} // verus!
