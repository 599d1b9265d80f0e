//! What holds of contexts whatever is put in.
use crate::domain::context::{block_is, child_is, child_key, child_keys, context_is, context_keys};
use crate::domain::context::{context_with, insertion_keeps_order, insertion_point, joined_by};
use crate::domain::context::{joined_children, key_less, keys_sorted, lemma_insertion_point_range};
use crate::domain::context::{marked_sibling, merged_contexts, merged_ref, nested_is, nested_keys};
use crate::domain::context::{ref_is, ref_keys, sibling_of, topic_key, with_all_nested};
use crate::domain::context::{with_annotated, with_block, with_child, with_context, with_nested};
use crate::domain::context::{with_ref, with_reference, with_refs, with_subscope, ChildView};
use crate::domain::context::{ContextView, NestedView, RefView};
use crate::domain::lists::{any, first_index, is_first, lemma_first_exists, lemma_first_index};
use crate::domain::lists::with_topics;
use crate::domain::scope::BlockAnnotation;
use crate::domain::topic::Topic;
use vstd::prelude::*;

verus! {

/// No two references are to the same topic, and they stand in the order of their
/// keys.
pub open spec fn refs_in_order(refs: Seq<RefView>) -> bool {
    &&& keys_sorted(ref_keys(refs))
    &&& forall|i: int, j: int|
        0 <= i < j < refs.len() ==> (#[trigger] refs[i]).topic != (#[trigger] refs[j]).topic
}

proof fn lemma_not_any<A>(s: Seq<A>, p: spec_fn(A) -> bool, i: int)
    requires
        !any(s, p),
        0 <= i < s.len(),
    ensures
        !p(s[i]),
{
}

/// Putting a reference in keeps references in order, with each topic once.
pub proof fn references_stay_in_order(refs: Seq<RefView>, r: RefView)
    requires
        refs_in_order(refs),
    ensures
        refs_in_order(with_ref(refs, r)),
{
    let p = ref_is(r.topic);
    let after = with_ref(refs, r);
    if any(refs, p) {
        lemma_first_exists(refs, p);
        let k = first_index(refs, p);
        assert(ref_keys(after) =~= ref_keys(refs));
        assert forall|i: int, j: int| 0 <= i < j < after.len() implies (#[trigger] after[i]).topic
            != (#[trigger] after[j]).topic by {
            assert(refs[i].topic != refs[j].topic);
        }
    } else {
        let at = insertion_point(ref_keys(refs), r.sort_key);
        insertion_keeps_order(ref_keys(refs), r.sort_key);
        assert(ref_keys(after) =~= ref_keys(refs).insert(at, r.sort_key));
        assert forall|i: int, j: int| 0 <= i < j < after.len() implies (#[trigger] after[i]).topic
            != (#[trigger] after[j]).topic by {
            let i0 = if i < at {
                i
            } else {
                i - 1
            };
            let j0 = if j < at {
                j
            } else {
                j - 1
            };
            if i != at && j != at {
                assert(after[i] == refs[i0] && after[j] == refs[j0]);
            } else if i == at {
                lemma_not_any(refs, p, j0);
                assert(after[j] == refs[j0]);
            } else {
                lemma_not_any(refs, p, i0);
                assert(after[i] == refs[i0]);
            }
        }
    }
}

proof fn lemma_with_known_topics(list: Seq<Topic>, more: Seq<Topic>)
    requires
        forall|i: int| 0 <= i < more.len() ==> list.contains(#[trigger] more[i]),
    ensures
        with_topics(list, more) == list,
    decreases more.len(),
{
    if more.len() > 0 {
        let m = more.drop_last();
        assert(forall|i: int| 0 <= i < m.len() ==> #[trigger] m[i] == more[i]);
        lemma_with_known_topics(list, m);
        assert(list.contains(more[more.len() - 1]));
    }
}

proof fn lemma_with_topics_twice(list: Seq<Topic>, more: Seq<Topic>)
    ensures
        with_topics(with_topics(list, more), more) == with_topics(list, more),
        with_topics(more, more) == more,
{
    crate::domain::lists::with_topics_holds_both(list, more);
    assert forall|i: int| 0 <= i < more.len() implies with_topics(list, more).contains(
        #[trigger] more[i],
    ) by {
        assert(more.contains(more[i]));
    }
    lemma_with_known_topics(with_topics(list, more), more);
    assert forall|i: int| 0 <= i < more.len() implies more.contains(#[trigger] more[i]) by {}
    lemma_with_known_topics(more, more);
}

/// A reference that comes in a second time adds nothing.
pub proof fn merging_twice_adds_nothing(old_ref: RefView, r: RefView)
    ensures
        merged_ref(merged_ref(old_ref, r), r) == merged_ref(old_ref, r),
        merged_ref(r, r) == r,
{
    lemma_with_topics_twice(old_ref.mentions, r.mentions);
}

/// Putting the same reference in a second time changes nothing.
pub proof fn repeated_reference_changes_nothing(refs: Seq<RefView>, r: RefView)
    ensures
        with_ref(with_ref(refs, r), r) == with_ref(refs, r),
{
    let p = ref_is(r.topic);
    let once = with_ref(refs, r);
    if any(refs, p) {
        lemma_first_exists(refs, p);
        let k = first_index(refs, p);
        merging_twice_adds_nothing(refs[k], r);
        assert(once[k] == merged_ref(refs[k], r));
        assert forall|j: int| 0 <= j < k implies !#[trigger] p(once[j]) by {
            assert(once[j] == refs[j]);
            assert(!p(refs[j]));
        }
        assert(p(once[k]));
        assert(is_first(once, p, k));
        lemma_first_index(once, p, k);
        assert(with_ref(once, r) =~= once);
    } else {
        let at = insertion_point(ref_keys(refs), r.sort_key);
        lemma_insertion_point_range(ref_keys(refs), r.sort_key);
        merging_twice_adds_nothing(r, r);
        assert(once[at] == r);
        assert forall|j: int| 0 <= j < at implies !#[trigger] p(once[j]) by {
            assert(once[j] == refs[j]);
            lemma_not_any(refs, p, j);
        }
        assert(p(once[at]));
        assert(is_first(once, p, at));
        lemma_first_index(once, p, at);
        assert(with_ref(once, r) =~= once);
    }
}

/// No two children are references to the same topic or blocks with the same
/// annotation, they stand in the order of their keys, and so do the children of
/// each block.
pub open spec fn children_in_order(children: Seq<ChildView>) -> bool
    decreases children,
{
    &&& keys_sorted(child_keys(children))
    &&& forall|i: int, j: int|
        0 <= i < j < children.len() ==> !same_child(#[trigger] children[i], #[trigger] children[j])
    &&& forall|i: int| 0 <= i < children.len() ==> inside_in_order(#[trigger] children[i])
}

pub open spec fn inside_in_order(c: ChildView) -> bool
    decreases c,
{
    match c {
        ChildView::Block { children, .. } => children_in_order(children),
        _ => true,
    }
}

/// Two references to one topic, or two blocks with one annotation.
pub open spec fn same_child(a: ChildView, b: ChildView) -> bool {
    match (a, b) {
        (ChildView::Reference(r), ChildView::Reference(s)) => r.topic == s.topic,
        (
            ChildView::Block { annotation: x, .. },
            ChildView::Block { annotation: y, .. },
        ) => x == y,
        _ => false,
    }
}

/// Children with one of them replaced by one of the same key and identity.
proof fn lemma_replaced_child(children: Seq<ChildView>, k: int, c: ChildView)
    requires
        children_in_order(children),
        0 <= k < children.len(),
        same_child(children[k], c),
        child_key(c) == child_key(children[k]),
        inside_in_order(c),
    ensures
        children_in_order(children.update(k, c)),
{
    let after = children.update(k, c);
    assert(child_keys(after) =~= child_keys(children));
    assert forall|i: int, j: int| 0 <= i < j < after.len() implies !same_child(
        #[trigger] after[i],
        #[trigger] after[j],
    ) by {
        assert(!same_child(children[i], children[j]));
    }
    assert forall|i: int| 0 <= i < after.len() implies inside_in_order(#[trigger] after[i]) by {
        if i != k {
            assert(after[i] == children[i]);
        }
    }
}

/// Children with one more at its place in the order.
proof fn lemma_inserted_child(children: Seq<ChildView>, c: ChildView)
    requires
        children_in_order(children),
        forall|i: int| 0 <= i < children.len() ==> !same_child(#[trigger] children[i], c),
        inside_in_order(c),
    ensures
        children_in_order(
            children.insert(insertion_point(child_keys(children), child_key(c)), c),
        ),
{
    let at = insertion_point(child_keys(children), child_key(c));
    insertion_keeps_order(child_keys(children), child_key(c));
    let after = children.insert(at, c);
    assert(child_keys(after) =~= child_keys(children).insert(at, child_key(c)));
    assert forall|i: int, j: int| 0 <= i < j < after.len() implies !same_child(
        #[trigger] after[i],
        #[trigger] after[j],
    ) by {
        let i0 = if i < at {
            i
        } else {
            i - 1
        };
        let j0 = if j < at {
            j
        } else {
            j - 1
        };
        if i != at && j != at {
            assert(after[i] == children[i0] && after[j] == children[j0]);
        } else if i == at {
            assert(after[j] == children[j0]);
            assert(!same_child(children[j0], c));
        } else {
            assert(after[i] == children[i0]);
            assert(!same_child(children[i0], c));
        }
    }
    assert forall|i: int| 0 <= i < after.len() implies inside_in_order(#[trigger] after[i]) by {
        if i < at {
            assert(after[i] == children[i]);
        } else if i > at {
            assert(after[i] == children[i - 1]);
        }
    }
}

/// Putting a reference among children keeps them in order.
pub proof fn children_stay_in_order(children: Seq<ChildView>, r: RefView)
    requires
        children_in_order(children),
    ensures
        children_in_order(with_child(children, r)),
{
    let p = child_is(r.topic);
    if any(children, p) {
        lemma_first_exists(children, p);
        let k = first_index(children, p);
        let c = ChildView::Reference(merged_ref(children[k]->Reference_0, r));
        lemma_replaced_child(children, k, c);
    } else {
        assert forall|i: int| 0 <= i < children.len() implies !same_child(
            #[trigger] children[i],
            ChildView::Reference(r),
        ) by {
            lemma_not_any(children, p, i);
        }
        lemma_inserted_child(children, ChildView::Reference(r));
    }
}

/// Opening a block among children keeps them in order, and the block is there.
pub proof fn opened_blocks_stay_in_order(children: Seq<ChildView>, a: BlockAnnotation)
    requires
        children_in_order(children),
    ensures
        children_in_order(with_block(children, a)),
        any(with_block(children, a), block_is(a)),
{
    let p = block_is(a);
    if !any(children, p) {
        let has_sibling = a.kind is If && any(children, sibling_of(a));
        let block = ChildView::Block {
            annotation: a,
            sort_key: topic_key(a.topic),
            children: seq![],
            has_sibling,
        };
        assert(children_in_order(Seq::<ChildView>::empty()));
        assert forall|i: int| 0 <= i < children.len() implies !same_child(
            #[trigger] children[i],
            block,
        ) by {
            lemma_not_any(children, p, i);
        }
        lemma_inserted_child(children, block);
        let at = insertion_point(child_keys(children), topic_key(a.topic));
        lemma_insertion_point_range(child_keys(children), topic_key(a.topic));
        let opened = children.insert(at, block);
        assert(p(opened[at]));
        if has_sibling {
            let q = sibling_of(a);
            let m = choose|m: int| 0 <= m < children.len() && #[trigger] q(children[m]);
            let m2 = if m < at {
                m
            } else {
                m + 1
            };
            assert(opened[m2] == children[m]);
            assert(q(opened[m2]));
            lemma_first_exists(opened, q);
            let k = first_index(opened, q);
            assert(inside_in_order(opened[k]));
            lemma_replaced_child(opened, k, marked_sibling(opened[k]));
            let after = opened.update(k, marked_sibling(opened[k]));
            assert(k != at);
            assert(p(after[at]));
        }
    }
}

/// Putting a reference under a chain of blocks keeps children in order, at every
/// depth.
pub proof fn nested_children_stay_in_order(
    children: Seq<ChildView>,
    chain: Seq<BlockAnnotation>,
    r: RefView,
)
    requires
        children_in_order(children),
    ensures
        children_in_order(with_annotated(children, chain, r)),
    decreases chain.len(),
{
    if chain.len() == 0 {
        children_stay_in_order(children, r);
    } else {
        opened_blocks_stay_in_order(children, chain[0]);
        let opened = with_block(children, chain[0]);
        let p = block_is(chain[0]);
        lemma_first_exists(opened, p);
        let k = first_index(opened, p);
        match opened[k] {
            ChildView::Block { annotation, sort_key, children: inner, has_sibling } => {
                assert(inside_in_order(opened[k]));
                nested_children_stay_in_order(inner, chain.drop_first(), r);
                let c = ChildView::Block {
                    annotation,
                    sort_key,
                    children: with_annotated(inner, chain.drop_first(), r),
                    has_sibling,
                };
                lemma_replaced_child(opened, k, c);
            },
            _ => {},
        }
    }
}

/// No two nested contexts have the same subscope, and they stand in the order of
/// their keys.
pub open spec fn nested_in_order(nested: Seq<NestedView>) -> bool {
    &&& keys_sorted(nested_keys(nested))
    &&& forall|i: int, j: int|
        0 <= i < j < nested.len() ==> (#[trigger] nested[i]).subscope != (
        #[trigger] nested[j]).subscope
}

/// No two contexts have the same scope, they stand in the order of their keys, and
/// what each holds is in order.
pub open spec fn contexts_in_order(groups: Seq<ContextView>) -> bool {
    &&& keys_sorted(context_keys(groups))
    &&& forall|i: int, j: int|
        0 <= i < j < groups.len() ==> (#[trigger] groups[i]).scope != (#[trigger] groups[j]).scope
    &&& forall|i: int|
        0 <= i < groups.len() ==> refs_in_order((#[trigger] groups[i]).references)
            && nested_in_order(groups[i].nested)
}

/// The children of every nested context are in order.
pub open spec fn all_children_in_order(groups: Seq<ContextView>) -> bool {
    forall|i: int, k: int|
        0 <= i < groups.len() && 0 <= k < groups[i].nested.len() ==> children_in_order(
            (#[trigger] groups[i].nested[k]).children,
        )
}

proof fn lemma_inserted_nested(nested: Seq<NestedView>, n: NestedView)
    requires
        nested_in_order(nested),
        !any(nested, nested_is(n.subscope)),
    ensures
        nested_in_order(nested.insert(insertion_point(nested_keys(nested), n.sort_key), n)),
        0 <= insertion_point(nested_keys(nested), n.sort_key) <= nested.len(),
{
    let at = insertion_point(nested_keys(nested), n.sort_key);
    insertion_keeps_order(nested_keys(nested), n.sort_key);
    let after = nested.insert(at, n);
    assert(nested_keys(after) =~= nested_keys(nested).insert(at, n.sort_key));
    assert forall|i: int, j: int| 0 <= i < j < after.len() implies (#[trigger] after[i]).subscope
        != (#[trigger] after[j]).subscope by {
        let i0 = if i < at {
            i
        } else {
            i - 1
        };
        let j0 = if j < at {
            j
        } else {
            j - 1
        };
        if i != at && j != at {
            assert(after[i] == nested[i0] && after[j] == nested[j0]);
        } else if i == at {
            lemma_not_any(nested, nested_is(n.subscope), j0);
            assert(after[j] == nested[j0]);
        } else {
            lemma_not_any(nested, nested_is(n.subscope), i0);
            assert(after[i] == nested[i0]);
        }
    }
}

proof fn lemma_replaced_nested(nested: Seq<NestedView>, k: int, n: NestedView)
    requires
        nested_in_order(nested),
        0 <= k < nested.len(),
        n.subscope == nested[k].subscope,
        n.sort_key == nested[k].sort_key,
    ensures
        nested_in_order(nested.update(k, n)),
{
    let after = nested.update(k, n);
    assert(nested_keys(after) =~= nested_keys(nested));
    assert forall|i: int, j: int| 0 <= i < j < after.len() implies (#[trigger] after[i]).subscope
        != (#[trigger] after[j]).subscope by {
        assert(nested[i].subscope != nested[j].subscope);
    }
}

proof fn lemma_nested_stay(nested: Seq<NestedView>, n: NestedView)
    requires
        nested_in_order(nested),
    ensures
        nested_in_order(with_nested(nested, n)),
{
    let p = nested_is(n.subscope);
    if any(nested, p) {
        lemma_first_exists(nested, p);
        let k = first_index(nested, p);
        lemma_replaced_nested(
            nested,
            k,
            NestedView { children: joined_children(nested[k].children, n.children), ..nested[k] },
        );
    } else {
        lemma_inserted_nested(nested, n);
    }
}

proof fn lemma_all_nested_stay(nested: Seq<NestedView>, more: Seq<NestedView>)
    requires
        nested_in_order(nested),
    ensures
        nested_in_order(with_all_nested(nested, more)),
    decreases more.len(),
{
    if more.len() > 0 {
        lemma_all_nested_stay(nested, more.drop_last());
        lemma_nested_stay(with_all_nested(nested, more.drop_last()), more.last());
    }
}

proof fn lemma_all_refs_stay(refs: Seq<RefView>, more: Seq<RefView>)
    requires
        refs_in_order(refs),
    ensures
        refs_in_order(with_refs(refs, more)),
    decreases more.len(),
{
    if more.len() > 0 {
        lemma_all_refs_stay(refs, more.drop_last());
        references_stay_in_order(with_refs(refs, more.drop_last()), more.last());
    }
}

/// Opening a context keeps contexts in order, and the context is there.
pub proof fn opened_contexts_stay_in_order(
    groups: Seq<ContextView>,
    scope: Topic,
    key: Option<usize>,
    in_scope: bool,
)
    requires
        contexts_in_order(groups),
    ensures
        contexts_in_order(with_context(groups, scope, key, in_scope)),
        any(with_context(groups, scope, key, in_scope), context_is(scope)),
        all_children_in_order(groups) ==> all_children_in_order(
            with_context(groups, scope, key, in_scope),
        ),
{
    let p = context_is(scope);
    if !any(groups, p) {
        let c = ContextView {
            scope,
            sort_key: key,
            is_in_scope: in_scope,
            references: seq![],
            nested: seq![],
        };
        let at = insertion_point(context_keys(groups), key);
        insertion_keeps_order(context_keys(groups), key);
        let after = groups.insert(at, c);
        assert(context_keys(after) =~= context_keys(groups).insert(at, key));
        assert forall|i: int, j: int| 0 <= i < j < after.len() implies (#[trigger] after[i]).scope
            != (#[trigger] after[j]).scope by {
            let i0 = if i < at {
                i
            } else {
                i - 1
            };
            let j0 = if j < at {
                j
            } else {
                j - 1
            };
            if i != at && j != at {
                assert(after[i] == groups[i0] && after[j] == groups[j0]);
            } else if i == at {
                lemma_not_any(groups, p, j0);
                assert(after[j] == groups[j0]);
            } else {
                lemma_not_any(groups, p, i0);
                assert(after[i] == groups[i0]);
            }
        }
        assert forall|i: int| 0 <= i < after.len() implies refs_in_order(
            (#[trigger] after[i]).references,
        ) && nested_in_order(after[i].nested) by {
            if i < at {
                assert(after[i] == groups[i]);
            } else if i > at {
                assert(after[i] == groups[i - 1]);
            }
        }
        assert(p(after[at]));
        if all_children_in_order(groups) {
            assert forall|i: int, k: int|
                0 <= i < after.len() && 0 <= k < after[i].nested.len() implies children_in_order(
                (#[trigger] after[i].nested[k]).children,
            ) by {
                if i < at {
                    assert(after[i] == groups[i]);
                    assert(children_in_order(groups[i].nested[k].children));
                } else if i > at {
                    assert(after[i] == groups[i - 1]);
                    assert(children_in_order(groups[i - 1].nested[k].children));
                }
            }
        }
    }
}

proof fn lemma_replaced_context(groups: Seq<ContextView>, k: int, c: ContextView)
    requires
        contexts_in_order(groups),
        0 <= k < groups.len(),
        c.scope == groups[k].scope,
        c.sort_key == groups[k].sort_key,
        refs_in_order(c.references),
        nested_in_order(c.nested),
    ensures
        contexts_in_order(groups.update(k, c)),
{
    let after = groups.update(k, c);
    assert(context_keys(after) =~= context_keys(groups));
    assert forall|i: int, j: int| 0 <= i < j < after.len() implies (#[trigger] after[i]).scope != (
    #[trigger] after[j]).scope by {
        assert(groups[i].scope != groups[j].scope);
    }
    assert forall|i: int| 0 <= i < after.len() implies refs_in_order(
        (#[trigger] after[i]).references,
    ) && nested_in_order(after[i].nested) by {
        if i != k {
            assert(after[i] == groups[i]);
        }
    }
}

/// Putting a reference into contexts keeps them in order at every level: contexts,
/// references, nested contexts and their children.
pub proof fn contexts_stay_in_order(
    groups: Seq<ContextView>,
    scope: Topic,
    key: Option<usize>,
    in_scope: bool,
    subscope: Option<(Topic, Option<usize>)>,
    chain: Seq<BlockAnnotation>,
    r: RefView,
)
    requires
        contexts_in_order(groups),
        all_children_in_order(groups),
    ensures
        contexts_in_order(with_reference(groups, scope, key, in_scope, subscope, chain, r)),
        all_children_in_order(with_reference(groups, scope, key, in_scope, subscope, chain, r)),
{
    opened_contexts_stay_in_order(groups, scope, key, in_scope);
    let g = with_context(groups, scope, key, in_scope);
    lemma_first_exists(g, context_is(scope));
    let i = first_index(g, context_is(scope));
    let c = context_with(g[i], subscope, chain, r);
    assert(refs_in_order(g[i].references) && nested_in_order(g[i].nested));
    match subscope {
        None => {
            references_stay_in_order(g[i].references, r);
            assert(c.nested == g[i].nested);
        },
        Some((t, k)) => {
            let nested = with_subscope(g[i].nested, t, k);
            let fresh = NestedView { subscope: t, sort_key: k, children: seq![] };
            if !any(g[i].nested, nested_is(t)) {
                lemma_inserted_nested(g[i].nested, fresh);
                let at = insertion_point(nested_keys(g[i].nested), k);
                assert(nested_is(t)(nested[at]));
            }
            assert(any(nested, nested_is(t)));
            lemma_first_exists(nested, nested_is(t));
            let m = first_index(nested, nested_is(t));
            assert(children_in_order(nested[m].children)) by {
                if any(g[i].nested, nested_is(t)) {
                    assert(children_in_order(g[i].nested[m].children));
                } else {
                    let at = insertion_point(nested_keys(g[i].nested), k);
                    if m < at {
                        assert(nested[m] == g[i].nested[m]);
                        assert(children_in_order(g[i].nested[m].children));
                    } else if m > at {
                        assert(nested[m] == g[i].nested[m - 1]);
                        assert(children_in_order(g[i].nested[m - 1].children));
                    }
                }
            }
            nested_children_stay_in_order(nested[m].children, chain, r);
            let n = NestedView {
                children: with_annotated(nested[m].children, chain, r),
                ..nested[m]
            };
            lemma_replaced_nested(nested, m, n);
            assert forall|j: int| 0 <= j < c.nested.len() implies children_in_order(
                (#[trigger] c.nested[j]).children,
            ) by {
                if j != m {
                    assert(c.nested[j] == nested[j]);
                    if any(g[i].nested, nested_is(t)) {
                        assert(children_in_order(g[i].nested[j].children));
                    } else {
                        let at = insertion_point(nested_keys(g[i].nested), k);
                        if j < at {
                            assert(nested[j] == g[i].nested[j]);
                            assert(children_in_order(g[i].nested[j].children));
                        } else if j > at {
                            assert(nested[j] == g[i].nested[j - 1]);
                            assert(children_in_order(g[i].nested[j - 1].children));
                        }
                    }
                }
            }
        },
    }
    lemma_replaced_context(g, i, c);
    let after = g.update(i, c);
    assert forall|a: int, b: int|
        0 <= a < after.len() && 0 <= b < after[a].nested.len() implies children_in_order(
        (#[trigger] after[a].nested[b]).children,
    ) by {
        if a != i {
            assert(after[a] == g[a]);
            assert(children_in_order(g[a].nested[b].children));
        } else {
            if subscope is None {
                assert(children_in_order(g[i].nested[b].children));
            }
        }
    }
}

/// Joined contexts are in order: each scope once, each reference and each subscope
/// once within it.
pub proof fn joined_contexts_are_in_order(contexts: Seq<ContextView>)
    ensures
        contexts_in_order(merged_contexts(contexts)),
    decreases contexts.len(),
{
    if contexts.len() > 0 {
        let before = merged_contexts(contexts.drop_last());
        let c = contexts.last();
        joined_contexts_are_in_order(contexts.drop_last());
        opened_contexts_stay_in_order(before, c.scope, c.sort_key, c.is_in_scope);
        let g = with_context(before, c.scope, c.sort_key, c.is_in_scope);
        lemma_first_exists(g, context_is(c.scope));
        let i = first_index(g, context_is(c.scope));
        assert(refs_in_order(g[i].references) && nested_in_order(g[i].nested));
        lemma_all_refs_stay(g[i].references, c.references);
        lemma_all_nested_stay(g[i].nested, c.nested);
        lemma_replaced_context(
            g,
            i,
            ContextView {
                references: with_refs(g[i].references, c.references),
                nested: with_all_nested(g[i].nested, c.nested),
                ..g[i]
            },
        );
    }
}

/// Children stand in the order of their keys, and so do those of each block.
pub open spec fn children_sorted(children: Seq<ChildView>) -> bool
    decreases children,
{
    &&& keys_sorted(child_keys(children))
    &&& forall|i: int| 0 <= i < children.len() ==> inside_sorted(#[trigger] children[i])
}

pub open spec fn inside_sorted(c: ChildView) -> bool
    decreases c,
{
    match c {
        ChildView::Block { children, .. } => children_sorted(children),
        _ => true,
    }
}

/// Children that join others keep them sorted, at every depth.
pub proof fn joined_children_stay_sorted(children: Seq<ChildView>, more: Seq<ChildView>)
    requires
        children_sorted(children),
        children_sorted(more),
    ensures
        children_sorted(joined_children(children, more)),
{
    lemma_joined_sorted(children, more);
}

proof fn lemma_joined_sorted(children: Seq<ChildView>, more: Seq<ChildView>)
    requires
        children_sorted(children),
        forall|i: int| 0 <= i < more.len() ==> inside_sorted(#[trigger] more[i]),
    ensures
        children_sorted(joined_children(children, more)),
    decreases more.len(),
{
    if more.len() > 0 {
        let m = more.drop_last();
        assert forall|i: int| 0 <= i < m.len() implies inside_sorted(#[trigger] m[i]) by {
            assert(m[i] == more[i]);
        }
        lemma_joined_sorted(children, m);
        let before = joined_children(children, m);
        let c = more[more.len() - 1];
        let at = insertion_point(child_keys(before), child_key(c));
        insertion_keeps_order(child_keys(before), child_key(c));
        let after = joined_by(before, c);
        assert(child_keys(after) =~= child_keys(before).insert(at, child_key(c)));
        assert forall|i: int| 0 <= i < after.len() implies inside_sorted(#[trigger] after[i]) by {
            if i < at {
                assert(after[i] == before[i]);
            } else if i > at {
                assert(after[i] == before[i - 1]);
            }
        }
    }
}

/// Children that come after all others join them at the end.
pub proof fn later_children_join_at_the_end(children: Seq<ChildView>, more: Seq<ChildView>)
    requires
        keys_sorted(child_keys(children + more)),
    ensures
        joined_children(children, more) == children + more,
    decreases more.len(),
{
    if more.len() == 0 {
        assert(children + more =~= children);
    } else {
        let m = more.drop_last();
        let whole = child_keys(children + more);
        let part = child_keys(children + m);
        assert forall|i: int, j: int| 0 <= i < j < part.len() implies !key_less(
            #[trigger] part[j],
            #[trigger] part[i],
        ) by {
            assert(part[i] == whole[i] && part[j] == whole[j]);
        }
        later_children_join_at_the_end(children, m);
        if part.len() > 0 {
            assert(part.last() == whole[part.len() - 1]);
            assert(whole[part.len() as int] == child_key(more.last()));
            assert(!key_less(whole[part.len() as int], whole[part.len() - 1]));
        }
        assert((children + m).insert((children + m).len() as int, more.last()) =~= children
            + more);
    }
}

/// The children of every nested context are sorted, at every depth.
pub open spec fn nested_sorted(nested: Seq<NestedView>) -> bool {
    forall|k: int| 0 <= k < nested.len() ==> children_sorted((#[trigger] nested[k]).children)
}

proof fn lemma_nested_sorted(nested: Seq<NestedView>, more: Seq<NestedView>)
    requires
        nested_sorted(nested),
        nested_sorted(more),
    ensures
        nested_sorted(with_all_nested(nested, more)),
    decreases more.len(),
{
    if more.len() > 0 {
        let m = more.drop_last();
        assert forall|k: int| 0 <= k < m.len() implies children_sorted(
            (#[trigger] m[k]).children,
        ) by {
            assert(m[k] == more[k]);
        }
        lemma_nested_sorted(nested, m);
        let before = with_all_nested(nested, m);
        let n = more[more.len() - 1];
        let after = with_nested(before, n);
        let p = nested_is(n.subscope);
        if any(before, p) {
            lemma_first_exists(before, p);
            let i = first_index(before, p);
            joined_children_stay_sorted(before[i].children, n.children);
            assert forall|k: int| 0 <= k < after.len() implies children_sorted(
                (#[trigger] after[k]).children,
            ) by {
                if k != i {
                    assert(after[k] == before[k]);
                }
            }
        } else {
            let at = insertion_point(nested_keys(before), n.sort_key);
            lemma_insertion_point_range(nested_keys(before), n.sort_key);
            assert forall|k: int| 0 <= k < after.len() implies children_sorted(
                (#[trigger] after[k]).children,
            ) by {
                if k < at {
                    assert(after[k] == before[k]);
                } else if k > at {
                    assert(after[k] == before[k - 1]);
                }
            }
        }
    }
}

/// Joining contexts whose children stand in source order gives contexts whose
/// children stand in source order.
pub proof fn joined_contexts_stay_sorted(contexts: Seq<ContextView>)
    requires
        forall|i: int| 0 <= i < contexts.len() ==> nested_sorted((#[trigger] contexts[i]).nested),
    ensures
        forall|i: int|
            0 <= i < merged_contexts(contexts).len() ==> nested_sorted(
                (#[trigger] merged_contexts(contexts)[i]).nested,
            ),
    decreases contexts.len(),
{
    if contexts.len() > 0 {
        let rest = contexts.drop_last();
        assert forall|i: int| 0 <= i < rest.len() implies nested_sorted(
            (#[trigger] rest[i]).nested,
        ) by {
            assert(rest[i] == contexts[i]);
        }
        joined_contexts_stay_sorted(rest);
        joined_contexts_are_in_order(rest);
        let before = merged_contexts(rest);
        let c = contexts[contexts.len() - 1];
        opened_contexts_stay_in_order(before, c.scope, c.sort_key, c.is_in_scope);
        let g = with_context(before, c.scope, c.sort_key, c.is_in_scope);
        let at = insertion_point(context_keys(before), c.sort_key);
        lemma_insertion_point_range(context_keys(before), c.sort_key);
        assert forall|i: int| 0 <= i < g.len() implies nested_sorted((#[trigger] g[i]).nested) by {
            if any(before, context_is(c.scope)) {
                assert(g[i] == before[i]);
            } else if i < at {
                assert(g[i] == before[i]);
            } else if i > at {
                assert(g[i] == before[i - 1]);
            }
        }
        lemma_first_exists(g, context_is(c.scope));
        let i = first_index(g, context_is(c.scope));
        lemma_nested_sorted(g[i].nested, c.nested);
        let after = merged_contexts(contexts);
        assert forall|j: int| 0 <= j < after.len() implies nested_sorted(
            (#[trigger] after[j]).nested,
        ) by {
            if j != i {
                assert(after[j] == g[j]);
            }
        }
    }
}

/// Putting the same reference among children a second time changes nothing.
pub proof fn repeated_child_changes_nothing(children: Seq<ChildView>, r: RefView)
    ensures
        with_child(with_child(children, r), r) == with_child(children, r),
{
    let p = child_is(r.topic);
    let once = with_child(children, r);
    if any(children, p) {
        lemma_first_exists(children, p);
        let k = first_index(children, p);
        merging_twice_adds_nothing(children[k]->Reference_0, r);
        assert forall|j: int| 0 <= j < k implies !#[trigger] p(once[j]) by {
            assert(once[j] == children[j]);
            assert(!p(children[j]));
        }
        assert(p(once[k]));
        assert(is_first(once, p, k));
        lemma_first_index(once, p, k);
        assert(with_child(once, r) =~= once);
    } else {
        let at = insertion_point(child_keys(children), r.sort_key);
        lemma_insertion_point_range(child_keys(children), r.sort_key);
        merging_twice_adds_nothing(r, r);
        assert(once[at] == ChildView::Reference(r));
        assert forall|j: int| 0 <= j < at implies !#[trigger] p(once[j]) by {
            assert(once[j] == children[j]);
            lemma_not_any(children, p, j);
        }
        assert(p(once[at]));
        assert(is_first(once, p, at));
        lemma_first_index(once, p, at);
        assert(with_child(once, r) =~= once);
    }
}

proof fn lemma_block_opened(children: Seq<ChildView>, a: BlockAnnotation)
    ensures
        any(with_block(children, a), block_is(a)),
{
    let p = block_is(a);
    if !any(children, p) {
        let at = insertion_point(child_keys(children), topic_key(a.topic));
        lemma_insertion_point_range(child_keys(children), topic_key(a.topic));
        let has_sibling = a.kind is If && any(children, sibling_of(a));
        let block = ChildView::Block {
            annotation: a,
            sort_key: topic_key(a.topic),
            children: seq![],
            has_sibling,
        };
        let opened = children.insert(at, block);
        assert(p(opened[at]));
        if has_sibling {
            let q = sibling_of(a);
            let m = choose|m: int| 0 <= m < children.len() && #[trigger] q(children[m]);
            let m2 = if m < at {
                m
            } else {
                m + 1
            };
            assert(q(opened[m2]));
            lemma_first_exists(opened, q);
            let k = first_index(opened, q);
            let after = opened.update(k, marked_sibling(opened[k]));
            assert(p(after[at]));
        }
    }
}

/// Putting the same reference under the same chain of blocks a second time changes
/// nothing.
pub proof fn repeated_nested_child_changes_nothing(
    children: Seq<ChildView>,
    chain: Seq<BlockAnnotation>,
    r: RefView,
)
    ensures
        with_annotated(with_annotated(children, chain, r), chain, r) == with_annotated(
            children,
            chain,
            r,
        ),
    decreases chain.len(),
{
    if chain.len() == 0 {
        repeated_child_changes_nothing(children, r);
    } else {
        let p = block_is(chain[0]);
        let opened = with_block(children, chain[0]);
        lemma_block_opened(children, chain[0]);
        lemma_first_exists(opened, p);
        let k = first_index(opened, p);
        let once = with_annotated(children, chain, r);
        repeated_nested_child_changes_nothing(opened[k]->children, chain.drop_first(), r);
        assert forall|j: int| 0 <= j < k implies !#[trigger] p(once[j]) by {
            assert(once[j] == opened[j]);
            assert(!p(opened[j]));
        }
        assert(p(once[k]));
        assert(is_first(once, p, k));
        lemma_first_index(once, p, k);
        assert(with_block(once, chain[0]) == once);
        assert(with_annotated(once, chain, r) =~= once);
    }
}

proof fn lemma_repeated_context(
    c: ContextView,
    subscope: Option<(Topic, Option<usize>)>,
    chain: Seq<BlockAnnotation>,
    r: RefView,
)
    ensures
        context_with(context_with(c, subscope, chain, r), subscope, chain, r) == context_with(
            c,
            subscope,
            chain,
            r,
        ),
{
    match subscope {
        None => {
            repeated_reference_changes_nothing(c.references, r);
        },
        Some((t, key)) => {
            let p = nested_is(t);
            let nested = with_subscope(c.nested, t, key);
            if !any(c.nested, p) {
                let at = insertion_point(nested_keys(c.nested), key);
                lemma_insertion_point_range(nested_keys(c.nested), key);
                assert(p(nested[at]));
            }
            lemma_first_exists(nested, p);
            let k = first_index(nested, p);
            repeated_nested_child_changes_nothing(nested[k].children, chain, r);
            let once = context_with(c, subscope, chain, r).nested;
            assert forall|j: int| 0 <= j < k implies !#[trigger] p(once[j]) by {
                assert(once[j] == nested[j]);
                assert(!p(nested[j]));
            }
            assert(p(once[k]));
            assert(is_first(once, p, k));
            lemma_first_index(once, p, k);
            assert(context_with(context_with(c, subscope, chain, r), subscope, chain, r).nested
                =~= once);
        },
    }
}

/// Putting the same reference into contexts a second time, with all else the same,
/// changes nothing.
pub proof fn repeated_insertion_changes_nothing(
    groups: Seq<ContextView>,
    scope: Topic,
    key: Option<usize>,
    in_scope: bool,
    subscope: Option<(Topic, Option<usize>)>,
    chain: Seq<BlockAnnotation>,
    r: RefView,
)
    ensures
        with_reference(
            with_reference(groups, scope, key, in_scope, subscope, chain, r),
            scope,
            key,
            in_scope,
            subscope,
            chain,
            r,
        ) == with_reference(groups, scope, key, in_scope, subscope, chain, r),
{
    let p = context_is(scope);
    let g = with_context(groups, scope, key, in_scope);
    if !any(groups, p) {
        let at = insertion_point(context_keys(groups), key);
        lemma_insertion_point_range(context_keys(groups), key);
        assert(p(g[at]));
    }
    lemma_first_exists(g, p);
    let k = first_index(g, p);
    lemma_repeated_context(g[k], subscope, chain, r);
    let once = with_reference(groups, scope, key, in_scope, subscope, chain, r);
    assert forall|j: int| 0 <= j < k implies !#[trigger] p(once[j]) by {
        assert(once[j] == g[j]);
        assert(!p(g[j]));
    }
    assert(p(once[k]));
    assert(is_first(once, p, k));
    lemma_first_index(once, p, k);
    assert(with_reference(once, scope, key, in_scope, subscope, chain, r) =~= once);
}

proof fn lemma_opened_scopes(
    groups: Seq<ContextView>,
    scope: Topic,
    key: Option<usize>,
    in_scope: bool,
    s: Topic,
)
    ensures
        any(with_context(groups, scope, key, in_scope), context_is(scope)),
        any(with_context(groups, scope, key, in_scope), context_is(s)) == (s == scope || any(
            groups,
            context_is(s),
        )),
        forall|i: int|
            0 <= i < groups.len() ==> with_context(groups, scope, key, in_scope).contains(
                #[trigger] groups[i],
            ),
{
    let g = with_context(groups, scope, key, in_scope);
    let p = context_is(scope);
    let q = context_is(s);
    if any(groups, p) {
        assert forall|i: int| 0 <= i < groups.len() implies g.contains(#[trigger] groups[i]) by {
            assert(g[i] == groups[i]);
        }
        if s == scope {
            assert(any(groups, q));
        }
    } else {
        let at = insertion_point(context_keys(groups), key);
        lemma_insertion_point_range(context_keys(groups), key);
        assert(p(g[at]));
        assert forall|i: int| 0 <= i < groups.len() implies g.contains(#[trigger] groups[i]) by {
            if i < at {
                assert(g[i] == groups[i]);
            } else {
                assert(g[i + 1] == groups[i]);
            }
        }
        if any(groups, q) {
            let i = choose|i: int| 0 <= i < groups.len() && #[trigger] q(groups[i]);
            let j = choose|j: int| 0 <= j < g.len() && g[j] == groups[i];
            assert(q(g[j]));
        }
        if s == scope {
            assert(q(g[at]));
        }
        if any(g, q) && s != scope {
            let j = choose|j: int| 0 <= j < g.len() && #[trigger] q(g[j]);
            if j < at {
                assert(q(groups[j]));
            } else {
                assert(q(groups[j - 1]));
            }
        }
    }
}

/// Joined contexts have exactly the scopes that were joined.
pub proof fn joined_contexts_have_the_scopes(contexts: Seq<ContextView>, s: Topic)
    ensures
        (exists|i: int|
            0 <= i < merged_contexts(contexts).len() && (
            #[trigger] merged_contexts(contexts)[i]).scope == s) <==> exists|i: int|
            0 <= i < contexts.len() && (#[trigger] contexts[i]).scope == s,
    decreases contexts.len(),
{
    if contexts.len() > 0 {
        let rest = contexts.drop_last();
        let n = contexts.len() - 1;
        let c = contexts[n];
        joined_contexts_have_the_scopes(rest, s);
        let before = merged_contexts(rest);
        let q = context_is(s);
        lemma_opened_scopes(before, c.scope, c.sort_key, c.is_in_scope, s);
        let g = with_context(before, c.scope, c.sort_key, c.is_in_scope);
        lemma_first_exists(g, context_is(c.scope));
        let k = first_index(g, context_is(c.scope));
        let after = merged_contexts(contexts);
        assert(any(before, q) == exists|i: int|
            0 <= i < before.len() && (#[trigger] before[i]).scope == s) by {
            if exists|i: int| 0 <= i < before.len() && (#[trigger] before[i]).scope == s {
                let i = choose|i: int| 0 <= i < before.len() && (#[trigger] before[i]).scope == s;
                assert(q(before[i]));
            }
        }
        if exists|i: int| 0 <= i < after.len() && (#[trigger] after[i]).scope == s {
            let i = choose|i: int| 0 <= i < after.len() && (#[trigger] after[i]).scope == s;
            assert(q(g[i]));
            if s == c.scope {
                assert(contexts[n].scope == s);
            } else {
                let j = choose|j: int| 0 <= j < rest.len() && (#[trigger] rest[j]).scope == s;
                assert(contexts[j] == rest[j]);
            }
        }
        if exists|i: int| 0 <= i < contexts.len() && (#[trigger] contexts[i]).scope == s {
            let i = choose|i: int| 0 <= i < contexts.len() && (#[trigger] contexts[i]).scope == s;
            if i < n {
                assert(rest[i].scope == s);
            }
            let j = choose|j: int| 0 <= j < g.len() && #[trigger] q(g[j]);
            assert(after[j].scope == s);
        }
    }
}

} // verus!
