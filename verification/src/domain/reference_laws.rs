//! What contexts show after references were put in and contexts were joined.
use crate::domain::context::{block_is, child_is, child_key, child_keys, context_is, context_keys};
use crate::domain::context::{insertion_point, joined_by, joined_children};
use crate::domain::context::{lemma_insertion_point_range, merged_contexts, merged_ref, nested_is};
use crate::domain::context::{nested_keys, ref_is, ref_keys, sibling_of, topic_key};
use crate::domain::context::{with_all_nested, with_annotated, with_block, with_child};
use crate::domain::context::{with_context, with_group, with_nested, with_ref, with_reference};
use crate::domain::context::{with_refs, with_subscope, ChildView, ContextView, NestedView};
use crate::domain::context::{RefKind, RefView};
use crate::domain::lists::{any, first_index, lemma_first_exists, with_topics_holds_both};
use crate::domain::scope::BlockAnnotation;
use crate::domain::topic::Topic;
use vstd::prelude::*;

verus! {

/// One of the references is to `t`.
pub open spec fn refers(refs: Seq<RefView>, t: Topic) -> bool {
    exists|i: int| 0 <= i < refs.len() && (#[trigger] refs[i]).topic == t
}

/// Down the chain of blocks, one of the references is to `t`.
pub open spec fn refers_under(
    children: Seq<ChildView>,
    chain: Seq<BlockAnnotation>,
    t: Topic,
) -> bool
    decreases chain.len(),
{
    if chain.len() == 0 {
        exists|i: int|
            0 <= i < children.len() && (#[trigger] children[i]) is Reference
                && children[i]->Reference_0.topic == t
    } else {
        exists|i: int|
            0 <= i < children.len() && (#[trigger] children[i]) is Block && children[i]->annotation
                == chain[0] && refers_under(children[i]->children, chain.drop_first(), t)
    }
}

/// The scope `s` shows `t`.
pub open spec fn shows(groups: Seq<ContextView>, s: Topic, t: Topic) -> bool {
    exists|i: int|
        0 <= i < groups.len() && (#[trigger] groups[i]).scope == s && refers(
            groups[i].references,
            t,
        )
}

/// The subscope `u` shows `t` under the chain of blocks.
pub open spec fn nests(
    nested: Seq<NestedView>,
    u: Topic,
    chain: Seq<BlockAnnotation>,
    t: Topic,
) -> bool {
    exists|i: int|
        0 <= i < nested.len() && (#[trigger] nested[i]).subscope == u && refers_under(
            nested[i].children,
            chain,
            t,
        )
}

/// In the scope `s`, the subscope `u` shows `t` under the chain of blocks.
pub open spec fn shows_within(
    groups: Seq<ContextView>,
    s: Topic,
    u: Topic,
    chain: Seq<BlockAnnotation>,
    t: Topic,
) -> bool {
    exists|i: int|
        0 <= i < groups.len() && (#[trigger] groups[i]).scope == s && nests(
            groups[i].nested,
            u,
            chain,
            t,
        )
}

spec fn to(t: Topic) -> spec_fn(RefView) -> bool {
    |r: RefView| r.topic == t
}

spec fn leads(chain: Seq<BlockAnnotation>, t: Topic) -> spec_fn(ChildView) -> bool {
    |c: ChildView|
        if chain.len() == 0 {
            c is Reference && c->Reference_0.topic == t
        } else {
            c is Block && c->annotation == chain[0] && refers_under(
                c->children,
                chain.drop_first(),
                t,
            )
        }
}

spec fn nested_leads(
    u: Topic,
    chain: Seq<BlockAnnotation>,
    t: Topic,
) -> spec_fn(NestedView) -> bool {
    |n: NestedView| n.subscope == u && refers_under(n.children, chain, t)
}

spec fn context_leads(s: Topic, t: Topic) -> spec_fn(ContextView) -> bool {
    |c: ContextView| c.scope == s && refers(c.references, t)
}

spec fn context_leads_within(
    s: Topic,
    u: Topic,
    chain: Seq<BlockAnnotation>,
    t: Topic,
) -> spec_fn(ContextView) -> bool {
    |c: ContextView| c.scope == s && nests(c.nested, u, chain, t)
}

proof fn lemma_refers(refs: Seq<RefView>, t: Topic)
    ensures
        refers(refs, t) == any(refs, to(t)),
{
    if refers(refs, t) {
        let i = choose|i: int| 0 <= i < refs.len() && (#[trigger] refs[i]).topic == t;
        assert(to(t)(refs[i]));
    }
}

proof fn lemma_refers_under(children: Seq<ChildView>, chain: Seq<BlockAnnotation>, t: Topic)
    ensures
        refers_under(children, chain, t) == any(children, leads(chain, t)),
{
    let p = leads(chain, t);
    if refers_under(children, chain, t) {
        if chain.len() == 0 {
            let i = choose|i: int|
                0 <= i < children.len() && (#[trigger] children[i]) is Reference
                    && children[i]->Reference_0.topic == t;
            assert(p(children[i]));
        } else {
            let i = choose|i: int|
                0 <= i < children.len() && (#[trigger] children[i]) is Block
                    && children[i]->annotation == chain[0] && refers_under(
                    children[i]->children,
                    chain.drop_first(),
                    t,
                );
            assert(p(children[i]));
        }
    }
}

proof fn lemma_nests(nested: Seq<NestedView>, u: Topic, chain: Seq<BlockAnnotation>, t: Topic)
    ensures
        nests(nested, u, chain, t) == any(nested, nested_leads(u, chain, t)),
{
    if nests(nested, u, chain, t) {
        let i = choose|i: int|
            0 <= i < nested.len() && (#[trigger] nested[i]).subscope == u && refers_under(
                nested[i].children,
                chain,
                t,
            );
        assert(nested_leads(u, chain, t)(nested[i]));
    }
}

proof fn lemma_shows(groups: Seq<ContextView>, s: Topic, t: Topic)
    ensures
        shows(groups, s, t) == any(groups, context_leads(s, t)),
{
    if shows(groups, s, t) {
        let i = choose|i: int|
            0 <= i < groups.len() && (#[trigger] groups[i]).scope == s && refers(
                groups[i].references,
                t,
            );
        assert(context_leads(s, t)(groups[i]));
    }
}

proof fn lemma_shows_within(
    groups: Seq<ContextView>,
    s: Topic,
    u: Topic,
    chain: Seq<BlockAnnotation>,
    t: Topic,
)
    ensures
        shows_within(groups, s, u, chain, t) == any(groups, context_leads_within(s, u, chain, t)),
{
    if shows_within(groups, s, u, chain, t) {
        let i = choose|i: int|
            0 <= i < groups.len() && (#[trigger] groups[i]).scope == s && nests(
                groups[i].nested,
                u,
                chain,
                t,
            );
        assert(context_leads_within(s, u, chain, t)(groups[i]));
    }
}

proof fn lemma_inserted<A>(s: Seq<A>, at: int, e: A, p: spec_fn(A) -> bool)
    requires
        0 <= at <= s.len(),
    ensures
        any(s.insert(at, e), p) == (any(s, p) || p(e)),
{
    let after = s.insert(at, e);
    if p(e) {
        assert(p(after[at]));
    }
    if any(s, p) {
        let i = choose|i: int| 0 <= i < s.len() && #[trigger] p(s[i]);
        if i < at {
            assert(p(after[i]));
        } else {
            assert(p(after[i + 1]));
        }
    }
    if any(after, p) && !p(e) {
        let i = choose|i: int| 0 <= i < after.len() && #[trigger] p(after[i]);
        if i < at {
            assert(p(s[i]));
        } else {
            assert(p(s[i - 1]));
        }
    }
}

/// Where item `i` is replaced by one that satisfies `p` exactly where the old one
/// did, or where `more` holds.
proof fn lemma_replaced<A>(s: Seq<A>, i: int, e: A, p: spec_fn(A) -> bool, more: bool)
    requires
        0 <= i < s.len(),
        p(e) == (p(s[i]) || more),
    ensures
        any(s.update(i, e), p) == (any(s, p) || more),
{
    let after = s.update(i, e);
    assert(after[i] == e);
    if more {
        assert(p(after[i]));
    }
    if any(s, p) {
        let j = choose|j: int| 0 <= j < s.len() && #[trigger] p(s[j]);
        assert(p(after[j]));
    }
    if any(after, p) && !more {
        let j = choose|j: int| 0 <= j < after.len() && #[trigger] p(after[j]);
        assert(p(s[j]));
    }
}

/// A merged reference stays to the same topic at the same place.
pub proof fn merged_references_stay_in_place(a: RefView, b: RefView)
    ensures
        merged_ref(a, b).topic == a.topic,
        merged_ref(a, b).sort_key == a.sort_key,
{
}

/// The project refers to a topic after merging where it did before in either
/// reference, if one of them says a single thing.
pub proof fn merged_references_say_what_the_project_does(a: RefView, b: RefView)
    requires
        b.kind != RefKind::ProjectWithMentions,
    ensures
        merged_ref(a, b).kind == RefKind::Mention <==> a.kind == RefKind::Mention && b.kind
            == RefKind::Mention,
        merged_ref(a, b).kind == RefKind::Project <==> a.kind == RefKind::Project && b.kind
            == RefKind::Project,
{
}

/// Mentions are joined when references are merged.
pub proof fn merged_references_have_all_mentions(a: RefView, b: RefView, m: Topic)
    requires
        a.kind == RefKind::Project ==> a.mentions.len() == 0,
        b.kind != RefKind::ProjectWithMentions,
        b.kind == RefKind::Project ==> b.mentions.len() == 0,
    ensures
        merged_ref(a, b).mentions.contains(m) <==> a.mentions.contains(m) || b.mentions.contains(m),
{
    with_topics_holds_both(a.mentions, b.mentions);
}

/// After a reference was put in, the references are to the same topics and to its.
pub proof fn put_references_are_there(refs: Seq<RefView>, r: RefView, t: Topic)
    ensures
        refers(with_ref(refs, r), t) <==> refers(refs, t) || t == r.topic,
{
    let p = to(t);
    lemma_refers(refs, t);
    lemma_refers(with_ref(refs, r), t);
    lemma_refers(refs, r.topic);
    if any(refs, ref_is(r.topic)) {
        lemma_first_exists(refs, ref_is(r.topic));
        let i = first_index(refs, ref_is(r.topic));
        assert(ref_is(r.topic)(refs[i]));
        lemma_replaced(refs, i, merged_ref(refs[i], r), p, t == r.topic);
    } else {
        lemma_insertion_point_range(ref_keys(refs), r.sort_key);
        lemma_inserted(refs, insertion_point(ref_keys(refs), r.sort_key), r, p);
    }
}

/// A reference to a topic that nothing referred to before is taken in as it is, and
/// every reference to another topic stays as it is.
pub proof fn new_references_are_taken_as_they_are(refs: Seq<RefView>, r: RefView, i: int)
    ensures
        !refers(refs, r.topic) ==> with_ref(refs, r).contains(r),
        0 <= i < refs.len() && refs[i].topic != r.topic ==> with_ref(refs, r).contains(refs[i]),
        with_ref(refs, r).len() == if refers(refs, r.topic) {
            refs.len()
        } else {
            refs.len() + 1
        },
{
    lemma_refers(refs, r.topic);
    let after = with_ref(refs, r);
    if any(refs, ref_is(r.topic)) {
        lemma_first_exists(refs, ref_is(r.topic));
        let k = first_index(refs, ref_is(r.topic));
        assert(to(r.topic)(refs[k]));
        if 0 <= i < refs.len() && refs[i].topic != r.topic {
            assert(after[i] == refs[i]);
        }
    } else {
        if refers(refs, r.topic) {
            let k = choose|k: int| 0 <= k < refs.len() && (#[trigger] refs[k]).topic == r.topic;
            assert(ref_is(r.topic)(refs[k]));
        }
        let at = insertion_point(ref_keys(refs), r.sort_key);
        lemma_insertion_point_range(ref_keys(refs), r.sort_key);
        assert(after[at] == r);
        if 0 <= i < refs.len() {
            if i < at {
                assert(after[i] == refs[i]);
            } else {
                assert(after[i + 1] == refs[i]);
            }
        }
    }
}

proof fn lemma_child_put(
    children: Seq<ChildView>,
    r: RefView,
    chain: Seq<BlockAnnotation>,
    t: Topic,
)
    ensures
        refers_under(with_child(children, r), chain, t) == (refers_under(children, chain, t) || (
        chain.len() == 0 && t == r.topic)),
{
    let p = leads(chain, t);
    let more = chain.len() == 0 && t == r.topic;
    lemma_refers_under(children, chain, t);
    lemma_refers_under(with_child(children, r), chain, t);
    if any(children, child_is(r.topic)) {
        lemma_first_exists(children, child_is(r.topic));
        let i = first_index(children, child_is(r.topic));
        assert(child_is(r.topic)(children[i]));
        let c = ChildView::Reference(merged_ref(children[i]->Reference_0, r));
        lemma_replaced(children, i, c, p, more);
    } else {
        let at = insertion_point(child_keys(children), r.sort_key);
        lemma_insertion_point_range(child_keys(children), r.sort_key);
        lemma_inserted(children, at, ChildView::Reference(r), p);
    }
}

proof fn lemma_block_opened(
    children: Seq<ChildView>,
    a: BlockAnnotation,
    chain: Seq<BlockAnnotation>,
    t: Topic,
)
    ensures
        refers_under(with_block(children, a), chain, t) == refers_under(children, chain, t),
        any(with_block(children, a), block_is(a)),
{
    let p = leads(chain, t);
    lemma_refers_under(children, chain, t);
    lemma_refers_under(with_block(children, a), chain, t);
    if !any(children, block_is(a)) {
        let has_sibling = a.kind is If && any(children, sibling_of(a));
        let at = insertion_point(child_keys(children), topic_key(a.topic));
        lemma_insertion_point_range(child_keys(children), topic_key(a.topic));
        let b = ChildView::Block {
            annotation: a,
            sort_key: topic_key(a.topic),
            children: seq![],
            has_sibling,
        };
        let opened = children.insert(at, b);
        assert(!p(b)) by {
            if chain.len() > 0 {
                lemma_refers_under(seq![], chain.drop_first(), t);
            }
        }
        lemma_inserted(children, at, b, p);
        lemma_inserted(children, at, b, block_is(a));
        if has_sibling {
            lemma_inserted(children, at, b, sibling_of(a));
            lemma_first_exists(opened, sibling_of(a));
            let i = first_index(opened, sibling_of(a));
            assert(sibling_of(a)(opened[i]));
            let m = crate::domain::context::marked_sibling(opened[i]);
            lemma_replaced(opened, i, m, p, false);
            lemma_replaced(opened, i, m, block_is(a), false);
        }
    }
}

/// After a reference was put in under a chain of blocks, it is found there, and
/// everywhere else the same is found as before.
pub proof fn references_are_found_under_their_blocks(
    children: Seq<ChildView>,
    chain: Seq<BlockAnnotation>,
    r: RefView,
    other: Seq<BlockAnnotation>,
    t: Topic,
)
    ensures
        refers_under(with_annotated(children, chain, r), other, t) <==> refers_under(
            children,
            other,
            t,
        ) || (other == chain && t == r.topic),
    decreases chain.len(),
{
    if chain.len() == 0 {
        lemma_child_put(children, r, other, t);
        assert(other.len() == 0 ==> other =~= chain);
    } else {
        let opened = with_block(children, chain[0]);
        lemma_block_opened(children, chain[0], other, t);
        lemma_first_exists(opened, block_is(chain[0]));
        let i = first_index(opened, block_is(chain[0]));
        assert(block_is(chain[0])(opened[i]));
        let p = leads(other, t);
        lemma_refers_under(opened, other, t);
        lemma_refers_under(with_annotated(children, chain, r), other, t);
        match opened[i] {
            ChildView::Block { annotation, sort_key, children: inner, has_sibling } => {
                let rest = chain.drop_first();
                let b = ChildView::Block {
                    annotation,
                    sort_key,
                    children: with_annotated(inner, rest, r),
                    has_sibling,
                };
                let more = other == chain && t == r.topic;
                if other.len() > 0 {
                    references_are_found_under_their_blocks(
                        inner,
                        rest,
                        r,
                        other.drop_first(),
                        t,
                    );
                    if other[0] == chain[0] && other.drop_first() == rest {
                        assert(other.len() == chain.len());
                        assert forall|j: int| 0 <= j < other.len() implies other[j] == chain[j] by {
                            if j > 0 {
                                assert(other.drop_first()[j - 1] == rest[j - 1]);
                            }
                        }
                        assert(other =~= chain);
                    }
                }
                assert(p(b) == (p(opened[i]) || more));
                lemma_replaced(opened, i, b, p, more);
            },
            _ => {},
        }
    }
}

proof fn lemma_subscope_opened(
    nested: Seq<NestedView>,
    v: Topic,
    key: Option<usize>,
    u: Topic,
    chain: Seq<BlockAnnotation>,
    t: Topic,
)
    ensures
        nests(with_subscope(nested, v, key), u, chain, t) == nests(nested, u, chain, t),
        any(with_subscope(nested, v, key), nested_is(v)),
{
    lemma_nests(nested, u, chain, t);
    lemma_nests(with_subscope(nested, v, key), u, chain, t);
    if !any(nested, nested_is(v)) {
        let n = NestedView { subscope: v, sort_key: key, children: seq![] };
        let at = insertion_point(nested_keys(nested), key);
        lemma_insertion_point_range(nested_keys(nested), key);
        lemma_refers_under(seq![], chain, t);
        lemma_inserted(nested, at, n, nested_leads(u, chain, t));
        lemma_inserted(nested, at, n, nested_is(v));
    }
}

proof fn lemma_context_opened(
    groups: Seq<ContextView>,
    scope: Topic,
    key: Option<usize>,
    in_scope: bool,
    p: spec_fn(ContextView) -> bool,
)
    requires
        !p(
            ContextView {
                scope,
                sort_key: key,
                is_in_scope: in_scope,
                references: seq![],
                nested: seq![],
            },
        ),
    ensures
        any(with_context(groups, scope, key, in_scope), p) == any(groups, p),
        any(with_context(groups, scope, key, in_scope), context_is(scope)),
{
    if !any(groups, context_is(scope)) {
        let c = ContextView {
            scope,
            sort_key: key,
            is_in_scope: in_scope,
            references: seq![],
            nested: seq![],
        };
        let at = insertion_point(context_keys(groups), key);
        lemma_insertion_point_range(context_keys(groups), key);
        lemma_inserted(groups, at, c, p);
        lemma_inserted(groups, at, c, context_is(scope));
    }
}

/// After a reference was put in at a scope, the scope shows it, and everything else
/// that a scope showed is still shown and nothing more.
pub proof fn references_are_shown_in_their_scope(
    groups: Seq<ContextView>,
    scope: Topic,
    key: Option<usize>,
    in_scope: bool,
    subscope: Option<(Topic, Option<usize>)>,
    chain: Seq<BlockAnnotation>,
    r: RefView,
    s: Topic,
    t: Topic,
)
    ensures
        shows(with_reference(groups, scope, key, in_scope, subscope, chain, r), s, t) <==> shows(
            groups,
            s,
            t,
        ) || (subscope is None && s == scope && t == r.topic),
{
    let p = context_leads(s, t);
    let more = subscope is None && s == scope && t == r.topic;
    let after = with_reference(groups, scope, key, in_scope, subscope, chain, r);
    let g = with_context(groups, scope, key, in_scope);
    lemma_shows(groups, s, t);
    lemma_shows(after, s, t);
    lemma_context_opened(groups, scope, key, in_scope, p);
    lemma_first_exists(g, context_is(scope));
    let i = first_index(g, context_is(scope));
    assert(context_is(scope)(g[i]));
    put_references_are_there(g[i].references, r, t);
    lemma_replaced(
        g,
        i,
        crate::domain::context::context_with(g[i], subscope, chain, r),
        p,
        more,
    );
}

/// After a reference was put in under a subscope, it is shown there under its
/// blocks, and everything else that a subscope showed is still shown and nothing
/// more.
pub proof fn references_are_shown_in_their_subscope(
    groups: Seq<ContextView>,
    scope: Topic,
    key: Option<usize>,
    in_scope: bool,
    subscope: Option<(Topic, Option<usize>)>,
    chain: Seq<BlockAnnotation>,
    r: RefView,
    s: Topic,
    u: Topic,
    other: Seq<BlockAnnotation>,
    t: Topic,
)
    ensures
        shows_within(
            with_reference(groups, scope, key, in_scope, subscope, chain, r),
            s,
            u,
            other,
            t,
        ) <==> shows_within(groups, s, u, other, t) || (subscope is Some && s == scope && u
            == (subscope->0).0 && other == chain && t == r.topic),
{
    let p = context_leads_within(s, u, other, t);
    let more = subscope is Some && s == scope && u == (subscope->0).0 && other == chain && t
        == r.topic;
    let after = with_reference(groups, scope, key, in_scope, subscope, chain, r);
    let g = with_context(groups, scope, key, in_scope);
    lemma_shows_within(groups, s, u, other, t);
    lemma_shows_within(after, s, u, other, t);
    lemma_context_opened(groups, scope, key, in_scope, p);
    lemma_first_exists(g, context_is(scope));
    let i = first_index(g, context_is(scope));
    assert(context_is(scope)(g[i]));
    let c = crate::domain::context::context_with(g[i], subscope, chain, r);
    if let Some((v, k)) = subscope {
        let nested = with_subscope(g[i].nested, v, k);
        lemma_subscope_opened(g[i].nested, v, k, u, other, t);
        lemma_first_exists(nested, nested_is(v));
        let j = first_index(nested, nested_is(v));
        assert(nested_is(v)(nested[j]));
        references_are_found_under_their_blocks(nested[j].children, chain, r, other, t);
        let n = NestedView {
            children: with_annotated(nested[j].children, chain, r),
            ..nested[j]
        };
        let q = nested_leads(u, other, t);
        let here = u == v && other == chain && t == r.topic;
        lemma_replaced(nested, j, n, q, here);
        lemma_nests(nested, u, other, t);
        lemma_nests(nested.update(j, n), u, other, t);
        assert(c.nested == nested.update(j, n));
        assert(nests(c.nested, u, other, t) == (nests(g[i].nested, u, other, t) || here));
    }
    lemma_replaced(g, i, c, p, more);
}

/// A scope that had no context gets one that says where it stands. Contexts that
/// were there stay as they are.
pub proof fn opened_contexts_say_where_they_stand(
    groups: Seq<ContextView>,
    scope: Topic,
    key: Option<usize>,
    in_scope: bool,
    i: int,
)
    requires
        forall|j: int| 0 <= j < groups.len() ==> (#[trigger] groups[j]).scope != scope,
    ensures
        with_context(groups, scope, key, in_scope).contains(
            ContextView {
                scope,
                sort_key: key,
                is_in_scope: in_scope,
                references: seq![],
                nested: seq![],
            },
        ),
        with_context(groups, scope, key, in_scope).len() == groups.len() + 1,
        0 <= i < groups.len() ==> with_context(groups, scope, key, in_scope).contains(groups[i]),
{
    let c = ContextView {
        scope,
        sort_key: key,
        is_in_scope: in_scope,
        references: seq![],
        nested: seq![],
    };
    let after = with_context(groups, scope, key, in_scope);
    assert(!any(groups, context_is(scope)));
    let at = insertion_point(context_keys(groups), key);
    lemma_insertion_point_range(context_keys(groups), key);
    assert(after[at] == c);
    if 0 <= i < groups.len() {
        if i < at {
            assert(after[i] == groups[i]);
        } else {
            assert(after[i + 1] == groups[i]);
        }
    }
}

proof fn lemma_refs_joined(refs: Seq<RefView>, more: Seq<RefView>, t: Topic)
    ensures
        refers(with_refs(refs, more), t) == (refers(refs, t) || refers(more, t)),
    decreases more.len(),
{
    if more.len() > 0 {
        let rest = more.drop_last();
        let n = more.len() - 1;
        lemma_refs_joined(refs, rest, t);
        put_references_are_there(with_refs(refs, rest), more.last(), t);
        if refers(rest, t) {
            let i = choose|i: int| 0 <= i < rest.len() && (#[trigger] rest[i]).topic == t;
            assert(more[i].topic == t);
        }
        if more.last().topic == t {
            assert(more[n].topic == t);
        }
        if refers(more, t) && more.last().topic != t {
            let i = choose|i: int| 0 <= i < more.len() && (#[trigger] more[i]).topic == t;
            assert(rest[i].topic == t);
        }
    }
}

proof fn lemma_any_last<A>(s: Seq<A>, p: spec_fn(A) -> bool)
    requires
        s.len() > 0,
    ensures
        any(s, p) == (any(s.drop_last(), p) || p(s.last())),
{
    let rest = s.drop_last();
    let n = s.len() - 1;
    if any(rest, p) {
        let i = choose|i: int| 0 <= i < rest.len() && #[trigger] p(rest[i]);
        assert(p(s[i]));
    }
    if p(s.last()) {
        assert(p(s[n]));
    }
    if any(s, p) && !p(s.last()) {
        let i = choose|i: int| 0 <= i < s.len() && #[trigger] p(s[i]);
        assert(p(rest[i]));
    }
}

proof fn lemma_children_joined(
    children: Seq<ChildView>,
    more: Seq<ChildView>,
    p: spec_fn(ChildView) -> bool,
)
    ensures
        any(joined_children(children, more), p) == (any(children, p) || any(more, p)),
    decreases more.len(),
{
    if more.len() > 0 {
        let rest = more.drop_last();
        lemma_children_joined(children, rest, p);
        lemma_any_last(more, p);
        let before = joined_children(children, rest);
        lemma_insertion_point_range(child_keys(before), child_key(more.last()));
        lemma_inserted(
            before,
            insertion_point(child_keys(before), child_key(more.last())),
            more.last(),
            p,
        );
        assert(joined_children(children, more) == joined_by(before, more.last()));
    }
}

proof fn lemma_nested_joined(
    nested: Seq<NestedView>,
    more: Seq<NestedView>,
    u: Topic,
    chain: Seq<BlockAnnotation>,
    t: Topic,
)
    ensures
        nests(with_all_nested(nested, more), u, chain, t) == (nests(nested, u, chain, t) || nests(
            more,
            u,
            chain,
            t,
        )),
    decreases more.len(),
{
    let q = nested_leads(u, chain, t);
    lemma_nests(nested, u, chain, t);
    lemma_nests(more, u, chain, t);
    lemma_nests(with_all_nested(nested, more), u, chain, t);
    if more.len() > 0 {
        let rest = more.drop_last();
        let n = more.last();
        lemma_nested_joined(nested, rest, u, chain, t);
        lemma_any_last(more, q);
        lemma_nests(rest, u, chain, t);
        let before = with_all_nested(nested, rest);
        lemma_nests(before, u, chain, t);
        assert(with_all_nested(nested, more) == with_nested(before, n));
        if any(before, nested_is(n.subscope)) {
            lemma_first_exists(before, nested_is(n.subscope));
            let i = first_index(before, nested_is(n.subscope));
            assert(nested_is(n.subscope)(before[i]));
            let joined = joined_children(before[i].children, n.children);
            lemma_children_joined(before[i].children, n.children, leads(chain, t));
            lemma_refers_under(before[i].children, chain, t);
            lemma_refers_under(n.children, chain, t);
            lemma_refers_under(joined, chain, t);
            lemma_replaced(
                before,
                i,
                NestedView { children: joined, ..before[i] },
                q,
                q(n),
            );
        } else {
            lemma_insertion_point_range(nested_keys(before), n.sort_key);
            lemma_inserted(before, insertion_point(nested_keys(before), n.sort_key), n, q);
        }
    }
}

/// Joined contexts show in a scope exactly what the contexts of that scope showed.
pub proof fn joined_contexts_show_the_same(contexts: Seq<ContextView>, s: Topic, t: Topic)
    ensures
        shows(merged_contexts(contexts), s, t) <==> shows(contexts, s, t),
    decreases contexts.len(),
{
    let p = context_leads(s, t);
    lemma_shows(contexts, s, t);
    lemma_shows(merged_contexts(contexts), s, t);
    if contexts.len() > 0 {
        let rest = contexts.drop_last();
        let c = contexts.last();
        joined_contexts_show_the_same(rest, s, t);
        lemma_shows(rest, s, t);
        lemma_any_last(contexts, p);
        let before = merged_contexts(rest);
        lemma_shows(before, s, t);
        assert(merged_contexts(contexts) == with_group(before, c));
        let g = with_context(before, c.scope, c.sort_key, c.is_in_scope);
        lemma_context_opened(before, c.scope, c.sort_key, c.is_in_scope, p);
        lemma_first_exists(g, context_is(c.scope));
        let i = first_index(g, context_is(c.scope));
        assert(context_is(c.scope)(g[i]));
        lemma_refs_joined(g[i].references, c.references, t);
        lemma_replaced(
            g,
            i,
            ContextView {
                references: with_refs(g[i].references, c.references),
                nested: with_all_nested(g[i].nested, c.nested),
                ..g[i]
            },
            p,
            p(c),
        );
    }
}

/// Joined contexts show in a subscope exactly what the contexts of its scope showed
/// there.
pub proof fn joined_contexts_nest_the_same(
    contexts: Seq<ContextView>,
    s: Topic,
    u: Topic,
    chain: Seq<BlockAnnotation>,
    t: Topic,
)
    ensures
        shows_within(merged_contexts(contexts), s, u, chain, t) <==> shows_within(
            contexts,
            s,
            u,
            chain,
            t,
        ),
    decreases contexts.len(),
{
    let p = context_leads_within(s, u, chain, t);
    lemma_shows_within(contexts, s, u, chain, t);
    lemma_shows_within(merged_contexts(contexts), s, u, chain, t);
    if contexts.len() > 0 {
        let rest = contexts.drop_last();
        let c = contexts.last();
        joined_contexts_nest_the_same(rest, s, u, chain, t);
        lemma_shows_within(rest, s, u, chain, t);
        lemma_any_last(contexts, p);
        let before = merged_contexts(rest);
        lemma_shows_within(before, s, u, chain, t);
        assert(merged_contexts(contexts) == with_group(before, c));
        let g = with_context(before, c.scope, c.sort_key, c.is_in_scope);
        lemma_context_opened(before, c.scope, c.sort_key, c.is_in_scope, p);
        lemma_first_exists(g, context_is(c.scope));
        let i = first_index(g, context_is(c.scope));
        assert(context_is(c.scope)(g[i]));
        lemma_nested_joined(g[i].nested, c.nested, u, chain, t);
        lemma_replaced(
            g,
            i,
            ContextView {
                references: with_refs(g[i].references, c.references),
                nested: with_all_nested(g[i].nested, c.nested),
                ..g[i]
            },
            p,
            p(c),
        );
    }
}

/// `c` is the other branch of the same statement.
pub open spec fn is_other_branch(c: ChildView, a: BlockAnnotation) -> bool {
    c is Block && c->annotation.topic == a.topic && c->annotation.kind != a.kind
}

/// A branch that is opened beside the other branch of its statement knows of it, and
/// the other one gets to know. Any other block knows of none.
pub proof fn branches_know_of_each_other(children: Seq<ChildView>, a: BlockAnnotation)
    requires
        forall|i: int|
            0 <= i < children.len() && (#[trigger] children[i]) is Block
                ==> children[i]->annotation != a,
    ensures
        ({
            let beside = a.kind is If && exists|i: int|
                0 <= i < children.len() && is_other_branch(#[trigger] children[i], a);
            let after = with_block(children, a);
            &&& exists|k: int|
                0 <= k < after.len() && (#[trigger] after[k]) is Block && after[k]->annotation == a
                    && after[k]->has_sibling == beside
            &&& beside ==> exists|k: int|
                0 <= k < after.len() && is_other_branch(#[trigger] after[k], a)
                    && after[k]->has_sibling
        }),
{
    let after = with_block(children, a);
    assert(!any(children, block_is(a))) by {
        if any(children, block_is(a)) {
            let i = choose|i: int| 0 <= i < children.len() && #[trigger] block_is(a)(children[i]);
            assert(children[i] is Block);
        }
    }
    let beside = a.kind is If && exists|i: int|
        0 <= i < children.len() && is_other_branch(#[trigger] children[i], a);
    if any(children, sibling_of(a)) {
        let i = choose|i: int| 0 <= i < children.len() && #[trigger] sibling_of(a)(children[i]);
        assert(is_other_branch(children[i], a));
    }
    if exists|i: int| 0 <= i < children.len() && is_other_branch(#[trigger] children[i], a) {
        let i = choose|i: int|
            0 <= i < children.len() && is_other_branch(#[trigger] children[i], a);
        assert(sibling_of(a)(children[i]));
    }
    let has_sibling = a.kind is If && any(children, sibling_of(a));
    assert(has_sibling == beside);
    let at = insertion_point(child_keys(children), topic_key(a.topic));
    lemma_insertion_point_range(child_keys(children), topic_key(a.topic));
    let b = ChildView::Block {
        annotation: a,
        sort_key: topic_key(a.topic),
        children: seq![],
        has_sibling,
    };
    let opened = children.insert(at, b);
    assert(opened[at] == b);
    if has_sibling {
        lemma_inserted(children, at, b, sibling_of(a));
        lemma_first_exists(opened, sibling_of(a));
        let i = first_index(opened, sibling_of(a));
        assert(sibling_of(a)(opened[i]));
        assert(i != at);
        assert(after[i] == crate::domain::context::marked_sibling(opened[i]));
        assert(is_other_branch(after[i], a) && after[i]->has_sibling);
        assert(after[at] == b);
    }
    assert(after[at] == b);
}

} // verus!
