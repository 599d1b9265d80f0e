//! What names say and find, in terms of what the audit records.
use crate::domain::audit::{entries, AuditData};
use crate::domain::metadata::TopicMetadata;
use crate::domain::names::{candidates, candidates_ascend, common_words, is_no_proxy, meant_by};
use crate::domain::names::{qualified, qualified_winner, simple_name, TopicNameIndex};
use crate::domain::scope::{ContainingBlockLayer, ScopeView};
use crate::domain::topic::{topic_before, topic_text, Topic};
use crate::ordered::{ascending, has_key, index_of, lemma_index_of};
use crate::sorting::lemma_picked_from;
use vstd::prelude::*;

verus! {

/// `t` is a declaration with this name in this scope.
pub open spec fn is_declared(a: &AuditData, t: Topic, n: Seq<char>, s: ScopeView) -> bool {
    a.topic_metadata@.dom().contains(t) && match a.topic_metadata@[t] {
        TopicMetadata::NamedTopic { name, scope, .. } => name@ == n && scope@ == s,
        _ => false,
    }
}

/// `t` is a declaration with this name.
pub open spec fn is_called(a: &AuditData, t: Topic, n: Seq<char>) -> bool {
    a.topic_metadata@.dom().contains(t) && match a.topic_metadata@[t] {
        TopicMetadata::NamedTopic { name, .. } => name@ == n,
        _ => false,
    }
}

/// The qualified name of `t`.
pub open spec fn full_name(a: &AuditData, t: Topic) -> Option<Seq<char>> {
    qualified(entries(a), a.topic_metadata@[t])
}

/// What stands outside all components is called by its own name.
pub proof fn outermost_names_are_plain(a: &AuditData, t: Topic, n: Seq<char>, container: Seq<char>)
    requires
        is_declared(a, t, n, ScopeView::Global) || is_declared(
            a,
            t,
            n,
            ScopeView::Container { container },
        ),
    ensures
        full_name(a, t) == Some(n),
{
}

/// What stands in a component is called by the name of the component, a dot and its
/// own name.
pub proof fn names_in_a_component(
    a: &AuditData,
    t: Topic,
    n: Seq<char>,
    container: Seq<char>,
    component: Topic,
    cn: Seq<char>,
)
    requires
        is_declared(a, t, n, ScopeView::Component { container, component }),
        is_called(a, component, cn),
    ensures
        full_name(a, t) == Some(cn + seq!['.'] + n),
{
}

/// What stands in the signature of a member is called by the name of the component,
/// that of the member and its own, with dots between.
pub proof fn names_in_a_signature(
    a: &AuditData,
    t: Topic,
    n: Seq<char>,
    container: Seq<char>,
    component: Topic,
    cn: Seq<char>,
    member: Topic,
    mn: Seq<char>,
    signature_container: Option<Topic>,
)
    requires
        is_declared(
            a,
            t,
            n,
            ScopeView::Member { container, component, member, signature_container },
        ),
        is_called(a, component, cn),
        is_called(a, member, mn),
    ensures
        full_name(a, t) == Some(cn + seq!['.'] + mn + seq!['.'] + n),
{
}

/// A declaration has the same qualified name in the signature of a member and in
/// any block of its body.
pub proof fn blocks_do_not_count(
    a: &AuditData,
    t: Topic,
    u: Topic,
    n: Seq<char>,
    p: Seq<char>,
    q: Seq<char>,
    component: Topic,
    member: Topic,
    signature_container: Option<Topic>,
    blocks: Seq<ContainingBlockLayer>,
)
    requires
        is_declared(
            a,
            t,
            n,
            ScopeView::Member { container: p, component, member, signature_container },
        ),
        is_declared(a, u, n, ScopeView::ContainingBlock { container: q, component, member, blocks }),
    ensures
        full_name(a, t) == full_name(a, u),
{
}

/// Two declarations of one name in bodies of the same member have the same
/// qualified name, whatever the blocks around them.
pub proof fn names_in_bodies_agree(
    a: &AuditData,
    t: Topic,
    u: Topic,
    n: Seq<char>,
    p: Seq<char>,
    q: Seq<char>,
    component: Topic,
    member: Topic,
    x: Seq<ContainingBlockLayer>,
    y: Seq<ContainingBlockLayer>,
)
    requires
        is_declared(
            a,
            t,
            n,
            ScopeView::ContainingBlock { container: p, component, member, blocks: x },
        ),
        is_declared(
            a,
            u,
            n,
            ScopeView::ContainingBlock { container: q, component, member, blocks: y },
        ),
    ensures
        full_name(a, t) == full_name(a, u),
{
}

/// What stands in a member, in its signature or in its body, is called by the
/// qualified name of the member, a dot and its own name.
pub proof fn names_extend_those_of_members(
    a: &AuditData,
    t: Topic,
    n: Seq<char>,
    p: Seq<char>,
    q: Seq<char>,
    component: Topic,
    cn: Seq<char>,
    member: Topic,
    mn: Seq<char>,
    signature_container: Option<Topic>,
    blocks: Seq<ContainingBlockLayer>,
)
    requires
        is_declared(
            a,
            t,
            n,
            ScopeView::Member { container: p, component, member, signature_container },
        ) || is_declared(
            a,
            t,
            n,
            ScopeView::ContainingBlock { container: p, component, member, blocks },
        ),
        is_declared(a, member, mn, ScopeView::Component { container: q, component }),
        is_called(a, component, cn),
    ensures
        full_name(a, member) == Some(cn + seq!['.'] + mn),
        full_name(a, t) == Some(full_name(a, member)->0 + seq!['.'] + n),
{
}

/// A scope that is not known appears by its wire form.
pub proof fn unknown_scopes_appear_by_id(
    a: &AuditData,
    t: Topic,
    n: Seq<char>,
    p: Seq<char>,
    component: Topic,
    member: Topic,
    blocks: Seq<ContainingBlockLayer>,
)
    requires
        !a.topic_metadata@.dom().contains(component),
        !a.topic_metadata@.dom().contains(member),
    ensures
        is_declared(a, t, n, ScopeView::Component { container: p, component }) ==> full_name(a, t)
            == Some(topic_text(component) + seq!['.'] + n),
        is_declared(
            a,
            t,
            n,
            ScopeView::ContainingBlock { container: p, component, member, blocks },
        ) ==> full_name(a, t) == Some(
            topic_text(component) + seq!['.'] + topic_text(member) + seq!['.'] + n,
        ),
{
}

proof fn lemma_winner(
    meta: Seq<(Topic, TopicMetadata)>,
    some: Seq<(Topic, TopicMetadata)>,
    q: Seq<char>,
)
    ensures
        qualified_winner(meta, some, q) is Some ==> exists|i: int|
            0 <= i < some.len() && (#[trigger] some[i]).0 == qualified_winner(meta, some, q)->0
                && some[i].1 is NamedTopic && qualified(meta, some[i].1) == Some(q) && forall|j: int|
                i < j < some.len() ==> !((#[trigger] some[j]).1 is NamedTopic && qualified(
                    meta,
                    some[j].1,
                ) == Some(q)),
        qualified_winner(meta, some, q) is None ==> forall|j: int|
            0 <= j < some.len() ==> !((#[trigger] some[j]).1 is NamedTopic && qualified(
                meta,
                some[j].1,
            ) == Some(q)),
    decreases some.len(),
{
    if some.len() > 0 {
        let rest = some.drop_last();
        let n = some.len() - 1;
        lemma_winner(meta, rest, q);
        if some[n].1 is NamedTopic && qualified(meta, some[n].1) == Some(q) {
            assert(some[n].0 == qualified_winner(meta, some, q)->0);
        } else {
            if qualified_winner(meta, some, q) is Some {
                let i = choose|i: int|
                    0 <= i < rest.len() && (#[trigger] rest[i]).0 == qualified_winner(
                        meta,
                        rest,
                        q,
                    )->0 && rest[i].1 is NamedTopic && qualified(meta, rest[i].1) == Some(q)
                        && forall|j: int|
                        i < j < rest.len() ==> !((#[trigger] rest[j]).1 is NamedTopic && qualified(
                            meta,
                            rest[j].1,
                        ) == Some(q));
                assert(some[i] == rest[i]);
                assert forall|j: int| i < j < some.len() implies !((#[trigger] some[j]).1
                    is NamedTopic && qualified(meta, some[j].1) == Some(q)) by {
                    if j < n {
                        assert(rest[j] == some[j]);
                    }
                }
            } else {
                assert forall|j: int| 0 <= j < some.len() implies !((#[trigger] some[j]).1
                    is NamedTopic && qualified(meta, some[j].1) == Some(q)) by {
                    if j < n {
                        assert(rest[j] == some[j]);
                    }
                }
            }
        }
    }
}

/// Every declaration is found by its qualified name, unless a later one has the
/// same: what is found is a declaration with that name, and none after it has it.
pub proof fn qualified_names_find_declarations(
    a: &AuditData,
    idx: &TopicNameIndex,
    t: Topic,
    n: Seq<char>,
    q: Seq<char>,
)
    requires
        ascending(entries(a)),
        idx.indexes(entries(a)),
        is_called(a, t, n),
        full_name(a, t) == Some(q),
    ensures
        idx.qualified_map().dom().contains(q),
        ({
            let u = idx.qualified_map()[q];
            &&& a.topic_metadata@.dom().contains(u)
            &&& a.topic_metadata@[u] is NamedTopic
            &&& full_name(a, u) == Some(q)
            &&& u == t || topic_before(t, u)
        }),
{
    let meta = entries(a);
    lemma_winner(meta, meta, q);
    let k = index_of(meta, t);
    assert(has_key(meta, t));
    assert(meta[k].0@ == t);
    assert(idx.qualified_map().dom().contains(q) == qualified_winner(meta, meta, q) is Some);
    let u = idx.qualified_map()[q];
    let i = choose|i: int|
        0 <= i < meta.len() && (#[trigger] meta[i]).0 == qualified_winner(meta, meta, q)->0
            && meta[i].1 is NamedTopic && qualified(meta, meta[i].1) == Some(q) && forall|j: int|
            i < j < meta.len() ==> !((#[trigger] meta[j]).1 is NamedTopic && qualified(
                meta,
                meta[j].1,
            ) == Some(q));
    lemma_index_of(meta, i);
    if i < k {
        assert(meta[k].1 is NamedTopic);
    } else if k < i {
        assert(<Topic as crate::ordered::MapKey>::before(meta[k].0@, meta[i].0@));
    }
}

/// A qualified name that no declaration has finds nothing.
pub proof fn foreign_names_find_nothing(a: &AuditData, idx: &TopicNameIndex, q: Seq<char>)
    requires
        ascending(entries(a)),
        idx.indexes(entries(a)),
        idx.qualified_map().dom().contains(q),
    ensures
        exists|t: Topic| #[trigger]
            a.topic_metadata@.dom().contains(t) && a.topic_metadata@[t] is NamedTopic && full_name(
                a,
                t,
            ) == Some(q),
{
    let meta = entries(a);
    lemma_winner(meta, meta, q);
    let i = choose|i: int|
        0 <= i < meta.len() && (#[trigger] meta[i]).0 == qualified_winner(meta, meta, q)->0
            && meta[i].1 is NamedTopic && qualified(meta, meta[i].1) == Some(q) && forall|j: int|
            i < j < meta.len() ==> !((#[trigger] meta[j]).1 is NamedTopic && qualified(
                meta,
                meta[j].1,
            ) == Some(q));
    lemma_index_of(meta, i);
    assert(a.topic_metadata@.dom().contains(meta[i].0));
}

proof fn lemma_candidates(some: Seq<(Topic, TopicMetadata)>, n: Seq<char>, t: Topic)
    ensures
        candidates(some, n).contains(t) <==> exists|k: int|
            0 <= k < some.len() && (#[trigger] some[k]).0 == t && simple_name(some[k].1) == Some(n),
    decreases some.len(),
{
    if some.len() > 0 {
        let rest = some.drop_last();
        let e = some.len() - 1;
        lemma_candidates(rest, n, t);
        let c = candidates(some, n);
        let d = candidates(rest, n);
        if c.contains(t) {
            let i = choose|i: int| 0 <= i < c.len() && c[i] == t;
            if i < d.len() {
                assert(d[i] == t);
                let k = choose|k: int|
                    0 <= k < rest.len() && (#[trigger] rest[k]).0 == t && simple_name(rest[k].1)
                        == Some(n);
                assert(some[k] == rest[k]);
            } else {
                assert(some[e].0 == t);
            }
        }
        if exists|k: int|
            0 <= k < some.len() && (#[trigger] some[k]).0 == t && simple_name(some[k].1) == Some(n) {
            let k = choose|k: int|
                0 <= k < some.len() && (#[trigger] some[k]).0 == t && simple_name(some[k].1)
                    == Some(n);
            if k < e {
                assert(rest[k] == some[k]);
                let i = choose|i: int| 0 <= i < d.len() && d[i] == t;
                assert(c[i] == t);
            } else {
                assert(c[c.len() - 1] == t);
            }
        }
    }
}

/// The candidates for a simple name are all declarations with that name, unless it
/// is a common word.
pub proof fn candidates_are_the_declarations(
    a: &AuditData,
    idx: &TopicNameIndex,
    n: Seq<char>,
    t: Topic,
)
    requires
        ascending(entries(a)),
        idx.indexes(entries(a)),
    ensures
        (idx.candidate_map().dom().contains(n) && idx.candidate_map()[n].contains(t)) <==> (
        is_called(a, t, n) && !common_words().contains(n)),
{
    let meta = entries(a);
    lemma_candidates(meta, n, t);
    assert(idx.candidate_map().dom().contains(n) == (candidates(meta, n).len() > 0));
    if candidates(meta, n).contains(t) {
        let k = choose|k: int|
            0 <= k < meta.len() && (#[trigger] meta[k]).0 == t && simple_name(meta[k].1)
                == Some(n);
        lemma_index_of(meta, k);
    }
    if is_called(a, t, n) && !common_words().contains(n) {
        let k = index_of(meta, t);
        assert(has_key(meta, t));
        assert(meta[k].0@ == t);
        assert(meta[k].0 == t && simple_name(meta[k].1) == Some(n));
    }
}

/// `t` stands for another declaration.
pub open spec fn is_proxy(a: &AuditData, t: Topic) -> bool {
    a.topic_metadata@.dom().contains(t) && match a.topic_metadata@[t] {
        TopicMetadata::NamedTopic { transitive_topic, .. } => transitive_topic is Some,
        _ => false,
    }
}

proof fn lemma_calls(a: &AuditData, n: Seq<char>, t: Topic)
    requires
        ascending(entries(a)),
        !common_words().contains(n),
    ensures
        candidates(entries(a), n).contains(t) == is_called(a, t, n),
        is_called(a, t, n) ==> is_no_proxy(entries(a))(t) == !is_proxy(a, t),
{
    let meta = entries(a);
    lemma_candidates(meta, n, t);
    if candidates(meta, n).contains(t) {
        let k = choose|k: int|
            0 <= k < meta.len() && (#[trigger] meta[k]).0 == t && simple_name(meta[k].1)
                == Some(n);
        lemma_index_of(meta, k);
    }
    if is_called(a, t, n) {
        let k = index_of(meta, t);
        assert(has_key(meta, t));
        assert(meta[k].0@ == t);
        assert(meta[k].0 == t && simple_name(meta[k].1) == Some(n));
    }
}

proof fn lemma_distinct_candidates(a: &AuditData, n: Seq<char>)
    requires
        ascending(entries(a)),
    ensures
        candidates(entries(a), n).no_duplicates(),
{
    let c = candidates(entries(a), n);
    assert forall|i: int, j: int| 0 <= i < j < c.len() implies c[i] != c[j] by {
        candidates_ascend(entries(a), n, i, j);
    }
}

/// A simple name that one declaration has means that declaration.
pub proof fn a_sole_declaration_is_meant(a: &AuditData, idx: &TopicNameIndex, n: Seq<char>, t: Topic)
    requires
        ascending(entries(a)),
        idx.indexes(entries(a)),
        !common_words().contains(n),
        is_called(a, t, n),
        forall|u: Topic| #[trigger] is_called(a, u, n) ==> u == t,
    ensures
        idx.simple_map().dom().contains(n),
        idx.simple_map()[n] == t,
{
    let meta = entries(a);
    let c = candidates(meta, n);
    lemma_calls(a, n, t);
    lemma_distinct_candidates(a, n);
    assert forall|i: int| 0 <= i < c.len() implies c[i] == t by {
        lemma_calls(a, n, c[i]);
        assert(c.contains(c[i]));
    }
    let i = choose|i: int| 0 <= i < c.len() && c[i] == t;
    if c.len() > 1 {
        assert(c[0] == c[1]);
    }
    assert(c.len() == 1);
    assert(idx.simple_map().dom().contains(n) == meant_by(meta, c) is Some);
}

/// A simple name that one declaration has which is no proxy means that declaration,
/// however many proxies have it too.
pub proof fn proxies_give_way(a: &AuditData, idx: &TopicNameIndex, n: Seq<char>, t: Topic)
    requires
        ascending(entries(a)),
        idx.indexes(entries(a)),
        !common_words().contains(n),
        is_called(a, t, n),
        !is_proxy(a, t),
        forall|u: Topic| #[trigger] is_called(a, u, n) && u != t ==> is_proxy(a, u),
    ensures
        idx.simple_map().dom().contains(n),
        idx.simple_map()[n] == t,
{
    let meta = entries(a);
    let c = candidates(meta, n);
    let f = is_no_proxy(meta);
    let p = c.filter(f);
    lemma_calls(a, n, t);
    lemma_distinct_candidates(a, n);
    assert forall|i: int| 0 <= i < p.len() implies p[i] == t by {
        lemma_picked_from(c, f, i);
        lemma_calls(a, n, p[i]);
    }
    let i = choose|i: int| 0 <= i < c.len() && c[i] == t;
    c.lemma_filter_contains(f, i);
    assert(p.contains(t));
    if p.len() > 1 {
        lemma_picked_distinct(c, f);
        assert(p[0] == p[1]);
    }
    assert(p.len() == 1);
    if c.len() == 1 {
        assert(c[0] == t);
    }
    assert(idx.simple_map().dom().contains(n) == meant_by(meta, c) is Some);
}

proof fn lemma_picked_distinct(c: Seq<Topic>, f: spec_fn(Topic) -> bool)
    requires
        c.no_duplicates(),
    ensures
        c.filter(f).no_duplicates(),
    decreases c.len(),
{
    reveal(Seq::filter);
    if c.len() > 0 {
        let d = c.drop_last();
        assert(d.no_duplicates()) by {
            assert forall|i: int, j: int| 0 <= i < j < d.len() implies d[i] != d[j] by {
                assert(c[i] != c[j]);
            }
        }
        lemma_picked_distinct(d, f);
        let p = d.filter(f);
        assert forall|i: int| 0 <= i < p.len() implies p[i] != c.last() by {
            lemma_picked_from(d, f, i);
            let k = choose|k: int| 0 <= k < d.len() && d[k] == p[i];
            assert(c[k] != c[c.len() - 1]);
        }
    }
}

/// A simple name that two declarations have which are no proxies means neither.
pub proof fn ambiguous_names_mean_nothing(
    a: &AuditData,
    idx: &TopicNameIndex,
    n: Seq<char>,
    t: Topic,
    u: Topic,
)
    requires
        ascending(entries(a)),
        idx.indexes(entries(a)),
        is_called(a, t, n),
        is_called(a, u, n),
        t != u,
        is_proxy(a, t) == is_proxy(a, u),
        is_proxy(a, t) ==> forall|v: Topic| #[trigger] is_called(a, v, n) ==> is_proxy(a, v),
    ensures
        !idx.simple_map().dom().contains(n),
{
    let meta = entries(a);
    let c = candidates(meta, n);
    let f = is_no_proxy(meta);
    let p = c.filter(f);
    assert(idx.simple_map().dom().contains(n) == meant_by(meta, c) is Some);
    if common_words().contains(n) {
        crate::domain::names::common_words_have_no_candidates(meta, n);
    } else {
        lemma_calls(a, n, t);
        lemma_calls(a, n, u);
        let i = choose|i: int| 0 <= i < c.len() && c[i] == t;
        let j = choose|j: int| 0 <= j < c.len() && c[j] == u;
        assert(c.len() > 1);
        if is_proxy(a, t) {
            if p.len() == 1 {
                lemma_picked_from(c, f, 0);
                lemma_calls(a, n, p[0]);
            }
        } else {
            c.lemma_filter_contains(f, i);
            c.lemma_filter_contains(f, j);
            let x = choose|x: int| 0 <= x < p.len() && p[x] == t;
            let y = choose|y: int| 0 <= y < p.len() && p[y] == u;
            assert(p.len() > 1);
        }
    }
}

} // verus!
