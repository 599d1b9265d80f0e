//! Questions to an audit.
use crate::domain::audit::{entries, AuditData};
use crate::domain::index::{index_lists, lemma_index_list, list_for};
use crate::domain::lists::{contains_topic, other_than};
use crate::domain::metadata::TopicMetadata;
use crate::domain::topic::Topic;
use crate::ordered::{ascending, has_key, index_of, lookup, MapKey, OrderedMap};
use crate::text::texts;
use vstd::prelude::*;

verus! {

/// The topic itself and its enclosing topics, innermost first.
pub open spec fn ancestor_chain(meta: Seq<(Topic, TopicMetadata)>, start: Topic) -> Seq<Topic> {
    match lookup(meta, start) {
        None => seq![start],
        Some(m) => seq![start] + m.scope_view().ancestors().reverse().filter(other_than(start)),
    }
}

/// Walks up the scopes from a topic: the topic itself, then each enclosing
/// topic, innermost first. A topic without metadata has itself alone.
pub fn scope_ancestor_chain(audit_data: &AuditData, start_topic: Topic) -> (r: Vec<Topic>)
    ensures
        r@ == ancestor_chain(entries(audit_data), start_topic),
{
    let mut chain: Vec<Topic> = vec![start_topic];
    assert(chain@ =~= seq![start_topic]);
    let metadata = match audit_data.topic_metadata.get(&start_topic) {
        Some(metadata) => metadata,
        None => {
            return chain;
        },
    };
    let ancestors = metadata.scope().ancestor_topics();
    let ghost all = metadata.scope_view().ancestors();
    let ghost up = all.reverse();
    let ghost keep = other_than(start_topic);
    let n: usize = ancestors.len();
    assert(up.take(0).filter(keep) =~= seq![]) by {
        reveal(Seq::filter);
    }
    for i in 0..n
        invariant
            n == ancestors@.len(),
            n == all.len(),
            up == all.reverse(),
            keep == other_than(start_topic),
            forall|j: int| 0 <= j < n ==> *(#[trigger] ancestors@[j]) == all[j],
            chain@ == seq![start_topic] + up.take(i as int).filter(keep),
    {
        let a = *ancestors[n - 1 - i];
        assert(up[i as int] == a);
        assert(up.take(i + 1) =~= up.take(i as int).push(a));
        proof {
            up.take(i as int).lemma_filter_push(a, keep);
        }
        let ghost was = up.take(i as int).filter(keep);
        if a != start_topic {
            chain.push(a);
            assert(chain@ =~= seq![start_topic] + was.push(a));
        }
    }
    assert(up.take(n as int) =~= up);
    chain
}

/// The chain starts with the topic, which occurs nowhere else in it.
pub proof fn chain_starts_with_topic(meta: Seq<(Topic, TopicMetadata)>, start: Topic)
    ensures
        ancestor_chain(meta, start)[0] == start,
        forall|i: int|
            0 < i < ancestor_chain(meta, start).len() ==> ancestor_chain(meta, start)[i] != start,
{
    match lookup(meta, start) {
        None => {},
        Some(m) => {
            let keep = other_than(start);
            let s = m.scope_view().ancestors().reverse();
            s.filter_lemma(keep);
            assert forall|i: int| 0 < i < ancestor_chain(meta, start).len() implies ancestor_chain(
                meta,
                start,
            )[i] != start by {
                assert(keep(s.filter(keep)[i - 1]));
            }
        },
    }
}

/// The topic for which `t` is a proxy.
pub open spec fn next_of(meta: Seq<(Topic, TopicMetadata)>, t: Topic) -> Option<Topic> {
    match lookup(meta, t) {
        Some(m) => m.proxied(),
        None => None,
    }
}

/// `path` leads from proxy to proxy. Only its end may have been met before, and
/// it ends where a topic is no proxy or was met before.
pub open spec fn leads_to_canonical(
    meta: Seq<(Topic, TopicMetadata)>,
    path: Seq<Topic>,
) -> bool {
    &&& path.len() > 0
    &&& forall|i: int|
        0 <= i < path.len() - 1 ==> next_of(meta, #[trigger] path[i]) == Some(path[i + 1])
    &&& path.drop_last().no_duplicates()
    &&& (next_of(meta, path.last()) is None || path.drop_last().contains(path.last()))
}

/// `r` is the topic that the proxies from `t` on stand for.
pub open spec fn is_canonical(
    meta: Seq<(Topic, TopicMetadata)>,
    t: Topic,
    r: Topic,
) -> bool {
    exists|path: Seq<Topic>| #[trigger]
        leads_to_canonical(meta, path) && path[0] == t && path.last() == r
}

proof fn lemma_paths_agree(
    meta: Seq<(Topic, TopicMetadata)>,
    p: Seq<Topic>,
    q: Seq<Topic>,
    i: int,
)
    requires
        leads_to_canonical(meta, p),
        leads_to_canonical(meta, q),
        p[0] == q[0],
        0 <= i < p.len(),
        i < q.len(),
    ensures
        p[i] == q[i],
    decreases i,
{
    if i > 0 {
        lemma_paths_agree(meta, p, q, i - 1);
        assert(next_of(meta, p[i - 1]) == Some(p[i - 1 + 1]));
        assert(next_of(meta, q[i - 1]) == Some(q[i - 1 + 1]));
    }
}

proof fn lemma_path_not_shorter(
    meta: Seq<(Topic, TopicMetadata)>,
    p: Seq<Topic>,
    q: Seq<Topic>,
)
    requires
        leads_to_canonical(meta, p),
        leads_to_canonical(meta, q),
        p[0] == q[0],
    ensures
        p.len() >= q.len(),
{
    if p.len() < q.len() {
        let n = p.len() - 1;
        lemma_paths_agree(meta, p, q, n);
        assert(next_of(meta, q[n]) == Some(q[n + 1]));
        assert(p.drop_last().contains(p.last()));
        let j = choose|j: int| 0 <= j < n && p.drop_last()[j] == p.last();
        assert(p.drop_last()[j] == p[j]);
        lemma_paths_agree(meta, p, q, j);
        assert(q.drop_last()[j] == q[j]);
        assert(q.drop_last()[n] == q[n]);
        assert(false);
    }
}

/// A topic stands for one topic only.
pub proof fn canonical_is_unique(
    meta: Seq<(Topic, TopicMetadata)>,
    t: Topic,
    a: Topic,
    b: Topic,
)
    requires
        is_canonical(meta, t, a),
        is_canonical(meta, t, b),
    ensures
        a == b,
{
    let p = choose|path: Seq<Topic>| #[trigger]
        leads_to_canonical(meta, path) && path[0] == t && path.last() == a;
    let q = choose|path: Seq<Topic>| #[trigger]
        leads_to_canonical(meta, path) && path[0] == t && path.last() == b;
    lemma_path_not_shorter(meta, p, q);
    lemma_path_not_shorter(meta, q, p);
    lemma_paths_agree(meta, p, q, p.len() - 1);
}

/// A topic that is no proxy stands for itself.
pub proof fn no_proxy_is_canonical(meta: Seq<(Topic, TopicMetadata)>, t: Topic)
    requires
        next_of(meta, t) is None,
    ensures
        is_canonical(meta, t, t),
{
    let path = seq![t];
    assert(leads_to_canonical(meta, path));
}

/// Follows proxies to the topic they stand for. Where they run in a circle, the
/// first topic met again is the answer.
pub fn resolve_transitive_topic(
    topic: &Topic,
    topic_metadata: &OrderedMap<Topic, TopicMetadata>,
) -> (r: Topic)
    ensures
        is_canonical(topic_metadata.pairs(), *topic, r),
{
    let ghost meta = topic_metadata.pairs();
    let mut current = *topic;
    let mut visited: Vec<Topic> = Vec::new();
    let n: usize = topic_metadata.len();
    assert(visited@.push(current) =~= seq![current]);
    loop
        invariant
            meta == topic_metadata.pairs(),
            n == meta.len(),
            ascending(meta),
            visited@.push(current)[0] == *topic,
            forall|i: int|
                0 <= i < visited@.len() ==> next_of(meta, #[trigger] visited@[i]) == Some(
                    visited@.push(current)[i + 1],
                ),
            visited@.no_duplicates(),
            forall|i: int| 0 <= i < visited@.len() ==> has_key(meta, #[trigger] visited@[i]),
            visited@.len() <= n,
        decreases n - visited@.len(),
    {
        let ghost path = visited@.push(current);
        assert(path.drop_last() =~= visited@);
        let next = match topic_metadata.get(&current) {
            Some(meta) => match meta.transitive_topic() {
                Some(next) => Some(*next),
                None => None,
            },
            None => None,
        };
        assert(next == next_of(meta, current));
        if contains_topic(&visited, &current) {
            assert(leads_to_canonical(meta, path));
            return current;
        }
        match next {
            Some(next) => {
                proof {
                    lemma_distinct_keys(meta, visited@.push(current));
                }
                visited.push(current);
                current = next;
            },
            None => {
                assert(leads_to_canonical(meta, path));
                return current;
            },
        }
    }
}

/// Distinct keys are no more than there are entries.
proof fn lemma_distinct_keys(s: Seq<(Topic, TopicMetadata)>, keys: Seq<Topic>)
    requires
        ascending(s),
        keys.no_duplicates(),
        forall|i: int| 0 <= i < keys.len() ==> has_key(s, #[trigger] keys[i]),
    ensures
        keys.len() <= s.len(),
{
    let all = s.map_values(|p: (Topic, TopicMetadata)| p.0);
    keys.unique_seq_to_set();
    let a = keys.to_set();
    let b = all.to_set();
    all.lemma_cardinality_of_set();
    assert(a.subset_of(b)) by {
        assert forall|t: Topic| a.contains(t) implies b.contains(t) by {
            let i = choose|i: int| 0 <= i < keys.len() && keys[i] == t;
            assert(has_key(s, keys[i]));
            let j = index_of(s, t);
            assert(all[j] == t);
        }
    }
    vstd::set_lib::lemma_len_subset(a, b);
}

/// The text of a semantic.
pub open spec fn semantic_text(
    meta: Seq<(Topic, TopicMetadata)>,
) -> spec_fn(Topic) -> Option<Seq<char>> {
    |t: Topic|
        match lookup(meta, t) {
            Some(TopicMetadata::FunctionalSemanticTopic { description, .. }) => Some(description@),
            _ => None,
        }
}

/// The texts of the semantics in a list.
pub open spec fn semantic_texts(
    meta: Seq<(Topic, TopicMetadata)>,
    list: Seq<Topic>,
) -> Seq<Seq<char>> {
    list.filter_map(semantic_text(meta))
}

fn texts_of_semantics(
    meta: &OrderedMap<Topic, TopicMetadata>,
    list: &Vec<Topic>,
) -> (r: Vec<String>)
    ensures
        texts(r@) == semantic_texts(meta.pairs(), list@),
{
    let ghost f = semantic_text(meta.pairs());
    let mut r: Vec<String> = Vec::new();
    assert(texts(r@) =~= list@.take(0).filter_map(f)) by {
        reveal(Seq::filter_map);
    }
    for i in 0..list.len()
        invariant
            f == semantic_text(meta.pairs()),
            texts(r@) == list@.take(i as int).filter_map(f),
    {
        let t = list[i];
        proof {
            list@.lemma_filter_map_take_succ(f, i as int);
        }
        let ghost was = r@;
        match meta.get(&t) {
            Some(TopicMetadata::FunctionalSemanticTopic { description, .. }) => {
                r.push(description.clone());
                assert(texts(r@) =~= texts(was).push(description@));
            },
            _ => {},
        }
    }
    assert(list@.take(list@.len() as int) =~= list@);
    r
}

/// The texts of the semantics of one declaration.
pub fn semantic_texts_for_declaration(audit_data: &AuditData, decl_topic: &Topic) -> (r: Vec<
    String,
>)
    ensures
        texts(r@) == semantic_texts(
            entries(audit_data),
            list_for(index_lists(audit_data.declaration_semantics.pairs()), *decl_topic),
        ),
{
    let _ = audit_data.declaration_semantics.len();
    proof {
        lemma_index_list(audit_data.declaration_semantics.pairs(), *decl_topic);
    }
    match audit_data.declaration_semantics.get(decl_topic) {
        Some(list) => texts_of_semantics(&audit_data.topic_metadata, list),
        None => {
            let r: Vec<String> = Vec::new();
            assert(texts(r@) =~= semantic_texts(entries(audit_data), seq![])) by {
                reveal(Seq::filter_map);
            }
            r
        },
    }
}

/// The texts of the semantics of every declaration that has any.
pub fn semantic_texts_by_declaration(audit_data: &AuditData) -> (r: OrderedMap<
    Topic,
    Vec<String>,
>)
    ensures
        ({
            let lists = index_lists(audit_data.declaration_semantics.pairs());
            &&& forall|t: Topic| #[trigger]
                r@.dom().contains(t) == (semantic_texts(
                    entries(audit_data),
                    list_for(lists, t),
                ).len() > 0)
            &&& forall|t: Topic| #[trigger]
                r@.dom().contains(t) ==> texts(r@[t]@) == semantic_texts(
                    entries(audit_data),
                    list_for(lists, t),
                )
        }),
{
    let ghost meta = entries(audit_data);
    let mut r: OrderedMap<Topic, Vec<String>> = OrderedMap::new();
    let n: usize = audit_data.declaration_semantics.len();
    let ghost pairs = audit_data.declaration_semantics.pairs();
    for i in 0..n
        invariant
            meta == entries(audit_data),
            pairs == audit_data.declaration_semantics.pairs(),
            n == pairs.len(),
            ascending(pairs),
            forall|t: Topic| #[trigger]
                r@.dom().contains(t) ==> exists|j: int|
                    0 <= j < i && #[trigger] pairs[j].0 == t && texts(r@[t]@) == semantic_texts(
                        meta,
                        pairs[j].1@,
                    ),
            forall|t: Topic| #[trigger] r@.dom().contains(t) ==> texts(r@[t]@).len() > 0,
            forall|j: int|
                0 <= j < i && semantic_texts(meta, pairs[j].1@).len() > 0
                    ==> #[trigger] r@.dom().contains(pairs[j].0),
    {
        let t = *audit_data.declaration_semantics.key_at(i);
        let found = texts_of_semantics(
            &audit_data.topic_metadata,
            audit_data.declaration_semantics.value_at(i),
        );
        let ghost before = r@;
        assert forall|j: int| 0 <= j < i implies #[trigger] pairs[j].0 != t by {
            assert(Topic::before(pairs[j].0@, pairs[i as int].0@));
        }
        assert(texts(found@).len() == found@.len());
        if found.len() > 0 {
            r.insert(t, found);
            assert forall|q: Topic| #[trigger] r@.dom().contains(q) implies exists|j: int|
                0 <= j < i + 1 && #[trigger] pairs[j].0 == q && texts(r@[q]@) == semantic_texts(
                    meta,
                    pairs[j].1@,
                ) by {
                if q == t {
                    assert(pairs[i as int].0 == q);
                } else {
                    assert(before.dom().contains(q));
                    let j = choose|j: int|
                        0 <= j < i && #[trigger] pairs[j].0 == q && texts(before[q]@)
                            == semantic_texts(meta, pairs[j].1@);
                    assert(pairs[j].0 == q);
                }
            }
        }
    }
    proof {
        let lists = index_lists(pairs);
        assert forall|t: Topic| #[trigger]
            r@.dom().contains(t) == (semantic_texts(meta, list_for(lists, t)).len() > 0) by {
            lemma_index_list(pairs, t);
            if r@.dom().contains(t) {
                let j = choose|j: int|
                    0 <= j < n && #[trigger] pairs[j].0 == t && texts(r@[t]@) == semantic_texts(
                        meta,
                        pairs[j].1@,
                    );
                assert(pairs[j].0@ == t);
                crate::ordered::lemma_index_of(pairs, j);
            }
            if semantic_texts(meta, list_for(lists, t)).len() > 0 {
                if has_key(pairs, t) {
                    let j = index_of(pairs, t);
                    assert(pairs[j].0 == t);
                } else {
                    reveal(Seq::filter_map);
                }
            }
        }
        assert forall|t: Topic| #[trigger] r@.dom().contains(t) implies texts(r@[t]@)
            == semantic_texts(meta, list_for(lists, t)) by {
            lemma_index_list(pairs, t);
            let j = choose|j: int|
                0 <= j < n && #[trigger] pairs[j].0 == t && texts(r@[t]@) == semantic_texts(
                    meta,
                    pairs[j].1@,
                );
            assert(pairs[j].0@ == t);
            crate::ordered::lemma_index_of(pairs, j);
        }
    }
    r
}

} // verus!
