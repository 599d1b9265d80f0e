//! Indexes from topics to lists of topics.
use crate::domain::lists::{push_new, with_topic};
use crate::domain::topic::Topic;
use crate::ordered::{ascending, has_key, index_of, lemma_index_of, lemma_put, lookup, place_of};
use crate::ordered::{put, without, MapKey, OrderedMap};
use vstd::prelude::*;

verus! {

/// The entries of `s` with their values read through `f`.
pub open spec fn mapped<K, V, W>(s: Seq<(K, V)>, f: spec_fn(V) -> W) -> Seq<(K, W)> {
    s.map_values(|p: (K, V)| (p.0, f(p.1)))
}

pub proof fn lemma_mapped<K: MapKey, V, W>(s: Seq<(K, V)>, f: spec_fn(V) -> W)
    ensures
        mapped(s, f).len() == s.len(),
        forall|i: int| 0 <= i < s.len() ==> #[trigger] mapped(s, f)[i] == (s[i].0, f(s[i].1)),
        ascending(s) ==> ascending(mapped(s, f)),
        forall|k: K::V| #[trigger] has_key(mapped(s, f), k) == has_key(s, k),
{
    let m = mapped(s, f);
    assert forall|k: K::V| #[trigger] has_key(m, k) == has_key(s, k) by {
        if has_key(m, k) {
            let i = index_of(m, k);
            assert(s[i].0@ == k);
        }
        if has_key(s, k) {
            let i = index_of(s, k);
            assert(m[i].0@ == k);
        }
    }
}

proof fn lemma_mapped_place<K: MapKey, V, W>(s: Seq<(K, V)>, f: spec_fn(V) -> W, k: K::V)
    ensures
        place_of(mapped(s, f), k) == place_of(s, k),
    decreases s.len(),
{
    if s.len() > 0 {
        lemma_mapped_place(s.drop_last(), f, k);
        assert(mapped(s, f).drop_last() =~= mapped(s.drop_last(), f));
    }
}

pub proof fn lemma_mapped_put<K: MapKey, V, W>(
    s: Seq<(K, V)>,
    f: spec_fn(V) -> W,
    k: K,
    v: V,
)
    requires
        ascending(s),
    ensures
        mapped(put(s, k, v), f) == put(mapped(s, f), k, f(v)),
{
    lemma_mapped::<K, V, W>(s, f);
    let m = mapped(s, f);
    if has_key(s, k@) {
        let i = index_of(s, k@);
        assert(m[i].0@ == k@);
        lemma_index_of(m, i);
        assert(mapped(put(s, k, v), f) =~= put(m, k, f(v)));
    } else {
        lemma_mapped_place(s, f, k@);
        crate::ordered::lemma_place_splits(s, k@);
        assert(mapped(put(s, k, v), f) =~= put(m, k, f(v)));
    }
}

pub proof fn lemma_mapped_without<K: MapKey, V, W>(
    s: Seq<(K, V)>,
    f: spec_fn(V) -> W,
    k: K::V,
)
    requires
        ascending(s),
    ensures
        mapped(without(s, k), f) == without(mapped(s, f), k),
{
    lemma_mapped::<K, V, W>(s, f);
    let m = mapped(s, f);
    if has_key(s, k) {
        let i = index_of(s, k);
        assert(m[i].0@ == k);
        lemma_index_of(m, i);
        assert(mapped(without(s, k), f) =~= without(m, k));
    }
}

pub proof fn lemma_mapped_lookup<K: MapKey, V, W>(
    s: Seq<(K, V)>,
    f: spec_fn(V) -> W,
    k: K::V,
)
    requires
        ascending(s),
    ensures
        lookup(mapped(s, f), k) == match lookup(s, k) {
            Some(v) => Some(f(v)),
            None => None,
        },
{
    lemma_mapped::<K, V, W>(s, f);
    if has_key(s, k) {
        let i = index_of(s, k);
        assert(mapped(s, f)[i].0@ == k);
        lemma_index_of(mapped(s, f), i);
    }
}

/// What a lookup finds after `k` was bound to `v`.
pub proof fn lemma_lookup_put<K: MapKey, V>(s: Seq<(K, V)>, k: K, v: V, q: K::V)
    requires
        ascending(s),
    ensures
        ascending(put(s, k, v)),
        lookup(put(s, k, v), q) == if q == k@ {
            Some(v)
        } else {
            lookup(s, q)
        },
{
    lemma_put(s, k, v);
    let r = put(s, k, v);
    let m = crate::ordered::mapping(r);
    let n = crate::ordered::mapping(s);
    assert(m.dom().contains(q) == (q == k@ || n.dom().contains(q)));
    assert(has_key(r, q) == m.dom().contains(q));
    assert(has_key(s, q) == n.dom().contains(q));
    if has_key(r, q) {
        assert(m[q] == r[index_of(r, q)].1);
    }
}

/// What a lookup finds after `k` was taken out.
pub proof fn lemma_lookup_without<K: MapKey, V>(s: Seq<(K, V)>, k: K::V, q: K::V)
    requires
        ascending(s),
    ensures
        ascending(without(s, k)),
        lookup(without(s, k), q) == if q == k {
            None
        } else {
            lookup(s, q)
        },
{
    crate::ordered::lemma_without(s, k);
    let r = without(s, k);
    let m = crate::ordered::mapping(r);
    let n = crate::ordered::mapping(s);
    assert(m.dom().contains(q) == (q != k && n.dom().contains(q)));
    assert(has_key(r, q) == m.dom().contains(q));
    assert(has_key(s, q) == n.dom().contains(q));
    if has_key(r, q) {
        assert(m[q] == r[index_of(r, q)].1);
    }
}

/// An index of topics: in ascending order, each with its list.
pub type TopicIndex = OrderedMap<Topic, Vec<Topic>>;

/// What an index holds.
pub open spec fn index_lists(s: Seq<(Topic, Vec<Topic>)>) -> Seq<(Topic, Seq<Topic>)> {
    mapped(s, |v: Vec<Topic>| v@)
}

/// The list of `k`. A topic without an entry has the empty list.
pub open spec fn list_for(s: Seq<(Topic, Seq<Topic>)>, k: Topic) -> Seq<Topic> {
    match lookup(s, k) {
        Some(l) => l,
        None => seq![],
    }
}

/// The index with `t` at the end of the list of `k`.
pub open spec fn listed_at(s: Seq<(Topic, Seq<Topic>)>, k: Topic, t: Topic) -> Seq<
    (Topic, Seq<Topic>),
> {
    put(s, k, list_for(s, k).push(t))
}

/// The index with `t` in the list of `k`.
pub open spec fn listed_once_at(s: Seq<(Topic, Seq<Topic>)>, k: Topic, t: Topic) -> Seq<
    (Topic, Seq<Topic>),
> {
    put(s, k, with_topic(list_for(s, k), t))
}

pub proof fn lemma_index_put(s: Seq<(Topic, Vec<Topic>)>, k: Topic, v: Vec<Topic>)
    requires
        ascending(s),
    ensures
        index_lists(put(s, k, v)) == put(index_lists(s), k, v@),
{
    lemma_mapped_put(s, |v: Vec<Topic>| v@, k, v);
}

pub proof fn lemma_index_list(s: Seq<(Topic, Vec<Topic>)>, k: Topic)
    requires
        ascending(s),
    ensures
        list_for(index_lists(s), k) == match lookup(s, k) {
            Some(v) => v@,
            None => seq![],
        },
        lookup(index_lists(s), k) is Some == lookup(s, k) is Some,
{
    lemma_mapped_lookup(s, |v: Vec<Topic>| v@, k);
}

/// Puts `t` at the end of the list of `k`.
pub fn list_at(index: &mut TopicIndex, k: Topic, t: Topic)
    ensures
        index_lists(final(index).pairs()) == listed_at(index_lists(old(index).pairs()), k, t),
{
    let _ = index.len();
    let ghost was = index.pairs();
    proof {
        lemma_index_list(was, k);
    }
    let mut list: Vec<Topic> = match index.remove(&k) {
        Some(list) => list,
        None => Vec::new(),
    };
    list.push(t);
    proof {
        lemma_put_after_without(was, k, list);
        lemma_index_put(was, k, list);
    }
    index.insert(k, list);
}

/// Puts `t` at the end of the list of `k`, unless it is there already.
pub fn list_once_at(index: &mut TopicIndex, k: Topic, t: Topic)
    ensures
        index_lists(final(index).pairs()) == listed_once_at(
            index_lists(old(index).pairs()),
            k,
            t,
        ),
{
    let _ = index.len();
    let ghost was = index.pairs();
    proof {
        lemma_index_list(was, k);
    }
    let mut list: Vec<Topic> = match index.remove(&k) {
        Some(list) => list,
        None => Vec::new(),
    };
    push_new(&mut list, t);
    proof {
        lemma_put_after_without(was, k, list);
        lemma_index_put(was, k, list);
    }
    index.insert(k, list);
}

/// Taking a key out first does not count when it is bound anew.
pub proof fn lemma_put_after_without<V>(s: Seq<(Topic, V)>, k: Topic, v: V)
    requires
        ascending(s),
    ensures
        put(without(s, k), k, v) == put(s, k, v),
{
    if has_key(s, k) {
        let i = index_of(s, k);
        let w = without(s, k);
        lemma_lookup_without(s, k, k);
        assert(!has_key(w, k));
        assert forall|j: int| 0 <= j < i implies Topic::before(#[trigger] w[j].0@, k) by {
            assert(w[j] == s[j]);
            assert(Topic::before(s[j].0@, s[i].0@));
        }
        assert forall|j: int| i <= j < w.len() implies !Topic::before(#[trigger] w[j].0@, k) by {
            assert(w[j] == s[j + 1]);
            assert(Topic::before(s[i].0@, s[j + 1].0@));
        }
        crate::ordered::lemma_place_of(w, k, i);
        assert(put(w, k, v) =~= put(s, k, v));
    }
}

} // verus!
