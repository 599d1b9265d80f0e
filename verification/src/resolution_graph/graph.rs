//! Adjacency lists over topics.
use crate::domain::topic::{topic_before, Topic};
use crate::ordered::{has_key, index_of, mapping, MapKey, OrderedMap};
use crate::resolution_graph::edge::{EdgeType, Weight};
use crate::sorting::{in_rank_order, same_rank, sorting_forgets_arrival_order};
use crate::sorting::{sorting_sorted_changes_nothing, stable_sort, stable_sorted};
use crate::sorting::{stable_sorted_is_sorted, Ranked};
use crate::text::Standing;
use vstd::prelude::*;

verus! {

/// One outgoing edge of a source topic. An undirected relationship is two
/// edges, one each way.
#[derive(Debug, Clone, Copy, PartialEq, Eq, Structural)]
pub struct OutEdge {
    pub dest: Topic,
    pub edge_type: EdgeType,
    pub weight: Weight,
}

impl Ranked for OutEdge {
    open spec fn at_most(a: OutEdge, b: OutEdge) -> bool {
        topic_before(a.dest, b.dest) || (a.dest == b.dest && (a.edge_type.place()
            < b.edge_type.place() || (a.edge_type.place() == b.edge_type.place() && a.weight.bits
            <= b.weight.bits)))
    }

    proof fn at_most_total(a: OutEdge, b: OutEdge) {
    }

    proof fn at_most_transitive(a: OutEdge, b: OutEdge, c: OutEdge) {
    }

    fn ranks_at_most(&self, other: &Self) -> (r: bool) {
        match self.dest.standing(&other.dest) {
            Standing::Before => true,
            Standing::Same => {
                let i: u8 = self.edge_type.rank();
                let j: u8 = other.edge_type.rank();
                i < j || (i == j && self.weight.bits <= other.weight.bits)
            },
            Standing::After => false,
        }
    }
}

/// A typed weighted graph of declarations: a list of outgoing edges for each
/// source topic.
#[derive(Debug, PartialEq, Eq)]
pub struct ResolutionGraph {
    adjacency: OrderedMap<Topic, Vec<OutEdge>>,
}

impl View for ResolutionGraph {
    type V = Map<Topic, Seq<OutEdge>>;

    closed spec fn view(&self) -> Map<Topic, Seq<OutEdge>> {
        self.adjacency@.map_values(|v: Vec<OutEdge>| v@)
    }
}

/// The edges that leave `src`.
pub open spec fn edges_from(g: Map<Topic, Seq<OutEdge>>, src: Topic) -> Seq<OutEdge> {
    if g.dom().contains(src) {
        g[src]
    } else {
        seq![]
    }
}

/// `g` with one more edge.
pub open spec fn with_edge(
    g: Map<Topic, Seq<OutEdge>>,
    src: Topic,
    e: OutEdge,
) -> Map<Topic, Seq<OutEdge>> {
    g.insert(src, edges_from(g, src).push(e))
}

/// `g` with each list sorted by destination, then by edge type, then by weight.
pub open spec fn finalized(g: Map<Topic, Seq<OutEdge>>) -> Map<Topic, Seq<OutEdge>> {
    g.map_values(|s: Seq<OutEdge>| stable_sorted(s))
}

/// Finalizing a second time changes nothing.
pub proof fn finalizing_is_idempotent(g: Map<Topic, Seq<OutEdge>>)
    ensures
        finalized(finalized(g)) == finalized(g),
{
    assert forall|t: Topic| #[trigger] g.dom().contains(t) implies finalized(finalized(g))[t]
        == finalized(g)[t] by {
        stable_sorted_is_sorted(g[t]);
        sorting_sorted_changes_nothing(stable_sorted(g[t]));
    }
    assert(finalized(finalized(g)) =~= finalized(g));
}

/// Two graphs with the same edges in any order are finalized to the same graph.
pub proof fn finalizing_forgets_insertion_order(
    a: Map<Topic, Seq<OutEdge>>,
    b: Map<Topic, Seq<OutEdge>>,
)
    requires
        a.dom() == b.dom(),
        forall|t: Topic| #[trigger]
            a.dom().contains(t) ==> a[t].to_multiset() == b[t].to_multiset(),
    ensures
        finalized(a) == finalized(b),
{
    assert forall|t: Topic| #[trigger] a.dom().contains(t) implies finalized(a)[t]
        == finalized(b)[t] by {
        assert forall|x: OutEdge, y: OutEdge|
            a[t].contains(x) && a[t].contains(y) && #[trigger] same_rank(x, y) implies x == y by {
            assert(x.dest == y.dest && x.edge_type == y.edge_type && x.weight == y.weight);
        }
        sorting_forgets_arrival_order(a[t], b[t]);
    }
    assert(finalized(a) =~= finalized(b));
}

/// `g` with edges added in turn, each with its source.
pub open spec fn with_edges(
    g: Map<Topic, Seq<OutEdge>>,
    added: Seq<(Topic, OutEdge)>,
) -> Map<Topic, Seq<OutEdge>>
    decreases added.len(),
{
    if added.len() == 0 {
        g
    } else {
        with_edge(with_edges(g, added.drop_last()), added.last().0, added.last().1)
    }
}

proof fn lemma_added(added: Seq<(Topic, OutEdge)>, src: Topic)
    ensures
        ({
            let g = with_edges(Map::<Topic, Seq<OutEdge>>::empty(), added);
            &&& forall|e: OutEdge| #[trigger]
                edges_from(g, src).to_multiset().count(e) == added.to_multiset().count((src, e))
            &&& g.dom().contains(src) <==> exists|e: OutEdge|
                #![trigger added.to_multiset().count((src, e))]
                added.to_multiset().count((src, e)) > 0
        }),
    decreases added.len(),
{
    broadcast use vstd::seq_lib::group_to_multiset_ensures;

    let g = with_edges(Map::<Topic, Seq<OutEdge>>::empty(), added);
    if added.len() == 0 {
        assert(added.to_multiset() =~= vstd::multiset::Multiset::empty());
    } else {
        let front = added.drop_last();
        let last = added.last();
        let f = with_edges(Map::<Topic, Seq<OutEdge>>::empty(), front);
        lemma_added(front, src);
        assert(front.push(last) =~= added);
        assert(added.to_multiset() == front.to_multiset().insert(last));
        assert(g.dom().contains(src) <==> exists|e: OutEdge|
            #![trigger added.to_multiset().count((src, e))]
            added.to_multiset().count((src, e)) > 0) by {
            if src == last.0 {
                assert(added.to_multiset().count((src, last.1)) > 0);
            } else {
                assert(forall|e: OutEdge| #[trigger]
                    added.to_multiset().count((src, e)) == front.to_multiset().count((src, e)));
                if f.dom().contains(src) {
                    let e = choose|e: OutEdge|
                        #![trigger front.to_multiset().count((src, e))]
                        front.to_multiset().count((src, e)) > 0;
                    assert(added.to_multiset().count((src, e)) > 0);
                }
                if g.dom().contains(src) {
                    assert(f.dom().contains(src));
                }
            }
        }
        if src == last.0 {
            assert(edges_from(g, src) == edges_from(f, src).push(last.1));
        } else {
            assert(edges_from(g, src) == edges_from(f, src));
        }
    }
}

/// Adding the same edges in any order and finalizing gives the same graph.
pub proof fn order_of_insertion_does_not_matter(
    a: Seq<(Topic, OutEdge)>,
    b: Seq<(Topic, OutEdge)>,
)
    requires
        a.to_multiset() == b.to_multiset(),
    ensures
        finalized(with_edges(Map::empty(), a)) == finalized(with_edges(Map::empty(), b)),
{
    let x = with_edges(Map::<Topic, Seq<OutEdge>>::empty(), a);
    let y = with_edges(Map::<Topic, Seq<OutEdge>>::empty(), b);
    assert forall|t: Topic| #[trigger] x.dom().contains(t) == y.dom().contains(t) by {
        lemma_added(a, t);
        lemma_added(b, t);
    }
    assert(x.dom() =~= y.dom());
    assert forall|t: Topic| #[trigger] x.dom().contains(t) implies x[t].to_multiset()
        == y[t].to_multiset() by {
        lemma_added(a, t);
        lemma_added(b, t);
        assert forall|e: OutEdge| x[t].to_multiset().count(e) == y[t].to_multiset().count(e) by {
            assert(edges_from(x, t).to_multiset().count(e) == a.to_multiset().count((t, e)));
            assert(edges_from(y, t).to_multiset().count(e) == b.to_multiset().count((t, e)));
        }
        assert(x[t].to_multiset() =~= y[t].to_multiset());
    }
    finalizing_forgets_insertion_order(x, y);
}

/// A finalized list is in order and holds the edges that were added.
pub proof fn finalizing_sorts(g: Map<Topic, Seq<OutEdge>>, src: Topic)
    ensures
        in_rank_order(edges_from(finalized(g), src)),
        edges_from(finalized(g), src).to_multiset() == edges_from(g, src).to_multiset(),
{
    if g.dom().contains(src) {
        stable_sorted_is_sorted(g[src]);
    }
}

impl ResolutionGraph {
    pub fn new() -> (r: Self)
        ensures
            r@ == Map::<Topic, Seq<OutEdge>>::empty(),
    {
        let r = ResolutionGraph { adjacency: OrderedMap::new() };
        assert(r@ =~= Map::<Topic, Seq<OutEdge>>::empty());
        r
    }

    /// Puts an edge from `src` to `dest` at the end of the list of `src`. The
    /// lists are sorted by `finalize`.
    pub fn add_edge(&mut self, src: Topic, dest: Topic, edge_type: EdgeType, weight: Weight)
        ensures
            final(self)@ == with_edge(old(self)@, src, OutEdge { dest, edge_type, weight }),
    {
        let ghost was = self.adjacency@;
        let mut list: Vec<OutEdge> = match self.adjacency.remove(&src) {
            Some(list) => list,
            None => Vec::new(),
        };
        let ghost before = list@;
        assert(before == edges_from(old(self)@, src));
        list.push(OutEdge { dest, edge_type, weight });
        self.adjacency.insert(src, list);
        assert(self.adjacency@ == was.remove(src).insert(src, list));
        assert(self@ =~= with_edge(old(self)@, src, OutEdge { dest, edge_type, weight }));
    }

    /// Sorts each list by destination, then by edge type, then by weight.
    pub fn finalize(&mut self)
        ensures
            final(self)@ == finalized(old(self)@),
    {
        let ghost was = self@;
        let n: usize = self.adjacency.len();
        let mut sorted: OrderedMap<Topic, Vec<OutEdge>> = OrderedMap::new();
        let ghost pairs = self.adjacency.pairs();
        for i in 0..n
            invariant
                n == self.adjacency.pairs().len(),
                self.adjacency.pairs() == pairs,
                crate::ordered::ascending(pairs),
                forall|k: Topic| #[trigger]
                    sorted@.dom().contains(k) <==> exists|j: int|
                        0 <= j < i && #[trigger] pairs[j].0 == k,
                forall|j: int|
                    0 <= j < i ==> sorted@.dom().contains(#[trigger] pairs[j].0)
                        && sorted@[pairs[j].0]@ == stable_sorted(pairs[j].1@),
        {
            let key = *self.adjacency.key_at(i);
            let list = stable_sort(copy_edges(self.adjacency.value_at(i)));
            proof {
                assert forall|j: int| 0 <= j < i implies #[trigger] pairs[j].0 != key by {
                    assert(Topic::before(pairs[j].0@, pairs[i as int].0@));
                }
            }
            let ghost before = sorted@;
            sorted.insert(key, list);
            assert(pairs[i as int].0 == key);
            assert forall|k: Topic| #[trigger]
                sorted@.dom().contains(k) <==> exists|j: int|
                    0 <= j < i + 1 && #[trigger] pairs[j].0 == k by {
                if before.dom().contains(k) {
                    let j = choose|j: int| 0 <= j < i && #[trigger] pairs[j].0 == k;
                    assert(pairs[j].0 == k);
                }
            }
        }
        self.adjacency = sorted;
        proof {
            let a = mapping(pairs);
            assert forall|k: Topic| #[trigger] a.dom().contains(k) == sorted@.dom().contains(k) by {
                if has_key(pairs, k) {
                    let j = index_of(pairs, k);
                    assert(pairs[j].0 == k);
                }
                if sorted@.dom().contains(k) {
                    let j = choose|j: int| 0 <= j < n && #[trigger] pairs[j].0 == k;
                    assert(pairs[j].0@ == k);
                    assert(has_key(pairs, k));
                }
            }
            assert forall|k: Topic| #[trigger] a.dom().contains(k) implies sorted@[k]@
                == stable_sorted(a[k]@) by {
                let j = index_of(pairs, k);
                assert(pairs[j].0 == k);
            }
            assert(self@ =~= finalized(was));
        }
    }

    /// The edges that leave `src`.
    pub fn out_edges(&self, src: Topic) -> (r: &[OutEdge])
        ensures
            r@ == edges_from(self@, src),
    {
        match self.adjacency.get(&src) {
            Some(list) => list.as_slice(),
            None => &[],
        }
    }

    /// Every source topic, in ascending order. A topic to which edges only lead
    /// is not among them.
    pub fn nodes(&self) -> (r: Vec<Topic>)
        ensures
            forall|t: Topic| #[trigger] r@.contains(t) <==> self@.dom().contains(t),
            forall|i: int, j: int| 0 <= i < j < r@.len() ==> topic_before(r@[i], r@[j]),
    {
        let n: usize = self.adjacency.len();
        let ghost pairs = self.adjacency.pairs();
        let mut r: Vec<Topic> = Vec::new();
        for i in 0..n
            invariant
                n == pairs.len(),
                pairs == self.adjacency.pairs(),
                r@.len() == i,
                forall|j: int| 0 <= j < i ==> #[trigger] r@[j] == pairs[j].0,
        {
            r.push(*self.adjacency.key_at(i));
        }
        proof {
            assert forall|t: Topic| #[trigger] r@.contains(t) <==> self@.dom().contains(t) by {
                if r@.contains(t) {
                    let j = choose|j: int| 0 <= j < r@.len() && r@[j] == t;
                    assert(pairs[j].0@ == t);
                    assert(has_key(pairs, t));
                }
                if self@.dom().contains(t) {
                    assert(has_key(pairs, t));
                    let j = index_of(pairs, t);
                    assert(r@[j] == t);
                }
            }
            assert forall|i: int, j: int| 0 <= i < j < r@.len() implies topic_before(
                #[trigger] r@[i],
                #[trigger] r@[j],
            ) by {
                assert(Topic::before(pairs[i].0@, pairs[j].0@));
            }
        }
        r
    }
}

impl Clone for ResolutionGraph {
    fn clone(&self) -> (r: Self)
        ensures
            r@ == self@,
    {
        let n: usize = self.adjacency.len();
        let ghost pairs = self.adjacency.pairs();
        let mut copy: OrderedMap<Topic, Vec<OutEdge>> = OrderedMap::new();
        for i in 0..n
            invariant
                n == pairs.len(),
                pairs == self.adjacency.pairs(),
                crate::ordered::ascending(pairs),
                forall|k: Topic| #[trigger]
                    copy@.dom().contains(k) <==> exists|j: int|
                        0 <= j < i && #[trigger] pairs[j].0 == k,
                forall|j: int|
                    0 <= j < i ==> copy@.dom().contains(#[trigger] pairs[j].0)
                        && copy@[pairs[j].0]@ == pairs[j].1@,
        {
            let key = *self.adjacency.key_at(i);
            let list = copy_edges(self.adjacency.value_at(i));
            proof {
                assert forall|j: int| 0 <= j < i implies #[trigger] pairs[j].0 != key by {
                    assert(Topic::before(pairs[j].0@, pairs[i as int].0@));
                }
            }
            let ghost before = copy@;
            copy.insert(key, list);
            assert(pairs[i as int].0 == key);
            assert forall|k: Topic| #[trigger]
                copy@.dom().contains(k) <==> exists|j: int|
                    0 <= j < i + 1 && #[trigger] pairs[j].0 == k by {
                if before.dom().contains(k) {
                    let j = choose|j: int| 0 <= j < i && #[trigger] pairs[j].0 == k;
                    assert(pairs[j].0 == k);
                }
            }
        }
        let r = ResolutionGraph { adjacency: copy };
        proof {
            let a = mapping(pairs);
            assert forall|k: Topic| #[trigger] a.dom().contains(k) == copy@.dom().contains(k) by {
                if has_key(pairs, k) {
                    let j = index_of(pairs, k);
                    assert(pairs[j].0 == k);
                }
                if copy@.dom().contains(k) {
                    let j = choose|j: int| 0 <= j < n && #[trigger] pairs[j].0 == k;
                    assert(pairs[j].0@ == k);
                    assert(has_key(pairs, k));
                }
            }
            assert forall|k: Topic| #[trigger] a.dom().contains(k) implies copy@[k]@ == a[k]@ by {
                let j = index_of(pairs, k);
                assert(pairs[j].0 == k);
            }
            assert(r@ =~= self@);
        }
        r
    }
}

fn copy_edges(list: &Vec<OutEdge>) -> (r: Vec<OutEdge>)
    ensures
        r@ == list@,
{
    let mut r: Vec<OutEdge> = Vec::new();
    for i in 0..list.len()
        invariant
            r@ == list@.take(i as int),
    {
        assert(list@.take(i + 1) =~= list@.take(i as int).push(list@[i as int]));
        r.push(list[i]);
    }
    assert(list@.take(list@.len() as int) =~= list@);
    r
}

} // verus!
