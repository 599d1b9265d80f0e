//! What personalized PageRank walks over: the nodes of a graph by position, and
//! what flows into and out of each.
use crate::domain::topic::{topic_before, Topic};
use crate::ordered::{ascending, has_key, index_of, lemma_index_of, MapKey, OrderedMap};
use crate::resolution_graph::edge::Weight;
use crate::resolution_graph::graph::{edges_from, OutEdge, ResolutionGraph};
use vstd::prelude::*;

verus! {

/// The nodes of a graph and its seeds in ascending order, with what flows between
/// their positions.
pub struct RankPlan {
    pub nodes: Vec<Topic>,
    /// For each node the positions that an edge leads from, with its weight, by
    /// ascending position.
    pub predecessors: Vec<Vec<(usize, Weight)>>,
    /// For each node the weights of its edges, in the order of the edges.
    pub out_weights: Vec<Vec<Weight>>,
    /// The positions of the nodes without edges, ascending.
    pub dangling: Vec<usize>,
    /// The position of each seed.
    pub seed_positions: Vec<usize>,
}

/// `t` takes part: an edge leads from it or to it, or it is a seed.
pub open spec fn takes_part(g: Map<Topic, Seq<OutEdge>>, seeds: Seq<Topic>, t: Topic) -> bool {
    ||| g.dom().contains(t)
    ||| exists|src: Topic, k: int|
        g.dom().contains(src) && 0 <= k < g[src].len() && (#[trigger] g[src][k]).dest == t
    ||| seeds.contains(t)
}

pub open spec fn leads_to(t: Topic) -> spec_fn(OutEdge) -> bool {
    |e: OutEdge| e.dest == t
}

pub open spec fn weight_from(p: usize) -> spec_fn(OutEdge) -> (usize, Weight) {
    |e: OutEdge| (p, e.weight)
}

/// What leads to `t` from the first `n` nodes.
pub open spec fn incoming(
    g: Map<Topic, Seq<OutEdge>>,
    nodes: Seq<Topic>,
    n: int,
    t: Topic,
) -> Seq<(usize, Weight)>
    decreases n,
{
    if n <= 0 {
        seq![]
    } else {
        incoming(g, nodes, n - 1, t) + edges_from(g, nodes[n - 1]).filter(leads_to(t)).map_values(
            weight_from((n - 1) as usize),
        )
    }
}

/// The positions below `n` of nodes without edges.
pub open spec fn without_edges(g: Map<Topic, Seq<OutEdge>>, nodes: Seq<Topic>, n: int) -> Seq<usize>
    decreases n,
{
    if n <= 0 {
        seq![]
    } else {
        let rest = without_edges(g, nodes, n - 1);
        if edges_from(g, nodes[n - 1]).len() == 0 {
            rest.push((n - 1) as usize)
        } else {
            rest
        }
    }
}

/// `p` is the plan of a graph with seeds.
pub open spec fn is_plan(p: &RankPlan, g: Map<Topic, Seq<OutEdge>>, seeds: Seq<Topic>) -> bool {
    let nodes = p.nodes@;
    let n = nodes.len() as int;
    &&& forall|i: int, j: int| 0 <= i < j < n ==> topic_before(#[trigger] nodes[i], #[trigger] nodes[j])
    &&& forall|t: Topic| #[trigger] nodes.contains(t) == takes_part(g, seeds, t)
    &&& p.predecessors@.len() == n
    &&& forall|d: int|
        0 <= d < n ==> (#[trigger] p.predecessors@[d])@ == incoming(g, nodes, n, nodes[d])
    &&& p.out_weights@.len() == n
    &&& forall|i: int|
        0 <= i < n ==> (#[trigger] p.out_weights@[i])@ == edges_from(g, nodes[i]).map_values(
            |e: OutEdge| e.weight,
        )
    &&& p.dangling@ == without_edges(g, nodes, n)
    &&& p.seed_positions@.len() == seeds.len()
    &&& forall|k: int|
        0 <= k < seeds.len() ==> (#[trigger] p.seed_positions@[k]) < n
            && nodes[p.seed_positions@[k] as int] == seeds[k]
}

fn gather_nodes(graph: &ResolutionGraph, seeds: &Vec<Topic>) -> (r: OrderedMap<Topic, ()>)
    ensures
        forall|t: Topic| #[trigger] has_key(r.pairs(), t) == takes_part(graph@, seeds@, t),
{
    let ghost g = graph@;
    let mut set: OrderedMap<Topic, ()> = OrderedMap::new();
    let sources = graph.nodes();
    let n: usize = sources.len();
    for i in 0..n
        invariant
            n == sources@.len(),
            g == graph@,
            forall|t: Topic| #[trigger] sources@.contains(t) <==> g.dom().contains(t),
            forall|t: Topic| #[trigger]
                set@.dom().contains(t) ==> takes_part(g, Seq::<Topic>::empty(), t),
            forall|j: int| 0 <= j < i ==> set@.dom().contains(#[trigger] sources@[j]),
            forall|j: int, k: int|
                0 <= j < i && 0 <= k < g[sources@[j]].len() ==> set@.dom().contains(
                    (#[trigger] g[sources@[j]][k]).dest,
                ),
    {
        let src = sources[i];
        assert(sources@.contains(sources@[i as int]));
        assert(g.dom().contains(src));
        set.insert(src, ());
        let edges = graph.out_edges(src);
        let m: usize = edges.len();
        for k in 0..m
            invariant
                m == edges@.len(),
                g == graph@,
                g.dom().contains(src),
                edges@ == g[src],
                i < n,
                n == sources@.len(),
                src == sources@[i as int],
                forall|t: Topic| #[trigger]
                    set@.dom().contains(t) ==> takes_part(g, Seq::<Topic>::empty(), t),
                forall|j: int| 0 <= j <= i ==> set@.dom().contains(#[trigger] sources@[j]),
                forall|j: int, h: int|
                    0 <= j < i && 0 <= h < g[sources@[j]].len() ==> set@.dom().contains(
                        (#[trigger] g[sources@[j]][h]).dest,
                    ),
                forall|h: int|
                    0 <= h < k ==> set@.dom().contains((#[trigger] g[src][h]).dest),
        {
            assert(g[src][k as int].dest == edges@[k as int].dest);
            set.insert(edges[k].dest, ());
        }
    }
    let ghost before = set@;
    let s: usize = seeds.len();
    for k in 0..s
        invariant
            s == seeds@.len(),
            forall|t: Topic| #[trigger] before.dom().contains(t) ==> set@.dom().contains(t),
            forall|t: Topic| #[trigger]
                set@.dom().contains(t) ==> before.dom().contains(t) || seeds@.contains(t),
            forall|j: int| 0 <= j < k ==> set@.dom().contains(#[trigger] seeds@[j]),
    {
        assert(seeds@.contains(seeds@[k as int]));
        set.insert(seeds[k], ());
    }
    proof {
        assert forall|t: Topic| #[trigger] has_key(set.pairs(), t) == takes_part(
            g,
            seeds@,
            t,
        ) by {
            assert(has_key(set.pairs(), t) == set@.dom().contains(t));
            if g.dom().contains(t) {
                assert(sources@.contains(t));
                let j = choose|j: int| 0 <= j < sources@.len() && sources@[j] == t;
                assert(before.dom().contains(sources@[j]));
            }
            if exists|src: Topic, k: int|
                g.dom().contains(src) && 0 <= k < g[src].len() && (#[trigger] g[src][k]).dest
                    == t {
                let (src, k) = choose|src: Topic, k: int|
                    g.dom().contains(src) && 0 <= k < g[src].len() && (#[trigger] g[src][k]).dest
                        == t;
                assert(sources@.contains(src));
                let j = choose|j: int| 0 <= j < sources@.len() && sources@[j] == src;
                assert(before.dom().contains(g[sources@[j]][k].dest));
            }
            if seeds@.contains(t) {
                let j = choose|j: int| 0 <= j < seeds@.len() && seeds@[j] == t;
                assert(set@.dom().contains(seeds@[j]));
            }
            if before.dom().contains(t) {
                assert(takes_part(g, Seq::<Topic>::empty(), t));
            }
        }
    }
    set
}

/// The plan of a graph with seeds.
pub fn plan(graph: &ResolutionGraph, seeds: &Vec<Topic>) -> (r: RankPlan)
    ensures
        is_plan(&r, graph@, seeds@),
{
    let ghost g = graph@;
    let set = gather_nodes(graph, seeds);
    let n: usize = set.len();
    let ghost pairs = set.pairs();
    let mut nodes: Vec<Topic> = Vec::new();
    let mut predecessors: Vec<Vec<(usize, Weight)>> = Vec::new();
    let mut out_weights: Vec<Vec<Weight>> = Vec::new();
    for i in 0..n
        invariant
            n == pairs.len(),
            pairs == set.pairs(),
            nodes@.len() == i,
            predecessors@.len() == i,
            forall|j: int| 0 <= j < i ==> #[trigger] nodes@[j] == pairs[j].0,
            forall|j: int| 0 <= j < i ==> (#[trigger] predecessors@[j])@ == Seq::<
                (usize, Weight),
            >::empty(),
    {
        nodes.push(*set.key_at(i));
        predecessors.push(Vec::new());
    }
    proof {
        assert forall|t: Topic| #[trigger] nodes@.contains(t) == takes_part(g, seeds@, t) by {
            assert(has_key(pairs, t) == takes_part(g, seeds@, t));
            if nodes@.contains(t) {
                let j = choose|j: int| 0 <= j < nodes@.len() && nodes@[j] == t;
                assert(pairs[j].0@ == t);
            }
            if has_key(pairs, t) {
                assert(nodes@[index_of(pairs, t)] == t);
            }
        }
        assert forall|i: int, j: int| 0 <= i < j < n implies topic_before(
            #[trigger] nodes@[i],
            #[trigger] nodes@[j],
        ) by {
            assert(Topic::before(pairs[i].0@, pairs[j].0@));
        }
        assert forall|d: int| 0 <= d < n implies (#[trigger] predecessors@[d])@ == incoming(
            g,
            nodes@,
            0,
            nodes@[d],
        ) by {}
    }
    let mut dangling: Vec<usize> = Vec::new();
    assert(dangling@ =~= without_edges(g, nodes@, 0));
    for i in 0..n
        invariant
            g == graph@,
            n == pairs.len(),
            pairs == set.pairs(),
            ascending(pairs),
            nodes@.len() == n,
            predecessors@.len() == n,
            out_weights@.len() == i,
            forall|j: int| 0 <= j < n ==> #[trigger] nodes@[j] == pairs[j].0,
            forall|t: Topic| #[trigger] nodes@.contains(t) == takes_part(g, seeds@, t),
            forall|t: Topic| #[trigger] has_key(pairs, t) == takes_part(g, seeds@, t),
            forall|d: int|
                0 <= d < n ==> (#[trigger] predecessors@[d])@ == incoming(
                    g,
                    nodes@,
                    i as int,
                    nodes@[d],
                ),
            forall|j: int|
                0 <= j < i ==> (#[trigger] out_weights@[j])@ == edges_from(
                    g,
                    nodes@[j],
                ).map_values(|e: OutEdge| e.weight),
            dangling@ == without_edges(g, nodes@, i as int),
    {
        let src = nodes[i];
        let edges = graph.out_edges(src);
        let m: usize = edges.len();
        let mut weights: Vec<Weight> = Vec::new();
        let ghost h = |e: OutEdge| e.weight;
        assert(weights@ =~= edges@.take(0).map_values(h));
        assert forall|d: int| 0 <= d < n implies (#[trigger] predecessors@[d])@ == incoming(
            g,
            nodes@,
            i as int,
            nodes@[d],
        ) + edges@.take(0).filter(leads_to(nodes@[d])).map_values(weight_from(i)) by {
            reveal(Seq::filter);
            assert(edges@.take(0).filter(leads_to(nodes@[d])).map_values(weight_from(i))
                =~= Seq::empty());
            assert(predecessors@[d]@ =~= incoming(g, nodes@, i as int, nodes@[d]) + Seq::empty());
        }
        for k in 0..m
            invariant
                m == edges@.len(),
                g == graph@,
                i < n,
                n == pairs.len(),
                pairs == set.pairs(),
                ascending(pairs),
                nodes@.len() == n,
                predecessors@.len() == n,
                src == nodes@[i as int],
                edges@ == edges_from(g, src),
                h == (|e: OutEdge| e.weight),
                forall|j: int| 0 <= j < n ==> #[trigger] nodes@[j] == pairs[j].0,
                forall|t: Topic| #[trigger] has_key(pairs, t) == takes_part(g, seeds@, t),
                weights@ == edges@.take(k as int).map_values(h),
                forall|d: int|
                    0 <= d < n ==> (#[trigger] predecessors@[d])@ == incoming(
                        g,
                        nodes@,
                        i as int,
                        nodes@[d],
                    ) + edges@.take(k as int).filter(leads_to(nodes@[d])).map_values(
                        weight_from(i),
                    ),
        {
            let e = edges[k];
            let ghost before = predecessors@;
            let ghost was = weights@;
            proof {
                assert(g.dom().contains(src));
                assert(g[src][k as int].dest == e.dest);
                assert(takes_part(g, seeds@, e.dest));
                assert(has_key(pairs, e.dest));
                assert(edges@.take(k + 1) =~= edges@.take(k as int).push(e));
            }
            weights.push(e.weight);
            assert(weights@ =~= edges@.take(k + 1).map_values(h));
            if let Some(pos) = set.position(&e.dest) {
                assert(nodes@[pos as int] == e.dest);
                let list = &mut predecessors[pos];
                list.push((i, e.weight));
                assert forall|d: int| 0 <= d < n implies (#[trigger] predecessors@[d])@
                    == incoming(g, nodes@, i as int, nodes@[d]) + edges@.take(k + 1).filter(
                    leads_to(nodes@[d]),
                ).map_values(weight_from(i)) by {
                    let f = leads_to(nodes@[d]);
                    edges@.take(k as int).lemma_filter_push(e, f);
                    if d == pos {
                        assert(f(e));
                        assert(edges@.take(k + 1).filter(f).map_values(weight_from(i))
                            =~= edges@.take(k as int).filter(f).map_values(weight_from(i)).push(
                            (i, e.weight),
                        ));
                        assert(predecessors@[d]@ =~= before[d]@.push((i, e.weight)));
                        assert(predecessors@[d]@ =~= incoming(g, nodes@, i as int, nodes@[d])
                            + edges@.take(k + 1).filter(f).map_values(weight_from(i)));
                    } else {
                        lemma_index_of(pairs, d);
                        assert(nodes@[d] != e.dest);
                        assert(!f(e));
                        assert(predecessors@[d] == before[d]);
                    }
                }
            }
        }
        assert(edges@.take(m as int) =~= edges@);
        out_weights.push(weights);
        if m == 0 {
            dangling.push(i);
        }
        assert(dangling@ == without_edges(g, nodes@, i + 1));
    }
    let mut seed_positions: Vec<usize> = Vec::new();
    let s: usize = seeds.len();
    for k in 0..s
        invariant
            s == seeds@.len(),
            n == pairs.len(),
            pairs == set.pairs(),
            nodes@.len() == n,
            forall|j: int| 0 <= j < n ==> #[trigger] nodes@[j] == pairs[j].0,
            forall|t: Topic| #[trigger] has_key(pairs, t) == takes_part(g, seeds@, t),
            seed_positions@.len() == k,
            forall|j: int|
                0 <= j < k ==> (#[trigger] seed_positions@[j]) < n && nodes@[seed_positions@[j] as int]
                    == seeds@[j],
    {
        let t = seeds[k];
        assert(seeds@.contains(seeds@[k as int]));
        assert(has_key(pairs, t));
        if let Some(pos) = set.position(&t) {
            seed_positions.push(pos);
        }
    }
    RankPlan { nodes, predecessors, out_weights, dangling, seed_positions }
}

} // verus!
