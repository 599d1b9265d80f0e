//! What a ranking walks over, in terms of the edges of the graph.
use crate::domain::topic::Topic;
use crate::resolution_graph::edge::Weight;
use crate::resolution_graph::graph::{edges_from, OutEdge};
use crate::resolution_graph::pagerank::{incoming, is_plan, leads_to, weight_from, without_edges};
use crate::resolution_graph::pagerank::RankPlan;
use vstd::prelude::*;

verus! {

/// An edge with this weight leads from `src` to `dest`.
pub open spec fn leads(g: Map<Topic, Seq<OutEdge>>, src: Topic, dest: Topic, w: Weight) -> bool {
    g.dom().contains(src) && exists|k: int|
        0 <= k < g[src].len() && (#[trigger] g[src][k]).dest == dest && g[src][k].weight == w
}

proof fn lemma_filtered(s: Seq<OutEdge>, f: spec_fn(OutEdge) -> bool, y: OutEdge)
    ensures
        s.filter(f).contains(y) <==> s.contains(y) && f(y),
    decreases s.len(),
{
    reveal(Seq::filter);
    if s.len() > 0 {
        let rest = s.drop_last();
        let n = s.len() - 1;
        lemma_filtered(rest, f, y);
        let before = rest.filter(f);
        let after = s.filter(f);
        if before.contains(y) {
            let k = choose|k: int| 0 <= k < before.len() && before[k] == y;
            assert(after[k] == y);
            let i = choose|i: int| 0 <= i < rest.len() && rest[i] == y;
            assert(s[i] == y);
        }
        if s[n] == y && f(y) {
            assert(after[before.len() as int] == y);
        }
        if after.contains(y) {
            let k = choose|k: int| 0 <= k < after.len() && after[k] == y;
            if k < before.len() {
                assert(before[k] == y);
            } else {
                assert(s[n] == y);
            }
        }
        if s.contains(y) {
            let i = choose|i: int| 0 <= i < s.len() && s[i] == y;
            if i < n {
                assert(rest[i] == y);
            }
        }
    }
}

proof fn lemma_incoming(
    g: Map<Topic, Seq<OutEdge>>,
    nodes: Seq<Topic>,
    n: int,
    t: Topic,
    p: usize,
    w: Weight,
)
    requires
        n <= nodes.len(),
        nodes.len() <= usize::MAX,
    ensures
        incoming(g, nodes, n, t).contains((p, w)) <==> p < n && leads(g, nodes[p as int], t, w),
    decreases n,
{
    if n > 0 {
        let before = incoming(g, nodes, n - 1, t);
        let src = nodes[n - 1];
        let edges = edges_from(g, src);
        let found = edges.filter(leads_to(t));
        let last = found.map_values(weight_from((n - 1) as usize));
        lemma_incoming(g, nodes, n - 1, t, p, w);
        crate::resolution_graph::links::lemma_joined_holds(before, last, (p, w));
        if last.contains((p, w)) {
            let k = choose|k: int| 0 <= k < last.len() && last[k] == (p, w);
            assert(last[k] == weight_from((n - 1) as usize)(found[k]));
            lemma_filtered(edges, leads_to(t), found[k]);
            assert(found.contains(found[k]));
            let i = choose|i: int| 0 <= i < edges.len() && edges[i] == found[k];
            assert(g[src][i].dest == t && g[src][i].weight == w);
            assert(leads(g, nodes[p as int], t, w));
        }
        if p == n - 1 && leads(g, nodes[p as int], t, w) {
            let i = choose|i: int|
                0 <= i < g[src].len() && (#[trigger] g[src][i]).dest == t && g[src][i].weight == w;
            assert(edges.contains(edges[i]));
            lemma_filtered(edges, leads_to(t), edges[i]);
            let k = choose|k: int| 0 <= k < found.len() && found[k] == edges[i];
            assert(last[k] == (p, w));
        }
    }
}

proof fn lemma_without(g: Map<Topic, Seq<OutEdge>>, nodes: Seq<Topic>, n: int, p: usize)
    requires
        n <= nodes.len(),
        nodes.len() <= usize::MAX,
    ensures
        without_edges(g, nodes, n).contains(p) <==> p < n && edges_from(
            g,
            nodes[p as int],
        ).len() == 0,
    decreases n,
{
    if n > 0 {
        let rest = without_edges(g, nodes, n - 1);
        lemma_without(g, nodes, n - 1, p);
        if edges_from(g, nodes[n - 1]).len() == 0 {
            let after = rest.push((n - 1) as usize);
            assert(after[rest.len() as int] == (n - 1) as usize);
            if rest.contains(p) {
                let k = choose|k: int| 0 <= k < rest.len() && rest[k] == p;
                assert(after[k] == p);
            }
            if after.contains(p) && p != n - 1 {
                let k = choose|k: int| 0 <= k < after.len() && after[k] == p;
                assert(rest[k] == p);
            }
        }
    }
}

/// A node takes in from exactly the nodes that an edge leads from, with its weight.
pub proof fn rank_flows_in_along_edges(
    plan: &RankPlan,
    g: Map<Topic, Seq<OutEdge>>,
    seeds: Seq<Topic>,
    d: int,
    p: usize,
    w: Weight,
)
    requires
        is_plan(plan, g, seeds),
        0 <= d < plan.nodes@.len(),
        plan.nodes@.len() <= usize::MAX,
    ensures
        plan.predecessors@[d]@.contains((p, w)) <==> p < plan.nodes@.len() && leads(
            g,
            plan.nodes@[p as int],
            plan.nodes@[d],
            w,
        ),
{
    let nodes = plan.nodes@;
    lemma_incoming(g, nodes, nodes.len() as int, nodes[d], p, w);
    assert(plan.predecessors@[d]@ == incoming(g, nodes, nodes.len() as int, nodes[d]));
}

/// A node gives out by the weights of its edges, in their order. Exactly the nodes
/// without any are dangling.
pub proof fn rank_flows_out_along_edges(
    plan: &RankPlan,
    g: Map<Topic, Seq<OutEdge>>,
    seeds: Seq<Topic>,
    p: usize,
)
    requires
        is_plan(plan, g, seeds),
        p < plan.nodes@.len(),
        plan.nodes@.len() <= usize::MAX,
    ensures
        ({
            let t = plan.nodes@[p as int];
            let out = plan.out_weights@[p as int]@;
            &&& g.dom().contains(t) ==> out.len() == g[t].len() && forall|k: int|
                0 <= k < out.len() ==> #[trigger] out[k] == g[t][k].weight
            &&& !g.dom().contains(t) ==> out.len() == 0
            &&& plan.dangling@.contains(p) <==> out.len() == 0
        }),
{
    let nodes = plan.nodes@;
    lemma_without(g, nodes, nodes.len() as int, p);
    assert(plan.out_weights@[p as int]@ == edges_from(g, nodes[p as int]).map_values(
        |e: OutEdge| e.weight,
    ));
}

/// Both ends of every edge take part in a ranking, and so do the seeds, at the
/// positions that are given for them.
pub proof fn edges_and_seeds_take_part(
    plan: &RankPlan,
    g: Map<Topic, Seq<OutEdge>>,
    seeds: Seq<Topic>,
    src: Topic,
    dest: Topic,
    w: Weight,
    k: int,
)
    requires
        is_plan(plan, g, seeds),
    ensures
        leads(g, src, dest, w) ==> plan.nodes@.contains(src) && plan.nodes@.contains(dest),
        0 <= k < seeds.len() ==> plan.seed_positions@[k] < plan.nodes@.len()
            && plan.nodes@[plan.seed_positions@[k] as int] == seeds[k],
        plan.seed_positions@.len() == seeds.len(),
{
    if leads(g, src, dest, w) {
        let i = choose|i: int|
            0 <= i < g[src].len() && (#[trigger] g[src][i]).dest == dest && g[src][i].weight == w;
        assert(crate::resolution_graph::pagerank::takes_part(g, seeds, src));
        assert(g[src][i].dest == dest);
        assert(crate::resolution_graph::pagerank::takes_part(g, seeds, dest));
    }
}

} // verus!
