//! Building the graph of an audit.
use crate::domain::audit::AuditData;
use crate::domain::topic::Topic;
use crate::resolution_graph::graph::{edges_from, finalized, finalizing_sorts, OutEdge};
use crate::resolution_graph::graph::ResolutionGraph;
use crate::resolution_graph::links::{distinct, edge_of, edges_are_the_links, is_named, leaves};
use crate::resolution_graph::links::{with_links, Link};
use crate::resolution_graph::rust_extractor::{has_rust, rust_links, rust_links_are_sound};
use crate::resolution_graph::rust_extractor::RustExtractor;
use crate::resolution_graph::solidity_extractor::{has_solidity, solidity_links};
use crate::resolution_graph::solidity_extractor::{solidity_links_are_sound, SolidityExtractor};
use vstd::prelude::*;
use vstd::seq_lib::*;

verus! {

/// Finds the links of one language. An extractor reads the audit and adds edges
/// to the graph; the builder finalizes it once all have run.
pub trait Extractor {
    fn applies_to(&self, audit_data: &AuditData) -> bool;

    fn extract(&self, audit_data: &AuditData, graph: &mut ResolutionGraph);
}

/// The links that the extractor for Solidity adds, if it runs.
pub open spec fn solidity_part(a: &AuditData) -> Seq<Link> {
    if has_solidity(a) {
        distinct(solidity_links(a))
    } else {
        seq![]
    }
}

/// The links that the extractor for Rust adds, if it runs.
pub open spec fn rust_part(a: &AuditData) -> Seq<Link> {
    if has_rust(a) {
        distinct(rust_links(a))
    } else {
        seq![]
    }
}

/// The graph of an audit: the links of each language that it holds.
pub open spec fn graph_of(a: &AuditData) -> Map<Topic, Seq<OutEdge>> {
    finalized(
        with_links(with_links(Map::<Topic, Seq<OutEdge>>::empty(), solidity_part(a)), rust_part(a)),
    )
}

/// Builds the graph of an audit.
pub fn build(audit_data: &AuditData) -> (r: ResolutionGraph)
    ensures
        r@ == graph_of(audit_data),
{
    let mut graph = ResolutionGraph::new();
    let solidity = SolidityExtractor;
    if solidity.applies_to(audit_data) {
        solidity.extract(audit_data, &mut graph);
    }
    let rust = RustExtractor;
    if rust.applies_to(audit_data) {
        rust.extract(audit_data, &mut graph);
    }
    graph.finalize();
    graph
}

/// The edges of the graph are the links that were found.
pub proof fn graph_edges_are_the_links(a: &AuditData, src: Topic, e: OutEdge)
    ensures
        edges_from(graph_of(a), src).contains(e) == exists|l: Link| #[trigger]
            edge_of(l) == e && l.src == src && (solidity_part(a).contains(l) || rust_part(
                a,
            ).contains(l)),
{
    broadcast use group_to_multiset_ensures;

    let g0 = Map::<Topic, Seq<OutEdge>>::empty();
    let g1 = with_links(g0, solidity_part(a));
    let g2 = with_links(g1, rust_part(a));
    finalizing_sorts(g2, src);
    let before = edges_from(g2, src);
    let after = edges_from(graph_of(a), src);
    assert(after.contains(e) == (after.to_multiset().count(e) > 0));
    assert(before.contains(e) == (before.to_multiset().count(e) > 0));
    edges_are_the_links(g0, solidity_part(a), src);
    edges_are_the_links(g1, rust_part(a), src);
    let h = |l: Link| edge_of(l);
    let x = solidity_part(a).filter(leaves(src)).map_values(h);
    let y = rust_part(a).filter(leaves(src)).map_values(h);
    assert(before =~= x + y);
    crate::resolution_graph::links::lemma_joined_holds(x, y, e);
    lemma_picked_edges(solidity_part(a), src, e);
    lemma_picked_edges(rust_part(a), src, e);
}

proof fn lemma_picked_edges(s: Seq<Link>, src: Topic, e: OutEdge)
    ensures
        s.filter(leaves(src)).map_values(|l: Link| edge_of(l)).contains(e) == exists|l: Link| #[trigger]
            edge_of(l) == e && l.src == src && s.contains(l),
{
    let f = leaves(src);
    let p = s.filter(f);
    let m = p.map_values(|l: Link| edge_of(l));
    if m.contains(e) {
        let k = choose|k: int| 0 <= k < m.len() && m[k] == e;
        crate::sorting::lemma_picked_from(s, f, k);
        assert(edge_of(p[k]) == e);
    }
    if exists|l: Link| #[trigger] edge_of(l) == e && l.src == src && s.contains(l) {
        let l = choose|l: Link| #[trigger] edge_of(l) == e && l.src == src && s.contains(l);
        let i = choose|i: int| 0 <= i < s.len() && s[i] == l;
        s.lemma_filter_contains(f, i);
        let k = choose|k: int| 0 <= k < p.len() && p[k] == l;
        assert(m[k] == e);
    }
}

/// In the graph of an audit no edge leads from a topic to itself, every edge
/// leads to a declaration with a name and has the weight of its type, and an edge
/// whose relationship runs both ways has its counterpart.
pub proof fn graph_is_sound(a: &AuditData, src: Topic, e: OutEdge)
    requires
        edges_from(graph_of(a), src).contains(e),
    ensures
        e.dest != src,
        is_named(a, e.dest),
        e.weight == e.edge_type.weight(),
        e.edge_type.both_ways() ==> edges_from(graph_of(a), e.dest).contains(
            OutEdge { dest: src, ..e },
        ),
{
    graph_edges_are_the_links(a, src, e);
    solidity_links_are_sound(a);
    rust_links_are_sound(a);
    let l = choose|l: Link| #[trigger]
        edge_of(l) == e && l.src == src && (solidity_part(a).contains(l) || rust_part(a).contains(
            l,
        ));
    if e.edge_type.both_ways() {
        let back = Link { src: l.dst, dst: l.src, edge_type: l.edge_type };
        assert(edge_of(back) == (OutEdge { dest: src, ..e }));
        graph_edges_are_the_links(a, e.dest, OutEdge { dest: src, ..e });
    }
}

} // verus!
