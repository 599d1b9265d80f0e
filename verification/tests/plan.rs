use o11a_core::domain::topic::{new_node_topic, Topic};
use o11a_core::resolution_graph::pagerank::plan;
use o11a_core::resolution_graph::{EdgeType, ResolutionGraph};

fn t(id: i32) -> Topic {
    new_node_topic(&id)
}

#[test]
fn plan_lists_nodes_and_flows_by_position() {
    let mut g = ResolutionGraph::new();
    g.add_edge(t(3), t(1), EdgeType::Calls, EdgeType::Calls.default_weight());
    g.add_edge(t(1), t(9), EdgeType::References, EdgeType::References.default_weight());
    g.add_edge(t(1), t(9), EdgeType::Calls, EdgeType::Calls.default_weight());
    g.add_edge(t(3), t(9), EdgeType::Calls, EdgeType::Calls.default_weight());
    g.finalize();
    let p = plan(&g, &vec![t(5), t(1)]);
    assert_eq!(p.nodes, vec![t(1), t(3), t(5), t(9)]);
    let calls = EdgeType::Calls.default_weight();
    let references = EdgeType::References.default_weight();
    assert_eq!(p.predecessors[0], vec![(1, calls)]);
    assert!(p.predecessors[1].is_empty());
    assert!(p.predecessors[2].is_empty());
    assert_eq!(p.predecessors[3], vec![(0, calls), (0, references), (1, calls)]);
    assert_eq!(p.out_weights[0], vec![calls, references]);
    assert_eq!(p.out_weights[1], vec![calls, calls]);
    assert_eq!(p.dangling, vec![2, 3]);
    assert_eq!(p.seed_positions, vec![2, 0]);
}

#[test]
fn plan_of_nothing_is_empty() {
    let p = plan(&ResolutionGraph::new(), &vec![]);
    assert!(p.nodes.is_empty());
    assert!(p.predecessors.is_empty());
    assert!(p.dangling.is_empty());
    assert!(p.seed_positions.is_empty());
}
