use o11a_core::domain::topic;
use o11a_core::domain::{new_audit_data, AuditData, NamedTopicKind, NamedTopicVisibility, Scope};
use o11a_core::domain::{TopicMetadata, TopicNameIndex};
use o11a_core::ordered::OrderedMap;
use o11a_core::resolution_graph::edge::Weight;
use o11a_core::resolution_graph::trace::ResolutionRefId;
use o11a_core::resolution_graph::{build, Direction, EdgeType, Extractor, OutEdge, ResolutionGraph};

fn weight(v: f32) -> Weight {
    Weight { bits: v.to_bits() }
}

fn value(w: Weight) -> f32 {
    f32::from_bits(w.bits)
}

const ALL_EDGE_TYPES: &[EdgeType] = &[
    EdgeType::ContainsMember,
    EdgeType::ContainsLocal,
    EdgeType::ContainsField,
    EdgeType::Calls,
    EdgeType::References,
    EdgeType::Implements,
    EdgeType::ProxyOf,
    EdgeType::WritesState,
    EdgeType::UsingFor,
    EdgeType::ModifierApplied,
    EdgeType::ErrorThrown,
    EdgeType::EventEmitted,
    EdgeType::Derives,
    EdgeType::ReExports,
    EdgeType::MutatesField,
];

#[test]
fn default_weight_matches_spec_universal_core() {
    assert_eq!(value(EdgeType::ContainsMember.default_weight()), 1.0);
    assert_eq!(value(EdgeType::ContainsLocal.default_weight()), 1.2);
    assert_eq!(value(EdgeType::ContainsField.default_weight()), 1.0);
    assert_eq!(value(EdgeType::Calls.default_weight()), 0.7);
    assert_eq!(value(EdgeType::References.default_weight()), 0.5);
    assert_eq!(value(EdgeType::Implements.default_weight()), 0.8);
    assert_eq!(value(EdgeType::ProxyOf.default_weight()), 0.9);
}

#[test]
fn default_weight_matches_spec_solidity_extensions() {
    assert_eq!(value(EdgeType::WritesState.default_weight()), 0.7);
    assert_eq!(value(EdgeType::UsingFor.default_weight()), 0.5);
    assert_eq!(value(EdgeType::ModifierApplied.default_weight()), 0.5);
    assert_eq!(value(EdgeType::ErrorThrown.default_weight()), 0.4);
    assert_eq!(value(EdgeType::EventEmitted.default_weight()), 0.4);
}

#[test]
fn default_weight_matches_spec_rust_extensions() {
    assert_eq!(value(EdgeType::Derives.default_weight()), 0.6);
    assert_eq!(value(EdgeType::ReExports.default_weight()), 0.4);
    assert_eq!(value(EdgeType::MutatesField.default_weight()), 0.7);
}

#[test]
fn all_edge_types_have_positive_weight() {
    for et in ALL_EDGE_TYPES {
        assert!(
            value(et.default_weight()) > 0.0,
            "{:?} must have positive weight",
            et
        );
    }
}

#[test]
fn directionality_matches_spec() {
    let undirected = [
        EdgeType::ContainsMember,
        EdgeType::ContainsLocal,
        EdgeType::ContainsField,
        EdgeType::Implements,
        EdgeType::UsingFor,
        EdgeType::ModifierApplied,
        EdgeType::Derives,
    ];
    let directed = [
        EdgeType::Calls,
        EdgeType::References,
        EdgeType::ProxyOf,
        EdgeType::WritesState,
        EdgeType::ErrorThrown,
        EdgeType::EventEmitted,
        EdgeType::ReExports,
        EdgeType::MutatesField,
    ];
    for et in undirected {
        assert_eq!(
            et.directionality(),
            Direction::Undirected,
            "{:?} must be undirected",
            et
        );
    }
    for et in directed {
        assert_eq!(
            et.directionality(),
            Direction::Directed,
            "{:?} must be directed",
            et
        );
    }
    assert_eq!(undirected.len() + directed.len(), ALL_EDGE_TYPES.len());
}

#[test]
fn ord_uses_declaration_order() {
    assert!(EdgeType::ContainsMember < EdgeType::ContainsLocal);
    assert!(EdgeType::ContainsLocal < EdgeType::Calls);
    assert!(EdgeType::Implements < EdgeType::ProxyOf);
    assert!(EdgeType::ProxyOf < EdgeType::WritesState);
    assert!(EdgeType::ErrorThrown < EdgeType::EventEmitted);
    assert!(EdgeType::EventEmitted < EdgeType::Derives);
    assert!(EdgeType::Derives < EdgeType::ReExports);
    assert!(EdgeType::ReExports < EdgeType::MutatesField);
}

fn t(id: i32) -> topic::Topic {
    topic::new_node_topic(&id)
}

#[test]
fn add_edge_then_out_edges_returns_inserted_edge() {
    let mut g = ResolutionGraph::new();
    g.add_edge(t(1), t(2), EdgeType::Calls, weight(0.7));
    let edges = g.out_edges(t(1));
    assert_eq!(edges.len(), 1);
    assert_eq!(edges[0].dest, t(2));
    assert_eq!(edges[0].edge_type, EdgeType::Calls);
    assert_eq!(edges[0].weight, weight(0.7));
}

#[test]
fn out_edges_for_unknown_source_is_empty() {
    let g = ResolutionGraph::new();
    assert!(g.out_edges(t(99)).is_empty());
}

#[test]
fn finalize_sorts_by_dest_then_edge_type() {
    let mut g = ResolutionGraph::new();
    let s = t(1);
    g.add_edge(s, t(5), EdgeType::Calls, weight(0.7));
    g.add_edge(s, t(2), EdgeType::References, weight(0.5));
    g.add_edge(s, t(5), EdgeType::References, weight(0.5));
    g.add_edge(s, t(3), EdgeType::Calls, weight(0.7));
    g.add_edge(s, t(2), EdgeType::Calls, weight(0.7));

    g.finalize();

    let edges = g.out_edges(s);
    let pairs: Vec<(topic::Topic, EdgeType)> =
        edges.iter().map(|e| (e.dest, e.edge_type)).collect();
    assert_eq!(
        pairs,
        vec![
            (t(2), EdgeType::Calls),
            (t(2), EdgeType::References),
            (t(3), EdgeType::Calls),
            (t(5), EdgeType::Calls),
            (t(5), EdgeType::References),
        ]
    );
}

#[test]
fn finalize_is_idempotent() {
    let mut g = ResolutionGraph::new();
    g.add_edge(t(1), t(3), EdgeType::Calls, weight(0.7));
    g.add_edge(t(1), t(2), EdgeType::Calls, weight(0.7));

    g.finalize();
    let after_first: Vec<OutEdge> = g.out_edges(t(1)).to_vec();
    g.finalize();
    let after_second: Vec<OutEdge> = g.out_edges(t(1)).to_vec();
    assert_eq!(after_first, after_second);
}

#[test]
fn finalize_preserves_per_source_independence() {
    let mut g = ResolutionGraph::new();
    g.add_edge(t(1), t(20), EdgeType::Calls, weight(0.7));
    g.add_edge(t(2), t(10), EdgeType::Calls, weight(0.7));
    g.finalize();
    assert_eq!(g.out_edges(t(1)).len(), 1);
    assert_eq!(g.out_edges(t(1))[0].dest, t(20));
    assert_eq!(g.out_edges(t(2)).len(), 1);
    assert_eq!(g.out_edges(t(2))[0].dest, t(10));
}

#[test]
fn nodes_returns_sources_in_ascending_order() {
    let mut g = ResolutionGraph::new();
    g.add_edge(t(5), t(1), EdgeType::Calls, weight(0.7));
    g.add_edge(t(2), t(1), EdgeType::Calls, weight(0.7));
    g.add_edge(t(8), t(1), EdgeType::Calls, weight(0.7));
    g.finalize();

    let nodes: Vec<topic::Topic> = g.nodes();
    assert_eq!(nodes, vec![t(2), t(5), t(8)]);
}

#[test]
fn nodes_excludes_dest_only_topics() {
    let mut g = ResolutionGraph::new();
    g.add_edge(t(1), t(99), EdgeType::Calls, weight(0.7));
    g.finalize();

    let nodes: Vec<topic::Topic> = g.nodes();
    assert_eq!(nodes, vec![t(1)]);
}

#[test]
fn undirected_edges_inserted_as_two_directed_entries() {
    let mut g = ResolutionGraph::new();
    g.add_edge(t(1), t(2), EdgeType::Implements, weight(0.8));
    g.add_edge(t(2), t(1), EdgeType::Implements, weight(0.8));
    g.finalize();

    assert_eq!(g.out_edges(t(1))[0].dest, t(2));
    assert_eq!(g.out_edges(t(2))[0].dest, t(1));
    let nodes: Vec<topic::Topic> = g.nodes();
    assert_eq!(nodes, vec![t(1), t(2)]);
}

#[test]
fn deterministic_under_insertion_order_permutation() {
    let mut a = ResolutionGraph::new();
    a.add_edge(t(1), t(3), EdgeType::Calls, weight(0.7));
    a.add_edge(t(1), t(2), EdgeType::References, weight(0.5));
    a.add_edge(t(1), t(3), EdgeType::References, weight(0.5));
    a.finalize();

    let mut b = ResolutionGraph::new();
    b.add_edge(t(1), t(3), EdgeType::References, weight(0.5));
    b.add_edge(t(1), t(2), EdgeType::References, weight(0.5));
    b.add_edge(t(1), t(3), EdgeType::Calls, weight(0.7));
    b.finalize();

    assert_eq!(a, b);
    assert_eq!(
        format!("{:?}", a),
        format!("{:?}", b)
    );
}

#[test]
fn weights_decide_between_edges_of_one_type() {
    let build = |first: f32, second: f32| {
        let mut g = ResolutionGraph::new();
        g.add_edge(t(1), t(2), EdgeType::Calls, weight(first));
        g.add_edge(t(1), t(2), EdgeType::Calls, weight(second));
        g.finalize();
        g
    };
    let g = build(0.8, 0.7);
    assert_eq!(value(g.out_edges(t(1))[0].weight), 0.7);
    assert_eq!(value(g.out_edges(t(1))[1].weight), 0.8);
    assert_eq!(g, build(0.7, 0.8));
}

#[test]
fn weight_difference_breaks_equality() {
    let mut a = ResolutionGraph::new();
    a.add_edge(t(1), t(2), EdgeType::Calls, weight(0.7));
    a.finalize();

    let mut b = ResolutionGraph::new();
    b.add_edge(t(1), t(2), EdgeType::Calls, weight(0.8));
    b.finalize();

    assert_ne!(a, b);
    assert_ne!(
        format!("{:?}", a),
        format!("{:?}", b)
    );
}

#[test]
fn add_edge_negative_topic_ids_sort_below_positives() {
    let mut g = ResolutionGraph::new();
    g.add_edge(t(0), t(5), EdgeType::Calls, weight(0.7));
    g.add_edge(t(0), t(-8), EdgeType::Calls, weight(0.7));
    g.add_edge(t(0), t(-100), EdgeType::Calls, weight(0.7));
    g.finalize();

    let dests: Vec<topic::Topic> =
        g.out_edges(t(0)).iter().map(|e| e.dest).collect();
    assert_eq!(dests, vec![t(-100), t(-8), t(5)]);
}

fn empty_audit() -> AuditData {
    new_audit_data("test".to_string(), OrderedMap::new(), None)
}

fn named_topic(t: topic::Topic, name: &str) -> TopicMetadata {
    TopicMetadata::NamedTopic {
        topic: t,
        scope: Scope::Global,
        kind: NamedTopicKind::Builtin,
        visibility: NamedTopicVisibility::Public,
        name: name.to_string(),
        is_mutable: false,
        mutations: Vec::new(),
        ancestors: Vec::new(),
        descendants: Vec::new(),
        relatives: Vec::new(),
        transitive_topic: None,
        doc_references: Vec::new(),
    }
}

fn populated_audit() -> AuditData {
    let mut audit = empty_audit();
    let parent = topic::new_node_topic(&100);
    let child = topic::new_node_topic(&200);
    let other = topic::new_node_topic(&300);
    audit.topic_metadata.insert(parent, named_topic(parent, "Parent"));
    audit.topic_metadata.insert(child, named_topic(child, "Child"));
    audit.topic_metadata.insert(other, named_topic(other, "Child"));
    audit.inheritance.insert(child, vec![parent]);
    audit.name_index = TopicNameIndex::build(&audit);
    audit
}

#[test]
fn build_empty_audit_produces_empty_graph() {
    let audit = empty_audit();
    let graph = build(&audit);
    assert_eq!(graph.nodes().len(), 0);
}

#[test]
fn build_is_deterministic() {
    let audit_a = empty_audit();
    let audit_b = empty_audit();
    let graph_a = build(&audit_a);
    let graph_b = build(&audit_b);
    assert_eq!(format!("{:?}", graph_a), format!("{:?}", graph_b));
}

#[test]
fn build_against_populated_audit_does_not_panic() {
    let audit = populated_audit();
    let graph = build(&audit);
    assert_eq!(graph.nodes().len(), 0);
}

#[test]
fn build_against_populated_audit_is_deterministic() {
    let audit = populated_audit();
    let g1 = build(&audit);
    let g2 = build(&audit);
    assert_eq!(g1, g2);
    assert_eq!(
        format!("{:?}", g1),
        format!("{:?}", g2)
    );
}

struct ScrambledMockExtractor;

impl Extractor for ScrambledMockExtractor {
    fn applies_to(&self, _audit_data: &AuditData) -> bool {
        true
    }

    fn extract(
        &self,
        _audit_data: &AuditData,
        graph: &mut ResolutionGraph,
    ) {
        let s = topic::new_node_topic(&1);
        graph.add_edge(s, topic::new_node_topic(&5), EdgeType::References, weight(0.5));
        graph.add_edge(s, topic::new_node_topic(&5), EdgeType::Calls, weight(0.7));
        graph.add_edge(s, topic::new_node_topic(&2), EdgeType::Calls, weight(0.7));
    }
}

struct InertExtractor;

impl Extractor for InertExtractor {
    fn applies_to(&self, _audit_data: &AuditData) -> bool {
        false
    }

    fn extract(
        &self,
        _audit_data: &AuditData,
        _graph: &mut ResolutionGraph,
    ) {
        panic!("InertExtractor.extract must not be called");
    }
}

fn run_extractors(
    audit: &AuditData,
    extractors: Vec<Box<dyn Extractor>>,
) -> ResolutionGraph {
    let mut graph = ResolutionGraph::new();
    for e in &extractors {
        if e.applies_to(audit) {
            e.extract(audit, &mut graph);
        }
    }
    graph.finalize();
    graph
}

#[test]
fn extractor_pipeline_finalizes_after_extraction() {
    let audit = empty_audit();
    let g = run_extractors(
        &audit,
        vec![Box::new(ScrambledMockExtractor) as Box<dyn Extractor>],
    );
    let s = topic::new_node_topic(&1);
    let pairs: Vec<(topic::Topic, EdgeType)> =
        g.out_edges(s).iter().map(|e| (e.dest, e.edge_type)).collect();
    assert_eq!(
        pairs,
        vec![
            (topic::new_node_topic(&2), EdgeType::Calls),
            (topic::new_node_topic(&5), EdgeType::Calls),
            (topic::new_node_topic(&5), EdgeType::References),
        ]
    );
}

#[test]
fn extractor_pipeline_skips_extractors_that_do_not_apply() {
    let audit = empty_audit();
    let g = run_extractors(
        &audit,
        vec![Box::new(InertExtractor) as Box<dyn Extractor>],
    );
    assert_eq!(g.nodes().len(), 0);
}

struct AddsSourceOne;

struct AddsSourceTwo;

impl Extractor for AddsSourceOne {
    fn applies_to(&self, _: &AuditData) -> bool {
        true
    }
    fn extract(&self, _: &AuditData, g: &mut ResolutionGraph) {
        g.add_edge(
            topic::new_node_topic(&1),
            topic::new_node_topic(&10),
            EdgeType::Calls, weight(0.7));
    }
}

impl Extractor for AddsSourceTwo {
    fn applies_to(&self, _: &AuditData) -> bool {
        true
    }
    fn extract(&self, _: &AuditData, g: &mut ResolutionGraph) {
        g.add_edge(
            topic::new_node_topic(&2),
            topic::new_node_topic(&20),
            EdgeType::Calls, weight(0.7));
    }
}

#[test]
fn extractor_pipeline_runs_multiple_extractors_in_order() {
    let audit = empty_audit();
    let g = run_extractors(
        &audit,
        vec![
            Box::new(AddsSourceOne) as Box<dyn Extractor>,
            Box::new(AddsSourceTwo) as Box<dyn Extractor>,
        ],
    );
    let nodes: Vec<topic::Topic> = g.nodes();
    assert_eq!(
        nodes,
        vec![topic::new_node_topic(&1), topic::new_node_topic(&2)]
    );
}

#[test]
fn populated_audit_exposes_phase0_data_to_extractors() {
    let audit = populated_audit();
    let parent = topic::new_node_topic(&100);
    let child = topic::new_node_topic(&200);
    let other = topic::new_node_topic(&300);

    assert_eq!(audit.inheritance.get(&child), Some(&vec![parent]));
    assert_eq!(
        audit.name_index.candidates_by_simple_name("Child"),
        &[child, other],
    );
}

#[test]
fn audit_data_carries_resolution_graph_after_build() {
    let mut audit = populated_audit();
    audit.resolution_graph = Some(build(&audit));
    assert!(audit.resolution_graph.is_some());
}

#[test]
fn resolution_graph_field_round_trips_through_audit_data() {
    let mut audit = populated_audit();
    let built: ResolutionGraph = build(&audit);
    audit.resolution_graph = Some(built.clone());
    assert_eq!(audit.resolution_graph.as_ref(), Some(&built));
}

#[test]
fn resolution_ref_id_doc_variant_orders_before_dev_doc_variant() {
    let doc = ResolutionRefId::DocumentationNode(999);
    let dev = ResolutionRefId::DevDocComment {
        comment_topic: topic::new_comment_topic(-1),
        occurrence: 0,
    };
    assert!(doc < dev);
}
