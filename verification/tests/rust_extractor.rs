use o11a_core::domain::topic;
use o11a_core::domain::{new_audit_data, AuditData, NamedTopicKind, NamedTopicVisibility};
use o11a_core::domain::{ProjectPath, Scope, TopicMetadata, AST};
use o11a_core::ordered::OrderedMap;
use o11a_core::resolution_graph::{build, EdgeType, Extractor, ResolutionGraph, RustExtractor};
use o11a_core::rust::ast::RustAST;

fn t(id: i32) -> topic::Topic {
    topic::new_node_topic(&id)
}

fn empty_audit() -> AuditData {
    new_audit_data("test".to_string(), OrderedMap::new(), None)
}

fn project_path(name: &str) -> ProjectPath {
    ProjectPath {
        file_path: name.to_string(),
    }
}

fn make_rust_ast(file: &str) -> RustAST {
    RustAST {
        node_id: 0,
        nodes: Vec::new(),
        project_path: project_path(file),
    }
}

fn insert_named(
    audit: &mut AuditData,
    id: i32,
    kind: NamedTopicKind,
    scope: Scope,
    name: &str,
) -> topic::Topic {
    let topic = t(id);
    audit.topic_metadata.insert(
        topic,
        TopicMetadata::NamedTopic {
            topic,
            scope,
            kind,
            name: name.to_string(),
            visibility: NamedTopicVisibility::Public,
            is_mutable: false,
            mutations: Vec::new(),
            ancestors: Vec::new(),
            descendants: Vec::new(),
            relatives: Vec::new(),
            transitive_topic: None,
            doc_references: Vec::new(),
        },
    );
    topic
}

#[test]
fn applies_to_returns_false_when_no_rust_ast_present() {
    let audit = empty_audit();
    assert!(!RustExtractor.applies_to(&audit));
}

#[test]
fn applies_to_returns_true_when_a_rust_ast_is_present() {
    let mut audit = empty_audit();
    audit
        .asts
        .insert(project_path("a.rs"), AST::Rust(make_rust_ast("a.rs")));
    assert!(RustExtractor.applies_to(&audit));
}

#[test]
fn applies_to_ignores_solidity_only_audits() {
    let mut audit = empty_audit();
    audit.asts.insert(
        project_path("a.sol"),
        AST::Solidity(o11a_core::solidity::ast::SolidityAST {
            node_id: 0,
            nodes: Vec::new(),
            project_path: project_path("a.sol"),
        }),
    );
    assert!(!RustExtractor.applies_to(&audit));
}

#[test]
fn extract_against_empty_rust_ast_emits_no_edges() {
    let mut audit = empty_audit();
    audit
        .asts
        .insert(project_path("a.rs"), AST::Rust(make_rust_ast("a.rs")));

    let mut graph = ResolutionGraph::new();
    RustExtractor.extract(&audit, &mut graph);
    graph.finalize();

    let edge_count: usize =
        graph.nodes().into_iter().map(|n| graph.out_edges(n).len()).sum();
    assert_eq!(edge_count, 0);
}

#[test]
fn extract_skips_topics_whose_container_is_a_solidity_file() {
    let mut audit = empty_audit();
    audit
        .asts
        .insert(project_path("a.rs"), AST::Rust(make_rust_ast("a.rs")));
    audit.asts.insert(
        project_path("a.sol"),
        AST::Solidity(o11a_core::solidity::ast::SolidityAST {
            node_id: 0,
            nodes: Vec::new(),
            project_path: project_path("a.sol"),
        }),
    );

    let parent = insert_named(
        &mut audit,
        1,
        NamedTopicKind::Builtin,
        Scope::Component {
            container: project_path("a.sol"),
            component: t(1),
        },
        "Parent",
    );
    let child = insert_named(
        &mut audit,
        2,
        NamedTopicKind::Builtin,
        Scope::Component {
            container: project_path("a.sol"),
            component: t(2),
        },
        "Child",
    );
    audit.inheritance.insert(child, vec![parent]);

    let mut graph = ResolutionGraph::new();
    RustExtractor.extract(&audit, &mut graph);
    graph.finalize();

    let edge_count: usize =
        graph.nodes().into_iter().map(|n| graph.out_edges(n).len()).sum();
    assert_eq!(
        edge_count, 0,
        "Rust extractor must not emit edges for Solidity-file topics",
    );
}

#[test]
fn extract_emits_implements_for_topics_in_rust_files() {
    let mut audit = empty_audit();
    audit
        .asts
        .insert(project_path("a.rs"), AST::Rust(make_rust_ast("a.rs")));

    let trait_t = insert_named(
        &mut audit,
        1,
        NamedTopicKind::Builtin,
        Scope::Component {
            container: project_path("a.rs"),
            component: t(1),
        },
        "Trait",
    );
    let impl_t = insert_named(
        &mut audit,
        2,
        NamedTopicKind::Builtin,
        Scope::Component {
            container: project_path("a.rs"),
            component: t(2),
        },
        "Impl",
    );
    audit.inheritance.insert(impl_t, vec![trait_t]);

    let mut graph = ResolutionGraph::new();
    RustExtractor.extract(&audit, &mut graph);
    graph.finalize();

    assert!(
        graph
            .out_edges(impl_t)
            .iter()
            .any(|e| e.dest == trait_t && e.edge_type == EdgeType::Implements)
    );
    assert!(
        graph
            .out_edges(trait_t)
            .iter()
            .any(|e| e.dest == impl_t && e.edge_type == EdgeType::Implements)
    );
}

#[test]
fn extraction_is_deterministic() {
    let mut audit = empty_audit();
    audit
        .asts
        .insert(project_path("a.rs"), AST::Rust(make_rust_ast("a.rs")));
    let trait_t = insert_named(
        &mut audit,
        1,
        NamedTopicKind::Builtin,
        Scope::Component {
            container: project_path("a.rs"),
            component: t(1),
        },
        "Trait",
    );
    let impl_t = insert_named(
        &mut audit,
        2,
        NamedTopicKind::Builtin,
        Scope::Component {
            container: project_path("a.rs"),
            component: t(2),
        },
        "Impl",
    );
    audit.inheritance.insert(impl_t, vec![trait_t]);

    let mut g1 = ResolutionGraph::new();
    RustExtractor.extract(&audit, &mut g1);
    g1.finalize();

    let mut g2 = ResolutionGraph::new();
    RustExtractor.extract(&audit, &mut g2);
    g2.finalize();

    assert_eq!(g1, g2);
    assert_eq!(
        format!("{:?}", g1),
        format!("{:?}", g2)
    );
}

#[test]
fn build_pipeline_includes_rust_extractor() {
    let mut audit = empty_audit();
    audit
        .asts
        .insert(project_path("a.rs"), AST::Rust(make_rust_ast("a.rs")));
    let trait_t = insert_named(
        &mut audit,
        1,
        NamedTopicKind::Builtin,
        Scope::Component {
            container: project_path("a.rs"),
            component: t(1),
        },
        "Trait",
    );
    let impl_t = insert_named(
        &mut audit,
        2,
        NamedTopicKind::Builtin,
        Scope::Component {
            container: project_path("a.rs"),
            component: t(2),
        },
        "Impl",
    );
    audit.inheritance.insert(impl_t, vec![trait_t]);

    let graph = build(&audit);
    let edges: usize = graph.nodes().into_iter().map(|n| graph.out_edges(n).len()).sum();
    assert!(edges > 0, "RustExtractor must run via build()");
}
