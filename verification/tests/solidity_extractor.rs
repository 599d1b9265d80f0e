use o11a_core::domain::topic;
use o11a_core::domain::{new_audit_data, AuditData, CallInfo, ContractKind, FunctionKind};
use o11a_core::domain::{FunctionModProperties, NamedTopicKind, NamedTopicVisibility};
use o11a_core::domain::{ProjectPath, Reference, RevertConstraintKind, RevertInfo, Scope};
use o11a_core::domain::{SourceContext, TopicMetadata, VariableMutability, AST};
use o11a_core::ordered::OrderedMap;
use o11a_core::resolution_graph::{build, EdgeType, Extractor, ResolutionGraph};
use o11a_core::resolution_graph::SolidityExtractor;
use o11a_core::solidity::ast::{ASTNode, SolidityAST, SourceLocation};
use o11a_core::solidity::vocabulary::{FunctionStateMutability, FunctionVisibility};
use std::collections::BTreeSet;

fn t(id: i32) -> topic::Topic {
    topic::new_node_topic(&id)
}

fn empty_audit() -> AuditData {
    new_audit_data("test".to_string(), OrderedMap::new(), None)
}

fn project_path(name: &str) -> ProjectPath {
    ProjectPath {
        file_path: name.to_string(),
    }
}

fn loc() -> SourceLocation {
    SourceLocation {
        start: None,
        length: None,
        index: None,
    }
}

fn insert_named(
    audit: &mut AuditData,
    id: i32,
    kind: NamedTopicKind,
    scope: Scope,
    name: &str,
    transitive_topic: Option<topic::Topic>,
) -> topic::Topic {
    let topic = t(id);
    audit.topic_metadata.insert(
        topic,
        TopicMetadata::NamedTopic {
            topic,
            scope,
            kind,
            name: name.to_string(),
            visibility: NamedTopicVisibility::Public,
            is_mutable: false,
            mutations: Vec::new(),
            ancestors: Vec::new(),
            descendants: Vec::new(),
            relatives: Vec::new(),
            transitive_topic,
            doc_references: Vec::new(),
        },
    );
    topic
}

fn insert_unnamed(
    audit: &mut AuditData,
    id: i32,
    scope: Scope,
    kind: o11a_core::domain::UnnamedTopicKind,
) -> topic::Topic {
    let topic = t(id);
    audit.topic_metadata.insert(
        topic,
        TopicMetadata::UnnamedTopic {
            topic,
            scope,
            kind,
            transitive_topic: None,
        },
    );
    topic
}

fn make_identifier(node_id: i32, name: &str, ref_decl: i32) -> ASTNode {
    ASTNode::Identifier {
        node_id,
        src_location: loc(),
        name: name.to_string(),
        overloaded_declarations: Vec::new(),
        referenced_declaration: ref_decl,
    }
}

fn make_user_defined_type_name(node_id: i32, ref_decl: i32) -> ASTNode {
    ASTNode::UserDefinedTypeName {
        node_id,
        src_location: loc(),
        path_node: Box::new(make_identifier(node_id + 1, "Path", ref_decl)),
        referenced_declaration: ref_decl,
    }
}

fn make_solidity_ast(file: &str, nodes: Vec<ASTNode>) -> SolidityAST {
    SolidityAST {
        node_id: 0,
        nodes,
        project_path: project_path(file),
    }
}

fn make_contract_def(
    contract_id: i32,
    name: &str,
    contract_kind: ContractKind,
    directives: Vec<ASTNode>,
    body: Vec<ASTNode>,
) -> ASTNode {
    let signature = ASTNode::ContractSignature {
        node_id: contract_id + 100_000,
        src_location: loc(),
        documentation: None,
        name: name.to_string(),
        name_location: loc(),
        declaration_id: contract_id,
        contract_kind,
        abstract_: false,
        base_contracts: Vec::new(),
        directives,
    };
    ASTNode::ContractDefinition {
        node_id: contract_id,
        src_location: loc(),
        signature: Box::new(signature),
        nodes: body,
    }
}

fn make_function_def(
    function_id: i32,
    name: &str,
    modifier_invocations: Vec<ASTNode>,
) -> ASTNode {
    let modifiers = ASTNode::ModifierList {
        node_id: function_id + 200_000,
        src_location: loc(),
        modifiers: modifier_invocations,
    };
    let parameters = ASTNode::ParameterList {
        node_id: function_id + 300_000,
        src_location: loc(),
        parameters: Vec::new(),
        is_return_parameters: false,
    };
    let return_parameters = ASTNode::ParameterList {
        node_id: function_id + 400_000,
        src_location: loc(),
        parameters: Vec::new(),
        is_return_parameters: true,
    };
    let signature = ASTNode::FunctionSignature {
        node_id: function_id + 500_000,
        src_location: loc(),
        documentation: None,
        kind: FunctionKind::Function,
        modifiers: Box::new(modifiers),
        name: name.to_string(),
        name_location: loc(),
        declaration_id: function_id,
        parameters: Box::new(parameters),
        return_parameters: Box::new(return_parameters),
        scope: 0,
        state_mutability: FunctionStateMutability::NonPayable,
        virtual_: false,
        visibility: FunctionVisibility::Public,
        implementation_declaration: None,
    };
    ASTNode::FunctionDefinition {
        node_id: function_id,
        src_location: loc(),
        signature: Box::new(signature),
        implemented: true,
        body: None,
    }
}

fn make_modifier_invocation(node_id: i32, modifier_id: i32) -> ASTNode {
    ASTNode::ModifierInvocation {
        node_id,
        src_location: loc(),
        modifier_name: Box::new(make_identifier(
            node_id + 10_000,
            "Mod",
            modifier_id,
        )),
        arguments: None,
    }
}

fn make_using_for(
    node_id: i32,
    library_id: i32,
    type_id: i32,
) -> ASTNode {
    ASTNode::UsingForDirective {
        node_id,
        src_location: loc(),
        global: false,
        library_name: Some(Box::new(make_identifier(
            node_id + 1000,
            "Lib",
            library_id,
        ))),
        type_node: Some(Box::new(make_user_defined_type_name(
            node_id + 2000,
            type_id,
        ))),
    }
}

fn insert_contract(audit: &mut AuditData, id: i32, name: &str) -> topic::Topic {
    insert_named(
        audit,
        id,
        NamedTopicKind::Contract(ContractKind::Contract),
        Scope::Component {
            container: project_path("test.sol"),
            component: t(id),
        },
        name,
        None,
    )
}

fn insert_function(
    audit: &mut AuditData,
    id: i32,
    name: &str,
    contract_topic: topic::Topic,
) -> topic::Topic {
    insert_named(
        audit,
        id,
        NamedTopicKind::Function(FunctionKind::Function),
        Scope::Member {
            container: project_path("test.sol"),
            component: contract_topic,
            member: t(id),
            signature_container: None,
        },
        name,
        None,
    )
}

#[test]
fn applies_to_returns_false_for_audit_with_no_solidity_ast() {
    let audit = empty_audit();
    assert!(!SolidityExtractor.applies_to(&audit));
}

#[test]
fn applies_to_returns_true_when_any_solidity_ast_present() {
    let mut audit = empty_audit();
    audit.asts.insert(
        project_path("a.sol"),
        AST::Solidity(make_solidity_ast("a.sol", Vec::new())),
    );
    assert!(SolidityExtractor.applies_to(&audit));
}

#[test]
fn member_in_contract_emits_contains_member_undirected() {
    let mut audit = empty_audit();
    let contract = insert_contract(&mut audit, 1, "Foo");
    let _state_var = insert_named(
        &mut audit,
        2,
        NamedTopicKind::StateVariable(VariableMutability::Mutable),
        Scope::Member {
            container: project_path("test.sol"),
            component: contract,
            member: t(2),
            signature_container: None,
        },
        "x",
        None,
    );

    let mut graph = ResolutionGraph::new();
    SolidityExtractor.extract(&audit, &mut graph);
    graph.finalize();

    assert!(
        graph
            .out_edges(t(2))
            .iter()
            .any(|e| e.dest == contract && e.edge_type == EdgeType::ContainsMember)
    );
    assert!(
        graph
            .out_edges(contract)
            .iter()
            .any(|e| e.dest == t(2) && e.edge_type == EdgeType::ContainsMember)
    );
}

#[test]
fn field_in_struct_emits_contains_field_undirected() {
    let mut audit = empty_audit();
    let contract = insert_contract(&mut audit, 1, "Foo");
    let struct_topic = insert_named(
        &mut audit,
        2,
        NamedTopicKind::Struct,
        Scope::Member {
            container: project_path("test.sol"),
            component: contract,
            member: t(2),
            signature_container: None,
        },
        "S",
        None,
    );
    let _field = insert_named(
        &mut audit,
        3,
        NamedTopicKind::LocalVariable,
        Scope::Member {
            container: project_path("test.sol"),
            component: struct_topic,
            member: t(3),
            signature_container: None,
        },
        "field",
        None,
    );

    let mut graph = ResolutionGraph::new();
    SolidityExtractor.extract(&audit, &mut graph);
    graph.finalize();

    assert!(
        graph
            .out_edges(t(3))
            .iter()
            .any(|e| e.dest == struct_topic && e.edge_type == EdgeType::ContainsField)
    );
    assert!(
        graph
            .out_edges(struct_topic)
            .iter()
            .any(|e| e.dest == t(3) && e.edge_type == EdgeType::ContainsField)
    );
}

#[test]
fn contains_member_uses_default_weight() {
    let mut audit = empty_audit();
    let contract = insert_contract(&mut audit, 1, "Foo");
    let _state_var = insert_named(
        &mut audit,
        2,
        NamedTopicKind::StateVariable(VariableMutability::Mutable),
        Scope::Member {
            container: project_path("test.sol"),
            component: contract,
            member: t(2),
            signature_container: None,
        },
        "x",
        None,
    );

    let mut graph = ResolutionGraph::new();
    SolidityExtractor.extract(&audit, &mut graph);
    graph.finalize();

    let edge = graph
        .out_edges(t(2))
        .iter()
        .find(|e| e.dest == contract && e.edge_type == EdgeType::ContainsMember)
        .unwrap();
    assert_eq!(edge.weight, EdgeType::ContainsMember.default_weight());
}

#[test]
fn contract_self_member_does_not_self_loop() {
    let mut audit = empty_audit();
    let contract = insert_contract(&mut audit, 1, "Foo");

    let mut graph = ResolutionGraph::new();
    SolidityExtractor.extract(&audit, &mut graph);
    graph.finalize();

    assert!(graph.out_edges(contract).iter().all(|e| e.dest != contract));
}

#[test]
fn parameter_with_signature_container_emits_contains_local_to_member() {
    let mut audit = empty_audit();
    let contract = insert_contract(&mut audit, 1, "Foo");
    let function = insert_function(&mut audit, 2, "f", contract);
    let _param = insert_named(
        &mut audit,
        3,
        NamedTopicKind::LocalVariable,
        Scope::Member {
            container: project_path("test.sol"),
            component: contract,
            member: function,
            signature_container: Some(t(99)),
        },
        "x",
        None,
    );

    let mut graph = ResolutionGraph::new();
    SolidityExtractor.extract(&audit, &mut graph);
    graph.finalize();

    assert!(
        graph
            .out_edges(t(3))
            .iter()
            .any(|e| e.dest == function && e.edge_type == EdgeType::ContainsLocal)
    );
    assert!(
        graph
            .out_edges(function)
            .iter()
            .any(|e| e.dest == t(3) && e.edge_type == EdgeType::ContainsLocal)
    );
}

#[test]
fn member_without_signature_container_does_not_emit_contains_local() {
    let mut audit = empty_audit();
    let contract = insert_contract(&mut audit, 1, "Foo");
    let _state_var = insert_named(
        &mut audit,
        2,
        NamedTopicKind::StateVariable(VariableMutability::Mutable),
        Scope::Member {
            container: project_path("test.sol"),
            component: contract,
            member: t(2),
            signature_container: None,
        },
        "x",
        None,
    );

    let mut graph = ResolutionGraph::new();
    SolidityExtractor.extract(&audit, &mut graph);
    graph.finalize();

    assert!(
        graph
            .out_edges(t(2))
            .iter()
            .all(|e| e.edge_type != EdgeType::ContainsLocal)
    );
}

#[test]
fn containing_block_local_to_unnamed_block_is_dropped() {
    let mut audit = empty_audit();
    let contract = insert_contract(&mut audit, 1, "Foo");
    let function = insert_function(&mut audit, 2, "f", contract);
    let block = insert_unnamed(
        &mut audit,
        3,
        Scope::Member {
            container: project_path("test.sol"),
            component: contract,
            member: function,
            signature_container: None,
        },
        o11a_core::domain::UnnamedTopicKind::SemanticBlock,
    );
    let _local = insert_named(
        &mut audit,
        4,
        NamedTopicKind::LocalVariable,
        Scope::ContainingBlock {
            container: project_path("test.sol"),
            component: contract,
            member: function,
            containing_blocks: vec![o11a_core::domain::ContainingBlockLayer {
                block,
                annotation: None,
            }],
        },
        "y",
        None,
    );

    let mut graph = ResolutionGraph::new();
    SolidityExtractor.extract(&audit, &mut graph);
    graph.finalize();

    assert!(graph.out_edges(t(4)).iter().all(|e| e.dest != block));
}

#[test]
fn inheritance_emits_implements_undirected_for_each_base() {
    let mut audit = empty_audit();
    let child = insert_contract(&mut audit, 1, "Child");
    let base_a = insert_contract(&mut audit, 2, "BaseA");
    let base_b = insert_contract(&mut audit, 3, "BaseB");
    audit.inheritance.insert(child, vec![base_a, base_b]);

    let mut graph = ResolutionGraph::new();
    SolidityExtractor.extract(&audit, &mut graph);
    graph.finalize();

    for base in [base_a, base_b] {
        assert!(
            graph
                .out_edges(child)
                .iter()
                .any(|e| e.dest == base && e.edge_type == EdgeType::Implements)
        );
        assert!(
            graph
                .out_edges(base)
                .iter()
                .any(|e| e.dest == child && e.edge_type == EdgeType::Implements)
        );
    }
}

#[test]
fn transitive_topic_emits_directed_proxy_of_edge() {
    let mut audit = empty_audit();
    let interface = insert_named(
        &mut audit,
        1,
        NamedTopicKind::Function(FunctionKind::Function),
        Scope::Member {
            container: project_path("test.sol"),
            component: t(99),
            member: t(1),
            signature_container: None,
        },
        "iface_fn",
        Some(t(2)),
    );
    let _impl_topic = insert_named(
        &mut audit,
        2,
        NamedTopicKind::Function(FunctionKind::Function),
        Scope::Member {
            container: project_path("test.sol"),
            component: t(98),
            member: t(2),
            signature_container: None,
        },
        "impl_fn",
        None,
    );

    let mut graph = ResolutionGraph::new();
    SolidityExtractor.extract(&audit, &mut graph);
    graph.finalize();

    assert!(
        graph
            .out_edges(interface)
            .iter()
            .any(|e| e.dest == t(2) && e.edge_type == EdgeType::ProxyOf)
    );
    assert!(
        graph
            .out_edges(t(2))
            .iter()
            .all(|e| !(e.dest == interface && e.edge_type == EdgeType::ProxyOf))
    );
}

fn insert_function_props(
    audit: &mut AuditData,
    function_topic: topic::Topic,
    calls: Vec<topic::Topic>,
    mutations: Vec<topic::Topic>,
    events: Vec<topic::Topic>,
    reverts: Vec<RevertInfo>,
) {
    audit.function_properties.insert(
        function_topic,
        FunctionModProperties::FunctionProperties {
            reverts,
            effective_reverts: Vec::new(),
            calls: calls
                .into_iter()
                .map(|callee| CallInfo {
                    site: t(0),
                    callee,
                    in_try_block: false,
                })
                .collect(),
            mutations,
            effective_mutations: Vec::new(),
            reads: Vec::new(),
            effective_reads: Vec::new(),
            events_emitted: events,
            effective_events_emitted: Vec::new(),
        },
    );
}

#[test]
fn function_calls_emit_directed_calls_edges() {
    let mut audit = empty_audit();
    let contract = insert_contract(&mut audit, 1, "C");
    let f = insert_function(&mut audit, 2, "f", contract);
    let g = insert_function(&mut audit, 3, "g", contract);
    insert_function_props(&mut audit, f, vec![g], vec![], vec![], vec![]);

    let mut graph = ResolutionGraph::new();
    SolidityExtractor.extract(&audit, &mut graph);
    graph.finalize();

    assert!(
        graph
            .out_edges(f)
            .iter()
            .any(|e| e.dest == g && e.edge_type == EdgeType::Calls)
    );
    assert!(
        graph
            .out_edges(g)
            .iter()
            .all(|e| !(e.dest == f && e.edge_type == EdgeType::Calls))
    );
}

#[test]
fn duplicate_calls_dedupe_within_one_source() {
    let mut audit = empty_audit();
    let contract = insert_contract(&mut audit, 1, "C");
    let f = insert_function(&mut audit, 2, "f", contract);
    let g = insert_function(&mut audit, 3, "g", contract);
    insert_function_props(
        &mut audit,
        f,
        vec![g, g, g],
        vec![],
        vec![],
        vec![],
    );

    let mut graph = ResolutionGraph::new();
    SolidityExtractor.extract(&audit, &mut graph);
    graph.finalize();

    let calls_to_g = graph
        .out_edges(f)
        .iter()
        .filter(|e| e.dest == g && e.edge_type == EdgeType::Calls)
        .count();
    assert_eq!(calls_to_g, 1);
}

#[test]
fn mutations_emit_directed_writes_state_edges() {
    let mut audit = empty_audit();
    let contract = insert_contract(&mut audit, 1, "C");
    let f = insert_function(&mut audit, 2, "f", contract);
    let state_var = insert_named(
        &mut audit,
        3,
        NamedTopicKind::StateVariable(VariableMutability::Mutable),
        Scope::Member {
            container: project_path("test.sol"),
            component: contract,
            member: t(3),
            signature_container: None,
        },
        "x",
        None,
    );
    insert_function_props(
        &mut audit,
        f,
        vec![],
        vec![state_var],
        vec![],
        vec![],
    );

    let mut graph = ResolutionGraph::new();
    SolidityExtractor.extract(&audit, &mut graph);
    graph.finalize();

    assert!(
        graph
            .out_edges(f)
            .iter()
            .any(|e| e.dest == state_var && e.edge_type == EdgeType::WritesState)
    );
}

#[test]
fn events_emit_directed_event_emitted_edges() {
    let mut audit = empty_audit();
    let contract = insert_contract(&mut audit, 1, "C");
    let f = insert_function(&mut audit, 2, "f", contract);
    let event = insert_named(
        &mut audit,
        3,
        NamedTopicKind::Event,
        Scope::Member {
            container: project_path("test.sol"),
            component: contract,
            member: t(3),
            signature_container: None,
        },
        "Pinged",
        None,
    );
    insert_function_props(&mut audit, f, vec![], vec![], vec![event], vec![]);

    let mut graph = ResolutionGraph::new();
    SolidityExtractor.extract(&audit, &mut graph);
    graph.finalize();

    assert!(
        graph
            .out_edges(f)
            .iter()
            .any(|e| e.dest == event && e.edge_type == EdgeType::EventEmitted)
    );
}

#[test]
fn revert_with_error_topic_emits_error_thrown_edge() {
    let mut audit = empty_audit();
    let contract = insert_contract(&mut audit, 1, "C");
    let f = insert_function(&mut audit, 2, "f", contract);
    let err = insert_named(
        &mut audit,
        3,
        NamedTopicKind::Error,
        Scope::Member {
            container: project_path("test.sol"),
            component: contract,
            member: t(3),
            signature_container: None,
        },
        "BadStuff",
        None,
    );
    insert_function_props(
        &mut audit,
        f,
        vec![],
        vec![],
        vec![],
        vec![RevertInfo {
            topic: t(99),
            kind: RevertConstraintKind::Revert,
            error_topic: Some(err),
        }],
    );

    let mut graph = ResolutionGraph::new();
    SolidityExtractor.extract(&audit, &mut graph);
    graph.finalize();

    assert!(
        graph
            .out_edges(f)
            .iter()
            .any(|e| e.dest == err && e.edge_type == EdgeType::ErrorThrown)
    );
}

#[test]
fn revert_without_error_topic_emits_no_error_thrown_edge() {
    let mut audit = empty_audit();
    let contract = insert_contract(&mut audit, 1, "C");
    let f = insert_function(&mut audit, 2, "f", contract);
    insert_function_props(
        &mut audit,
        f,
        vec![],
        vec![],
        vec![],
        vec![RevertInfo {
            topic: t(99),
            kind: RevertConstraintKind::Require,
            error_topic: None,
        }],
    );

    let mut graph = ResolutionGraph::new();
    SolidityExtractor.extract(&audit, &mut graph);
    graph.finalize();

    assert!(
        graph
            .out_edges(f)
            .iter()
            .all(|e| e.edge_type != EdgeType::ErrorThrown)
    );
}

#[test]
fn references_emits_only_for_uncovered_destinations() {
    let mut audit = empty_audit();
    let contract = insert_contract(&mut audit, 1, "C");
    let f = insert_function(&mut audit, 2, "f", contract);
    let g = insert_function(&mut audit, 3, "g", contract);
    let plain_ref = insert_function(&mut audit, 4, "h", contract);
    insert_function_props(&mut audit, f, vec![g], vec![], vec![], vec![]);

    audit.topic_context.insert(
        f,
        vec![SourceContext::new_with_scope_references(
            contract,
            Some(0),
            true,
            vec![
                Reference::project_reference(g, Some(0)),
                Reference::project_reference(plain_ref, Some(1)),
            ],
        )],
    );

    let mut graph = ResolutionGraph::new();
    SolidityExtractor.extract(&audit, &mut graph);
    graph.finalize();

    let f_edges = graph.out_edges(f);
    assert!(
        f_edges
            .iter()
            .all(|e| !(e.dest == g && e.edge_type == EdgeType::References))
    );
    assert!(
        f_edges
            .iter()
            .any(|e| e.dest == plain_ref && e.edge_type == EdgeType::References)
    );
}

#[test]
fn references_dedupe_repeated_targets() {
    let mut audit = empty_audit();
    let contract = insert_contract(&mut audit, 1, "C");
    let f = insert_function(&mut audit, 2, "f", contract);
    let referent = insert_function(&mut audit, 3, "g", contract);
    insert_function_props(&mut audit, f, vec![], vec![], vec![], vec![]);

    audit.topic_context.insert(
        f,
        vec![
            SourceContext::new_with_scope_references(
                contract,
                Some(0),
                true,
                vec![Reference::project_reference(referent, Some(0))],
            ),
            SourceContext::new_with_scope_references(
                contract,
                Some(1),
                true,
                vec![Reference::project_reference(referent, Some(1))],
            ),
        ],
    );

    let mut graph = ResolutionGraph::new();
    SolidityExtractor.extract(&audit, &mut graph);
    graph.finalize();

    let count = graph
        .out_edges(f)
        .iter()
        .filter(|e| e.dest == referent && e.edge_type == EdgeType::References)
        .count();
    assert_eq!(count, 1);
}

#[test]
fn using_for_in_contract_signature_emits_undirected_edge() {
    let mut audit = empty_audit();
    let library = insert_named(
        &mut audit,
        10,
        NamedTopicKind::Contract(ContractKind::Library),
        Scope::Component {
            container: project_path("test.sol"),
            component: t(10),
        },
        "Math",
        None,
    );
    let value_type = insert_named(
        &mut audit,
        20,
        NamedTopicKind::Struct,
        Scope::Component {
            container: project_path("test.sol"),
            component: t(20),
        },
        "MyType",
        None,
    );
    let _contract = insert_contract(&mut audit, 1, "C");
    let using_for = make_using_for(900, library.numeric_id(), value_type.numeric_id());
    let contract = make_contract_def(
        1,
        "C",
        ContractKind::Contract,
        vec![using_for],
        Vec::new(),
    );
    audit.asts.insert(
        project_path("test.sol"),
        AST::Solidity(make_solidity_ast("test.sol", vec![contract])),
    );

    let mut graph = ResolutionGraph::new();
    SolidityExtractor.extract(&audit, &mut graph);
    graph.finalize();

    assert!(
        graph
            .out_edges(value_type)
            .iter()
            .any(|e| e.dest == library && e.edge_type == EdgeType::UsingFor)
    );
    assert!(
        graph
            .out_edges(library)
            .iter()
            .any(|e| e.dest == value_type && e.edge_type == EdgeType::UsingFor)
    );
}

#[test]
fn using_for_at_source_unit_level_is_picked_up() {
    let mut audit = empty_audit();
    let library = insert_named(
        &mut audit,
        10,
        NamedTopicKind::Contract(ContractKind::Library),
        Scope::Component {
            container: project_path("test.sol"),
            component: t(10),
        },
        "Math",
        None,
    );
    let value_type = insert_named(
        &mut audit,
        20,
        NamedTopicKind::Struct,
        Scope::Component {
            container: project_path("test.sol"),
            component: t(20),
        },
        "MyType",
        None,
    );

    let source_unit = ASTNode::SourceUnit {
        node_id: 50,
        src_location: loc(),
        nodes: vec![make_using_for(
            900,
            library.numeric_id(),
            value_type.numeric_id(),
        )],
    };
    audit.asts.insert(
        project_path("test.sol"),
        AST::Solidity(make_solidity_ast("test.sol", vec![source_unit])),
    );

    let mut graph = ResolutionGraph::new();
    SolidityExtractor.extract(&audit, &mut graph);
    graph.finalize();

    assert!(
        graph
            .out_edges(value_type)
            .iter()
            .any(|e| e.dest == library && e.edge_type == EdgeType::UsingFor)
    );
}

#[test]
fn modifier_invocation_emits_modifier_applied_undirected_edge() {
    let mut audit = empty_audit();
    let contract = insert_contract(&mut audit, 1, "C");
    let modifier = insert_named(
        &mut audit,
        5,
        NamedTopicKind::Modifier,
        Scope::Member {
            container: project_path("test.sol"),
            component: contract,
            member: t(5),
            signature_container: None,
        },
        "onlyOwner",
        None,
    );
    let function = insert_function(&mut audit, 2, "f", contract);

    let inv = make_modifier_invocation(700, modifier.numeric_id());
    let function_def = make_function_def(2, "f", vec![inv]);
    let contract_def = make_contract_def(
        1,
        "C",
        ContractKind::Contract,
        Vec::new(),
        vec![function_def],
    );
    audit.asts.insert(
        project_path("test.sol"),
        AST::Solidity(make_solidity_ast("test.sol", vec![contract_def])),
    );

    let mut graph = ResolutionGraph::new();
    SolidityExtractor.extract(&audit, &mut graph);
    graph.finalize();

    assert!(
        graph
            .out_edges(function)
            .iter()
            .any(|e| e.dest == modifier && e.edge_type == EdgeType::ModifierApplied)
    );
    assert!(
        graph
            .out_edges(modifier)
            .iter()
            .any(|e| e.dest == function && e.edge_type == EdgeType::ModifierApplied)
    );
}

#[test]
fn modifier_applied_dedupes_when_same_function_visited_twice() {
    let mut audit = empty_audit();
    let contract = insert_contract(&mut audit, 1, "C");
    let modifier = insert_named(
        &mut audit,
        5,
        NamedTopicKind::Modifier,
        Scope::Member {
            container: project_path("test.sol"),
            component: contract,
            member: t(5),
            signature_container: None,
        },
        "onlyOwner",
        None,
    );
    let function = insert_function(&mut audit, 2, "f", contract);

    let function_def_a = make_function_def(
        2,
        "f",
        vec![make_modifier_invocation(700, modifier.numeric_id())],
    );
    let function_def_b = make_function_def(
        2,
        "f",
        vec![make_modifier_invocation(701, modifier.numeric_id())],
    );
    let group = ASTNode::ContractMemberGroup {
        node_id: 8000,
        src_location: loc(),
        documentation: None,
        members: vec![function_def_b],
    };
    let contract_def = make_contract_def(
        1,
        "C",
        ContractKind::Contract,
        Vec::new(),
        vec![function_def_a, group],
    );
    audit.asts.insert(
        project_path("test.sol"),
        AST::Solidity(make_solidity_ast("test.sol", vec![contract_def])),
    );

    let mut graph = ResolutionGraph::new();
    SolidityExtractor.extract(&audit, &mut graph);
    graph.finalize();

    let count = graph
        .out_edges(function)
        .iter()
        .filter(|e| e.dest == modifier && e.edge_type == EdgeType::ModifierApplied)
        .count();
    assert_eq!(count, 1);
}

#[test]
fn edges_to_unknown_topics_are_dropped() {
    let mut audit = empty_audit();
    let contract = insert_contract(&mut audit, 1, "C");
    let f = insert_function(&mut audit, 2, "f", contract);
    let unknown = t(999);
    insert_function_props(&mut audit, f, vec![unknown], vec![], vec![], vec![]);

    let mut graph = ResolutionGraph::new();
    SolidityExtractor.extract(&audit, &mut graph);
    graph.finalize();

    assert!(graph.out_edges(f).iter().all(|e| e.dest != unknown));
}

fn integrated_audit() -> AuditData {
    let mut audit = empty_audit();
    let contract = insert_contract(&mut audit, 1, "Token");
    let base = insert_contract(&mut audit, 7, "BaseToken");
    audit.inheritance.insert(contract, vec![base]);

    let state_var = insert_named(
        &mut audit,
        2,
        NamedTopicKind::StateVariable(VariableMutability::Mutable),
        Scope::Member {
            container: project_path("token.sol"),
            component: contract,
            member: t(2),
            signature_container: None,
        },
        "balance",
        None,
    );
    let event = insert_named(
        &mut audit,
        3,
        NamedTopicKind::Event,
        Scope::Member {
            container: project_path("token.sol"),
            component: contract,
            member: t(3),
            signature_container: None,
        },
        "Transferred",
        None,
    );
    let err = insert_named(
        &mut audit,
        4,
        NamedTopicKind::Error,
        Scope::Member {
            container: project_path("token.sol"),
            component: contract,
            member: t(4),
            signature_container: None,
        },
        "InsufficientBalance",
        None,
    );
    let helper = insert_function(&mut audit, 5, "helper", contract);
    let main = insert_function(&mut audit, 6, "transfer", contract);
    let modifier = insert_named(
        &mut audit,
        8,
        NamedTopicKind::Modifier,
        Scope::Member {
            container: project_path("token.sol"),
            component: contract,
            member: t(8),
            signature_container: None,
        },
        "onlyOwner",
        None,
    );
    let _param = insert_named(
        &mut audit,
        9,
        NamedTopicKind::LocalVariable,
        Scope::Member {
            container: project_path("token.sol"),
            component: contract,
            member: main,
            signature_container: Some(t(9999)),
        },
        "amount",
        None,
    );
    let s = insert_named(
        &mut audit,
        11,
        NamedTopicKind::Struct,
        Scope::Member {
            container: project_path("token.sol"),
            component: contract,
            member: t(11),
            signature_container: None,
        },
        "Holder",
        None,
    );
    let _field = insert_named(
        &mut audit,
        12,
        NamedTopicKind::LocalVariable,
        Scope::Member {
            container: project_path("token.sol"),
            component: s,
            member: t(12),
            signature_container: None,
        },
        "addr",
        None,
    );
    let library = insert_named(
        &mut audit,
        13,
        NamedTopicKind::Contract(ContractKind::Library),
        Scope::Component {
            container: project_path("token.sol"),
            component: t(13),
        },
        "Math",
        None,
    );
    let value_type = insert_named(
        &mut audit,
        14,
        NamedTopicKind::Struct,
        Scope::Member {
            container: project_path("token.sol"),
            component: contract,
            member: t(14),
            signature_container: None,
        },
        "Amount",
        None,
    );
    let iface_fn = insert_named(
        &mut audit,
        15,
        NamedTopicKind::Function(FunctionKind::Function),
        Scope::Member {
            container: project_path("token.sol"),
            component: contract,
            member: t(15),
            signature_container: None,
        },
        "transferImpl",
        Some(helper),
    );

    insert_function_props(
        &mut audit,
        main,
        vec![helper],
        vec![state_var],
        vec![event],
        vec![RevertInfo {
            topic: t(900),
            kind: RevertConstraintKind::Revert,
            error_topic: Some(err),
        }],
    );

    audit.topic_context.insert(
        main,
        vec![SourceContext::new_with_scope_references(
            contract,
            Some(0),
            true,
            vec![Reference::project_reference(iface_fn, Some(0))],
        )],
    );

    let function_def = make_function_def(
        6,
        "transfer",
        vec![make_modifier_invocation(700, modifier.numeric_id())],
    );
    let contract_def = make_contract_def(
        1,
        "Token",
        ContractKind::Contract,
        vec![make_using_for(800, library.numeric_id(), value_type.numeric_id())],
        vec![function_def],
    );
    audit.asts.insert(
        project_path("token.sol"),
        AST::Solidity(make_solidity_ast("token.sol", vec![contract_def])),
    );

    audit
}

#[test]
fn integrated_extraction_is_deterministic() {
    let audit = integrated_audit();

    let mut g1 = ResolutionGraph::new();
    SolidityExtractor.extract(&audit, &mut g1);
    g1.finalize();

    let mut g2 = ResolutionGraph::new();
    SolidityExtractor.extract(&audit, &mut g2);
    g2.finalize();

    assert_eq!(g1, g2);
    assert_eq!(
        format!("{:?}", g1),
        format!("{:?}", g2)
    );
}

#[test]
fn integrated_extraction_emits_every_spec_edge_type() {
    let audit = integrated_audit();
    let mut g = ResolutionGraph::new();
    SolidityExtractor.extract(&audit, &mut g);
    g.finalize();

    let mut found: BTreeSet<EdgeType> = BTreeSet::new();
    for src in g.nodes() {
        for e in g.out_edges(src) {
            found.insert(e.edge_type);
        }
    }

    let expected = [
        EdgeType::ContainsMember,
        EdgeType::ContainsLocal,
        EdgeType::ContainsField,
        EdgeType::Calls,
        EdgeType::References,
        EdgeType::Implements,
        EdgeType::ProxyOf,
        EdgeType::WritesState,
        EdgeType::UsingFor,
        EdgeType::ModifierApplied,
        EdgeType::ErrorThrown,
        EdgeType::EventEmitted,
    ];
    for et in expected {
        assert!(
            found.contains(&et),
            "expected {:?} to appear at least once; got {:?}",
            et,
            found
        );
    }
}

#[test]
fn build_pipeline_runs_solidity_extractor_when_solidity_ast_present() {
    let audit = integrated_audit();
    let graph = build(&audit);
    let edge_count: usize = graph.nodes().into_iter().map(|n| graph.out_edges(n).len()).sum();
    assert!(edge_count > 0, "expected at least one edge to be emitted");
}
