use o11a_core::domain::topic;
use o11a_core::domain::{new_audit_data, new_project_path, new_project_path_from_path};
use o11a_core::domain::{rebuild_feature_context, scope_ancestor_chain, AuditData, Author};
use o11a_core::domain::{ConditionKind, ContainingBlockLayer, NamedTopicKind, NamedTopicVisibility};
use o11a_core::domain::{ProjectPath, Scope, TopicMetadata, TopicNameIndex};
use o11a_core::ordered::OrderedMap;

fn audit() -> AuditData {
    new_audit_data("t".to_string(), OrderedMap::new(), None)
}

fn nt(id: i32) -> topic::Topic {
    topic::new_node_topic(&id)
}

fn pp() -> ProjectPath {
    ProjectPath {
        file_path: "x.sol".to_string(),
    }
}

fn named_with_scope(t: topic::Topic, scope: Scope) -> TopicMetadata {
    TopicMetadata::NamedTopic {
        topic: t,
        scope,
        kind: NamedTopicKind::Builtin,
        visibility: NamedTopicVisibility::Public,
        name: "x".to_string(),
        is_mutable: false,
        mutations: Vec::new(),
        ancestors: Vec::new(),
        descendants: Vec::new(),
        relatives: Vec::new(),
        transitive_topic: None,
        doc_references: Vec::new(),
    }
}

#[test]
fn unknown_topic_yields_just_itself() {
    let a = audit();
    assert_eq!(scope_ancestor_chain(&a, nt(99)), vec![nt(99)]);
}

#[test]
fn contract_topic_with_container_scope_yields_just_itself() {
    let mut a = audit();
    let c = nt(1);
    a.topic_metadata
        .insert(c, named_with_scope(c, Scope::Container { container: pp() }));
    assert_eq!(scope_ancestor_chain(&a, c), vec![c]);
}

#[test]
fn function_topic_yields_function_then_contract() {
    let mut a = audit();
    let contract = nt(1);
    let func = nt(10);
    a.topic_metadata.insert(
        contract,
        named_with_scope(contract, Scope::Container { container: pp() }),
    );
    a.topic_metadata.insert(
        func,
        named_with_scope(
            func,
            Scope::Component {
                container: pp(),
                component: contract,
            },
        ),
    );
    assert_eq!(scope_ancestor_chain(&a, func), vec![func, contract]);
}

#[test]
fn parameter_topic_yields_param_then_function_then_contract() {
    let mut a = audit();
    let contract = nt(1);
    let func = nt(10);
    let param = nt(20);
    a.topic_metadata.insert(
        param,
        named_with_scope(
            param,
            Scope::Member {
                container: pp(),
                component: contract,
                member: func,
                signature_container: None,
            },
        ),
    );
    assert_eq!(scope_ancestor_chain(&a, param), vec![param, func, contract],);
}

#[test]
fn nested_block_yields_innermost_first_chain() {
    let mut a = audit();
    let contract = nt(1);
    let func = nt(10);
    let outer_block = nt(20);
    let inner_block = nt(30);
    a.topic_metadata.insert(
        inner_block,
        named_with_scope(
            inner_block,
            Scope::ContainingBlock {
                container: pp(),
                component: contract,
                member: func,
                containing_blocks: vec![ContainingBlockLayer {
                    block: outer_block,
                    annotation: None,
                }],
            },
        ),
    );
    assert_eq!(
        scope_ancestor_chain(&a, inner_block),
        vec![inner_block, outer_block, func, contract],
        "nested-block chain runs innermost to outermost",
    );
}

#[test]
fn global_scope_topic_yields_just_itself() {
    let mut a = audit();
    let g = nt(1);
    a.topic_metadata
        .insert(g, named_with_scope(g, Scope::Global));
    assert_eq!(scope_ancestor_chain(&a, g), vec![g]);
}

#[test]
fn test_new_project_path_strips_dot_slash() {
    let project_root = String::from("/home/user/project");
    let file_path = String::from("./src/my.sol");

    let result = new_project_path(&file_path, &project_root);

    assert_eq!(result.file_path, "src/my.sol");
}

#[test]
fn test_new_project_path_from_path_strips_dot_slash() {
    let project_root = String::from("/home/user/project");
    let file_path = "./src/my.sol";

    let result = new_project_path_from_path(file_path, &project_root);

    assert_eq!(result.file_path, "src/my.sol");
}

#[test]
fn test_new_project_path_handles_simple_relative() {
    let project_root = String::from("/home/user/project");
    let file_path = String::from("src/my.sol");

    let result = new_project_path(&file_path, &project_root);

    assert_eq!(result.file_path, "src/my.sol");
}

#[test]
fn test_new_project_path_handles_absolute() {
    let project_root = String::from("/home/user/project");
    let file_path = String::from("/home/user/project/src/my.sol");

    let result = new_project_path(&file_path, &project_root);

    assert_eq!(result.file_path, "src/my.sol");
}

#[test]
fn test_new_project_path_handles_parent_directory() {
    let project_root = String::from("/home/user/project");
    let file_path = String::from("./src/../contracts/my.sol");

    let result = new_project_path(&file_path, &project_root);

    assert_eq!(result.file_path, "contracts/my.sol");
}

#[test]
fn test_new_project_path_handles_nested_dot_slash() {
    let project_root = String::from("/home/user/project");
    let file_path = String::from("./src/./contracts/./my.sol");

    let result = new_project_path(&file_path, &project_root);

    assert_eq!(result.file_path, "src/contracts/my.sol");
}

fn test_named_topic(t: topic::Topic, name: &str) -> TopicMetadata {
    TopicMetadata::NamedTopic {
        topic: t,
        scope: Scope::Global,
        kind: NamedTopicKind::Builtin,
        visibility: NamedTopicVisibility::Public,
        name: name.to_string(),
        is_mutable: false,
        mutations: Vec::new(),
        ancestors: Vec::new(),
        descendants: Vec::new(),
        relatives: Vec::new(),
        transitive_topic: None,
        doc_references: Vec::new(),
    }
}

#[test]
fn candidates_by_simple_name_returns_all_pre_dedup() {
    let mut audit = new_audit_data("test".to_string(), OrderedMap::new(), None);
    let t1 = topic::new_node_topic(&100);
    let t2 = topic::new_node_topic(&200);
    audit
        .topic_metadata
        .insert(t1, test_named_topic(t1, "shared"));
    audit
        .topic_metadata
        .insert(t2, test_named_topic(t2, "shared"));

    let index = TopicNameIndex::build(&audit);

    assert_eq!(index.candidates_by_simple_name("shared"), &[t1, t2]);
    assert_eq!(index.get_by_simple_name("shared"), None);
    assert_eq!(index.candidates_by_simple_name("missing"), &[]);
}

#[test]
fn candidates_by_simple_name_excludes_common_words() {
    let mut audit = new_audit_data("test".to_string(), OrderedMap::new(), None);
    let t1 = topic::new_node_topic(&1);
    audit.topic_metadata.insert(t1, test_named_topic(t1, "for"));

    let index = TopicNameIndex::build(&audit);

    assert_eq!(index.candidates_by_simple_name("for"), &[]);
    assert_eq!(index.get_by_simple_name("for"), None);
}

#[test]
fn candidates_by_simple_name_single_unique_candidate() {
    let mut audit = new_audit_data("test".to_string(), OrderedMap::new(), None);
    let t1 = topic::new_node_topic(&7);
    audit
        .topic_metadata
        .insert(t1, test_named_topic(t1, "Solo"));

    let index = TopicNameIndex::build(&audit);

    assert_eq!(index.candidates_by_simple_name("Solo"), &[t1]);
    assert_eq!(index.get_by_simple_name("Solo"), Some(&t1));
}

#[test]
fn candidates_by_simple_name_sorted_with_negative_node_ids() {
    let mut audit = new_audit_data("test".to_string(), OrderedMap::new(), None);
    let t_neg = topic::new_node_topic(&-50);
    let t_pos = topic::new_node_topic(&50);
    audit
        .topic_metadata
        .insert(t_neg, test_named_topic(t_neg, "Mixed"));
    audit
        .topic_metadata
        .insert(t_pos, test_named_topic(t_pos, "Mixed"));

    let index = TopicNameIndex::build(&audit);

    assert_eq!(index.candidates_by_simple_name("Mixed"), &[t_neg, t_pos]);
}

#[test]
fn candidates_by_simple_name_returns_disjoint_names_independently() {
    let mut audit = new_audit_data("test".to_string(), OrderedMap::new(), None);
    let t1 = topic::new_node_topic(&1);
    let t2 = topic::new_node_topic(&2);
    let t3 = topic::new_node_topic(&3);
    audit
        .topic_metadata
        .insert(t1, test_named_topic(t1, "Alpha"));
    audit
        .topic_metadata
        .insert(t2, test_named_topic(t2, "Beta"));
    audit
        .topic_metadata
        .insert(t3, test_named_topic(t3, "Beta"));

    let index = TopicNameIndex::build(&audit);

    assert_eq!(index.candidates_by_simple_name("Alpha"), &[t1]);
    assert_eq!(index.candidates_by_simple_name("Beta"), &[t2, t3]);
}

#[test]
fn audit_data_phase0_fields_default_empty() {
    let audit = new_audit_data("test".to_string(), OrderedMap::new(), None);
    assert!(audit.inheritance.is_empty());
    assert!(audit.resolution_graph.is_none());
}

#[test]
fn rebuild_feature_context_populates_subject_conditions() {
    let mut audit = new_audit_data("test".to_string(), OrderedMap::new(), None);
    let subject_a = topic::new_node_topic(&10);
    let subject_b = topic::new_node_topic(&20);

    let cond_a1 = topic::new_adversarial_property_topic(1);
    let cond_a2 = topic::new_adversarial_property_topic(2);
    let cond_b1 = topic::new_adversarial_property_topic(3);

    audit.topic_metadata.insert(
        cond_a1,
        TopicMetadata::ConditionTopic {
            topic: cond_a1,
            description: "first assertion on a".to_string(),
            subject_topic: subject_a,
            kind: ConditionKind::RestrictedReachability,
            evidence_topics: vec![],
            author: Author::System,
            created_at: None,
        },
    );
    audit.topic_metadata.insert(
        cond_a2,
        TopicMetadata::ConditionTopic {
            topic: cond_a2,
            description: "second assertion on a".to_string(),
            subject_topic: subject_a,
            kind: ConditionKind::AuthorizedAccess,
            evidence_topics: vec![topic::new_node_topic(&99)],
            author: Author::System,
            created_at: None,
        },
    );
    audit.topic_metadata.insert(
        cond_b1,
        TopicMetadata::ConditionTopic {
            topic: cond_b1,
            description: "assertion on b".to_string(),
            subject_topic: subject_b,
            kind: ConditionKind::ValueFreshness,
            evidence_topics: vec![],
            author: Author::System,
            created_at: None,
        },
    );

    rebuild_feature_context(&mut audit);

    let a_conds = audit
        .subject_conditions
        .get(&subject_a)
        .expect("subject_a should have conditions");
    assert_eq!(a_conds.len(), 2);
    assert!(a_conds.contains(&cond_a1));
    assert!(a_conds.contains(&cond_a2));

    let b_conds = audit
        .subject_conditions
        .get(&subject_b)
        .expect("subject_b should have conditions");
    assert_eq!(b_conds.len(), 1);
    assert_eq!(b_conds[0], cond_b1);

    let subject_c = topic::new_node_topic(&30);
    assert!(!audit.subject_conditions.contains_key(&subject_c));
}

#[test]
fn rebuild_feature_context_clears_subject_conditions_before_rebuilding() {
    let mut audit = new_audit_data("test".to_string(), OrderedMap::new(), None);
    let subject_a = topic::new_node_topic(&10);
    let cond_a1 = topic::new_adversarial_property_topic(1);
    audit.topic_metadata.insert(
        cond_a1,
        TopicMetadata::ConditionTopic {
            topic: cond_a1,
            description: "assertion".to_string(),
            subject_topic: subject_a,
            kind: ConditionKind::RestrictedReachability,
            evidence_topics: vec![],
            author: Author::System,
            created_at: None,
        },
    );

    rebuild_feature_context(&mut audit);
    assert_eq!(
        audit.subject_conditions.get(&subject_a).map(|v| v.len()),
        Some(1)
    );

    audit.topic_metadata.remove(&cond_a1);
    rebuild_feature_context(&mut audit);
    assert!(
        !audit.subject_conditions.contains_key(&subject_a),
        "subject_conditions must be cleared before rebuild; stale entry from previous rebuild should be gone"
    );
}

#[test]
fn rebuild_feature_context_with_no_conditions_yields_empty_index() {
    let mut audit = new_audit_data("test".to_string(), OrderedMap::new(), None);
    rebuild_feature_context(&mut audit);
    assert!(
        audit.subject_conditions.is_empty(),
        "no ConditionTopic entries means empty subject_conditions"
    );
}
