use o11a_core::domain::topic::{new_documentation_topic, new_functional_property_topic};
use o11a_core::domain::topic::{new_node_topic, new_spec_topic, Topic};
use o11a_core::domain::{add_annotation_to_scope, add_to_scope, new_audit_data, new_data_context};
use o11a_core::domain::{rebuild_feature_context, resolve_transitive_topic};
use o11a_core::domain::{semantic_texts_by_declaration, semantic_texts_for_declaration};
use o11a_core::domain::{set_member, set_signature_container, AuditData, Author, BlockAnnotation};
use o11a_core::domain::{BlockAnnotationKind, CallKind, CommentType, FunctionKind, MatchSource};
use o11a_core::domain::{NamedTopicKind, NamedTopicVisibility, NonPureSubjectType, ProjectPath};
use o11a_core::domain::{Requirement, Scope, SubjectPurity, ThreatFeatureRelation};
use o11a_core::domain::{ThreatSeverity, TopicMetadata, TopicNameIndex, UnnamedTopicKind};
use o11a_core::feature_lookup::features_for_topic;
use o11a_core::ordered::OrderedMap;

fn n(id: i32) -> Topic {
    new_node_topic(&id)
}

fn audit() -> AuditData {
    new_audit_data("test".to_string(), OrderedMap::new(), None)
}

fn path() -> ProjectPath {
    ProjectPath { file_path: "x.sol".to_string() }
}

fn named(t: Topic, name: &str, kind: NamedTopicKind, scope: Scope, proxy: Option<Topic>) -> TopicMetadata {
    TopicMetadata::NamedTopic {
        topic: t,
        scope,
        kind,
        name: name.to_string(),
        visibility: NamedTopicVisibility::Public,
        is_mutable: false,
        mutations: vec![],
        ancestors: vec![],
        descendants: vec![],
        relatives: vec![],
        transitive_topic: proxy,
        doc_references: vec![],
    }
}

fn semantic(t: Topic, declaration: Topic, text: &str) -> TopicMetadata {
    TopicMetadata::FunctionalSemanticTopic {
        topic: t,
        description: text.to_string(),
        declaration_topic: declaration,
        documentation_topics: vec![],
        author: Author::System,
        created_at: None,
        match_source: Some(MatchSource::Bm25),
    }
}

#[test]
fn new_audits_know_the_globals() {
    let a = audit();
    let names: Vec<Option<&str>> =
        (0..a.topic_metadata.len()).map(|i| a.topic_metadata.value_at(i).name()).collect();
    assert_eq!(names, vec![Some("this"), Some("type"), Some("keccak256")]);
    assert_eq!(*a.topic_metadata.key_at(0), n(-28));
}

#[test]
fn proxies_lead_to_what_they_stand_for() {
    let mut a = audit();
    a.topic_metadata.insert(n(1), named(n(1), "a", NamedTopicKind::Event, Scope::Global, Some(n(2))));
    a.topic_metadata.insert(n(2), named(n(2), "b", NamedTopicKind::Event, Scope::Global, Some(n(3))));
    a.topic_metadata.insert(n(3), named(n(3), "c", NamedTopicKind::Event, Scope::Global, None));
    assert_eq!(resolve_transitive_topic(&n(1), &a.topic_metadata), n(3));
    assert_eq!(resolve_transitive_topic(&n(3), &a.topic_metadata), n(3));
    assert_eq!(resolve_transitive_topic(&n(77), &a.topic_metadata), n(77));
    a.topic_metadata.insert(n(3), named(n(3), "c", NamedTopicKind::Event, Scope::Global, Some(n(1))));
    assert_eq!(resolve_transitive_topic(&n(1), &a.topic_metadata), n(1));
}

#[test]
fn a_lone_declaration_wins_over_proxies() {
    let mut a = audit();
    a.topic_metadata.insert(n(1), named(n(1), "f", NamedTopicKind::Event, Scope::Global, Some(n(2))));
    a.topic_metadata.insert(n(2), named(n(2), "f", NamedTopicKind::Event, Scope::Global, None));
    let index = TopicNameIndex::build(&a);
    assert_eq!(index.candidates_by_simple_name("f"), &[n(1), n(2)]);
    assert_eq!(index.get_by_simple_name("f"), Some(&n(2)));
}

#[test]
fn qualified_names_lead_from_contract_to_member() {
    let mut a = audit();
    let contract = Scope::Container { container: path() };
    a.topic_metadata.insert(n(1), named(n(1), "Vault", NamedTopicKind::Struct, contract, None));
    let inside = Scope::Component { container: path(), component: n(1) };
    a.topic_metadata.insert(n(2), named(n(2), "total", NamedTopicKind::Event, inside, None));
    let member = Scope::Member {
        container: path(),
        component: n(1),
        member: n(2),
        signature_container: None,
    };
    a.topic_metadata.insert(n(3), named(n(3), "amount", NamedTopicKind::LocalVariable, member, None));
    let index = TopicNameIndex::build(&a);
    assert_eq!(index.get_by_qualified_name("Vault"), Some(&n(1)));
    assert_eq!(index.get_by_qualified_name("Vault.total"), Some(&n(2)));
    assert_eq!(index.get_by_qualified_name("total"), None);
    assert_eq!(
        a.topic_metadata.get(&n(3)).unwrap().qualified_name(&a),
        Some("Vault.total.amount".to_string())
    );
    assert_eq!(
        index.qualified_names(),
        vec!["Vault", "Vault.total", "Vault.total.amount", "keccak256", "this", "type"]
    );
}

#[test]
fn semantics_are_found_by_declaration() {
    let mut a = audit();
    let p = new_functional_property_topic;
    a.topic_metadata.insert(p(2), semantic(p(2), n(5), "second"));
    a.topic_metadata.insert(p(1), semantic(p(1), n(5), "first"));
    a.topic_metadata.insert(p(3), semantic(p(3), n(6), "other"));
    rebuild_feature_context(&mut a);
    assert_eq!(semantic_texts_for_declaration(&a, &n(5)), vec!["first", "second"]);
    assert!(semantic_texts_for_declaration(&a, &n(7)).is_empty());
    let all = semantic_texts_by_declaration(&a);
    assert_eq!(all.len(), 2);
    assert_eq!(all.get(&n(6)).unwrap().len(), 1);
}

#[test]
fn rebuilding_twice_is_rebuilding_once() {
    let mut a = audit();
    let p = new_functional_property_topic;
    a.topic_metadata.insert(p(1), semantic(p(1), n(5), "first"));
    rebuild_feature_context(&mut a);
    let once = format!("{:?}{:?}", a.declaration_semantics, a.topic_context);
    rebuild_feature_context(&mut a);
    assert_eq!(format!("{:?}{:?}", a.declaration_semantics, a.topic_context), once);
}

#[test]
fn features_of_each_kind_of_topic() {
    let mut a = audit();
    let s = new_spec_topic;
    a.topic_metadata.insert(
        s(1),
        TopicMetadata::FeatureTopic {
            topic: s(1),
            name: "f".to_string(),
            description: String::new(),
            author: Author::System,
            created_at: None,
        },
    );
    a.topic_metadata.insert(
        s(2),
        TopicMetadata::RequirementTopic {
            topic: s(2),
            description: String::new(),
            section_topic: new_documentation_topic(1),
            author: Author::System,
            created_at: None,
        },
    );
    a.topic_metadata.insert(
        s(3),
        TopicMetadata::BehaviorTopic {
            topic: s(3),
            description: String::new(),
            member_topic: n(10),
            author: Author::System,
            created_at: None,
        },
    );
    a.requirements.insert(s(2), Requirement { documentation_topics: vec![] });
    a.feature_requirement_links.insert(s(1), vec![s(2)]);
    a.feature_requirement_links.insert(s(4), vec![s(2), s(2)]);
    a.feature_behavior_links.insert(s(1), vec![s(3)]);
    let f = NamedTopicKind::Function(FunctionKind::Function);
    a.topic_metadata.insert(n(10), named(n(10), "f", f, Scope::Global, None));
    let inside = Scope::Member {
        container: path(),
        component: n(9),
        member: n(10),
        signature_container: None,
    };
    a.topic_metadata.insert(n(11), named(n(11), "x", NamedTopicKind::LocalVariable, inside, None));
    assert_eq!(features_for_topic(&s(1), &a), vec![s(1)]);
    assert_eq!(features_for_topic(&s(2), &a), vec![s(1), s(4)]);
    assert_eq!(features_for_topic(&s(3), &a), vec![s(1)]);
    assert_eq!(features_for_topic(&n(10), &a), vec![s(1)]);
    assert_eq!(features_for_topic(&n(11), &a), vec![s(1)]);
    assert!(features_for_topic(&n(-8), &a).is_empty());
    assert!(features_for_topic(&s(77), &a).is_empty());
}

#[test]
fn scopes_nest_level_by_level() {
    let file = Scope::Container { container: path() };
    let contract = add_to_scope(&file, n(1));
    let member = add_to_scope(&contract, n(2));
    let block = add_to_scope(&member, n(3));
    let inner = add_to_scope(&block, n(4));
    let topics: Vec<Topic> = inner.ancestor_topics().into_iter().copied().collect();
    assert_eq!(topics, vec![n(1), n(2), n(3), n(4)]);
    let mark = BlockAnnotation { topic: n(4), kind: BlockAnnotationKind::For };
    let marked = add_annotation_to_scope(&inner, mark);
    let topics: Vec<Topic> = marked.ancestor_topics().into_iter().copied().collect();
    assert_eq!(topics, vec![n(1), n(2), n(3), n(4)]);
    match marked {
        Scope::ContainingBlock { containing_blocks, .. } => {
            assert_eq!(containing_blocks[0].annotation, None);
            assert_eq!(containing_blocks[1].annotation, Some(mark));
        }
        other => panic!("no block: {:?}", other),
    }
    let again = set_member(&set_member(&contract, n(7)), n(8));
    let signed = set_signature_container(&again, n(9));
    match signed {
        Scope::Member { member, signature_container, .. } => {
            assert_eq!(member, n(8));
            assert_eq!(signature_container, Some(n(9)));
        }
        other => panic!("no member: {:?}", other),
    }
}

#[test]
fn audits_are_kept_by_identifier() {
    let mut ctx = new_data_context();
    assert!(ctx.create_audit("b".to_string(), "B".to_string(), OrderedMap::new(), None));
    assert!(ctx.create_audit("a".to_string(), "A".to_string(), OrderedMap::new(), None));
    assert!(!ctx.create_audit("b".to_string(), "C".to_string(), OrderedMap::new(), None));
    assert_eq!(ctx.get_audit("b").unwrap().audit_name, "B");
    assert_eq!(ctx.list_audits(), vec!["a", "b"]);
    ctx.get_audit_mut("a").unwrap().audit_name = "renamed".to_string();
    assert_eq!(ctx.get_audit("a").unwrap().audit_name, "renamed");
    assert!(ctx.delete_audit("a"));
    assert!(!ctx.delete_audit("a"));
    assert!(ctx.get_audit("a").is_none());
    assert!(ctx.get_audit_mut("zzz").is_none());
}

#[test]
fn labels_are_read_back() {
    for c in [
        CommentType::Note,
        CommentType::Info,
        CommentType::Question,
        CommentType::Answer,
        CommentType::Todo,
        CommentType::FindingLead,
        CommentType::DevTechnical,
        CommentType::DevDocumentation,
    ] {
        assert_eq!(CommentType::parse_str(c.as_str()), Some(c));
    }
    assert_eq!(CommentType::parse_str("Note"), None);
    for s in [
        ThreatSeverity::Low,
        ThreatSeverity::Medium,
        ThreatSeverity::High,
        ThreatSeverity::Critical,
    ] {
        assert_eq!(ThreatSeverity::parse_str(s.as_str()), Some(s));
    }
    assert!(ThreatSeverity::High.at_least(&ThreatSeverity::Medium));
    assert!(!ThreatSeverity::Low.at_least(&ThreatSeverity::Medium));
    for r in [ThreatFeatureRelation::IsVulnerableTo, ThreatFeatureRelation::DefendsAgainst] {
        assert_eq!(ThreatFeatureRelation::parse_str(r.as_str()), Some(r));
    }
    assert_eq!(
        NonPureSubjectType::parse_str("delegate_call"),
        Some(NonPureSubjectType::DelegateCall)
    );
    assert_eq!(NonPureSubjectType::parse_str(""), None);
    assert_eq!(MatchSource::Bm25.merge(MatchSource::Mechanical), MatchSource::Mechanical);
    assert_eq!(MatchSource::Bm25.merge(MatchSource::Bm25), MatchSource::Bm25);
    assert_eq!(UnnamedTopicKind::FunctionCall(CallKind::NonPure).purity(), SubjectPurity::NonPure);
    assert_eq!(UnnamedTopicKind::FunctionCall(CallKind::Pure).purity(), SubjectPurity::Pure);
    assert_eq!(Author::User(12).as_i64(), 12);
}
