use o11a_core::api::conversation::{affected_topics, cast_vote, comment_events, create_comment};
use o11a_core::api::conversation::{get_unvoted_comment_ids, get_vote_summary, requested_comment};
use o11a_core::api::conversation::{requested_comments, scope_for_comment, update_comment_status};
use o11a_core::api::conversation::{invalidated_threads, AuditEvent, CommentStatus, VoteInfo};
use o11a_core::api::entities::{condition_response, create_condition, create_user_behavior};
use o11a_core::api::entities::{create_user_feature, create_user_functional_semantic};
use o11a_core::api::entities::{create_user_requirement, delete_condition};
use o11a_core::api::entities::{get_subject_conditions, requested_condition};
use o11a_core::api::entities::{ConditionEvaluationInput, ConditionRow, CreateConditionRequest};
use o11a_core::api::entities::{CreateUserBehaviorRequest, CreateUserFeatureRequest};
use o11a_core::api::entities::{CreateUserFunctionalSemanticRequest, CreateUserRequirementRequest};
use o11a_core::api::reading::{get_all_functional_semantics, get_behavior, get_behaviors};
use o11a_core::api::reading::{get_boundaries, get_contracts, get_delimiter, get_documents};
use o11a_core::api::reading::{get_feature, get_feature_requirements, get_features};
use o11a_core::api::reading::{get_functional_semantic, get_functional_semantics};
use o11a_core::api::reading::{get_in_scope_files, get_invariant, get_metadata};
use o11a_core::api::reading::{get_qualified_names, get_requirement, get_requirements};
use o11a_core::api::reading::{get_threat, get_threat_invariants, list_audits};
use o11a_core::api::reading::GetRequirementsQuery;
use o11a_core::api::responses::{topic_metadata_to_response, TopicMetadataResponse};
use o11a_core::api::status::{artifact_error_response, find_audit, into_http_response};
use o11a_core::api::status::{ArtifactError, PipelineError, Status, TaskError};
use o11a_core::api::threats::{add_invariant_source_topic, create_invariant, create_threat};
use o11a_core::api::threats::{create_threat_feature_link, delete_invariant, delete_threat};
use o11a_core::api::threats::{delete_threat_feature_link, inherited_severity};
use o11a_core::api::threats::{remove_invariant_source_topic, requested_link};
use o11a_core::api::threats::{CreateThreatFeatureLinkRequest, InvariantRow, ThreatRow};
use o11a_core::api::writing::{create_audit, delete_audit, open_audit, CreateAuditRequest};
use o11a_core::domain::topic::{new_adversarial_property_topic, new_comment_topic};
use o11a_core::domain::topic::{new_documentation_topic, new_functional_property_topic};
use o11a_core::domain::topic::{new_node_topic, new_spec_topic, Topic};
use o11a_core::domain::audit::ConditionEvaluation;
use o11a_core::domain::{new_audit_data, new_data_context, rebuild_feature_context, AuditData};
use o11a_core::domain::{Author, CommentType, ConditionKind, ContractKind, FunctionKind};
use o11a_core::domain::{InvariantKind, NamedTopicKind, NamedTopicVisibility, Node};
use o11a_core::domain::{NonPureSubjectType, ProjectPath, Scope, ThreatActor, ThreatSeverity};
use o11a_core::domain::{TopicMetadata, TopicNameIndex, VariableMutability};
use o11a_core::ids::IdCounters;
use o11a_core::ordered::OrderedMap;
use o11a_core::report::build_report;
use o11a_core::rust::ast::{ASTNode, SourceLocation};

const AT: &str = "2026-01-01T00:00:00Z";

fn n(id: i32) -> Topic {
    new_node_topic(&id)
}

fn path(name: &str) -> ProjectPath {
    ProjectPath { file_path: name.to_string() }
}

fn audit() -> AuditData {
    let mut files = OrderedMap::new();
    files.insert(path("b.sol"), ());
    files.insert(path("a.sol"), ());
    new_audit_data("test".to_string(), files, None)
}

fn named(t: Topic, name: &str, kind: NamedTopicKind, scope: Scope) -> TopicMetadata {
    TopicMetadata::NamedTopic {
        topic: t,
        scope,
        kind,
        name: name.to_string(),
        visibility: NamedTopicVisibility::Internal,
        is_mutable: false,
        mutations: vec![n(1)],
        ancestors: vec![n(2)],
        descendants: vec![],
        relatives: vec![n(3), n(4)],
        transitive_topic: None,
        doc_references: vec![],
    }
}

fn add_comment(a: &mut AuditData, id: i32, target: Topic) {
    let t = new_comment_topic(id);
    a.topic_metadata.insert(
        t,
        TopicMetadata::CommentTopic {
            topic: t,
            scope: Scope::Global,
            target_topic: target,
            comment_type: CommentType::Question,
            author: Author::User(1),
            created_at: AT.to_string(),
            mentioned_topics: vec![n(8)],
        },
    );
}

fn id_of(r: &TopicMetadataResponse) -> String {
    match r {
        TopicMetadataResponse::Named(x) => x.topic_id.clone(),
        TopicMetadataResponse::Titled(x) => x.topic_id.clone(),
        TopicMetadataResponse::Unnamed(x) => x.topic_id.clone(),
        TopicMetadataResponse::Documentation(x) => x.topic_id.clone(),
        TopicMetadataResponse::ControlFlow(x) => x.topic_id.clone(),
        TopicMetadataResponse::CommentTopic(x) => x.topic_id.clone(),
        TopicMetadataResponse::Feature(x) => x.topic_id.clone(),
        TopicMetadataResponse::Requirement(x) => x.topic_id.clone(),
        TopicMetadataResponse::Behavior(x) => x.topic_id.clone(),
        TopicMetadataResponse::Semantic(x) => x.topic_id.clone(),
        TopicMetadataResponse::Purpose(x) => x.topic_id.clone(),
        TopicMetadataResponse::Placement(x) => x.topic_id.clone(),
        TopicMetadataResponse::Threat(x) => x.topic_id.clone(),
        TopicMetadataResponse::Invariant(x) => x.topic_id.clone(),
    }
}

fn ids(list: &[TopicMetadataResponse]) -> Vec<String> {
    list.iter().map(id_of).collect()
}

fn threat_row(id: i32) -> ThreatRow {
    ThreatRow {
        id,
        description: "drain".to_string(),
        subject_topic: n(5),
        falsifies_condition: new_adversarial_property_topic(1),
        controlled_by: ThreatActor::Caller,
        evidence_topics: vec![],
        author: Author::User(3),
        created_at: AT.to_string(),
    }
}

fn invariant_row(id: i32, threat: Topic, severity: Option<ThreatSeverity>) -> InvariantRow {
    InvariantRow {
        id,
        description: "guard".to_string(),
        threat_topic: threat,
        subject_topic: n(5),
        kind: InvariantKind::AccessGate,
        anchors: vec![],
        author: Author::User(3),
        created_at: AT.to_string(),
        severity,
    }
}

fn link(threat: &str, feature: &str, relation: &str, severity: &str) -> CreateThreatFeatureLinkRequest {
    CreateThreatFeatureLinkRequest {
        threat_id: threat.to_string(),
        feature_id: feature.to_string(),
        relation: relation.to_string(),
        severity: severity.to_string(),
    }
}

#[test]
fn statuses_have_their_codes() {
    let codes: Vec<u16> = [
        Status::Success,
        Status::NoContent,
        Status::BadRequest,
        Status::NotFound,
        Status::Conflict,
        Status::InternalServerError,
        Status::BadGateway,
    ]
    .iter()
    .map(|s| s.code())
    .collect();
    assert_eq!(codes, vec![200, 204, 400, 404, 409, 500, 502]);
}

#[test]
fn errors_map_to_statuses() {
    let status = |e: PipelineError| into_http_response(e, "text".to_string()).0;
    assert_eq!(status(PipelineError::AuditNotFound), Status::NotFound);
    assert_eq!(status(PipelineError::Database), Status::InternalServerError);
    assert_eq!(status(PipelineError::LockPoisoned), Status::InternalServerError);
    assert_eq!(status(PipelineError::Other), Status::InternalServerError);
    assert_eq!(status(PipelineError::AgentTask(TaskError::JsonParse)), Status::BadGateway);
    assert_eq!(status(PipelineError::AgentTask(TaskError::MissingField)), Status::BadGateway);
    assert_eq!(status(PipelineError::AgentTask(TaskError::MissingEnv)), Status::InternalServerError);
    assert_eq!(status(PipelineError::AgentTask(TaskError::Io)), Status::InternalServerError);
    assert_eq!(status(PipelineError::AgentTask(TaskError::HttpError)), Status::InternalServerError);
    assert_eq!(status(PipelineError::AgentTask(TaskError::Other)), Status::InternalServerError);
    let (s, text) = artifact_error_response(ArtifactError::VersionMismatch, "v".to_string());
    assert_eq!(s, Status::Conflict);
    assert_eq!(text, "v");
    let artifact = |e: ArtifactError| artifact_error_response(e, String::new()).0;
    assert_eq!(artifact(ArtifactError::AuditIdMismatch), Status::BadRequest);
    assert_eq!(artifact(ArtifactError::Decode), Status::BadRequest);
    assert_eq!(artifact(ArtifactError::Encode), Status::BadRequest);
    assert_eq!(artifact(ArtifactError::Io), Status::InternalServerError);
}

#[test]
fn named_topics_are_described() {
    let kind = NamedTopicKind::StateVariable(VariableMutability::Constant);
    let m = named(n(9), "x", kind, Scope::Container { container: path("a.sol") });
    match topic_metadata_to_response(&n(9), &m) {
        Some(TopicMetadataResponse::Named(r)) => {
            assert_eq!(r.topic_id, "N9");
            assert_eq!(r.name, "x");
            assert_eq!(r.kind, "StateVariable");
            assert_eq!(r.sub_kind, Some("Constant".to_string()));
            assert_eq!(r.visibility, "Internal");
            assert_eq!(r.ancestors, vec!["N2"]);
            assert_eq!(r.relatives, vec!["N3", "N4"]);
            assert_eq!(r.mutations, None);
        }
        other => panic!("not named: {:?}", other),
    }
    let c = new_adversarial_property_topic(1);
    let condition = TopicMetadata::ConditionTopic {
        topic: c,
        description: String::new(),
        subject_topic: n(1),
        kind: ConditionKind::Other,
        evidence_topics: vec![],
        author: Author::System,
        created_at: None,
    };
    assert!(topic_metadata_to_response(&c, &condition).is_none());
}

#[test]
fn topics_are_listed_by_kind() {
    let mut a = audit();
    let contract = NamedTopicKind::Contract(ContractKind::Library);
    let inside = Scope::Container { container: path("a.sol") };
    let outside = Scope::Container { container: path("z.sol") };
    a.topic_metadata.insert(n(1), named(n(1), "A", contract, inside));
    a.topic_metadata.insert(n(2), named(n(2), "Z", contract, outside));
    let d = new_documentation_topic(4);
    a.topic_metadata.insert(
        d,
        TopicMetadata::DocumentationTopic { topic: d, scope: Scope::Global, is_technical: true },
    );
    assert_eq!(ids(&get_contracts(&a).contracts), vec!["N1"]);
    assert_eq!(ids(&get_documents(&a).documents), vec!["D4"]);
    assert!(get_features(&a).is_empty());
    assert!(get_behaviors(&a).is_empty());
    assert!(get_all_functional_semantics(&a).is_empty());
    assert_eq!(get_in_scope_files(&a).in_scope_files, vec!["a.sol", "b.sol"]);
    assert!(get_boundaries().boundaries.is_empty());
    a.name_index = TopicNameIndex::build(&a);
    assert_eq!(get_qualified_names(&a), vec!["A", "Z", "keccak256", "this", "type"]);
}

#[test]
fn single_topics_are_found_or_not() {
    let mut a = audit();
    add_comment(&mut a, 1, n(5));
    assert_eq!(id_of(&get_metadata(&a, "C1").unwrap()), "C1");
    assert_eq!(get_metadata(&a, "C2").unwrap_err(), Status::NotFound);
    assert_eq!(get_feature(&a, "S1").unwrap_err(), Status::NotFound);
    assert_eq!(get_feature(&a, "N1").unwrap_err(), Status::BadRequest);
    assert_eq!(get_requirement(&a, "x").unwrap_err(), Status::BadRequest);
    assert_eq!(get_behavior(&a, "S9").unwrap_err(), Status::NotFound);
    assert_eq!(get_functional_semantic(&a, "P9").unwrap_err(), Status::NotFound);
    assert_eq!(get_functional_semantic(&a, "S9").unwrap_err(), Status::BadRequest);
    assert_eq!(get_threat(&a, "A9").unwrap_err(), Status::NotFound);
    assert_eq!(get_invariant(&a, "").unwrap_err(), Status::BadRequest);
    assert_eq!(get_threat_invariants(&a, "A9").unwrap_err(), Status::NotFound);
    assert_eq!(get_threat_invariants(&a, "S9").unwrap_err(), Status::BadRequest);
    assert_eq!(get_feature_requirements(&a, "S9").unwrap_err(), Status::NotFound);
    assert_eq!(get_delimiter(&a, "N1").unwrap_err(), Status::NotFound);
    let place = SourceLocation { start: None, length: None, index: None };
    let node = ASTNode::SourceFile { node_id: 1, src_location: place, items: vec![] };
    a.nodes.insert(n(1), Node::Rust(node));
    assert_eq!(get_delimiter(&a, "N1").unwrap(), None);
}

#[test]
fn audits_are_opened_filled_and_deleted() {
    let mut ctx = new_data_context();
    let request = CreateAuditRequest { audit_id: "x".to_string(), project_root: "/p".to_string() };
    assert_eq!(
        open_audit(&mut ctx, &request, "y", "X".to_string(), OrderedMap::new(), None),
        Err(Status::BadRequest)
    );
    let mut counters = IdCounters::new();
    let report = build_report("x", &audit(), AT.to_string());
    assert_eq!(
        create_audit(&mut ctx, &request, &report, &mut counters).unwrap_err(),
        Status::InternalServerError
    );
    open_audit(&mut ctx, &request, "x", "X".to_string(), OrderedMap::new(), None).unwrap();
    let done = create_audit(&mut ctx, &request, &report, &mut counters).unwrap();
    assert_eq!(done.audit_id, "x");
    assert_eq!(done.message, "Audit 'x' created successfully");
    let other = build_report("z", &audit(), AT.to_string());
    assert_eq!(
        create_audit(&mut ctx, &request, &other, &mut counters).unwrap_err(),
        Status::InternalServerError
    );
    assert_eq!(find_audit(&ctx, "x").unwrap().audit_name, "X");
    assert!(matches!(find_audit(&ctx, "y"), Err(Status::NotFound)));
    assert_eq!(list_audits(&ctx).audits[0].audit_id, "x");
    assert_eq!(delete_audit(&mut ctx, "x").unwrap().message, "Audit 'x' deleted successfully");
    assert_eq!(delete_audit(&mut ctx, "x").unwrap_err(), Status::NotFound);
}

#[test]
fn added_entities_are_found_again() {
    let mut a = audit();
    let requirement = CreateUserRequirementRequest {
        description: "must".to_string(),
        author: Author::User(2),
        section_topic: Some("D1".to_string()),
        documentation_topics: vec!["D7".to_string()],
    };
    assert_eq!(create_user_requirement(&mut a, 1, &requirement, AT.to_string()).topic_id, "S1");
    let behavior = CreateUserBehaviorRequest {
        description: "does".to_string(),
        member_topic: "N10".to_string(),
        author: Author::User(2),
    };
    assert_eq!(create_user_behavior(&mut a, 2, &behavior, AT.to_string()).topic_id, "S2");
    let feature = CreateUserFeatureRequest {
        name: "f".to_string(),
        description: "d".to_string(),
        author: Author::User(2),
        requirement_topics: vec!["S1".to_string()],
        behavior_topics: vec!["S2".to_string()],
    };
    assert_eq!(create_user_feature(&mut a, 3, &feature, AT.to_string()).topic_id, "S3");
    let semantic = CreateUserFunctionalSemanticRequest {
        description: "means".to_string(),
        declaration_topic: "N10".to_string(),
        author: Author::User(2),
        documentation_topics: vec![],
    };
    assert_eq!(create_user_functional_semantic(&mut a, 1, &semantic, AT.to_string()).topic_id, "P1");
    assert_eq!(ids(&get_features(&a)), vec!["S3"]);
    assert_eq!(get_feature_requirements(&a, "S3").unwrap(), vec!["S1"]);
    let own = a.topic_context.get(&new_spec_topic(1)).unwrap();
    assert_eq!(own.len(), 1);
    assert_eq!(*own[0].scope(), new_spec_topic(1));
    assert_eq!(own[0].sort_key(), Some(1));
    assert_eq!(own[0].scope_references().len(), 1);
    assert_eq!(*own[0].scope_references()[0].reference_topic(), new_spec_topic(3));
    assert_eq!(own[0].scope_references()[0].sort_key(), Some(3));
    assert_eq!(a.section_requirements.get(&new_documentation_topic(1)), Some(&vec![new_spec_topic(1)]));
    assert_eq!(a.member_behaviors.get(&n(10)), Some(&vec![new_spec_topic(2)]));
    let found = get_functional_semantics(&a, "N10");
    assert_eq!(found.len(), 1);
    assert_eq!(found[0].topic_id, "N10");
    assert_eq!(found[0].property_type, "functional_semantics");
    assert_eq!(found[0].value, "means");
    assert_eq!(found[0].author, Author::User(2));
    assert_eq!(id_of(&get_functional_semantic(&a, "P1").unwrap()), "P1");
    assert_eq!(get_feature(&a, "S1").unwrap_err(), Status::NotFound);
    let f = NamedTopicKind::Function(FunctionKind::Function);
    a.topic_metadata.insert(n(10), named(n(10), "f", f, Scope::Global));
    let ask = |t: Option<&str>| {
        let query = GetRequirementsQuery { for_topic: t.map(|s| s.to_string()) };
        ids(&get_requirements(&a, &query))
    };
    assert_eq!(ask(None), vec!["S1"]);
    assert_eq!(ask(Some("S1")), vec!["S1"]);
    assert_eq!(ask(Some("S3")), vec!["S1"]);
    assert_eq!(ask(Some("N10")), vec!["S1"]);
    assert_eq!(ask(Some("D1")), vec!["S1"]);
    assert_eq!(ask(Some("D7")), vec!["S1"]);
    assert!(ask(Some("D8")).is_empty());
}

#[test]
fn threats_take_the_highest_severity_of_their_links() {
    let mut a = audit();
    let t = new_adversarial_property_topic(4);
    create_threat(&mut a, threat_row(4));
    assert_eq!(inherited_severity(&a, &t), Ok(None));
    let low = requested_link(&link("A4", "S1", "is_vulnerable_to", "low")).unwrap();
    let high = requested_link(&link("A4", "S2", "defends_against", "high")).unwrap();
    let made = create_threat_feature_link(&mut a, low);
    assert_eq!(made.threat_topic, "A4");
    assert_eq!(made.feature_topic, "S1");
    assert_eq!(made.relation, "is_vulnerable_to");
    assert_eq!(made.severity, "low");
    create_threat_feature_link(&mut a, high);
    create_threat_feature_link(&mut a, low);
    assert_eq!(a.threat_feature_links.len(), 2);
    assert_eq!(inherited_severity(&a, &t), Ok(Some(ThreatSeverity::High)));
    delete_threat_feature_link(&mut a, t, new_spec_topic(2));
    assert_eq!(inherited_severity(&a, &t), Ok(Some(ThreatSeverity::Low)));
    delete_threat_feature_link(&mut a, t, new_spec_topic(1));
    assert_eq!(inherited_severity(&a, &t), Ok(None));
    assert_eq!(inherited_severity(&a, &n(5)), Err(Status::NotFound));
}

#[test]
fn links_must_be_valid_in_every_part() {
    for bad in [
        link("S4", "S1", "is_vulnerable_to", "low"),
        link("A4", "A1", "is_vulnerable_to", "low"),
        link("A4", "S1", "likes", "low"),
        link("A4", "S1", "is_vulnerable_to", "huge"),
        link("", "S1", "is_vulnerable_to", "low"),
    ] {
        assert_eq!(requested_link(&bad), Err(Status::BadRequest));
    }
}

#[test]
fn invariants_come_and_go_with_their_threat() {
    let mut a = audit();
    let t = new_adversarial_property_topic(4);
    let i = new_adversarial_property_topic(6);
    assert_eq!(
        create_invariant(&mut a, invariant_row(6, t, None)).unwrap_err(),
        Status::NotFound
    );
    let response = create_threat(&mut a, threat_row(4));
    match response {
        TopicMetadataResponse::Threat(r) => {
            assert_eq!(r.topic_id, "A4");
            assert_eq!(r.subject_topic, "N5");
            assert_eq!(r.created_at, Some(AT.to_string()));
            assert_eq!(r.severity, None);
        }
        other => panic!("no threat: {:?}", other),
    }
    let made = create_invariant(&mut a, invariant_row(6, t, Some(ThreatSeverity::Medium))).unwrap();
    match made {
        TopicMetadataResponse::Invariant(r) => {
            assert_eq!(r.threat_topic, "A4");
            assert_eq!(r.severity, Some("medium".to_string()));
        }
        other => panic!("no invariant: {:?}", other),
    }
    assert_eq!(get_threat_invariants(&a, "A4").unwrap(), vec!["A6"]);
    assert!(get_threat(&a, "A4").is_ok());
    assert_eq!(get_threat(&a, "A6").unwrap_err(), Status::NotFound);
    assert!(get_invariant(&a, "A6").is_ok());
    assert!(add_invariant_source_topic(&mut a, i, n(7)).is_ok());
    assert!(add_invariant_source_topic(&mut a, i, n(7)).is_ok());
    assert_eq!(a.invariants.get(&i).unwrap().source_topics, vec![n(7)]);
    assert!(remove_invariant_source_topic(&mut a, i, n(7)).is_ok());
    assert!(a.invariants.get(&i).unwrap().source_topics.is_empty());
    assert_eq!(add_invariant_source_topic(&mut a, t, n(7)).unwrap_err(), Status::NotFound);
    assert_eq!(remove_invariant_source_topic(&mut a, t, n(7)).unwrap_err(), Status::NotFound);
    delete_invariant(&mut a, t, i);
    assert!(get_threat_invariants(&a, "A4").unwrap().is_empty());
    assert_eq!(get_invariant(&a, "A6").unwrap_err(), Status::NotFound);
    create_invariant(&mut a, invariant_row(6, t, None)).unwrap();
    delete_threat(&mut a, t);
    assert!(!a.topic_metadata.contains_key(&t));
    assert!(!a.topic_metadata.contains_key(&i));
    assert!(a.invariants.is_empty());
    assert!(a.threats.is_empty());
}

#[test]
fn answers_in_a_round_have_no_thread() {
    let mut a = audit();
    let c = new_comment_topic;
    add_comment(&mut a, 1, n(5));
    add_comment(&mut a, 2, c(1));
    assert_eq!(invalidated_threads(&a, c(2)).unwrap(), vec!["C2", "C1"]);
    assert!(invalidated_threads(&a, n(5)).unwrap().is_empty());
    add_comment(&mut a, 1, c(2));
    assert!(invalidated_threads(&a, c(2)).is_none());
}

fn condition_row(id: i64) -> ConditionRow {
    ConditionRow {
        id,
        subject_topic: "N1".to_string(),
        condition_type: "state_read".to_string(),
        description: format!("condition {}", id),
        author: Author::System,
        created_at: "2024-01-01 00:00:00".to_string(),
    }
}

#[test]
fn conditions_of_a_subject_keep_their_order() {
    let asked = ConditionEvaluation { question: "q".to_string(), answer: "a".to_string() };
    let r = get_subject_conditions(vec![(condition_row(7), vec![asked]), (condition_row(3), vec![])]);
    assert_eq!(r.len(), 2);
    assert_eq!(r[0].id, 7);
    assert_eq!(r[0].description, "condition 7");
    assert_eq!(r[0].evaluations[0].answer, "a");
    assert_eq!(r[1].id, 3);
    assert!(r[1].evaluations.is_empty());
}

#[test]
fn deleting_a_condition_needs_its_audit() {
    let mut ctx = new_data_context();
    let rows = vec![condition_row(4)];
    assert_eq!(delete_condition(&ctx, "a", &rows, 4), Err(Status::NotFound));
    assert_eq!(delete_condition(&ctx, "a", &rows, 5), Ok(Status::NoContent));
    ctx.create_audit("a".to_string(), "A".to_string(), OrderedMap::new(), None);
    assert_eq!(delete_condition(&ctx, "a", &rows, 4), Ok(Status::NoContent));
}

#[test]
fn conditions_need_a_known_type() {
    let mut q = CreateConditionRequest {
        subject_topic: "N5".to_string(),
        condition_type: "state_read".to_string(),
        description: "d".to_string(),
        author: Author::System,
        evaluations: vec![ConditionEvaluationInput {
            question: "q".to_string(),
            answer: "a".to_string(),
        }],
    };
    let c = requested_condition(&q).unwrap();
    assert_eq!(c.subject_topic, n(5));
    assert_eq!(c.condition_type, NonPureSubjectType::StateRead);
    assert_eq!(c.evaluations[0].question, "q");
    let row = ConditionRow {
        id: 3,
        subject_topic: "N5".to_string(),
        condition_type: "state_read".to_string(),
        description: "d".to_string(),
        author: Author::System,
        created_at: AT.to_string(),
    };
    let response = condition_response(row, &c.evaluations);
    assert_eq!(response.id, 3);
    assert_eq!(response.evaluations[0].answer, "a");
    let mut a = audit();
    create_condition(&mut a, c);
    assert_eq!(a.conditions.len(), 1);
    q.condition_type = "read".to_string();
    assert_eq!(requested_condition(&q).unwrap_err(), Status::BadRequest);
}

#[test]
fn comment_requests_name_known_types_and_statuses() {
    assert_eq!(
        requested_comments("todo", "resolved"),
        Ok((CommentType::Todo, CommentStatus::Resolved))
    );
    assert_eq!(requested_comments("todo", "done"), Err(Status::BadRequest));
    assert_eq!(requested_comments("rant", "active"), Err(Status::BadRequest));
    assert_eq!(requested_comment("C3"), Ok(new_comment_topic(3)));
    assert_eq!(requested_comment("N3"), Err(Status::BadRequest));
    for s in [
        CommentStatus::Active,
        CommentStatus::Hidden,
        CommentStatus::Resolved,
        CommentStatus::Unanswered,
        CommentStatus::Answered,
        CommentStatus::Unconfirmed,
        CommentStatus::Confirmed,
        CommentStatus::Rejected,
    ] {
        assert_eq!(CommentStatus::parse_str(s.as_str()), Some(s));
    }
}

#[test]
fn hidden_comments_leave_the_index() {
    let mut a = audit();
    add_comment(&mut a, 1, n(5));
    add_comment(&mut a, 2, n(5));
    let (one, two) = (new_comment_topic(1), new_comment_topic(2));
    update_comment_status(&mut a, one, CommentStatus::Active);
    update_comment_status(&mut a, two, CommentStatus::Active);
    update_comment_status(&mut a, one, CommentStatus::Resolved);
    assert_eq!(a.comment_index.get(&n(5)), Some(&vec![one, two]));
    update_comment_status(&mut a, one, CommentStatus::Hidden);
    assert_eq!(a.comment_index.get(&n(5)), Some(&vec![two]));
    update_comment_status(&mut a, one, CommentStatus::Active);
    assert_eq!(a.comment_index.get(&n(5)), Some(&vec![two, one]));
    update_comment_status(&mut a, new_comment_topic(9), CommentStatus::Active);
    assert_eq!(a.comment_index.len(), 1);
}

#[test]
fn new_comments_are_told_to_all_they_concern() {
    let mut a = audit();
    add_comment(&mut a, 1, n(5));
    add_comment(&mut a, 2, new_comment_topic(1));
    let events = create_comment(&a, "x", "C2", "C3", &vec![n(7), new_comment_topic(2), n(7)]).unwrap();
    assert_eq!(events.len(), 2);
    match &events[0] {
        AuditEvent::TopicUpdated { audit_id, topic_id, comment_topic_id, invalidated_thread_ids } => {
            assert_eq!(audit_id, "x");
            assert_eq!(topic_id, "C2");
            assert_eq!(comment_topic_id, "C3");
            assert_eq!(*invalidated_thread_ids, vec!["C2", "C1"]);
        }
        other => panic!("not a topic: {:?}", other),
    }
    match &events[1] {
        AuditEvent::TopicUpdated { topic_id, invalidated_thread_ids, .. } => {
            assert_eq!(topic_id, "N7");
            assert!(invalidated_thread_ids.is_empty());
        }
        other => panic!("not a topic: {:?}", other),
    }
    assert!(events[0].is_for_audit("x"));
    assert!(!events[0].is_for_audit("y"));
    let on_code = create_comment(&a, "x", "N5", "C3", &vec![]).unwrap();
    assert_eq!(on_code.len(), 1);
    add_comment(&mut a, 1, new_comment_topic(2));
    assert!(create_comment(&a, "x", "C2", "C3", &vec![]).is_none());
    assert_eq!(affected_topics("N05", &vec![n(5)]), vec!["N05", "N5"]);
    assert!(comment_events("x", "C1", &vec![], &vec![]).is_empty());
}

#[test]
fn comments_take_the_scope_of_what_they_are_on() {
    let mut a = audit();
    let scope = Scope::Component { container: path("a.sol"), component: n(1) };
    a.topic_metadata.insert(n(9), named(n(9), "x", NamedTopicKind::Event, scope));
    assert!(matches!(
        scope_for_comment(&a, &n(9)),
        Scope::Component { component: Topic::Node(1), .. }
    ));
    assert!(matches!(scope_for_comment(&a, &n(99)), Scope::Global));
}

#[test]
fn votes_are_summed_up() {
    let info = VoteInfo { score: 1, upvotes: 3, downvotes: 2, user_vote: Some(-1) };
    let c = new_comment_topic(8);
    let summary = get_vote_summary(&c, info);
    assert_eq!(summary.comment_id, 8);
    assert_eq!(summary.comment_topic_id, "C8");
    assert_eq!(summary.score, 1);
    assert_eq!(summary.user_vote, Some(-1));
    match cast_vote("x", &c, info) {
        AuditEvent::VoteUpdated { comment_topic_id, upvotes, downvotes, .. } => {
            assert_eq!(comment_topic_id, "C8");
            assert_eq!((upvotes, downvotes), (3, 2));
        }
        other => panic!("not a vote: {:?}", other),
    }
    assert_eq!(get_unvoted_comment_ids(&vec![1, 20]), vec!["C1", "C20"]);
}

#[test]
fn all_kinds_of_topics_get_their_response() {
    let mut a = audit();
    add_comment(&mut a, 1, n(5));
    let p = new_functional_property_topic;
    a.topic_metadata.insert(
        p(1),
        TopicMetadata::FunctionalPurposeTopic {
            topic: p(1),
            description: "why".to_string(),
            subject_topic: n(5),
            author: Author::System,
            created_at: None,
        },
    );
    a.topic_metadata.insert(
        p(2),
        TopicMetadata::PlacementRationaleTopic {
            topic: p(2),
            description: "where".to_string(),
            subject_topic: n(5),
            author: Author::System,
            created_at: None,
        },
    );
    rebuild_feature_context(&mut a);
    match get_metadata(&a, "C1").unwrap() {
        TopicMetadataResponse::CommentTopic(r) => {
            assert_eq!(r.comment_type, "question");
            assert_eq!(r.target_topic, "N5");
            assert_eq!(r.created_at, AT);
            assert_eq!(r.mentioned_topics, vec!["N8"]);
            assert_eq!(r.author, Author::User(1));
        }
        other => panic!("no comment: {:?}", other),
    }
    assert!(matches!(get_metadata(&a, "P1").unwrap(), TopicMetadataResponse::Purpose(_)));
    assert_eq!(get_functional_semantic(&a, "P1").unwrap_err(), Status::NotFound);
    assert!(matches!(get_metadata(&a, "P2").unwrap(), TopicMetadataResponse::Placement(_)));
    assert_eq!(a.subject_purposes.get(&n(5)), Some(&p(1)));
    assert_eq!(a.subject_placements.get(&n(5)), Some(&p(2)));
}
