use o11a_core::domain::topic::{new_adversarial_property_topic, new_documentation_topic};
use o11a_core::domain::topic::{new_spec_topic, Topic};
use o11a_core::domain::{new_audit_data, AuditData, Author, Requirement, ThreatFeatureLink};
use o11a_core::domain::{ThreatFeatureRelation, ThreatSeverity, TopicMetadata};
use o11a_core::ids::{allocate_adversarial_property_id, allocate_functional_property_id};
use o11a_core::ids::{allocate_spec_id, reseed_adversarial_property_id};
use o11a_core::ids::{reseed_functional_property_id, reseed_spec_id, IdCounters};
use o11a_core::ordered::OrderedMap;
use o11a_core::report::apply::reseed_ids;
use o11a_core::report::{apply_report, build_report, can_apply, ApplyReportError, AuditMetadata};
use o11a_core::report::{AuditReport, GeneratorInfo, PipelineOutput, ReportBehavior};
use o11a_core::report::{ReportCharacteristic, ReportFeature, ReportFunctionalSemantic};
use o11a_core::report::{ReportInvariant, ReportRequirement, ReportThreat, SCHEMA_VERSION};

fn empty_audit() -> AuditData {
    new_audit_data("test".to_string(), OrderedMap::new(), None)
}

fn report_with_pipeline(pipeline: PipelineOutput) -> AuditReport {
    AuditReport {
        schema_version: SCHEMA_VERSION,
        generator: GeneratorInfo {
            name: "test".to_string(),
            version: "0".to_string(),
        },
        generated_at: "2026-05-12T00:00:00Z".to_string(),
        audit: AuditMetadata {
            id: "audit-1".to_string(),
            name: "Test".to_string(),
            in_scope_files: vec![],
            security_notes: None,
        },
        pipeline,
    }
}

fn empty_pipeline() -> PipelineOutput {
    PipelineOutput {
        features: vec![],
        requirements: vec![],
        behaviors: vec![],
        characteristics: vec![],
        functional_semantics: vec![],
        functional_purposes: vec![],
        placement_rationales: vec![],
        conditions: vec![],
        threats: vec![],
        invariants: vec![],
        validations: vec![],
        threat_feature_links: vec![],
        feature_requirement_links: vec![],
        feature_behavior_links: vec![],
    }
}

#[test]
fn apply_report_reseeds_spec_counter_past_highest_pipeline_topic() {
    let mut ids = IdCounters::new();

    reseed_spec_id(&mut ids, 0);

    let mut pipeline = empty_pipeline();
    pipeline.features.push(ReportFeature {
        topic: "S3".to_string(),
        name: "f3".to_string(),
        description: "f3 desc".to_string(),
    });
    pipeline.requirements.push(ReportRequirement {
        topic: "S7".to_string(),
        description: "r7".to_string(),
        section_topic: "D1".to_string(),
        documentation_topics: vec!["D1".to_string()],
    });
    pipeline.behaviors.push(ReportBehavior {
        topic: "S11".to_string(),
        description: "b11".to_string(),
        member_topic: "N1".to_string(),
    });
    pipeline.characteristics.push(ReportCharacteristic {
        topic: "S42".to_string(),
        description: "security claim".to_string(),
        kind: o11a_core::domain::SystemCharacteristicKind::Security,
        section_topic: Some("D1".to_string()),
        documentation_topics: vec!["D1".to_string()],
    });

    let mut audit = empty_audit();
    apply_report("audit-1", &mut audit, &report_with_pipeline(pipeline), &mut ids)
        .expect("apply_report");

    let next = allocate_spec_id(&mut ids);
    assert_eq!(
        next, 43,
        "spec counter must reseed past max pipeline spec id"
    );
}

#[test]
fn apply_report_with_no_spec_topics_reseeds_counter_to_one() {
    let mut ids = IdCounters::new();

    reseed_spec_id(&mut ids, 0);
    let mut audit = empty_audit();
    apply_report(
        "audit-1",
        &mut audit,
        &report_with_pipeline(empty_pipeline()),
        &mut ids,
    )
    .expect("apply_report");

    assert_eq!(allocate_spec_id(&mut ids), 1);
}

#[test]
fn apply_report_reseeds_functional_property_counter_past_pipeline_semantic() {
    let mut ids = IdCounters::new();

    reseed_functional_property_id(&mut ids, 0);

    let mut pipeline = empty_pipeline();
    pipeline
        .functional_semantics
        .push(ReportFunctionalSemantic {
            topic: "P57".to_string(),
            description: "what this declaration means".to_string(),
            declaration_topic: "N9".to_string(),
            documentation_topics: vec!["D2".to_string()],
            match_source: None,
        });

    let mut audit = empty_audit();
    apply_report("audit-1", &mut audit, &report_with_pipeline(pipeline), &mut ids)
        .expect("apply_report");

    let next = allocate_functional_property_id(&mut ids);
    assert_eq!(
        next, 58,
        "functional-property counter must reseed past max pipeline P-id"
    );
}

#[test]
fn apply_report_reseeds_adversarial_property_counter_past_report_topic() {
    let mut ids = IdCounters::new();

    reseed_adversarial_property_id(&mut ids, 0);

    let mut pipeline = empty_pipeline();
    pipeline.invariants.push(ReportInvariant {
        topic: "A73".to_string(),
        description: "every privileged setter checks ownership".to_string(),
        threat_topic: "A5".to_string(),
        subject_topic: "N10".to_string(),
        kind: o11a_core::domain::InvariantKind::AccessGate,
        anchors: vec![],
        severity: None,
    });
    pipeline.threats.push(ReportThreat {
        topic: "A5".to_string(),
        description: "unauthorized access".to_string(),
        subject_topic: "N10".to_string(),
        falsifies_condition: "A3".to_string(),
        controlled_by: o11a_core::domain::ThreatActor::Caller,
        evidence_topics: vec![],
        severity: None,
    });

    let mut audit = empty_audit();
    apply_report("audit-1", &mut audit, &report_with_pipeline(pipeline), &mut ids)
        .expect("apply_report");

    let next = allocate_adversarial_property_id(&mut ids);
    assert_eq!(
        next, 74,
        "adversarial-property counter must reseed past max A-id in report"
    );
}

#[test]
fn apply_report_with_no_p_or_a_topics_reseeds_counters_to_one() {
    let mut ids = IdCounters::new();

    reseed_functional_property_id(&mut ids, 0);
    reseed_adversarial_property_id(&mut ids, 0);
    let mut audit = empty_audit();
    apply_report(
        "audit-1",
        &mut audit,
        &report_with_pipeline(empty_pipeline()),
        &mut ids,
    )
    .expect("apply_report");

    assert_eq!(allocate_functional_property_id(&mut ids), 1);
    assert_eq!(allocate_adversarial_property_id(&mut ids), 1);
}

fn feature(audit: &mut AuditData, n: i32, name: &str) {
    let t = new_spec_topic(n);
    audit.topic_metadata.insert(
        t,
        TopicMetadata::FeatureTopic {
            topic: t,
            name: name.to_string(),
            description: format!("{} desc", name),
            author: Author::User(7),
            created_at: Some("2026-01-01T00:00:00Z".to_string()),
        },
    );
}

fn requirement(audit: &mut AuditData, n: i32, docs: Vec<Topic>) {
    let t = new_spec_topic(n);
    audit.requirements.insert(t, Requirement { documentation_topics: docs });
    audit.topic_metadata.insert(
        t,
        TopicMetadata::RequirementTopic {
            topic: t,
            description: format!("r{}", n),
            section_topic: new_documentation_topic(1),
            author: Author::System,
            created_at: None,
        },
    );
}

fn filled_audit() -> AuditData {
    let mut audit = empty_audit();
    feature(&mut audit, 10, "ten");
    feature(&mut audit, 9, "nine");
    requirement(&mut audit, 11, vec![new_documentation_topic(5), new_documentation_topic(2)]);
    audit.feature_requirement_links.insert(
        new_spec_topic(9),
        vec![new_spec_topic(11), new_spec_topic(10), new_spec_topic(2)],
    );
    audit.feature_requirement_links.insert(new_spec_topic(10), vec![]);
    audit.threat_feature_links.push(ThreatFeatureLink {
        threat_topic: new_adversarial_property_topic(2),
        feature_topic: new_spec_topic(9),
        relation: ThreatFeatureRelation::IsVulnerableTo,
        severity: ThreatSeverity::High,
    });
    audit.threat_feature_links.push(ThreatFeatureLink {
        threat_topic: new_adversarial_property_topic(10),
        feature_topic: new_spec_topic(9),
        relation: ThreatFeatureRelation::DefendsAgainst,
        severity: ThreatSeverity::Low,
    });
    audit
}

#[test]
fn report_rows_stand_in_the_order_of_their_ids() {
    let report = build_report("audit-1", &filled_audit(), "now".to_string());
    assert_eq!(report.schema_version, 4);
    assert_eq!(report.generator.name, "o11a-analyze");
    assert_eq!(report.generated_at, "now");
    assert_eq!(report.audit.id, "audit-1");
    assert_eq!(report.audit.name, "test");
    let ids: Vec<&str> = report.pipeline.features.iter().map(|f| f.topic.as_str()).collect();
    assert_eq!(ids, vec!["S10", "S9"]);
    assert_eq!(report.pipeline.requirements[0].documentation_topics, vec!["D5", "D2"]);
    let links: Vec<(&str, &str)> = report
        .pipeline
        .feature_requirement_links
        .iter()
        .map(|l| (l.feature_topic.as_str(), l.topic.as_str()))
        .collect();
    assert_eq!(links, vec![("S9", "S10"), ("S9", "S11"), ("S9", "S2")]);
    let threats: Vec<&str> =
        report.pipeline.threat_feature_links.iter().map(|l| l.threat_topic.as_str()).collect();
    assert_eq!(threats, vec!["A10", "A2"]);
}

#[test]
fn installed_report_gives_back_what_was_reported() {
    let source = filled_audit();
    let report = build_report("audit-1", &source, "now".to_string());
    let mut target = empty_audit();
    feature(&mut target, 99, "stale");
    let mut ids = IdCounters::new();
    assert!(can_apply(&target, &report));
    apply_report("audit-1", &mut target, &report, &mut ids).unwrap();
    assert!(!target.topic_metadata.contains_key(&new_spec_topic(99)));
    match target.topic_metadata.get(&new_spec_topic(10)) {
        Some(TopicMetadata::FeatureTopic { name, description, author, created_at, .. }) => {
            assert_eq!(name, "ten");
            assert_eq!(description, "ten desc");
            assert_eq!(*author, Author::System);
            assert!(created_at.is_none());
        }
        other => panic!("no feature: {:?}", other),
    }
    assert_eq!(
        target.requirements.get(&new_spec_topic(11)).unwrap().documentation_topics,
        vec![new_documentation_topic(5), new_documentation_topic(2)]
    );
    assert_eq!(
        target.feature_requirement_links.get(&new_spec_topic(9)),
        Some(&vec![new_spec_topic(10), new_spec_topic(11), new_spec_topic(2)])
    );
    assert!(!target.feature_requirement_links.contains_key(&new_spec_topic(10)));
    assert_eq!(target.threat_feature_links.len(), 2);
    assert_eq!(target.threat_feature_links[0].severity, ThreatSeverity::Low);
    assert_eq!(allocate_spec_id(&mut ids), 12);
    assert_eq!(target.topic_metadata.len(), 6);
    let again = build_report("audit-1", &target, "now".to_string());
    assert_eq!(format!("{:?}", again), format!("{:?}", report));
    apply_report("audit-1", &mut target, &report, &mut ids).unwrap();
    assert_eq!(target.topic_metadata.len(), 6);
}

#[test]
fn numbers_go_on_after_those_in_use() {
    let mut audit = filled_audit();
    let mut ids = IdCounters::new();
    assert!(reseed_ids(&audit, &mut ids));
    assert_eq!(allocate_spec_id(&mut ids), 12);
    assert_eq!(allocate_functional_property_id(&mut ids), 1);
    feature(&mut audit, i32::MAX, "last");
    assert!(!reseed_ids(&audit, &mut ids));
    assert_eq!(allocate_spec_id(&mut ids), 13);
}

#[test]
fn reports_for_something_else_change_nothing() {
    let mut audit = filled_audit();
    let mut ids = IdCounters::new();
    let mut report = report_with_pipeline(empty_pipeline());
    report.schema_version = 5;
    report.audit.id = "other".to_string();
    let e = apply_report("audit-1", &mut audit, &report, &mut ids).unwrap_err();
    assert!(matches!(
        e,
        ApplyReportError::UnsupportedSchemaVersion { found: 5, supported: SCHEMA_VERSION }
    ));
    assert_eq!(e.message(), "unsupported schema_version 5 (this build supports 4)");
    report.schema_version = SCHEMA_VERSION;
    let e = apply_report("audit-1", &mut audit, &report, &mut ids).unwrap_err();
    assert!(matches!(e, ApplyReportError::AuditIdMismatch { .. }));
    assert_eq!(
        e.message(),
        "audit id mismatch: report is for 'other', but target is 'audit-1'"
    );
    assert_eq!(audit.topic_metadata.len(), 6);
    assert_eq!(ids, IdCounters::new());
}

#[test]
fn reports_with_bad_ids_cannot_be_installed() {
    let audit = empty_audit();
    let mut pipeline = empty_pipeline();
    pipeline.behaviors.push(ReportBehavior {
        topic: "S1".to_string(),
        description: String::new(),
        member_topic: "nowhere".to_string(),
    });
    assert!(!can_apply(&audit, &report_with_pipeline(pipeline)));
    let mut pipeline = empty_pipeline();
    pipeline.features.push(ReportFeature {
        topic: "S2147483647".to_string(),
        name: String::new(),
        description: String::new(),
    });
    assert!(!can_apply(&audit, &report_with_pipeline(pipeline)));
    assert!(can_apply(&audit, &report_with_pipeline(empty_pipeline())));
}
