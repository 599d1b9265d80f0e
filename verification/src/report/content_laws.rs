//! What a report says of an audit, and what an audit has after a report was
//! installed, in terms of what the audit records.
use crate::domain::audit::{entries, AuditData, ThreatFeatureLink};
use crate::domain::index::{index_lists, lemma_index_list, lemma_mapped, list_for};
use crate::domain::metadata::MetadataView;
use crate::domain::topic::{topic_text, topic_text_injective, Topic};
use crate::ordered::{ascending, has_key, index_of, lemma_index_of, lookup};
use crate::report::apply::{characteristic_map, has_applied, known, requirement_map};
use crate::report::export::{index_pairs, is_report, link_rows, pair_order, pair_texts};
use crate::report::export::{pipeline_of, threat_link_order, threat_link_row, AuditReport};
use crate::report::export::ThreatLinkView;
use crate::report::laws::{by_id, by_threat_link, characteristic_documentation_comes_back};
use crate::report::laws::{installing_gives_back_what_was_reported, is_keyed, lemma_pair_order};
use crate::report::laws::{lemma_threat_link_order, links_come_back_sorted, produced};
use crate::report::laws::{requirement_documentation_comes_back, rows_are_those_of_the_topics};
use crate::report::laws::threat_links_come_back_sorted;
use crate::report::rows::{as_reported, id_texts, opt_id, ReportBehavior, ReportBehaviorView};
use crate::report::rows::{ReportCharacteristic, ReportCharacteristicView, ReportCondition};
use crate::report::rows::{ReportConditionView, ReportFeature, ReportFeatureView};
use crate::report::rows::{ReportFunctionalPurpose, ReportFunctionalPurposeView};
use crate::report::rows::{ReportFunctionalSemantic, ReportFunctionalSemanticView};
use crate::report::rows::{ReportInvariant, ReportInvariantView, ReportPlacementRationale};
use crate::report::rows::{ReportPlacementRationaleView, ReportRequirement, ReportRequirementView};
use crate::report::rows::{ReportRow, ReportThreat, ReportThreatView, ReportValidation};
use crate::report::rows::ReportValidationView;
use crate::resolution_graph::links::lemma_joined_holds;
use crate::sorting::{is_preorder, sorted_by_is_sorted};
use crate::text::texts;
use vstd::prelude::*;

verus! {

/// The topic is one that analysis produces.
pub open spec fn is_produced(m: MetadataView) -> bool {
    ||| m is FeatureTopic
    ||| m is RequirementTopic
    ||| m is BehaviorTopic
    ||| m is CharacteristicTopic
    ||| m is FunctionalSemanticTopic
    ||| m is FunctionalPurposeTopic
    ||| m is PlacementRationaleTopic
    ||| m is ConditionTopic
    ||| m is ThreatTopic
    ||| m is InvariantTopic
    ||| m is ValidationTopic
}

/// The topic that the metadata is of, for topics that analysis produces.
pub open spec fn topic_in(m: MetadataView) -> Topic {
    match m {
        MetadataView::FeatureTopic { topic, .. } => topic,
        MetadataView::RequirementTopic { topic, .. } => topic,
        MetadataView::BehaviorTopic { topic, .. } => topic,
        MetadataView::CharacteristicTopic { topic, .. } => topic,
        MetadataView::FunctionalSemanticTopic { topic, .. } => topic,
        MetadataView::FunctionalPurposeTopic { topic, .. } => topic,
        MetadataView::PlacementRationaleTopic { topic, .. } => topic,
        MetadataView::ConditionTopic { topic, .. } => topic,
        MetadataView::ThreatTopic { topic, .. } => topic,
        MetadataView::InvariantTopic { topic, .. } => topic,
        MetadataView::ValidationTopic { topic, .. } => topic,
        _ => Topic::Node(0),
    }
}

/// Both are of one kind and say the same, except who wrote them and when.
pub open spec fn same_but_origin(m: MetadataView, n: MetadataView) -> bool {
    match (m, n) {

        (
            MetadataView::FeatureTopic { topic: x_topic, name: x_name, description: x_description, .. },
            MetadataView::FeatureTopic { topic: y_topic, name: y_name, description: y_description, .. },
        ) => {
            &&& x_topic == y_topic
            &&& x_name == y_name
            &&& x_description == y_description
        },
        (
            MetadataView::RequirementTopic { topic: x_topic, description: x_description, section_topic: x_section_topic, .. },
            MetadataView::RequirementTopic { topic: y_topic, description: y_description, section_topic: y_section_topic, .. },
        ) => {
            &&& x_topic == y_topic
            &&& x_description == y_description
            &&& x_section_topic == y_section_topic
        },
        (
            MetadataView::BehaviorTopic { topic: x_topic, description: x_description, member_topic: x_member_topic, .. },
            MetadataView::BehaviorTopic { topic: y_topic, description: y_description, member_topic: y_member_topic, .. },
        ) => {
            &&& x_topic == y_topic
            &&& x_description == y_description
            &&& x_member_topic == y_member_topic
        },
        (
            MetadataView::CharacteristicTopic { topic: x_topic, description: x_description, kind: x_kind, section_topic: x_section_topic, .. },
            MetadataView::CharacteristicTopic { topic: y_topic, description: y_description, kind: y_kind, section_topic: y_section_topic, .. },
        ) => {
            &&& x_topic == y_topic
            &&& x_description == y_description
            &&& x_kind == y_kind
            &&& x_section_topic == y_section_topic
        },
        (
            MetadataView::FunctionalSemanticTopic { topic: x_topic, description: x_description, declaration_topic: x_declaration_topic, documentation_topics: x_documentation_topics, match_source: x_match_source, .. },
            MetadataView::FunctionalSemanticTopic { topic: y_topic, description: y_description, declaration_topic: y_declaration_topic, documentation_topics: y_documentation_topics, match_source: y_match_source, .. },
        ) => {
            &&& x_topic == y_topic
            &&& x_description == y_description
            &&& x_declaration_topic == y_declaration_topic
            &&& x_documentation_topics == y_documentation_topics
            &&& x_match_source == y_match_source
        },
        (
            MetadataView::FunctionalPurposeTopic { topic: x_topic, description: x_description, subject_topic: x_subject_topic, .. },
            MetadataView::FunctionalPurposeTopic { topic: y_topic, description: y_description, subject_topic: y_subject_topic, .. },
        ) => {
            &&& x_topic == y_topic
            &&& x_description == y_description
            &&& x_subject_topic == y_subject_topic
        },
        (
            MetadataView::PlacementRationaleTopic { topic: x_topic, description: x_description, subject_topic: x_subject_topic, .. },
            MetadataView::PlacementRationaleTopic { topic: y_topic, description: y_description, subject_topic: y_subject_topic, .. },
        ) => {
            &&& x_topic == y_topic
            &&& x_description == y_description
            &&& x_subject_topic == y_subject_topic
        },
        (
            MetadataView::ConditionTopic { topic: x_topic, description: x_description, subject_topic: x_subject_topic, kind: x_kind, evidence_topics: x_evidence_topics, .. },
            MetadataView::ConditionTopic { topic: y_topic, description: y_description, subject_topic: y_subject_topic, kind: y_kind, evidence_topics: y_evidence_topics, .. },
        ) => {
            &&& x_topic == y_topic
            &&& x_description == y_description
            &&& x_subject_topic == y_subject_topic
            &&& x_kind == y_kind
            &&& x_evidence_topics == y_evidence_topics
        },
        (
            MetadataView::ThreatTopic { topic: x_topic, description: x_description, subject_topic: x_subject_topic, falsifies_condition: x_falsifies_condition, controlled_by: x_controlled_by, evidence_topics: x_evidence_topics, severity: x_severity, .. },
            MetadataView::ThreatTopic { topic: y_topic, description: y_description, subject_topic: y_subject_topic, falsifies_condition: y_falsifies_condition, controlled_by: y_controlled_by, evidence_topics: y_evidence_topics, severity: y_severity, .. },
        ) => {
            &&& x_topic == y_topic
            &&& x_description == y_description
            &&& x_subject_topic == y_subject_topic
            &&& x_falsifies_condition == y_falsifies_condition
            &&& x_controlled_by == y_controlled_by
            &&& x_evidence_topics == y_evidence_topics
            &&& x_severity == y_severity
        },
        (
            MetadataView::InvariantTopic { topic: x_topic, description: x_description, threat_topic: x_threat_topic, subject_topic: x_subject_topic, kind: x_kind, anchors: x_anchors, severity: x_severity, .. },
            MetadataView::InvariantTopic { topic: y_topic, description: y_description, threat_topic: y_threat_topic, subject_topic: y_subject_topic, kind: y_kind, anchors: y_anchors, severity: y_severity, .. },
        ) => {
            &&& x_topic == y_topic
            &&& x_description == y_description
            &&& x_threat_topic == y_threat_topic
            &&& x_subject_topic == y_subject_topic
            &&& x_kind == y_kind
            &&& x_anchors == y_anchors
            &&& x_severity == y_severity
        },
        (
            MetadataView::ValidationTopic { topic: x_topic, invariant_topic: x_invariant_topic, subject_topic: x_subject_topic, verdict: x_verdict, rationale: x_rationale, evidence_topics: x_evidence_topics, .. },
            MetadataView::ValidationTopic { topic: y_topic, invariant_topic: y_invariant_topic, subject_topic: y_subject_topic, verdict: y_verdict, rationale: y_rationale, evidence_topics: y_evidence_topics, .. },
        ) => {
            &&& x_topic == y_topic
            &&& x_invariant_topic == y_invariant_topic
            &&& x_subject_topic == y_subject_topic
            &&& x_verdict == y_verdict
            &&& x_rationale == y_rationale
            &&& x_evidence_topics == y_evidence_topics
        },
        _ => false,
    }
}

/// Each topic that analysis produced is kept under itself.
pub open spec fn kept_under_themselves(a: &AuditData) -> bool {
    forall|t: Topic| #[trigger]
        a.topic_metadata@.dom().contains(t) && is_produced(a.topic_metadata@[t]@) ==> topic_in(
            a.topic_metadata@[t]@,
        ) == t
}

proof fn lemma_keyed(a: &AuditData)
    requires
        ascending(entries(a)),
        kept_under_themselves(a),
    ensures
        is_keyed(a),
{
    assert forall|i: int|
        0 <= i < entries(a).len() && as_reported((#[trigger] entries(a)[i]).1@) is Some implies (
    as_reported(entries(a)[i].1@)->0).0 == entries(a)[i].0 by {
        let t = entries(a)[i].0;
        lemma_index_of(entries(a), i);
        assert(a.topic_metadata@.dom().contains(t));
        assert(a.topic_metadata@[t] == entries(a)[i].1);
    }
}

/// Installing the report on `a` gives back each topic that analysis produced there,
/// with all that is known of it but who wrote it and when.
pub proof fn topics_come_back(a: &AuditData, c: &AuditData, b: &AuditData, t: Topic)
    requires
        ascending(entries(a)),
        kept_under_themselves(a),
        has_applied(c, pipeline_of(a), b),
        a.topic_metadata@.dom().contains(t),
        is_produced(a.topic_metadata@[t]@),
    ensures
        b.topic_metadata@.dom().contains(t),
        same_but_origin(a.topic_metadata@[t]@, b.topic_metadata@[t]@),
{
    lemma_keyed(a);
    installing_gives_back_what_was_reported(a, known(c.topic_metadata@), t);
    assert(lookup(entries(a), t) == Some(a.topic_metadata@[t]));
    assert(produced(a, t) is Some);
    assert(known(b.topic_metadata@).dom().contains(t));
    assert(known(b.topic_metadata@)[t] == b.topic_metadata@[t]@);
}

/// Installing the report on `a` changes no topic of another kind, and leaves no
/// topic that analysis produced before, except those of `a`.
pub proof fn other_topics_stay(a: &AuditData, c: &AuditData, b: &AuditData, t: Topic)
    requires
        ascending(entries(a)),
        kept_under_themselves(a),
        has_applied(c, pipeline_of(a), b),
        !(a.topic_metadata@.dom().contains(t) && is_produced(a.topic_metadata@[t]@)),
    ensures
        b.topic_metadata@.dom().contains(t) == (c.topic_metadata@.dom().contains(t)
            && !is_produced(c.topic_metadata@[t]@)),
        b.topic_metadata@.dom().contains(t) ==> b.topic_metadata@[t]@ == c.topic_metadata@[t]@,
{
    lemma_keyed(a);
    let base = known(c.topic_metadata@);
    installing_gives_back_what_was_reported(a, base, t);
    assert(produced(a, t) is None);
    assert(known(b.topic_metadata@).dom().contains(t) == b.topic_metadata@.dom().contains(t));
    assert(base.dom().contains(t) == c.topic_metadata@.dom().contains(t));
    if c.topic_metadata@.dom().contains(t) {
        assert(base[t] == c.topic_metadata@[t]@);
    }
    if b.topic_metadata@.dom().contains(t) {
        assert(known(b.topic_metadata@)[t] == b.topic_metadata@[t]@);
    }
}

/// Installing a report changes nothing but the topics, the documentation of
/// requirements and characteristics, and the links.
pub proof fn the_rest_of_the_audit_stays(a: &AuditData, c: &AuditData, b: &AuditData)
    requires
        has_applied(c, pipeline_of(a), b),
    ensures
        *b == (AuditData {
            topic_metadata: b.topic_metadata,
            requirements: b.requirements,
            characteristics: b.characteristics,
            feature_requirement_links: b.feature_requirement_links,
            feature_behavior_links: b.feature_behavior_links,
            threat_feature_links: b.threat_feature_links,
            ..*c
        }),
{
}

/// The documentation of each requirement comes back.
pub proof fn documentation_of_requirements_comes_back(
    a: &AuditData,
    c: &AuditData,
    b: &AuditData,
    t: Topic,
)
    requires
        ascending(entries(a)),
        kept_under_themselves(a),
        has_applied(c, pipeline_of(a), b),
        a.topic_metadata@.dom().contains(t),
        a.topic_metadata@[t]@ is RequirementTopic,
        a.requirements@.dom().contains(t),
    ensures
        b.requirements@.dom().contains(t),
        b.requirements@[t].documentation_topics@ == a.requirements@[t].documentation_topics@,
{
    lemma_keyed(a);
    requirement_documentation_comes_back(a, t);
    assert(lookup(entries(a), t) == Some(a.topic_metadata@[t]));
    assert(requirement_map(b.requirements@).dom().contains(t));
    assert(requirement_map(b.requirements@)[t] == b.requirements@[t].documentation_topics@);
}

/// The documentation of each characteristic comes back.
pub proof fn documentation_of_characteristics_comes_back(
    a: &AuditData,
    c: &AuditData,
    b: &AuditData,
    t: Topic,
)
    requires
        ascending(entries(a)),
        kept_under_themselves(a),
        has_applied(c, pipeline_of(a), b),
        a.topic_metadata@.dom().contains(t),
        a.topic_metadata@[t]@ is CharacteristicTopic,
        a.characteristics@.dom().contains(t),
    ensures
        b.characteristics@.dom().contains(t),
        b.characteristics@[t].documentation_topics@ == a.characteristics@[t].documentation_topics@,
{
    lemma_keyed(a);
    characteristic_documentation_comes_back(a, t);
    assert(lookup(entries(a), t) == Some(a.topic_metadata@[t]));
    assert(characteristic_map(b.characteristics@).dom().contains(t));
    assert(characteristic_map(b.characteristics@)[t] == b.characteristics@[t].documentation_topics@);
}

proof fn lemma_pairs_hold(s: Seq<(Topic, Seq<Topic>)>, f: Topic, x: Topic)
    ensures
        index_pairs(s).contains((f, x)) <==> exists|i: int|
            0 <= i < s.len() && (#[trigger] s[i]).0 == f && s[i].1.contains(x),
    decreases s.len(),
{
    if s.len() > 0 {
        let rest = s.drop_last();
        let n = s.len() - 1;
        let e = s.last();
        let part = e.1.map_values(|t: Topic| (e.0, t));
        lemma_pairs_hold(rest, f, x);
        lemma_joined_holds(index_pairs(rest), part, (f, x));
        if part.contains((f, x)) {
            let k = choose|k: int| 0 <= k < part.len() && part[k] == (f, x);
            assert(e.1[k] == x);
            assert(s[n].0 == f && s[n].1.contains(x));
        }
        if exists|i: int| 0 <= i < rest.len() && (#[trigger] rest[i]).0 == f && rest[i].1.contains(x) {
            let i = choose|i: int|
                0 <= i < rest.len() && (#[trigger] rest[i]).0 == f && rest[i].1.contains(x);
            assert(s[i] == rest[i]);
        }
        if exists|i: int| 0 <= i < s.len() && (#[trigger] s[i]).0 == f && s[i].1.contains(x) {
            let i = choose|i: int|
                0 <= i < s.len() && (#[trigger] s[i]).0 == f && s[i].1.contains(x);
            if i < n {
                assert(rest[i] == s[i]);
            } else {
                let k = choose|k: int| 0 <= k < e.1.len() && e.1[k] == x;
                assert(part[k] == (f, x));
            }
        }
    }
}

/// Under a feature, an index of links lists a topic.
pub open spec fn lists(index: Map<Topic, Vec<Topic>>, f: Topic, x: Topic) -> bool {
    index.dom().contains(f) && index[f]@.contains(x)
}

proof fn lemma_link_rows(s: Seq<(Topic, Vec<Topic>)>, f: Topic, x: Topic)
    requires
        ascending(s),
    ensures
        link_rows(index_lists(s)).contains((topic_text(f), topic_text(x))) == lists(
            crate::ordered::mapping(s),
            f,
            x,
        ),
{
    let l = index_lists(s);
    let pairs = index_pairs(l);
    let texts = pairs.map_values(pair_texts());
    lemma_pair_order();
    sorted_by_is_sorted(texts, pair_order());
    lemma_pairs_hold(l, f, x);
    lemma_mapped::<Topic, Vec<Topic>, Seq<Topic>>(s, |v: Vec<Topic>| v@);
    let p = (topic_text(f), topic_text(x));
    if texts.contains(p) {
        let k = choose|k: int| 0 <= k < texts.len() && texts[k] == p;
        topic_text_injective(pairs[k].0, f);
        topic_text_injective(pairs[k].1, x);
        assert(pairs[k] == (f, x));
    }
    if pairs.contains((f, x)) {
        let k = choose|k: int| 0 <= k < pairs.len() && pairs[k] == (f, x);
        assert(texts[k] == p);
        let i = choose|i: int| 0 <= i < l.len() && (#[trigger] l[i]).0 == f && l[i].1.contains(x);
        assert(l[i] == (s[i].0, s[i].1@));
        lemma_index_of(s, i);
    }
    if lists(crate::ordered::mapping(s), f, x) {
        let i = index_of(s, f);
        assert(has_key(s, f));
        assert(s[i].0@ == f);
        assert(l[i] == (s[i].0, s[i].1@));
    }
}

/// The report has a link between a feature and a behavior exactly where the audit
/// lists the behavior under the feature.
pub proof fn behavior_links_are_reported(a: &AuditData, f: Topic, x: Topic)
    requires
        ascending(a.feature_behavior_links.pairs()),
    ensures
        pipeline_of(a).feature_behavior_links.contains((topic_text(f), topic_text(x))) == lists(
            a.feature_behavior_links@,
            f,
            x,
        ),
{
    lemma_link_rows(a.feature_behavior_links.pairs(), f, x);
}

/// The report has a link between a feature and a requirement exactly where the audit
/// lists the requirement under the feature.
pub proof fn requirement_links_are_reported(a: &AuditData, f: Topic, x: Topic)
    requires
        ascending(a.feature_requirement_links.pairs()),
    ensures
        pipeline_of(a).feature_requirement_links.contains((topic_text(f), topic_text(x))) == lists(
            a.feature_requirement_links@,
            f,
            x,
        ),
{
    lemma_link_rows(a.feature_requirement_links.pairs(), f, x);
}

proof fn lemma_list_of(s: Seq<(Topic, Vec<Topic>)>, f: Topic, x: Topic)
    requires
        ascending(s),
    ensures
        list_for(index_lists(s), f).contains(x) == lists(crate::ordered::mapping(s), f, x),
{
    lemma_index_list(s, f);
}

proof fn lemma_by_id()
    ensures
        is_preorder(by_id()),
{
    let le = by_id();
    assert forall|a: Topic, b: Topic| #[trigger] le(a, b) || le(b, a) by {
        crate::report::export::text_at_most_total(topic_text(a), topic_text(b));
    }
    assert forall|a: Topic, b: Topic, c: Topic| #[trigger] le(a, b) && #[trigger] le(b, c) implies le(
        a,
        c,
    ) by {
        crate::report::export::text_at_most_transitive(topic_text(a), topic_text(b), topic_text(c));
    }
}

proof fn lemma_links_come_back(
    s: Seq<(Topic, Vec<Topic>)>,
    t: Seq<(Topic, Vec<Topic>)>,
    f: Topic,
    x: Topic,
)
    requires
        ascending(s),
        ascending(t),
        index_lists(t) == crate::report::apply::links_listed(link_rows(index_lists(s))),
    ensures
        lists(crate::ordered::mapping(t), f, x) == lists(crate::ordered::mapping(s), f, x),
        list_for(index_lists(t), f).len() == list_for(index_lists(s), f).len(),
{
    lemma_mapped::<Topic, Vec<Topic>, Seq<Topic>>(s, |v: Vec<Topic>| v@);
    links_come_back_sorted(index_lists(s), f);
    lemma_by_id();
    sorted_by_is_sorted(list_for(index_lists(s), f), by_id());
    lemma_list_of(s, f, x);
    lemma_list_of(t, f, x);
}

/// After the report on `a` is installed, each feature lists the behaviors that it
/// lists in `a`.
pub proof fn behavior_links_come_back(
    a: &AuditData,
    c: &AuditData,
    b: &AuditData,
    f: Topic,
    x: Topic,
)
    requires
        ascending(a.feature_behavior_links.pairs()),
        ascending(b.feature_behavior_links.pairs()),
        has_applied(c, pipeline_of(a), b),
    ensures
        lists(b.feature_behavior_links@, f, x) == lists(a.feature_behavior_links@, f, x),
{
    lemma_links_come_back(a.feature_behavior_links.pairs(), b.feature_behavior_links.pairs(), f, x);
}

/// After the report on `a` is installed, each feature lists the requirements that it
/// lists in `a`.
pub proof fn requirement_links_come_back(
    a: &AuditData,
    c: &AuditData,
    b: &AuditData,
    f: Topic,
    x: Topic,
)
    requires
        ascending(a.feature_requirement_links.pairs()),
        ascending(b.feature_requirement_links.pairs()),
        has_applied(c, pipeline_of(a), b),
    ensures
        lists(b.feature_requirement_links@, f, x) == lists(a.feature_requirement_links@, f, x),
{
    lemma_links_come_back(
        a.feature_requirement_links.pairs(),
        b.feature_requirement_links.pairs(),
        f,
        x,
    );
}

/// The report tells of each link between a threat and a feature: the two topics, the
/// relation and the severity.
pub proof fn threat_links_are_reported(a: &AuditData, i: int)
    requires
        0 <= i < a.threat_feature_links@.len(),
    ensures
        ({
            let l = a.threat_feature_links@[i];
            pipeline_of(a).threat_feature_links.contains(
                ThreatLinkView {
                    threat_topic: topic_text(l.threat_topic),
                    feature_topic: topic_text(l.feature_topic),
                    relation: l.relation,
                    severity: l.severity,
                },
            )
        }),
        pipeline_of(a).threat_feature_links.len() == a.threat_feature_links@.len(),
{
    let viewed = a.threat_feature_links@.map_values(threat_link_row());
    lemma_threat_link_order();
    sorted_by_is_sorted(viewed, threat_link_order());
    assert(viewed.contains(viewed[i]));
}

/// After the report on `a` is installed, the links between threats and features are
/// those of `a`, each as often.
pub proof fn all_threat_links_come_back(a: &AuditData, c: &AuditData, b: &AuditData)
    requires
        has_applied(c, pipeline_of(a), b),
    ensures
        b.threat_feature_links@.to_multiset() == a.threat_feature_links@.to_multiset(),
{
    let s = a.threat_feature_links@;
    threat_links_come_back_sorted(s);
    let le = by_threat_link();
    assert forall|x: ThreatFeatureLink, y: ThreatFeatureLink| #[trigger] le(x, y) || le(y, x) by {
        crate::report::export::pair_at_most_total(
            (topic_text(x.threat_topic), topic_text(x.feature_topic)),
            (topic_text(y.threat_topic), topic_text(y.feature_topic)),
        );
    }
    assert forall|x: ThreatFeatureLink, y: ThreatFeatureLink, z: ThreatFeatureLink| #[trigger]
        le(x, y) && #[trigger] le(y, z) implies le(x, z) by {
        crate::report::export::pair_at_most_transitive(
            (topic_text(x.threat_topic), topic_text(x.feature_topic)),
            (topic_text(y.threat_topic), topic_text(y.feature_topic)),
            (topic_text(z.threat_topic), topic_text(z.feature_topic)),
        );
    }
    sorted_by_is_sorted(s, le);
}

/// A report names the audit, what it is called, what is known of its security and
/// the files in scope, in the order of their paths.
pub proof fn reports_describe_the_audit(
    id: Seq<char>,
    a: &AuditData,
    at: Seq<char>,
    r: AuditReport,
    path: Seq<char>,
)
    requires
        is_report(id, a, at, r),
        ascending(a.in_scope_files.pairs()),
    ensures
        r.audit.id@ == id,
        r.generated_at@ == at,
        r.audit.name@ == a.audit_name@,
        r.audit.security_notes is Some == a.security_notes is Some,
        a.security_notes is Some ==> r.audit.security_notes->0@ == a.security_notes->0@,
        texts(r.audit.in_scope_files@).contains(path) == a.in_scope_files@.dom().contains(path),
        forall|i: int, j: int|
            0 <= i < j < r.audit.in_scope_files@.len() ==> crate::text::text_before(
                (#[trigger] r.audit.in_scope_files@[i])@,
                (#[trigger] r.audit.in_scope_files@[j])@,
            ),
{
    let s = a.in_scope_files.pairs();
    let t = texts(r.audit.in_scope_files@);
    if t.contains(path) {
        let i = choose|i: int| 0 <= i < t.len() && t[i] == path;
        assert(s[i].0@ == path);
        assert(has_key(s, path));
    }
    if a.in_scope_files@.dom().contains(path) {
        let i = index_of(s, path);
        assert(has_key(s, path));
        assert(s[i].0@ == path);
        assert(t[i] == path);
    }
    assert forall|i: int, j: int| 0 <= i < j < r.audit.in_scope_files@.len() implies
        crate::text::text_before(
        (#[trigger] r.audit.in_scope_files@[i])@,
        (#[trigger] r.audit.in_scope_files@[j])@,
    ) by {
        assert(t[i] == r.audit.in_scope_files@[i]@ && t[j] == r.audit.in_scope_files@[j]@);
        assert(<crate::domain::path::ProjectPath as crate::ordered::MapKey>::before(
            s[i].0@,
            s[j].0@,
        ));
    }
}


/// The report has a row for each topic of this kind, with what is known of it.
pub proof fn feature_topics_are_reported(a: &AuditData, t: Topic)
    requires
        a.topic_metadata@.dom().contains(t),
        a.topic_metadata@[t]@ is FeatureTopic,
    ensures
        match a.topic_metadata@[t]@ {
            MetadataView::FeatureTopic { topic, name, description, .. } => pipeline_of(a).features.contains(
                ReportFeatureView {
                    topic: topic_text(topic),
                    name,
                    description,
                },
            ),
            _ => false,
        },
{
    let i = index_of(entries(a), t);
    assert(has_key(entries(a), t));
    assert(entries(a)[i].0@ == t);
    assert(entries(a)[i].1 == a.topic_metadata@[t]);
    let v = ReportFeature::row_for(a, entries(a)[i].1@)->0;
    assert(ReportFeature::row_for(a, entries(a)[i].1@) == Some(v));
    rows_are_those_of_the_topics::<ReportFeature>(a, v);
}


/// The report has a row for each topic of this kind, with what is known of it.
pub proof fn requirement_topics_are_reported(a: &AuditData, t: Topic)
    requires
        a.topic_metadata@.dom().contains(t),
        a.topic_metadata@[t]@ is RequirementTopic,
    ensures
        match a.topic_metadata@[t]@ {
            MetadataView::RequirementTopic { topic, description, section_topic, .. } => pipeline_of(a).requirements.contains(
                ReportRequirementView {
                    topic: topic_text(topic),
                    description,
                    section_topic: topic_text(section_topic),
                    documentation_topics: id_texts(if a.requirements@.dom().contains(topic) { a.requirements@[topic].documentation_topics@ } else { seq![] }),
                },
            ),
            _ => false,
        },
{
    let i = index_of(entries(a), t);
    assert(has_key(entries(a), t));
    assert(entries(a)[i].0@ == t);
    assert(entries(a)[i].1 == a.topic_metadata@[t]);
    let v = ReportRequirement::row_for(a, entries(a)[i].1@)->0;
    assert(ReportRequirement::row_for(a, entries(a)[i].1@) == Some(v));
    rows_are_those_of_the_topics::<ReportRequirement>(a, v);
}


/// The report has a row for each topic of this kind, with what is known of it.
pub proof fn behavior_topics_are_reported(a: &AuditData, t: Topic)
    requires
        a.topic_metadata@.dom().contains(t),
        a.topic_metadata@[t]@ is BehaviorTopic,
    ensures
        match a.topic_metadata@[t]@ {
            MetadataView::BehaviorTopic { topic, description, member_topic, .. } => pipeline_of(a).behaviors.contains(
                ReportBehaviorView {
                    topic: topic_text(topic),
                    description,
                    member_topic: topic_text(member_topic),
                },
            ),
            _ => false,
        },
{
    let i = index_of(entries(a), t);
    assert(has_key(entries(a), t));
    assert(entries(a)[i].0@ == t);
    assert(entries(a)[i].1 == a.topic_metadata@[t]);
    let v = ReportBehavior::row_for(a, entries(a)[i].1@)->0;
    assert(ReportBehavior::row_for(a, entries(a)[i].1@) == Some(v));
    rows_are_those_of_the_topics::<ReportBehavior>(a, v);
}


/// The report has a row for each topic of this kind, with what is known of it.
pub proof fn characteristic_topics_are_reported(a: &AuditData, t: Topic)
    requires
        a.topic_metadata@.dom().contains(t),
        a.topic_metadata@[t]@ is CharacteristicTopic,
    ensures
        match a.topic_metadata@[t]@ {
            MetadataView::CharacteristicTopic { topic, description, kind, section_topic, .. } => pipeline_of(a).characteristics.contains(
                ReportCharacteristicView {
                    topic: topic_text(topic),
                    description,
                    kind,
                    section_topic: opt_id(section_topic),
                    documentation_topics: id_texts(if a.characteristics@.dom().contains(topic) { a.characteristics@[topic].documentation_topics@ } else { seq![] }),
                },
            ),
            _ => false,
        },
{
    let i = index_of(entries(a), t);
    assert(has_key(entries(a), t));
    assert(entries(a)[i].0@ == t);
    assert(entries(a)[i].1 == a.topic_metadata@[t]);
    let v = ReportCharacteristic::row_for(a, entries(a)[i].1@)->0;
    assert(ReportCharacteristic::row_for(a, entries(a)[i].1@) == Some(v));
    rows_are_those_of_the_topics::<ReportCharacteristic>(a, v);
}


/// The report has a row for each topic of this kind, with what is known of it.
pub proof fn functional_semantic_topics_are_reported(a: &AuditData, t: Topic)
    requires
        a.topic_metadata@.dom().contains(t),
        a.topic_metadata@[t]@ is FunctionalSemanticTopic,
    ensures
        match a.topic_metadata@[t]@ {
            MetadataView::FunctionalSemanticTopic { topic, description, declaration_topic, documentation_topics, match_source, .. } => pipeline_of(a).functional_semantics.contains(
                ReportFunctionalSemanticView {
                    topic: topic_text(topic),
                    description,
                    declaration_topic: topic_text(declaration_topic),
                    documentation_topics: id_texts(documentation_topics),
                    match_source,
                },
            ),
            _ => false,
        },
{
    let i = index_of(entries(a), t);
    assert(has_key(entries(a), t));
    assert(entries(a)[i].0@ == t);
    assert(entries(a)[i].1 == a.topic_metadata@[t]);
    let v = ReportFunctionalSemantic::row_for(a, entries(a)[i].1@)->0;
    assert(ReportFunctionalSemantic::row_for(a, entries(a)[i].1@) == Some(v));
    rows_are_those_of_the_topics::<ReportFunctionalSemantic>(a, v);
}


/// The report has a row for each topic of this kind, with what is known of it.
pub proof fn functional_purpose_topics_are_reported(a: &AuditData, t: Topic)
    requires
        a.topic_metadata@.dom().contains(t),
        a.topic_metadata@[t]@ is FunctionalPurposeTopic,
    ensures
        match a.topic_metadata@[t]@ {
            MetadataView::FunctionalPurposeTopic { topic, description, subject_topic, .. } => pipeline_of(a).functional_purposes.contains(
                ReportFunctionalPurposeView {
                    topic: topic_text(topic),
                    description,
                    subject_topic: topic_text(subject_topic),
                },
            ),
            _ => false,
        },
{
    let i = index_of(entries(a), t);
    assert(has_key(entries(a), t));
    assert(entries(a)[i].0@ == t);
    assert(entries(a)[i].1 == a.topic_metadata@[t]);
    let v = ReportFunctionalPurpose::row_for(a, entries(a)[i].1@)->0;
    assert(ReportFunctionalPurpose::row_for(a, entries(a)[i].1@) == Some(v));
    rows_are_those_of_the_topics::<ReportFunctionalPurpose>(a, v);
}


/// The report has a row for each topic of this kind, with what is known of it.
pub proof fn placement_rationale_topics_are_reported(a: &AuditData, t: Topic)
    requires
        a.topic_metadata@.dom().contains(t),
        a.topic_metadata@[t]@ is PlacementRationaleTopic,
    ensures
        match a.topic_metadata@[t]@ {
            MetadataView::PlacementRationaleTopic { topic, description, subject_topic, .. } => pipeline_of(a).placement_rationales.contains(
                ReportPlacementRationaleView {
                    topic: topic_text(topic),
                    description,
                    subject_topic: topic_text(subject_topic),
                },
            ),
            _ => false,
        },
{
    let i = index_of(entries(a), t);
    assert(has_key(entries(a), t));
    assert(entries(a)[i].0@ == t);
    assert(entries(a)[i].1 == a.topic_metadata@[t]);
    let v = ReportPlacementRationale::row_for(a, entries(a)[i].1@)->0;
    assert(ReportPlacementRationale::row_for(a, entries(a)[i].1@) == Some(v));
    rows_are_those_of_the_topics::<ReportPlacementRationale>(a, v);
}


/// The report has a row for each topic of this kind, with what is known of it.
pub proof fn condition_topics_are_reported(a: &AuditData, t: Topic)
    requires
        a.topic_metadata@.dom().contains(t),
        a.topic_metadata@[t]@ is ConditionTopic,
    ensures
        match a.topic_metadata@[t]@ {
            MetadataView::ConditionTopic { topic, description, subject_topic, kind, evidence_topics, .. } => pipeline_of(a).conditions.contains(
                ReportConditionView {
                    topic: topic_text(topic),
                    description,
                    subject_topic: topic_text(subject_topic),
                    kind,
                    evidence_topics: id_texts(evidence_topics),
                },
            ),
            _ => false,
        },
{
    let i = index_of(entries(a), t);
    assert(has_key(entries(a), t));
    assert(entries(a)[i].0@ == t);
    assert(entries(a)[i].1 == a.topic_metadata@[t]);
    let v = ReportCondition::row_for(a, entries(a)[i].1@)->0;
    assert(ReportCondition::row_for(a, entries(a)[i].1@) == Some(v));
    rows_are_those_of_the_topics::<ReportCondition>(a, v);
}


/// The report has a row for each topic of this kind, with what is known of it.
pub proof fn threat_topics_are_reported(a: &AuditData, t: Topic)
    requires
        a.topic_metadata@.dom().contains(t),
        a.topic_metadata@[t]@ is ThreatTopic,
    ensures
        match a.topic_metadata@[t]@ {
            MetadataView::ThreatTopic { topic, description, subject_topic, falsifies_condition, controlled_by, evidence_topics, severity, .. } => pipeline_of(a).threats.contains(
                ReportThreatView {
                    topic: topic_text(topic),
                    description,
                    subject_topic: topic_text(subject_topic),
                    falsifies_condition: topic_text(falsifies_condition),
                    controlled_by,
                    evidence_topics: id_texts(evidence_topics),
                    severity,
                },
            ),
            _ => false,
        },
{
    let i = index_of(entries(a), t);
    assert(has_key(entries(a), t));
    assert(entries(a)[i].0@ == t);
    assert(entries(a)[i].1 == a.topic_metadata@[t]);
    let v = ReportThreat::row_for(a, entries(a)[i].1@)->0;
    assert(ReportThreat::row_for(a, entries(a)[i].1@) == Some(v));
    rows_are_those_of_the_topics::<ReportThreat>(a, v);
}


/// The report has a row for each topic of this kind, with what is known of it.
pub proof fn invariant_topics_are_reported(a: &AuditData, t: Topic)
    requires
        a.topic_metadata@.dom().contains(t),
        a.topic_metadata@[t]@ is InvariantTopic,
    ensures
        match a.topic_metadata@[t]@ {
            MetadataView::InvariantTopic { topic, description, threat_topic, subject_topic, kind, anchors, severity, .. } => pipeline_of(a).invariants.contains(
                ReportInvariantView {
                    topic: topic_text(topic),
                    description,
                    threat_topic: topic_text(threat_topic),
                    subject_topic: topic_text(subject_topic),
                    kind,
                    anchors: id_texts(anchors),
                    severity,
                },
            ),
            _ => false,
        },
{
    let i = index_of(entries(a), t);
    assert(has_key(entries(a), t));
    assert(entries(a)[i].0@ == t);
    assert(entries(a)[i].1 == a.topic_metadata@[t]);
    let v = ReportInvariant::row_for(a, entries(a)[i].1@)->0;
    assert(ReportInvariant::row_for(a, entries(a)[i].1@) == Some(v));
    rows_are_those_of_the_topics::<ReportInvariant>(a, v);
}


/// The report has a row for each topic of this kind, with what is known of it.
pub proof fn validation_topics_are_reported(a: &AuditData, t: Topic)
    requires
        a.topic_metadata@.dom().contains(t),
        a.topic_metadata@[t]@ is ValidationTopic,
    ensures
        match a.topic_metadata@[t]@ {
            MetadataView::ValidationTopic { topic, invariant_topic, subject_topic, verdict, rationale, evidence_topics, .. } => pipeline_of(a).validations.contains(
                ReportValidationView {
                    topic: topic_text(topic),
                    invariant_topic: topic_text(invariant_topic),
                    subject_topic: topic_text(subject_topic),
                    verdict,
                    rationale,
                    evidence_topics: id_texts(evidence_topics),
                },
            ),
            _ => false,
        },
{
    let i = index_of(entries(a), t);
    assert(has_key(entries(a), t));
    assert(entries(a)[i].0@ == t);
    assert(entries(a)[i].1 == a.topic_metadata@[t]);
    let v = ReportValidation::row_for(a, entries(a)[i].1@)->0;
    assert(ReportValidation::row_for(a, entries(a)[i].1@) == Some(v));
    rows_are_those_of_the_topics::<ReportValidation>(a, v);
}


} // verus!
