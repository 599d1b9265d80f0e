//! The rows of a report.
use crate::domain::audit::AuditData;
use crate::domain::kinds::{Author, ConditionKind, InvariantKind, MatchSource};
use crate::domain::kinds::{SystemCharacteristicKind, ThreatActor, ThreatSeverity};
use crate::domain::kinds::ValidationVerdict;
use crate::domain::metadata::{opt_text, MetadataView, TopicMetadata};
use crate::domain::topic::{new_topic, parse_topic, topic_of_text, topic_text, topic_text_denotes};
use crate::domain::topic::Topic;
use crate::ordered::lookup;
use crate::text::texts;
use vstd::prelude::*;
use vstd::string::*;

verus! {

/// The topic that a wire form denotes.
pub open spec fn meant(s: Seq<char>) -> Topic {
    topic_of_text(s)->0
}

pub open spec fn meant_each(s: Seq<Seq<char>>) -> Seq<Topic> {
    s.map_values(|t: Seq<char>| meant(t))
}

/// The wire forms of topics.
pub open spec fn id_texts(s: Seq<Topic>) -> Seq<Seq<char>> {
    s.map_values(|t: Topic| topic_text(t))
}

pub open spec fn denotes(s: Seq<char>) -> bool {
    topic_of_text(s) is Some
}

pub open spec fn denote_each(s: Seq<Seq<char>>) -> bool {
    forall|i: int| 0 <= i < s.len() ==> denotes(#[trigger] s[i])
}

/// The topics whose wire forms were written are the topics that are read.
pub proof fn written_ids_are_read_back(s: Seq<Topic>)
    ensures
        denote_each(id_texts(s)),
        meant_each(id_texts(s)) == s,
{
    assert forall|i: int| 0 <= i < s.len() implies denotes(#[trigger] id_texts(s)[i]) by {
        topic_text_denotes(s[i]);
    }
    assert forall|i: int| 0 <= i < s.len() implies #[trigger] meant_each(id_texts(s))[i]
        == s[i] by {
        topic_text_denotes(s[i]);
    }
    assert(meant_each(id_texts(s)) =~= s);
}

pub fn ids_of(list: &Vec<Topic>) -> (r: Vec<String>)
    ensures
        texts(r@) == id_texts(list@),
{
    let mut out: Vec<String> = Vec::new();
    assert(texts(out@) =~= id_texts(list@.take(0)));
    for i in 0..list.len()
        invariant
            texts(out@) == id_texts(list@.take(i as int)),
    {
        let ghost before = out@;
        out.push(list[i].id());
        assert(texts(out@) =~= texts(before).push(topic_text(list@[i as int])));
        assert(id_texts(list@.take(i + 1)) =~= id_texts(list@.take(i as int)).push(
            topic_text(list@[i as int]),
        ));
    }
    assert(list@.take(list@.len() as int) =~= list@);
    out
}

pub fn topics_of(ids: &Vec<String>) -> (r: Vec<Topic>)
    requires
        denote_each(texts(ids@)),
    ensures
        r@ == meant_each(texts(ids@)),
{
    let mut out: Vec<Topic> = Vec::new();
    for i in 0..ids.len()
        invariant
            denote_each(texts(ids@)),
            out@ =~= meant_each(texts(ids@)).take(i as int),
    {
        assert(texts(ids@)[i as int] == ids@[i as int]@);
        out.push(new_topic(ids[i].as_str()));
    }
    assert(out@ =~= meant_each(texts(ids@)));
    out
}

/// Whether `id` is a wire form.
pub fn is_topic_id(id: &str) -> (r: bool)
    ensures
        r == denotes(id@),
{
    match parse_topic(id) {
        Ok(_) => true,
        Err(_) => false,
    }
}

pub fn are_topic_ids(ids: &Vec<String>) -> (r: bool)
    ensures
        r == denote_each(texts(ids@)),
{
    for i in 0..ids.len()
        invariant
            forall|j: int| 0 <= j < i ==> denotes(#[trigger] texts(ids@)[j]),
    {
        if !is_topic_id(ids[i].as_str()) {
            assert(!denotes(texts(ids@)[i as int]));
            return false;
        }
    }
    true
}

pub open spec fn opt_id(t: Option<Topic>) -> Option<Seq<char>> {
    match t {
        Some(t) => Some(topic_text(t)),
        None => None,
    }
}

pub open spec fn opt_meant(s: Option<Seq<char>>) -> Option<Topic> {
    match s {
        Some(s) => Some(meant(s)),
        None => None,
    }
}

pub open spec fn opt_denotes(s: Option<Seq<char>>) -> bool {
    s is Some ==> denotes(s->0)
}

fn id_of(t: &Option<Topic>) -> (r: Option<String>)
    ensures
        opt_text(r) == opt_id(*t),
{
    match t {
        Some(t) => Some(t.id()),
        None => None,
    }
}

fn topic_of(id: &Option<String>) -> (r: Option<Topic>)
    requires
        opt_denotes(opt_text(*id)),
    ensures
        r == opt_meant(opt_text(*id)),
{
    match id {
        Some(id) => Some(new_topic(id.as_str())),
        None => None,
    }
}

fn is_opt_id(id: &Option<String>) -> (r: bool)
    ensures
        r == opt_denotes(opt_text(*id)),
{
    match id {
        Some(id) => is_topic_id(id.as_str()),
        None => true,
    }
}

/// The documentation topics that were recorded for a requirement.
pub open spec fn requirement_docs(a: &AuditData, t: Topic) -> Seq<Topic> {
    match lookup(a.requirements.pairs(), t) {
        Some(r) => r.documentation_topics@,
        None => seq![],
    }
}

/// The documentation topics that were recorded for a characteristic.
pub open spec fn characteristic_docs(a: &AuditData, t: Topic) -> Seq<Topic> {
    match lookup(a.characteristics.pairs(), t) {
        Some(c) => c.documentation_topics@,
        None => seq![],
    }
}

/// The topics that analysis produces, with what is left of them in a report: not
/// who wrote them, nor when.
pub open spec fn as_reported(m: MetadataView) -> Option<(Topic, MetadataView)> {
    match m {
        MetadataView::FeatureTopic { topic, name, description, .. } => Some(
            (
                topic,
                MetadataView::FeatureTopic {
                    topic,
                    name,
                    description,
                    author: Author::System,
                    created_at: None,
                },
            ),
        ),
        MetadataView::RequirementTopic { topic, description, section_topic, .. } => Some(
            (
                topic,
                MetadataView::RequirementTopic {
                    topic,
                    description,
                    section_topic,
                    author: Author::System,
                    created_at: None,
                },
            ),
        ),
        MetadataView::BehaviorTopic { topic, description, member_topic, .. } => Some(
            (
                topic,
                MetadataView::BehaviorTopic {
                    topic,
                    description,
                    member_topic,
                    author: Author::System,
                    created_at: None,
                },
            ),
        ),
        MetadataView::CharacteristicTopic { topic, description, kind, section_topic, .. } => Some(
            (
                topic,
                MetadataView::CharacteristicTopic {
                    topic,
                    description,
                    kind,
                    section_topic,
                    author: Author::System,
                    created_at: None,
                },
            ),
        ),
        MetadataView::FunctionalSemanticTopic { topic, description, declaration_topic, documentation_topics, match_source, .. } => Some(
            (
                topic,
                MetadataView::FunctionalSemanticTopic {
                    topic,
                    description,
                    declaration_topic,
                    documentation_topics,
                    match_source,
                    author: Author::System,
                    created_at: None,
                },
            ),
        ),
        MetadataView::FunctionalPurposeTopic { topic, description, subject_topic, .. } => Some(
            (
                topic,
                MetadataView::FunctionalPurposeTopic {
                    topic,
                    description,
                    subject_topic,
                    author: Author::System,
                    created_at: None,
                },
            ),
        ),
        MetadataView::PlacementRationaleTopic { topic, description, subject_topic, .. } => Some(
            (
                topic,
                MetadataView::PlacementRationaleTopic {
                    topic,
                    description,
                    subject_topic,
                    author: Author::System,
                    created_at: None,
                },
            ),
        ),
        MetadataView::ConditionTopic { topic, description, subject_topic, kind, evidence_topics, .. } => Some(
            (
                topic,
                MetadataView::ConditionTopic {
                    topic,
                    description,
                    subject_topic,
                    kind,
                    evidence_topics,
                    author: Author::System,
                    created_at: None,
                },
            ),
        ),
        MetadataView::ThreatTopic { topic, description, subject_topic, falsifies_condition, controlled_by, evidence_topics, severity, .. } => Some(
            (
                topic,
                MetadataView::ThreatTopic {
                    topic,
                    description,
                    subject_topic,
                    falsifies_condition,
                    controlled_by,
                    evidence_topics,
                    severity,
                    author: Author::System,
                    created_at: None,
                },
            ),
        ),
        MetadataView::InvariantTopic { topic, description, threat_topic, subject_topic, kind, anchors, severity, .. } => Some(
            (
                topic,
                MetadataView::InvariantTopic {
                    topic,
                    description,
                    threat_topic,
                    subject_topic,
                    kind,
                    anchors,
                    severity,
                    author: Author::System,
                    created_at: None,
                },
            ),
        ),
        MetadataView::ValidationTopic { topic, invariant_topic, subject_topic, verdict, rationale, evidence_topics, .. } => Some(
            (
                topic,
                MetadataView::ValidationTopic {
                    topic,
                    invariant_topic,
                    subject_topic,
                    verdict,
                    rationale,
                    evidence_topics,
                    author: Author::System,
                    created_at: None,
                },
            ),
        ),
        _ => None,
    }
}

/// A row of a report. It holds what is known of one topic.
pub trait ReportRow: View + Sized {
    /// The wire form of the topic of a row.
    spec fn row_topic(v: Self::V) -> Seq<char>;

    /// The row for a topic with metadata `m`, if it is of the kind that the rows
    /// are for.
    spec fn row_for(a: &AuditData, m: MetadataView) -> Option<Self::V>;

    /// Every topic that the row names is a wire form.
    spec fn well_formed(v: Self::V) -> bool;

    /// The metadata that a row stands for.
    spec fn stands_for(v: Self::V) -> MetadataView;

    /// A row stands for the metadata that it was written for.
    proof fn row_reads_back(a: &AuditData, m: MetadataView)
        ensures
            match Self::row_for(a, m) {
                Some(v) => Self::well_formed(v) && as_reported(m) == Some(
                    (meant(Self::row_topic(v)), Self::stands_for(v)),
                ) && Self::row_topic(v) == topic_text(meant(Self::row_topic(v))),
                None => true,
            },
    ;

    /// What was read from a row is written as the same row again, where the same
    /// documentation is recorded.
    proof fn row_is_written_again(a: &AuditData, b: &AuditData, m: MetadataView)
        requires
            as_reported(m) is Some,
            m is RequirementTopic ==> requirement_docs(b, (as_reported(m)->0).0)
                == requirement_docs(a, (as_reported(m)->0).0),
            m is CharacteristicTopic ==> characteristic_docs(b, (as_reported(m)->0).0)
                == characteristic_docs(a, (as_reported(m)->0).0),
        ensures
            Self::row_for(b, (as_reported(m)->0).1) == Self::row_for(a, m),
    ;

    fn topic_id(&self) -> (r: &String)
        ensures
            r@ == Self::row_topic(self@),
    ;

    fn of(a: &AuditData, m: &TopicMetadata) -> (r: Option<Self>)
        ensures
            match r {
                Some(row) => Self::row_for(a, m@) == Some(row@),
                None => Self::row_for(a, m@) is None,
            },
    ;

    fn is_well_formed(&self) -> (r: bool)
        ensures
            r == Self::well_formed(self@),
    ;

    proof fn well_formed_topic(v: Self::V)
        requires
            Self::well_formed(v),
        ensures
            denotes(Self::row_topic(v)),
    ;

    fn metadata(&self) -> (r: TopicMetadata)
        requires
            Self::well_formed(self@),
        ensures
            r@ == Self::stands_for(self@),
    ;
}

/// A feature.
#[derive(Debug)]
pub struct ReportFeature {
    /// The `S` topic of the feature.
    pub topic: String,
    pub name: String,
    pub description: String,
}

pub ghost struct ReportFeatureView {
    pub topic: Seq<char>,
    pub name: Seq<char>,
    pub description: Seq<char>,
}

impl View for ReportFeature {
    type V = ReportFeatureView;

    open spec fn view(&self) -> ReportFeatureView {
        ReportFeatureView {
            topic: self.topic@,
            name: self.name@,
            description: self.description@,
        }
    }
}

impl ReportRow for ReportFeature {
    open spec fn row_topic(v: ReportFeatureView) -> Seq<char> {
        v.topic
    }

    open spec fn row_for(a: &AuditData, m: MetadataView) -> Option<ReportFeatureView> {
        match m {
            MetadataView::FeatureTopic { topic, name, description, .. } => Some(
                ReportFeatureView {
                    topic: topic_text(topic),
                    name,
                    description,
                },
            ),
            _ => None,
        }
    }

    open spec fn well_formed(v: ReportFeatureView) -> bool {
        &&& denotes(v.topic)
    }

    open spec fn stands_for(v: ReportFeatureView) -> MetadataView {
        MetadataView::FeatureTopic {
            topic: meant(v.topic),
            name: v.name,
            description: v.description,
            author: Author::System,
            created_at: None,
        }
    }

    proof fn row_reads_back(a: &AuditData, m: MetadataView) {
        match m {
            MetadataView::FeatureTopic { topic, .. } => {
                topic_text_denotes(topic);
            },
            _ => {},
        }
    }

    proof fn row_is_written_again(a: &AuditData, b: &AuditData, m: MetadataView) {
    }

    fn topic_id(&self) -> (r: &String) {
        &self.topic
    }

    fn of(a: &AuditData, m: &TopicMetadata) -> (r: Option<Self>) {
        match m {
            TopicMetadata::FeatureTopic { topic, name, description, .. } => {
                Some(
                    ReportFeature {
                        topic: topic.id(),
                        name: name.clone(),
                        description: description.clone(),
                    },
                )
            },
            _ => None,
        }
    }

    fn is_well_formed(&self) -> (r: bool) {
        is_topic_id(self.topic.as_str())
    }

    proof fn well_formed_topic(v: ReportFeatureView) {
    }

    fn metadata(&self) -> (r: TopicMetadata) {
        TopicMetadata::FeatureTopic {
            topic: new_topic(self.topic.as_str()),
            name: self.name.clone(),
            description: self.description.clone(),
            author: Author::System,
            created_at: None,
        }
    }
}

/// A requirement.
#[derive(Debug)]
pub struct ReportRequirement {
    /// The `S` topic of the requirement.
    pub topic: String,
    pub description: String,
    /// The documentation section that the requirement comes from.
    pub section_topic: String,
    /// The documentation topics that informed the requirement.
    pub documentation_topics: Vec<String>,
}

pub ghost struct ReportRequirementView {
    pub topic: Seq<char>,
    pub description: Seq<char>,
    pub section_topic: Seq<char>,
    pub documentation_topics: Seq<Seq<char>>,
}

impl View for ReportRequirement {
    type V = ReportRequirementView;

    open spec fn view(&self) -> ReportRequirementView {
        ReportRequirementView {
            topic: self.topic@,
            description: self.description@,
            section_topic: self.section_topic@,
            documentation_topics: texts(self.documentation_topics@),
        }
    }
}

impl ReportRow for ReportRequirement {
    open spec fn row_topic(v: ReportRequirementView) -> Seq<char> {
        v.topic
    }

    open spec fn row_for(a: &AuditData, m: MetadataView) -> Option<ReportRequirementView> {
        match m {
            MetadataView::RequirementTopic { topic, description, section_topic, .. } => Some(
                ReportRequirementView {
                    topic: topic_text(topic),
                    description,
                    section_topic: topic_text(section_topic),
                    documentation_topics: id_texts(requirement_docs(a, topic)),
                },
            ),
            _ => None,
        }
    }

    open spec fn well_formed(v: ReportRequirementView) -> bool {
        &&& denotes(v.topic)
        &&& denotes(v.section_topic)
        &&& denote_each(v.documentation_topics)
    }

    open spec fn stands_for(v: ReportRequirementView) -> MetadataView {
        MetadataView::RequirementTopic {
            topic: meant(v.topic),
            description: v.description,
            section_topic: meant(v.section_topic),
            author: Author::System,
            created_at: None,
        }
    }

    proof fn row_reads_back(a: &AuditData, m: MetadataView) {
        match m {
            MetadataView::RequirementTopic { topic, section_topic, .. } => {
                topic_text_denotes(topic);
                topic_text_denotes(section_topic);
                written_ids_are_read_back(requirement_docs(a, topic));
            },
            _ => {},
        }
    }

    proof fn row_is_written_again(a: &AuditData, b: &AuditData, m: MetadataView) {
    }

    fn topic_id(&self) -> (r: &String) {
        &self.topic
    }

    fn of(a: &AuditData, m: &TopicMetadata) -> (r: Option<Self>) {
        match m {
            TopicMetadata::RequirementTopic { topic, description, section_topic, .. } => {
                let documentation_topics = match a.requirements.get(topic) {
                    Some(r) => ids_of(&r.documentation_topics),
                    None => Vec::new(),
                };
                assert(texts(documentation_topics@) =~= id_texts(requirement_docs(a, *topic)));
                Some(
                    ReportRequirement {
                        topic: topic.id(),
                        description: description.clone(),
                        section_topic: section_topic.id(),
                        documentation_topics,
                    },
                )
            },
            _ => None,
        }
    }

    fn is_well_formed(&self) -> (r: bool) {
        is_topic_id(self.topic.as_str()) && is_topic_id(self.section_topic.as_str()) && are_topic_ids(&self.documentation_topics)
    }

    proof fn well_formed_topic(v: ReportRequirementView) {
    }

    fn metadata(&self) -> (r: TopicMetadata) {
        TopicMetadata::RequirementTopic {
            topic: new_topic(self.topic.as_str()),
            description: self.description.clone(),
            section_topic: new_topic(self.section_topic.as_str()),
            author: Author::System,
            created_at: None,
        }
    }
}

/// A behavior.
#[derive(Debug)]
pub struct ReportBehavior {
    /// The `S` topic of the behavior.
    pub topic: String,
    pub description: String,
    /// The code member that the behavior belongs to.
    pub member_topic: String,
}

pub ghost struct ReportBehaviorView {
    pub topic: Seq<char>,
    pub description: Seq<char>,
    pub member_topic: Seq<char>,
}

impl View for ReportBehavior {
    type V = ReportBehaviorView;

    open spec fn view(&self) -> ReportBehaviorView {
        ReportBehaviorView {
            topic: self.topic@,
            description: self.description@,
            member_topic: self.member_topic@,
        }
    }
}

impl ReportRow for ReportBehavior {
    open spec fn row_topic(v: ReportBehaviorView) -> Seq<char> {
        v.topic
    }

    open spec fn row_for(a: &AuditData, m: MetadataView) -> Option<ReportBehaviorView> {
        match m {
            MetadataView::BehaviorTopic { topic, description, member_topic, .. } => Some(
                ReportBehaviorView {
                    topic: topic_text(topic),
                    description,
                    member_topic: topic_text(member_topic),
                },
            ),
            _ => None,
        }
    }

    open spec fn well_formed(v: ReportBehaviorView) -> bool {
        &&& denotes(v.topic)
        &&& denotes(v.member_topic)
    }

    open spec fn stands_for(v: ReportBehaviorView) -> MetadataView {
        MetadataView::BehaviorTopic {
            topic: meant(v.topic),
            description: v.description,
            member_topic: meant(v.member_topic),
            author: Author::System,
            created_at: None,
        }
    }

    proof fn row_reads_back(a: &AuditData, m: MetadataView) {
        match m {
            MetadataView::BehaviorTopic { topic, member_topic, .. } => {
                topic_text_denotes(topic);
                topic_text_denotes(member_topic);
            },
            _ => {},
        }
    }

    proof fn row_is_written_again(a: &AuditData, b: &AuditData, m: MetadataView) {
    }

    fn topic_id(&self) -> (r: &String) {
        &self.topic
    }

    fn of(a: &AuditData, m: &TopicMetadata) -> (r: Option<Self>) {
        match m {
            TopicMetadata::BehaviorTopic { topic, description, member_topic, .. } => {
                Some(
                    ReportBehavior {
                        topic: topic.id(),
                        description: description.clone(),
                        member_topic: member_topic.id(),
                    },
                )
            },
            _ => None,
        }
    }

    fn is_well_formed(&self) -> (r: bool) {
        is_topic_id(self.topic.as_str()) && is_topic_id(self.member_topic.as_str())
    }

    proof fn well_formed_topic(v: ReportBehaviorView) {
    }

    fn metadata(&self) -> (r: TopicMetadata) {
        TopicMetadata::BehaviorTopic {
            topic: new_topic(self.topic.as_str()),
            description: self.description.clone(),
            member_topic: new_topic(self.member_topic.as_str()),
            author: Author::System,
            created_at: None,
        }
    }
}

/// A system characteristic.
#[derive(Debug)]
pub struct ReportCharacteristic {
    /// The `S` topic of the characteristic.
    pub topic: String,
    pub description: String,
    pub kind: SystemCharacteristicKind,
    /// The documentation section that the characteristic comes from, where it comes from one.
    pub section_topic: Option<String>,
    /// The documentation topics that informed the characteristic.
    pub documentation_topics: Vec<String>,
}

pub ghost struct ReportCharacteristicView {
    pub topic: Seq<char>,
    pub description: Seq<char>,
    pub kind: SystemCharacteristicKind,
    pub section_topic: Option<Seq<char>>,
    pub documentation_topics: Seq<Seq<char>>,
}

impl View for ReportCharacteristic {
    type V = ReportCharacteristicView;

    open spec fn view(&self) -> ReportCharacteristicView {
        ReportCharacteristicView {
            topic: self.topic@,
            description: self.description@,
            kind: self.kind,
            section_topic: opt_text(self.section_topic),
            documentation_topics: texts(self.documentation_topics@),
        }
    }
}

impl ReportRow for ReportCharacteristic {
    open spec fn row_topic(v: ReportCharacteristicView) -> Seq<char> {
        v.topic
    }

    open spec fn row_for(a: &AuditData, m: MetadataView) -> Option<ReportCharacteristicView> {
        match m {
            MetadataView::CharacteristicTopic { topic, description, kind, section_topic, .. } => Some(
                ReportCharacteristicView {
                    topic: topic_text(topic),
                    description,
                    kind,
                    section_topic: opt_id(section_topic),
                    documentation_topics: id_texts(characteristic_docs(a, topic)),
                },
            ),
            _ => None,
        }
    }

    open spec fn well_formed(v: ReportCharacteristicView) -> bool {
        &&& denotes(v.topic)
        &&& opt_denotes(v.section_topic)
        &&& denote_each(v.documentation_topics)
    }

    open spec fn stands_for(v: ReportCharacteristicView) -> MetadataView {
        MetadataView::CharacteristicTopic {
            topic: meant(v.topic),
            description: v.description,
            kind: v.kind,
            section_topic: opt_meant(v.section_topic),
            author: Author::System,
            created_at: None,
        }
    }

    proof fn row_reads_back(a: &AuditData, m: MetadataView) {
        match m {
            MetadataView::CharacteristicTopic { topic, section_topic, .. } => {
                topic_text_denotes(topic);
                if section_topic is Some {
                    topic_text_denotes(section_topic->0);
                }
                written_ids_are_read_back(characteristic_docs(a, topic));
            },
            _ => {},
        }
    }

    proof fn row_is_written_again(a: &AuditData, b: &AuditData, m: MetadataView) {
    }

    fn topic_id(&self) -> (r: &String) {
        &self.topic
    }

    fn of(a: &AuditData, m: &TopicMetadata) -> (r: Option<Self>) {
        match m {
            TopicMetadata::CharacteristicTopic { topic, description, kind, section_topic, .. } => {
                let documentation_topics = match a.characteristics.get(topic) {
                    Some(r) => ids_of(&r.documentation_topics),
                    None => Vec::new(),
                };
                assert(texts(documentation_topics@) =~= id_texts(characteristic_docs(a, *topic)));
                Some(
                    ReportCharacteristic {
                        topic: topic.id(),
                        description: description.clone(),
                        kind: *kind,
                        section_topic: id_of(section_topic),
                        documentation_topics,
                    },
                )
            },
            _ => None,
        }
    }

    fn is_well_formed(&self) -> (r: bool) {
        is_topic_id(self.topic.as_str()) && is_opt_id(&self.section_topic) && are_topic_ids(&self.documentation_topics)
    }

    proof fn well_formed_topic(v: ReportCharacteristicView) {
    }

    fn metadata(&self) -> (r: TopicMetadata) {
        TopicMetadata::CharacteristicTopic {
            topic: new_topic(self.topic.as_str()),
            description: self.description.clone(),
            kind: self.kind,
            section_topic: topic_of(&self.section_topic),
            author: Author::System,
            created_at: None,
        }
    }
}

/// A functional semantic.
#[derive(Debug)]
pub struct ReportFunctionalSemantic {
    /// The `P` topic of the semantic.
    pub topic: String,
    pub description: String,
    /// The code declaration that the semantic describes.
    pub declaration_topic: String,
    /// The documentation topics that the semantic derives from.
    pub documentation_topics: Vec<String>,
    /// What made the match, where that was recorded.
    pub match_source: Option<MatchSource>,
}

pub ghost struct ReportFunctionalSemanticView {
    pub topic: Seq<char>,
    pub description: Seq<char>,
    pub declaration_topic: Seq<char>,
    pub documentation_topics: Seq<Seq<char>>,
    pub match_source: Option<MatchSource>,
}

impl View for ReportFunctionalSemantic {
    type V = ReportFunctionalSemanticView;

    open spec fn view(&self) -> ReportFunctionalSemanticView {
        ReportFunctionalSemanticView {
            topic: self.topic@,
            description: self.description@,
            declaration_topic: self.declaration_topic@,
            documentation_topics: texts(self.documentation_topics@),
            match_source: self.match_source,
        }
    }
}

impl ReportRow for ReportFunctionalSemantic {
    open spec fn row_topic(v: ReportFunctionalSemanticView) -> Seq<char> {
        v.topic
    }

    open spec fn row_for(a: &AuditData, m: MetadataView) -> Option<ReportFunctionalSemanticView> {
        match m {
            MetadataView::FunctionalSemanticTopic { topic, description, declaration_topic, documentation_topics, match_source, .. } => Some(
                ReportFunctionalSemanticView {
                    topic: topic_text(topic),
                    description,
                    declaration_topic: topic_text(declaration_topic),
                    documentation_topics: id_texts(documentation_topics),
                    match_source,
                },
            ),
            _ => None,
        }
    }

    open spec fn well_formed(v: ReportFunctionalSemanticView) -> bool {
        &&& denotes(v.topic)
        &&& denotes(v.declaration_topic)
        &&& denote_each(v.documentation_topics)
    }

    open spec fn stands_for(v: ReportFunctionalSemanticView) -> MetadataView {
        MetadataView::FunctionalSemanticTopic {
            topic: meant(v.topic),
            description: v.description,
            declaration_topic: meant(v.declaration_topic),
            documentation_topics: meant_each(v.documentation_topics),
            match_source: v.match_source,
            author: Author::System,
            created_at: None,
        }
    }

    proof fn row_reads_back(a: &AuditData, m: MetadataView) {
        match m {
            MetadataView::FunctionalSemanticTopic { topic, declaration_topic, documentation_topics, .. } => {
                topic_text_denotes(topic);
                topic_text_denotes(declaration_topic);
                written_ids_are_read_back(documentation_topics);
            },
            _ => {},
        }
    }

    proof fn row_is_written_again(a: &AuditData, b: &AuditData, m: MetadataView) {
    }

    fn topic_id(&self) -> (r: &String) {
        &self.topic
    }

    fn of(a: &AuditData, m: &TopicMetadata) -> (r: Option<Self>) {
        match m {
            TopicMetadata::FunctionalSemanticTopic { topic, description, declaration_topic, documentation_topics, match_source, .. } => {
                Some(
                    ReportFunctionalSemantic {
                        topic: topic.id(),
                        description: description.clone(),
                        declaration_topic: declaration_topic.id(),
                        documentation_topics: ids_of(documentation_topics),
                        match_source: *match_source,
                    },
                )
            },
            _ => None,
        }
    }

    fn is_well_formed(&self) -> (r: bool) {
        is_topic_id(self.topic.as_str()) && is_topic_id(self.declaration_topic.as_str()) && are_topic_ids(&self.documentation_topics)
    }

    proof fn well_formed_topic(v: ReportFunctionalSemanticView) {
    }

    fn metadata(&self) -> (r: TopicMetadata) {
        TopicMetadata::FunctionalSemanticTopic {
            topic: new_topic(self.topic.as_str()),
            description: self.description.clone(),
            declaration_topic: new_topic(self.declaration_topic.as_str()),
            documentation_topics: topics_of(&self.documentation_topics),
            match_source: self.match_source,
            author: Author::System,
            created_at: None,
        }
    }
}

/// A functional purpose.
#[derive(Debug)]
pub struct ReportFunctionalPurpose {
    /// The `P` topic of the purpose.
    pub topic: String,
    /// Why the subject exists in business terms.
    pub description: String,
    /// The subject of the purpose.
    pub subject_topic: String,
}

pub ghost struct ReportFunctionalPurposeView {
    pub topic: Seq<char>,
    pub description: Seq<char>,
    pub subject_topic: Seq<char>,
}

impl View for ReportFunctionalPurpose {
    type V = ReportFunctionalPurposeView;

    open spec fn view(&self) -> ReportFunctionalPurposeView {
        ReportFunctionalPurposeView {
            topic: self.topic@,
            description: self.description@,
            subject_topic: self.subject_topic@,
        }
    }
}

impl ReportRow for ReportFunctionalPurpose {
    open spec fn row_topic(v: ReportFunctionalPurposeView) -> Seq<char> {
        v.topic
    }

    open spec fn row_for(a: &AuditData, m: MetadataView) -> Option<ReportFunctionalPurposeView> {
        match m {
            MetadataView::FunctionalPurposeTopic { topic, description, subject_topic, .. } => Some(
                ReportFunctionalPurposeView {
                    topic: topic_text(topic),
                    description,
                    subject_topic: topic_text(subject_topic),
                },
            ),
            _ => None,
        }
    }

    open spec fn well_formed(v: ReportFunctionalPurposeView) -> bool {
        &&& denotes(v.topic)
        &&& denotes(v.subject_topic)
    }

    open spec fn stands_for(v: ReportFunctionalPurposeView) -> MetadataView {
        MetadataView::FunctionalPurposeTopic {
            topic: meant(v.topic),
            description: v.description,
            subject_topic: meant(v.subject_topic),
            author: Author::System,
            created_at: None,
        }
    }

    proof fn row_reads_back(a: &AuditData, m: MetadataView) {
        match m {
            MetadataView::FunctionalPurposeTopic { topic, subject_topic, .. } => {
                topic_text_denotes(topic);
                topic_text_denotes(subject_topic);
            },
            _ => {},
        }
    }

    proof fn row_is_written_again(a: &AuditData, b: &AuditData, m: MetadataView) {
    }

    fn topic_id(&self) -> (r: &String) {
        &self.topic
    }

    fn of(a: &AuditData, m: &TopicMetadata) -> (r: Option<Self>) {
        match m {
            TopicMetadata::FunctionalPurposeTopic { topic, description, subject_topic, .. } => {
                Some(
                    ReportFunctionalPurpose {
                        topic: topic.id(),
                        description: description.clone(),
                        subject_topic: subject_topic.id(),
                    },
                )
            },
            _ => None,
        }
    }

    fn is_well_formed(&self) -> (r: bool) {
        is_topic_id(self.topic.as_str()) && is_topic_id(self.subject_topic.as_str())
    }

    proof fn well_formed_topic(v: ReportFunctionalPurposeView) {
    }

    fn metadata(&self) -> (r: TopicMetadata) {
        TopicMetadata::FunctionalPurposeTopic {
            topic: new_topic(self.topic.as_str()),
            description: self.description.clone(),
            subject_topic: new_topic(self.subject_topic.as_str()),
            author: Author::System,
            created_at: None,
        }
    }
}

/// A placement rationale.
#[derive(Debug)]
pub struct ReportPlacementRationale {
    /// The `P` topic of the rationale.
    pub topic: String,
    /// Why the subject stands where it stands in its function.
    pub description: String,
    /// The subject of the rationale.
    pub subject_topic: String,
}

pub ghost struct ReportPlacementRationaleView {
    pub topic: Seq<char>,
    pub description: Seq<char>,
    pub subject_topic: Seq<char>,
}

impl View for ReportPlacementRationale {
    type V = ReportPlacementRationaleView;

    open spec fn view(&self) -> ReportPlacementRationaleView {
        ReportPlacementRationaleView {
            topic: self.topic@,
            description: self.description@,
            subject_topic: self.subject_topic@,
        }
    }
}

impl ReportRow for ReportPlacementRationale {
    open spec fn row_topic(v: ReportPlacementRationaleView) -> Seq<char> {
        v.topic
    }

    open spec fn row_for(a: &AuditData, m: MetadataView) -> Option<ReportPlacementRationaleView> {
        match m {
            MetadataView::PlacementRationaleTopic { topic, description, subject_topic, .. } => Some(
                ReportPlacementRationaleView {
                    topic: topic_text(topic),
                    description,
                    subject_topic: topic_text(subject_topic),
                },
            ),
            _ => None,
        }
    }

    open spec fn well_formed(v: ReportPlacementRationaleView) -> bool {
        &&& denotes(v.topic)
        &&& denotes(v.subject_topic)
    }

    open spec fn stands_for(v: ReportPlacementRationaleView) -> MetadataView {
        MetadataView::PlacementRationaleTopic {
            topic: meant(v.topic),
            description: v.description,
            subject_topic: meant(v.subject_topic),
            author: Author::System,
            created_at: None,
        }
    }

    proof fn row_reads_back(a: &AuditData, m: MetadataView) {
        match m {
            MetadataView::PlacementRationaleTopic { topic, subject_topic, .. } => {
                topic_text_denotes(topic);
                topic_text_denotes(subject_topic);
            },
            _ => {},
        }
    }

    proof fn row_is_written_again(a: &AuditData, b: &AuditData, m: MetadataView) {
    }

    fn topic_id(&self) -> (r: &String) {
        &self.topic
    }

    fn of(a: &AuditData, m: &TopicMetadata) -> (r: Option<Self>) {
        match m {
            TopicMetadata::PlacementRationaleTopic { topic, description, subject_topic, .. } => {
                Some(
                    ReportPlacementRationale {
                        topic: topic.id(),
                        description: description.clone(),
                        subject_topic: subject_topic.id(),
                    },
                )
            },
            _ => None,
        }
    }

    fn is_well_formed(&self) -> (r: bool) {
        is_topic_id(self.topic.as_str()) && is_topic_id(self.subject_topic.as_str())
    }

    proof fn well_formed_topic(v: ReportPlacementRationaleView) {
    }

    fn metadata(&self) -> (r: TopicMetadata) {
        TopicMetadata::PlacementRationaleTopic {
            topic: new_topic(self.topic.as_str()),
            description: self.description.clone(),
            subject_topic: new_topic(self.subject_topic.as_str()),
            author: Author::System,
            created_at: None,
        }
    }
}

/// A condition.
#[derive(Debug)]
pub struct ReportCondition {
    /// The `A` topic of the condition.
    pub topic: String,
    /// The assertion, phrased affirmatively.
    pub description: String,
    /// The subject whose purpose and placement the assertion supports.
    pub subject_topic: String,
    pub kind: ConditionKind,
    /// The topics cited for the assertion.
    pub evidence_topics: Vec<String>,
}

pub ghost struct ReportConditionView {
    pub topic: Seq<char>,
    pub description: Seq<char>,
    pub subject_topic: Seq<char>,
    pub kind: ConditionKind,
    pub evidence_topics: Seq<Seq<char>>,
}

impl View for ReportCondition {
    type V = ReportConditionView;

    open spec fn view(&self) -> ReportConditionView {
        ReportConditionView {
            topic: self.topic@,
            description: self.description@,
            subject_topic: self.subject_topic@,
            kind: self.kind,
            evidence_topics: texts(self.evidence_topics@),
        }
    }
}

impl ReportRow for ReportCondition {
    open spec fn row_topic(v: ReportConditionView) -> Seq<char> {
        v.topic
    }

    open spec fn row_for(a: &AuditData, m: MetadataView) -> Option<ReportConditionView> {
        match m {
            MetadataView::ConditionTopic { topic, description, subject_topic, kind, evidence_topics, .. } => Some(
                ReportConditionView {
                    topic: topic_text(topic),
                    description,
                    subject_topic: topic_text(subject_topic),
                    kind,
                    evidence_topics: id_texts(evidence_topics),
                },
            ),
            _ => None,
        }
    }

    open spec fn well_formed(v: ReportConditionView) -> bool {
        &&& denotes(v.topic)
        &&& denotes(v.subject_topic)
        &&& denote_each(v.evidence_topics)
    }

    open spec fn stands_for(v: ReportConditionView) -> MetadataView {
        MetadataView::ConditionTopic {
            topic: meant(v.topic),
            description: v.description,
            subject_topic: meant(v.subject_topic),
            kind: v.kind,
            evidence_topics: meant_each(v.evidence_topics),
            author: Author::System,
            created_at: None,
        }
    }

    proof fn row_reads_back(a: &AuditData, m: MetadataView) {
        match m {
            MetadataView::ConditionTopic { topic, subject_topic, evidence_topics, .. } => {
                topic_text_denotes(topic);
                topic_text_denotes(subject_topic);
                written_ids_are_read_back(evidence_topics);
            },
            _ => {},
        }
    }

    proof fn row_is_written_again(a: &AuditData, b: &AuditData, m: MetadataView) {
    }

    fn topic_id(&self) -> (r: &String) {
        &self.topic
    }

    fn of(a: &AuditData, m: &TopicMetadata) -> (r: Option<Self>) {
        match m {
            TopicMetadata::ConditionTopic { topic, description, subject_topic, kind, evidence_topics, .. } => {
                Some(
                    ReportCondition {
                        topic: topic.id(),
                        description: description.clone(),
                        subject_topic: subject_topic.id(),
                        kind: *kind,
                        evidence_topics: ids_of(evidence_topics),
                    },
                )
            },
            _ => None,
        }
    }

    fn is_well_formed(&self) -> (r: bool) {
        is_topic_id(self.topic.as_str()) && is_topic_id(self.subject_topic.as_str()) && are_topic_ids(&self.evidence_topics)
    }

    proof fn well_formed_topic(v: ReportConditionView) {
    }

    fn metadata(&self) -> (r: TopicMetadata) {
        TopicMetadata::ConditionTopic {
            topic: new_topic(self.topic.as_str()),
            description: self.description.clone(),
            subject_topic: new_topic(self.subject_topic.as_str()),
            kind: self.kind,
            evidence_topics: topics_of(&self.evidence_topics),
            author: Author::System,
            created_at: None,
        }
    }
}

/// A threat.
#[derive(Debug)]
pub struct ReportThreat {
    /// The `A` topic of the threat.
    pub topic: String,
    /// The scenario.
    pub description: String,
    /// The subject that the threat belongs to.
    pub subject_topic: String,
    /// The condition that the threat inverts.
    pub falsifies_condition: String,
    /// The party whose action drives the scenario.
    pub controlled_by: ThreatActor,
    /// The topics cited as the vulnerable code surface.
    pub evidence_topics: Vec<String>,
    /// The severity, once impact analysis assigned one.
    pub severity: Option<ThreatSeverity>,
}

pub ghost struct ReportThreatView {
    pub topic: Seq<char>,
    pub description: Seq<char>,
    pub subject_topic: Seq<char>,
    pub falsifies_condition: Seq<char>,
    pub controlled_by: ThreatActor,
    pub evidence_topics: Seq<Seq<char>>,
    pub severity: Option<ThreatSeverity>,
}

impl View for ReportThreat {
    type V = ReportThreatView;

    open spec fn view(&self) -> ReportThreatView {
        ReportThreatView {
            topic: self.topic@,
            description: self.description@,
            subject_topic: self.subject_topic@,
            falsifies_condition: self.falsifies_condition@,
            controlled_by: self.controlled_by,
            evidence_topics: texts(self.evidence_topics@),
            severity: self.severity,
        }
    }
}

impl ReportRow for ReportThreat {
    open spec fn row_topic(v: ReportThreatView) -> Seq<char> {
        v.topic
    }

    open spec fn row_for(a: &AuditData, m: MetadataView) -> Option<ReportThreatView> {
        match m {
            MetadataView::ThreatTopic { topic, description, subject_topic, falsifies_condition, controlled_by, evidence_topics, severity, .. } => Some(
                ReportThreatView {
                    topic: topic_text(topic),
                    description,
                    subject_topic: topic_text(subject_topic),
                    falsifies_condition: topic_text(falsifies_condition),
                    controlled_by,
                    evidence_topics: id_texts(evidence_topics),
                    severity,
                },
            ),
            _ => None,
        }
    }

    open spec fn well_formed(v: ReportThreatView) -> bool {
        &&& denotes(v.topic)
        &&& denotes(v.subject_topic)
        &&& denotes(v.falsifies_condition)
        &&& denote_each(v.evidence_topics)
    }

    open spec fn stands_for(v: ReportThreatView) -> MetadataView {
        MetadataView::ThreatTopic {
            topic: meant(v.topic),
            description: v.description,
            subject_topic: meant(v.subject_topic),
            falsifies_condition: meant(v.falsifies_condition),
            controlled_by: v.controlled_by,
            evidence_topics: meant_each(v.evidence_topics),
            severity: v.severity,
            author: Author::System,
            created_at: None,
        }
    }

    proof fn row_reads_back(a: &AuditData, m: MetadataView) {
        match m {
            MetadataView::ThreatTopic { topic, subject_topic, falsifies_condition, evidence_topics, .. } => {
                topic_text_denotes(topic);
                topic_text_denotes(subject_topic);
                topic_text_denotes(falsifies_condition);
                written_ids_are_read_back(evidence_topics);
            },
            _ => {},
        }
    }

    proof fn row_is_written_again(a: &AuditData, b: &AuditData, m: MetadataView) {
    }

    fn topic_id(&self) -> (r: &String) {
        &self.topic
    }

    fn of(a: &AuditData, m: &TopicMetadata) -> (r: Option<Self>) {
        match m {
            TopicMetadata::ThreatTopic { topic, description, subject_topic, falsifies_condition, controlled_by, evidence_topics, severity, .. } => {
                Some(
                    ReportThreat {
                        topic: topic.id(),
                        description: description.clone(),
                        subject_topic: subject_topic.id(),
                        falsifies_condition: falsifies_condition.id(),
                        controlled_by: *controlled_by,
                        evidence_topics: ids_of(evidence_topics),
                        severity: *severity,
                    },
                )
            },
            _ => None,
        }
    }

    fn is_well_formed(&self) -> (r: bool) {
        is_topic_id(self.topic.as_str()) && is_topic_id(self.subject_topic.as_str()) && is_topic_id(self.falsifies_condition.as_str()) && are_topic_ids(&self.evidence_topics)
    }

    proof fn well_formed_topic(v: ReportThreatView) {
    }

    fn metadata(&self) -> (r: TopicMetadata) {
        TopicMetadata::ThreatTopic {
            topic: new_topic(self.topic.as_str()),
            description: self.description.clone(),
            subject_topic: new_topic(self.subject_topic.as_str()),
            falsifies_condition: new_topic(self.falsifies_condition.as_str()),
            controlled_by: self.controlled_by,
            evidence_topics: topics_of(&self.evidence_topics),
            severity: self.severity,
            author: Author::System,
            created_at: None,
        }
    }
}

/// An invariant.
#[derive(Debug)]
pub struct ReportInvariant {
    /// The `A` topic of the invariant.
    pub topic: String,
    /// The defensive property.
    pub description: String,
    /// The threat that the invariant defends against.
    pub threat_topic: String,
    /// The subject that the invariant protects.
    pub subject_topic: String,
    pub kind: InvariantKind,
    /// The declarations that the property is stated against.
    pub anchors: Vec<String>,
    /// The severity of the threat when the invariant was written.
    pub severity: Option<ThreatSeverity>,
}

pub ghost struct ReportInvariantView {
    pub topic: Seq<char>,
    pub description: Seq<char>,
    pub threat_topic: Seq<char>,
    pub subject_topic: Seq<char>,
    pub kind: InvariantKind,
    pub anchors: Seq<Seq<char>>,
    pub severity: Option<ThreatSeverity>,
}

impl View for ReportInvariant {
    type V = ReportInvariantView;

    open spec fn view(&self) -> ReportInvariantView {
        ReportInvariantView {
            topic: self.topic@,
            description: self.description@,
            threat_topic: self.threat_topic@,
            subject_topic: self.subject_topic@,
            kind: self.kind,
            anchors: texts(self.anchors@),
            severity: self.severity,
        }
    }
}

impl ReportRow for ReportInvariant {
    open spec fn row_topic(v: ReportInvariantView) -> Seq<char> {
        v.topic
    }

    open spec fn row_for(a: &AuditData, m: MetadataView) -> Option<ReportInvariantView> {
        match m {
            MetadataView::InvariantTopic { topic, description, threat_topic, subject_topic, kind, anchors, severity, .. } => Some(
                ReportInvariantView {
                    topic: topic_text(topic),
                    description,
                    threat_topic: topic_text(threat_topic),
                    subject_topic: topic_text(subject_topic),
                    kind,
                    anchors: id_texts(anchors),
                    severity,
                },
            ),
            _ => None,
        }
    }

    open spec fn well_formed(v: ReportInvariantView) -> bool {
        &&& denotes(v.topic)
        &&& denotes(v.threat_topic)
        &&& denotes(v.subject_topic)
        &&& denote_each(v.anchors)
    }

    open spec fn stands_for(v: ReportInvariantView) -> MetadataView {
        MetadataView::InvariantTopic {
            topic: meant(v.topic),
            description: v.description,
            threat_topic: meant(v.threat_topic),
            subject_topic: meant(v.subject_topic),
            kind: v.kind,
            anchors: meant_each(v.anchors),
            severity: v.severity,
            author: Author::System,
            created_at: None,
        }
    }

    proof fn row_reads_back(a: &AuditData, m: MetadataView) {
        match m {
            MetadataView::InvariantTopic { topic, threat_topic, subject_topic, anchors, .. } => {
                topic_text_denotes(topic);
                topic_text_denotes(threat_topic);
                topic_text_denotes(subject_topic);
                written_ids_are_read_back(anchors);
            },
            _ => {},
        }
    }

    proof fn row_is_written_again(a: &AuditData, b: &AuditData, m: MetadataView) {
    }

    fn topic_id(&self) -> (r: &String) {
        &self.topic
    }

    fn of(a: &AuditData, m: &TopicMetadata) -> (r: Option<Self>) {
        match m {
            TopicMetadata::InvariantTopic { topic, description, threat_topic, subject_topic, kind, anchors, severity, .. } => {
                Some(
                    ReportInvariant {
                        topic: topic.id(),
                        description: description.clone(),
                        threat_topic: threat_topic.id(),
                        subject_topic: subject_topic.id(),
                        kind: *kind,
                        anchors: ids_of(anchors),
                        severity: *severity,
                    },
                )
            },
            _ => None,
        }
    }

    fn is_well_formed(&self) -> (r: bool) {
        is_topic_id(self.topic.as_str()) && is_topic_id(self.threat_topic.as_str()) && is_topic_id(self.subject_topic.as_str()) && are_topic_ids(&self.anchors)
    }

    proof fn well_formed_topic(v: ReportInvariantView) {
    }

    fn metadata(&self) -> (r: TopicMetadata) {
        TopicMetadata::InvariantTopic {
            topic: new_topic(self.topic.as_str()),
            description: self.description.clone(),
            threat_topic: new_topic(self.threat_topic.as_str()),
            subject_topic: new_topic(self.subject_topic.as_str()),
            kind: self.kind,
            anchors: topics_of(&self.anchors),
            severity: self.severity,
            author: Author::System,
            created_at: None,
        }
    }
}

/// A validation.
#[derive(Debug)]
pub struct ReportValidation {
    /// The `A` topic of the validation.
    pub topic: String,
    /// The invariant that the verdict is on.
    pub invariant_topic: String,
    /// The subject at which the validation was performed.
    pub subject_topic: String,
    pub verdict: ValidationVerdict,
    /// Why the verdict is what it is.
    pub rationale: String,
    /// The topics cited for the verdict.
    pub evidence_topics: Vec<String>,
}

pub ghost struct ReportValidationView {
    pub topic: Seq<char>,
    pub invariant_topic: Seq<char>,
    pub subject_topic: Seq<char>,
    pub verdict: ValidationVerdict,
    pub rationale: Seq<char>,
    pub evidence_topics: Seq<Seq<char>>,
}

impl View for ReportValidation {
    type V = ReportValidationView;

    open spec fn view(&self) -> ReportValidationView {
        ReportValidationView {
            topic: self.topic@,
            invariant_topic: self.invariant_topic@,
            subject_topic: self.subject_topic@,
            verdict: self.verdict,
            rationale: self.rationale@,
            evidence_topics: texts(self.evidence_topics@),
        }
    }
}

impl ReportRow for ReportValidation {
    open spec fn row_topic(v: ReportValidationView) -> Seq<char> {
        v.topic
    }

    open spec fn row_for(a: &AuditData, m: MetadataView) -> Option<ReportValidationView> {
        match m {
            MetadataView::ValidationTopic { topic, invariant_topic, subject_topic, verdict, rationale, evidence_topics, .. } => Some(
                ReportValidationView {
                    topic: topic_text(topic),
                    invariant_topic: topic_text(invariant_topic),
                    subject_topic: topic_text(subject_topic),
                    verdict,
                    rationale,
                    evidence_topics: id_texts(evidence_topics),
                },
            ),
            _ => None,
        }
    }

    open spec fn well_formed(v: ReportValidationView) -> bool {
        &&& denotes(v.topic)
        &&& denotes(v.invariant_topic)
        &&& denotes(v.subject_topic)
        &&& denote_each(v.evidence_topics)
    }

    open spec fn stands_for(v: ReportValidationView) -> MetadataView {
        MetadataView::ValidationTopic {
            topic: meant(v.topic),
            invariant_topic: meant(v.invariant_topic),
            subject_topic: meant(v.subject_topic),
            verdict: v.verdict,
            rationale: v.rationale,
            evidence_topics: meant_each(v.evidence_topics),
            author: Author::System,
            created_at: None,
        }
    }

    proof fn row_reads_back(a: &AuditData, m: MetadataView) {
        match m {
            MetadataView::ValidationTopic { topic, invariant_topic, subject_topic, evidence_topics, .. } => {
                topic_text_denotes(topic);
                topic_text_denotes(invariant_topic);
                topic_text_denotes(subject_topic);
                written_ids_are_read_back(evidence_topics);
            },
            _ => {},
        }
    }

    proof fn row_is_written_again(a: &AuditData, b: &AuditData, m: MetadataView) {
    }

    fn topic_id(&self) -> (r: &String) {
        &self.topic
    }

    fn of(a: &AuditData, m: &TopicMetadata) -> (r: Option<Self>) {
        match m {
            TopicMetadata::ValidationTopic { topic, invariant_topic, subject_topic, verdict, rationale, evidence_topics, .. } => {
                Some(
                    ReportValidation {
                        topic: topic.id(),
                        invariant_topic: invariant_topic.id(),
                        subject_topic: subject_topic.id(),
                        verdict: *verdict,
                        rationale: rationale.clone(),
                        evidence_topics: ids_of(evidence_topics),
                    },
                )
            },
            _ => None,
        }
    }

    fn is_well_formed(&self) -> (r: bool) {
        is_topic_id(self.topic.as_str()) && is_topic_id(self.invariant_topic.as_str()) && is_topic_id(self.subject_topic.as_str()) && are_topic_ids(&self.evidence_topics)
    }

    proof fn well_formed_topic(v: ReportValidationView) {
    }

    fn metadata(&self) -> (r: TopicMetadata) {
        TopicMetadata::ValidationTopic {
            topic: new_topic(self.topic.as_str()),
            invariant_topic: new_topic(self.invariant_topic.as_str()),
            subject_topic: new_topic(self.subject_topic.as_str()),
            verdict: self.verdict,
            rationale: self.rationale.clone(),
            evidence_topics: topics_of(&self.evidence_topics),
            author: Author::System,
            created_at: None,
        }
    }
}

} // verus!
