//! What is known of each topic.
use crate::domain::kinds::{Author, CommentType, ConditionKind, ControlFlowStatementKind};
use crate::domain::kinds::{InvariantKind, MatchSource, NamedTopicKind, NamedTopicVisibility};
use crate::domain::kinds::{RevertConstraintKind, SystemCharacteristicKind, ThreatActor};
use crate::domain::kinds::{ThreatSeverity, TitledTopicKind, UnnamedTopicKind, ValidationVerdict};
use crate::domain::scope::{Scope, ScopeView};
use crate::domain::topic::Topic;
use vstd::prelude::*;

verus! {

#[derive(Debug)]
pub enum TopicMetadata {
    /// A declaration in code.
    NamedTopic {
        topic: Topic,
        scope: Scope,
        kind: NamedTopicKind,
        name: String,
        visibility: NamedTopicVisibility,
        /// Whether this topic has mutations.
        is_mutable: bool,
        /// The operations that mutate this variable.
        mutations: Vec<Topic>,
        /// Variables from which this variable derives.
        ancestors: Vec<Topic>,
        /// Variables whose values derive from this variable.
        descendants: Vec<Topic>,
        /// Variables that occur together with this variable.
        relatives: Vec<Topic>,
        /// When set, this declaration is a transparent proxy for another.
        transitive_topic: Option<Topic>,
        /// Documentation topics that refer to this declaration.
        doc_references: Vec<Topic>,
    },
    UnnamedTopic {
        topic: Topic,
        scope: Scope,
        kind: UnnamedTopicKind,
        /// When set, this topic is a transparent proxy for another.
        transitive_topic: Option<Topic>,
    },
    /// A control flow statement with its condition.
    ControlFlow { topic: Topic, scope: Scope, kind: ControlFlowStatementKind, condition: Topic },
    /// A topic with a title but not a full declaration.
    TitledTopic { topic: Topic, scope: Scope, kind: TitledTopicKind, title: String },
    CommentTopic {
        topic: Topic,
        scope: Scope,
        target_topic: Topic,
        comment_type: CommentType,
        author: Author,
        created_at: String,
        mentioned_topics: Vec<Topic>,
    },
    /// A feature extracted from documentation.
    FeatureTopic {
        topic: Topic,
        name: String,
        description: String,
        author: Author,
        created_at: Option<String>,
    },
    /// A requirement extracted from a documentation section.
    RequirementTopic {
        topic: Topic,
        description: String,
        section_topic: Topic,
        author: Author,
        created_at: Option<String>,
    },
    /// A behavior of one code member.
    BehaviorTopic {
        topic: Topic,
        description: String,
        member_topic: Topic,
        author: Author,
        created_at: Option<String>,
    },
    /// A characteristic of the whole system.
    CharacteristicTopic {
        topic: Topic,
        description: String,
        kind: SystemCharacteristicKind,
        section_topic: Option<Topic>,
        author: Author,
        created_at: Option<String>,
    },
    /// What a code declaration stands for in the project.
    FunctionalSemanticTopic {
        topic: Topic,
        description: String,
        declaration_topic: Topic,
        documentation_topics: Vec<Topic>,
        author: Author,
        created_at: Option<String>,
        match_source: Option<MatchSource>,
    },
    /// Why a subject exists in business terms.
    FunctionalPurposeTopic {
        topic: Topic,
        description: String,
        subject_topic: Topic,
        author: Author,
        created_at: Option<String>,
    },
    /// Why a subject stands where it stands in its function.
    PlacementRationaleTopic {
        topic: Topic,
        description: String,
        subject_topic: Topic,
        author: Author,
        created_at: Option<String>,
    },
    /// A threat on a subject.
    ThreatTopic {
        topic: Topic,
        description: String,
        subject_topic: Topic,
        falsifies_condition: Topic,
        controlled_by: ThreatActor,
        evidence_topics: Vec<Topic>,
        author: Author,
        created_at: Option<String>,
        severity: Option<ThreatSeverity>,
    },
    /// An assertion that must hold for the subject's purpose and placement.
    ConditionTopic {
        topic: Topic,
        description: String,
        subject_topic: Topic,
        kind: ConditionKind,
        evidence_topics: Vec<Topic>,
        author: Author,
        created_at: Option<String>,
    },
    /// An invariant that must hold to prevent a threat.
    InvariantTopic {
        topic: Topic,
        description: String,
        threat_topic: Topic,
        subject_topic: Topic,
        kind: InvariantKind,
        anchors: Vec<Topic>,
        author: Author,
        created_at: Option<String>,
        severity: Option<ThreatSeverity>,
    },
    /// A verdict on an invariant at a subject.
    ValidationTopic {
        topic: Topic,
        invariant_topic: Topic,
        subject_topic: Topic,
        verdict: ValidationVerdict,
        rationale: String,
        evidence_topics: Vec<Topic>,
        author: Author,
        created_at: Option<String>,
    },
    /// A documentation root.
    DocumentationTopic { topic: Topic, scope: Scope, is_technical: bool },
}

pub open spec fn opt_text(s: Option<String>) -> Option<Seq<char>> {
    match s {
        Some(s) => Some(s@),
        None => None,
    }
}

/// What the metadata of a topic says.
pub ghost enum MetadataView {
    NamedTopic {
        topic: Topic,
        scope: ScopeView,
        kind: NamedTopicKind,
        name: Seq<char>,
        visibility: NamedTopicVisibility,
        is_mutable: bool,
        mutations: Seq<Topic>,
        ancestors: Seq<Topic>,
        descendants: Seq<Topic>,
        relatives: Seq<Topic>,
        transitive_topic: Option<Topic>,
        doc_references: Seq<Topic>,
    },
    UnnamedTopic {
        topic: Topic,
        scope: ScopeView,
        kind: UnnamedTopicKind,
        transitive_topic: Option<Topic>,
    },
    ControlFlow {
        topic: Topic,
        scope: ScopeView,
        kind: ControlFlowStatementKind,
        condition: Topic,
    },
    TitledTopic {
        topic: Topic,
        scope: ScopeView,
        kind: TitledTopicKind,
        title: Seq<char>,
    },
    CommentTopic {
        topic: Topic,
        scope: ScopeView,
        target_topic: Topic,
        comment_type: CommentType,
        author: Author,
        created_at: Seq<char>,
        mentioned_topics: Seq<Topic>,
    },
    FeatureTopic {
        topic: Topic,
        name: Seq<char>,
        description: Seq<char>,
        author: Author,
        created_at: Option<Seq<char>>,
    },
    RequirementTopic {
        topic: Topic,
        description: Seq<char>,
        section_topic: Topic,
        author: Author,
        created_at: Option<Seq<char>>,
    },
    BehaviorTopic {
        topic: Topic,
        description: Seq<char>,
        member_topic: Topic,
        author: Author,
        created_at: Option<Seq<char>>,
    },
    CharacteristicTopic {
        topic: Topic,
        description: Seq<char>,
        kind: SystemCharacteristicKind,
        section_topic: Option<Topic>,
        author: Author,
        created_at: Option<Seq<char>>,
    },
    FunctionalSemanticTopic {
        topic: Topic,
        description: Seq<char>,
        declaration_topic: Topic,
        documentation_topics: Seq<Topic>,
        author: Author,
        created_at: Option<Seq<char>>,
        match_source: Option<MatchSource>,
    },
    FunctionalPurposeTopic {
        topic: Topic,
        description: Seq<char>,
        subject_topic: Topic,
        author: Author,
        created_at: Option<Seq<char>>,
    },
    PlacementRationaleTopic {
        topic: Topic,
        description: Seq<char>,
        subject_topic: Topic,
        author: Author,
        created_at: Option<Seq<char>>,
    },
    ThreatTopic {
        topic: Topic,
        description: Seq<char>,
        subject_topic: Topic,
        falsifies_condition: Topic,
        controlled_by: ThreatActor,
        evidence_topics: Seq<Topic>,
        author: Author,
        created_at: Option<Seq<char>>,
        severity: Option<ThreatSeverity>,
    },
    ConditionTopic {
        topic: Topic,
        description: Seq<char>,
        subject_topic: Topic,
        kind: ConditionKind,
        evidence_topics: Seq<Topic>,
        author: Author,
        created_at: Option<Seq<char>>,
    },
    InvariantTopic {
        topic: Topic,
        description: Seq<char>,
        threat_topic: Topic,
        subject_topic: Topic,
        kind: InvariantKind,
        anchors: Seq<Topic>,
        author: Author,
        created_at: Option<Seq<char>>,
        severity: Option<ThreatSeverity>,
    },
    ValidationTopic {
        topic: Topic,
        invariant_topic: Topic,
        subject_topic: Topic,
        verdict: ValidationVerdict,
        rationale: Seq<char>,
        evidence_topics: Seq<Topic>,
        author: Author,
        created_at: Option<Seq<char>>,
    },
    DocumentationTopic {
        topic: Topic,
        scope: ScopeView,
        is_technical: bool,
    },
}

impl View for TopicMetadata {
    type V = MetadataView;

    open spec fn view(&self) -> MetadataView {
        match *self {
            TopicMetadata::NamedTopic { topic, scope, kind, name, visibility, is_mutable, mutations, ancestors, descendants, relatives, transitive_topic, doc_references } => MetadataView::NamedTopic {
                topic,
                scope: scope@,
                kind,
                name: name@,
                visibility,
                is_mutable,
                mutations: mutations@,
                ancestors: ancestors@,
                descendants: descendants@,
                relatives: relatives@,
                transitive_topic,
                doc_references: doc_references@,
            },
            TopicMetadata::UnnamedTopic { topic, scope, kind, transitive_topic } => MetadataView::UnnamedTopic {
                topic,
                scope: scope@,
                kind,
                transitive_topic,
            },
            TopicMetadata::ControlFlow { topic, scope, kind, condition } => MetadataView::ControlFlow {
                topic,
                scope: scope@,
                kind,
                condition,
            },
            TopicMetadata::TitledTopic { topic, scope, kind, title } => MetadataView::TitledTopic {
                topic,
                scope: scope@,
                kind,
                title: title@,
            },
            TopicMetadata::CommentTopic { topic, scope, target_topic, comment_type, author, created_at, mentioned_topics } => MetadataView::CommentTopic {
                topic,
                scope: scope@,
                target_topic,
                comment_type,
                author,
                created_at: created_at@,
                mentioned_topics: mentioned_topics@,
            },
            TopicMetadata::FeatureTopic { topic, name, description, author, created_at } => MetadataView::FeatureTopic {
                topic,
                name: name@,
                description: description@,
                author,
                created_at: opt_text(created_at),
            },
            TopicMetadata::RequirementTopic { topic, description, section_topic, author, created_at } => MetadataView::RequirementTopic {
                topic,
                description: description@,
                section_topic,
                author,
                created_at: opt_text(created_at),
            },
            TopicMetadata::BehaviorTopic { topic, description, member_topic, author, created_at } => MetadataView::BehaviorTopic {
                topic,
                description: description@,
                member_topic,
                author,
                created_at: opt_text(created_at),
            },
            TopicMetadata::CharacteristicTopic { topic, description, kind, section_topic, author, created_at } => MetadataView::CharacteristicTopic {
                topic,
                description: description@,
                kind,
                section_topic,
                author,
                created_at: opt_text(created_at),
            },
            TopicMetadata::FunctionalSemanticTopic { topic, description, declaration_topic, documentation_topics, author, created_at, match_source } => MetadataView::FunctionalSemanticTopic {
                topic,
                description: description@,
                declaration_topic,
                documentation_topics: documentation_topics@,
                author,
                created_at: opt_text(created_at),
                match_source,
            },
            TopicMetadata::FunctionalPurposeTopic { topic, description, subject_topic, author, created_at } => MetadataView::FunctionalPurposeTopic {
                topic,
                description: description@,
                subject_topic,
                author,
                created_at: opt_text(created_at),
            },
            TopicMetadata::PlacementRationaleTopic { topic, description, subject_topic, author, created_at } => MetadataView::PlacementRationaleTopic {
                topic,
                description: description@,
                subject_topic,
                author,
                created_at: opt_text(created_at),
            },
            TopicMetadata::ThreatTopic { topic, description, subject_topic, falsifies_condition, controlled_by, evidence_topics, author, created_at, severity } => MetadataView::ThreatTopic {
                topic,
                description: description@,
                subject_topic,
                falsifies_condition,
                controlled_by,
                evidence_topics: evidence_topics@,
                author,
                created_at: opt_text(created_at),
                severity,
            },
            TopicMetadata::ConditionTopic { topic, description, subject_topic, kind, evidence_topics, author, created_at } => MetadataView::ConditionTopic {
                topic,
                description: description@,
                subject_topic,
                kind,
                evidence_topics: evidence_topics@,
                author,
                created_at: opt_text(created_at),
            },
            TopicMetadata::InvariantTopic { topic, description, threat_topic, subject_topic, kind, anchors, author, created_at, severity } => MetadataView::InvariantTopic {
                topic,
                description: description@,
                threat_topic,
                subject_topic,
                kind,
                anchors: anchors@,
                author,
                created_at: opt_text(created_at),
                severity,
            },
            TopicMetadata::ValidationTopic { topic, invariant_topic, subject_topic, verdict, rationale, evidence_topics, author, created_at } => MetadataView::ValidationTopic {
                topic,
                invariant_topic,
                subject_topic,
                verdict,
                rationale: rationale@,
                evidence_topics: evidence_topics@,
                author,
                created_at: opt_text(created_at),
            },
            TopicMetadata::DocumentationTopic { topic, scope, is_technical } => MetadataView::DocumentationTopic {
                topic,
                scope: scope@,
                is_technical,
            },
        }
    }
}

impl TopicMetadata {
    /// The scope of a topic. Topics outside the sources have the global scope.
    pub open spec fn scope_view(self) -> ScopeView {
        match self {
            TopicMetadata::NamedTopic { scope, .. } => scope@,
            TopicMetadata::UnnamedTopic { scope, .. } => scope@,
            TopicMetadata::ControlFlow { scope, .. } => scope@,
            TopicMetadata::TitledTopic { scope, .. } => scope@,
            TopicMetadata::CommentTopic { scope, .. } => scope@,
            TopicMetadata::DocumentationTopic { scope, .. } => scope@,
            _ => ScopeView::Global,
        }
    }

    pub open spec fn name_text(self) -> Option<Seq<char>> {
        match self {
            TopicMetadata::NamedTopic { name, .. } => Some(name@),
            TopicMetadata::FeatureTopic { name, .. } => Some(name@),
            TopicMetadata::TitledTopic { title, .. } => Some(title@),
            _ => None,
        }
    }

    pub open spec fn own_topic(self) -> Topic {
        match self {
            TopicMetadata::NamedTopic { topic, .. } => topic,
            TopicMetadata::UnnamedTopic { topic, .. } => topic,
            TopicMetadata::ControlFlow { topic, .. } => topic,
            TopicMetadata::TitledTopic { topic, .. } => topic,
            TopicMetadata::CommentTopic { topic, .. } => topic,
            TopicMetadata::FeatureTopic { topic, .. } => topic,
            TopicMetadata::RequirementTopic { topic, .. } => topic,
            TopicMetadata::BehaviorTopic { topic, .. } => topic,
            TopicMetadata::CharacteristicTopic { topic, .. } => topic,
            TopicMetadata::FunctionalSemanticTopic { topic, .. } => topic,
            TopicMetadata::FunctionalPurposeTopic { topic, .. } => topic,
            TopicMetadata::PlacementRationaleTopic { topic, .. } => topic,
            TopicMetadata::ThreatTopic { topic, .. } => topic,
            TopicMetadata::ConditionTopic { topic, .. } => topic,
            TopicMetadata::InvariantTopic { topic, .. } => topic,
            TopicMetadata::ValidationTopic { topic, .. } => topic,
            TopicMetadata::DocumentationTopic { topic, .. } => topic,
        }
    }

    /// The topic for which this one is a transparent proxy.
    pub open spec fn proxied(self) -> Option<Topic> {
        match self {
            TopicMetadata::NamedTopic { transitive_topic, .. } => transitive_topic,
            TopicMetadata::UnnamedTopic { transitive_topic, .. } => transitive_topic,
            _ => None,
        }
    }

    /// The topic that this one is about.
    pub open spec fn target(self) -> Option<Topic> {
        match self {
            TopicMetadata::CommentTopic { target_topic, .. } => Some(target_topic),
            TopicMetadata::ThreatTopic { subject_topic, .. } => Some(subject_topic),
            TopicMetadata::FunctionalPurposeTopic { subject_topic, .. } => Some(subject_topic),
            TopicMetadata::PlacementRationaleTopic { subject_topic, .. } => Some(subject_topic),
            TopicMetadata::ConditionTopic { subject_topic, .. } => Some(subject_topic),
            TopicMetadata::InvariantTopic { threat_topic, .. } => Some(threat_topic),
            _ => None,
        }
    }

    pub open spec fn written_by(self) -> Option<Author> {
        match self {
            TopicMetadata::CommentTopic { author, .. } => Some(author),
            TopicMetadata::FeatureTopic { author, .. } => Some(author),
            TopicMetadata::RequirementTopic { author, .. } => Some(author),
            TopicMetadata::BehaviorTopic { author, .. } => Some(author),
            TopicMetadata::CharacteristicTopic { author, .. } => Some(author),
            TopicMetadata::FunctionalSemanticTopic { author, .. } => Some(author),
            TopicMetadata::FunctionalPurposeTopic { author, .. } => Some(author),
            TopicMetadata::PlacementRationaleTopic { author, .. } => Some(author),
            TopicMetadata::ThreatTopic { author, .. } => Some(author),
            TopicMetadata::ConditionTopic { author, .. } => Some(author),
            TopicMetadata::InvariantTopic { author, .. } => Some(author),
            TopicMetadata::ValidationTopic { author, .. } => Some(author),
            _ => None,
        }
    }

    pub open spec fn description_text(self) -> Option<Seq<char>> {
        match self {
            TopicMetadata::FeatureTopic { description, .. } => Some(description@),
            TopicMetadata::RequirementTopic { description, .. } => Some(description@),
            TopicMetadata::BehaviorTopic { description, .. } => Some(description@),
            TopicMetadata::CharacteristicTopic { description, .. } => Some(description@),
            TopicMetadata::FunctionalSemanticTopic { description, .. } => Some(description@),
            TopicMetadata::FunctionalPurposeTopic { description, .. } => Some(description@),
            TopicMetadata::PlacementRationaleTopic { description, .. } => Some(description@),
            TopicMetadata::ConditionTopic { description, .. } => Some(description@),
            TopicMetadata::ThreatTopic { description, .. } => Some(description@),
            TopicMetadata::InvariantTopic { description, .. } => Some(description@),
            _ => None,
        }
    }

    pub open spec fn created_text(self) -> Option<Seq<char>> {
        match self {
            TopicMetadata::CommentTopic { created_at, .. } => Some(created_at@),
            TopicMetadata::FeatureTopic { created_at, .. } => opt_text(created_at),
            TopicMetadata::RequirementTopic { created_at, .. } => opt_text(created_at),
            TopicMetadata::BehaviorTopic { created_at, .. } => opt_text(created_at),
            TopicMetadata::CharacteristicTopic { created_at, .. } => opt_text(created_at),
            TopicMetadata::FunctionalSemanticTopic { created_at, .. } => opt_text(created_at),
            TopicMetadata::FunctionalPurposeTopic { created_at, .. } => opt_text(created_at),
            TopicMetadata::PlacementRationaleTopic { created_at, .. } => opt_text(created_at),
            TopicMetadata::ThreatTopic { created_at, .. } => opt_text(created_at),
            TopicMetadata::ConditionTopic { created_at, .. } => opt_text(created_at),
            TopicMetadata::InvariantTopic { created_at, .. } => opt_text(created_at),
            TopicMetadata::ValidationTopic { created_at, .. } => opt_text(created_at),
            _ => None,
        }
    }

    pub fn scope(&self) -> (r: &Scope)
        ensures
            r@ == self.scope_view(),
    {
        match self {
            TopicMetadata::NamedTopic { scope, .. } => scope,
            TopicMetadata::UnnamedTopic { scope, .. } => scope,
            TopicMetadata::ControlFlow { scope, .. } => scope,
            TopicMetadata::TitledTopic { scope, .. } => scope,
            TopicMetadata::CommentTopic { scope, .. } => scope,
            TopicMetadata::DocumentationTopic { scope, .. } => scope,
            _ => &Scope::Global,
        }
    }

    pub fn name(&self) -> (r: Option<&str>)
        ensures
            r is Some == self.name_text() is Some,
            r is Some ==> r->0@ == self.name_text()->0,
    {
        match self {
            TopicMetadata::NamedTopic { name, .. } => Some(name.as_str()),
            TopicMetadata::FeatureTopic { name, .. } => Some(name.as_str()),
            TopicMetadata::TitledTopic { title, .. } => Some(title.as_str()),
            _ => None,
        }
    }

    pub fn topic(&self) -> (r: &Topic)
        ensures
            *r == self.own_topic(),
    {
        match self {
            TopicMetadata::NamedTopic { topic, .. } => topic,
            TopicMetadata::UnnamedTopic { topic, .. } => topic,
            TopicMetadata::ControlFlow { topic, .. } => topic,
            TopicMetadata::TitledTopic { topic, .. } => topic,
            TopicMetadata::CommentTopic { topic, .. } => topic,
            TopicMetadata::FeatureTopic { topic, .. } => topic,
            TopicMetadata::RequirementTopic { topic, .. } => topic,
            TopicMetadata::BehaviorTopic { topic, .. } => topic,
            TopicMetadata::CharacteristicTopic { topic, .. } => topic,
            TopicMetadata::FunctionalSemanticTopic { topic, .. } => topic,
            TopicMetadata::FunctionalPurposeTopic { topic, .. } => topic,
            TopicMetadata::PlacementRationaleTopic { topic, .. } => topic,
            TopicMetadata::ThreatTopic { topic, .. } => topic,
            TopicMetadata::ConditionTopic { topic, .. } => topic,
            TopicMetadata::InvariantTopic { topic, .. } => topic,
            TopicMetadata::ValidationTopic { topic, .. } => topic,
            TopicMetadata::DocumentationTopic { topic, .. } => topic,
        }
    }

    pub fn ancestors(&self) -> (r: &[Topic])
        ensures
            r@ == match self {
                TopicMetadata::NamedTopic { ancestors, .. } => ancestors@,
                _ => seq![],
            },
    {
        match self {
            TopicMetadata::NamedTopic { ancestors, .. } => ancestors.as_slice(),
            _ => &[],
        }
    }

    /// The topic for which this one is a transparent proxy, if it is one.
    pub fn transitive_topic(&self) -> (r: Option<&Topic>)
        ensures
            r is Some == self.proxied() is Some,
            r is Some ==> *r->0 == self.proxied()->0,
    {
        match self {
            TopicMetadata::NamedTopic { transitive_topic, .. } => transitive_topic.as_ref(),
            TopicMetadata::UnnamedTopic { transitive_topic, .. } => transitive_topic.as_ref(),
            _ => None,
        }
    }

    pub fn descendants(&self) -> (r: &[Topic])
        ensures
            r@ == match self {
                TopicMetadata::NamedTopic { descendants, .. } => descendants@,
                _ => seq![],
            },
    {
        match self {
            TopicMetadata::NamedTopic { descendants, .. } => descendants.as_slice(),
            _ => &[],
        }
    }

    pub fn relatives(&self) -> (r: &[Topic])
        ensures
            r@ == match self {
                TopicMetadata::NamedTopic { relatives, .. } => relatives@,
                _ => seq![],
            },
    {
        match self {
            TopicMetadata::NamedTopic { relatives, .. } => relatives.as_slice(),
            _ => &[],
        }
    }

    pub fn mutations(&self) -> (r: &[Topic])
        ensures
            r@ == match self {
                TopicMetadata::NamedTopic { mutations, .. } => mutations@,
                _ => seq![],
            },
    {
        match self {
            TopicMetadata::NamedTopic { mutations, .. } => mutations.as_slice(),
            _ => &[],
        }
    }

    pub fn is_mutable(&self) -> (r: bool)
        ensures
            r == match self {
                TopicMetadata::NamedTopic { is_mutable, .. } => *is_mutable,
                _ => false,
            },
    {
        match self {
            TopicMetadata::NamedTopic { is_mutable, .. } => *is_mutable,
            _ => false,
        }
    }

    /// The topic that this one is about: the target of a comment, the subject
    /// of a property, the threat of an invariant.
    pub fn target_topic(&self) -> (r: Option<&Topic>)
        ensures
            r is Some == self.target() is Some,
            r is Some ==> *r->0 == self.target()->0,
    {
        match self {
            TopicMetadata::CommentTopic { target_topic, .. } => Some(target_topic),
            TopicMetadata::ThreatTopic { subject_topic, .. } => Some(subject_topic),
            TopicMetadata::FunctionalPurposeTopic { subject_topic, .. } => Some(subject_topic),
            TopicMetadata::PlacementRationaleTopic { subject_topic, .. } => Some(subject_topic),
            TopicMetadata::ConditionTopic { subject_topic, .. } => Some(subject_topic),
            TopicMetadata::InvariantTopic { threat_topic, .. } => Some(threat_topic),
            _ => None,
        }
    }

    pub fn author(&self) -> (r: Option<Author>)
        ensures
            r == self.written_by(),
    {
        match self {
            TopicMetadata::CommentTopic { author, .. } => Some(*author),
            TopicMetadata::FeatureTopic { author, .. } => Some(*author),
            TopicMetadata::RequirementTopic { author, .. } => Some(*author),
            TopicMetadata::BehaviorTopic { author, .. } => Some(*author),
            TopicMetadata::CharacteristicTopic { author, .. } => Some(*author),
            TopicMetadata::FunctionalSemanticTopic { author, .. } => Some(*author),
            TopicMetadata::FunctionalPurposeTopic { author, .. } => Some(*author),
            TopicMetadata::PlacementRationaleTopic { author, .. } => Some(*author),
            TopicMetadata::ThreatTopic { author, .. } => Some(*author),
            TopicMetadata::ConditionTopic { author, .. } => Some(*author),
            TopicMetadata::InvariantTopic { author, .. } => Some(*author),
            TopicMetadata::ValidationTopic { author, .. } => Some(*author),
            _ => None,
        }
    }

    pub fn author_id(&self) -> (r: Option<i64>)
        ensures
            match self.written_by() {
                Some(a) => r is Some && r->0 == a.number(),
                None => r is None,
            },
    {
        match self.author() {
            Some(a) => Some(a.as_i64()),
            None => None,
        }
    }

    /// The description, for topics that have one.
    pub fn description(&self) -> (r: Option<&str>)
        ensures
            r is Some == self.description_text() is Some,
            r is Some ==> r->0@ == self.description_text()->0,
    {
        match self {
            TopicMetadata::FeatureTopic { description, .. } => Some(description.as_str()),
            TopicMetadata::RequirementTopic { description, .. } => Some(description.as_str()),
            TopicMetadata::BehaviorTopic { description, .. } => Some(description.as_str()),
            TopicMetadata::CharacteristicTopic { description, .. } => Some(description.as_str()),
            TopicMetadata::FunctionalSemanticTopic { description, .. } => Some(
                description.as_str(),
            ),
            TopicMetadata::FunctionalPurposeTopic { description, .. } => Some(
                description.as_str(),
            ),
            TopicMetadata::PlacementRationaleTopic { description, .. } => Some(
                description.as_str(),
            ),
            TopicMetadata::ConditionTopic { description, .. } => Some(description.as_str()),
            TopicMetadata::ThreatTopic { description, .. } => Some(description.as_str()),
            TopicMetadata::InvariantTopic { description, .. } => Some(description.as_str()),
            _ => None,
        }
    }

    pub fn comment_type(&self) -> (r: Option<&CommentType>)
        ensures
            match self {
                TopicMetadata::CommentTopic { comment_type, .. } => r is Some && *r->0
                    == *comment_type,
                _ => r is None,
            },
    {
        match self {
            TopicMetadata::CommentTopic { comment_type, .. } => Some(comment_type),
            _ => None,
        }
    }

    /// When the topic was written, for topics that record it.
    pub fn created_at(&self) -> (r: Option<&str>)
        ensures
            r is Some == self.created_text() is Some,
            r is Some ==> r->0@ == self.created_text()->0,
    {
        match self {
            TopicMetadata::CommentTopic { created_at, .. } => Some(created_at.as_str()),
            TopicMetadata::FeatureTopic { created_at, .. } => text_ref(created_at),
            TopicMetadata::RequirementTopic { created_at, .. } => text_ref(created_at),
            TopicMetadata::BehaviorTopic { created_at, .. } => text_ref(created_at),
            TopicMetadata::CharacteristicTopic { created_at, .. } => text_ref(created_at),
            TopicMetadata::FunctionalSemanticTopic { created_at, .. } => text_ref(created_at),
            TopicMetadata::FunctionalPurposeTopic { created_at, .. } => text_ref(created_at),
            TopicMetadata::PlacementRationaleTopic { created_at, .. } => text_ref(created_at),
            TopicMetadata::ThreatTopic { created_at, .. } => text_ref(created_at),
            TopicMetadata::ConditionTopic { created_at, .. } => text_ref(created_at),
            TopicMetadata::InvariantTopic { created_at, .. } => text_ref(created_at),
            TopicMetadata::ValidationTopic { created_at, .. } => text_ref(created_at),
            _ => None,
        }
    }
}

fn text_ref(s: &Option<String>) -> (r: Option<&str>)
    ensures
        r is Some == opt_text(*s) is Some,
        r is Some ==> r->0@ == opt_text(*s)->0,
{
    match s {
        Some(s) => Some(s.as_str()),
        None => None,
    }
}

/// A copy of an optional text.
pub fn copy_text(s: &Option<String>) -> (r: Option<String>)
    ensures
        opt_text(r) == opt_text(*s),
{
    match s {
        Some(s) => Some(s.clone()),
        None => None,
    }
}

/// A revert or require statement.
#[derive(Debug, Clone, Copy, PartialEq, Eq, Structural)]
pub struct RevertInfo {
    pub topic: Topic,
    pub kind: RevertConstraintKind,
    /// The error declaration that is raised, where one is named.
    pub error_topic: Option<Topic>,
}

/// A call site with its resolved callee.
#[derive(Debug, Clone, Copy, PartialEq, Eq, Structural)]
pub struct CallInfo {
    pub site: Topic,
    pub callee: Topic,
    /// Whether the call is the external call of a try statement.
    pub in_try_block: bool,
}

/// A revert that a function can raise through its callees.
#[derive(Debug, Clone, Copy, PartialEq, Eq, Structural)]
pub struct EffectiveRevert {
    pub revert: RevertInfo,
    /// The function or modifier whose body raises it.
    pub origin: Topic,
}

/// A state access or event emission that a function can reach through its
/// callees.
#[derive(Debug, Clone, Copy, PartialEq, Eq, Structural)]
pub struct EffectiveTopic {
    pub topic: Topic,
    /// The function or modifier whose body triggers it.
    pub origin: Topic,
}

#[derive(Debug)]
pub enum FunctionModProperties {
    FunctionProperties {
        reverts: Vec<RevertInfo>,
        effective_reverts: Vec<EffectiveRevert>,
        calls: Vec<CallInfo>,
        mutations: Vec<Topic>,
        effective_mutations: Vec<EffectiveTopic>,
        reads: Vec<Topic>,
        effective_reads: Vec<EffectiveTopic>,
        events_emitted: Vec<Topic>,
        effective_events_emitted: Vec<EffectiveTopic>,
    },
    ModifierProperties {
        reverts: Vec<RevertInfo>,
        effective_reverts: Vec<EffectiveRevert>,
        calls: Vec<CallInfo>,
        mutations: Vec<Topic>,
        effective_mutations: Vec<EffectiveTopic>,
        reads: Vec<Topic>,
        effective_reads: Vec<EffectiveTopic>,
        events_emitted: Vec<Topic>,
        effective_events_emitted: Vec<EffectiveTopic>,
    },
}

} // verus!
