//! All data of an audit.
use crate::domain::context::SourceContext;
use crate::domain::index::TopicIndex;
use crate::domain::kinds::{MatchSource, NamedTopicKind, NamedTopicVisibility, NonPureSubjectType};
use crate::domain::kinds::{SolidityType, ThreatFeatureRelation, ThreatSeverity};
use crate::domain::metadata::{FunctionModProperties, TopicMetadata};
use crate::domain::names::TopicNameIndex;
use crate::domain::node::{Node, AST};
use crate::domain::path::ProjectPath;
use crate::domain::scope::Scope;
use crate::domain::topic::{new_node_topic, Topic};
use crate::ordered::OrderedMap;
use crate::resolution_graph::graph::ResolutionGraph;
use crate::resolution_graph::trace::{ResolutionRefId, ResolutionTrace};
use vstd::prelude::*;
use vstd::string::*;

verus! {

/// A semantic on its way from synthesis to its topic.
#[derive(Debug)]
pub struct SemanticLink {
    pub documentation_topics: Vec<Topic>,
    pub declaration_topic: Topic,
    pub description: String,
    pub match_source: MatchSource,
}

/// A requirement, with the documentation that informed it.
#[derive(Debug)]
pub struct Requirement {
    pub documentation_topics: Vec<Topic>,
}

/// A system characteristic, with the documentation that informed it.
#[derive(Debug)]
pub struct Characteristic {
    pub documentation_topics: Vec<Topic>,
}

/// A link between a threat and a feature.
#[derive(Debug, Clone, Copy, PartialEq, Eq, Structural)]
pub struct ThreatFeatureLink {
    pub threat_topic: Topic,
    pub feature_topic: Topic,
    pub relation: ThreatFeatureRelation,
    pub severity: ThreatSeverity,
}

/// A threat, with the invariants that defend against it.
#[derive(Debug)]
pub struct Threat {
    pub invariant_topics: Vec<Topic>,
}

/// An invariant, with the source topics that enforce it.
#[derive(Debug)]
pub struct Invariant {
    pub source_topics: Vec<Topic>,
}

/// A question on a condition and its answer.
#[derive(Debug)]
pub struct ConditionEvaluation {
    pub question: String,
    pub answer: String,
}

/// A condition that a collaborator put on a subject.
#[derive(Debug)]
pub struct Condition {
    pub subject_topic: Topic,
    pub condition_type: NonPureSubjectType,
    pub description: String,
    pub evaluations: Vec<ConditionEvaluation>,
}

/// A set of project paths.
pub type PathSet = OrderedMap<ProjectPath, ()>;

/// All data of one audit.
pub struct AuditData {
    pub audit_name: String,
    pub in_scope_files: PathSet,
    /// Free-form security notes.
    pub security_notes: Option<String>,
    pub asts: OrderedMap<ProjectPath, AST>,
    pub nodes: OrderedMap<Topic, Node>,
    pub topic_metadata: OrderedMap<Topic, TopicMetadata>,
    pub function_properties: OrderedMap<Topic, FunctionModProperties>,
    pub variable_types: OrderedMap<Topic, SolidityType>,
    /// Topics by name. Built after all metadata is there.
    pub name_index: TopicNameIndex,
    /// Visible comments by the topic they are on.
    pub comment_index: TopicIndex,
    /// The contexts in which each topic occurs.
    pub topic_context: OrderedMap<Topic, Vec<SourceContext>>,
    /// Related contexts of each topic.
    pub expanded_topic_context: OrderedMap<Topic, Vec<SourceContext>>,
    pub requirements: OrderedMap<Topic, Requirement>,
    pub characteristics: OrderedMap<Topic, Characteristic>,
    /// Requirements by the section they come from.
    pub section_requirements: TopicIndex,
    /// Behaviors by the member they belong to.
    pub member_behaviors: TopicIndex,
    /// Semantics by the declaration they describe.
    pub declaration_semantics: TopicIndex,
    /// The purpose of each subject.
    pub subject_purposes: OrderedMap<Topic, Topic>,
    /// The placement rationale of each subject.
    pub subject_placements: OrderedMap<Topic, Topic>,
    /// Conditions by their subject.
    pub subject_conditions: TopicIndex,
    pub threat_feature_links: Vec<ThreatFeatureLink>,
    pub threats: OrderedMap<Topic, Threat>,
    pub invariants: OrderedMap<Topic, Invariant>,
    pub conditions: Vec<Condition>,
    /// Requirements by feature.
    pub feature_requirement_links: TopicIndex,
    /// Behaviors by feature.
    pub feature_behavior_links: TopicIndex,
    /// Mentioning comments by the topic they mention.
    pub mentions_index: TopicIndex,
    /// The bases of each contract that has any.
    pub inheritance: TopicIndex,
    pub resolution_graph: Option<ResolutionGraph>,
    pub resolution_traces: OrderedMap<ResolutionRefId, ResolutionTrace>,
}

/// The metadata of every topic, in ascending order.
pub open spec fn entries(a: &AuditData) -> Seq<(Topic, TopicMetadata)> {
    a.topic_metadata.pairs()
}

/// The node numbers of the Solidity globals `keccak256`, `type` and `this`.
pub const KECCAK256_NODE: i32 = -8;

pub const TYPE_NODE: i32 = -27;

pub const THIS_NODE: i32 = -28;

/// `m` is the metadata of a global that the language itself declares.
pub open spec fn is_builtin(m: TopicMetadata, t: Topic, label: Seq<char>) -> bool {
    match m {
        TopicMetadata::NamedTopic {
            topic,
            scope,
            kind,
            name,
            visibility,
            is_mutable,
            mutations,
            ancestors,
            descendants,
            relatives,
            transitive_topic,
            doc_references,
        } => {
            &&& topic == t
            &&& scope == Scope::Global
            &&& kind == NamedTopicKind::Builtin
            &&& name@ == label
            &&& visibility == NamedTopicVisibility::Public
            &&& !is_mutable
            &&& mutations@ == Seq::<Topic>::empty()
            &&& ancestors@ == Seq::<Topic>::empty()
            &&& descendants@ == Seq::<Topic>::empty()
            &&& relatives@ == Seq::<Topic>::empty()
            &&& transitive_topic is None
            &&& doc_references@ == Seq::<Topic>::empty()
        },
        _ => false,
    }
}

fn builtin(t: Topic, label: &str) -> (r: TopicMetadata)
    ensures
        is_builtin(r, t, label@),
{
    TopicMetadata::NamedTopic {
        topic: t,
        scope: Scope::Global,
        kind: NamedTopicKind::Builtin,
        name: label.to_owned(),
        visibility: NamedTopicVisibility::Public,
        is_mutable: false,
        mutations: Vec::new(),
        ancestors: Vec::new(),
        descendants: Vec::new(),
        relatives: Vec::new(),
        transitive_topic: None,
        doc_references: Vec::new(),
    }
}

/// `a` is a new audit: it knows the globals of Solidity and nothing else.
pub open spec fn is_new_audit(
    a: AuditData,
    audit_name: String,
    in_scope_files: PathSet,
    security_notes: Option<String>,
) -> bool {
    &&& a.audit_name == audit_name
    &&& a.in_scope_files == in_scope_files
    &&& a.security_notes == security_notes
    &&& a.topic_metadata.pairs().len() == 3
    &&& a.topic_metadata@.dom() == set![Topic::Node(KECCAK256_NODE), Topic::Node(TYPE_NODE), Topic::Node(THIS_NODE)]
    &&& is_builtin(a.topic_metadata@[Topic::Node(KECCAK256_NODE)], Topic::Node(KECCAK256_NODE), "keccak256"@)
    &&& is_builtin(a.topic_metadata@[Topic::Node(TYPE_NODE)], Topic::Node(TYPE_NODE), "type"@)
    &&& is_builtin(a.topic_metadata@[Topic::Node(THIS_NODE)], Topic::Node(THIS_NODE), "this"@)
    &&& a.asts.pairs().len() == 0
    &&& a.nodes.pairs().len() == 0
    &&& a.function_properties.pairs().len() == 0
    &&& a.variable_types.pairs().len() == 0
    &&& a.name_index.is_blank()
    &&& a.comment_index.pairs().len() == 0
    &&& a.topic_context.pairs().len() == 0
    &&& a.expanded_topic_context.pairs().len() == 0
    &&& a.requirements.pairs().len() == 0
    &&& a.characteristics.pairs().len() == 0
    &&& a.section_requirements.pairs().len() == 0
    &&& a.member_behaviors.pairs().len() == 0
    &&& a.declaration_semantics.pairs().len() == 0
    &&& a.subject_purposes.pairs().len() == 0
    &&& a.subject_placements.pairs().len() == 0
    &&& a.subject_conditions.pairs().len() == 0
    &&& a.threat_feature_links@.len() == 0
    &&& a.threats.pairs().len() == 0
    &&& a.invariants.pairs().len() == 0
    &&& a.conditions@.len() == 0
    &&& a.feature_requirement_links.pairs().len() == 0
    &&& a.feature_behavior_links.pairs().len() == 0
    &&& a.mentions_index.pairs().len() == 0
    &&& a.inheritance.pairs().len() == 0
    &&& a.resolution_graph is None
    &&& a.resolution_traces.pairs().len() == 0
}

/// A new audit, with the globals of Solidity as its only topics.
pub fn new_audit_data(
    audit_name: String,
    in_scope_files: PathSet,
    security_notes: Option<String>,
) -> (r: AuditData)
    ensures
        is_new_audit(r, audit_name, in_scope_files, security_notes),
{
    let mut topic_metadata: OrderedMap<Topic, TopicMetadata> = OrderedMap::new();
    let keccak256_topic = new_node_topic(&KECCAK256_NODE);
    topic_metadata.insert(keccak256_topic, builtin(keccak256_topic, "keccak256"));
    let type_topic = new_node_topic(&TYPE_NODE);
    let _ = topic_metadata.len();
    proof {
        crate::ordered::lemma_place_splits(topic_metadata.pairs(), type_topic);
    }
    assert(!topic_metadata@.dom().contains(type_topic));
    topic_metadata.insert(type_topic, builtin(type_topic, "type"));
    let this_topic = new_node_topic(&THIS_NODE);
    assert(!topic_metadata@.dom().contains(this_topic));
    let _ = topic_metadata.len();
    proof {
        crate::ordered::lemma_place_splits(topic_metadata.pairs(), this_topic);
    }
    topic_metadata.insert(this_topic, builtin(this_topic, "this"));
    assert(topic_metadata@.dom() =~= set![Topic::Node(KECCAK256_NODE), Topic::Node(TYPE_NODE), Topic::Node(THIS_NODE)]);
    AuditData {
        audit_name,
        in_scope_files,
        security_notes,
        asts: OrderedMap::new(),
        nodes: OrderedMap::new(),
        topic_metadata,
        function_properties: OrderedMap::new(),
        variable_types: OrderedMap::new(),
        name_index: TopicNameIndex::empty(),
        comment_index: OrderedMap::new(),
        topic_context: OrderedMap::new(),
        expanded_topic_context: OrderedMap::new(),
        requirements: OrderedMap::new(),
        characteristics: OrderedMap::new(),
        section_requirements: OrderedMap::new(),
        member_behaviors: OrderedMap::new(),
        declaration_semantics: OrderedMap::new(),
        subject_purposes: OrderedMap::new(),
        subject_placements: OrderedMap::new(),
        subject_conditions: OrderedMap::new(),
        threat_feature_links: Vec::new(),
        threats: OrderedMap::new(),
        invariants: OrderedMap::new(),
        conditions: Vec::new(),
        feature_requirement_links: OrderedMap::new(),
        feature_behavior_links: OrderedMap::new(),
        mentions_index: OrderedMap::new(),
        inheritance: OrderedMap::new(),
        resolution_graph: None,
        resolution_traces: OrderedMap::new(),
    }
}

} // verus!
