//! What is known of a topic, field by field.
use crate::domain::metadata::{opt_text, TopicMetadata};
use crate::domain::scope::{BlockAnnotation, ContainingBlockLayer, Scope, ScopeView};
use crate::domain::topic::Topic;
use vstd::prelude::*;

verus! {

/// A topic of the sources stands in the scope that it records, and so do comments.
/// Every other topic stands outside the sources.
pub proof fn topics_stand_in_their_scope(m: TopicMetadata)
    ensures
        m matches TopicMetadata::NamedTopic { scope, .. } ==> m.scope_view() == scope@,
        m matches TopicMetadata::UnnamedTopic { scope, .. } ==> m.scope_view() == scope@,
        m matches TopicMetadata::ControlFlow { scope, .. } ==> m.scope_view() == scope@,
        m matches TopicMetadata::TitledTopic { scope, .. } ==> m.scope_view() == scope@,
        m matches TopicMetadata::CommentTopic { scope, .. } ==> m.scope_view() == scope@,
        m matches TopicMetadata::DocumentationTopic { scope, .. } ==> m.scope_view() == scope@,
        !(m is NamedTopic) && !(m is UnnamedTopic) && !(m is ControlFlow) && !(m is TitledTopic) && !(m is CommentTopic) && !(m is DocumentationTopic) ==> m.scope_view() == ScopeView::Global,
{
}

/// Whatever it is, metadata names the topic that it was recorded for.
pub proof fn topics_know_themselves(m: TopicMetadata)
    ensures
        m matches TopicMetadata::NamedTopic { topic, .. } ==> m.own_topic() == topic,
        m matches TopicMetadata::UnnamedTopic { topic, .. } ==> m.own_topic() == topic,
        m matches TopicMetadata::ControlFlow { topic, .. } ==> m.own_topic() == topic,
        m matches TopicMetadata::TitledTopic { topic, .. } ==> m.own_topic() == topic,
        m matches TopicMetadata::CommentTopic { topic, .. } ==> m.own_topic() == topic,
        m matches TopicMetadata::FeatureTopic { topic, .. } ==> m.own_topic() == topic,
        m matches TopicMetadata::RequirementTopic { topic, .. } ==> m.own_topic() == topic,
        m matches TopicMetadata::BehaviorTopic { topic, .. } ==> m.own_topic() == topic,
        m matches TopicMetadata::CharacteristicTopic { topic, .. } ==> m.own_topic() == topic,
        m matches TopicMetadata::FunctionalSemanticTopic { topic, .. } ==> m.own_topic() == topic,
        m matches TopicMetadata::FunctionalPurposeTopic { topic, .. } ==> m.own_topic() == topic,
        m matches TopicMetadata::PlacementRationaleTopic { topic, .. } ==> m.own_topic() == topic,
        m matches TopicMetadata::ThreatTopic { topic, .. } ==> m.own_topic() == topic,
        m matches TopicMetadata::ConditionTopic { topic, .. } ==> m.own_topic() == topic,
        m matches TopicMetadata::InvariantTopic { topic, .. } ==> m.own_topic() == topic,
        m matches TopicMetadata::ValidationTopic { topic, .. } ==> m.own_topic() == topic,
        m matches TopicMetadata::DocumentationTopic { topic, .. } ==> m.own_topic() == topic,
{
}

/// Whatever someone wrote names its author. What stands in the sources has none.
pub proof fn authors_are_recorded(m: TopicMetadata)
    ensures
        m matches TopicMetadata::CommentTopic { author, .. } ==> m.written_by() == Some(author),
        m matches TopicMetadata::FeatureTopic { author, .. } ==> m.written_by() == Some(author),
        m matches TopicMetadata::RequirementTopic { author, .. } ==> m.written_by() == Some(author),
        m matches TopicMetadata::BehaviorTopic { author, .. } ==> m.written_by() == Some(author),
        m matches TopicMetadata::CharacteristicTopic { author, .. } ==> m.written_by() == Some(author),
        m matches TopicMetadata::FunctionalSemanticTopic { author, .. } ==> m.written_by() == Some(author),
        m matches TopicMetadata::FunctionalPurposeTopic { author, .. } ==> m.written_by() == Some(author),
        m matches TopicMetadata::PlacementRationaleTopic { author, .. } ==> m.written_by() == Some(author),
        m matches TopicMetadata::ThreatTopic { author, .. } ==> m.written_by() == Some(author),
        m matches TopicMetadata::ConditionTopic { author, .. } ==> m.written_by() == Some(author),
        m matches TopicMetadata::InvariantTopic { author, .. } ==> m.written_by() == Some(author),
        m matches TopicMetadata::ValidationTopic { author, .. } ==> m.written_by() == Some(author),
        !(m is CommentTopic) && !(m is FeatureTopic) && !(m is RequirementTopic) && !(m is BehaviorTopic) && !(m is CharacteristicTopic) && !(m is FunctionalSemanticTopic) && !(m is FunctionalPurposeTopic) && !(m is PlacementRationaleTopic) && !(m is ThreatTopic) && !(m is ConditionTopic) && !(m is InvariantTopic) && !(m is ValidationTopic) ==> m.written_by() is None,
{
}

/// Whatever has a description is described by it.
pub proof fn descriptions_are_recorded(m: TopicMetadata)
    ensures
        m matches TopicMetadata::FeatureTopic { description, .. } ==> m.description_text() == Some(description@),
        m matches TopicMetadata::RequirementTopic { description, .. } ==> m.description_text() == Some(description@),
        m matches TopicMetadata::BehaviorTopic { description, .. } ==> m.description_text() == Some(description@),
        m matches TopicMetadata::CharacteristicTopic { description, .. } ==> m.description_text() == Some(description@),
        m matches TopicMetadata::FunctionalSemanticTopic { description, .. } ==> m.description_text() == Some(description@),
        m matches TopicMetadata::FunctionalPurposeTopic { description, .. } ==> m.description_text() == Some(description@),
        m matches TopicMetadata::PlacementRationaleTopic { description, .. } ==> m.description_text() == Some(description@),
        m matches TopicMetadata::ThreatTopic { description, .. } ==> m.description_text() == Some(description@),
        m matches TopicMetadata::ConditionTopic { description, .. } ==> m.description_text() == Some(description@),
        m matches TopicMetadata::InvariantTopic { description, .. } ==> m.description_text() == Some(description@),
        !(m is FeatureTopic) && !(m is RequirementTopic) && !(m is BehaviorTopic) && !(m is CharacteristicTopic) && !(m is FunctionalSemanticTopic) && !(m is FunctionalPurposeTopic) && !(m is PlacementRationaleTopic) && !(m is ThreatTopic) && !(m is ConditionTopic) && !(m is InvariantTopic) ==> m.description_text() is None,
{
}

/// Whatever records when it was written says so.
pub proof fn times_are_recorded(m: TopicMetadata)
    ensures
        m matches TopicMetadata::CommentTopic { created_at, .. } ==> m.created_text() == Some(created_at@),
        m matches TopicMetadata::FeatureTopic { created_at, .. } ==> m.created_text() == opt_text(created_at),
        m matches TopicMetadata::RequirementTopic { created_at, .. } ==> m.created_text() == opt_text(created_at),
        m matches TopicMetadata::BehaviorTopic { created_at, .. } ==> m.created_text() == opt_text(created_at),
        m matches TopicMetadata::CharacteristicTopic { created_at, .. } ==> m.created_text() == opt_text(created_at),
        m matches TopicMetadata::FunctionalSemanticTopic { created_at, .. } ==> m.created_text() == opt_text(created_at),
        m matches TopicMetadata::FunctionalPurposeTopic { created_at, .. } ==> m.created_text() == opt_text(created_at),
        m matches TopicMetadata::PlacementRationaleTopic { created_at, .. } ==> m.created_text() == opt_text(created_at),
        m matches TopicMetadata::ThreatTopic { created_at, .. } ==> m.created_text() == opt_text(created_at),
        m matches TopicMetadata::ConditionTopic { created_at, .. } ==> m.created_text() == opt_text(created_at),
        m matches TopicMetadata::InvariantTopic { created_at, .. } ==> m.created_text() == opt_text(created_at),
        m matches TopicMetadata::ValidationTopic { created_at, .. } ==> m.created_text() == opt_text(created_at),
        !(m is CommentTopic) && !(m is FeatureTopic) && !(m is RequirementTopic) && !(m is BehaviorTopic) && !(m is CharacteristicTopic) && !(m is FunctionalSemanticTopic) && !(m is FunctionalPurposeTopic) && !(m is PlacementRationaleTopic) && !(m is ThreatTopic) && !(m is ConditionTopic) && !(m is InvariantTopic) && !(m is ValidationTopic) ==> m.created_text() is None,
{
}

/// Declarations, features and titled topics have names, and nothing else has one.
pub proof fn names_are_recorded(m: TopicMetadata)
    ensures
        m matches TopicMetadata::NamedTopic { name, .. } ==> m.name_text() == Some(name@),
        m matches TopicMetadata::FeatureTopic { name, .. } ==> m.name_text() == Some(name@),
        m matches TopicMetadata::TitledTopic { title, .. } ==> m.name_text() == Some(title@),
        !(m is NamedTopic) && !(m is FeatureTopic) && !(m is TitledTopic) ==> m.name_text() is None,
{
}

/// Only code stands for other code.
pub proof fn proxies_are_recorded(m: TopicMetadata)
    ensures
        m matches TopicMetadata::NamedTopic { transitive_topic, .. } ==> m.proxied() == transitive_topic,
        m matches TopicMetadata::UnnamedTopic { transitive_topic, .. } ==> m.proxied() == transitive_topic,
        !(m is NamedTopic) && !(m is UnnamedTopic) ==> m.proxied() is None,
{
}

/// A comment is about its target, a property about its subject, and an invariant
/// about its threat. Nothing else is about another topic.
pub proof fn subjects_are_recorded(m: TopicMetadata)
    ensures
        m matches TopicMetadata::CommentTopic { target_topic, .. } ==> m.target() == Some(
            target_topic,
        ),
        m matches TopicMetadata::ThreatTopic { subject_topic, .. } ==> m.target() == Some(
            subject_topic,
        ),
        m matches TopicMetadata::FunctionalPurposeTopic { subject_topic, .. } ==> m.target() == Some(
            subject_topic,
        ),
        m matches TopicMetadata::PlacementRationaleTopic { subject_topic, .. } ==> m.target() == Some(
            subject_topic,
        ),
        m matches TopicMetadata::ConditionTopic { subject_topic, .. } ==> m.target() == Some(
            subject_topic,
        ),
        m matches TopicMetadata::InvariantTopic { threat_topic, .. } ==> m.target() == Some(
            threat_topic,
        ),
        m.target() is Some ==> m is CommentTopic || m is ThreatTopic || m is FunctionalPurposeTopic
            || m is PlacementRationaleTopic || m is ConditionTopic || m is InvariantTopic,
{
}

/// Metadata with the same contents as that of a named agrees with it in every field.
pub proof fn contents_of_a_named_are_its_fields(a: TopicMetadata, b: TopicMetadata)
    requires
        a is NamedTopic,
        a@ == b@,
    ensures
        b is NamedTopic,
        a->NamedTopic_topic == b->NamedTopic_topic,
        a->NamedTopic_scope@ == b->NamedTopic_scope@,
        a->NamedTopic_kind == b->NamedTopic_kind,
        a->NamedTopic_name@ == b->NamedTopic_name@,
        a->NamedTopic_visibility == b->NamedTopic_visibility,
        a->NamedTopic_is_mutable == b->NamedTopic_is_mutable,
        a->NamedTopic_mutations@ == b->NamedTopic_mutations@,
        a->NamedTopic_ancestors@ == b->NamedTopic_ancestors@,
        a->NamedTopic_descendants@ == b->NamedTopic_descendants@,
        a->NamedTopic_relatives@ == b->NamedTopic_relatives@,
        a->NamedTopic_transitive_topic == b->NamedTopic_transitive_topic,
        a->NamedTopic_doc_references@ == b->NamedTopic_doc_references@,
{
}

/// Metadata with the same contents as that of a unnamed agrees with it in every field.
pub proof fn contents_of_a_unnamed_are_its_fields(a: TopicMetadata, b: TopicMetadata)
    requires
        a is UnnamedTopic,
        a@ == b@,
    ensures
        b is UnnamedTopic,
        a->UnnamedTopic_topic == b->UnnamedTopic_topic,
        a->UnnamedTopic_scope@ == b->UnnamedTopic_scope@,
        a->UnnamedTopic_kind == b->UnnamedTopic_kind,
        a->UnnamedTopic_transitive_topic == b->UnnamedTopic_transitive_topic,
{
}

/// Metadata with the same contents as that of a control flow statement agrees with it
/// in every field.
pub proof fn contents_of_a_control_flow_are_its_fields(a: TopicMetadata, b: TopicMetadata)
    requires
        a is ControlFlow,
        a@ == b@,
    ensures
        b is ControlFlow,
        a->ControlFlow_topic == b->ControlFlow_topic,
        a->ControlFlow_scope@ == b->ControlFlow_scope@,
        a->ControlFlow_kind == b->ControlFlow_kind,
        a->ControlFlow_condition == b->ControlFlow_condition,
{
}

/// Metadata with the same contents as that of a titled agrees with it in every field.
pub proof fn contents_of_a_titled_are_its_fields(a: TopicMetadata, b: TopicMetadata)
    requires
        a is TitledTopic,
        a@ == b@,
    ensures
        b is TitledTopic,
        a->TitledTopic_topic == b->TitledTopic_topic,
        a->TitledTopic_scope@ == b->TitledTopic_scope@,
        a->TitledTopic_kind == b->TitledTopic_kind,
        a->TitledTopic_title@ == b->TitledTopic_title@,
{
}

/// Metadata with the same contents as that of a comment agrees with it in every field.
pub proof fn contents_of_a_comment_are_its_fields(a: TopicMetadata, b: TopicMetadata)
    requires
        a is CommentTopic,
        a@ == b@,
    ensures
        b is CommentTopic,
        a->CommentTopic_topic == b->CommentTopic_topic,
        a->CommentTopic_scope@ == b->CommentTopic_scope@,
        a->CommentTopic_target_topic == b->CommentTopic_target_topic,
        a->CommentTopic_comment_type == b->CommentTopic_comment_type,
        a->CommentTopic_author == b->CommentTopic_author,
        a->CommentTopic_created_at@ == b->CommentTopic_created_at@,
        a->CommentTopic_mentioned_topics@ == b->CommentTopic_mentioned_topics@,
{
}

/// Metadata with the same contents as that of a feature agrees with it in every field.
pub proof fn contents_of_a_feature_are_its_fields(a: TopicMetadata, b: TopicMetadata)
    requires
        a is FeatureTopic,
        a@ == b@,
    ensures
        b is FeatureTopic,
        a->FeatureTopic_topic == b->FeatureTopic_topic,
        a->FeatureTopic_name@ == b->FeatureTopic_name@,
        a->FeatureTopic_description@ == b->FeatureTopic_description@,
        a->FeatureTopic_author == b->FeatureTopic_author,
        opt_text(a->FeatureTopic_created_at) == opt_text(b->FeatureTopic_created_at),
{
}

/// Metadata with the same contents as that of a requirement agrees with it in every field.
pub proof fn contents_of_a_requirement_are_its_fields(a: TopicMetadata, b: TopicMetadata)
    requires
        a is RequirementTopic,
        a@ == b@,
    ensures
        b is RequirementTopic,
        a->RequirementTopic_topic == b->RequirementTopic_topic,
        a->RequirementTopic_description@ == b->RequirementTopic_description@,
        a->RequirementTopic_section_topic == b->RequirementTopic_section_topic,
        a->RequirementTopic_author == b->RequirementTopic_author,
        opt_text(a->RequirementTopic_created_at) == opt_text(b->RequirementTopic_created_at),
{
}

/// Metadata with the same contents as that of a behavior agrees with it in every field.
pub proof fn contents_of_a_behavior_are_its_fields(a: TopicMetadata, b: TopicMetadata)
    requires
        a is BehaviorTopic,
        a@ == b@,
    ensures
        b is BehaviorTopic,
        a->BehaviorTopic_topic == b->BehaviorTopic_topic,
        a->BehaviorTopic_description@ == b->BehaviorTopic_description@,
        a->BehaviorTopic_member_topic == b->BehaviorTopic_member_topic,
        a->BehaviorTopic_author == b->BehaviorTopic_author,
        opt_text(a->BehaviorTopic_created_at) == opt_text(b->BehaviorTopic_created_at),
{
}

/// Metadata with the same contents as that of a characteristic agrees with it in every field.
pub proof fn contents_of_a_characteristic_are_its_fields(a: TopicMetadata, b: TopicMetadata)
    requires
        a is CharacteristicTopic,
        a@ == b@,
    ensures
        b is CharacteristicTopic,
        a->CharacteristicTopic_topic == b->CharacteristicTopic_topic,
        a->CharacteristicTopic_description@ == b->CharacteristicTopic_description@,
        a->CharacteristicTopic_kind == b->CharacteristicTopic_kind,
        a->CharacteristicTopic_section_topic == b->CharacteristicTopic_section_topic,
        a->CharacteristicTopic_author == b->CharacteristicTopic_author,
        opt_text(a->CharacteristicTopic_created_at) == opt_text(b->CharacteristicTopic_created_at),
{
}

/// Metadata with the same contents as that of a functional semantic agrees with it in every field.
pub proof fn contents_of_a_functional_semantic_are_its_fields(a: TopicMetadata, b: TopicMetadata)
    requires
        a is FunctionalSemanticTopic,
        a@ == b@,
    ensures
        b is FunctionalSemanticTopic,
        a->FunctionalSemanticTopic_topic == b->FunctionalSemanticTopic_topic,
        a->FunctionalSemanticTopic_description@ == b->FunctionalSemanticTopic_description@,
        a->FunctionalSemanticTopic_declaration_topic == b->FunctionalSemanticTopic_declaration_topic,
        a->FunctionalSemanticTopic_documentation_topics@ == b->FunctionalSemanticTopic_documentation_topics@,
        a->FunctionalSemanticTopic_author == b->FunctionalSemanticTopic_author,
        opt_text(a->FunctionalSemanticTopic_created_at) == opt_text(b->FunctionalSemanticTopic_created_at),
        a->FunctionalSemanticTopic_match_source == b->FunctionalSemanticTopic_match_source,
{
}

/// Metadata with the same contents as that of a functional purpose agrees with it in every field.
pub proof fn contents_of_a_functional_purpose_are_its_fields(a: TopicMetadata, b: TopicMetadata)
    requires
        a is FunctionalPurposeTopic,
        a@ == b@,
    ensures
        b is FunctionalPurposeTopic,
        a->FunctionalPurposeTopic_topic == b->FunctionalPurposeTopic_topic,
        a->FunctionalPurposeTopic_description@ == b->FunctionalPurposeTopic_description@,
        a->FunctionalPurposeTopic_subject_topic == b->FunctionalPurposeTopic_subject_topic,
        a->FunctionalPurposeTopic_author == b->FunctionalPurposeTopic_author,
        opt_text(a->FunctionalPurposeTopic_created_at) == opt_text(b->FunctionalPurposeTopic_created_at),
{
}

/// Metadata with the same contents as that of a placement rationale agrees with it in every field.
pub proof fn contents_of_a_placement_rationale_are_its_fields(a: TopicMetadata, b: TopicMetadata)
    requires
        a is PlacementRationaleTopic,
        a@ == b@,
    ensures
        b is PlacementRationaleTopic,
        a->PlacementRationaleTopic_topic == b->PlacementRationaleTopic_topic,
        a->PlacementRationaleTopic_description@ == b->PlacementRationaleTopic_description@,
        a->PlacementRationaleTopic_subject_topic == b->PlacementRationaleTopic_subject_topic,
        a->PlacementRationaleTopic_author == b->PlacementRationaleTopic_author,
        opt_text(a->PlacementRationaleTopic_created_at) == opt_text(b->PlacementRationaleTopic_created_at),
{
}

/// Metadata with the same contents as that of a threat agrees with it in every field.
pub proof fn contents_of_a_threat_are_its_fields(a: TopicMetadata, b: TopicMetadata)
    requires
        a is ThreatTopic,
        a@ == b@,
    ensures
        b is ThreatTopic,
        a->ThreatTopic_topic == b->ThreatTopic_topic,
        a->ThreatTopic_description@ == b->ThreatTopic_description@,
        a->ThreatTopic_subject_topic == b->ThreatTopic_subject_topic,
        a->ThreatTopic_falsifies_condition == b->ThreatTopic_falsifies_condition,
        a->ThreatTopic_controlled_by == b->ThreatTopic_controlled_by,
        a->ThreatTopic_evidence_topics@ == b->ThreatTopic_evidence_topics@,
        a->ThreatTopic_author == b->ThreatTopic_author,
        opt_text(a->ThreatTopic_created_at) == opt_text(b->ThreatTopic_created_at),
        a->ThreatTopic_severity == b->ThreatTopic_severity,
{
}

/// Metadata with the same contents as that of a condition agrees with it in every field.
pub proof fn contents_of_a_condition_are_its_fields(a: TopicMetadata, b: TopicMetadata)
    requires
        a is ConditionTopic,
        a@ == b@,
    ensures
        b is ConditionTopic,
        a->ConditionTopic_topic == b->ConditionTopic_topic,
        a->ConditionTopic_description@ == b->ConditionTopic_description@,
        a->ConditionTopic_subject_topic == b->ConditionTopic_subject_topic,
        a->ConditionTopic_kind == b->ConditionTopic_kind,
        a->ConditionTopic_evidence_topics@ == b->ConditionTopic_evidence_topics@,
        a->ConditionTopic_author == b->ConditionTopic_author,
        opt_text(a->ConditionTopic_created_at) == opt_text(b->ConditionTopic_created_at),
{
}

/// Metadata with the same contents as that of a invariant agrees with it in every field.
pub proof fn contents_of_a_invariant_are_its_fields(a: TopicMetadata, b: TopicMetadata)
    requires
        a is InvariantTopic,
        a@ == b@,
    ensures
        b is InvariantTopic,
        a->InvariantTopic_topic == b->InvariantTopic_topic,
        a->InvariantTopic_description@ == b->InvariantTopic_description@,
        a->InvariantTopic_threat_topic == b->InvariantTopic_threat_topic,
        a->InvariantTopic_subject_topic == b->InvariantTopic_subject_topic,
        a->InvariantTopic_kind == b->InvariantTopic_kind,
        a->InvariantTopic_anchors@ == b->InvariantTopic_anchors@,
        a->InvariantTopic_author == b->InvariantTopic_author,
        opt_text(a->InvariantTopic_created_at) == opt_text(b->InvariantTopic_created_at),
        a->InvariantTopic_severity == b->InvariantTopic_severity,
{
}

/// Metadata with the same contents as that of a validation agrees with it in every field.
pub proof fn contents_of_a_validation_are_its_fields(a: TopicMetadata, b: TopicMetadata)
    requires
        a is ValidationTopic,
        a@ == b@,
    ensures
        b is ValidationTopic,
        a->ValidationTopic_topic == b->ValidationTopic_topic,
        a->ValidationTopic_invariant_topic == b->ValidationTopic_invariant_topic,
        a->ValidationTopic_subject_topic == b->ValidationTopic_subject_topic,
        a->ValidationTopic_verdict == b->ValidationTopic_verdict,
        a->ValidationTopic_rationale@ == b->ValidationTopic_rationale@,
        a->ValidationTopic_evidence_topics@ == b->ValidationTopic_evidence_topics@,
        a->ValidationTopic_author == b->ValidationTopic_author,
        opt_text(a->ValidationTopic_created_at) == opt_text(b->ValidationTopic_created_at),
{
}

/// Metadata with the same contents as that of a documentation agrees with it in every field.
pub proof fn contents_of_a_documentation_are_its_fields(a: TopicMetadata, b: TopicMetadata)
    requires
        a is DocumentationTopic,
        a@ == b@,
    ensures
        b is DocumentationTopic,
        a->DocumentationTopic_topic == b->DocumentationTopic_topic,
        a->DocumentationTopic_scope@ == b->DocumentationTopic_scope@,
        a->DocumentationTopic_is_technical == b->DocumentationTopic_is_technical,
{
}

/// Scopes with the same contents agree in every field.
pub proof fn contents_of_a_scope_are_its_fields(a: Scope, b: Scope)
    requires
        a@ == b@,
    ensures
        a is Global == b is Global,
        a is Container == b is Container,
        a is Component == b is Component,
        a is Member == b is Member,
        a is ContainingBlock == b is ContainingBlock,
        a is Container ==> a->Container_container@ == b->Container_container@,
        a is Component ==> a->Component_container@ == b->Component_container@
            && a->Component_component == b->Component_component,
        a is Member ==> a->Member_container@ == b->Member_container@ && a->Member_component
            == b->Member_component && a->Member_member == b->Member_member
            && a->signature_container == b->signature_container,
        a is ContainingBlock ==> a->ContainingBlock_container@ == b->ContainingBlock_container@
            && a->ContainingBlock_component == b->ContainingBlock_component
            && a->ContainingBlock_member == b->ContainingBlock_member && a->containing_blocks@
            == b->containing_blocks@,
{
}

/// The file of a scope. The global scope is in none.
pub open spec fn file_of(s: ScopeView) -> Option<Seq<char>> {
    match s {
        ScopeView::Global => None,
        ScopeView::Container { container } => Some(container),
        ScopeView::Component { container, .. } => Some(container),
        ScopeView::Member { container, .. } => Some(container),
        ScopeView::ContainingBlock { container, .. } => Some(container),
    }
}

/// The contract of a scope, if it has one.
pub open spec fn contract_of_scope(s: ScopeView) -> Option<Topic> {
    match s {
        ScopeView::Component { component, .. } => Some(component),
        ScopeView::Member { component, .. } => Some(component),
        ScopeView::ContainingBlock { component, .. } => Some(component),
        _ => None,
    }
}

/// The member of a scope, if it has one.
pub open spec fn member_of_scope(s: ScopeView) -> Option<Topic> {
    match s {
        ScopeView::Member { member, .. } => Some(member),
        ScopeView::ContainingBlock { member, .. } => Some(member),
        _ => None,
    }
}

/// The blocks of a scope.
pub open spec fn blocks_of(s: ScopeView) -> Seq<ContainingBlockLayer> {
    match s {
        ScopeView::ContainingBlock { blocks, .. } => blocks,
        _ => seq![],
    }
}

/// Nesting stays in the file, the contract and the member, and goes one level down: into
/// a contract, into a member, or into a block without an annotation.
pub proof fn nesting_goes_one_level_down(s: ScopeView, t: Topic)
    ensures
        file_of(s.nested(t)) == file_of(s),
        s is Global ==> s.nested(t) is Global,
        s is Container ==> s.nested(t) is Component && contract_of_scope(s.nested(t)) == Some(t),
        s is Component ==> s.nested(t) is Member && member_of_scope(s.nested(t)) == Some(t)
            && s.nested(t)->signature_container is None,
        contract_of_scope(s) is Some ==> contract_of_scope(s.nested(t)) == contract_of_scope(s),
        member_of_scope(s) is Some ==> member_of_scope(s.nested(t)) == member_of_scope(s),
        member_of_scope(s) is Some ==> blocks_of(s.nested(t)) == blocks_of(s).push(
            ContainingBlockLayer { block: t, annotation: None },
        ),
{
    if s is Member {
        assert(blocks_of(s.nested(t)) =~= blocks_of(s).push(
            ContainingBlockLayer { block: t, annotation: None },
        ));
    }
}

/// An annotation is put on the innermost block, and changes nothing else.
pub proof fn annotations_are_put_on_the_innermost_block(s: ScopeView, a: BlockAnnotation, i: int)
    requires
        s.takes_annotation(),
    ensures
        ({
            let r = s.annotated(a);
            &&& file_of(r) == file_of(s)
            &&& contract_of_scope(r) == contract_of_scope(s)
            &&& member_of_scope(r) == member_of_scope(s)
            &&& blocks_of(r).len() == blocks_of(s).len()
            &&& blocks_of(r).last().block == blocks_of(s).last().block
            &&& blocks_of(r).last().annotation == Some(a)
            &&& 0 <= i < blocks_of(s).len() - 1 ==> blocks_of(r)[i] == blocks_of(s)[i]
        }),
{
}

/// A scope in a contract takes the member, outside of any block or signature, and stays
/// in its file and contract. Any other scope stays as it is.
pub proof fn members_are_set_in_contracts(s: ScopeView, t: Topic)
    ensures
        file_of(s.with_member(t)) == file_of(s),
        contract_of_scope(s.with_member(t)) == contract_of_scope(s),
        contract_of_scope(s) is Some ==> s.with_member(t) is Member && member_of_scope(
            s.with_member(t),
        ) == Some(t) && s.with_member(t)->signature_container is None,
        contract_of_scope(s) is None ==> s.with_member(t) == s,
{
}

/// The annotation of a block can be set once.
pub proof fn annotations_are_set_once(s: ScopeView, a: BlockAnnotation)
    requires
        s.takes_annotation(),
    ensures
        s is ContainingBlock,
        blocks_of(s).len() > 0,
        blocks_of(s).last().annotation is None,
        !s.annotated(a).takes_annotation(),
{
}

} // verus!
