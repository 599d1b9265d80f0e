//! What the interface says, in terms of what is known.
use crate::api::responses::{has_response, is_response, TopicMetadataResponse};
use crate::domain::kinds::{CallKind, ContractKind, ControlFlowStatementKind, FunctionKind};
use crate::domain::kinds::{NamedTopicKind, NamedTopicVisibility, ThreatSeverity};
use crate::domain::kinds::{UnnamedTopicKind, VariableMutability};
use crate::domain::metadata::{opt_text, TopicMetadata};
use crate::domain::topic::{topic_text, Topic};
use vstd::prelude::*;

verus! {

/// The texts are the wire forms of the topics, one for one.
pub open spec fn name_topics(texts: Seq<String>, topics: Seq<Topic>) -> bool {
    texts.len() == topics.len() && forall|i: int|
        0 <= i < topics.len() ==> (#[trigger] texts[i])@ == topic_text(topics[i])
}

/// The text is the label of the severity, where there is one.
pub open spec fn name_severity(text: Option<String>, s: Option<ThreatSeverity>) -> bool {
    text is Some == s is Some && (s is Some ==> text->0@ == (s->0).label())
}

/// Of a declaration, the interface says under its own wire form what is known of it.
pub proof fn answers_on_a_declaration(r: TopicMetadataResponse, t: Topic, m: TopicMetadata)
    requires
        m is NamedTopic,
        is_response(r, t, m@),
    ensures
        r is Named,
        r->Named_0.topic_id@ == topic_text(t),
        r->Named_0.name@ == m->NamedTopic_name@,
        r->Named_0.scope@ == m->NamedTopic_scope@,
        name_topics(r->Named_0.ancestors@, m->NamedTopic_ancestors@),
        name_topics(r->Named_0.descendants@, m->NamedTopic_descendants@),
        name_topics(r->Named_0.relatives@, m->NamedTopic_relatives@),
        m->NamedTopic_is_mutable == r->Named_0.mutations is Some,
        m->NamedTopic_is_mutable ==> name_topics(r->Named_0.mutations->0@, m->NamedTopic_mutations@),
{
    lemma_named(r->Named_0.ancestors@, m->NamedTopic_ancestors@);
    lemma_named(r->Named_0.descendants@, m->NamedTopic_descendants@);
    lemma_named(r->Named_0.relatives@, m->NamedTopic_relatives@);
    if m->NamedTopic_is_mutable {
        lemma_named(r->Named_0.mutations->0@, m->NamedTopic_mutations@);
    }
}

/// Of a titled topic, the interface says under its own wire form what is known of it.
pub proof fn answers_on_a_titled_topic(r: TopicMetadataResponse, t: Topic, m: TopicMetadata)
    requires
        m is TitledTopic,
        is_response(r, t, m@),
    ensures
        r is Titled,
        r->Titled_0.topic_id@ == topic_text(t),
        r->Titled_0.title@ == m->TitledTopic_title@,
        r->Titled_0.scope@ == m->TitledTopic_scope@,
{
}

/// Of a topic without a name, the interface says under its own wire form what is known of it.
pub proof fn answers_on_a_topic_without_a_name(r: TopicMetadataResponse, t: Topic, m: TopicMetadata)
    requires
        m is UnnamedTopic,
        is_response(r, t, m@),
    ensures
        r is Unnamed,
        r->Unnamed_0.topic_id@ == topic_text(t),
        r->Unnamed_0.scope@ == m->UnnamedTopic_scope@,
{
}

/// Of a documentation root, the interface says under its own wire form what is known of it.
pub proof fn answers_on_a_documentation_root(r: TopicMetadataResponse, t: Topic, m: TopicMetadata)
    requires
        m is DocumentationTopic,
        is_response(r, t, m@),
    ensures
        r is Documentation,
        r->Documentation_0.topic_id@ == topic_text(t),
        r->Documentation_0.scope@ == m->DocumentationTopic_scope@,
        r->Documentation_0.is_technical == m->DocumentationTopic_is_technical,
{
}

/// Of a control flow statement, the interface says under its own wire form what is known of it.
pub proof fn answers_on_a_control_flow_statement(r: TopicMetadataResponse, t: Topic, m: TopicMetadata)
    requires
        m is ControlFlow,
        is_response(r, t, m@),
    ensures
        r is ControlFlow,
        r->ControlFlow_0.topic_id@ == topic_text(t),
        r->ControlFlow_0.scope@ == m->ControlFlow_scope@,
        r->ControlFlow_0.condition@ == topic_text(m->ControlFlow_condition),
{
}

/// Of a comment, the interface says under its own wire form what is known of it.
pub proof fn answers_on_a_comment(r: TopicMetadataResponse, t: Topic, m: TopicMetadata)
    requires
        m is CommentTopic,
        is_response(r, t, m@),
    ensures
        r is CommentTopic,
        r->CommentTopic_0.topic_id@ == topic_text(t),
        r->CommentTopic_0.author == m->CommentTopic_author,
        r->CommentTopic_0.target_topic@ == topic_text(m->CommentTopic_target_topic),
        r->CommentTopic_0.created_at@ == m->CommentTopic_created_at@,
        r->CommentTopic_0.scope@ == m->CommentTopic_scope@,
        name_topics(r->CommentTopic_0.mentioned_topics@, m->CommentTopic_mentioned_topics@),
        r->CommentTopic_0.comment_type@ == m->CommentTopic_comment_type.label(),
{
    lemma_named(r->CommentTopic_0.mentioned_topics@, m->CommentTopic_mentioned_topics@);
}

/// Of a feature, the interface says under its own wire form what is known of it.
pub proof fn answers_on_a_feature(r: TopicMetadataResponse, t: Topic, m: TopicMetadata)
    requires
        m is FeatureTopic,
        is_response(r, t, m@),
    ensures
        r is Feature,
        r->Feature_0.topic_id@ == topic_text(t),
        r->Feature_0.name@ == m->FeatureTopic_name@,
        r->Feature_0.description@ == m->FeatureTopic_description@,
        r->Feature_0.author == m->FeatureTopic_author,
        opt_text(r->Feature_0.created_at) == opt_text(m->FeatureTopic_created_at),
{
}

/// Of a requirement, the interface says under its own wire form what is known of it.
pub proof fn answers_on_a_requirement(r: TopicMetadataResponse, t: Topic, m: TopicMetadata)
    requires
        m is RequirementTopic,
        is_response(r, t, m@),
    ensures
        r is Requirement,
        r->Requirement_0.topic_id@ == topic_text(t),
        r->Requirement_0.description@ == m->RequirementTopic_description@,
        r->Requirement_0.author == m->RequirementTopic_author,
        opt_text(r->Requirement_0.created_at) == opt_text(m->RequirementTopic_created_at),
{
}

/// Of a behavior, the interface says under its own wire form what is known of it.
pub proof fn answers_on_a_behavior(r: TopicMetadataResponse, t: Topic, m: TopicMetadata)
    requires
        m is BehaviorTopic,
        is_response(r, t, m@),
    ensures
        r is Behavior,
        r->Behavior_0.topic_id@ == topic_text(t),
        r->Behavior_0.description@ == m->BehaviorTopic_description@,
        r->Behavior_0.member_topic@ == topic_text(m->BehaviorTopic_member_topic),
        r->Behavior_0.author == m->BehaviorTopic_author,
        opt_text(r->Behavior_0.created_at) == opt_text(m->BehaviorTopic_created_at),
{
}

/// Of a functional semantic, the interface says under its own wire form what is known of it.
pub proof fn answers_on_a_functional_semantic(r: TopicMetadataResponse, t: Topic, m: TopicMetadata)
    requires
        m is FunctionalSemanticTopic,
        is_response(r, t, m@),
    ensures
        r is Semantic,
        r->Semantic_0.topic_id@ == topic_text(t),
        r->Semantic_0.description@ == m->FunctionalSemanticTopic_description@,
        r->Semantic_0.declaration_topic@ == topic_text(m->FunctionalSemanticTopic_declaration_topic),
        name_topics(r->Semantic_0.documentation_topics@, m->FunctionalSemanticTopic_documentation_topics@),
        r->Semantic_0.author == m->FunctionalSemanticTopic_author,
        opt_text(r->Semantic_0.created_at) == opt_text(m->FunctionalSemanticTopic_created_at),
{
    lemma_named(r->Semantic_0.documentation_topics@, m->FunctionalSemanticTopic_documentation_topics@);
}

/// Of a functional purpose, the interface says under its own wire form what is known of it.
pub proof fn answers_on_a_functional_purpose(r: TopicMetadataResponse, t: Topic, m: TopicMetadata)
    requires
        m is FunctionalPurposeTopic,
        is_response(r, t, m@),
    ensures
        r is Purpose,
        r->Purpose_0.topic_id@ == topic_text(t),
        r->Purpose_0.description@ == m->FunctionalPurposeTopic_description@,
        r->Purpose_0.subject_topic@ == topic_text(m->FunctionalPurposeTopic_subject_topic),
        r->Purpose_0.author == m->FunctionalPurposeTopic_author,
        opt_text(r->Purpose_0.created_at) == opt_text(m->FunctionalPurposeTopic_created_at),
{
}

/// Of a placement rationale, the interface says under its own wire form what is known of it.
pub proof fn answers_on_a_placement_rationale(r: TopicMetadataResponse, t: Topic, m: TopicMetadata)
    requires
        m is PlacementRationaleTopic,
        is_response(r, t, m@),
    ensures
        r is Placement,
        r->Placement_0.topic_id@ == topic_text(t),
        r->Placement_0.description@ == m->PlacementRationaleTopic_description@,
        r->Placement_0.subject_topic@ == topic_text(m->PlacementRationaleTopic_subject_topic),
        r->Placement_0.author == m->PlacementRationaleTopic_author,
        opt_text(r->Placement_0.created_at) == opt_text(m->PlacementRationaleTopic_created_at),
{
}

/// Of a threat, the interface says under its own wire form what is known of it.
pub proof fn answers_on_a_threat(r: TopicMetadataResponse, t: Topic, m: TopicMetadata)
    requires
        m is ThreatTopic,
        is_response(r, t, m@),
    ensures
        r is Threat,
        r->Threat_0.topic_id@ == topic_text(t),
        r->Threat_0.description@ == m->ThreatTopic_description@,
        r->Threat_0.subject_topic@ == topic_text(m->ThreatTopic_subject_topic),
        r->Threat_0.author == m->ThreatTopic_author,
        opt_text(r->Threat_0.created_at) == opt_text(m->ThreatTopic_created_at),
        name_severity(r->Threat_0.severity, m->ThreatTopic_severity),
{
}

/// Of a invariant, the interface says under its own wire form what is known of it.
pub proof fn answers_on_a_invariant(r: TopicMetadataResponse, t: Topic, m: TopicMetadata)
    requires
        m is InvariantTopic,
        is_response(r, t, m@),
    ensures
        r is Invariant,
        r->Invariant_0.topic_id@ == topic_text(t),
        r->Invariant_0.description@ == m->InvariantTopic_description@,
        r->Invariant_0.threat_topic@ == topic_text(m->InvariantTopic_threat_topic),
        r->Invariant_0.author == m->InvariantTopic_author,
        opt_text(r->Invariant_0.created_at) == opt_text(m->InvariantTopic_created_at),
        name_severity(r->Invariant_0.severity, m->InvariantTopic_severity),
{
}

proof fn lemma_named(list: Seq<String>, topics: Seq<Topic>)
    requires
        crate::text::texts(list) == crate::report::rows::id_texts(topics),
    ensures
        name_topics(list, topics),
{
    let a = crate::text::texts(list);
    let b = crate::report::rows::id_texts(topics);
    assert(a.len() == list.len() && b.len() == topics.len());
    assert forall|i: int| 0 <= i < topics.len() implies (#[trigger] list[i])@ == topic_text(
        topics[i],
    ) by {
        assert(a[i] == list[i]@);
        assert(b[i] == topic_text(topics[i]));
    }
}

/// The interface speaks of everything but characteristics, conditions and
/// validations.
pub proof fn what_is_spoken_of(m: TopicMetadata)
    ensures
        has_response(m@) <==> m is NamedTopic || m is UnnamedTopic || m is ControlFlow
            || m is TitledTopic || m is CommentTopic || m is FeatureTopic || m is RequirementTopic
            || m is BehaviorTopic || m is FunctionalSemanticTopic || m is FunctionalPurposeTopic
            || m is PlacementRationaleTopic || m is ThreatTopic || m is InvariantTopic
            || m is DocumentationTopic,
{
}

/// A declaration is said to be of the kind that it has.
pub proof fn declarations_name_their_kind(r: TopicMetadataResponse, t: Topic, m: TopicMetadata)
    requires
        m is NamedTopic,
        is_response(r, t, m@),
    ensures
        m->NamedTopic_kind is Contract ==> r->Named_0.kind@ == "Contract"@,
        m->NamedTopic_kind is Function ==> r->Named_0.kind@ == "Function"@,
        m->NamedTopic_kind is Modifier ==> r->Named_0.kind@ == "Modifier"@,
        m->NamedTopic_kind is Event ==> r->Named_0.kind@ == "Event"@,
        m->NamedTopic_kind is Error ==> r->Named_0.kind@ == "Error"@,
        m->NamedTopic_kind is Struct ==> r->Named_0.kind@ == "Struct"@,
        m->NamedTopic_kind is Enum ==> r->Named_0.kind@ == "Enum"@,
        m->NamedTopic_kind is EnumMember ==> r->Named_0.kind@ == "EnumMember"@,
        m->NamedTopic_kind is StateVariable ==> r->Named_0.kind@ == "StateVariable"@,
        m->NamedTopic_kind is LocalVariable ==> r->Named_0.kind@ == "LocalVariable"@,
        m->NamedTopic_kind is Builtin ==> r->Named_0.kind@ == "Builtin"@,
        m->NamedTopic_kind == NamedTopicKind::Contract(ContractKind::Contract) ==> r->Named_0.sub_kind is Some
            && r->Named_0.sub_kind->0@ == "Contract"@,
        m->NamedTopic_kind == NamedTopicKind::Contract(ContractKind::Library) ==> r->Named_0.sub_kind is Some
            && r->Named_0.sub_kind->0@ == "Library"@,
        m->NamedTopic_kind == NamedTopicKind::Contract(ContractKind::Abstract) ==> r->Named_0.sub_kind is Some
            && r->Named_0.sub_kind->0@ == "Abstract"@,
        m->NamedTopic_kind == NamedTopicKind::Contract(ContractKind::Interface) ==> r->Named_0.sub_kind is Some
            && r->Named_0.sub_kind->0@ == "Interface"@,
        m->NamedTopic_kind == NamedTopicKind::Function(FunctionKind::Constructor) ==> r->Named_0.sub_kind is Some
            && r->Named_0.sub_kind->0@ == "Constructor"@,
        m->NamedTopic_kind == NamedTopicKind::Function(FunctionKind::Function) ==> r->Named_0.sub_kind is Some
            && r->Named_0.sub_kind->0@ == "Function"@,
        m->NamedTopic_kind == NamedTopicKind::Function(FunctionKind::Fallback) ==> r->Named_0.sub_kind is Some
            && r->Named_0.sub_kind->0@ == "Fallback"@,
        m->NamedTopic_kind == NamedTopicKind::Function(FunctionKind::Receive) ==> r->Named_0.sub_kind is Some
            && r->Named_0.sub_kind->0@ == "Receive"@,
        m->NamedTopic_kind == NamedTopicKind::Function(FunctionKind::FreeFunction) ==> r->Named_0.sub_kind is Some
            && r->Named_0.sub_kind->0@ == "FreeFunction"@,
        m->NamedTopic_kind == NamedTopicKind::StateVariable(VariableMutability::Mutable) ==> r->Named_0.sub_kind is Some
            && r->Named_0.sub_kind->0@ == "Mutable"@,
        m->NamedTopic_kind == NamedTopicKind::StateVariable(VariableMutability::Immutable) ==> r->Named_0.sub_kind is Some
            && r->Named_0.sub_kind->0@ == "Immutable"@,
        m->NamedTopic_kind == NamedTopicKind::StateVariable(VariableMutability::Constant) ==> r->Named_0.sub_kind is Some
            && r->Named_0.sub_kind->0@ == "Constant"@,
        !(m->NamedTopic_kind is Contract || m->NamedTopic_kind is Function
            || m->NamedTopic_kind is StateVariable) ==> r->Named_0.sub_kind is None,
        m->visibility == NamedTopicVisibility::Public ==> r->Named_0.visibility@ == "Public"@,
        m->visibility == NamedTopicVisibility::Private ==> r->Named_0.visibility@ == "Private"@,
        m->visibility == NamedTopicVisibility::Internal ==> r->Named_0.visibility@ == "Internal"@,
        m->visibility == NamedTopicVisibility::External ==> r->Named_0.visibility@ == "External"@,
{
}

/// A topic without a name is said to be of the kind that it has.
pub proof fn unnamed_topics_name_their_kind(r: TopicMetadataResponse, t: Topic, m: TopicMetadata)
    requires
        m is UnnamedTopic,
        is_response(r, t, m@),
    ensures
        m->UnnamedTopic_kind == UnnamedTopicKind::VariableMutation ==> r->Unnamed_0.kind@
            == "VariableMutation"@,
        m->UnnamedTopic_kind == UnnamedTopicKind::Arithmetic ==> r->Unnamed_0.kind@
            == "Arithmetic"@,
        m->UnnamedTopic_kind == UnnamedTopicKind::Comparison ==> r->Unnamed_0.kind@
            == "Comparison"@,
        m->UnnamedTopic_kind == UnnamedTopicKind::Logical ==> r->Unnamed_0.kind@
            == "Logical"@,
        m->UnnamedTopic_kind == UnnamedTopicKind::Bitwise ==> r->Unnamed_0.kind@
            == "Bitwise"@,
        m->UnnamedTopic_kind == UnnamedTopicKind::Conditional ==> r->Unnamed_0.kind@
            == "Conditional"@,
        m->UnnamedTopic_kind == UnnamedTopicKind::FunctionCall(CallKind::Pure) ==> r->Unnamed_0.kind@
            == "FunctionCall(Pure)"@,
        m->UnnamedTopic_kind == UnnamedTopicKind::FunctionCall(CallKind::NonPure) ==> r->Unnamed_0.kind@
            == "FunctionCall(NonPure)"@,
        m->UnnamedTopic_kind == UnnamedTopicKind::TypeConversion ==> r->Unnamed_0.kind@
            == "TypeConversion"@,
        m->UnnamedTopic_kind == UnnamedTopicKind::StructConstruction ==> r->Unnamed_0.kind@
            == "StructConstruction"@,
        m->UnnamedTopic_kind == UnnamedTopicKind::NewExpression ==> r->Unnamed_0.kind@
            == "NewExpression"@,
        m->UnnamedTopic_kind == UnnamedTopicKind::Literal ==> r->Unnamed_0.kind@
            == "Literal"@,
        m->UnnamedTopic_kind == UnnamedTopicKind::SemanticBlock ==> r->Unnamed_0.kind@
            == "SemanticBlock"@,
        m->UnnamedTopic_kind == UnnamedTopicKind::ContractMemberGroup ==> r->Unnamed_0.kind@
            == "ContractMemberGroup"@,
        m->UnnamedTopic_kind == UnnamedTopicKind::Break ==> r->Unnamed_0.kind@
            == "Break"@,
        m->UnnamedTopic_kind == UnnamedTopicKind::Continue ==> r->Unnamed_0.kind@
            == "Continue"@,
        m->UnnamedTopic_kind == UnnamedTopicKind::Emit ==> r->Unnamed_0.kind@
            == "Emit"@,
        m->UnnamedTopic_kind == UnnamedTopicKind::InlineAssembly ==> r->Unnamed_0.kind@
            == "InlineAssembly"@,
        m->UnnamedTopic_kind == UnnamedTopicKind::LoopExpression ==> r->Unnamed_0.kind@
            == "LoopExpression"@,
        m->UnnamedTopic_kind == UnnamedTopicKind::Placeholder ==> r->Unnamed_0.kind@
            == "Placeholder"@,
        m->UnnamedTopic_kind == UnnamedTopicKind::Return ==> r->Unnamed_0.kind@
            == "Return"@,
        m->UnnamedTopic_kind == UnnamedTopicKind::Revert ==> r->Unnamed_0.kind@
            == "Revert"@,
        m->UnnamedTopic_kind == UnnamedTopicKind::Try ==> r->Unnamed_0.kind@
            == "Try"@,
        m->UnnamedTopic_kind == UnnamedTopicKind::UncheckedBlock ==> r->Unnamed_0.kind@
            == "UncheckedBlock"@,
        m->UnnamedTopic_kind == UnnamedTopicKind::Reference ==> r->Unnamed_0.kind@
            == "Reference"@,
        m->UnnamedTopic_kind == UnnamedTopicKind::MutableReference ==> r->Unnamed_0.kind@
            == "MutableReference"@,
        m->UnnamedTopic_kind == UnnamedTopicKind::Signature ==> r->Unnamed_0.kind@
            == "Signature"@,
        m->UnnamedTopic_kind == UnnamedTopicKind::DocumentationHeading ==> r->Unnamed_0.kind@
            == "DocumentationHeading"@,
        m->UnnamedTopic_kind == UnnamedTopicKind::DocumentationParagraph ==> r->Unnamed_0.kind@
            == "DocumentationParagraph"@,
        m->UnnamedTopic_kind == UnnamedTopicKind::DocumentationSentence ==> r->Unnamed_0.kind@
            == "DocumentationSentence"@,
        m->UnnamedTopic_kind == UnnamedTopicKind::DocumentationCodeBlock ==> r->Unnamed_0.kind@
            == "DocumentationCodeBlock"@,
        m->UnnamedTopic_kind == UnnamedTopicKind::DocumentationInlineCode ==> r->Unnamed_0.kind@
            == "DocumentationInlineCode"@,
        m->UnnamedTopic_kind == UnnamedTopicKind::DocumentationList ==> r->Unnamed_0.kind@
            == "DocumentationList"@,
        m->UnnamedTopic_kind == UnnamedTopicKind::DocumentationBlockQuote ==> r->Unnamed_0.kind@
            == "DocumentationBlockQuote"@,
        m->UnnamedTopic_kind == UnnamedTopicKind::Other ==> r->Unnamed_0.kind@
            == "Other"@,
{
}

/// A control flow statement is said to be of the kind that it has.
pub proof fn statements_name_their_kind(r: TopicMetadataResponse, t: Topic, m: TopicMetadata)
    requires
        m is ControlFlow,
        is_response(r, t, m@),
    ensures
        m->ControlFlow_kind == ControlFlowStatementKind::If ==> r->ControlFlow_0.kind@ == "If"@,
        m->ControlFlow_kind == ControlFlowStatementKind::For ==> r->ControlFlow_0.kind@ == "For"@,
        m->ControlFlow_kind == ControlFlowStatementKind::While ==> r->ControlFlow_0.kind@ == "While"@,
        m->ControlFlow_kind == ControlFlowStatementKind::DoWhile ==> r->ControlFlow_0.kind@ == "DoWhile"@,
{
}

} // verus!
