//! What the interface says of topics.
use crate::domain::kinds::{Author, CallKind, ContractKind, ControlFlowStatementKind};
use crate::domain::kinds::{FunctionKind, NamedTopicKind, NamedTopicVisibility, ThreatSeverity};
use crate::domain::kinds::{TitledTopicKind, UnnamedTopicKind, VariableMutability};
use crate::domain::metadata::{copy_text, opt_text, MetadataView, TopicMetadata};
use crate::domain::scope::Scope;
use crate::domain::topic::{topic_text, Topic};
use crate::report::rows::{id_texts, ids_of};
use crate::text::texts;
use vstd::prelude::*;
use vstd::string::*;

verus! {

/// A declaration.
#[derive(Debug)]
pub struct NamedTopicResponse {
    pub topic_id: String,
    pub name: String,
    pub kind: String,
    pub sub_kind: Option<String>,
    pub visibility: String,
    pub scope: Scope,
    pub ancestors: Vec<String>,
    pub descendants: Vec<String>,
    pub relatives: Vec<String>,
    /// The operations that mutate the declaration, if it has any.
    pub mutations: Option<Vec<String>>,
}

/// A titled topic.
#[derive(Debug)]
pub struct TitledTopicResponse {
    pub topic_id: String,
    pub title: String,
    pub kind: String,
    pub scope: Scope,
}

/// A topic without a name.
#[derive(Debug)]
pub struct UnnamedTopicResponse {
    pub topic_id: String,
    pub kind: String,
    pub scope: Scope,
}

/// A documentation root.
#[derive(Debug)]
pub struct DocumentationTopicResponse {
    pub topic_id: String,
    pub scope: Scope,
    pub is_technical: bool,
}

/// A control flow statement.
#[derive(Debug)]
pub struct ControlFlowTopicResponse {
    pub topic_id: String,
    pub kind: String,
    pub scope: Scope,
    pub condition: String,
}

/// A comment.
#[derive(Debug)]
pub struct CommentTopicResponse {
    pub topic_id: String,
    pub author: Author,
    pub comment_type: String,
    pub target_topic: String,
    pub created_at: String,
    pub scope: Scope,
    pub mentioned_topics: Vec<String>,
}

/// A feature.
#[derive(Debug)]
pub struct FeatureTopicResponse {
    pub topic_id: String,
    pub name: String,
    pub description: String,
    pub author: Author,
    pub created_at: Option<String>,
}

/// A requirement.
#[derive(Debug)]
pub struct RequirementTopicResponse {
    pub topic_id: String,
    pub description: String,
    pub author: Author,
    pub created_at: Option<String>,
}

/// A behavior.
#[derive(Debug)]
pub struct BehaviorTopicResponse {
    pub topic_id: String,
    pub description: String,
    pub member_topic: String,
    pub author: Author,
    pub created_at: Option<String>,
}

/// A functional semantic.
#[derive(Debug)]
pub struct SemanticTopicResponse {
    pub topic_id: String,
    pub description: String,
    pub declaration_topic: String,
    pub documentation_topics: Vec<String>,
    pub author: Author,
    pub created_at: Option<String>,
}

/// A functional purpose.
#[derive(Debug)]
pub struct FunctionalPurposeTopicResponse {
    pub topic_id: String,
    pub description: String,
    pub subject_topic: String,
    pub author: Author,
    pub created_at: Option<String>,
}

/// A placement rationale.
#[derive(Debug)]
pub struct PlacementRationaleTopicResponse {
    pub topic_id: String,
    pub description: String,
    pub subject_topic: String,
    pub author: Author,
    pub created_at: Option<String>,
}

/// A threat.
#[derive(Debug)]
pub struct ThreatTopicResponse {
    pub topic_id: String,
    pub description: String,
    pub subject_topic: String,
    pub author: Author,
    pub created_at: Option<String>,
    pub severity: Option<String>,
}

/// An invariant.
#[derive(Debug)]
pub struct InvariantTopicResponse {
    pub topic_id: String,
    pub description: String,
    pub threat_topic: String,
    pub author: Author,
    pub created_at: Option<String>,
    pub severity: Option<String>,
}

/// What is said of a topic, by its kind.
#[derive(Debug)]
pub enum TopicMetadataResponse {
    Named(NamedTopicResponse),
    Titled(TitledTopicResponse),
    Unnamed(UnnamedTopicResponse),
    Documentation(DocumentationTopicResponse),
    ControlFlow(ControlFlowTopicResponse),
    CommentTopic(CommentTopicResponse),
    Feature(FeatureTopicResponse),
    Requirement(RequirementTopicResponse),
    Behavior(BehaviorTopicResponse),
    Semantic(SemanticTopicResponse),
    Purpose(FunctionalPurposeTopicResponse),
    Placement(PlacementRationaleTopicResponse),
    Threat(ThreatTopicResponse),
    Invariant(InvariantTopicResponse),
}

/// The name of a kind of contract.
pub open spec fn contract_kind_name(k: ContractKind) -> Seq<char> {
    match k {
        ContractKind::Contract => "Contract"@,
        ContractKind::Library => "Library"@,
        ContractKind::Abstract => "Abstract"@,
        ContractKind::Interface => "Interface"@,
    }
}

fn text_of_contract_kind_name(k: &ContractKind) -> (r: String)
    ensures
        r@ == contract_kind_name(*k),
{
    match k {
        ContractKind::Contract => "Contract".to_owned(),
        ContractKind::Library => "Library".to_owned(),
        ContractKind::Abstract => "Abstract".to_owned(),
        ContractKind::Interface => "Interface".to_owned(),
    }
}

/// The name of a kind of function.
pub open spec fn function_kind_name(k: FunctionKind) -> Seq<char> {
    match k {
        FunctionKind::Constructor => "Constructor"@,
        FunctionKind::Function => "Function"@,
        FunctionKind::Fallback => "Fallback"@,
        FunctionKind::Receive => "Receive"@,
        FunctionKind::FreeFunction => "FreeFunction"@,
    }
}

fn text_of_function_kind_name(k: &FunctionKind) -> (r: String)
    ensures
        r@ == function_kind_name(*k),
{
    match k {
        FunctionKind::Constructor => "Constructor".to_owned(),
        FunctionKind::Function => "Function".to_owned(),
        FunctionKind::Fallback => "Fallback".to_owned(),
        FunctionKind::Receive => "Receive".to_owned(),
        FunctionKind::FreeFunction => "FreeFunction".to_owned(),
    }
}

/// The name of a mutability.
pub open spec fn mutability_name(k: VariableMutability) -> Seq<char> {
    match k {
        VariableMutability::Mutable => "Mutable"@,
        VariableMutability::Immutable => "Immutable"@,
        VariableMutability::Constant => "Constant"@,
    }
}

fn text_of_mutability_name(k: &VariableMutability) -> (r: String)
    ensures
        r@ == mutability_name(*k),
{
    match k {
        VariableMutability::Mutable => "Mutable".to_owned(),
        VariableMutability::Immutable => "Immutable".to_owned(),
        VariableMutability::Constant => "Constant".to_owned(),
    }
}

/// The name of a visibility.
pub open spec fn visibility_name(k: NamedTopicVisibility) -> Seq<char> {
    match k {
        NamedTopicVisibility::Public => "Public"@,
        NamedTopicVisibility::Private => "Private"@,
        NamedTopicVisibility::Internal => "Internal"@,
        NamedTopicVisibility::External => "External"@,
    }
}

fn text_of_visibility_name(k: &NamedTopicVisibility) -> (r: String)
    ensures
        r@ == visibility_name(*k),
{
    match k {
        NamedTopicVisibility::Public => "Public".to_owned(),
        NamedTopicVisibility::Private => "Private".to_owned(),
        NamedTopicVisibility::Internal => "Internal".to_owned(),
        NamedTopicVisibility::External => "External".to_owned(),
    }
}

/// The name of a kind of titled topic.
pub open spec fn titled_kind_name(k: TitledTopicKind) -> Seq<char> {
    match k {
        TitledTopicKind::DocumentationSection => "DocumentationSection"@,
    }
}

fn text_of_titled_kind_name(k: &TitledTopicKind) -> (r: String)
    ensures
        r@ == titled_kind_name(*k),
{
    match k {
        TitledTopicKind::DocumentationSection => "DocumentationSection".to_owned(),
    }
}

/// The name of a kind of control flow.
pub open spec fn control_flow_name(k: ControlFlowStatementKind) -> Seq<char> {
    match k {
        ControlFlowStatementKind::If => "If"@,
        ControlFlowStatementKind::For => "For"@,
        ControlFlowStatementKind::While => "While"@,
        ControlFlowStatementKind::DoWhile => "DoWhile"@,
    }
}

fn text_of_control_flow_name(k: &ControlFlowStatementKind) -> (r: String)
    ensures
        r@ == control_flow_name(*k),
{
    match k {
        ControlFlowStatementKind::If => "If".to_owned(),
        ControlFlowStatementKind::For => "For".to_owned(),
        ControlFlowStatementKind::While => "While".to_owned(),
        ControlFlowStatementKind::DoWhile => "DoWhile".to_owned(),
    }
}

/// The name of a kind of topic without a name.
pub open spec fn unnamed_kind_name(k: UnnamedTopicKind) -> Seq<char> {
    match k {
        UnnamedTopicKind::VariableMutation => "VariableMutation"@,
        UnnamedTopicKind::Arithmetic => "Arithmetic"@,
        UnnamedTopicKind::Comparison => "Comparison"@,
        UnnamedTopicKind::Logical => "Logical"@,
        UnnamedTopicKind::Bitwise => "Bitwise"@,
        UnnamedTopicKind::Conditional => "Conditional"@,
        UnnamedTopicKind::FunctionCall(CallKind::Pure) => "FunctionCall(Pure)"@,
        UnnamedTopicKind::FunctionCall(CallKind::NonPure) => "FunctionCall(NonPure)"@,
        UnnamedTopicKind::TypeConversion => "TypeConversion"@,
        UnnamedTopicKind::StructConstruction => "StructConstruction"@,
        UnnamedTopicKind::NewExpression => "NewExpression"@,
        UnnamedTopicKind::Literal => "Literal"@,
        UnnamedTopicKind::SemanticBlock => "SemanticBlock"@,
        UnnamedTopicKind::ContractMemberGroup => "ContractMemberGroup"@,
        UnnamedTopicKind::Break => "Break"@,
        UnnamedTopicKind::Continue => "Continue"@,
        UnnamedTopicKind::Emit => "Emit"@,
        UnnamedTopicKind::InlineAssembly => "InlineAssembly"@,
        UnnamedTopicKind::LoopExpression => "LoopExpression"@,
        UnnamedTopicKind::Placeholder => "Placeholder"@,
        UnnamedTopicKind::Return => "Return"@,
        UnnamedTopicKind::Revert => "Revert"@,
        UnnamedTopicKind::Try => "Try"@,
        UnnamedTopicKind::UncheckedBlock => "UncheckedBlock"@,
        UnnamedTopicKind::Reference => "Reference"@,
        UnnamedTopicKind::MutableReference => "MutableReference"@,
        UnnamedTopicKind::Signature => "Signature"@,
        UnnamedTopicKind::DocumentationHeading => "DocumentationHeading"@,
        UnnamedTopicKind::DocumentationParagraph => "DocumentationParagraph"@,
        UnnamedTopicKind::DocumentationSentence => "DocumentationSentence"@,
        UnnamedTopicKind::DocumentationCodeBlock => "DocumentationCodeBlock"@,
        UnnamedTopicKind::DocumentationInlineCode => "DocumentationInlineCode"@,
        UnnamedTopicKind::DocumentationList => "DocumentationList"@,
        UnnamedTopicKind::DocumentationBlockQuote => "DocumentationBlockQuote"@,
        UnnamedTopicKind::Other => "Other"@,
    }
}

fn text_of_unnamed_kind_name(k: &UnnamedTopicKind) -> (r: String)
    ensures
        r@ == unnamed_kind_name(*k),
{
    match k {
        UnnamedTopicKind::VariableMutation => "VariableMutation".to_owned(),
        UnnamedTopicKind::Arithmetic => "Arithmetic".to_owned(),
        UnnamedTopicKind::Comparison => "Comparison".to_owned(),
        UnnamedTopicKind::Logical => "Logical".to_owned(),
        UnnamedTopicKind::Bitwise => "Bitwise".to_owned(),
        UnnamedTopicKind::Conditional => "Conditional".to_owned(),
        UnnamedTopicKind::FunctionCall(CallKind::Pure) => "FunctionCall(Pure)".to_owned(),
        UnnamedTopicKind::FunctionCall(CallKind::NonPure) => "FunctionCall(NonPure)".to_owned(),
        UnnamedTopicKind::TypeConversion => "TypeConversion".to_owned(),
        UnnamedTopicKind::StructConstruction => "StructConstruction".to_owned(),
        UnnamedTopicKind::NewExpression => "NewExpression".to_owned(),
        UnnamedTopicKind::Literal => "Literal".to_owned(),
        UnnamedTopicKind::SemanticBlock => "SemanticBlock".to_owned(),
        UnnamedTopicKind::ContractMemberGroup => "ContractMemberGroup".to_owned(),
        UnnamedTopicKind::Break => "Break".to_owned(),
        UnnamedTopicKind::Continue => "Continue".to_owned(),
        UnnamedTopicKind::Emit => "Emit".to_owned(),
        UnnamedTopicKind::InlineAssembly => "InlineAssembly".to_owned(),
        UnnamedTopicKind::LoopExpression => "LoopExpression".to_owned(),
        UnnamedTopicKind::Placeholder => "Placeholder".to_owned(),
        UnnamedTopicKind::Return => "Return".to_owned(),
        UnnamedTopicKind::Revert => "Revert".to_owned(),
        UnnamedTopicKind::Try => "Try".to_owned(),
        UnnamedTopicKind::UncheckedBlock => "UncheckedBlock".to_owned(),
        UnnamedTopicKind::Reference => "Reference".to_owned(),
        UnnamedTopicKind::MutableReference => "MutableReference".to_owned(),
        UnnamedTopicKind::Signature => "Signature".to_owned(),
        UnnamedTopicKind::DocumentationHeading => "DocumentationHeading".to_owned(),
        UnnamedTopicKind::DocumentationParagraph => "DocumentationParagraph".to_owned(),
        UnnamedTopicKind::DocumentationSentence => "DocumentationSentence".to_owned(),
        UnnamedTopicKind::DocumentationCodeBlock => "DocumentationCodeBlock".to_owned(),
        UnnamedTopicKind::DocumentationInlineCode => "DocumentationInlineCode".to_owned(),
        UnnamedTopicKind::DocumentationList => "DocumentationList".to_owned(),
        UnnamedTopicKind::DocumentationBlockQuote => "DocumentationBlockQuote".to_owned(),
        UnnamedTopicKind::Other => "Other".to_owned(),
    }
}

/// The name of a kind of declaration.
pub open spec fn named_kind_name(k: NamedTopicKind) -> Seq<char> {
    match k {
        NamedTopicKind::Contract(_) => "Contract"@,
        NamedTopicKind::Function(_) => "Function"@,
        NamedTopicKind::Modifier => "Modifier"@,
        NamedTopicKind::Event => "Event"@,
        NamedTopicKind::Error => "Error"@,
        NamedTopicKind::Struct => "Struct"@,
        NamedTopicKind::Enum => "Enum"@,
        NamedTopicKind::EnumMember => "EnumMember"@,
        NamedTopicKind::StateVariable(_) => "StateVariable"@,
        NamedTopicKind::LocalVariable => "LocalVariable"@,
        NamedTopicKind::Builtin => "Builtin"@,
    }
}

fn text_of_named_kind_name(k: &NamedTopicKind) -> (r: String)
    ensures
        r@ == named_kind_name(*k),
{
    match k {
        NamedTopicKind::Contract(_) => "Contract".to_owned(),
        NamedTopicKind::Function(_) => "Function".to_owned(),
        NamedTopicKind::Modifier => "Modifier".to_owned(),
        NamedTopicKind::Event => "Event".to_owned(),
        NamedTopicKind::Error => "Error".to_owned(),
        NamedTopicKind::Struct => "Struct".to_owned(),
        NamedTopicKind::Enum => "Enum".to_owned(),
        NamedTopicKind::EnumMember => "EnumMember".to_owned(),
        NamedTopicKind::StateVariable(_) => "StateVariable".to_owned(),
        NamedTopicKind::LocalVariable => "LocalVariable".to_owned(),
        NamedTopicKind::Builtin => "Builtin".to_owned(),
    }
}

/// The name of the kind of contract, function or state variable.
pub open spec fn sub_kind_name(k: NamedTopicKind) -> Option<Seq<char>> {
    match k {
        NamedTopicKind::Contract(c) => Some(contract_kind_name(c)),
        NamedTopicKind::Function(f) => Some(function_kind_name(f)),
        NamedTopicKind::StateVariable(m) => Some(mutability_name(m)),
        _ => None,
    }
}

fn text_of_sub_kind(k: &NamedTopicKind) -> (r: Option<String>)
    ensures
        opt_text(r) == sub_kind_name(*k),
{
    match k {
        NamedTopicKind::Contract(c) => Some(text_of_contract_kind_name(c)),
        NamedTopicKind::Function(f) => Some(text_of_function_kind_name(f)),
        NamedTopicKind::StateVariable(m) => Some(text_of_mutability_name(m)),
        _ => None,
    }
}

pub open spec fn severity_text(s: Option<ThreatSeverity>) -> Option<Seq<char>> {
    match s {
        Some(s) => Some(s.label()),
        None => None,
    }
}

fn text_of_severity(s: &Option<ThreatSeverity>) -> (r: Option<String>)
    ensures
        opt_text(r) == severity_text(*s),
{
    match s {
        Some(s) => Some(s.as_str().to_owned()),
        None => None,
    }
}

/// The mutations are said of declarations that can change.
pub open spec fn mutations_said(
    r: Option<Vec<String>>,
    is_mutable: bool,
    mutations: Seq<Topic>,
) -> bool {
    match r {
        Some(ids) => is_mutable && texts(ids@) == id_texts(mutations),
        None => !is_mutable,
    }
}

/// There is something to say of topics of this kind.
pub open spec fn has_response(m: MetadataView) -> bool {
    !(m is CharacteristicTopic || m is ConditionTopic || m is ValidationTopic)
}

/// `response` says of `t` what its metadata holds.
pub open spec fn is_response(response: TopicMetadataResponse, t: Topic, m: MetadataView) -> bool {
    match (response, m) {
        (
            TopicMetadataResponse::Named(r),
            MetadataView::NamedTopic {
                scope,
                kind,
                name,
                visibility,
                is_mutable,
                mutations,
                ancestors,
                descendants,
                relatives,
                ..
            },
        ) => {
            &&& r.topic_id@ == topic_text(t)
            &&& r.name@ == name
            &&& r.kind@ == named_kind_name(kind)
            &&& opt_text(r.sub_kind) == sub_kind_name(kind)
            &&& r.visibility@ == visibility_name(visibility)
            &&& r.scope@ == scope
            &&& texts(r.ancestors@) == id_texts(ancestors)
            &&& texts(r.descendants@) == id_texts(descendants)
            &&& texts(r.relatives@) == id_texts(relatives)
            &&& mutations_said(r.mutations, is_mutable, mutations)
        },
        (
            TopicMetadataResponse::Titled(r),
            MetadataView::TitledTopic { title, kind, scope, .. },
        ) => {
            &&& r.topic_id@ == topic_text(t)
            &&& r.title@ == title
            &&& r.kind@ == titled_kind_name(kind)
            &&& r.scope@ == scope
        },
        (
            TopicMetadataResponse::Unnamed(r),
            MetadataView::UnnamedTopic { kind, scope, .. },
        ) => {
            &&& r.topic_id@ == topic_text(t)
            &&& r.kind@ == unnamed_kind_name(kind)
            &&& r.scope@ == scope
        },
        (
            TopicMetadataResponse::Documentation(r),
            MetadataView::DocumentationTopic { scope, is_technical, .. },
        ) => {
            &&& r.topic_id@ == topic_text(t)
            &&& r.scope@ == scope
            &&& r.is_technical == is_technical
        },
        (
            TopicMetadataResponse::ControlFlow(r),
            MetadataView::ControlFlow { kind, scope, condition, .. },
        ) => {
            &&& r.topic_id@ == topic_text(t)
            &&& r.kind@ == control_flow_name(kind)
            &&& r.scope@ == scope
            &&& r.condition@ == topic_text(condition)
        },
        (
            TopicMetadataResponse::CommentTopic(r),
            MetadataView::CommentTopic { author, comment_type, target_topic, created_at, scope, mentioned_topics, .. },
        ) => {
            &&& r.topic_id@ == topic_text(t)
            &&& r.author == author
            &&& r.comment_type@ == comment_type.label()
            &&& r.target_topic@ == topic_text(target_topic)
            &&& r.created_at@ == created_at
            &&& r.scope@ == scope
            &&& texts(r.mentioned_topics@) == id_texts(mentioned_topics)
        },
        (
            TopicMetadataResponse::Feature(r),
            MetadataView::FeatureTopic { name, description, author, created_at, .. },
        ) => {
            &&& r.topic_id@ == topic_text(t)
            &&& r.name@ == name
            &&& r.description@ == description
            &&& r.author == author
            &&& opt_text(r.created_at) == created_at
        },
        (
            TopicMetadataResponse::Requirement(r),
            MetadataView::RequirementTopic { description, author, created_at, .. },
        ) => {
            &&& r.topic_id@ == topic_text(t)
            &&& r.description@ == description
            &&& r.author == author
            &&& opt_text(r.created_at) == created_at
        },
        (
            TopicMetadataResponse::Behavior(r),
            MetadataView::BehaviorTopic { description, member_topic, author, created_at, .. },
        ) => {
            &&& r.topic_id@ == topic_text(t)
            &&& r.description@ == description
            &&& r.member_topic@ == topic_text(member_topic)
            &&& r.author == author
            &&& opt_text(r.created_at) == created_at
        },
        (
            TopicMetadataResponse::Semantic(r),
            MetadataView::FunctionalSemanticTopic { description, declaration_topic, documentation_topics, author, created_at, .. },
        ) => {
            &&& r.topic_id@ == topic_text(t)
            &&& r.description@ == description
            &&& r.declaration_topic@ == topic_text(declaration_topic)
            &&& texts(r.documentation_topics@) == id_texts(documentation_topics)
            &&& r.author == author
            &&& opt_text(r.created_at) == created_at
        },
        (
            TopicMetadataResponse::Purpose(r),
            MetadataView::FunctionalPurposeTopic { description, subject_topic, author, created_at, .. },
        ) => {
            &&& r.topic_id@ == topic_text(t)
            &&& r.description@ == description
            &&& r.subject_topic@ == topic_text(subject_topic)
            &&& r.author == author
            &&& opt_text(r.created_at) == created_at
        },
        (
            TopicMetadataResponse::Placement(r),
            MetadataView::PlacementRationaleTopic { description, subject_topic, author, created_at, .. },
        ) => {
            &&& r.topic_id@ == topic_text(t)
            &&& r.description@ == description
            &&& r.subject_topic@ == topic_text(subject_topic)
            &&& r.author == author
            &&& opt_text(r.created_at) == created_at
        },
        (
            TopicMetadataResponse::Threat(r),
            MetadataView::ThreatTopic { description, subject_topic, author, created_at, severity, .. },
        ) => {
            &&& r.topic_id@ == topic_text(t)
            &&& r.description@ == description
            &&& r.subject_topic@ == topic_text(subject_topic)
            &&& r.author == author
            &&& opt_text(r.created_at) == created_at
            &&& opt_text(r.severity) == severity_text(severity)
        },
        (
            TopicMetadataResponse::Invariant(r),
            MetadataView::InvariantTopic { description, threat_topic, author, created_at, severity, .. },
        ) => {
            &&& r.topic_id@ == topic_text(t)
            &&& r.description@ == description
            &&& r.threat_topic@ == topic_text(threat_topic)
            &&& r.author == author
            &&& opt_text(r.created_at) == created_at
            &&& opt_text(r.severity) == severity_text(severity)
        },
        _ => false,
    }
}

/// What the interface says of a topic, for the kinds that it speaks of.
pub fn topic_metadata_to_response(topic: &Topic, metadata: &TopicMetadata) -> (r: Option<
    TopicMetadataResponse,
>)
    ensures
        match r {
            Some(response) => is_response(response, *topic, metadata@),
            None => !has_response(metadata@),
        },
{
    match metadata {
        TopicMetadata::NamedTopic {
            scope,
            kind,
            name,
            visibility,
            is_mutable,
            mutations,
            ancestors,
            descendants,
            relatives,
            ..
        } => Some(
            TopicMetadataResponse::Named(
                NamedTopicResponse {
                    topic_id: topic.id(),
                    name: name.clone(),
                    kind: text_of_named_kind_name(kind),
                    sub_kind: text_of_sub_kind(kind),
                    visibility: text_of_visibility_name(visibility),
                    scope: scope.copy(),
                    ancestors: ids_of(ancestors),
                    descendants: ids_of(descendants),
                    relatives: ids_of(relatives),
                    mutations: if *is_mutable {
                        Some(ids_of(mutations))
                    } else {
                        None
                    },
                },
            ),
        ),
        TopicMetadata::TitledTopic { title, kind, scope, .. } => Some(
            TopicMetadataResponse::Titled(
                TitledTopicResponse {
                    topic_id: topic.id(),
                    title: title.clone(),
                    kind: text_of_titled_kind_name(kind),
                    scope: scope.copy(),
                },
            ),
        ),
        TopicMetadata::UnnamedTopic { kind, scope, .. } => Some(
            TopicMetadataResponse::Unnamed(
                UnnamedTopicResponse {
                    topic_id: topic.id(),
                    kind: text_of_unnamed_kind_name(kind),
                    scope: scope.copy(),
                },
            ),
        ),
        TopicMetadata::DocumentationTopic { scope, is_technical, .. } => Some(
            TopicMetadataResponse::Documentation(
                DocumentationTopicResponse {
                    topic_id: topic.id(),
                    scope: scope.copy(),
                    is_technical: *is_technical,
                },
            ),
        ),
        TopicMetadata::ControlFlow { kind, scope, condition, .. } => Some(
            TopicMetadataResponse::ControlFlow(
                ControlFlowTopicResponse {
                    topic_id: topic.id(),
                    kind: text_of_control_flow_name(kind),
                    scope: scope.copy(),
                    condition: condition.id(),
                },
            ),
        ),
        TopicMetadata::CommentTopic { author, comment_type, target_topic, created_at, scope, mentioned_topics, .. } => Some(
            TopicMetadataResponse::CommentTopic(
                CommentTopicResponse {
                    topic_id: topic.id(),
                    author: *author,
                    comment_type: comment_type.as_str().to_owned(),
                    target_topic: target_topic.id(),
                    created_at: created_at.clone(),
                    scope: scope.copy(),
                    mentioned_topics: ids_of(mentioned_topics),
                },
            ),
        ),
        TopicMetadata::FeatureTopic { name, description, author, created_at, .. } => Some(
            TopicMetadataResponse::Feature(
                FeatureTopicResponse {
                    topic_id: topic.id(),
                    name: name.clone(),
                    description: description.clone(),
                    author: *author,
                    created_at: copy_text(created_at),
                },
            ),
        ),
        TopicMetadata::RequirementTopic { description, author, created_at, .. } => Some(
            TopicMetadataResponse::Requirement(
                RequirementTopicResponse {
                    topic_id: topic.id(),
                    description: description.clone(),
                    author: *author,
                    created_at: copy_text(created_at),
                },
            ),
        ),
        TopicMetadata::BehaviorTopic { description, member_topic, author, created_at, .. } => Some(
            TopicMetadataResponse::Behavior(
                BehaviorTopicResponse {
                    topic_id: topic.id(),
                    description: description.clone(),
                    member_topic: member_topic.id(),
                    author: *author,
                    created_at: copy_text(created_at),
                },
            ),
        ),
        TopicMetadata::FunctionalSemanticTopic { description, declaration_topic, documentation_topics, author, created_at, .. } => Some(
            TopicMetadataResponse::Semantic(
                SemanticTopicResponse {
                    topic_id: topic.id(),
                    description: description.clone(),
                    declaration_topic: declaration_topic.id(),
                    documentation_topics: ids_of(documentation_topics),
                    author: *author,
                    created_at: copy_text(created_at),
                },
            ),
        ),
        TopicMetadata::FunctionalPurposeTopic { description, subject_topic, author, created_at, .. } => Some(
            TopicMetadataResponse::Purpose(
                FunctionalPurposeTopicResponse {
                    topic_id: topic.id(),
                    description: description.clone(),
                    subject_topic: subject_topic.id(),
                    author: *author,
                    created_at: copy_text(created_at),
                },
            ),
        ),
        TopicMetadata::PlacementRationaleTopic { description, subject_topic, author, created_at, .. } => Some(
            TopicMetadataResponse::Placement(
                PlacementRationaleTopicResponse {
                    topic_id: topic.id(),
                    description: description.clone(),
                    subject_topic: subject_topic.id(),
                    author: *author,
                    created_at: copy_text(created_at),
                },
            ),
        ),
        TopicMetadata::ThreatTopic { description, subject_topic, author, created_at, severity, .. } => Some(
            TopicMetadataResponse::Threat(
                ThreatTopicResponse {
                    topic_id: topic.id(),
                    description: description.clone(),
                    subject_topic: subject_topic.id(),
                    author: *author,
                    created_at: copy_text(created_at),
                    severity: text_of_severity(severity),
                },
            ),
        ),
        TopicMetadata::InvariantTopic { description, threat_topic, author, created_at, severity, .. } => Some(
            TopicMetadataResponse::Invariant(
                InvariantTopicResponse {
                    topic_id: topic.id(),
                    description: description.clone(),
                    threat_topic: threat_topic.id(),
                    author: *author,
                    created_at: copy_text(created_at),
                    severity: text_of_severity(severity),
                },
            ),
        ),
        TopicMetadata::CharacteristicTopic { .. } => None,
        TopicMetadata::ConditionTopic { .. } => None,
        TopicMetadata::ValidationTopic { .. } => None,
    }
}

} // verus!
