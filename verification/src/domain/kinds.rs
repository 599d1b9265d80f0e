//! The small vocabularies of the domain and their text labels.
use crate::text::text_eq;
use vstd::prelude::*;

verus! {

/// Comment type for classification.
#[derive(Debug, Clone, Copy, PartialEq, Eq, Structural)]
pub enum CommentType {
    /// General observation or annotation.
    Note,
    /// Informational context or explanation.
    Info,
    /// Question needing an answer.
    Question,
    /// Answer to a question.
    Answer,
    /// Action item to be completed.
    Todo,
    /// Potential issue to investigate.
    FindingLead,
    /// Inline developer comment from source code.
    DevTechnical,
    /// Docstring from source code.
    DevDocumentation,
}

impl CommentType {
    pub open spec fn label(self) -> Seq<char> {
        match self {
            CommentType::Note => "note"@,
            CommentType::Info => "info"@,
            CommentType::Question => "question"@,
            CommentType::Answer => "answer"@,
            CommentType::Todo => "todo"@,
            CommentType::FindingLead => "finding_lead"@,
            CommentType::DevTechnical => "dev_technical"@,
            CommentType::DevDocumentation => "dev_documentation"@,
        }
    }

    /// Distinct comment types have distinct labels.
    pub proof fn label_injective(a: CommentType, b: CommentType)
        requires
            a.label() == b.label(),
        ensures
            a == b,
    {
        reveal_strlit("note");
        assert("note"@.len() == 4 && "note"@[0] == 'n');
        reveal_strlit("info");
        assert("info"@.len() == 4 && "info"@[0] == 'i');
        reveal_strlit("question");
        assert("question"@.len() == 8 && "question"@[0] == 'q');
        reveal_strlit("answer");
        assert("answer"@.len() == 6 && "answer"@[0] == 'a');
        reveal_strlit("todo");
        assert("todo"@.len() == 4 && "todo"@[0] == 't');
        reveal_strlit("finding_lead");
        assert("finding_lead"@.len() == 12 && "finding_lead"@[0] == 'f');
        reveal_strlit("dev_technical");
        assert("dev_technical"@.len() == 13 && "dev_technical"@[0] == 'd');
        reveal_strlit("dev_documentation");
        assert("dev_documentation"@.len() == 17 && "dev_documentation"@[0] == 'd');
    }

    pub fn as_str(&self) -> (r: &'static str)
        ensures
            r@ == self.label(),
            r@ == match self {
                CommentType::Note => "note"@,
                CommentType::Info => "info"@,
                CommentType::Question => "question"@,
                CommentType::Answer => "answer"@,
                CommentType::Todo => "todo"@,
                CommentType::FindingLead => "finding_lead"@,
                CommentType::DevTechnical => "dev_technical"@,
                CommentType::DevDocumentation => "dev_documentation"@,
            },
    {
        match self {
            CommentType::Note => "note",
            CommentType::Info => "info",
            CommentType::Question => "question",
            CommentType::Answer => "answer",
            CommentType::Todo => "todo",
            CommentType::FindingLead => "finding_lead",
            CommentType::DevTechnical => "dev_technical",
            CommentType::DevDocumentation => "dev_documentation",
        }
    }

    /// The comment type with label `s`.
    pub fn parse_str(s: &str) -> (r: Option<Self>)
        ensures
            match r {
                Some(k) => k.label() == s@,
                None => forall|k: CommentType| k.label() != s@,
            },
            s@ == "note"@ ==> r == Some(CommentType::Note),
            s@ == "info"@ ==> r == Some(CommentType::Info),
            s@ == "question"@ ==> r == Some(CommentType::Question),
            s@ == "answer"@ ==> r == Some(CommentType::Answer),
            s@ == "todo"@ ==> r == Some(CommentType::Todo),
            s@ == "finding_lead"@ ==> r == Some(CommentType::FindingLead),
            s@ == "dev_technical"@ ==> r == Some(CommentType::DevTechnical),
            s@ == "dev_documentation"@ ==> r == Some(CommentType::DevDocumentation),
    {
        proof {
            assert forall|a: CommentType, b: CommentType| #[trigger]
                a.label() == #[trigger] b.label() implies a == b by {
                CommentType::label_injective(a, b);
            }
            assert(CommentType::Note.label() == "note"@);
            assert(CommentType::Info.label() == "info"@);
            assert(CommentType::Question.label() == "question"@);
            assert(CommentType::Answer.label() == "answer"@);
            assert(CommentType::Todo.label() == "todo"@);
            assert(CommentType::FindingLead.label() == "finding_lead"@);
            assert(CommentType::DevTechnical.label() == "dev_technical"@);
            assert(CommentType::DevDocumentation.label() == "dev_documentation"@);
        }
        if text_eq(s, "note") {
            Some(CommentType::Note)
        } else if text_eq(s, "info") {
            Some(CommentType::Info)
        } else if text_eq(s, "question") {
            Some(CommentType::Question)
        } else if text_eq(s, "answer") {
            Some(CommentType::Answer)
        } else if text_eq(s, "todo") {
            Some(CommentType::Todo)
        } else if text_eq(s, "finding_lead") {
            Some(CommentType::FindingLead)
        } else if text_eq(s, "dev_technical") {
            Some(CommentType::DevTechnical)
        } else if text_eq(s, "dev_documentation") {
            Some(CommentType::DevDocumentation)
        } else {
            None
        }
    }
}

/// A Solidity type, with enough detail to derive valid value ranges.
#[derive(Debug)]
pub enum SolidityType {
    Elementary(ElementaryType),
    /// A user-defined type, by its declaration.
    UserDefined { declaration_topic: crate::domain::topic::Topic },
    /// An array. The length is there for fixed-size arrays.
    Array { base_type: Box<SolidityType>, length: Option<u64> },
    Mapping { key_type: Box<SolidityType>, value_type: Box<SolidityType> },
    Function { parameter_types: Vec<SolidityType>, return_types: Vec<SolidityType> },
}

/// Elementary types with enough detail to derive value ranges.
#[derive(Debug, Clone, Copy, PartialEq, Eq, Structural)]
pub enum ElementaryType {
    Bool,
    Address,
    AddressPayable,
    FixedBytes(u8),
    Bytes,
    String,
    Int { bits: u16 },
    Uint { bits: u16 },
}

impl ElementaryType {
    /// Whether this type has a numeric value range.
    pub fn is_numeric(&self) -> (r: bool)
        ensures
            r == (self is Int || self is Uint),
    {
        matches!(self, ElementaryType::Int { .. } | ElementaryType::Uint { .. })
    }

    /// Whether this type is an address.
    pub fn is_address(&self) -> (r: bool)
        ensures
            r == (self is Address || self is AddressPayable),
    {
        matches!(self, ElementaryType::Address | ElementaryType::AddressPayable)
    }
}

/// The statement kinds that govern a flow of control.
#[derive(Debug, Clone, Copy, PartialEq, Eq, Structural)]
pub enum ControlFlowStatementKind {
    If,
    For,
    While,
    DoWhile,
}

#[derive(Debug, Clone, Copy, PartialEq, Eq, Structural)]
pub enum RevertConstraintKind {
    /// Reverts when the condition is false.
    Require,
    /// Reverts under the enclosing conditions.
    Revert,
}

#[derive(Debug, Clone, Copy, PartialEq, Eq, Hash, Structural)]
pub enum FunctionKind {
    Constructor,
    Function,
    Fallback,
    Receive,
    FreeFunction,
}

#[derive(Debug, Clone, Copy, PartialEq, Eq, Hash, Structural)]
pub enum ContractKind {
    Contract,
    Library,
    Abstract,
    Interface,
}

/// Severity level for threats and invariants.
#[derive(Debug, Clone, Copy, PartialEq, Eq, PartialOrd, Ord, Structural)]
pub enum ThreatSeverity {
    Low,
    Medium,
    High,
    Critical,
}

impl ThreatSeverity {
    pub open spec fn label(self) -> Seq<char> {
        match self {
            ThreatSeverity::Low => "low"@,
            ThreatSeverity::Medium => "medium"@,
            ThreatSeverity::High => "high"@,
            ThreatSeverity::Critical => "critical"@,
        }
    }

    /// How severe, from low to critical.
    pub open spec fn level(self) -> int {
        match self {
            ThreatSeverity::Low => 0,
            ThreatSeverity::Medium => 1,
            ThreatSeverity::High => 2,
            ThreatSeverity::Critical => 3,
        }
    }

    /// Distinct severities have distinct labels.
    pub proof fn label_injective(a: ThreatSeverity, b: ThreatSeverity)
        requires
            a.label() == b.label(),
        ensures
            a == b,
    {
        reveal_strlit("low");
        assert("low"@.len() == 3 && "low"@[0] == 'l');
        reveal_strlit("medium");
        assert("medium"@.len() == 6 && "medium"@[0] == 'm');
        reveal_strlit("high");
        assert("high"@.len() == 4 && "high"@[0] == 'h');
        reveal_strlit("critical");
        assert("critical"@.len() == 8 && "critical"@[0] == 'c');
    }

    pub fn as_str(&self) -> (r: &'static str)
        ensures
            r@ == self.label(),
            r@ == match self {
                ThreatSeverity::Low => "low"@,
                ThreatSeverity::Medium => "medium"@,
                ThreatSeverity::High => "high"@,
                ThreatSeverity::Critical => "critical"@,
            },
    {
        match self {
            ThreatSeverity::Low => "low",
            ThreatSeverity::Medium => "medium",
            ThreatSeverity::High => "high",
            ThreatSeverity::Critical => "critical",
        }
    }

    /// The severity with label `s`.
    pub fn parse_str(s: &str) -> (r: Option<ThreatSeverity>)
        ensures
            match r {
                Some(k) => k.label() == s@,
                None => forall|k: ThreatSeverity| k.label() != s@,
            },
            s@ == "low"@ ==> r == Some(ThreatSeverity::Low),
            s@ == "medium"@ ==> r == Some(ThreatSeverity::Medium),
            s@ == "high"@ ==> r == Some(ThreatSeverity::High),
            s@ == "critical"@ ==> r == Some(ThreatSeverity::Critical),
    {
        proof {
            assert forall|a: ThreatSeverity, b: ThreatSeverity| #[trigger]
                a.label() == #[trigger] b.label() implies a == b by {
                ThreatSeverity::label_injective(a, b);
            }
            assert(ThreatSeverity::Low.label() == "low"@);
            assert(ThreatSeverity::Medium.label() == "medium"@);
            assert(ThreatSeverity::High.label() == "high"@);
            assert(ThreatSeverity::Critical.label() == "critical"@);
        }
        if text_eq(s, "low") {
            Some(ThreatSeverity::Low)
        } else if text_eq(s, "medium") {
            Some(ThreatSeverity::Medium)
        } else if text_eq(s, "high") {
            Some(ThreatSeverity::High)
        } else if text_eq(s, "critical") {
            Some(ThreatSeverity::Critical)
        } else {
            None
        }
    }

    fn rank(&self) -> (r: u8)
        ensures
            r == self.level(),
    {
        match self {
            ThreatSeverity::Low => 0,
            ThreatSeverity::Medium => 1,
            ThreatSeverity::High => 2,
            ThreatSeverity::Critical => 3,
        }
    }

    /// Whether this severity is at least `other`.
    pub fn at_least(&self, other: &ThreatSeverity) -> (r: bool)
        ensures
            r == (self.level() >= other.level()),
    {
        self.rank() >= other.rank()
    }
}

/// Which workflow variant produced a match of a section and a member.
#[derive(Debug, Clone, Copy, PartialEq, Eq, Structural)]
pub enum MatchSource {
    /// The mechanical layer alone.
    Mechanical,
    /// Ranked expansion within an anchored contract.
    Bm25,
}

impl MatchSource {
    pub open spec fn label(self) -> Seq<char> {
        match self {
            MatchSource::Mechanical => "mechanical"@,
            MatchSource::Bm25 => "bm25"@,
        }
    }

    /// The source of higher confidence: mechanical before ranked.
    pub open spec fn merged(self, other: MatchSource) -> MatchSource {
        if self is Mechanical || other is Mechanical {
            MatchSource::Mechanical
        } else {
            MatchSource::Bm25
        }
    }

    /// Merging does not depend on order or grouping, and merging a source with
    /// itself changes nothing.
    pub proof fn merged_is_a_join(a: MatchSource, b: MatchSource, c: MatchSource)
        ensures
            a.merged(b) == b.merged(a),
            a.merged(b).merged(c) == a.merged(b.merged(c)),
            a.merged(a) == a,
    {
    }

    pub fn as_str(self) -> (r: &'static str)
        ensures
            r@ == self.label(),
            r@ == match self {
                MatchSource::Mechanical => "mechanical"@,
                MatchSource::Bm25 => "bm25"@,
            },
    {
        match self {
            MatchSource::Mechanical => "mechanical",
            MatchSource::Bm25 => "bm25",
        }
    }

    /// The source of higher confidence.
    pub fn merge(self, other: MatchSource) -> (r: MatchSource)
        ensures
            r == self.merged(other),
            r is Mechanical <==> self is Mechanical || other is Mechanical,
    {
        match (self, other) {
            (MatchSource::Mechanical, _) => MatchSource::Mechanical,
            (_, MatchSource::Mechanical) => MatchSource::Mechanical,
            _ => MatchSource::Bm25,
        }
    }
}

/// Relationship between a threat and a feature in impact analysis.
#[derive(Debug, Clone, Copy, PartialEq, Eq, Structural)]
pub enum ThreatFeatureRelation {
    /// The subject is part of the attack surface of the feature.
    IsVulnerableTo,
    /// The subject is part of the defense of the feature.
    DefendsAgainst,
}

impl ThreatFeatureRelation {
    pub open spec fn label(self) -> Seq<char> {
        match self {
            ThreatFeatureRelation::IsVulnerableTo => "is_vulnerable_to"@,
            ThreatFeatureRelation::DefendsAgainst => "defends_against"@,
        }
    }

    /// Distinct relations have distinct labels.
    pub proof fn label_injective(a: ThreatFeatureRelation, b: ThreatFeatureRelation)
        requires
            a.label() == b.label(),
        ensures
            a == b,
    {
        reveal_strlit("is_vulnerable_to");
        assert("is_vulnerable_to"@.len() == 16 && "is_vulnerable_to"@[0] == 'i');
        reveal_strlit("defends_against");
        assert("defends_against"@.len() == 15 && "defends_against"@[0] == 'd');
    }

    pub fn as_str(&self) -> (r: &'static str)
        ensures
            r@ == self.label(),
            r@ == match self {
                ThreatFeatureRelation::IsVulnerableTo => "is_vulnerable_to"@,
                ThreatFeatureRelation::DefendsAgainst => "defends_against"@,
            },
    {
        match self {
            ThreatFeatureRelation::IsVulnerableTo => "is_vulnerable_to",
            ThreatFeatureRelation::DefendsAgainst => "defends_against",
        }
    }

    /// The relation with label `s`.
    pub fn parse_str(s: &str) -> (r: Option<ThreatFeatureRelation>)
        ensures
            match r {
                Some(k) => k.label() == s@,
                None => forall|k: ThreatFeatureRelation| k.label() != s@,
            },
            s@ == "is_vulnerable_to"@ ==> r == Some(ThreatFeatureRelation::IsVulnerableTo),
            s@ == "defends_against"@ ==> r == Some(ThreatFeatureRelation::DefendsAgainst),
    {
        proof {
            assert forall|a: ThreatFeatureRelation, b: ThreatFeatureRelation| #[trigger]
                a.label() == #[trigger] b.label() implies a == b by {
                ThreatFeatureRelation::label_injective(a, b);
            }
            assert(ThreatFeatureRelation::IsVulnerableTo.label() == "is_vulnerable_to"@);
            assert(ThreatFeatureRelation::DefendsAgainst.label() == "defends_against"@);
        }
        if text_eq(s, "is_vulnerable_to") {
            Some(ThreatFeatureRelation::IsVulnerableTo)
        } else if text_eq(s, "defends_against") {
            Some(ThreatFeatureRelation::DefendsAgainst)
        } else {
            None
        }
    }
}

#[derive(Debug, Clone, Copy, PartialEq, Eq, Hash, Structural)]
pub enum VariableMutability {
    Mutable,
    Immutable,
    Constant,
}

#[derive(Debug, Clone, Copy, PartialEq, Eq, Structural)]
pub enum NamedTopicKind {
    Contract(ContractKind),
    Function(FunctionKind),
    Modifier,
    Event,
    Error,
    Struct,
    Enum,
    EnumMember,
    StateVariable(VariableMutability),
    LocalVariable,
    Builtin,
}

/// Kinds of topics with a title but without a full declaration.
#[derive(Debug, Clone, Copy, PartialEq, Eq, Structural)]
pub enum TitledTopicKind {
    DocumentationSection,
}

#[derive(Debug, Clone, Copy, PartialEq, Eq, Structural)]
pub enum UnnamedTopicKind {
    VariableMutation,
    Arithmetic,
    Comparison,
    Logical,
    Bitwise,
    Conditional,
    FunctionCall(CallKind),
    TypeConversion,
    StructConstruction,
    NewExpression,
    Literal,
    SemanticBlock,
    ContractMemberGroup,
    Break,
    Continue,
    Emit,
    InlineAssembly,
    LoopExpression,
    Placeholder,
    Return,
    Revert,
    Try,
    UncheckedBlock,
    Reference,
    MutableReference,
    Signature,
    DocumentationHeading,
    DocumentationParagraph,
    DocumentationSentence,
    DocumentationCodeBlock,
    DocumentationInlineCode,
    DocumentationList,
    DocumentationBlockQuote,
    Other,
}

/// Whether a subject has a closed threat surface or interacts with persistent
/// state, external code or the environment.
#[derive(Debug, Clone, Copy, PartialEq, Eq, Structural)]
pub enum SubjectPurity {
    Pure,
    NonPure,
}

/// The category of assertion that a condition expresses.
#[derive(Debug, Clone, Copy, PartialEq, Eq, Structural)]
pub enum ConditionKind {
    RestrictedReachability,
    AuthorizedAccess,
    ErrorRecoverability,
    InputIntegrity,
    ValueFreshness,
    AtomicConsistency,
    ResourceAvailability,
    Other,
}

/// The interaction surface of a subject.
#[derive(Debug, Clone, Copy, PartialEq, Eq, Structural)]
pub enum NonPureSubjectType {
    StateWrite,
    StateRead,
    ExternalCall,
    DelegateCall,
    InlineAssembly,
    Create,
}

impl NonPureSubjectType {
    pub open spec fn label(self) -> Seq<char> {
        match self {
            NonPureSubjectType::StateWrite => "state_write"@,
            NonPureSubjectType::StateRead => "state_read"@,
            NonPureSubjectType::ExternalCall => "external_call"@,
            NonPureSubjectType::DelegateCall => "delegate_call"@,
            NonPureSubjectType::InlineAssembly => "inline_assembly"@,
            NonPureSubjectType::Create => "create"@,
        }
    }

    /// Distinct subject types have distinct labels.
    pub proof fn label_injective(a: NonPureSubjectType, b: NonPureSubjectType)
        requires
            a.label() == b.label(),
        ensures
            a == b,
    {
        reveal_strlit("state_write");
        assert("state_write"@.len() == 11 && "state_write"@[0] == 's');
        reveal_strlit("state_read");
        assert("state_read"@.len() == 10 && "state_read"@[0] == 's');
        reveal_strlit("external_call");
        assert("external_call"@.len() == 13 && "external_call"@[0] == 'e');
        reveal_strlit("delegate_call");
        assert("delegate_call"@.len() == 13 && "delegate_call"@[0] == 'd');
        reveal_strlit("inline_assembly");
        assert("inline_assembly"@.len() == 15 && "inline_assembly"@[0] == 'i');
        reveal_strlit("create");
        assert("create"@.len() == 6 && "create"@[0] == 'c');
    }

    /// The subject type with label `s`.
    pub fn parse_str(s: &str) -> (r: Option<NonPureSubjectType>)
        ensures
            match r {
                Some(k) => k.label() == s@,
                None => forall|k: NonPureSubjectType| k.label() != s@,
            },
            s@ == "state_write"@ ==> r == Some(NonPureSubjectType::StateWrite),
            s@ == "state_read"@ ==> r == Some(NonPureSubjectType::StateRead),
            s@ == "external_call"@ ==> r == Some(NonPureSubjectType::ExternalCall),
            s@ == "delegate_call"@ ==> r == Some(NonPureSubjectType::DelegateCall),
            s@ == "inline_assembly"@ ==> r == Some(NonPureSubjectType::InlineAssembly),
            s@ == "create"@ ==> r == Some(NonPureSubjectType::Create),
    {
        proof {
            assert forall|a: NonPureSubjectType, b: NonPureSubjectType| #[trigger]
                a.label() == #[trigger] b.label() implies a == b by {
                NonPureSubjectType::label_injective(a, b);
            }
            assert(NonPureSubjectType::StateWrite.label() == "state_write"@);
            assert(NonPureSubjectType::StateRead.label() == "state_read"@);
            assert(NonPureSubjectType::ExternalCall.label() == "external_call"@);
            assert(NonPureSubjectType::DelegateCall.label() == "delegate_call"@);
            assert(NonPureSubjectType::InlineAssembly.label() == "inline_assembly"@);
            assert(NonPureSubjectType::Create.label() == "create"@);
        }
        if text_eq(s, "state_write") {
            Some(NonPureSubjectType::StateWrite)
        } else if text_eq(s, "state_read") {
            Some(NonPureSubjectType::StateRead)
        } else if text_eq(s, "external_call") {
            Some(NonPureSubjectType::ExternalCall)
        } else if text_eq(s, "delegate_call") {
            Some(NonPureSubjectType::DelegateCall)
        } else if text_eq(s, "inline_assembly") {
            Some(NonPureSubjectType::InlineAssembly)
        } else if text_eq(s, "create") {
            Some(NonPureSubjectType::Create)
        } else {
            None
        }
    }
}

/// Purity of a call site, by the observable side effects of the callee.
#[derive(Debug, Clone, Copy, PartialEq, Eq, Structural)]
pub enum CallKind {
    Pure,
    NonPure,
}

impl UnnamedTopicKind {
    pub open spec fn is_non_pure(self) -> bool {
        ||| self == UnnamedTopicKind::VariableMutation
        ||| self == UnnamedTopicKind::InlineAssembly
        ||| self == UnnamedTopicKind::NewExpression
        ||| self == UnnamedTopicKind::FunctionCall(CallKind::NonPure)
    }

    /// The purity classification of this kind.
    pub fn purity(&self) -> (r: SubjectPurity)
        ensures
            r == if self.is_non_pure() {
                SubjectPurity::NonPure
            } else {
                SubjectPurity::Pure
            },
            self is VariableMutation || self is InlineAssembly || self is NewExpression ==> r
                == SubjectPurity::NonPure,
            *self matches UnnamedTopicKind::FunctionCall(k) ==> (r == SubjectPurity::NonPure <==> k
                == CallKind::NonPure),
            r == SubjectPurity::NonPure ==> self is VariableMutation || self is InlineAssembly
                || self is NewExpression || self is FunctionCall,
    {
        match self {
            UnnamedTopicKind::VariableMutation => SubjectPurity::NonPure,
            UnnamedTopicKind::InlineAssembly => SubjectPurity::NonPure,
            UnnamedTopicKind::NewExpression => SubjectPurity::NonPure,
            UnnamedTopicKind::FunctionCall(CallKind::NonPure) => SubjectPurity::NonPure,
            UnnamedTopicKind::FunctionCall(CallKind::Pure) => SubjectPurity::Pure,
            _ => SubjectPurity::Pure,
        }
    }
}

impl NamedTopicKind {
    /// The purity classification of this kind: only mutable state is not pure.
    pub fn purity(&self) -> (r: SubjectPurity)
        ensures
            r == if *self == NamedTopicKind::StateVariable(VariableMutability::Mutable) {
                SubjectPurity::NonPure
            } else {
                SubjectPurity::Pure
            },
    {
        match self {
            NamedTopicKind::StateVariable(VariableMutability::Mutable) => SubjectPurity::NonPure,
            _ => SubjectPurity::Pure,
        }
    }
}

#[derive(Debug, Clone, Copy, PartialEq, Eq, Structural)]
pub enum NamedTopicVisibility {
    Public,
    Private,
    Internal,
    External,
}

/// What a system characteristic is about.
#[derive(Debug, Clone, Copy, PartialEq, Eq, Structural)]
pub enum SystemCharacteristicKind {
    Security,
    Other,
}

/// The party whose action drives a threat.
#[derive(Debug, Clone, Copy, PartialEq, Eq, Structural)]
pub enum ThreatActor {
    Caller,
    Other,
}

/// The category of defensive pattern of an invariant.
#[derive(Debug, Clone, Copy, PartialEq, Eq, Structural)]
pub enum InvariantKind {
    AccessGate,
    Other,
}

/// The verdict on an invariant.
#[derive(Debug, Clone, Copy, PartialEq, Eq, Structural)]
pub enum ValidationVerdict {
    Holds,
    Violated,
    Inconclusive,
}

/// Who wrote an entry.
#[derive(Debug, Clone, Copy, PartialEq, Eq, Structural)]
pub enum Author {
    /// The analysis pipeline.
    System,
    /// A large model working for the pipeline.
    AgentLarge,
    /// A person, by account number.
    User(i64),
}

impl Author {
    pub open spec fn number(self) -> int {
        match self {
            Author::System => 0,
            Author::AgentLarge => -1,
            Author::User(id) => id as int,
        }
    }

    /// The number by which an author is stored.
    pub fn as_i64(self) -> (r: i64)
        ensures
            r == self.number(),
            self is System ==> r == 0,
            self is AgentLarge ==> r == -1,
            self matches Author::User(id) ==> r == id,
    {
        match self {
            Author::System => 0,
            Author::AgentLarge => -1,
            Author::User(id) => id,
        }
    }
}

} // verus!
