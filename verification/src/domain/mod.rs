//! The audit domain: topics, scopes, metadata and the indexes over them.
pub mod audit;
pub mod config;
pub mod config_laws;
pub mod context;
pub mod context_laws;
pub mod data_context;
pub mod expansion_laws;
pub mod feature_laws;
pub mod features;
pub mod index;
pub mod kinds;
pub mod lists;
pub mod metadata;
pub mod metadata_laws;
pub mod name_laws;
pub mod names;
pub mod node;
pub mod path;
pub mod queries;
pub mod question_laws;
pub mod rebuild_laws;
pub mod reference_laws;
pub mod scope;
pub mod topic;
pub mod wire_laws;

pub use audit::{new_audit_data, AuditData, Characteristic, Condition, ConditionEvaluation};
pub use audit::{Invariant, PathSet, Requirement, SemanticLink, Threat, ThreatFeatureLink};
pub use config::{load_audit_name, load_document_files, load_in_scope_files, load_security_notes};
pub use config::{ConfigError, ConfigFile, DocumentFileEntry};
pub use context::{ensure_context, insert_into_context, merge_context_groups};
pub use context::{AnnotatedBlockSourceContext, NestedSourceContext, Reference, SourceChild};
pub use context::SourceContext;
pub use data_context::{new_data_context, DataContext};
pub use features::rebuild_feature_context;
pub use index::TopicIndex;
pub use kinds::{Author, CallKind, CommentType, ConditionKind, ContractKind};
pub use kinds::{ControlFlowStatementKind, ElementaryType, FunctionKind, InvariantKind};
pub use kinds::{MatchSource, NamedTopicKind, NamedTopicVisibility, NonPureSubjectType};
pub use kinds::{RevertConstraintKind, SolidityType, SubjectPurity, SystemCharacteristicKind};
pub use kinds::{ThreatActor, ThreatFeatureRelation, ThreatSeverity, TitledTopicKind};
pub use kinds::{UnnamedTopicKind, ValidationVerdict, VariableMutability};
pub use metadata::{CallInfo, EffectiveRevert, EffectiveTopic, FunctionModProperties, RevertInfo};
pub use metadata::TopicMetadata;
pub use names::{is_common_word, TopicNameIndex};
pub use node::{Node, AST};
pub use path::{new_project_path, new_project_path_from_path, project_path_to_absolute_path};
pub use path::ProjectPath;
pub use queries::{resolve_transitive_topic, scope_ancestor_chain, semantic_texts_by_declaration};
pub use queries::semantic_texts_for_declaration;
pub use scope::{add_annotation_to_scope, add_to_scope, set_member, set_signature_container};
pub use scope::{BlockAnnotation, BlockAnnotationKind, ContainingBlockLayer, ControlFlowBranch};
pub use scope::Scope;
