//! Reports: what analysis found, in the form in which it is kept.
pub mod apply;
pub mod content_laws;
pub mod export;
pub mod install_laws;
pub mod laws;
pub mod rebuilding;
pub mod rows;

pub use apply::{apply_report, can_apply, ApplyReportError};
pub use export::{build_report, AuditMetadata, AuditReport, FeatureLink, GeneratorInfo};
pub use export::{PipelineOutput, ReportThreatFeatureLink, GENERATOR_NAME, GENERATOR_VERSION};
pub use export::SCHEMA_VERSION;
pub use rows::{ReportBehavior, ReportCharacteristic, ReportCondition, ReportFeature};
pub use rows::{ReportFunctionalPurpose, ReportFunctionalSemantic, ReportInvariant};
pub use rows::{ReportPlacementRationale, ReportRequirement, ReportThreat, ReportValidation};
