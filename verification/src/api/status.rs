//! How a request ended.
use crate::domain::audit::AuditData;
use crate::domain::data_context::DataContext;
use vstd::prelude::*;

verus! {

/// The outcome of a request, as the protocol names it.
#[derive(Debug, Clone, Copy, PartialEq, Eq, Structural)]
pub enum Status {
    Success,
    NoContent,
    BadRequest,
    NotFound,
    Conflict,
    InternalServerError,
    BadGateway,
}

impl Status {
    /// The number of the outcome in the protocol.
    pub fn code(&self) -> (r: u16)
        ensures
            r == match self {
                Status::Success => 200u16,
                Status::NoContent => 204u16,
                Status::BadRequest => 400u16,
                Status::NotFound => 404u16,
                Status::Conflict => 409u16,
                Status::InternalServerError => 500u16,
                Status::BadGateway => 502u16,
            },
    {
        match self {
            Status::Success => 200,
            Status::NoContent => 204,
            Status::BadRequest => 400,
            Status::NotFound => 404,
            Status::Conflict => 409,
            Status::InternalServerError => 500,
            Status::BadGateway => 502,
        }
    }
}

/// A task of an agent failed.
#[derive(Debug, Clone, Copy, PartialEq, Eq, Structural)]
pub enum TaskError {
    MissingEnv,
    Io,
    HttpError,
    JsonParse,
    MissingField,
    Other,
}

/// A step of the pipeline failed.
#[derive(Debug, Clone, Copy, PartialEq, Eq, Structural)]
pub enum PipelineError {
    AuditNotFound,
    Database,
    LockPoisoned,
    AgentTask(TaskError),
    Other,
}

/// An artifact could not be used.
#[derive(Debug, Clone, Copy, PartialEq, Eq, Structural)]
pub enum ArtifactError {
    AuditIdMismatch,
    VersionMismatch,
    Decode,
    Encode,
    Io,
}

/// The outcome for a failed task. What an agent answered in the wrong form is the
/// fault of the other side.
pub open spec fn status_of_task(e: TaskError) -> Status {
    match e {
        TaskError::JsonParse => Status::BadGateway,
        TaskError::MissingField => Status::BadGateway,
        _ => Status::InternalServerError,
    }
}

pub open spec fn status_of_pipeline(e: PipelineError) -> Status {
    match e {
        PipelineError::AuditNotFound => Status::NotFound,
        PipelineError::AgentTask(inner) => status_of_task(inner),
        _ => Status::InternalServerError,
    }
}

pub open spec fn status_of_artifact(e: ArtifactError) -> Status {
    match e {
        ArtifactError::AuditIdMismatch => Status::BadRequest,
        ArtifactError::VersionMismatch => Status::Conflict,
        ArtifactError::Decode => Status::BadRequest,
        ArtifactError::Encode => Status::BadRequest,
        ArtifactError::Io => Status::InternalServerError,
    }
}

fn task_status(err: &TaskError) -> (r: Status)
    ensures
        r == status_of_task(*err),
{
    match err {
        TaskError::JsonParse => Status::BadGateway,
        TaskError::MissingField => Status::BadGateway,
        _ => Status::InternalServerError,
    }
}

/// The response for a failed step of the pipeline: the outcome and the text of the
/// error.
pub fn into_http_response(err: PipelineError, text: String) -> (r: (Status, String))
    ensures
        r == (status_of_pipeline(err), text),
{
    let status = match &err {
        PipelineError::AuditNotFound => Status::NotFound,
        PipelineError::AgentTask(inner) => task_status(inner),
        _ => Status::InternalServerError,
    };
    (status, text)
}

/// The response for an artifact that could not be used: the outcome and the text
/// of the error.
pub fn artifact_error_response(err: ArtifactError, text: String) -> (r: (Status, String))
    ensures
        r == (status_of_artifact(err), text),
{
    let status = match &err {
        ArtifactError::AuditIdMismatch => Status::BadRequest,
        ArtifactError::VersionMismatch => Status::Conflict,
        ArtifactError::Decode => Status::BadRequest,
        ArtifactError::Encode => Status::BadRequest,
        ArtifactError::Io => Status::InternalServerError,
    };
    (status, text)
}

/// The data of an audit that a request names.
pub fn find_audit<'a>(ctx: &'a DataContext, audit_id: &str) -> (r: Result<&'a AuditData, Status>)
    ensures
        match r {
            Ok(a) => ctx.audits@.dom().contains(audit_id@) && *a == ctx.audits@[audit_id@],
            Err(s) => !ctx.audits@.dom().contains(audit_id@) && s == Status::NotFound,
        },
{
    match ctx.get_audit(audit_id) {
        Some(a) => Ok(a),
        None => Err(Status::NotFound),
    }
}

} // verus!
