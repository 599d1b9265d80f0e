//! What requests change.
use crate::api::status::Status;
use crate::domain::audit::{is_new_audit, AuditData, PathSet};
use crate::domain::data_context::DataContext;
use crate::domain::features::{is_rebuilt, rebuild_feature_context};
use crate::ids::IdCounters;
use crate::report::apply::{apply_report, has_applied, is_for, known, leaves_room};
use crate::report::export::AuditReport;
use crate::text::text_eq;
use vstd::prelude::*;
use vstd::string::*;

verus! {

#[derive(Debug)]
pub struct CreateAuditRequest {
    pub audit_id: String,
    pub project_root: String,
}

#[derive(Debug)]
pub struct CreateAuditResponse {
    pub audit_id: String,
    pub message: String,
}

#[derive(Debug)]
pub struct DeleteAuditResponse {
    pub message: String,
}

/// The message on an audit.
pub open spec fn audit_message(audit_id: Seq<char>, done: Seq<char>) -> Seq<char> {
    "Audit '"@ + audit_id + "' "@ + done + " successfully"@
}

fn message_on_audit(audit_id: &str, done: &str) -> (r: String)
    ensures
        r@ == audit_message(audit_id@, done@),
{
    let mut out = "Audit '".to_owned();
    out.append(audit_id);
    out.append("' ");
    out.append(done);
    out.append(" successfully");
    out
}

/// Deletes an audit.
pub fn delete_audit(ctx: &mut DataContext, audit_id: &str) -> (r: Result<
    DeleteAuditResponse,
    Status,
>)
    ensures
        final(ctx).audits@ == old(ctx).audits@.remove(audit_id@),
        match r {
            Ok(response) => old(ctx).audits@.dom().contains(audit_id@) && response.message@
                == audit_message(audit_id@, "deleted"@),
            Err(s) => !old(ctx).audits@.dom().contains(audit_id@) && s == Status::NotFound,
        },
{
    if ctx.delete_audit(audit_id) {
        Ok(DeleteAuditResponse { message: message_on_audit(audit_id, "deleted") })
    } else {
        Err(Status::NotFound)
    }
}

/// Makes room for an audit whose artifact was read. The artifact must be that of
/// the audit. An audit that is there already stays as it is.
pub fn open_audit(
    ctx: &mut DataContext,
    request: &CreateAuditRequest,
    artifact_audit_id: &str,
    audit_name: String,
    in_scope_files: PathSet,
    security_notes: Option<String>,
) -> (r: Result<(), Status>)
    ensures
        match r {
            Ok(()) => {
                let id = request.audit_id@;
                &&& artifact_audit_id@ == id
                &&& final(ctx).audits@.dom().contains(id)
                &&& final(ctx).audits@ == old(ctx).audits@.insert(id, final(ctx).audits@[id])
                &&& old(ctx).audits@.dom().contains(id) ==> final(ctx).audits@[id]
                    == old(ctx).audits@[id]
                &&& !old(ctx).audits@.dom().contains(id) ==> is_new_audit(
                    final(ctx).audits@[id],
                    audit_name,
                    in_scope_files,
                    security_notes,
                )
            },
            Err(s) => {
                &&& artifact_audit_id@ != request.audit_id@
                &&& s == Status::BadRequest
                &&& final(ctx).audits@ == old(ctx).audits@
            },
        },
{
    if !text_eq(artifact_audit_id, request.audit_id.as_str()) {
        return Err(Status::BadRequest);
    }
    let ghost before = ctx.audits@;
    let _ = ctx.create_audit(request.audit_id.clone(), audit_name, in_scope_files, security_notes);
    assert(ctx.audits@ =~= before.insert(request.audit_id@, ctx.audits@[request.audit_id@]));
    Ok(())
}

/// Installs the report into an audit that has its artifact, and derives the
/// indexes.
pub fn create_audit(
    ctx: &mut DataContext,
    request: &CreateAuditRequest,
    report: &AuditReport,
    counters: &mut IdCounters,
) -> (r: Result<CreateAuditResponse, Status>)
    requires
        old(ctx).audits@.dom().contains(request.audit_id@) && is_for(report, request.audit_id@)
            ==> report.pipeline@.well_formed() && leaves_room(
            known(old(ctx).audits@[request.audit_id@].topic_metadata@),
            report.pipeline@,
        ),
    ensures
        match r {
            Ok(response) => {
                let id = request.audit_id@;
                &&& old(ctx).audits@.dom().contains(id)
                &&& is_for(report, id)
                &&& final(ctx).audits@ == old(ctx).audits@.insert(id, final(ctx).audits@[id])
                &&& exists|mid: AuditData|
                    has_applied(&old(ctx).audits@[id], report.pipeline@, &mid)
                        && #[trigger] is_rebuilt(&mid, &final(ctx).audits@[id])
                &&& response.audit_id@ == id
                &&& response.message@ == audit_message(id, "created"@)
            },
            Err(s) => {
                &&& s == Status::InternalServerError
                &&& !(old(ctx).audits@.dom().contains(request.audit_id@) && is_for(
                    report,
                    request.audit_id@,
                ))
                &&& final(ctx).audits@ == old(ctx).audits@
                &&& *final(counters) == *old(counters)
            },
        },
{
    let ghost before = ctx.audits@;
    let id = request.audit_id.as_str();
    let audit_data = match ctx.get_audit_mut(id) {
        Some(audit_data) => audit_data,
        None => {
            return Err(Status::InternalServerError);
        },
    };
    match apply_report(id, audit_data, report, counters) {
        Ok(()) => {},
        Err(_) => {
            return Err(Status::InternalServerError);
        },
    }
    let ghost mid = *audit_data;
    rebuild_feature_context(audit_data);
    let ghost done = *audit_data;
    assert(has_applied(&before[id@], report.pipeline@, &mid) && is_rebuilt(&mid, &done));
    assert(ctx.audits@ == before.insert(id@, done));
    assert(ctx.audits@[id@] == done);
    Ok(
        CreateAuditResponse {
            audit_id: request.audit_id.clone(),
            message: message_on_audit(id, "created"),
        },
    )
}

} // verus!
