//! What requests ask for and what listeners are told, field by field.
use crate::api::conversation::{comment_texts, goes_round, is_thread, tells_of_comment};
use crate::api::conversation::AuditEvent;
use crate::api::entities::{is_condition_response, is_requested_condition, ConditionResponse};
use crate::api::entities::{ConditionRow, CreateConditionRequest};
use crate::api::reading::delimiter_at;
use crate::api::threats::{is_requested_link, is_source_answer, CreateThreatFeatureLinkRequest};
use crate::api::reading_laws::said_of;
use crate::api::responses::TopicMetadataResponse;
use crate::api::status::Status;
use crate::domain::audit::{AuditData, Condition, ConditionEvaluation, ThreatFeatureLink};
use crate::domain::metadata::TopicMetadata;
use crate::domain::node::Node;
use crate::domain::rebuild_laws::knows;
use crate::domain::topic::{topic_text, Topic};
use crate::report::rows::meant;
use vstd::prelude::*;

verus! {

/// A condition is what the request says of it, with each question and answer in the
/// order of the request.
pub proof fn conditions_are_what_was_asked_for(q: CreateConditionRequest, c: Condition, i: int)
    requires
        is_requested_condition(q, c),
    ensures
        c.subject_topic == meant(q.subject_topic@),
        c.condition_type.label() == q.condition_type@,
        c.description@ == q.description@,
        c.evaluations@.len() == q.evaluations@.len(),
        0 <= i < c.evaluations@.len() ==> c.evaluations@[i].question@ == q.evaluations@[i].question@
            && c.evaluations@[i].answer@ == q.evaluations@[i].answer@,
{
    let x = crate::api::entities::evaluations(c.evaluations@);
    let y = crate::api::entities::inputs(q.evaluations@);
    assert(x.len() == c.evaluations@.len() && y.len() == q.evaluations@.len());
    if 0 <= i < x.len() {
        assert(x[i] == (c.evaluations@[i].question@, c.evaluations@[i].answer@));
        assert(y[i] == (q.evaluations@[i].question@, q.evaluations@[i].answer@));
    }
}

/// A recorded condition is told of with all that was recorded.
pub proof fn conditions_are_told_of_as_recorded(
    r: ConditionResponse,
    row: ConditionRow,
    list: Seq<ConditionEvaluation>,
    i: int,
)
    requires
        is_condition_response(r, row, list),
    ensures
        r.id == row.id,
        r.subject_topic@ == row.subject_topic@,
        r.condition_type@ == row.condition_type@,
        r.description@ == row.description@,
        r.author == row.author,
        r.created_at@ == row.created_at@,
        r.evaluations@.len() == list.len(),
        0 <= i < list.len() ==> r.evaluations@[i].question@ == list[i].question@
            && r.evaluations@[i].answer@ == list[i].answer@,
{
    let x = crate::api::entities::evaluation_responses(r.evaluations@);
    let y = crate::api::entities::evaluations(list);
    assert(x.len() == r.evaluations@.len() && y.len() == list.len());
    if 0 <= i < list.len() {
        assert(x[i] == (r.evaluations@[i].question@, r.evaluations@[i].answer@));
        assert(y[i] == (list[i].question@, list[i].answer@));
    }
}

/// A link goes from an adversarial property to a part of the specification, under the
/// relation and with the severity that the request names. A request asks for one link.
pub proof fn links_are_what_was_asked_for(
    q: CreateThreatFeatureLinkRequest,
    l: ThreatFeatureLink,
    k: ThreatFeatureLink,
)
    requires
        is_requested_link(q, l),
        is_requested_link(q, k),
    ensures
        l == k,
        l.threat_topic is AdversarialProperty,
        l.feature_topic is Spec,
        l.threat_topic == meant(q.threat_id@),
        l.feature_topic == meant(q.feature_id@),
        l.relation.label() == q.relation@,
        l.severity.label() == q.severity@,
{
    crate::domain::kinds::ThreatFeatureRelation::label_injective(l.relation, k.relation);
    crate::domain::kinds::ThreatSeverity::label_injective(l.severity, k.severity);
}

/// A change of the sources of an invariant is answered on the invariant, where it is
/// kept and known.
pub proof fn source_changes_are_answered_on_the_invariant(
    a: &AuditData,
    t: Topic,
    r: Result<TopicMetadataResponse, Status>,
)
    requires
        is_source_answer(a, t, r),
        knows(a, t),
        a.topic_metadata@[t] is InvariantTopic,
    ensures
        r is Ok <==> a.invariants@.dom().contains(t),
        r is Ok ==> r->Ok_0 is Invariant && said_of(r->Ok_0) == topic_text(t),
        r is Err ==> r->Err_0 == Status::NotFound,
{
}

/// A listener is told which comment there is on which topic of which audit, and which
/// threads changed, in their order.
pub proof fn listeners_are_told_of_comments(
    e: AuditEvent,
    audit_id: Seq<char>,
    topic_id: Seq<char>,
    comment_topic_id: Seq<char>,
    threads: Seq<Seq<char>>,
    i: int,
)
    requires
        tells_of_comment(e, audit_id, topic_id, comment_topic_id, threads),
    ensures
        e is TopicUpdated,
        e.audit() == audit_id,
        e->topic_id@ == topic_id,
        e->TopicUpdated_comment_topic_id@ == comment_topic_id,
        e->invalidated_thread_ids@.len() == threads.len(),
        0 <= i < threads.len() ==> e->invalidated_thread_ids@[i]@ == threads[i],
{
    let x = crate::text::texts(e->invalidated_thread_ids@);
    assert(x.len() == e->invalidated_thread_ids@.len());
    if 0 <= i < threads.len() {
        assert(x[i] == e->invalidated_thread_ids@[i]@);
    }
}

/// Every event is about the audit that it names.
pub proof fn events_are_about_their_audit(e: AuditEvent)
    ensures
        e matches AuditEvent::TopicUpdated { audit_id, .. } ==> e.audit() == audit_id@,
        e matches AuditEvent::StatusUpdated { audit_id, .. } ==> e.audit() == audit_id@,
        e matches AuditEvent::VoteUpdated { audit_id, .. } ==> e.audit() == audit_id@,
{
}

/// A comment with a thread does not go round.
pub proof fn threads_do_not_go_round(
    meta: Seq<(Topic, TopicMetadata)>,
    start: Topic,
    p: Seq<Topic>,
    q: Seq<Topic>,
)
    requires
        is_thread(meta, start, p),
    ensures
        !goes_round(meta, start, q),
{
    if goes_round(meta, start, q) {
        let next = crate::api::conversation::answered_by(meta, q.last())->0;
        if p.len() <= q.len() {
            lemma_same_way(meta, start, p, q, p.len() - 1);
            if p.len() < q.len() {
                assert(crate::api::conversation::answered_by(meta, q[p.len() - 1]) == Some(
                    q[p.len() as int],
                ));
            }
        } else {
            lemma_same_way(meta, start, p, q, q.len() - 1);
            assert(crate::api::conversation::answered_by(meta, p[q.len() - 1]) == Some(
                p[q.len() as int],
            ));
            let k = choose|k: int| 0 <= k < q.len() && q[k] == next;
            lemma_same_way(meta, start, p, q, k);
            assert(p[k] == p[q.len() as int]);
        }
    }
}

proof fn lemma_same_way(
    meta: Seq<(Topic, TopicMetadata)>,
    start: Topic,
    p: Seq<Topic>,
    q: Seq<Topic>,
    i: int,
)
    requires
        crate::api::conversation::is_thread_walk(meta, start, p),
        crate::api::conversation::is_thread_walk(meta, start, q),
        0 <= i < p.len(),
        i < q.len(),
    ensures
        p[i] == q[i],
    decreases i,
{
    if i > 0 {
        lemma_same_way(meta, start, p, q, i - 1);
        assert(crate::api::conversation::answered_by(meta, p[i - 1]) == Some(p[i]));
        assert(crate::api::conversation::answered_by(meta, q[i - 1]) == Some(q[i]));
    }
}

/// Comments are named by their wire forms.
pub proof fn comments_are_named_by_wire_form(ids: Seq<i64>, i: int)
    requires
        0 <= i < ids.len(),
        i32::MIN <= ids[i] <= i32::MAX,
    ensures
        comment_texts(ids).len() == ids.len(),
        comment_texts(ids)[i] == topic_text(Topic::Comment(ids[i] as i32)),
{
}

/// Only nodes of Solidity sources have delimiters.
pub proof fn delimiters_are_those_of_the_node(n: Node)
    ensures
        n matches Node::Solidity(node) ==> delimiter_at(n)
            == crate::solidity::delimiter::delimiter_info(&node),
        !(n is Solidity) ==> delimiter_at(n) is None,
{
}

} // verus!
