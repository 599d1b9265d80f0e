//! Features, requirements, behaviors, semantics and conditions that people add.
use crate::api::status::Status;
use crate::domain::audit::{AuditData, Condition, ConditionEvaluation, Requirement};
use crate::domain::data_context::DataContext;
use crate::domain::features::{is_rebuilt, rebuild_feature_context};
use crate::domain::index::{index_lists, lemma_index_list, lemma_index_put};
use crate::domain::index::{lemma_put_after_without, list_for, TopicIndex};
use crate::domain::kinds::{Author, NonPureSubjectType};
use crate::domain::metadata::{MetadataView, TopicMetadata};
use crate::domain::topic::{new_functional_property_topic, new_spec_topic, new_topic, topic_text};
use crate::domain::topic::Topic;
use crate::ordered::put;
use crate::report::apply::{known, requirement_map};
use crate::report::rows::{denote_each, denotes, meant, meant_each, topics_of};
use crate::text::texts;
use vstd::prelude::*;
use vstd::string::*;

verus! {

#[derive(Debug)]
pub struct CreatedResponse {
    pub topic_id: String,
}

#[derive(Debug)]
pub struct CreateUserFeatureRequest {
    pub name: String,
    pub description: String,
    pub author: Author,
    pub requirement_topics: Vec<String>,
    pub behavior_topics: Vec<String>,
}

#[derive(Debug)]
pub struct CreateUserRequirementRequest {
    pub description: String,
    pub author: Author,
    pub section_topic: Option<String>,
    pub documentation_topics: Vec<String>,
}

#[derive(Debug)]
pub struct CreateUserBehaviorRequest {
    pub description: String,
    pub member_topic: String,
    pub author: Author,
}

#[derive(Debug)]
pub struct CreateUserFunctionalSemanticRequest {
    pub description: String,
    pub declaration_topic: String,
    pub author: Author,
    pub documentation_topics: Vec<String>,
}

/// The index with more topics at the end of the list of `k`. No topics, no entry.
pub open spec fn extended(
    s: Seq<(Topic, Seq<Topic>)>,
    k: Topic,
    more: Seq<Topic>,
) -> Seq<(Topic, Seq<Topic>)> {
    if more.len() == 0 {
        s
    } else {
        put(s, k, list_for(s, k) + more)
    }
}

fn extend_at(index: &mut TopicIndex, k: Topic, more: &Vec<Topic>)
    ensures
        index_lists(final(index).pairs()) == extended(
            index_lists(old(index).pairs()),
            k,
            more@,
        ),
{
    if more.len() == 0 {
        return ;
    }
    let _ = index.len();
    let ghost was = index.pairs();
    proof {
        lemma_index_list(was, k);
    }
    let mut list: Vec<Topic> = match index.remove(&k) {
        Some(list) => list,
        None => Vec::new(),
    };
    let ghost first = list@;
    for i in 0..more.len()
        invariant
            list@ =~= first + more@.take(i as int),
    {
        list.push(more[i]);
    }
    assert(list@ =~= first + more@);
    proof {
        lemma_put_after_without(was, k, list);
        lemma_index_put(was, k, list);
    }
    index.insert(k, list);
}

/// What is known of a feature that someone added.
pub open spec fn feature_view(
    id: i32,
    q: CreateUserFeatureRequest,
    created_at: Seq<char>,
) -> MetadataView {
    MetadataView::FeatureTopic {
        topic: Topic::Spec(id),
        name: q.name@,
        description: q.description@,
        author: q.author,
        created_at: Some(created_at),
    }
}

/// `b` is `a` with a new feature, before anything is derived.
pub open spec fn has_new_feature(
    a: &AuditData,
    id: i32,
    q: CreateUserFeatureRequest,
    created_at: Seq<char>,
    b: &AuditData,
) -> bool {
    let t = Topic::Spec(id);
    &&& known(b.topic_metadata@) == known(a.topic_metadata@).insert(
        t,
        feature_view(id, q, created_at),
    )
    &&& index_lists(b.feature_requirement_links.pairs()) == extended(
        index_lists(a.feature_requirement_links.pairs()),
        t,
        meant_each(texts(q.requirement_topics@)),
    )
    &&& index_lists(b.feature_behavior_links.pairs()) == extended(
        index_lists(a.feature_behavior_links.pairs()),
        t,
        meant_each(texts(q.behavior_topics@)),
    )
    &&& *b == (AuditData {
        topic_metadata: b.topic_metadata,
        feature_requirement_links: b.feature_requirement_links,
        feature_behavior_links: b.feature_behavior_links,
        ..*a
    })
}

/// Adds a feature under the number `id`, with its links.
pub fn create_user_feature(
    a: &mut AuditData,
    id: i32,
    request: &CreateUserFeatureRequest,
    created_at: String,
) -> (r: CreatedResponse)
    requires
        denote_each(texts(request.requirement_topics@)),
        denote_each(texts(request.behavior_topics@)),
    ensures
        exists|mid: AuditData|
            has_new_feature(&*old(a), id, *request, created_at@, &mid) && #[trigger] is_rebuilt(
                &mid,
                &*final(a),
            ),
        r.topic_id@ == topic_text(Topic::Spec(id)),
{
    let ghost start = *a;
    let ghost at = created_at@;
    let t = new_spec_topic(id);
    let requirements = topics_of(&request.requirement_topics);
    let behaviors = topics_of(&request.behavior_topics);
    let metadata = TopicMetadata::FeatureTopic {
        topic: t,
        name: request.name.clone(),
        description: request.description.clone(),
        author: request.author,
        created_at: Some(created_at),
    };
    assert(metadata@ == feature_view(id, *request, at));
    a.topic_metadata.insert(t, metadata);
    assert(known(a.topic_metadata@) =~= known(start.topic_metadata@).insert(
        t,
        feature_view(id, *request, at),
    ));
    extend_at(&mut a.feature_requirement_links, t, &requirements);
    extend_at(&mut a.feature_behavior_links, t, &behaviors);
    let ghost mid = *a;
    assert(has_new_feature(&start, id, *request, at, &mid));
    rebuild_feature_context(a);
    CreatedResponse { topic_id: t.id() }
}

/// What is known of a requirement that someone added.
pub open spec fn requirement_view(
    id: i32,
    q: CreateUserRequirementRequest,
    created_at: Seq<char>,
) -> MetadataView {
    MetadataView::RequirementTopic {
        topic: Topic::Spec(id),
        description: q.description@,
        section_topic: meant(q.section_topic->0@),
        author: q.author,
        created_at: Some(created_at),
    }
}

/// `b` is `a` with a new requirement, before anything is derived.
pub open spec fn has_new_requirement(
    a: &AuditData,
    id: i32,
    q: CreateUserRequirementRequest,
    created_at: Seq<char>,
    b: &AuditData,
) -> bool {
    let t = Topic::Spec(id);
    &&& known(b.topic_metadata@) == known(a.topic_metadata@).insert(
        t,
        requirement_view(id, q, created_at),
    )
    &&& requirement_map(b.requirements@) == requirement_map(a.requirements@).insert(
        t,
        meant_each(texts(q.documentation_topics@)),
    )
    &&& *b == (AuditData {
        topic_metadata: b.topic_metadata,
        requirements: b.requirements,
        ..*a
    })
}

/// Adds a requirement of a documentation section under the number `id`.
pub fn create_user_requirement(
    a: &mut AuditData,
    id: i32,
    request: &CreateUserRequirementRequest,
    created_at: String,
) -> (r: CreatedResponse)
    requires
        request.section_topic is Some,
        denotes(request.section_topic->0@),
        denote_each(texts(request.documentation_topics@)),
    ensures
        exists|mid: AuditData|
            has_new_requirement(&*old(a), id, *request, created_at@, &mid)
                && #[trigger] is_rebuilt(&mid, &*final(a)),
        r.topic_id@ == topic_text(Topic::Spec(id)),
{
    let ghost start = *a;
    let ghost at = created_at@;
    let t = new_spec_topic(id);
    let section_topic = match &request.section_topic {
        Some(s) => new_topic(s.as_str()),
        None => t,
    };
    let documentation_topics = topics_of(&request.documentation_topics);
    let metadata = TopicMetadata::RequirementTopic {
        topic: t,
        description: request.description.clone(),
        section_topic,
        author: request.author,
        created_at: Some(created_at),
    };
    assert(metadata@ == requirement_view(id, *request, at));
    let ghost docs = documentation_topics@;
    a.requirements.insert(t, Requirement { documentation_topics });
    assert(requirement_map(a.requirements@) =~= requirement_map(start.requirements@).insert(
        t,
        docs,
    ));
    a.topic_metadata.insert(t, metadata);
    assert(known(a.topic_metadata@) =~= known(start.topic_metadata@).insert(
        t,
        requirement_view(id, *request, at),
    ));
    let ghost mid = *a;
    assert(has_new_requirement(&start, id, *request, at, &mid));
    rebuild_feature_context(a);
    CreatedResponse { topic_id: t.id() }
}

/// `b` is `a` with one more topic, before anything is derived.
pub open spec fn has_new_topic(a: &AuditData, t: Topic, m: MetadataView, b: &AuditData) -> bool {
    &&& known(b.topic_metadata@) == known(a.topic_metadata@).insert(t, m)
    &&& *b == (AuditData { topic_metadata: b.topic_metadata, ..*a })
}

/// What is known of a behavior that someone added.
pub open spec fn behavior_view(
    id: i32,
    q: CreateUserBehaviorRequest,
    created_at: Seq<char>,
) -> MetadataView {
    MetadataView::BehaviorTopic {
        topic: Topic::Spec(id),
        description: q.description@,
        member_topic: meant(q.member_topic@),
        author: q.author,
        created_at: Some(created_at),
    }
}

/// Adds a behavior of a member under the number `id`.
pub fn create_user_behavior(
    a: &mut AuditData,
    id: i32,
    request: &CreateUserBehaviorRequest,
    created_at: String,
) -> (r: CreatedResponse)
    requires
        denotes(request.member_topic@),
    ensures
        exists|mid: AuditData|
            has_new_topic(
                &*old(a),
                Topic::Spec(id),
                behavior_view(id, *request, created_at@),
                &mid,
            ) && #[trigger] is_rebuilt(&mid, &*final(a)),
        r.topic_id@ == topic_text(Topic::Spec(id)),
{
    let ghost start = *a;
    let ghost view = behavior_view(id, *request, created_at@);
    let t = new_spec_topic(id);
    let metadata = TopicMetadata::BehaviorTopic {
        topic: t,
        description: request.description.clone(),
        member_topic: new_topic(request.member_topic.as_str()),
        author: request.author,
        created_at: Some(created_at),
    };
    assert(metadata@ == view);
    a.topic_metadata.insert(t, metadata);
    assert(known(a.topic_metadata@) =~= known(start.topic_metadata@).insert(t, view));
    let ghost mid = *a;
    assert(has_new_topic(&start, t, view, &mid));
    rebuild_feature_context(a);
    CreatedResponse { topic_id: t.id() }
}

/// What is known of a functional semantic that someone added.
pub open spec fn semantic_view(
    id: i32,
    q: CreateUserFunctionalSemanticRequest,
    created_at: Seq<char>,
) -> MetadataView {
    MetadataView::FunctionalSemanticTopic {
        topic: Topic::FunctionalProperty(id),
        description: q.description@,
        declaration_topic: meant(q.declaration_topic@),
        documentation_topics: meant_each(texts(q.documentation_topics@)),
        author: q.author,
        created_at: Some(created_at),
        match_source: None,
    }
}

/// Adds a functional semantic of a declaration under the number `id`.
pub fn create_user_functional_semantic(
    a: &mut AuditData,
    id: i32,
    request: &CreateUserFunctionalSemanticRequest,
    created_at: String,
) -> (r: CreatedResponse)
    requires
        denotes(request.declaration_topic@),
        denote_each(texts(request.documentation_topics@)),
    ensures
        exists|mid: AuditData|
            has_new_topic(
                &*old(a),
                Topic::FunctionalProperty(id),
                semantic_view(id, *request, created_at@),
                &mid,
            ) && #[trigger] is_rebuilt(&mid, &*final(a)),
        r.topic_id@ == topic_text(Topic::FunctionalProperty(id)),
{
    let ghost start = *a;
    let ghost view = semantic_view(id, *request, created_at@);
    let t = new_functional_property_topic(id);
    let metadata = TopicMetadata::FunctionalSemanticTopic {
        topic: t,
        description: request.description.clone(),
        declaration_topic: new_topic(request.declaration_topic.as_str()),
        documentation_topics: topics_of(&request.documentation_topics),
        author: request.author,
        created_at: Some(created_at),
        match_source: None,
    };
    assert(metadata@ == view);
    a.topic_metadata.insert(t, metadata);
    assert(known(a.topic_metadata@) =~= known(start.topic_metadata@).insert(t, view));
    let ghost mid = *a;
    assert(has_new_topic(&start, t, view, &mid));
    rebuild_feature_context(a);
    CreatedResponse { topic_id: t.id() }
}

#[derive(Debug)]
pub struct ConditionEvaluationInput {
    pub question: String,
    pub answer: String,
}

#[derive(Debug)]
pub struct CreateConditionRequest {
    pub subject_topic: String,
    pub condition_type: String,
    pub description: String,
    pub author: Author,
    pub evaluations: Vec<ConditionEvaluationInput>,
}

#[derive(Debug)]
pub struct ConditionEvaluationResponse {
    pub question: String,
    pub answer: String,
}

#[derive(Debug)]
pub struct ConditionResponse {
    pub id: i64,
    pub subject_topic: String,
    pub condition_type: String,
    pub description: String,
    pub author: Author,
    pub created_at: String,
    pub evaluations: Vec<ConditionEvaluationResponse>,
}

/// A condition as it was recorded.
#[derive(Debug)]
pub struct ConditionRow {
    pub id: i64,
    pub subject_topic: String,
    pub condition_type: String,
    pub description: String,
    pub author: Author,
    pub created_at: String,
}

pub open spec fn inputs(s: Seq<ConditionEvaluationInput>) -> Seq<(Seq<char>, Seq<char>)> {
    s.map_values(|e: ConditionEvaluationInput| (e.question@, e.answer@))
}

pub open spec fn evaluations(s: Seq<ConditionEvaluation>) -> Seq<(Seq<char>, Seq<char>)> {
    s.map_values(|e: ConditionEvaluation| (e.question@, e.answer@))
}

pub open spec fn evaluation_responses(s: Seq<ConditionEvaluationResponse>) -> Seq<
    (Seq<char>, Seq<char>),
> {
    s.map_values(|e: ConditionEvaluationResponse| (e.question@, e.answer@))
}

/// `c` is the condition that a request asks for.
pub open spec fn is_requested_condition(q: CreateConditionRequest, c: Condition) -> bool {
    &&& c.subject_topic == meant(q.subject_topic@)
    &&& c.condition_type.label() == q.condition_type@
    &&& c.description@ == q.description@
    &&& evaluations(c.evaluations@) == inputs(q.evaluations@)
}

/// The condition that a request asks for. The type must be known.
pub fn requested_condition(q: &CreateConditionRequest) -> (r: Result<Condition, Status>)
    requires
        denotes(q.subject_topic@),
    ensures
        match r {
            Ok(c) => is_requested_condition(*q, c),
            Err(s) => s == Status::BadRequest && forall|t: NonPureSubjectType|
                (#[trigger] t.label()) != q.condition_type@,
        },
{
    let condition_type = match NonPureSubjectType::parse_str(q.condition_type.as_str()) {
        Some(t) => t,
        None => {
            return Err(Status::BadRequest);
        },
    };
    let mut list: Vec<ConditionEvaluation> = Vec::new();
    let ghost all = inputs(q.evaluations@);
    assert(evaluations(list@) =~= all.take(0));
    for i in 0..q.evaluations.len()
        invariant
            all == inputs(q.evaluations@),
            evaluations(list@) == all.take(i as int),
    {
        let e = &q.evaluations[i];
        let ghost before = list@;
        let entry = ConditionEvaluation { question: e.question.clone(), answer: e.answer.clone() };
        let ghost pair = (entry.question@, entry.answer@);
        list.push(entry);
        assert(evaluations(list@) =~= evaluations(before).push(pair));
        assert(all.take(i + 1) =~= all.take(i as int).push(pair));
    }
    assert(all.take(all.len() as int) =~= all);
    Ok(
        Condition {
            subject_topic: new_topic(q.subject_topic.as_str()),
            condition_type,
            description: q.description.clone(),
            evaluations: list,
        },
    )
}

/// Adds a condition.
pub fn create_condition(a: &mut AuditData, condition: Condition)
    ensures
        final(a).conditions@ == old(a).conditions@.push(condition),
        *final(a) == (AuditData { conditions: final(a).conditions, ..*old(a) }),
{
    a.conditions.push(condition);
}

/// `r` tells of a recorded condition with its evaluations.
pub open spec fn is_condition_response(
    r: ConditionResponse,
    row: ConditionRow,
    list: Seq<ConditionEvaluation>,
) -> bool {
    &&& r.id == row.id
    &&& r.subject_topic == row.subject_topic
    &&& r.condition_type == row.condition_type
    &&& r.description == row.description
    &&& r.author == row.author
    &&& r.created_at == row.created_at
    &&& evaluation_responses(r.evaluations@) == evaluations(list)
}

/// The response for a recorded condition with its evaluations.
pub fn condition_response(row: ConditionRow, list: &Vec<ConditionEvaluation>) -> (r:
    ConditionResponse)
    ensures
        is_condition_response(r, row, list@),
{
    let mut out: Vec<ConditionEvaluationResponse> = Vec::new();
    let ghost all = evaluations(list@);
    assert(evaluation_responses(out@) =~= all.take(0));
    for i in 0..list.len()
        invariant
            all == evaluations(list@),
            evaluation_responses(out@) == all.take(i as int),
    {
        let e = &list[i];
        let ghost before = out@;
        let entry = ConditionEvaluationResponse {
            question: e.question.clone(),
            answer: e.answer.clone(),
        };
        let ghost pair = (entry.question@, entry.answer@);
        out.push(entry);
        assert(evaluation_responses(out@) =~= evaluation_responses(before).push(pair));
        assert(all.take(i + 1) =~= all.take(i as int).push(pair));
    }
    assert(all.take(all.len() as int) =~= all);
    ConditionResponse {
        id: row.id,
        subject_topic: row.subject_topic,
        condition_type: row.condition_type,
        description: row.description,
        author: row.author,
        created_at: row.created_at,
        evaluations: out,
    }
}

/// The responses for the recorded conditions of a subject, in their order.
pub fn get_subject_conditions(rows: Vec<(ConditionRow, Vec<ConditionEvaluation>)>) -> (r: Vec<
    ConditionResponse,
>)
    ensures
        r@.len() == rows@.len(),
        forall|i: int|
            0 <= i < rows@.len() ==> is_condition_response(
                #[trigger] r@[i],
                rows@[i].0,
                rows@[i].1@,
            ),
{
    let ghost all = rows@;
    let mut out: Vec<ConditionResponse> = Vec::new();
    for row in it: rows
        invariant
            it.seq() == all,
            out@.len() == it.index(),
            forall|i: int|
                0 <= i < out@.len() ==> is_condition_response(
                    #[trigger] out@[i],
                    all[i].0,
                    all[i].1@,
                ),
    {
        out.push(condition_response(row.0, &row.1));
    }
    out
}

/// The answer to a request to take out the condition `id`, of which `rows` are the
/// recorded ones. The audit is looked up only where the condition was recorded, and
/// the conditions in memory all stay, as they carry no number.
pub fn delete_condition(
    ctx: &DataContext,
    audit_id: &str,
    rows: &Vec<ConditionRow>,
    id: i64,
) -> (r: Result<Status, Status>)
    ensures
        r == if !ctx.audits@.dom().contains(audit_id@) && (exists|i: int|
            0 <= i < rows@.len() && (#[trigger] rows@[i]).id == id) {
            Err::<Status, Status>(Status::NotFound)
        } else {
            Ok(Status::NoContent)
        },
{
    let mut i: usize = 0;
    while i < rows.len() && rows[i].id != id
        invariant
            i <= rows@.len(),
            forall|j: int| 0 <= j < i ==> (#[trigger] rows@[j]).id != id,
        decreases rows@.len() - i,
    {
        i += 1;
    }
    if i < rows.len() {
        assert(rows@[i as int].id == id);
        if ctx.get_audit(audit_id).is_none() {
            return Err(Status::NotFound);
        }
    }
    Ok(Status::NoContent)
}

} // verus!
