//! Threats, invariants and their links to features.
use crate::api::responses::{is_response, topic_metadata_to_response, TopicMetadataResponse};
use crate::api::status::Status;
use crate::domain::audit::{AuditData, Invariant, Threat, ThreatFeatureLink};
use crate::domain::features::{is_rebuilt, rebuild_feature_context};
use crate::domain::kinds::{Author, InvariantKind, ThreatActor, ThreatFeatureRelation};
use crate::domain::kinds::ThreatSeverity;
use crate::domain::lists::{copy_topics, other_than, push_new, with_topic, without_topic};
use crate::domain::metadata::{MetadataView, TopicMetadata};
use crate::domain::topic::{new_adversarial_property_topic, parse_adversarial_property_topic};
use crate::domain::topic::{parse_spec_topic, prefix_of, topic_text, Topic};
use crate::ordered::{lookup, OrderedMap};
use crate::report::apply::known;
use crate::report::rows::{denotes, meant};
use vstd::prelude::*;
use vstd::string::*;

verus! {

#[derive(Debug)]
pub struct CreateThreatFeatureLinkRequest {
    pub threat_id: String,
    pub feature_id: String,
    pub relation: String,
    pub severity: String,
}

#[derive(Debug)]
pub struct ThreatFeatureLinkResponse {
    pub threat_topic: String,
    pub feature_topic: String,
    pub relation: String,
    pub severity: String,
}

#[derive(Debug)]
pub struct CreateThreatRequest {
    pub description: String,
    pub subject_topic: String,
    pub author: Author,
}

#[derive(Debug)]
pub struct CreateInvariantRequest {
    pub description: String,
    pub author: Author,
}

#[derive(Debug)]
pub struct AddSourceTopicRequest {
    pub topic_id: String,
}

/// The link that a request asks for: each part must be valid.
pub open spec fn is_requested_link(
    q: CreateThreatFeatureLinkRequest,
    l: ThreatFeatureLink,
) -> bool {
    &&& denotes(q.threat_id@)
    &&& meant(q.threat_id@) == l.threat_topic
    &&& prefix_of(l.threat_topic) == 'A'
    &&& denotes(q.feature_id@)
    &&& meant(q.feature_id@) == l.feature_topic
    &&& prefix_of(l.feature_topic) == 'S'
    &&& q.relation@ == l.relation.label()
    &&& q.severity@ == l.severity.label()
}

/// The link that a request asks for.
pub fn requested_link(q: &CreateThreatFeatureLinkRequest) -> (r: Result<ThreatFeatureLink, Status>)
    ensures
        match r {
            Ok(l) => is_requested_link(*q, l),
            Err(s) => s == Status::BadRequest && forall|l: ThreatFeatureLink|
                !#[trigger] is_requested_link(*q, l),
        },
{
    let threat_topic = match parse_adversarial_property_topic(q.threat_id.as_str()) {
        Ok(t) => t,
        Err(_) => {
            return Err(Status::BadRequest);
        },
    };
    let feature_topic = match parse_spec_topic(q.feature_id.as_str()) {
        Ok(t) => t,
        Err(_) => {
            return Err(Status::BadRequest);
        },
    };
    let relation = match ThreatFeatureRelation::parse_str(q.relation.as_str()) {
        Some(relation) => relation,
        None => {
            return Err(Status::BadRequest);
        },
    };
    let severity = match ThreatSeverity::parse_str(q.severity.as_str()) {
        Some(severity) => severity,
        None => {
            return Err(Status::BadRequest);
        },
    };
    Ok(ThreatFeatureLink { threat_topic, feature_topic, relation, severity })
}

/// Links other than those between a threat and a feature.
pub open spec fn other_link(threat: Topic, feature: Topic) -> spec_fn(ThreatFeatureLink) -> bool {
    |l: ThreatFeatureLink| !(l.threat_topic == threat && l.feature_topic == feature)
}

/// The more severe of two.
pub open spec fn more_severe(
    a: Option<ThreatSeverity>,
    b: ThreatSeverity,
) -> Option<ThreatSeverity> {
    match a {
        Some(s) => if s.level() > b.level() {
            Some(s)
        } else {
            Some(b)
        },
        None => Some(b),
    }
}

/// The highest severity among the links of a threat.
pub open spec fn highest_severity(links: Seq<ThreatFeatureLink>, threat: Topic) -> Option<
    ThreatSeverity,
>
    decreases links.len(),
{
    if links.len() == 0 {
        None
    } else {
        let rest = highest_severity(links.drop_last(), threat);
        if links.last().threat_topic == threat {
            more_severe(rest, links.last().severity)
        } else {
            rest
        }
    }
}

/// The highest severity is that of a link of the threat, and none of its links is
/// more severe. A threat without links has none.
pub proof fn highest_severity_is_highest(links: Seq<ThreatFeatureLink>, threat: Topic)
    ensures
        match highest_severity(links, threat) {
            Some(s) => {
                &&& exists|i: int|
                    0 <= i < links.len() && (#[trigger] links[i]).threat_topic == threat
                        && links[i].severity == s
                &&& forall|i: int|
                    0 <= i < links.len() && (#[trigger] links[i]).threat_topic == threat
                        ==> links[i].severity.level() <= s.level()
            },
            None => forall|i: int|
                0 <= i < links.len() ==> (#[trigger] links[i]).threat_topic != threat,
        },
    decreases links.len(),
{
    if links.len() > 0 {
        let rest = links.drop_last();
        let n = links.len() - 1;
        highest_severity_is_highest(rest, threat);
        assert(forall|i: int| 0 <= i < n ==> #[trigger] rest[i] == links[i]);
        assert(links[n] == links.last());
        if let Some(s) = highest_severity(rest, threat) {
            let i = choose|i: int|
                0 <= i < rest.len() && (#[trigger] rest[i]).threat_topic == threat
                    && rest[i].severity == s;
            assert(links[i].threat_topic == threat && links[i].severity == s);
        }
        assert forall|i: int|
            0 <= i < links.len() && (#[trigger] links[i]).threat_topic == threat implies highest_severity(
            links,
            threat,
        ) is Some && links[i].severity.level() <= highest_severity(links, threat)->0.level() by {
            if i < n {
                assert(rest[i].threat_topic == threat);
            }
        }
    }
}

fn find_highest_severity(links: &Vec<ThreatFeatureLink>, threat: &Topic) -> (r: Option<
    ThreatSeverity,
>)
    ensures
        r == highest_severity(links@, *threat),
{
    let mut best: Option<ThreatSeverity> = None;
    assert(links@.take(0) =~= Seq::empty());
    for i in 0..links.len()
        invariant
            best == highest_severity(links@.take(i as int), *threat),
    {
        assert(links@.take(i + 1).drop_last() =~= links@.take(i as int));
        if links[i].threat_topic == *threat {
            let s = links[i].severity;
            let keep = match best {
                Some(b) => !s.at_least(&b),
                None => false,
            };
            if !keep {
                best = Some(s);
            }
        }
    }
    assert(links@.take(links@.len() as int) =~= links@);
    best
}

/// The metadata of a threat with another severity.
pub open spec fn with_severity(m: MetadataView, s: Option<ThreatSeverity>) -> MetadataView {
    match m {
        MetadataView::ThreatTopic {
            topic,
            description,
            subject_topic,
            falsifies_condition,
            controlled_by,
            evidence_topics,
            author,
            created_at,
            ..
        } => MetadataView::ThreatTopic {
            topic,
            description,
            subject_topic,
            falsifies_condition,
            controlled_by,
            evidence_topics,
            author,
            created_at,
            severity: s,
        },
        _ => m,
    }
}

/// What is known after a topic got a severity. Only threats take one.
pub open spec fn rated(
    m: Map<Topic, MetadataView>,
    t: Topic,
    s: Option<ThreatSeverity>,
) -> Map<Topic, MetadataView> {
    if m.dom().contains(t) {
        m.insert(t, with_severity(m[t], s))
    } else {
        m
    }
}

fn set_severity(
    meta: &mut OrderedMap<Topic, TopicMetadata>,
    t: &Topic,
    s: Option<ThreatSeverity>,
)
    ensures
        known(final(meta)@) == rated(known(old(meta)@), *t, s),
{
    let ghost was = meta@;
    let ghost before = known(meta@);
    match meta.remove(t) {
        Some(m) => {
            let ghost old_view = m@;
            let changed = match m {
                TopicMetadata::ThreatTopic {
                    topic,
                    description,
                    subject_topic,
                    falsifies_condition,
                    controlled_by,
                    evidence_topics,
                    author,
                    created_at,
                    severity: _,
                } => TopicMetadata::ThreatTopic {
                    topic,
                    description,
                    subject_topic,
                    falsifies_condition,
                    controlled_by,
                    evidence_topics,
                    author,
                    created_at,
                    severity: s,
                },
                other => other,
            };
            assert(changed@ == with_severity(old_view, s));
            meta.insert(*t, changed);
            assert(known(meta@) =~= rated(before, *t, s));
        },
        None => {
            assert(meta@ =~= was);
            assert(known(meta@) =~= rated(before, *t, s));
        },
    }
}

fn keep_other_links(links: &Vec<ThreatFeatureLink>, threat: &Topic, feature: &Topic) -> (r: Vec<
    ThreatFeatureLink,
>)
    ensures
        r@ == links@.filter(other_link(*threat, *feature)),
{
    let ghost f = other_link(*threat, *feature);
    let mut out: Vec<ThreatFeatureLink> = Vec::new();
    assert(links@.take(0).filter(f) =~= Seq::empty()) by {
        reveal(Seq::filter);
    }
    for i in 0..links.len()
        invariant
            f == other_link(*threat, *feature),
            out@ == links@.take(i as int).filter(f),
    {
        let l = links[i];
        proof {
            assert(links@.take(i + 1) =~= links@.take(i as int).push(l));
            links@.take(i as int).lemma_filter_push(l, f);
        }
        if !(l.threat_topic == *threat && l.feature_topic == *feature) {
            out.push(l);
        }
    }
    assert(links@.take(links@.len() as int) =~= links@);
    out
}

/// `b` is `a` with these links and the severity of the threat that follows from
/// them.
pub open spec fn is_relinked(
    a: &AuditData,
    links: Seq<ThreatFeatureLink>,
    threat: Topic,
    b: &AuditData,
) -> bool {
    &&& b.threat_feature_links@ == links
    &&& known(b.topic_metadata@) == rated(
        known(a.topic_metadata@),
        threat,
        highest_severity(links, threat),
    )
    &&& *b == (AuditData {
        threat_feature_links: b.threat_feature_links,
        topic_metadata: b.topic_metadata,
        ..*a
    })
}

/// Links a threat to a feature, in place of an earlier link between the two. The
/// threat takes the highest severity among its links.
pub fn create_threat_feature_link(a: &mut AuditData, link: ThreatFeatureLink) -> (r:
    ThreatFeatureLinkResponse)
    ensures
        is_relinked(
            &*old(a),
            old(a).threat_feature_links@.filter(
                other_link(link.threat_topic, link.feature_topic),
            ).push(link),
            link.threat_topic,
            &*final(a),
        ),
        r.threat_topic@ == topic_text(link.threat_topic),
        r.feature_topic@ == topic_text(link.feature_topic),
        r.relation@ == link.relation.label(),
        r.severity@ == link.severity.label(),
{
    let mut links = keep_other_links(
        &a.threat_feature_links,
        &link.threat_topic,
        &link.feature_topic,
    );
    links.push(link);
    let severity = find_highest_severity(&links, &link.threat_topic);
    a.threat_feature_links = links;
    set_severity(&mut a.topic_metadata, &link.threat_topic, severity);
    ThreatFeatureLinkResponse {
        threat_topic: link.threat_topic.id(),
        feature_topic: link.feature_topic.id(),
        relation: link.relation.as_str().to_owned(),
        severity: link.severity.as_str().to_owned(),
    }
}

/// Takes out the link between a threat and a feature. The threat takes the highest
/// severity among the links that it has left, or none.
pub fn delete_threat_feature_link(a: &mut AuditData, threat: Topic, feature: Topic)
    ensures
        is_relinked(
            &*old(a),
            old(a).threat_feature_links@.filter(other_link(threat, feature)),
            threat,
            &*final(a),
        ),
{
    let links = keep_other_links(&a.threat_feature_links, &threat, &feature);
    let severity = find_highest_severity(&links, &threat);
    a.threat_feature_links = links;
    set_severity(&mut a.topic_metadata, &threat, severity);
}

/// A link that was just made is there, and it is the only one between the two.
pub proof fn made_link_is_the_only_one(links: Seq<ThreatFeatureLink>, l: ThreatFeatureLink, i: int)
    requires
        ({
            let after = links.filter(other_link(l.threat_topic, l.feature_topic)).push(l);
            &&& 0 <= i < after.len()
            &&& after[i].threat_topic == l.threat_topic
            &&& after[i].feature_topic == l.feature_topic
        }),
    ensures
        i == links.filter(other_link(l.threat_topic, l.feature_topic)).len(),
        links.filter(other_link(l.threat_topic, l.feature_topic)).push(l)[i] == l,
{
    let f = other_link(l.threat_topic, l.feature_topic);
    let kept = links.filter(f);
    if i < kept.len() {
        links.lemma_filter_pred(f, i);
        assert(f(kept[i]));
    }
}

/// Taking out the link that was just made leaves the links that were there before,
/// except an earlier link between the two.
pub proof fn unmaking_a_link(links: Seq<ThreatFeatureLink>, l: ThreatFeatureLink)
    ensures
        ({
            let f = other_link(l.threat_topic, l.feature_topic);
            links.filter(f).push(l).filter(f) == links.filter(f)
        }),
{
    let f = other_link(l.threat_topic, l.feature_topic);
    let kept = links.filter(f);
    kept.lemma_filter_push(l, f);
    assert forall|i: int| 0 <= i < kept.len() implies #[trigger] f(kept[i]) by {
        links.lemma_filter_pred(f, i);
    }
    lemma_filter_kept(kept, f);
}

proof fn lemma_filter_kept(s: Seq<ThreatFeatureLink>, f: spec_fn(ThreatFeatureLink) -> bool)
    requires
        forall|i: int| 0 <= i < s.len() ==> #[trigger] f(s[i]),
    ensures
        s.filter(f) == s,
    decreases s.len(),
{
    reveal(Seq::filter);
    if s.len() > 0 {
        let t = s.drop_last();
        assert forall|i: int| 0 <= i < t.len() implies #[trigger] f(t[i]) by {
            assert(t[i] == s[i]);
            assert(f(s[i]));
        }
        lemma_filter_kept(t, f);
        assert(f(s[s.len() - 1]));
        assert(t.push(s.last()) =~= s);
    } else {
        assert(s.filter(f) =~= s);
    }
}

/// A threat as it was recorded.
#[derive(Debug)]
pub struct ThreatRow {
    pub id: i32,
    pub description: String,
    pub subject_topic: Topic,
    pub falsifies_condition: Topic,
    pub controlled_by: ThreatActor,
    pub evidence_topics: Vec<Topic>,
    pub author: Author,
    pub created_at: String,
}

/// What is known of a threat that was recorded. Its severity comes later.
pub open spec fn threat_view(row: ThreatRow) -> MetadataView {
    MetadataView::ThreatTopic {
        topic: Topic::AdversarialProperty(row.id),
        description: row.description@,
        subject_topic: row.subject_topic,
        falsifies_condition: row.falsifies_condition,
        controlled_by: row.controlled_by,
        evidence_topics: row.evidence_topics@,
        author: row.author,
        created_at: Some(row.created_at@),
        severity: None,
    }
}

/// `b` is `a` with a new threat, before anything is derived.
pub open spec fn has_new_threat(a: &AuditData, row: ThreatRow, b: &AuditData) -> bool {
    let t = Topic::AdversarialProperty(row.id);
    &&& b.threats@.dom() == a.threats@.dom().insert(t)
    &&& b.threats@[t].invariant_topics@.len() == 0
    &&& b.threats@ == a.threats@.insert(t, b.threats@[t])
    &&& known(b.topic_metadata@) == known(a.topic_metadata@).insert(t, threat_view(row))
    &&& *b == (AuditData { threats: b.threats, topic_metadata: b.topic_metadata, ..*a })
}

/// Adds a threat.
pub fn create_threat(a: &mut AuditData, row: ThreatRow) -> (r: TopicMetadataResponse)
    ensures
        exists|mid: AuditData|
            has_new_threat(&*old(a), row, &mid) && #[trigger] is_rebuilt(&mid, &*final(a)),
        is_response(r, Topic::AdversarialProperty(row.id), threat_view(row)),
{
    let ghost start = *a;
    let ghost view = threat_view(row);
    let t = new_adversarial_property_topic(row.id);
    let metadata = TopicMetadata::ThreatTopic {
        topic: t,
        description: row.description,
        subject_topic: row.subject_topic,
        falsifies_condition: row.falsifies_condition,
        controlled_by: row.controlled_by,
        evidence_topics: row.evidence_topics,
        author: row.author,
        created_at: Some(row.created_at),
        severity: None,
    };
    assert(metadata@ == view);
    let response = say(&t, &metadata);
    a.threats.insert(t, Threat { invariant_topics: Vec::new() });
    a.topic_metadata.insert(t, metadata);
    assert(known(a.topic_metadata@) =~= known(start.topic_metadata@).insert(t, view));
    assert(a.threats@.dom() =~= start.threats@.dom().insert(t));
    let ghost mid = *a;
    assert(has_new_threat(&start, row, &mid));
    rebuild_feature_context(a);
    response
}

/// What is said of a threat or an invariant.
fn say(t: &Topic, m: &TopicMetadata) -> (r: TopicMetadataResponse)
    requires
        m is ThreatTopic || m is InvariantTopic,
    ensures
        is_response(r, *t, m@),
{
    match topic_metadata_to_response(t, m) {
        Some(response) => response,
        None => {
            assert(false);
            TopicMetadataResponse::Unnamed(
                crate::api::responses::UnnamedTopicResponse {
                    topic_id: String::new(),
                    kind: String::new(),
                    scope: crate::domain::scope::Scope::Global,
                },
            )
        },
    }
}

/// The invariants of a threat.
pub open spec fn invariants_of(a: &AuditData, t: Topic) -> Seq<Topic> {
    if a.threats@.dom().contains(t) {
        a.threats@[t].invariant_topics@
    } else {
        seq![]
    }
}

/// `b` is `a` without a threat and its invariants, before anything is derived.
pub open spec fn has_lost_threat(a: &AuditData, t: Topic, b: &AuditData) -> bool {
    let gone = invariants_of(a, t).to_set();
    &&& b.invariants@ == a.invariants@.remove_keys(gone)
    &&& b.threats@ == a.threats@.remove(t)
    &&& b.topic_metadata@ == a.topic_metadata@.remove_keys(gone).remove(t)
    &&& b.topic_context@ == a.topic_context@.remove_keys(gone).remove(t)
    &&& *b == (AuditData {
        invariants: b.invariants,
        threats: b.threats,
        topic_metadata: b.topic_metadata,
        topic_context: b.topic_context,
        ..*a
    })
}

fn remove_each<V>(m: &mut OrderedMap<Topic, V>, keys: &Vec<Topic>)
    ensures
        final(m)@ == old(m)@.remove_keys(keys@.to_set()),
{
    let ghost start = m@;
    assert(m@ =~= start.remove_keys(keys@.take(0).to_set()));
    for i in 0..keys.len()
        invariant
            m@ == start.remove_keys(keys@.take(i as int).to_set()),
    {
        let ghost before = keys@.take(i as int);
        let ghost after = keys@.take(i + 1);
        let _ = m.remove(&keys[i]);
        assert forall|t: Topic| #[trigger] after.to_set().contains(t) == (before.to_set().contains(
            t,
        ) || t == keys@[i as int]) by {
            assert(after =~= before.push(keys@[i as int]));
            if before.contains(t) {
                let k = choose|k: int| 0 <= k < before.len() && before[k] == t;
                assert(after[k] == t);
            }
            if t == keys@[i as int] {
                assert(after[i as int] == t);
            }
        }
        assert(m@ =~= start.remove_keys(after.to_set()));
    }
    assert(keys@.take(keys@.len() as int) =~= keys@);
}

/// Takes out a threat with its invariants.
pub fn delete_threat(a: &mut AuditData, threat_topic: Topic)
    ensures
        exists|mid: AuditData|
            has_lost_threat(&*old(a), threat_topic, &mid) && #[trigger] is_rebuilt(
                &mid,
                &*final(a),
            ),
{
    let ghost start = *a;
    let gone: Vec<Topic> = match a.threats.get(&threat_topic) {
        Some(threat) => copy_topics(&threat.invariant_topics),
        None => Vec::new(),
    };
    assert(gone@ =~= invariants_of(&start, threat_topic));
    remove_each(&mut a.invariants, &gone);
    remove_each(&mut a.topic_metadata, &gone);
    remove_each(&mut a.topic_context, &gone);
    let _ = a.threats.remove(&threat_topic);
    let _ = a.topic_metadata.remove(&threat_topic);
    let _ = a.topic_context.remove(&threat_topic);
    let ghost mid = *a;
    assert(has_lost_threat(&start, threat_topic, &mid));
    rebuild_feature_context(a);
}

/// The severity that an invariant takes from its threat.
pub fn inherited_severity(a: &AuditData, threat_topic: &Topic) -> (r: Result<
    Option<ThreatSeverity>,
    Status,
>)
    ensures
        match lookup(a.topic_metadata.pairs(), *threat_topic) {
            Some(TopicMetadata::ThreatTopic { severity, .. }) => r == Ok::<
                Option<ThreatSeverity>,
                Status,
            >(severity),
            _ => r == Err::<Option<ThreatSeverity>, Status>(Status::NotFound),
        },
{
    match a.topic_metadata.get(threat_topic) {
        Some(TopicMetadata::ThreatTopic { severity, .. }) => Ok(*severity),
        _ => Err(Status::NotFound),
    }
}

/// An invariant as it was recorded.
#[derive(Debug)]
pub struct InvariantRow {
    pub id: i32,
    pub description: String,
    pub threat_topic: Topic,
    pub subject_topic: Topic,
    pub kind: InvariantKind,
    pub anchors: Vec<Topic>,
    pub author: Author,
    pub created_at: String,
    pub severity: Option<ThreatSeverity>,
}

/// What is known of an invariant that was recorded.
pub open spec fn invariant_view(row: InvariantRow) -> MetadataView {
    MetadataView::InvariantTopic {
        topic: Topic::AdversarialProperty(row.id),
        description: row.description@,
        threat_topic: row.threat_topic,
        subject_topic: row.subject_topic,
        kind: row.kind,
        anchors: row.anchors@,
        author: row.author,
        created_at: Some(row.created_at@),
        severity: row.severity,
    }
}

/// `b` is `a` with a new invariant, before anything is derived.
pub open spec fn has_new_invariant(a: &AuditData, row: InvariantRow, b: &AuditData) -> bool {
    let t = Topic::AdversarialProperty(row.id);
    let threat = row.threat_topic;
    &&& a.threats@.dom().contains(threat)
    &&& b.threats@ == a.threats@.insert(threat, b.threats@[threat])
    &&& b.threats@[threat].invariant_topics@ == a.threats@[threat].invariant_topics@.push(t)
    &&& b.invariants@ == a.invariants@.insert(t, b.invariants@[t])
    &&& b.invariants@[t].source_topics@.len() == 0
    &&& known(b.topic_metadata@) == known(a.topic_metadata@).insert(t, invariant_view(row))
    &&& *b == (AuditData {
        threats: b.threats,
        invariants: b.invariants,
        topic_metadata: b.topic_metadata,
        ..*a
    })
}

/// Adds an invariant to its threat.
pub fn create_invariant(a: &mut AuditData, row: InvariantRow) -> (r: Result<
    TopicMetadataResponse,
    Status,
>)
    ensures
        match r {
            Ok(response) => {
                &&& exists|mid: AuditData|
                    has_new_invariant(&*old(a), row, &mid) && #[trigger] is_rebuilt(
                        &mid,
                        &*final(a),
                    )
                &&& is_response(response, Topic::AdversarialProperty(row.id), invariant_view(row))
            },
            Err(s) => {
                &&& !old(a).threats@.dom().contains(row.threat_topic)
                &&& s == Status::NotFound
                &&& *final(a) == *old(a)
            },
        },
{
    let ghost start = *a;
    let ghost view = invariant_view(row);
    let t = new_adversarial_property_topic(row.id);
    let threat_topic = row.threat_topic;
    if !a.threats.contains_key(&threat_topic) {
        return Err(Status::NotFound);
    }
    match a.threats.remove(&threat_topic) {
        Some(threat) => {
            let mut invariant_topics = threat.invariant_topics;
            invariant_topics.push(t);
            a.threats.insert(threat_topic, Threat { invariant_topics });
        },
        None => {},
    }
    assert(a.threats@ =~= start.threats@.insert(threat_topic, a.threats@[threat_topic]));
    let metadata = TopicMetadata::InvariantTopic {
        topic: t,
        description: row.description,
        threat_topic,
        subject_topic: row.subject_topic,
        kind: row.kind,
        anchors: row.anchors,
        author: row.author,
        created_at: Some(row.created_at),
        severity: row.severity,
    };
    assert(metadata@ == view);
    let response = say(&t, &metadata);
    a.invariants.insert(t, Invariant { source_topics: Vec::new() });
    a.topic_metadata.insert(t, metadata);
    assert(known(a.topic_metadata@) =~= known(start.topic_metadata@).insert(t, view));
    let ghost mid = *a;
    assert(has_new_invariant(&start, row, &mid));
    rebuild_feature_context(a);
    Ok(response)
}

/// `b` is `a` without an invariant of a threat, before anything is derived.
pub open spec fn has_lost_invariant(
    a: &AuditData,
    threat: Topic,
    t: Topic,
    b: &AuditData,
) -> bool {
    &&& b.threats@.dom() == a.threats@.dom()
    &&& forall|u: Topic| #[trigger]
        a.threats@.dom().contains(u) && u != threat ==> b.threats@[u] == a.threats@[u]
    &&& a.threats@.dom().contains(threat) ==> b.threats@[threat].invariant_topics@
        == a.threats@[threat].invariant_topics@.filter(other_than(t))
    &&& b.invariants@ == a.invariants@.remove(t)
    &&& b.topic_metadata@ == a.topic_metadata@.remove(t)
    &&& b.topic_context@ == a.topic_context@.remove(t)
    &&& *b == (AuditData {
        threats: b.threats,
        invariants: b.invariants,
        topic_metadata: b.topic_metadata,
        topic_context: b.topic_context,
        ..*a
    })
}

/// Takes an invariant out.
pub fn delete_invariant(a: &mut AuditData, threat_topic: Topic, invariant_topic: Topic)
    ensures
        exists|mid: AuditData|
            has_lost_invariant(&*old(a), threat_topic, invariant_topic, &mid)
                && #[trigger] is_rebuilt(&mid, &*final(a)),
{
    let ghost start = *a;
    match a.threats.remove(&threat_topic) {
        Some(threat) => {
            let invariant_topics = without_topic(&threat.invariant_topics, &invariant_topic);
            a.threats.insert(threat_topic, Threat { invariant_topics });
        },
        None => {},
    }
    assert(a.threats@.dom() =~= start.threats@.dom());
    let _ = a.invariants.remove(&invariant_topic);
    let _ = a.topic_metadata.remove(&invariant_topic);
    let _ = a.topic_context.remove(&invariant_topic);
    let ghost mid = *a;
    assert(has_lost_invariant(&start, threat_topic, invariant_topic, &mid));
    rebuild_feature_context(a);
}

/// `b` is `a` with these source topics for an invariant.
pub open spec fn has_sources(a: &AuditData, t: Topic, sources: Seq<Topic>, b: &AuditData) -> bool {
    &&& b.invariants@.dom() == a.invariants@.dom()
    &&& b.invariants@ == a.invariants@.insert(t, b.invariants@[t])
    &&& b.invariants@[t].source_topics@ == sources
    &&& *b == (AuditData { invariants: b.invariants, ..*a })
}

/// What a change of the source topics of an invariant is answered.
pub open spec fn is_source_answer(
    a: &AuditData,
    t: Topic,
    r: Result<TopicMetadataResponse, Status>,
) -> bool {
    match lookup(a.topic_metadata.pairs(), t) {
        Some(m) => if a.invariants@.dom().contains(t) && crate::api::responses::has_response(m@) {
            r is Ok && is_response(r->Ok_0, t, m@)
        } else {
            r is Err && r->Err_0 == Status::NotFound
        },
        None => r is Err && r->Err_0 == Status::NotFound,
    }
}

fn answer_on(a: &AuditData, t: &Topic) -> (r: Result<TopicMetadataResponse, Status>)
    requires
        a.invariants@.dom().contains(*t),
    ensures
        is_source_answer(a, *t, r),
{
    match a.topic_metadata.get(t) {
        Some(m) => match topic_metadata_to_response(t, m) {
            Some(response) => Ok(response),
            None => Err(Status::NotFound),
        },
        None => Err(Status::NotFound),
    }
}

/// Adds a source topic to an invariant.
pub fn add_invariant_source_topic(a: &mut AuditData, invariant_topic: Topic, source: Topic) -> (r:
    Result<TopicMetadataResponse, Status>)
    ensures
        is_source_answer(&*old(a), invariant_topic, r),
        if old(a).invariants@.dom().contains(invariant_topic) {
            has_sources(
                &*old(a),
                invariant_topic,
                with_topic(old(a).invariants@[invariant_topic].source_topics@, source),
                &*final(a),
            )
        } else {
            *final(a) == *old(a)
        },
{
    let ghost start = *a;
    if !a.invariants.contains_key(&invariant_topic) {
        return Err(Status::NotFound);
    }
    match a.invariants.remove(&invariant_topic) {
        Some(held) => {
            let mut source_topics = held.source_topics;
            push_new(&mut source_topics, source);
            a.invariants.insert(invariant_topic, Invariant { source_topics });
        },
        None => {},
    }
    assert(a.invariants@ =~= start.invariants@.insert(
        invariant_topic,
        a.invariants@[invariant_topic],
    ));
    assert(a.invariants@.dom() =~= start.invariants@.dom());
    answer_on(a, &invariant_topic)
}

/// Takes a source topic out of an invariant.
pub fn remove_invariant_source_topic(
    a: &mut AuditData,
    invariant_topic: Topic,
    source: Topic,
) -> (r: Result<TopicMetadataResponse, Status>)
    ensures
        is_source_answer(&*old(a), invariant_topic, r),
        if old(a).invariants@.dom().contains(invariant_topic) {
            has_sources(
                &*old(a),
                invariant_topic,
                old(a).invariants@[invariant_topic].source_topics@.filter(other_than(source)),
                &*final(a),
            )
        } else {
            *final(a) == *old(a)
        },
{
    let ghost start = *a;
    if !a.invariants.contains_key(&invariant_topic) {
        return Err(Status::NotFound);
    }
    match a.invariants.remove(&invariant_topic) {
        Some(held) => {
            let source_topics = without_topic(&held.source_topics, &source);
            a.invariants.insert(invariant_topic, Invariant { source_topics });
        },
        None => {},
    }
    assert(a.invariants@ =~= start.invariants@.insert(
        invariant_topic,
        a.invariants@[invariant_topic],
    ));
    assert(a.invariants@.dom() =~= start.invariants@.dom());
    answer_on(a, &invariant_topic)
}

} // verus!
