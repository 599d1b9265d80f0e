//! What requests change, in terms of what was asked for.
use crate::api::conversation::{answered_by, concerned, indexed, scope_at, CommentStatus};
use crate::api::entities::{behavior_view, extended, feature_view, has_new_feature};
use crate::api::entities::{has_new_requirement, has_new_topic, semantic_view};
use crate::api::entities::{CreateUserBehaviorRequest, CreateUserFeatureRequest};
use crate::api::entities::{CreateUserFunctionalSemanticRequest, CreateUserRequirementRequest};
use crate::api::threats::{has_lost_invariant, has_lost_threat, has_new_invariant, has_new_threat};
use crate::api::threats::{has_sources, highest_severity_is_highest, is_relinked, other_link};
use crate::api::threats::{InvariantRow, ThreatRow};
use crate::domain::audit::{entries, AuditData, ThreatFeatureLink};
use crate::domain::index::{index_lists, lemma_lookup_put, list_for};
use crate::domain::lists::{other_than, with_topic};
use crate::domain::rebuild_laws::{knows, lemma_listed_for, listed_for};
use crate::domain::scope::ScopeView;
use crate::domain::topic::{topic_text, Topic};
use crate::ordered::{ascending, has_key};
use crate::report::apply::{known, requirement_map};
use crate::report::rows::{meant, meant_each};
use crate::text::texts;
use vstd::prelude::*;

verus! {

/// A new comment concerns the topic that it is on and each that it mentions, and
/// nothing else. None is named twice, and the one that it is on comes first.
pub proof fn comments_concern_what_they_are_on(topic_id: Seq<char>, mentions: Seq<Topic>, x: Seq<
    char,
>)
    ensures
        concerned(topic_id, mentions).contains(x) <==> x == topic_id || exists|m: Topic| #[trigger]
            mentions.contains(m) && topic_text(m) == x,
        concerned(topic_id, mentions).no_duplicates(),
        concerned(topic_id, mentions)[0] == topic_id,
        concerned(topic_id, mentions).len() > 0,
    decreases mentions.len(),
{
    if mentions.len() == 0 {
        assert(concerned(topic_id, mentions)[0] == topic_id);
    } else {
        let rest = mentions.drop_last();
        let last = mentions.last();
        let n = mentions.len() - 1;
        comments_concern_what_they_are_on(topic_id, rest, x);
        let before = concerned(topic_id, rest);
        let after = concerned(topic_id, mentions);
        let text = topic_text(last);
        assert(mentions[n] == last);
        assert(mentions.contains(last));
        if !before.contains(text) {
            assert(after == before.push(text));
            assert(after[before.len() as int] == text);
            if before.contains(x) {
                let i = choose|i: int| 0 <= i < before.len() && before[i] == x;
                assert(after[i] == x);
            }
            if after.contains(x) && x != text {
                let i = choose|i: int| 0 <= i < after.len() && after[i] == x;
                assert(before[i] == x);
            }
        } else {
            comments_concern_what_they_are_on(topic_id, rest, text);
        }
        if exists|m: Topic| #[trigger] rest.contains(m) && topic_text(m) == x {
            let m = choose|m: Topic| #[trigger] rest.contains(m) && topic_text(m) == x;
            let i = choose|i: int| 0 <= i < rest.len() && rest[i] == m;
            assert(mentions[i] == m);
            assert(mentions.contains(m));
        }
        if exists|m: Topic| #[trigger] mentions.contains(m) && topic_text(m) == x {
            let m = choose|m: Topic| #[trigger] mentions.contains(m) && topic_text(m) == x;
            let i = choose|i: int| 0 <= i < mentions.len() && mentions[i] == m;
            if i < n {
                assert(rest[i] == m);
                assert(rest.contains(m));
            }
        }
    }
}

proof fn lemma_kept(list: Seq<Topic>, c: Topic, x: Topic)
    ensures
        list.filter(other_than(c)).contains(x) <==> list.contains(x) && x != c,
    decreases list.len(),
{
    let f = other_than(c);
    reveal(Seq::filter);
    if list.len() > 0 {
        let rest = list.drop_last();
        let n = list.len() - 1;
        lemma_kept(rest, c, x);
        let before = rest.filter(f);
        let after = list.filter(f);
        if before.contains(x) {
            let i = choose|i: int| 0 <= i < before.len() && before[i] == x;
            assert(after[i] == x);
            let k = choose|k: int| 0 <= k < rest.len() && rest[k] == x;
            assert(list[k] == x);
        }
        if list[n] == x && x != c {
            assert(after[before.len() as int] == x);
        }
        if after.contains(x) {
            let i = choose|i: int| 0 <= i < after.len() && after[i] == x;
            if i < before.len() {
                assert(before[i] == x);
            } else {
                assert(list[n] == x);
            }
        }
        if list.contains(x) {
            let k = choose|k: int| 0 <= k < list.len() && list[k] == x;
            if k < n {
                assert(rest[k] == x);
            }
        }
    }
}

/// A comment that is hidden is no longer listed for what it is on. One with any other
/// status is. No other comment is affected, and nothing else that was commented on.
pub proof fn hidden_comments_are_not_listed(
    index: Seq<(Topic, Seq<Topic>)>,
    target: Topic,
    comment: Topic,
    status: CommentStatus,
    k: Topic,
    x: Topic,
)
    requires
        ascending(index),
    ensures
        list_for(indexed(index, target, comment, status), k).contains(x) <==> if k == target && x
            == comment {
            status != CommentStatus::Hidden
        } else {
            list_for(index, k).contains(x)
        },
{
    let list = list_for(index, target);
    if status == CommentStatus::Hidden {
        if has_key(index, target) {
            lemma_lookup_put(index, target, list.filter(other_than(comment)), k);
            lemma_kept(list, comment, x);
        }
    } else {
        lemma_lookup_put(index, target, with_topic(list, comment), k);
        crate::domain::feature_laws::lemma_with_topic(list, comment);
        if k == target {
            let after = with_topic(list, comment);
            if list.contains(x) {
                let i = choose|i: int| 0 <= i < list.len() && list[i] == x;
                assert(after[i] == x);
            }
            if after.contains(x) && !list.contains(comment) && x != comment {
                let i = choose|i: int| 0 <= i < after.len() && after[i] == x;
                assert(list[i] == x);
            }
            if !list.contains(comment) {
                assert(after[list.len() as int] == comment);
            }
        }
    }
}

/// A comment answers exactly the comment that it is on.
pub proof fn comments_answer_comments(a: &AuditData, t: Topic, p: Topic)
    requires
        knows(a, t),
        a.topic_metadata@[t] is CommentTopic,
    ensures
        answered_by(entries(a), t) == Some(p) <==> p is Comment
            && a.topic_metadata@[t]->target_topic == p,
{
}

/// A comment on something known takes its scope, and any other the global one.
pub proof fn comments_take_the_scope_of_their_topic(a: &AuditData, t: Topic)
    ensures
        knows(a, t) ==> scope_at(a, t) == a.topic_metadata@[t].scope_view(),
        !knows(a, t) ==> scope_at(a, t) == ScopeView::Global,
{
}

/// After its links changed, a threat is as severe as the most severe of them. Without
/// any it has no severity. Otherwise it is as it was.
pub proof fn threats_are_as_severe_as_their_links(
    a: &AuditData,
    links: Seq<ThreatFeatureLink>,
    t: Topic,
    b: &AuditData,
)
    requires
        is_relinked(a, links, t, b),
        knows(a, t),
        a.topic_metadata@[t] is ThreatTopic,
    ensures
        knows(b, t),
        b.topic_metadata@[t] is ThreatTopic,
        match b.topic_metadata@[t]->ThreatTopic_severity {
            Some(s) => {
                &&& exists|i: int|
                    0 <= i < links.len() && (#[trigger] links[i]).threat_topic == t
                        && links[i].severity == s
                &&& forall|i: int|
                    0 <= i < links.len() && (#[trigger] links[i]).threat_topic == t
                        ==> links[i].severity.level() <= s.level()
            },
            None => forall|i: int|
                0 <= i < links.len() ==> (#[trigger] links[i]).threat_topic != t,
        },
        b.topic_metadata@[t]->ThreatTopic_topic == a.topic_metadata@[t]->ThreatTopic_topic,
        b.topic_metadata@[t]->ThreatTopic_description@
            == a.topic_metadata@[t]->ThreatTopic_description@,
        b.topic_metadata@[t]->ThreatTopic_subject_topic
            == a.topic_metadata@[t]->ThreatTopic_subject_topic,
        b.topic_metadata@[t]->falsifies_condition == a.topic_metadata@[t]->falsifies_condition,
        b.topic_metadata@[t]->controlled_by == a.topic_metadata@[t]->controlled_by,
        b.topic_metadata@[t]->ThreatTopic_evidence_topics@
            == a.topic_metadata@[t]->ThreatTopic_evidence_topics@,
        b.topic_metadata@[t]->ThreatTopic_author == a.topic_metadata@[t]->ThreatTopic_author,
{
    let x = known(a.topic_metadata@);
    let y = known(b.topic_metadata@);
    assert(x.dom().contains(t) && x[t] == a.topic_metadata@[t]@);
    assert(y == crate::api::threats::rated(
        x,
        t,
        crate::api::threats::highest_severity(links, t),
    ));
    assert(y.dom().contains(t));
    assert(knows(b, t));
    assert(y[t] == b.topic_metadata@[t]@);
    highest_severity_is_highest(links, t);
}

/// A change of the links of a threat leaves what is known of every other topic, and
/// every other part of the audit.
pub proof fn links_change_no_other_topic(
    a: &AuditData,
    links: Seq<ThreatFeatureLink>,
    t: Topic,
    b: &AuditData,
    x: Topic,
)
    requires
        is_relinked(a, links, t, b),
        x != t,
    ensures
        knows(b, x) == knows(a, x),
        knows(a, x) ==> b.topic_metadata@[x]@ == a.topic_metadata@[x]@,
        b.threats == a.threats,
        b.invariants == a.invariants,
        b.feature_requirement_links == a.feature_requirement_links,
        b.feature_behavior_links == a.feature_behavior_links,
{
    let before = known(a.topic_metadata@);
    let after = known(b.topic_metadata@);
    assert(before.dom().contains(x) == knows(a, x));
    assert(after.dom().contains(x) == knows(b, x));
    if knows(a, x) {
        assert(before[x] == a.topic_metadata@[x]@);
        assert(after[x] == b.topic_metadata@[x]@);
    }
}

/// Taking out a link takes out those between the two and keeps all others.
pub proof fn other_links_stay(
    links: Seq<ThreatFeatureLink>,
    threat: Topic,
    feature: Topic,
    l: ThreatFeatureLink,
)
    ensures
        links.filter(other_link(threat, feature)).contains(l) <==> links.contains(l) && !(
        l.threat_topic == threat && l.feature_topic == feature),
    decreases links.len(),
{
    let f = other_link(threat, feature);
    reveal(Seq::filter);
    if links.len() > 0 {
        let rest = links.drop_last();
        let n = links.len() - 1;
        other_links_stay(rest, threat, feature, l);
        let before = rest.filter(f);
        let after = links.filter(f);
        if before.contains(l) {
            let i = choose|i: int| 0 <= i < before.len() && before[i] == l;
            assert(after[i] == l);
            let k = choose|k: int| 0 <= k < rest.len() && rest[k] == l;
            assert(links[k] == l);
        }
        if links[n] == l && f(l) {
            assert(after[before.len() as int] == l);
        }
        if after.contains(l) {
            let i = choose|i: int| 0 <= i < after.len() && after[i] == l;
            if i < before.len() {
                assert(before[i] == l);
            } else {
                assert(links[n] == l);
            }
        }
        if links.contains(l) {
            let k = choose|k: int| 0 <= k < links.len() && links[k] == l;
            if k < n {
                assert(rest[k] == l);
            }
        }
    }
}

/// A new threat is known as it was recorded. It has no invariants and no severity
/// yet, and the other threats and topics stay.
pub proof fn new_threats_are_known(a: &AuditData, row: ThreatRow, b: &AuditData, x: Topic)
    requires
        has_new_threat(a, row, b),
    ensures
        ({
            let t = Topic::AdversarialProperty(row.id);
            let m = b.topic_metadata@[t];
            &&& knows(b, t)
            &&& m is ThreatTopic
            &&& m->ThreatTopic_topic == t
            &&& m->ThreatTopic_description@ == row.description@
            &&& m->ThreatTopic_subject_topic == row.subject_topic
            &&& m->falsifies_condition == row.falsifies_condition
            &&& m->controlled_by == row.controlled_by
            &&& m->ThreatTopic_evidence_topics@ == row.evidence_topics@
            &&& m->ThreatTopic_author == row.author
            &&& m->ThreatTopic_created_at is Some
            &&& m->ThreatTopic_created_at->0@ == row.created_at@
            &&& m->ThreatTopic_severity is None
            &&& b.threats@.dom().contains(t)
            &&& b.threats@[t].invariant_topics@.len() == 0
            &&& x != t ==> knows(b, x) == knows(a, x)
            &&& x != t && knows(a, x) ==> b.topic_metadata@[x]@ == a.topic_metadata@[x]@
            &&& x != t ==> b.threats@.dom().contains(x) == a.threats@.dom().contains(x)
            &&& x != t && a.threats@.dom().contains(x) ==> b.threats@[x] == a.threats@[x]
        }),
{
    let t = Topic::AdversarialProperty(row.id);
    lemma_known(a, b, t, crate::api::threats::threat_view(row), x);
}

proof fn lemma_known(
    a: &AuditData,
    b: &AuditData,
    t: Topic,
    m: crate::domain::metadata::MetadataView,
    x: Topic,
)
    requires
        known(b.topic_metadata@) == known(a.topic_metadata@).insert(t, m),
    ensures
        knows(b, t),
        b.topic_metadata@[t]@ == m,
        x != t ==> knows(b, x) == knows(a, x),
        x != t && knows(a, x) ==> b.topic_metadata@[x]@ == a.topic_metadata@[x]@,
{
    let before = known(a.topic_metadata@);
    let after = known(b.topic_metadata@);
    assert(after.dom().contains(t));
    assert(after[t] == b.topic_metadata@[t]@);
    if x != t {
        assert(after.dom().contains(x) == before.dom().contains(x));
        assert(before.dom().contains(x) == knows(a, x));
        if knows(a, x) {
            assert(after[x] == before[x]);
            assert(before[x] == a.topic_metadata@[x]@);
            assert(after[x] == b.topic_metadata@[x]@);
        }
    }
}

/// A new invariant is known as it was recorded, and comes last among those of its
/// threat. Other threats, invariants and topics stay.
pub proof fn new_invariants_are_known(a: &AuditData, row: InvariantRow, b: &AuditData, x: Topic)
    requires
        has_new_invariant(a, row, b),
    ensures
        ({
            let t = Topic::AdversarialProperty(row.id);
            let m = b.topic_metadata@[t];
            &&& knows(b, t)
            &&& m is InvariantTopic
            &&& m->InvariantTopic_topic == t
            &&& m->InvariantTopic_description@ == row.description@
            &&& m->threat_topic == row.threat_topic
            &&& m->InvariantTopic_subject_topic == row.subject_topic
            &&& m->InvariantTopic_kind == row.kind
            &&& m->anchors@ == row.anchors@
            &&& m->InvariantTopic_author == row.author
            &&& m->InvariantTopic_created_at is Some
            &&& m->InvariantTopic_created_at->0@ == row.created_at@
            &&& m->InvariantTopic_severity == row.severity
            &&& b.invariants@.dom().contains(t)
            &&& b.invariants@[t].source_topics@.len() == 0
            &&& b.threats@[row.threat_topic].invariant_topics@.last() == t
            &&& b.threats@[row.threat_topic].invariant_topics@.drop_last()
                == a.threats@[row.threat_topic].invariant_topics@
            &&& x != t ==> knows(b, x) == knows(a, x)
            &&& x != t && knows(a, x) ==> b.topic_metadata@[x]@ == a.topic_metadata@[x]@
            &&& x != row.threat_topic && a.threats@.dom().contains(x) ==> b.threats@[x]
                == a.threats@[x]
            &&& x != t && a.invariants@.dom().contains(x) ==> b.invariants@[x] == a.invariants@[x]
        }),
{
    let t = Topic::AdversarialProperty(row.id);
    lemma_known(a, b, t, crate::api::threats::invariant_view(row), x);
    let list = a.threats@[row.threat_topic].invariant_topics@;
    assert(list.push(t).drop_last() =~= list);
}

/// A threat that was taken out is gone with each of its invariants. Everything else
/// stays.
pub proof fn lost_threats_take_their_invariants(a: &AuditData, t: Topic, b: &AuditData, x: Topic)
    requires
        has_lost_threat(a, t, b),
    ensures
        ({
            let gone = x == t || (a.threats@.dom().contains(t)
                && a.threats@[t].invariant_topics@.contains(x));
            &&& !b.threats@.dom().contains(t)
            &&& knows(b, x) <==> knows(a, x) && !gone
            &&& knows(b, x) ==> b.topic_metadata@[x] == a.topic_metadata@[x]
            &&& gone ==> !b.topic_context@.dom().contains(x)
            &&& gone && x != t ==> !b.invariants@.dom().contains(x)
            &&& !gone && a.invariants@.dom().contains(x) ==> b.invariants@.dom().contains(x)
                && b.invariants@[x] == a.invariants@[x]
            &&& x != t && a.threats@.dom().contains(x) ==> b.threats@.dom().contains(x)
                && b.threats@[x] == a.threats@[x]
            &&& !gone && a.topic_context@.dom().contains(x) ==> b.topic_context@.dom().contains(x)
                && b.topic_context@[x] == a.topic_context@[x]
        }),
{
}

/// An invariant that was taken out is gone, also from the list of its threat. All
/// others stay.
pub proof fn lost_invariants_leave_the_others(
    a: &AuditData,
    threat: Topic,
    t: Topic,
    b: &AuditData,
    x: Topic,
)
    requires
        has_lost_invariant(a, threat, t, b),
    ensures
        !knows(b, t),
        !b.invariants@.dom().contains(t),
        !b.topic_context@.dom().contains(t),
        x != t ==> knows(b, x) == knows(a, x),
        x != t && knows(a, x) ==> b.topic_metadata@[x] == a.topic_metadata@[x],
        x != t && a.invariants@.dom().contains(x) ==> b.invariants@.dom().contains(x)
            && b.invariants@[x] == a.invariants@[x],
        a.threats@.dom().contains(threat) ==> (b.threats@[threat].invariant_topics@.contains(x)
            <==> a.threats@[threat].invariant_topics@.contains(x) && x != t),
        x != threat && a.threats@.dom().contains(x) ==> b.threats@[x] == a.threats@[x],
{
    if a.threats@.dom().contains(threat) {
        lemma_kept(a.threats@[threat].invariant_topics@, t, x);
    }
}

/// A source topic that was added is there once, and one that was taken out is not.
/// The other sources stay, and so do those of other invariants.
pub proof fn sources_are_added_and_taken_out(
    a: &AuditData,
    t: Topic,
    source: Topic,
    with: &AuditData,
    without: &AuditData,
    x: Topic,
)
    requires
        a.invariants@.dom().contains(t),
        has_sources(a, t, with_topic(a.invariants@[t].source_topics@, source), with),
        has_sources(a, t, a.invariants@[t].source_topics@.filter(other_than(source)), without),
    ensures
        with.invariants@[t].source_topics@.contains(x)
            <==> a.invariants@[t].source_topics@.contains(x) || x == source,
        without.invariants@[t].source_topics@.contains(x)
            <==> a.invariants@[t].source_topics@.contains(x) && x != source,
        a.invariants@[t].source_topics@.no_duplicates()
            ==> with.invariants@[t].source_topics@.no_duplicates(),
        x != t && a.invariants@.dom().contains(x) ==> with.invariants@[x] == a.invariants@[x]
            && without.invariants@[x] == a.invariants@[x],
{
    let list = a.invariants@[t].source_topics@;
    lemma_kept(list, source, x);
    let after = with_topic(list, source);
    if !list.contains(source) {
        assert(after[list.len() as int] == source);
        if list.contains(x) {
            let i = choose|i: int| 0 <= i < list.len() && list[i] == x;
            assert(after[i] == x);
        }
        if after.contains(x) && x != source {
            let i = choose|i: int| 0 <= i < after.len() && after[i] == x;
            assert(list[i] == x);
        }
    }
}

proof fn lemma_extended(
    a: Seq<(Topic, Vec<Topic>)>,
    b: Seq<(Topic, Vec<Topic>)>,
    t: Topic,
    more: Seq<Topic>,
    k: Topic,
)
    requires
        ascending(a),
        ascending(b),
        index_lists(b) == extended(index_lists(a), t, more),
    ensures
        listed_for(crate::ordered::mapping(b), k) == if k == t {
            listed_for(crate::ordered::mapping(a), k) + more
        } else {
            listed_for(crate::ordered::mapping(a), k)
        },
{
    crate::domain::index::lemma_mapped::<Topic, Vec<Topic>, Seq<Topic>>(
        a,
        |v: Vec<Topic>| v@,
    );
    lemma_listed_for(a, k);
    lemma_listed_for(b, k);
    let s = index_lists(a);
    if more.len() > 0 {
        lemma_lookup_put(s, t, list_for(s, t) + more, k);
    } else {
        assert(list_for(s, k) + more =~= list_for(s, k));
    }
}

/// A feature that someone added is known as it was asked for. Its links follow those
/// that it had, in the order of the request. Other links and topics stay.
pub proof fn new_features_are_known(
    a: &AuditData,
    id: i32,
    q: CreateUserFeatureRequest,
    at: Seq<char>,
    b: &AuditData,
    x: Topic,
)
    requires
        has_new_feature(a, id, q, at, b),
        ascending(a.feature_requirement_links.pairs()),
        ascending(b.feature_requirement_links.pairs()),
        ascending(a.feature_behavior_links.pairs()),
        ascending(b.feature_behavior_links.pairs()),
    ensures
        ({
            let t = Topic::Spec(id);
            let m = b.topic_metadata@[t];
            &&& knows(b, t)
            &&& m is FeatureTopic
            &&& m->FeatureTopic_topic == t
            &&& m->FeatureTopic_name@ == q.name@
            &&& m->FeatureTopic_description@ == q.description@
            &&& m->FeatureTopic_author == q.author
            &&& m->FeatureTopic_created_at is Some
            &&& m->FeatureTopic_created_at->0@ == at
            &&& listed_for(b.feature_requirement_links@, t) == listed_for(
                a.feature_requirement_links@,
                t,
            ) + meant_each(texts(q.requirement_topics@))
            &&& listed_for(b.feature_behavior_links@, t) == listed_for(
                a.feature_behavior_links@,
                t,
            ) + meant_each(texts(q.behavior_topics@))
            &&& x != t ==> listed_for(b.feature_requirement_links@, x) == listed_for(
                a.feature_requirement_links@,
                x,
            )
            &&& x != t ==> listed_for(b.feature_behavior_links@, x) == listed_for(
                a.feature_behavior_links@,
                x,
            )
            &&& x != t ==> knows(b, x) == knows(a, x)
            &&& x != t && knows(a, x) ==> b.topic_metadata@[x]@ == a.topic_metadata@[x]@
        }),
{
    let t = Topic::Spec(id);
    let rs = meant_each(texts(q.requirement_topics@));
    let bs = meant_each(texts(q.behavior_topics@));
    lemma_known(a, b, t, feature_view(id, q, at), x);
    lemma_extended(
        a.feature_requirement_links.pairs(),
        b.feature_requirement_links.pairs(),
        t,
        rs,
        t,
    );
    lemma_extended(
        a.feature_requirement_links.pairs(),
        b.feature_requirement_links.pairs(),
        t,
        rs,
        x,
    );
    lemma_extended(a.feature_behavior_links.pairs(), b.feature_behavior_links.pairs(), t, bs, t);
    lemma_extended(a.feature_behavior_links.pairs(), b.feature_behavior_links.pairs(), t, bs, x);
}

/// A requirement that someone added is known as it was asked for, with the
/// documentation that informed it. Others stay.
pub proof fn new_requirements_are_known(
    a: &AuditData,
    id: i32,
    q: CreateUserRequirementRequest,
    at: Seq<char>,
    b: &AuditData,
    x: Topic,
)
    requires
        has_new_requirement(a, id, q, at, b),
        q.section_topic is Some,
    ensures
        ({
            let t = Topic::Spec(id);
            let m = b.topic_metadata@[t];
            &&& knows(b, t)
            &&& m is RequirementTopic
            &&& m->RequirementTopic_topic == t
            &&& m->RequirementTopic_description@ == q.description@
            &&& m->RequirementTopic_section_topic == meant(q.section_topic->0@)
            &&& m->RequirementTopic_author == q.author
            &&& m->RequirementTopic_created_at is Some
            &&& m->RequirementTopic_created_at->0@ == at
            &&& b.requirements@.dom().contains(t)
            &&& b.requirements@[t].documentation_topics@ == meant_each(
                texts(q.documentation_topics@),
            )
            &&& x != t ==> knows(b, x) == knows(a, x)
            &&& x != t && knows(a, x) ==> b.topic_metadata@[x]@ == a.topic_metadata@[x]@
            &&& x != t && a.requirements@.dom().contains(x) ==> b.requirements@.dom().contains(x)
                && b.requirements@[x].documentation_topics@
                == a.requirements@[x].documentation_topics@
        }),
{
    let t = Topic::Spec(id);
    lemma_known(a, b, t, crate::api::entities::requirement_view(id, q, at), x);
    let before = requirement_map(a.requirements@);
    let after = requirement_map(b.requirements@);
    assert(after.dom().contains(t));
    assert(b.requirements@.dom().contains(t));
    assert(after[t] == b.requirements@[t].documentation_topics@);
    if x != t && a.requirements@.dom().contains(x) {
        assert(before.dom().contains(x));
        assert(after.dom().contains(x));
        assert(after[x] == before[x]);
        assert(before[x] == a.requirements@[x].documentation_topics@);
        assert(b.requirements@.dom().contains(x));
        assert(after[x] == b.requirements@[x].documentation_topics@);
    }
}

/// A behavior that someone added is known as it was asked for, and other topics stay.
pub proof fn new_behaviors_are_known(
    a: &AuditData,
    id: i32,
    q: CreateUserBehaviorRequest,
    at: Seq<char>,
    b: &AuditData,
    x: Topic,
)
    requires
        has_new_topic(a, Topic::Spec(id), behavior_view(id, q, at), b),
    ensures
        ({
            let t = Topic::Spec(id);
            let m = b.topic_metadata@[t];
            &&& knows(b, t)
            &&& m is BehaviorTopic
            &&& m->BehaviorTopic_topic == t
            &&& m->BehaviorTopic_description@ == q.description@
            &&& m->member_topic == meant(q.member_topic@)
            &&& m->BehaviorTopic_author == q.author
            &&& m->BehaviorTopic_created_at is Some
            &&& m->BehaviorTopic_created_at->0@ == at
            &&& x != t ==> knows(b, x) == knows(a, x)
            &&& x != t && knows(a, x) ==> b.topic_metadata@[x]@ == a.topic_metadata@[x]@
        }),
{
    lemma_known(a, b, Topic::Spec(id), behavior_view(id, q, at), x);
}

/// A functional semantic that someone added is known as it was asked for, and other
/// topics stay.
pub proof fn new_semantics_are_known(
    a: &AuditData,
    id: i32,
    q: CreateUserFunctionalSemanticRequest,
    at: Seq<char>,
    b: &AuditData,
    x: Topic,
)
    requires
        has_new_topic(a, Topic::FunctionalProperty(id), semantic_view(id, q, at), b),
    ensures
        ({
            let t = Topic::FunctionalProperty(id);
            let m = b.topic_metadata@[t];
            &&& knows(b, t)
            &&& m is FunctionalSemanticTopic
            &&& m->FunctionalSemanticTopic_topic == t
            &&& m->FunctionalSemanticTopic_description@ == q.description@
            &&& m->declaration_topic == meant(q.declaration_topic@)
            &&& m->documentation_topics@ == meant_each(texts(q.documentation_topics@))
            &&& m->FunctionalSemanticTopic_author == q.author
            &&& m->FunctionalSemanticTopic_created_at is Some
            &&& m->FunctionalSemanticTopic_created_at->0@ == at
            &&& m->match_source is None
            &&& x != t ==> knows(b, x) == knows(a, x)
            &&& x != t && knows(a, x) ==> b.topic_metadata@[x]@ == a.topic_metadata@[x]@
        }),
{
    lemma_known(a, b, Topic::FunctionalProperty(id), semantic_view(id, q, at), x);
}

} // verus!
