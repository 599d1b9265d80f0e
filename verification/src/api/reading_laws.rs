//! What requests are answered, in terms of what the audit records.
use crate::api::reading::{are_semantics, as_requirement, informed_by, is_answer, is_answer_for};
use crate::api::reading::{listed_as, related_requirements, requirements_of_features};
use crate::api::reading::{responses_for, semantic_at, wanted_requirements, Listing};
use crate::api::reading::SubjectPropertyResponse;
use crate::api::responses::{is_response, TopicMetadataResponse};
use crate::api::status::Status;
use crate::domain::audit::{entries, AuditData};
use crate::domain::index::{index_lists, list_for};
use crate::domain::kinds::{Author, NamedTopicKind};
use crate::domain::lists::with_topics_holds_both;
use crate::domain::metadata::{MetadataView, TopicMetadata};
use crate::domain::rebuild_laws::{knows, lemma_listed_for, listed_for};
use crate::domain::scope::Scope;
use crate::domain::topic::{prefix_of, topic_text, topic_text_denotes, Topic};
use crate::feature_lookup::features_of;
use crate::lookup_laws::lemma_picked;
use crate::ordered::{ascending, has_key, index_of, lemma_index_of};
use crate::report::rows::{denotes, meant};
use vstd::prelude::*;

verus! {

/// The wire form under which something is said.
pub open spec fn said_of(r: TopicMetadataResponse) -> Seq<char> {
    match r {
        TopicMetadataResponse::Named(r) => r.topic_id@,
        TopicMetadataResponse::Titled(r) => r.topic_id@,
        TopicMetadataResponse::Unnamed(r) => r.topic_id@,
        TopicMetadataResponse::Documentation(r) => r.topic_id@,
        TopicMetadataResponse::ControlFlow(r) => r.topic_id@,
        TopicMetadataResponse::CommentTopic(r) => r.topic_id@,
        TopicMetadataResponse::Feature(r) => r.topic_id@,
        TopicMetadataResponse::Requirement(r) => r.topic_id@,
        TopicMetadataResponse::Behavior(r) => r.topic_id@,
        TopicMetadataResponse::Semantic(r) => r.topic_id@,
        TopicMetadataResponse::Purpose(r) => r.topic_id@,
        TopicMetadataResponse::Placement(r) => r.topic_id@,
        TopicMetadataResponse::Threat(r) => r.topic_id@,
        TopicMetadataResponse::Invariant(r) => r.topic_id@,
    }
}

/// Something is said of `t`.
pub open spec fn speaks_of(r: Seq<TopicMetadataResponse>, t: Topic) -> bool {
    exists|i: int| 0 <= i < r.len() && said_of(#[trigger] r[i]) == topic_text(t)
}

/// What is known of a topic is of the kind that a listing is for. Of the contracts,
/// those count that stand directly in a file in scope.
pub open spec fn is_of_listing(a: &AuditData, l: Listing, m: TopicMetadata) -> bool {
    match m {
        TopicMetadata::DocumentationTopic { .. } => l == Listing::Documents,
        TopicMetadata::NamedTopic {
            kind: NamedTopicKind::Contract(_),
            scope: Scope::Container { container },
            ..
        } => l == Listing::Contracts && a.in_scope_files@.dom().contains(container@),
        TopicMetadata::FeatureTopic { .. } => l == Listing::Features,
        TopicMetadata::RequirementTopic { .. } => l == Listing::Requirements,
        TopicMetadata::BehaviorTopic { .. } => l == Listing::Behaviors,
        TopicMetadata::FunctionalSemanticTopic { .. } => l == Listing::Semantics,
        TopicMetadata::ThreatTopic { .. } => l == Listing::Threats,
        TopicMetadata::InvariantTopic { .. } => l == Listing::Invariants,
        _ => false,
    }
}

proof fn lemma_said(r: TopicMetadataResponse, t: Topic, m: MetadataView)
    requires
        is_response(r, t, m),
    ensures
        said_of(r) == topic_text(t),
{
}

proof fn lemma_filtered<A>(s: Seq<A>, f: spec_fn(A) -> bool, y: A)
    ensures
        s.filter(f).contains(y) <==> s.contains(y) && f(y),
    decreases s.len(),
{
    reveal(Seq::filter);
    if s.len() > 0 {
        let rest = s.drop_last();
        let n = s.len() - 1;
        lemma_filtered(rest, f, y);
        let before = rest.filter(f);
        let after = s.filter(f);
        if before.contains(y) {
            let k = choose|k: int| 0 <= k < before.len() && before[k] == y;
            assert(after[k] == y);
            let i = choose|i: int| 0 <= i < rest.len() && rest[i] == y;
            assert(s[i] == y);
        }
        if s[n] == y && f(y) {
            assert(after[before.len() as int] == y);
        }
        if after.contains(y) {
            let k = choose|k: int| 0 <= k < after.len() && after[k] == y;
            if k < before.len() {
                assert(before[k] == y);
            } else {
                assert(s[n] == y);
            }
        }
        if s.contains(y) {
            let i = choose|i: int| 0 <= i < s.len() && s[i] == y;
            if i < n {
                assert(rest[i] == y);
            }
        }
    }
}

proof fn lemma_spoken(
    r: Seq<TopicMetadataResponse>,
    s: Seq<(Topic, TopicMetadata)>,
    t: Topic,
)
    requires
        responses_for(r, s),
    ensures
        speaks_of(r, t) <==> exists|i: int| 0 <= i < s.len() && (#[trigger] s[i]).0 == t,
{
    if speaks_of(r, t) {
        let i = choose|i: int| 0 <= i < r.len() && said_of(#[trigger] r[i]) == topic_text(t);
        lemma_said(r[i], s[i].0, s[i].1@);
        topic_text_denotes(t);
        topic_text_denotes(s[i].0);
        assert(s[i].0 == t);
    }
    if exists|i: int| 0 <= i < s.len() && (#[trigger] s[i]).0 == t {
        let i = choose|i: int| 0 <= i < s.len() && (#[trigger] s[i]).0 == t;
        assert(is_response(r[i], s[i].0, s[i].1@));
        lemma_said(r[i], s[i].0, s[i].1@);
        assert(said_of(r[i]) == topic_text(t));
    }
}

/// A listing speaks of exactly the topics of its kind that the audit knows.
pub proof fn listings_speak_of_every_topic_of_their_kind(
    a: &AuditData,
    l: Listing,
    r: Seq<TopicMetadataResponse>,
    t: Topic,
)
    requires
        ascending(entries(a)),
        responses_for(r, entries(a).filter(listed_as(a, l))),
    ensures
        speaks_of(r, t) <==> knows(a, t) && is_of_listing(a, l, a.topic_metadata@[t]),
{
    let s = entries(a);
    let f = listed_as(a, l);
    let kept = s.filter(f);
    lemma_spoken(r, kept, t);
    if exists|i: int| 0 <= i < kept.len() && (#[trigger] kept[i]).0 == t {
        let i = choose|i: int| 0 <= i < kept.len() && (#[trigger] kept[i]).0 == t;
        lemma_filtered(s, f, kept[i]);
        assert(kept.contains(kept[i]));
        let k = choose|k: int| 0 <= k < s.len() && s[k] == kept[i];
        lemma_index_of(s, k);
    }
    if knows(a, t) && is_of_listing(a, l, a.topic_metadata@[t]) {
        let k = index_of(s, t);
        assert(has_key(s, t));
        assert(s[k].0@ == t);
        assert(s.contains(s[k]));
        lemma_filtered(s, f, s[k]);
        let i = choose|i: int| 0 <= i < kept.len() && kept[i] == s[k];
        assert(kept[i].0 == t);
    }
}

/// A request for a topic is answered exactly where the audit knows it, it is of the
/// kind that was asked for, and there is something to say of its kind. The answer is
/// on that topic, and every other request finds nothing.
pub proof fn requests_are_answered_on_their_topic(
    a: &AuditData,
    t: Topic,
    l: Option<Listing>,
    r: Result<TopicMetadataResponse, Status>,
)
    requires
        is_answer(a, t, l, r),
    ensures
        r is Ok <==> knows(a, t) && (l is Some ==> is_of_listing(a, l->0, a.topic_metadata@[t]))
            && !(a.topic_metadata@[t] is CharacteristicTopic)
            && !(a.topic_metadata@[t] is ConditionTopic)
            && !(a.topic_metadata@[t] is ValidationTopic),
        r is Ok ==> said_of(r->Ok_0) == topic_text(t),
        r is Ok ==> is_response(r->Ok_0, t, a.topic_metadata@[t]@),
        r is Err ==> r->Err_0 == Status::NotFound,
{
    if r is Ok {
        lemma_said(r->Ok_0, t, a.topic_metadata@[t]@);
    }
}

/// A request that names no topic of the wanted prefix is a bad one, and no other is.
pub proof fn bad_requests_name_no_topic(
    a: &AuditData,
    id: Seq<char>,
    c: char,
    l: Option<Listing>,
    r: Result<TopicMetadataResponse, Status>,
)
    requires
        is_answer_for(a, id, c, l, r),
    ensures
        r is Err && r->Err_0 == Status::BadRequest <==> !(denotes(id) && prefix_of(meant(id)) == c),
        r is Ok ==> denotes(id) && said_of(r->Ok_0) == topic_text(meant(id)),
{
    if denotes(id) && prefix_of(meant(id)) == c {
        requests_are_answered_on_their_topic(a, meant(id), l, r);
    }
}

proof fn lemma_requirements_of_features(
    links: Seq<(Topic, Seq<Topic>)>,
    features: Seq<Topic>,
    q: Topic,
)
    ensures
        requirements_of_features(links, features).contains(q) <==> exists|f: Topic| #[trigger]
            features.contains(f) && list_for(links, f).contains(q),
        requirements_of_features(links, features).no_duplicates(),
    decreases features.len(),
{
    if features.len() > 0 {
        let rest = features.drop_last();
        let n = features.len() - 1;
        let last = features[n];
        lemma_requirements_of_features(links, rest, q);
        with_topics_holds_both(requirements_of_features(links, rest), list_for(links, last));
        assert(features.contains(last));
        if exists|f: Topic| #[trigger] rest.contains(f) && list_for(links, f).contains(q) {
            let f = choose|f: Topic| #[trigger]
                rest.contains(f) && list_for(links, f).contains(q);
            let i = choose|i: int| 0 <= i < rest.len() && rest[i] == f;
            assert(features[i] == f);
            assert(features.contains(f));
        }
        if exists|f: Topic| #[trigger] features.contains(f) && list_for(links, f).contains(q) {
            let f = choose|f: Topic| #[trigger]
                features.contains(f) && list_for(links, f).contains(q);
            let i = choose|i: int| 0 <= i < features.len() && features[i] == f;
            if i < n {
                assert(rest[i] == f);
                assert(rest.contains(f));
            }
        }
    }
}

/// The requirements of features are those that are linked to one of them, each once.
pub proof fn requirements_of_features_are_the_linked(
    a: &AuditData,
    features: Seq<Topic>,
    q: Topic,
)
    requires
        ascending(a.feature_requirement_links.pairs()),
    ensures
        ({
            let found = requirements_of_features(
                index_lists(a.feature_requirement_links.pairs()),
                features,
            );
            &&& found.contains(q) <==> exists|f: Topic| #[trigger]
                features.contains(f) && listed_for(a.feature_requirement_links@, f).contains(q)
            &&& found.no_duplicates()
        }),
{
    let links = index_lists(a.feature_requirement_links.pairs());
    lemma_requirements_of_features(links, features, q);
    assert forall|f: Topic| list_for(links, f) == #[trigger] listed_for(
        a.feature_requirement_links@,
        f,
    ) by {
        lemma_listed_for(a.feature_requirement_links.pairs(), f);
    }
    if exists|f: Topic| #[trigger] features.contains(f) && list_for(links, f).contains(q) {
        let f = choose|f: Topic| #[trigger]
            features.contains(f) && list_for(links, f).contains(q);
        lemma_listed_for(a.feature_requirement_links.pairs(), f);
        assert(features.contains(f) && listed_for(a.feature_requirement_links@, f).contains(q));
    }
}

/// A requirement goes with itself alone.
pub proof fn requirements_go_with_themselves(a: &AuditData, t: Topic)
    requires
        knows(a, t),
        a.topic_metadata@[t] is RequirementTopic,
    ensures
        related_requirements(a, t) == seq![t],
{
}

/// With a feature go exactly the requirements that are linked to it.
pub proof fn linked_requirements_go_with_a_feature(a: &AuditData, t: Topic, q: Topic)
    requires
        ascending(a.feature_requirement_links.pairs()),
        knows(a, t),
        a.topic_metadata@[t] is FeatureTopic,
    ensures
        related_requirements(a, t).contains(q) <==> listed_for(
            a.feature_requirement_links@,
            t,
        ).contains(q),
        related_requirements(a, t).no_duplicates(),
{
    let links = index_lists(a.feature_requirement_links.pairs());
    with_topics_holds_both(seq![], list_for(links, t));
    lemma_listed_for(a.feature_requirement_links.pairs(), t);
}

/// With any other topic go the requirements of its features, those of it as a
/// section, and those that it informed, and no others.
pub proof fn requirements_go_with_what_they_come_from(a: &AuditData, t: Topic, q: Topic)
    requires
        ascending(a.feature_requirement_links.pairs()),
        ascending(a.section_requirements.pairs()),
        ascending(a.requirements.pairs()),
        knows(a, t) ==> !(a.topic_metadata@[t] is FeatureTopic)
            && !(a.topic_metadata@[t] is RequirementTopic),
    ensures
        related_requirements(a, t).contains(q) <==> (exists|f: Topic| #[trigger]
            features_of(a, t).contains(f) && listed_for(
                a.feature_requirement_links@,
                f,
            ).contains(q)) || listed_for(a.section_requirements@, t).contains(q) || (
        a.requirements@.dom().contains(q) && a.requirements@[q].documentation_topics@.contains(t)),
        related_requirements(a, t).no_duplicates(),
{
    let links = index_lists(a.feature_requirement_links.pairs());
    let first = requirements_of_features(links, features_of(a, t));
    let section = list_for(index_lists(a.section_requirements.pairs()), t);
    let s = a.requirements.pairs();
    let informed = s.filter_map(informed_by(t));
    requirements_of_features_are_the_linked(a, features_of(a, t), q);
    with_topics_holds_both(first, section);
    with_topics_holds_both(crate::domain::lists::with_topics(first, section), informed);
    lemma_listed_for(a.section_requirements.pairs(), t);
    lemma_picked(s, informed_by(t), q);
    if informed.contains(q) {
        let i = choose|i: int| 0 <= i < s.len() && informed_by(t)(#[trigger] s[i]) == Some(q);
        lemma_index_of(s, i);
    }
    if a.requirements@.dom().contains(q) && a.requirements@[q].documentation_topics@.contains(t) {
        let i = index_of(s, q);
        assert(has_key(s, q));
        assert(s[i].0@ == q);
        assert(informed_by(t)(s[i]) == Some(q));
    }
}

/// A request for the requirements that go with a topic speaks of exactly those that
/// the audit knows as requirements.
pub proof fn requests_speak_of_the_requirements_that_go_with_a_topic(
    a: &AuditData,
    id: Seq<char>,
    r: Seq<TopicMetadataResponse>,
    q: Topic,
)
    requires
        responses_for(r, wanted_requirements(a, Some(id))),
    ensures
        speaks_of(r, q) <==> related_requirements(a, meant(id)).contains(q) && knows(a, q)
            && a.topic_metadata@[q] is RequirementTopic,
{
    let list = related_requirements(a, meant(id));
    let f = as_requirement(a);
    let wanted = list.filter_map(f);
    lemma_spoken(r, wanted, q);
    if exists|i: int| 0 <= i < wanted.len() && (#[trigger] wanted[i]).0 == q {
        let i = choose|i: int| 0 <= i < wanted.len() && (#[trigger] wanted[i]).0 == q;
        lemma_picked(list, f, wanted[i]);
        assert(wanted.contains(wanted[i]));
        let k = choose|k: int| 0 <= k < list.len() && f(#[trigger] list[k]) == Some(wanted[i]);
        assert(list[k] == q);
    }
    if list.contains(q) && knows(a, q) && a.topic_metadata@[q] is RequirementTopic {
        let k = choose|k: int| 0 <= k < list.len() && list[k] == q;
        let e = (q, a.topic_metadata@[q]);
        assert(f(list[k]) == Some(e));
        lemma_picked(list, f, e);
        let i = choose|i: int| 0 <= i < wanted.len() && wanted[i] == e;
        assert(wanted[i].0 == q);
    }
}

/// The semantic `t` of the declaration `d` says `text`, written by `author`.
pub open spec fn says(a: &AuditData, d: Topic, t: Topic, text: Seq<char>, author: Author) -> bool {
    &&& listed_for(a.declaration_semantics@, d).contains(t)
    &&& knows(a, t)
    &&& match a.topic_metadata@[t] {
        TopicMetadata::FunctionalSemanticTopic { description, author: by, .. } => description@
            == text && by == author,
        _ => false,
    }
}

/// The semantics of a declaration are given with their texts and authors, and nothing
/// else is.
pub proof fn semantics_are_given_with_their_authors(
    a: &AuditData,
    id: Seq<char>,
    r: Seq<SubjectPropertyResponse>,
    text: Seq<char>,
    author: Author,
)
    requires
        ascending(a.declaration_semantics.pairs()),
        are_semantics(
            r,
            id,
            list_for(index_lists(a.declaration_semantics.pairs()), meant(id)).filter_map(
                semantic_at(a),
            ),
        ),
    ensures
        (exists|i: int|
            0 <= i < r.len() && (#[trigger] r[i]).value@ == text && r[i].author == author
                && r[i].topic_id@ == id) <==> exists|t: Topic| #[trigger]
            says(a, meant(id), t, text, author),
{
    let list = list_for(index_lists(a.declaration_semantics.pairs()), meant(id));
    let f = semantic_at(a);
    let found = list.filter_map(f);
    lemma_listed_for(a.declaration_semantics.pairs(), meant(id));
    lemma_picked(list, f, (text, author));
    if exists|i: int|
        0 <= i < r.len() && (#[trigger] r[i]).value@ == text && r[i].author == author
            && r[i].topic_id@ == id {
        let i = choose|i: int|
            0 <= i < r.len() && (#[trigger] r[i]).value@ == text && r[i].author == author
                && r[i].topic_id@ == id;
        assert(found[i] == (text, author));
        assert(found.contains((text, author)));
        let k = choose|k: int| 0 <= k < list.len() && f(#[trigger] list[k]) == Some((text, author));
        assert(list.contains(list[k]));
        assert(says(a, meant(id), list[k], text, author));
    }
    if exists|t: Topic| #[trigger] says(a, meant(id), t, text, author) {
        let t = choose|t: Topic| #[trigger] says(a, meant(id), t, text, author);
        let k = choose|k: int| 0 <= k < list.len() && list[k] == t;
        assert(f(list[k]) == Some((text, author)));
        let i = choose|i: int| 0 <= i < found.len() && found[i] == (text, author);
        assert(r[i].value@ == text && r[i].author == author && r[i].topic_id@ == id);
    }
}

} // verus!
