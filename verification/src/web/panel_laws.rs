//! What the documentation panel shows, in terms of what the audit records.
use crate::domain::audit::AuditData;
use crate::domain::index::{index_lists, list_for};
use crate::domain::lists::with_topics_holds_both;
use crate::domain::metadata::TopicMetadata;
use crate::domain::rebuild_laws::{knows, lemma_listed_for, listed_for};
use crate::domain::scope::ScopeView;
use crate::domain::topic::Topic;
use crate::feature_lookup::features_of;
use crate::ordered::ascending;
use crate::web::panel::{docs_of_semantics, docs_on, features_of_all, is_panel, member_around};
use crate::web::panel::{own_docs, own_docs_of_all, semantic_docs, with_docs_on, with_members};
use crate::web::panel::PanelContents;
use vstd::prelude::*;

verus! {

/// The functional semantic `t` was informed by the documentation `d`.
pub open spec fn semantic_informed_by(a: &AuditData, t: Topic, d: Topic) -> bool {
    knows(a, t) && match a.topic_metadata@[t] {
        TopicMetadata::FunctionalSemanticTopic { documentation_topics, .. } => {
            documentation_topics@.contains(d)
        },
        _ => false,
    }
}

/// The documentation `d` informed the requirement or the functional semantic `t`.
pub open spec fn informed(a: &AuditData, t: Topic, d: Topic) -> bool {
    match t {
        Topic::Spec(_) => a.requirements@.dom().contains(t)
            && a.requirements@[t].documentation_topics@.contains(d),
        Topic::FunctionalProperty(_) => semantic_informed_by(a, t, d),
        _ => false,
    }
}

/// The documentation `d` refers to the declaration `t`, or informed one of its
/// semantics.
pub open spec fn documented(a: &AuditData, t: Topic, d: Topic) -> bool {
    ||| (knows(a, t) && match a.topic_metadata@[t] {
        TopicMetadata::NamedTopic { doc_references, .. } => doc_references@.contains(d),
        _ => false,
    })
    ||| exists|s: Topic| #[trigger]
        listed_for(a.declaration_semantics@, t).contains(s) && semantic_informed_by(a, s, d)
}

/// `t` stands in the member `m`.
pub open spec fn stands_in_member(a: &AuditData, t: Topic, m: Topic) -> bool {
    knows(a, t) && match a.topic_metadata@[t].scope_view() {
        ScopeView::Member { member, .. } => member == m,
        ScopeView::ContainingBlock { member, .. } => member == m,
        _ => false,
    }
}

/// The documentation `d` bears on `t`: on itself, as a declaration, or on the member
/// that it stands in.
pub open spec fn bears_on(a: &AuditData, t: Topic, d: Topic) -> bool {
    ||| informed(a, t, d)
    ||| documented(a, t, d)
    ||| exists|m: Topic| #[trigger] stands_in_member(a, t, m) && documented(a, m, d)
}

proof fn lemma_last<A>(s: Seq<A>, x: A)
    requires
        s.len() > 0,
    ensures
        s.contains(x) == (s.drop_last().contains(x) || x == s.last()),
{
    let rest = s.drop_last();
    let n = s.len() - 1;
    assert(s[n] == s.last());
    if rest.contains(x) {
        let i = choose|i: int| 0 <= i < rest.len() && rest[i] == x;
        assert(s[i] == x);
    }
    if s.contains(x) && x != s.last() {
        let i = choose|i: int| 0 <= i < s.len() && s[i] == x;
        assert(rest[i] == x);
    }
}

proof fn lemma_features(a: &AuditData, topics: Seq<Topic>, f: Topic)
    ensures
        features_of_all(a, topics).contains(f) <==> exists|t: Topic| #[trigger]
            topics.contains(t) && features_of(a, t).contains(f),
    decreases topics.len(),
{
    if topics.len() > 0 {
        let rest = topics.drop_last();
        let t0 = topics.last();
        lemma_features(a, rest, f);
        with_topics_holds_both(features_of_all(a, rest), features_of(a, t0));
        lemma_last(topics, t0);
        if exists|t: Topic| #[trigger] rest.contains(t) && features_of(a, t).contains(f) {
            let t = choose|t: Topic| #[trigger] rest.contains(t) && features_of(a, t).contains(f);
            lemma_last(topics, t);
        }
        if exists|t: Topic| #[trigger] topics.contains(t) && features_of(a, t).contains(f) {
            let t = choose|t: Topic| #[trigger]
                topics.contains(t) && features_of(a, t).contains(f);
            lemma_last(topics, t);
        }
    }
}

proof fn lemma_own_docs(a: &AuditData, topics: Seq<Topic>, d: Topic)
    ensures
        own_docs_of_all(a, topics).contains(d) <==> exists|t: Topic| #[trigger]
            topics.contains(t) && own_docs(a, t).contains(d),
    decreases topics.len(),
{
    if topics.len() > 0 {
        let rest = topics.drop_last();
        let t0 = topics.last();
        lemma_own_docs(a, rest, d);
        with_topics_holds_both(own_docs_of_all(a, rest), own_docs(a, t0));
        lemma_last(topics, t0);
        if exists|t: Topic| #[trigger] rest.contains(t) && own_docs(a, t).contains(d) {
            let t = choose|t: Topic| #[trigger] rest.contains(t) && own_docs(a, t).contains(d);
            lemma_last(topics, t);
        }
        if exists|t: Topic| #[trigger] topics.contains(t) && own_docs(a, t).contains(d) {
            let t = choose|t: Topic| #[trigger] topics.contains(t) && own_docs(a, t).contains(d);
            lemma_last(topics, t);
        }
    }
}

proof fn lemma_docs(a: &AuditData, start: Seq<Topic>, topics: Seq<Topic>, d: Topic)
    ensures
        with_docs_on(a, start, topics).contains(d) <==> start.contains(d) || exists|t: Topic|
            #[trigger] topics.contains(t) && docs_on(a, t).contains(d),
    decreases topics.len(),
{
    if topics.len() > 0 {
        let rest = topics.drop_last();
        let t0 = topics.last();
        lemma_docs(a, start, rest, d);
        with_topics_holds_both(with_docs_on(a, start, rest), docs_on(a, t0));
        lemma_last(topics, t0);
        if exists|t: Topic| #[trigger] rest.contains(t) && docs_on(a, t).contains(d) {
            let t = choose|t: Topic| #[trigger] rest.contains(t) && docs_on(a, t).contains(d);
            lemma_last(topics, t);
        }
        if exists|t: Topic| #[trigger] topics.contains(t) && docs_on(a, t).contains(d) {
            let t = choose|t: Topic| #[trigger] topics.contains(t) && docs_on(a, t).contains(d);
            lemma_last(topics, t);
        }
    }
}

proof fn lemma_members(a: &AuditData, topics: Seq<Topic>, x: Topic)
    ensures
        with_members(a, topics).contains(x) <==> topics.contains(x) || exists|t: Topic| #[trigger]
            topics.contains(t) && member_around(a, t) == Some(x),
    decreases topics.len(),
{
    if topics.len() > 0 {
        let rest = topics.drop_last();
        let t0 = topics.last();
        lemma_members(a, rest, x);
        let before = with_members(a, rest);
        let list = before.push(t0);
        assert(list.drop_last() =~= before);
        lemma_last(list, x);
        lemma_last(topics, x);
        lemma_last(topics, t0);
        if let Some(m) = member_around(a, t0) {
            if !list.contains(m) {
                let more = list.push(m);
                assert(more.drop_last() =~= list);
                lemma_last(more, x);
            }
        }
        if exists|t: Topic| #[trigger] rest.contains(t) && member_around(a, t) == Some(x) {
            let t = choose|t: Topic| #[trigger] rest.contains(t) && member_around(a, t) == Some(x);
            lemma_last(topics, t);
        }
        if exists|t: Topic| #[trigger] topics.contains(t) && member_around(a, t) == Some(x) {
            let t = choose|t: Topic| #[trigger]
                topics.contains(t) && member_around(a, t) == Some(x);
            lemma_last(topics, t);
        }
    }
}

proof fn lemma_semantics(a: &AuditData, list: Seq<Topic>, d: Topic)
    ensures
        docs_of_semantics(a, list).contains(d) <==> exists|s: Topic| #[trigger]
            list.contains(s) && semantic_informed_by(a, s, d),
    decreases list.len(),
{
    if list.len() > 0 {
        let rest = list.drop_last();
        let s0 = list.last();
        lemma_semantics(a, rest, d);
        crate::resolution_graph::links::lemma_joined_holds(
            docs_of_semantics(a, rest),
            semantic_docs(a, s0),
            d,
        );
        lemma_last(list, s0);
        if exists|s: Topic| #[trigger] rest.contains(s) && semantic_informed_by(a, s, d) {
            let s = choose|s: Topic| #[trigger] rest.contains(s) && semantic_informed_by(a, s, d);
            lemma_last(list, s);
        }
        if exists|s: Topic| #[trigger] list.contains(s) && semantic_informed_by(a, s, d) {
            let s = choose|s: Topic| #[trigger] list.contains(s) && semantic_informed_by(a, s, d);
            lemma_last(list, s);
        }
    }
}

proof fn lemma_docs_on(a: &AuditData, t: Topic, d: Topic)
    requires
        ascending(a.declaration_semantics.pairs()),
    ensures
        docs_on(a, t).contains(d) == documented(a, t, d),
{
    let list = list_for(index_lists(a.declaration_semantics.pairs()), t);
    lemma_listed_for(a.declaration_semantics.pairs(), t);
    lemma_semantics(a, list, d);
    let refs = match crate::ordered::lookup(crate::domain::audit::entries(a), t) {
        Some(TopicMetadata::NamedTopic { doc_references, .. }) => doc_references@,
        _ => seq![],
    };
    crate::resolution_graph::links::lemma_joined_holds(refs, docs_of_semantics(a, list), d);
    let entry = crate::ordered::lookup(crate::domain::audit::entries(a), t);
    assert(knows(a, t) == entry is Some);
    assert(knows(a, t) ==> a.topic_metadata@[t] == entry->0);
    assert(docs_on(a, t) == refs + docs_of_semantics(a, list));
    let named = knows(a, t) && match a.topic_metadata@[t] {
        TopicMetadata::NamedTopic { doc_references, .. } => doc_references@.contains(d),
        _ => false,
    };
    assert(refs.contains(d) == named);
    if docs_of_semantics(a, list).contains(d) {
        let s = choose|s: Topic| #[trigger] list.contains(s) && semantic_informed_by(a, s, d);
        assert(listed_for(a.declaration_semantics@, t).contains(s));
        assert(documented(a, t, d));
    }
    if documented(a, t, d) && !named {
        let s = choose|s: Topic| #[trigger]
            listed_for(a.declaration_semantics@, t).contains(s) && semantic_informed_by(a, s, d);
        assert(list.contains(s));
    }
}

/// The panel shows exactly the features that one of the topics belongs to.
pub proof fn panels_show_the_features_of_the_topics(
    a: &AuditData,
    topics: Seq<Topic>,
    r: PanelContents,
    f: Topic,
)
    requires
        is_panel(a, topics, r),
    ensures
        r.features@.contains(f) <==> exists|t: Topic| #[trigger]
            topics.contains(t) && features_of(a, t).contains(f),
{
    lemma_features(a, topics, f);
}

/// The panel mentions exactly the documentation that bears on one of the topics.
pub proof fn panels_mention_what_bears_on_the_topics(
    a: &AuditData,
    topics: Seq<Topic>,
    r: PanelContents,
    d: Topic,
)
    requires
        ascending(a.declaration_semantics.pairs()),
        is_panel(a, topics, r),
    ensures
        r.mentions@.contains(d) <==> exists|t: Topic| #[trigger]
            topics.contains(t) && bears_on(a, t, d),
{
    let start = own_docs_of_all(a, topics);
    let related = with_members(a, topics);
    lemma_own_docs(a, topics, d);
    lemma_docs(a, start, related, d);
    if exists|t: Topic| #[trigger] topics.contains(t) && own_docs(a, t).contains(d) {
        let t = choose|t: Topic| #[trigger] topics.contains(t) && own_docs(a, t).contains(d);
        assert(informed(a, t, d));
        assert(bears_on(a, t, d));
    }
    if exists|x: Topic| #[trigger] related.contains(x) && docs_on(a, x).contains(d) {
        let x = choose|x: Topic| #[trigger] related.contains(x) && docs_on(a, x).contains(d);
        lemma_docs_on(a, x, d);
        lemma_members(a, topics, x);
        if topics.contains(x) {
            assert(bears_on(a, x, d));
        } else {
            let t = choose|t: Topic| #[trigger]
                topics.contains(t) && member_around(a, t) == Some(x);
            assert(stands_in_member(a, t, x));
            assert(bears_on(a, t, d));
        }
    }
    if exists|t: Topic| #[trigger] topics.contains(t) && bears_on(a, t, d) {
        let t = choose|t: Topic| #[trigger] topics.contains(t) && bears_on(a, t, d);
        if informed(a, t, d) {
            assert(own_docs(a, t).contains(d));
        } else if documented(a, t, d) {
            lemma_docs_on(a, t, d);
            lemma_members(a, topics, t);
            assert(related.contains(t) && docs_on(a, t).contains(d));
        } else {
            let m = choose|m: Topic| #[trigger]
                stands_in_member(a, t, m) && documented(a, m, d);
            lemma_docs_on(a, m, d);
            lemma_members(a, topics, m);
            assert(member_around(a, t) == Some(m));
            assert(related.contains(m) && docs_on(a, m).contains(d));
        }
    }
}

/// Features head their documentation exactly where none of them was asked for.
pub proof fn panels_head_documentation_by_features(
    a: &AuditData,
    topics: Seq<Topic>,
    r: PanelContents,
)
    requires
        is_panel(a, topics, r),
    ensures
        r.show_features_as_headers <==> forall|t: Topic| #[trigger]
            topics.contains(t) && knows(a, t) ==> !(a.topic_metadata@[t] is FeatureTopic),
{
    if !r.show_features_as_headers {
        let i = choose|i: int|
            0 <= i < topics.len() && crate::web::panel::is_feature(a, #[trigger] topics[i]);
        assert(topics.contains(topics[i]));
    }
    if r.show_features_as_headers {
        assert forall|t: Topic| #[trigger] topics.contains(t) && knows(a, t) implies !(
        a.topic_metadata@[t] is FeatureTopic) by {
            let i = choose|i: int| 0 <= i < topics.len() && topics[i] == t;
            assert(!crate::web::panel::is_feature(a, topics[i]));
        }
    }
}

} // verus!
