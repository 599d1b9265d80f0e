//! What the documentation panel shows.
use crate::domain::audit::{entries, AuditData};
use crate::domain::index::{index_lists, lemma_index_list, list_for};
use crate::domain::lists::{copy_topics, push_all_new, push_new, with_topic, with_topics};
use crate::domain::metadata::TopicMetadata;
use crate::domain::scope::{Scope, ScopeView};
use crate::domain::topic::Topic;
use crate::feature_lookup::{features_for_topic, features_of};
use crate::ordered::lookup;
use crate::report::rows::{denote_each, meant_each, requirement_docs, topics_of};
use crate::text::texts;
use vstd::prelude::*;

verus! {

#[derive(Debug)]
pub struct DocumentationPanelRequest {
    pub feature_topics: Vec<String>,
}

/// What the documentation panel shows for a request.
#[derive(Debug)]
pub struct PanelContents {
    /// The features whose documentation is shown.
    pub features: Vec<Topic>,
    /// The documentation topics that mention what was asked for.
    pub mentions: Vec<Topic>,
    /// Features head their documentation, unless one of them was asked for.
    pub show_features_as_headers: bool,
}

pub open spec fn is_feature(a: &AuditData, t: Topic) -> bool {
    match lookup(entries(a), t) {
        Some(m) => m is FeatureTopic,
        None => false,
    }
}

/// The features of topics, each once.
pub open spec fn features_of_all(a: &AuditData, topics: Seq<Topic>) -> Seq<Topic>
    decreases topics.len(),
{
    if topics.len() == 0 {
        seq![]
    } else {
        with_topics(features_of_all(a, topics.drop_last()), features_of(a, topics.last()))
    }
}

/// The documentation of a functional semantic.
pub open spec fn semantic_docs(a: &AuditData, t: Topic) -> Seq<Topic> {
    match lookup(entries(a), t) {
        Some(TopicMetadata::FunctionalSemanticTopic { documentation_topics, .. }) => {
            documentation_topics@
        },
        _ => seq![],
    }
}

/// The documentation that a topic itself records: that of a requirement or of a
/// functional semantic.
pub open spec fn own_docs(a: &AuditData, t: Topic) -> Seq<Topic> {
    if t is Spec {
        requirement_docs(a, t)
    } else if t is FunctionalProperty {
        semantic_docs(a, t)
    } else {
        seq![]
    }
}

pub open spec fn own_docs_of_all(a: &AuditData, topics: Seq<Topic>) -> Seq<Topic>
    decreases topics.len(),
{
    if topics.len() == 0 {
        seq![]
    } else {
        with_topics(own_docs_of_all(a, topics.drop_last()), own_docs(a, topics.last()))
    }
}

/// The member around a topic.
pub open spec fn member_around(a: &AuditData, t: Topic) -> Option<Topic> {
    match lookup(entries(a), t) {
        Some(m) => match m.scope_view() {
            ScopeView::Member { member, .. } => Some(member),
            ScopeView::ContainingBlock { member, .. } => Some(member),
            _ => None,
        },
        None => None,
    }
}

/// The topics with the members around them.
pub open spec fn with_members(a: &AuditData, topics: Seq<Topic>) -> Seq<Topic>
    decreases topics.len(),
{
    if topics.len() == 0 {
        seq![]
    } else {
        let list = with_members(a, topics.drop_last()).push(topics.last());
        match member_around(a, topics.last()) {
            Some(m) => with_topic(list, m),
            None => list,
        }
    }
}

/// The documentation of functional semantics, one after the other.
pub open spec fn docs_of_semantics(a: &AuditData, semantics: Seq<Topic>) -> Seq<Topic>
    decreases semantics.len(),
{
    if semantics.len() == 0 {
        seq![]
    } else {
        docs_of_semantics(a, semantics.drop_last()) + semantic_docs(a, semantics.last())
    }
}

/// The documentation that refers to a declaration, and that of its semantics.
pub open spec fn docs_on(a: &AuditData, t: Topic) -> Seq<Topic> {
    let refs = match lookup(entries(a), t) {
        Some(TopicMetadata::NamedTopic { doc_references, .. }) => doc_references@,
        _ => seq![],
    };
    refs + docs_of_semantics(a, list_for(index_lists(a.declaration_semantics.pairs()), t))
}

pub open spec fn with_docs_on(a: &AuditData, start: Seq<Topic>, topics: Seq<Topic>) -> Seq<Topic>
    decreases topics.len(),
{
    if topics.len() == 0 {
        start
    } else {
        with_topics(with_docs_on(a, start, topics.drop_last()), docs_on(a, topics.last()))
    }
}

/// `r` is what the panel shows for topics.
pub open spec fn is_panel(a: &AuditData, topics: Seq<Topic>, r: PanelContents) -> bool {
    &&& r.features@ == features_of_all(a, topics)
    &&& r.mentions@ == with_docs_on(a, own_docs_of_all(a, topics), with_members(a, topics))
    &&& r.show_features_as_headers == !exists|i: int|
        0 <= i < topics.len() && is_feature(a, #[trigger] topics[i])
}

fn list_semantic_docs(a: &AuditData, t: &Topic) -> (r: Vec<Topic>)
    ensures
        r@ == semantic_docs(a, *t),
{
    match a.topic_metadata.get(t) {
        Some(TopicMetadata::FunctionalSemanticTopic { documentation_topics, .. }) => {
            copy_topics(documentation_topics)
        },
        _ => Vec::new(),
    }
}

fn list_own_docs(a: &AuditData, t: &Topic) -> (r: Vec<Topic>)
    ensures
        r@ == own_docs(a, *t),
{
    match t {
        Topic::Spec(_) => match a.requirements.get(t) {
            Some(requirement) => copy_topics(&requirement.documentation_topics),
            None => Vec::new(),
        },
        Topic::FunctionalProperty(_) => list_semantic_docs(a, t),
        _ => Vec::new(),
    }
}

fn list_docs_on(a: &AuditData, t: &Topic) -> (r: Vec<Topic>)
    ensures
        r@ == docs_on(a, *t),
{
    let mut out: Vec<Topic> = match a.topic_metadata.get(t) {
        Some(TopicMetadata::NamedTopic { doc_references, .. }) => copy_topics(doc_references),
        _ => Vec::new(),
    };
    let ghost refs = out@;
    let _ = a.declaration_semantics.len();
    proof {
        lemma_index_list(a.declaration_semantics.pairs(), *t);
    }
    assert(refs + Seq::<Topic>::empty() =~= refs);
    if let Some(list) = a.declaration_semantics.get(t) {
        assert(list@.take(0) =~= Seq::empty());
        for i in 0..list.len()
            invariant
                out@ == refs + docs_of_semantics(a, list@.take(i as int)),
        {
            assert(list@.take(i + 1).drop_last() =~= list@.take(i as int));
            let more = list_semantic_docs(a, &list[i]);
            let ghost before = out@;
            for j in 0..more.len()
                invariant
                    out@ =~= before + more@.take(j as int),
            {
                out.push(more[j]);
            }
            assert(more@.take(more@.len() as int) =~= more@);
            assert(out@ =~= refs + docs_of_semantics(a, list@.take(i + 1)));
        }
        assert(list@.take(list@.len() as int) =~= list@);
    }
    out
}

fn find_member_around(a: &AuditData, t: &Topic) -> (r: Option<Topic>)
    ensures
        r == member_around(a, *t),
{
    match a.topic_metadata.get(t) {
        Some(m) => match m.scope() {
            Scope::Member { member, .. } => Some(*member),
            Scope::ContainingBlock { member, .. } => Some(*member),
            _ => None,
        },
        None => None,
    }
}

/// What the documentation panel shows for a request.
pub fn get_documentation_panel(a: &AuditData, request: &DocumentationPanelRequest) -> (r: PanelContents)
    requires
        denote_each(texts(request.feature_topics@)),
    ensures
        is_panel(a, meant_each(texts(request.feature_topics@)), r),
{
    let topics = topics_of(&request.feature_topics);
    let mut features: Vec<Topic> = Vec::new();
    let mut mentions: Vec<Topic> = Vec::new();
    let mut related: Vec<Topic> = Vec::new();
    let mut asked_for_feature = false;
    assert(topics@.take(0) =~= Seq::empty());
    for i in 0..topics.len()
        invariant
            features@ == features_of_all(a, topics@.take(i as int)),
            mentions@ == own_docs_of_all(a, topics@.take(i as int)),
            related@ == with_members(a, topics@.take(i as int)),
            asked_for_feature == exists|k: int| 0 <= k < i && is_feature(a, #[trigger] topics@[k]),
    {
        assert(topics@.take(i + 1).drop_last() =~= topics@.take(i as int));
        let t = &topics[i];
        if let Some(TopicMetadata::FeatureTopic { .. }) = a.topic_metadata.get(t) {
            assert(is_feature(a, topics@[i as int]));
            asked_for_feature = true;
        }
        push_all_new(&mut features, &features_for_topic(t, a));
        push_all_new(&mut mentions, &list_own_docs(a, t));
        related.push(*t);
        if let Some(member) = find_member_around(a, t) {
            push_new(&mut related, member);
        }
    }
    assert(topics@.take(topics@.len() as int) =~= topics@);
    let ghost start = mentions@;
    assert(related@.take(0) =~= Seq::empty());
    for i in 0..related.len()
        invariant
            mentions@ == with_docs_on(a, start, related@.take(i as int)),
    {
        assert(related@.take(i + 1).drop_last() =~= related@.take(i as int));
        push_all_new(&mut mentions, &list_docs_on(a, &related[i]));
    }
    assert(related@.take(related@.len() as int) =~= related@);
    PanelContents { features, mentions, show_features_as_headers: !asked_for_feature }
}

proof fn lemma_features_once(a: &AuditData, topics: Seq<Topic>)
    ensures
        features_of_all(a, topics).no_duplicates(),
    decreases topics.len(),
{
    if topics.len() > 0 {
        lemma_features_once(a, topics.drop_last());
        crate::domain::lists::with_topics_holds_both(
            features_of_all(a, topics.drop_last()),
            features_of(a, topics.last()),
        );
    }
}

proof fn lemma_own_docs_once(a: &AuditData, topics: Seq<Topic>)
    ensures
        own_docs_of_all(a, topics).no_duplicates(),
    decreases topics.len(),
{
    if topics.len() > 0 {
        lemma_own_docs_once(a, topics.drop_last());
        crate::domain::lists::with_topics_holds_both(
            own_docs_of_all(a, topics.drop_last()),
            own_docs(a, topics.last()),
        );
    }
}

proof fn lemma_docs_once(a: &AuditData, start: Seq<Topic>, topics: Seq<Topic>)
    requires
        start.no_duplicates(),
    ensures
        with_docs_on(a, start, topics).no_duplicates(),
    decreases topics.len(),
{
    if topics.len() > 0 {
        lemma_docs_once(a, start, topics.drop_last());
        crate::domain::lists::with_topics_holds_both(
            with_docs_on(a, start, topics.drop_last()),
            docs_on(a, topics.last()),
        );
    }
}

/// The panel shows no feature and no mention twice.
pub proof fn panel_shows_each_once(a: &AuditData, topics: Seq<Topic>, r: PanelContents)
    requires
        is_panel(a, topics, r),
    ensures
        r.features@.no_duplicates(),
        r.mentions@.no_duplicates(),
{
    lemma_features_once(a, topics);
    lemma_own_docs_once(a, topics);
    lemma_docs_once(a, own_docs_of_all(a, topics), with_members(a, topics));
}

} // verus!
