//! Which features a topic belongs to, in terms of what the audit records.
use crate::domain::audit::AuditData;
use crate::domain::expansion_laws::behavior_of;
use crate::domain::kinds::NamedTopicKind;
use crate::domain::lists::any;
use crate::domain::metadata::TopicMetadata;
use crate::domain::rebuild_laws::{knows, listed_for};
use crate::domain::scope::ScopeView;
use crate::domain::topic::Topic;
use crate::feature_lookup::{features_of, same_as, with_linked};
use crate::ordered::{ascending, has_key, index_of, lemma_index_of, mapping};
use vstd::prelude::*;

verus! {

/// An item is picked exactly where it comes from one of the items.
pub proof fn lemma_picked<A, B>(s: Seq<A>, f: spec_fn(A) -> Option<B>, y: B)
    ensures
        s.filter_map(f).contains(y) <==> exists|i: int|
            0 <= i < s.len() && f(#[trigger] s[i]) == Some(y),
    decreases s.len(),
{
    reveal(Seq::filter_map);
    if s.len() > 0 {
        let rest = s.drop_last();
        let n = s.len() - 1;
        lemma_picked(rest, f, y);
        let before = rest.filter_map(f);
        let after = s.filter_map(f);
        if exists|i: int| 0 <= i < rest.len() && f(#[trigger] rest[i]) == Some(y) {
            let i = choose|i: int| 0 <= i < rest.len() && f(#[trigger] rest[i]) == Some(y);
            assert(f(s[i]) == Some(y));
            let k = choose|k: int| 0 <= k < before.len() && before[k] == y;
            assert(after[k] == y);
        }
        if f(s[n]) == Some(y) {
            assert(after[before.len() as int] == y);
        }
        if after.contains(y) {
            let k = choose|k: int| 0 <= k < after.len() && after[k] == y;
            if k < before.len() {
                assert(before[k] == y);
                let i = choose|i: int| 0 <= i < rest.len() && f(#[trigger] rest[i]) == Some(y);
                assert(f(s[i]) == Some(y));
            } else {
                assert(f(s[n]) == Some(y));
            }
        }
        if exists|i: int| 0 <= i < s.len() && f(#[trigger] s[i]) == Some(y) {
            let i = choose|i: int| 0 <= i < s.len() && f(#[trigger] s[i]) == Some(y);
            if i < n {
                assert(f(rest[i]) == Some(y));
            }
        }
    }
}

proof fn lemma_linking(s: Seq<(Topic, Vec<Topic>)>, p: spec_fn(Topic) -> bool, f: Topic)
    requires
        ascending(s),
    ensures
        s.filter_map(with_linked(p)).contains(f) <==> any(listed_for(mapping(s), f), p),
{
    let g = with_linked(p);
    lemma_picked(s, g, f);
    if s.filter_map(g).contains(f) {
        let i = choose|i: int| 0 <= i < s.len() && g(#[trigger] s[i]) == Some(f);
        lemma_index_of(s, i);
    }
    if any(listed_for(mapping(s), f), p) {
        let i = index_of(s, f);
        assert(has_key(s, f));
        assert(s[i].0@ == f);
        assert(g(s[i]) == Some(f));
    }
}

proof fn lemma_same(list: Seq<Topic>, t: Topic)
    ensures
        any(list, same_as(t)) == list.contains(t),
{
    if list.contains(t) {
        let i = choose|i: int| 0 <= i < list.len() && list[i] == t;
        assert(same_as(t)(list[i]));
    }
}

/// A feature belongs to itself alone.
pub proof fn features_are_their_own(a: &AuditData, t: Topic)
    requires
        t is Spec,
        knows(a, t),
        a.topic_metadata@[t] is FeatureTopic,
    ensures
        features_of(a, t) == seq![t],
{
}

/// A requirement belongs to exactly the features that it is linked to.
pub proof fn requirements_belong_to_their_features(a: &AuditData, t: Topic, f: Topic)
    requires
        ascending(a.feature_requirement_links.pairs()),
        t is Spec,
        knows(a, t),
        a.topic_metadata@[t] is RequirementTopic,
    ensures
        features_of(a, t).contains(f) <==> listed_for(a.feature_requirement_links@, f).contains(t),
{
    lemma_linking(a.feature_requirement_links.pairs(), same_as(t), f);
    lemma_same(listed_for(a.feature_requirement_links@, f), t);
}

/// A behavior belongs to exactly the features that it is linked to.
pub proof fn behaviors_belong_to_their_features(a: &AuditData, t: Topic, f: Topic)
    requires
        ascending(a.feature_behavior_links.pairs()),
        t is Spec,
        knows(a, t),
        a.topic_metadata@[t] is BehaviorTopic,
    ensures
        features_of(a, t).contains(f) <==> listed_for(a.feature_behavior_links@, f).contains(t),
{
    lemma_linking(a.feature_behavior_links.pairs(), same_as(t), f);
    lemma_same(listed_for(a.feature_behavior_links@, f), t);
}

/// The member whose code `t` is part of is `m`: a function or a modifier is its own,
/// and whatever else stands in a member is part of that.
pub open spec fn part_of(a: &AuditData, t: Topic, m: Topic) -> bool {
    knows(a, t) && match a.topic_metadata@[t] {
        TopicMetadata::NamedTopic { kind: NamedTopicKind::Function(_), .. } => m == t,
        TopicMetadata::NamedTopic { kind: NamedTopicKind::Modifier, .. } => m == t,
        known => match known.scope_view() {
            ScopeView::Member { member, .. } => m == member,
            ScopeView::ContainingBlock { member, .. } => m == member,
            _ => false,
        },
    }
}

/// Code belongs to exactly the features with a behavior of the member that it is part
/// of.
pub proof fn code_belongs_to_the_features_of_its_member(a: &AuditData, t: Topic, f: Topic)
    requires
        ascending(a.feature_behavior_links.pairs()),
        !(t is Spec),
    ensures
        features_of(a, t).contains(f) <==> exists|b: Topic, m: Topic| #[trigger]
            behavior_of(a, f, b, m) && part_of(a, t, m),
{
    let s = a.feature_behavior_links.pairs();
    let list = listed_for(a.feature_behavior_links@, f);
    if let Some(m) = crate::feature_lookup::member_of(a, t) {
        let p = crate::feature_lookup::behavior_of(a, m);
        lemma_linking(s, p, f);
        assert(part_of(a, t, m));
        if any(list, p) {
            let i = choose|i: int| 0 <= i < list.len() && #[trigger] p(list[i]);
            assert(list.contains(list[i]));
            assert(behavior_of(a, f, list[i], m));
        }
        if exists|b: Topic, k: Topic| #[trigger] behavior_of(a, f, b, k) && part_of(a, t, k) {
            let (b, k) = choose|b: Topic, k: Topic| #[trigger]
                behavior_of(a, f, b, k) && part_of(a, t, k);
            assert(k == m);
            let i = choose|i: int| 0 <= i < list.len() && list[i] == b;
            assert(p(list[i]));
        }
    } else {
        assert(forall|m: Topic| !part_of(a, t, m));
        assert(features_of(a, t) =~= seq![]);
    }
}

/// Nothing else of a specification belongs to a feature.
pub proof fn other_specifications_belong_to_no_feature(a: &AuditData, t: Topic)
    requires
        t is Spec,
        knows(a, t) ==> !(a.topic_metadata@[t] is FeatureTopic)
            && !(a.topic_metadata@[t] is RequirementTopic)
            && !(a.topic_metadata@[t] is BehaviorTopic),
    ensures
        features_of(a, t).len() == 0,
{
}

} // verus!
