//! Which features a topic belongs to.
use crate::domain::audit::{entries, AuditData};
use crate::domain::index::TopicIndex;
use crate::domain::kinds::NamedTopicKind;
use crate::domain::lists::any;
use crate::domain::metadata::TopicMetadata;
use crate::domain::scope::{Scope, ScopeView};
use crate::domain::topic::{topic_before, Topic};
use crate::ordered::{ascending, lookup, MapKey};
use vstd::prelude::*;

verus! {

/// Is this topic.
pub open spec fn same_as(t: Topic) -> spec_fn(Topic) -> bool {
    |x: Topic| x == t
}

/// Is a behavior of this member.
pub open spec fn behavior_of(a: &AuditData, member: Topic) -> spec_fn(Topic) -> bool {
    |x: Topic|
        match lookup(entries(a), x) {
            Some(TopicMetadata::BehaviorTopic { member_topic, .. }) => member_topic == member,
            _ => false,
        }
}

/// Picks the features with a linked topic that `p` picks.
pub open spec fn with_linked(p: spec_fn(Topic) -> bool) -> spec_fn((Topic, Vec<Topic>)) -> Option<
    Topic,
> {
    |e: (Topic, Vec<Topic>)|
        if any(e.1@, p) {
            Some(e.0)
        } else {
            None
        }
}

/// The member that a code topic belongs to: itself, if it is one, or the one
/// around it.
pub open spec fn member_of(a: &AuditData, t: Topic) -> Option<Topic> {
    match lookup(entries(a), t) {
        Some(TopicMetadata::NamedTopic { kind: NamedTopicKind::Function(_), .. }) => Some(t),
        Some(TopicMetadata::NamedTopic { kind: NamedTopicKind::Modifier, .. }) => Some(t),
        Some(m) => match m.scope_view() {
            ScopeView::Member { member, .. } => Some(member),
            ScopeView::ContainingBlock { member, .. } => Some(member),
            _ => None,
        },
        None => None,
    }
}

/// The features of a topic. A feature is its own; a requirement or a behavior has
/// those that link to it; a code topic has those that link to a behavior of its
/// member.
pub open spec fn features_of(a: &AuditData, t: Topic) -> Seq<Topic> {
    if t is Spec {
        match lookup(entries(a), t) {
            Some(TopicMetadata::FeatureTopic { .. }) => seq![t],
            Some(TopicMetadata::RequirementTopic { .. }) => {
                a.feature_requirement_links.pairs().filter_map(with_linked(same_as(t)))
            },
            Some(TopicMetadata::BehaviorTopic { .. }) => {
                a.feature_behavior_links.pairs().filter_map(with_linked(same_as(t)))
            },
            _ => seq![],
        }
    } else {
        match member_of(a, t) {
            Some(member) => a.feature_behavior_links.pairs().filter_map(
                with_linked(behavior_of(a, member)),
            ),
            None => seq![],
        }
    }
}

fn linking_to(links: &TopicIndex, t: &Topic) -> (r: Vec<Topic>)
    ensures
        r@ == links.pairs().filter_map(with_linked(same_as(*t))),
{
    let n: usize = links.len();
    let ghost s = links.pairs();
    let ghost f = with_linked(same_as(*t));
    let mut out: Vec<Topic> = Vec::new();
    assert(s.take(0) =~= Seq::empty());
    assert(out@ =~= s.take(0).filter_map(f));
    for i in 0..n
        invariant
            n == s.len(),
            s == links.pairs(),
            f == with_linked(same_as(*t)),
            out@ == s.take(i as int).filter_map(f),
    {
        proof {
            s.lemma_filter_map_take_succ(f, i as int);
        }
        let list = links.value_at(i);
        let mut found = false;
        for j in 0..list.len()
            invariant
                found == exists|k: int| 0 <= k < j && same_as(*t)(#[trigger] list@[k]),
        {
            if list[j] == *t {
                assert(same_as(*t)(list@[j as int]));
                found = true;
            }
        }
        let ghost before = out@;
        if found {
            let ghost k = choose|k: int| 0 <= k < list@.len() && same_as(*t)(#[trigger] list@[k]);
            assert(any(list@, same_as(*t)));
            out.push(*links.key_at(i));
            assert(out@ =~= before + seq![s[i as int].0]);
        } else {
            assert(!any(list@, same_as(*t)));
        }
    }
    assert(s.take(n as int) =~= s);
    out
}

fn linking_to_member(a: &AuditData, member: &Topic) -> (r: Vec<Topic>)
    ensures
        r@ == a.feature_behavior_links.pairs().filter_map(with_linked(behavior_of(a, *member))),
{
    let links = &a.feature_behavior_links;
    let n: usize = links.len();
    let ghost s = links.pairs();
    let ghost p = behavior_of(a, *member);
    let ghost f = with_linked(p);
    let mut out: Vec<Topic> = Vec::new();
    assert(s.take(0) =~= Seq::empty());
    assert(out@ =~= s.take(0).filter_map(f));
    for i in 0..n
        invariant
            n == s.len(),
            s == links.pairs(),
            p == behavior_of(a, *member),
            f == with_linked(p),
            out@ == s.take(i as int).filter_map(f),
    {
        proof {
            s.lemma_filter_map_take_succ(f, i as int);
        }
        let list = links.value_at(i);
        let mut found = false;
        for j in 0..list.len()
            invariant
                p == behavior_of(a, *member),
                found == exists|k: int| 0 <= k < j && p(#[trigger] list@[k]),
        {
            if let Some(TopicMetadata::BehaviorTopic { member_topic, .. }) = a.topic_metadata.get(
                &list[j],
            ) {
                if *member_topic == *member {
                    assert(p(list@[j as int]));
                    found = true;
                }
            }
            assert(p(list@[j as int]) ==> found);
        }
        let ghost before = out@;
        if found {
            let ghost k = choose|k: int| 0 <= k < list@.len() && p(#[trigger] list@[k]);
            assert(any(list@, p));
            out.push(*links.key_at(i));
            assert(out@ =~= before + seq![s[i as int].0]);
        } else {
            assert(!any(list@, p));
        }
    }
    assert(s.take(n as int) =~= s);
    out
}

fn find_member(a: &AuditData, t: &Topic) -> (r: Option<Topic>)
    ensures
        r == member_of(a, *t),
{
    match a.topic_metadata.get(t) {
        Some(metadata) => match metadata {
            TopicMetadata::NamedTopic { kind: NamedTopicKind::Function(_), .. } => Some(*t),
            TopicMetadata::NamedTopic { kind: NamedTopicKind::Modifier, .. } => Some(*t),
            _ => match metadata.scope() {
                Scope::Member { member, .. } => Some(*member),
                Scope::ContainingBlock { member, .. } => Some(*member),
                _ => None,
            },
        },
        None => None,
    }
}

/// The features that a topic belongs to.
pub fn features_for_topic(t: &Topic, audit_data: &AuditData) -> (r: Vec<Topic>)
    ensures
        r@ == features_of(audit_data, *t),
{
    if let Topic::Spec(_) = t {
        return match audit_data.topic_metadata.get(t) {
            Some(TopicMetadata::FeatureTopic { .. }) => {
                let mut features: Vec<Topic> = Vec::new();
                features.push(*t);
                assert(features@ =~= seq![*t]);
                features
            },
            Some(TopicMetadata::RequirementTopic { .. }) => {
                linking_to(&audit_data.feature_requirement_links, t)
            },
            Some(TopicMetadata::BehaviorTopic { .. }) => {
                linking_to(&audit_data.feature_behavior_links, t)
            },
            _ => Vec::new(),
        };
    }
    match find_member(audit_data, t) {
        Some(member) => linking_to_member(audit_data, &member),
        None => Vec::new(),
    }
}

proof fn lemma_picked_keys(s: Seq<(Topic, Vec<Topic>)>, p: spec_fn(Topic) -> bool, i: int)
    requires
        0 <= i < s.filter_map(with_linked(p)).len(),
    ensures
        exists|k: int|
            0 <= k < s.len() && (#[trigger] s[k]).0 == s.filter_map(with_linked(p))[i],
    decreases s.len(),
{
    if s.len() > 0 {
        let t = s.drop_last();
        let n = s.len() - 1;
        let r = s.filter_map(with_linked(p));
        let q = t.filter_map(with_linked(p));
        if i < q.len() {
            lemma_picked_keys(t, p, i);
            let k = choose|k: int| 0 <= k < t.len() && (#[trigger] t[k]).0 == q[i];
            assert(s[k].0 == r[i]);
        } else {
            assert(s[n].0 == r[i]);
        }
    }
}

proof fn lemma_picked_ascend(
    s: Seq<(Topic, Vec<Topic>)>,
    p: spec_fn(Topic) -> bool,
    i: int,
    j: int,
)
    requires
        ascending(s),
        0 <= i < j < s.filter_map(with_linked(p)).len(),
    ensures
        topic_before(s.filter_map(with_linked(p))[i], s.filter_map(with_linked(p))[j]),
    decreases s.len(),
{
    if s.len() > 0 {
        let t = s.drop_last();
        let n = s.len() - 1;
        let r = s.filter_map(with_linked(p));
        let q = t.filter_map(with_linked(p));
        assert(forall|k: int| 0 <= k < n ==> #[trigger] t[k] == s[k]);
        assert(ascending(t));
        if j < q.len() {
            lemma_picked_ascend(t, p, i, j);
            assert(r[i] == q[i] && r[j] == q[j]);
        } else {
            lemma_picked_keys(t, p, i);
            let k = choose|k: int| 0 <= k < t.len() && (#[trigger] t[k]).0 == q[i];
            assert(Topic::before(s[k].0@, s[n].0@));
            assert(r[i] == q[i] && r[j] == s[n].0);
        }
    }
}

/// The features of a topic come in ascending order, each once.
pub proof fn features_ascend(a: &AuditData, t: Topic)
    requires
        ascending(a.feature_requirement_links.pairs()),
        ascending(a.feature_behavior_links.pairs()),
    ensures
        ({
            let r = features_of(a, t);
            forall|i: int, j: int|
                0 <= i < j < r.len() ==> topic_before(#[trigger] r[i], #[trigger] r[j])
        }),
{
    let r = features_of(a, t);
    assert forall|i: int, j: int| 0 <= i < j < r.len() implies topic_before(
        #[trigger] r[i],
        #[trigger] r[j],
    ) by {
        if t is Spec {
            match lookup(entries(a), t) {
                Some(TopicMetadata::RequirementTopic { .. }) => {
                    lemma_picked_ascend(a.feature_requirement_links.pairs(), same_as(t), i, j);
                },
                Some(TopicMetadata::BehaviorTopic { .. }) => {
                    lemma_picked_ascend(a.feature_behavior_links.pairs(), same_as(t), i, j);
                },
                _ => {},
            }
        } else if let Some(member) = member_of(a, t) {
            lemma_picked_ascend(a.feature_behavior_links.pairs(), behavior_of(a, member), i, j);
        }
    }
}

} // verus!
