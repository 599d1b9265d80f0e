//! What questions to an audit are answered, in terms of what it records.
use crate::domain::audit::{is_new_audit, AuditData, PathSet};
use crate::domain::kinds::{NamedTopicVisibility, ThreatSeverity};
use crate::domain::lists::other_than;
use crate::domain::metadata::TopicMetadata;
use crate::domain::node::Node;
use crate::domain::queries::{ancestor_chain, is_canonical, leads_to_canonical, next_of};
use crate::domain::queries::{semantic_text, semantic_texts};
use crate::domain::rebuild_laws::knows;
use crate::domain::scope::{ContainingBlockLayer, ScopeView};
use crate::domain::topic::Topic;
use crate::lookup_laws::lemma_picked;
use crate::ordered::{has_key, mapping};
use vstd::prelude::*;

verus! {

/// `x` is the contract, the member or one of the blocks of a scope.
pub open spec fn encloses(s: ScopeView, x: Topic) -> bool {
    match s {
        ScopeView::Component { component, .. } => x == component,
        ScopeView::Member { component, member, .. } => x == component || x == member,
        ScopeView::ContainingBlock { component, member, blocks, .. } => x == component || x == member
            || exists|i: int| 0 <= i < blocks.len() && (#[trigger] blocks[i]).block == x,
        _ => false,
    }
}

proof fn lemma_enclosing(s: ScopeView, x: Topic)
    ensures
        s.ancestors().contains(x) == encloses(s, x),
{
    let all = s.ancestors();
    match s {
        ScopeView::Component { component, .. } => {
            assert(all[0] == component);
        },
        ScopeView::Member { component, member, .. } => {
            assert(all[0] == component && all[1] == member);
        },
        ScopeView::ContainingBlock { component, member, blocks, .. } => {
            let f = |l: ContainingBlockLayer| l.block;
            let inner = blocks.map_values(f);
            assert(all == seq![component, member] + inner);
            assert(all[0] == component && all[1] == member);
            if exists|i: int| 0 <= i < blocks.len() && (#[trigger] blocks[i]).block == x {
                let i = choose|i: int| 0 <= i < blocks.len() && (#[trigger] blocks[i]).block == x;
                assert(all[i + 2] == x);
            }
            if all.contains(x) {
                let k = choose|k: int| 0 <= k < all.len() && all[k] == x;
                if k >= 2 {
                    assert(blocks[k - 2].block == x);
                }
            }
        },
        _ => {},
    }
}

proof fn lemma_kept(list: Seq<Topic>, c: Topic, x: Topic)
    ensures
        list.filter(other_than(c)).contains(x) <==> list.contains(x) && x != c,
    decreases list.len(),
{
    let f = other_than(c);
    reveal(Seq::filter);
    if list.len() > 0 {
        let rest = list.drop_last();
        let n = list.len() - 1;
        lemma_kept(rest, c, x);
        let before = rest.filter(f);
        let after = list.filter(f);
        if before.contains(x) {
            let i = choose|i: int| 0 <= i < before.len() && before[i] == x;
            assert(after[i] == x);
            let k = choose|k: int| 0 <= k < rest.len() && rest[k] == x;
            assert(list[k] == x);
        }
        if list[n] == x && x != c {
            assert(after[before.len() as int] == x);
        }
        if after.contains(x) {
            let i = choose|i: int| 0 <= i < after.len() && after[i] == x;
            if i < before.len() {
                assert(before[i] == x);
            } else {
                assert(list[n] == x);
            }
        }
        if list.contains(x) {
            let k = choose|k: int| 0 <= k < list.len() && list[k] == x;
            if k < n {
                assert(rest[k] == x);
            }
        }
    }
}

/// The chain of a topic holds the topic itself and everything that encloses it, and
/// nothing else.
pub proof fn chains_hold_what_encloses(meta: Seq<(Topic, TopicMetadata)>, t: Topic, x: Topic)
    ensures
        ancestor_chain(meta, t).contains(x) <==> x == t || (mapping(meta).dom().contains(t)
            && encloses(mapping(meta)[t].scope_view(), x)),
{
    let chain = ancestor_chain(meta, t);
    assert(chain[0] == t);
    if has_key(meta, t) {
        let s = mapping(meta)[t].scope_view();
        let all = s.ancestors();
        let up = all.reverse();
        let kept = up.filter(other_than(t));
        lemma_enclosing(s, x);
        lemma_kept(up, t, x);
        assert(chain == seq![t] + kept);
        if all.contains(x) {
            let k = choose|k: int| 0 <= k < all.len() && all[k] == x;
            assert(up[all.len() - 1 - k] == x);
        }
        if up.contains(x) {
            let k = choose|k: int| 0 <= k < up.len() && up[k] == x;
            assert(all[all.len() - 1 - k] == x);
        }
        if kept.contains(x) {
            let k = choose|k: int| 0 <= k < kept.len() && kept[k] == x;
            assert(chain[k + 1] == x);
        }
        if chain.contains(x) && x != t {
            let k = choose|k: int| 0 <= k < chain.len() && chain[k] == x;
            assert(kept[k - 1] == x);
        }
    } else {
        assert(chain == seq![t]);
    }
}

/// Inside a member, the chain goes from the member to its contract, after the topic
/// itself.
pub proof fn chains_go_outward(
    meta: Seq<(Topic, TopicMetadata)>,
    t: Topic,
    component: Topic,
    member: Topic,
)
    requires
        mapping(meta).dom().contains(t),
        match mapping(meta)[t].scope_view() {
            ScopeView::Member { component: c, member: m, .. } => c == component && m == member,
            _ => false,
        },
        t != component,
        t != member,
    ensures
        ancestor_chain(meta, t) == seq![t, member, component],
{
    let all = mapping(meta)[t].scope_view().ancestors();
    let up = all.reverse();
    let f = other_than(t);
    assert(up =~= seq![member, component]);
    assert(up.filter(f) =~= seq![member, component]) by {
        reveal(Seq::filter);
        assert(up.drop_last() =~= seq![member]);
        assert(seq![member].drop_last() =~= Seq::<Topic>::empty());
        assert(Seq::<Topic>::empty().filter(f) =~= Seq::<Topic>::empty());
        assert(seq![member].filter(f) =~= seq![member]);
    }
    assert(ancestor_chain(meta, t) =~= seq![t, member, component]);
}

proof fn lemma_all_kept(list: Seq<Topic>, t: Topic)
    requires
        !list.contains(t),
    ensures
        list.filter(other_than(t)) == list,
    decreases list.len(),
{
    reveal(Seq::filter);
    let f = other_than(t);
    if list.len() > 0 {
        let rest = list.drop_last();
        let n = list.len() - 1;
        assert(list.contains(list[n]));
        assert forall|i: int| 0 <= i < rest.len() implies rest[i] != t by {
            assert(rest[i] == list[i]);
            assert(list.contains(list[i]));
        }
        lemma_all_kept(rest, t);
        assert(rest.push(list.last()) =~= list);
    } else {
        assert(list.filter(f) =~= list);
    }
}

/// Inside blocks, the chain goes from the innermost block outward to the member and its
/// contract, after the topic itself.
pub proof fn chains_go_outward_through_blocks(
    meta: Seq<(Topic, TopicMetadata)>,
    t: Topic,
    component: Topic,
    member: Topic,
    blocks: Seq<ContainingBlockLayer>,
    k: int,
)
    requires
        mapping(meta).dom().contains(t),
        match mapping(meta)[t].scope_view() {
            ScopeView::ContainingBlock { component: c, member: m, blocks: l, .. } => c == component
                && m == member && l == blocks,
            _ => false,
        },
        !encloses(mapping(meta)[t].scope_view(), t),
    ensures
        ({
            let chain = ancestor_chain(meta, t);
            let n = blocks.len() as int;
            &&& chain.len() == n + 3
            &&& chain[0] == t
            &&& 0 <= k < n ==> chain[k + 1] == blocks[n - 1 - k].block
            &&& chain[n + 1] == member
            &&& chain[n + 2] == component
        }),
{
    let s = mapping(meta)[t].scope_view();
    let all = s.ancestors();
    let up = all.reverse();
    let f = |l: ContainingBlockLayer| l.block;
    lemma_enclosing(s, t);
    if up.contains(t) {
        let i = choose|i: int| 0 <= i < up.len() && up[i] == t;
        assert(all[all.len() - 1 - i] == t);
    }
    lemma_all_kept(up, t);
    assert(all == seq![component, member] + blocks.map_values(f));
    assert(ancestor_chain(meta, t) == seq![t] + up);
}

/// A topic stands for another exactly where it is code that is recorded as its proxy.
pub proof fn proxies_are_code(meta: Seq<(Topic, TopicMetadata)>, t: Topic, p: Topic)
    ensures
        next_of(meta, t) == Some(p) <==> mapping(meta).dom().contains(t) && match mapping(meta)[t] {
            TopicMetadata::NamedTopic { transitive_topic, .. } => transitive_topic == Some(p),
            TopicMetadata::UnnamedTopic { transitive_topic, .. } => transitive_topic == Some(p),
            _ => false,
        },
{
}

/// The texts of semantics are exactly their descriptions.
pub proof fn semantic_texts_are_descriptions(
    meta: Seq<(Topic, TopicMetadata)>,
    list: Seq<Topic>,
    text: Seq<char>,
)
    ensures
        semantic_texts(meta, list).contains(text) <==> exists|t: Topic| #[trigger]
            list.contains(t) && describes(meta, t, text),
{
    let f = semantic_text(meta);
    lemma_picked(list, f, text);
    if semantic_texts(meta, list).contains(text) {
        let i = choose|i: int| 0 <= i < list.len() && f(#[trigger] list[i]) == Some(text);
        assert(list.contains(list[i]) && describes(meta, list[i], text));
    }
    if exists|t: Topic| #[trigger] list.contains(t) && describes(meta, t, text) {
        let t = choose|t: Topic| #[trigger] list.contains(t) && describes(meta, t, text);
        let i = choose|i: int| 0 <= i < list.len() && list[i] == t;
        assert(f(list[i]) == Some(text));
    }
}

/// The texts of a list of semantics come in the order of the list.
pub proof fn semantic_texts_come_in_order(
    meta: Seq<(Topic, TopicMetadata)>,
    list: Seq<Topic>,
    i: int,
)
    requires
        forall|k: int|
            0 <= k < list.len() ==> mapping(meta).dom().contains(#[trigger] list[k])
                && mapping(meta)[list[k]] is FunctionalSemanticTopic,
    ensures
        semantic_texts(meta, list).len() == list.len(),
        0 <= i < list.len() ==> describes(meta, list[i], semantic_texts(meta, list)[i]),
    decreases list.len(),
{
    reveal(Seq::filter_map);
    if list.len() > 0 {
        let rest = list.drop_last();
        let n = list.len() - 1;
        assert forall|k: int| 0 <= k < rest.len() implies mapping(meta).dom().contains(
            #[trigger] rest[k],
        ) && mapping(meta)[rest[k]] is FunctionalSemanticTopic by {
            assert(rest[k] == list[k]);
        }
        semantic_texts_come_in_order(meta, rest, i);
        assert(mapping(meta).dom().contains(list[n]));
        assert(semantic_text(meta)(list[n]) is Some);
        let before = semantic_texts(meta, rest);
        let after = semantic_texts(meta, list);
        assert(after =~= before + seq![semantic_text(meta)(list[n])->0]);
        if 0 <= i < n {
            assert(after[i] == before[i]);
            assert(rest[i] == list[i]);
        }
    }
}

/// `t` is a functional semantic with this description.
pub open spec fn describes(meta: Seq<(Topic, TopicMetadata)>, t: Topic, text: Seq<char>) -> bool {
    mapping(meta).dom().contains(t) && match mapping(meta)[t] {
        TopicMetadata::FunctionalSemanticTopic { description, .. } => description@ == text,
        _ => false,
    }
}

/// A node starts where its source says, in whatever language, and a comment nowhere.
pub proof fn nodes_start_in_their_source(n: Node)
    ensures
        n matches Node::Solidity(s) ==> n.start() == crate::solidity::ast::location_of(&s).start,
        n matches Node::Documentation(d) ==> n.start() == d.position,
        n matches Node::Rust(r) ==> n.start() == r.location().start,
        n is Comment ==> n.start() is None,
{
}

/// Severities rise from low to critical, and no two are the same.
pub proof fn severities_rise(a: ThreatSeverity, b: ThreatSeverity)
    ensures
        a.level() == b.level() <==> a == b,
        a is Low && !(b is Low) ==> a.level() < b.level(),
        a is Critical && !(b is Critical) ==> a.level() > b.level(),
        a is Medium && b is High ==> a.level() < b.level(),
{
}

/// A new audit knows nothing but what the language declares, for everyone and outside
/// every file, and holds nothing else.
pub proof fn new_audits_know_the_language_alone(
    a: AuditData,
    name: String,
    files: PathSet,
    notes: Option<String>,
    t: Topic,
)
    requires
        is_new_audit(a, name, files, notes),
    ensures
        a.audit_name == name,
        a.in_scope_files == files,
        a.security_notes == notes,
        knows(&a, t) ==> a.topic_metadata@[t] is NamedTopic && a.topic_metadata@[t]->NamedTopic_kind
            is Builtin && a.topic_metadata@[t]->NamedTopic_scope is Global
            && a.topic_metadata@[t]->NamedTopic_topic == t && a.topic_metadata@[t]->visibility
            == NamedTopicVisibility::Public,
        !a.requirements@.dom().contains(t),
        !a.characteristics@.dom().contains(t),
        !a.feature_requirement_links@.dom().contains(t),
        !a.feature_behavior_links@.dom().contains(t),
        !a.threats@.dom().contains(t),
        !a.invariants@.dom().contains(t),
        !a.comment_index@.dom().contains(t),
        !a.topic_context@.dom().contains(t),
        a.threat_feature_links@.len() == 0,
        a.conditions@.len() == 0,
        a.resolution_graph is None,
{
}

/// A proxy stands for what its target stands for, where that is no proxy itself.
pub proof fn proxies_stand_for_what_their_target_does(
    meta: Seq<(Topic, TopicMetadata)>,
    t: Topic,
    u: Topic,
    r: Topic,
)
    requires
        next_of(meta, t) == Some(u),
        is_canonical(meta, u, r),
        next_of(meta, r) is None,
    ensures
        is_canonical(meta, t, r),
{
    let path = choose|path: Seq<Topic>| #[trigger]
        leads_to_canonical(meta, path) && path[0] == u && path.last() == r;
    let whole = seq![t] + path;
    let n = path.len() as int;
    assert(whole.last() == r);
    assert forall|i: int| 0 <= i < whole.len() - 1 implies next_of(meta, #[trigger] whole[i])
        == Some(whole[i + 1]) by {
        if i > 0 {
            assert(whole[i] == path[i - 1] && whole[i + 1] == path[i]);
            assert(next_of(meta, path[i - 1]) == Some(path[i - 1 + 1]));
        }
    }
    let ways = whole.drop_last();
    let inner = path.drop_last();
    assert forall|i: int, j: int|
        0 <= i < ways.len() && 0 <= j < ways.len() && i != j implies ways[i] != ways[j] by {
        if i > 0 && j > 0 {
            assert(inner[i - 1] == ways[i] && inner[j - 1] == ways[j]);
        } else if ways[i] == ways[j] {
            let k = if i > 0 {
                i - 1
            } else {
                j - 1
            };
            assert(inner[k] == t);
            assert(path[k] == t);
            assert(next_of(meta, path[k]) == Some(path[k + 1]));
            assert(path[k + 1] == u);
            if k + 1 < n - 1 {
                assert(inner[k + 1] == inner[0]);
            } else {
                assert(path.last() == u);
                assert(next_of(meta, path[0]) == Some(path[1]));
            }
        }
    }
    assert(leads_to_canonical(meta, whole));
}

/// What a topic stands for is no proxy, unless the way there comes by it twice.
pub proof fn proxies_end_unless_they_run_in_a_circle(
    meta: Seq<(Topic, TopicMetadata)>,
    t: Topic,
    r: Topic,
)
    requires
        is_canonical(meta, t, r),
    ensures
        next_of(meta, r) is None || exists|path: Seq<Topic>, i: int, j: int|
            #![trigger path[i], path[j]]
            0 <= i < j < path.len() && path[0] == t && path[i] == r && path[j] == r && forall|
                k: int,
            |
                0 <= k < path.len() - 1 ==> next_of(meta, #[trigger] path[k]) == Some(path[k + 1]),
{
    let path = choose|path: Seq<Topic>| #[trigger]
        leads_to_canonical(meta, path) && path[0] == t && path.last() == r;
    if next_of(meta, r) is Some {
        let i = choose|i: int| 0 <= i < path.drop_last().len() && path.drop_last()[i] == r;
        let j = path.len() - 1;
        assert(path[i] == r && path[j] == r);
    }
}

} // verus!
