//! What a rebuild derives, in terms of what the audit records.
use crate::domain::audit::{entries, AuditData};
use crate::domain::context::{context_views, ContextView, RefKind, RefView, SourceContext};
use crate::domain::feature_laws::{index_lists_exactly_the_tied, latest_is_the_last_tied};
use crate::domain::feature_laws::{lemma_contexts_built, tied_topics};
use crate::domain::features::{behaviors_by_member, built_contexts, context_lists, contexts_built};
use crate::domain::features::{contract_contexts, index_by, is_rebuilt, latest_by};
use crate::domain::features::{members_by_contract, sources_of, tied_to, Relation, Sources};
use crate::domain::index::{index_lists, lemma_index_list, lemma_lookup_put, lemma_mapped};
use crate::domain::index::{lemma_mapped_lookup, list_for};
use crate::domain::metadata::TopicMetadata;
use crate::domain::scope::ScopeView;
use crate::domain::topic::{number_of, topic_before, Topic};
use crate::ordered::{ascending, has_key, index_of, lemma_index_of, lookup, mapping};
use vstd::prelude::*;

verus! {

/// The tables of both audits are in order.
pub open spec fn tables_in_order(a: &AuditData, b: &AuditData) -> bool {
    &&& ascending(entries(a))
    &&& ascending(a.topic_context.pairs())
    &&& ascending(b.topic_context.pairs())
    &&& ascending(a.feature_requirement_links.pairs())
    &&& ascending(a.feature_behavior_links.pairs())
    &&& ascending(b.section_requirements.pairs())
    &&& ascending(b.member_behaviors.pairs())
    &&& ascending(b.declaration_semantics.pairs())
    &&& ascending(b.subject_conditions.pairs())
}

/// The audit knows `t`.
pub open spec fn knows(a: &AuditData, t: Topic) -> bool {
    a.topic_metadata@.dom().contains(t)
}

/// The topics that are listed for `k`.
pub open spec fn listed_for(index: Map<Topic, Vec<Topic>>, k: Topic) -> Seq<Topic> {
    if index.dom().contains(k) {
        index[k]@
    } else {
        seq![]
    }
}

pub proof fn lemma_listed_for(s: Seq<(Topic, Vec<Topic>)>, k: Topic)
    requires
        ascending(s),
    ensures
        list_for(index_lists(s), k) == listed_for(mapping(s), k),
{
    lemma_index_list(s, k);
}

proof fn lemma_entry(a: &AuditData, t: Topic) -> (i: int)
    requires
        knows(a, t),
    ensures
        0 <= i < entries(a).len(),
        entries(a)[i] == (t, a.topic_metadata@[t]),
{
    let i = index_of(entries(a), t);
    assert(has_key(entries(a), t));
    assert(entries(a)[i].0@ == t);
    i
}

/// The contexts of `t` are those that are built for it.
proof fn lemma_built(a: &AuditData, b: &AuditData, t: Topic)
    requires
        is_rebuilt(a, b),
        tables_in_order(a, b),
        knows(a, t),
        built_contexts(sources_of(a), t, a.topic_metadata@[t]) is Some,
    ensures
        b.topic_context@.dom().contains(t),
        context_views(b.topic_context@[t]@) == built_contexts(
            sources_of(a),
            t,
            a.topic_metadata@[t],
        )->0,
        b.topic_context@[t]@.len() == built_contexts(
            sources_of(a),
            t,
            a.topic_metadata@[t],
        )->0.len(),
        forall|i: int|
            0 <= i < b.topic_context@[t]@.len() ==> (#[trigger] b.topic_context@[t]@[i])@
                == built_contexts(sources_of(a), t, a.topic_metadata@[t])->0[i],
{
    let f = |v: Vec<SourceContext>| context_views(v@);
    lemma_mapped::<Topic, Vec<SourceContext>, Seq<ContextView>>(a.topic_context.pairs(), f);
    lemma_contexts_built(sources_of(a), entries(a), context_lists(a.topic_context.pairs()));
    let i = lemma_entry(a, t);
    assert(built_contexts(sources_of(a), entries(a)[i].0, entries(a)[i].1) is Some);
    lemma_mapped_lookup(b.topic_context.pairs(), f, t);
    let found = b.topic_context@[t]@;
    assert(context_views(found).len() == found.len());
    assert forall|i: int| 0 <= i < found.len() implies (#[trigger] found[i])@ == built_contexts(
        sources_of(a),
        t,
        a.topic_metadata@[t],
    )->0[i] by {
        assert(context_views(found)[i] == found[i]@);
    }
}

/// After a rebuild, the first context of a feature is its own: it names the feature
/// and then the requirements that are linked to it, in their order.
pub proof fn features_show_their_requirements(a: &AuditData, b: &AuditData, f: Topic)
    requires
        is_rebuilt(a, b),
        tables_in_order(a, b),
        knows(a, f),
        a.topic_metadata@[f] is FeatureTopic,
    ensures
        b.topic_context@.dom().contains(f),
        b.topic_context@[f]@.len() > 0,
        ({
            let c = b.topic_context@[f]@[0]@;
            let reqs = listed_for(a.feature_requirement_links@, f);
            &&& c.scope == f
            &&& c.is_in_scope
            &&& c.nested.len() == 0
            &&& c.references.len() == reqs.len() + 1
            &&& c.references[0].topic == f
            &&& forall|i: int|
                0 < i < c.references.len() ==> (#[trigger] c.references[i]).topic == reqs[i - 1]
        }),
{
    lemma_built(a, b, f);
    lemma_listed_for(a.feature_requirement_links.pairs(), f);
    let views = context_views(b.topic_context@[f]@);
    assert(views[0] == b.topic_context@[f]@[0]@);
}

proof fn lemma_behaviors_by_member(
    meta: Seq<(Topic, TopicMetadata)>,
    list: Seq<Topic>,
    mt: Topic,
    bt: Topic,
)
    ensures
        ascending(behaviors_by_member(meta, list)),
        list_for(behaviors_by_member(meta, list), mt).contains(bt) <==> (list.contains(bt)
            && crate::domain::features::member_of(meta, bt) == Some(mt)),
    decreases list.len(),
{
    if list.len() > 0 {
        let rest = list.drop_last();
        let e = list[list.len() - 1];
        lemma_behaviors_by_member(meta, rest, mt, bt);
        let before = behaviors_by_member(meta, rest);
        assert(list.contains(bt) == (rest.contains(bt) || bt == e)) by {
            if rest.contains(bt) {
                let i = choose|i: int| 0 <= i < rest.len() && rest[i] == bt;
                assert(list[i] == bt);
            }
            if list.contains(bt) && bt != e {
                let i = choose|i: int| 0 <= i < list.len() && list[i] == bt;
                assert(rest[i] == bt);
            }
        }
        match crate::domain::features::member_of(meta, e) {
            Some(k) => {
                lemma_behaviors_by_member(meta, rest, k, bt);
                let l = list_for(before, k);
                lemma_lookup_put(before, k, l.push(e), mt);
                assert(l.push(e).contains(bt) == (l.contains(bt) || bt == e)) by {
                    if l.contains(bt) {
                        let i = choose|i: int| 0 <= i < l.len() && l[i] == bt;
                        assert(l.push(e)[i] == bt);
                    }
                    if bt == e {
                        assert(l.push(e)[l.len() as int] == bt);
                    }
                    if l.push(e).contains(bt) && bt != e {
                        let i = choose|i: int| 0 <= i < l.push(e).len() && l.push(e)[i] == bt;
                        assert(l[i] == bt);
                    }
                }
            },
            None => {},
        }
    }
}

proof fn lemma_members_by_contract(
    meta: Seq<(Topic, TopicMetadata)>,
    members: Seq<(Topic, Seq<Topic>)>,
    i: int,
)
    requires
        0 <= i < members.len(),
    ensures
        ascending(members_by_contract(meta, members)),
        crate::domain::features::nested_for(
            members_by_contract(meta, members),
            crate::domain::features::contract_of(meta, members[i].0),
        ).contains(crate::domain::features::member_context(members[i].0, members[i].1)),
    decreases members.len(),
{
    let rest = members.drop_last();
    let n = members.len() - 1;
    lemma_contracts_ascend(meta, members);
    lemma_contracts_ascend(meta, rest);
    let before = members_by_contract(meta, rest);
    let (mt, behaviors) = members.last();
    let c = crate::domain::features::contract_of(meta, mt);
    let l = crate::domain::features::nested_for(before, c);
    let e = crate::domain::features::member_context(mt, behaviors);
    let q = crate::domain::features::contract_of(meta, members[i].0);
    lemma_lookup_put(before, c, l.push(e), q);
    if i < n {
        lemma_members_by_contract(meta, rest, i);
        assert(rest[i] == members[i]);
        let was = crate::domain::features::nested_for(before, q);
        let w = crate::domain::features::member_context(members[i].0, members[i].1);
        if q == c {
            let k = choose|k: int| 0 <= k < was.len() && was[k] == w;
            assert(l.push(e)[k] == w);
        }
    } else {
        assert(l.push(e)[l.len() as int] == e);
    }
}

proof fn lemma_contracts_ascend(
    meta: Seq<(Topic, TopicMetadata)>,
    members: Seq<(Topic, Seq<Topic>)>,
)
    ensures
        ascending(members_by_contract(meta, members)),
    decreases members.len(),
{
    if members.len() > 0 {
        let rest = members.drop_last();
        lemma_contracts_ascend(meta, rest);
        let before = members_by_contract(meta, rest);
        let (mt, behaviors) = members.last();
        let c = crate::domain::features::contract_of(meta, mt);
        lemma_lookup_put(
            before,
            c,
            crate::domain::features::nested_for(before, c).push(
                crate::domain::features::member_context(mt, behaviors),
            ),
            c,
        );
    }
}

/// `t` stands directly in the component `c`, or in no component and is `c`.
pub open spec fn contract_around(a: &AuditData, t: Topic, c: Topic) -> bool {
    if knows(a, t) {
        match a.topic_metadata@[t].scope_view() {
            ScopeView::Component { component, .. } => c == component,
            _ => c == t,
        }
    } else {
        c == t
    }
}

/// After a rebuild, a feature shows each behavior that is linked to it, under the
/// member that it belongs to, in the contract of the member.
pub proof fn features_show_their_behaviors(
    a: &AuditData,
    b: &AuditData,
    f: Topic,
    bt: Topic,
    mt: Topic,
    contract: Topic,
)
    requires
        is_rebuilt(a, b),
        tables_in_order(a, b),
        knows(a, f),
        a.topic_metadata@[f] is FeatureTopic,
        listed_for(a.feature_behavior_links@, f).contains(bt),
        knows(a, bt),
        match a.topic_metadata@[bt] {
            TopicMetadata::BehaviorTopic { member_topic, .. } => member_topic == mt,
            _ => false,
        },
        contract_around(a, mt, contract),
    ensures
        b.topic_context@.dom().contains(f),
        exists|i: int, j: int, k: int|
            #![trigger b.topic_context@[f]@[i]@.nested[j].children[k]]
            {
                let c = b.topic_context@[f]@[i]@;
                &&& 0 < i < b.topic_context@[f]@.len()
                &&& c.scope == contract
                &&& 0 <= j < c.nested.len()
                &&& c.nested[j].subscope == mt
                &&& 0 <= k < c.nested[j].children.len()
                &&& c.nested[j].children[k] is Reference
                &&& c.nested[j].children[k]->Reference_0.topic == bt
            },
{
    lemma_built(a, b, f);
    lemma_listed_for(a.feature_behavior_links.pairs(), f);
    let meta = entries(a);
    let list = listed_for(a.feature_behavior_links@, f);
    let members = behaviors_by_member(meta, list);
    lemma_behaviors_by_member(meta, list, mt, bt);
    assert(crate::domain::features::member_of(meta, bt) == Some(mt));
    let bs = list_for(members, mt);
    let mi = index_of(members, mt);
    assert(members[mi].0@ == mt);
    assert(members[mi] == (mt, bs));
    lemma_members_by_contract(meta, members, mi);
    let groups = members_by_contract(meta, members);
    assert(crate::domain::features::contract_of(meta, mt) == contract);
    let nested = crate::domain::features::nested_for(groups, contract);
    let gi = index_of(groups, contract);
    assert(groups[gi].0@ == contract);
    assert(groups[gi] == (contract, nested));
    let n = crate::domain::features::member_context(mt, bs);
    let j = choose|j: int| 0 <= j < nested.len() && nested[j] == n;
    let k = choose|k: int| 0 <= k < bs.len() && bs[k] == bt;
    let views = context_views(b.topic_context@[f]@);
    let i = gi + 1;
    assert(contract_contexts(groups)[gi].nested == nested);
    assert(views[i] == contract_contexts(groups)[gi]);
    assert(views[i] == b.topic_context@[f]@[i]@);
    assert(b.topic_context@[f]@[i]@.nested[j].children[k] is Reference);
}

/// After a rebuild, a behavior and a semantic show themselves.
pub proof fn behaviors_and_semantics_show_themselves(a: &AuditData, b: &AuditData, t: Topic)
    requires
        is_rebuilt(a, b),
        tables_in_order(a, b),
        knows(a, t),
        a.topic_metadata@[t] is BehaviorTopic || a.topic_metadata@[t] is FunctionalSemanticTopic,
    ensures
        b.topic_context@.dom().contains(t),
        b.topic_context@[t]@.len() == 1,
        b.topic_context@[t]@[0]@.scope == t,
        b.topic_context@[t]@[0]@.references.len() == 1,
        b.topic_context@[t]@[0]@.references[0].topic == t,
        b.topic_context@[t]@[0]@.nested.len() == 0,
{
    lemma_built(a, b, t);
    let views = context_views(b.topic_context@[t]@);
    assert(views[0] == b.topic_context@[t]@[0]@);
}

/// After a rebuild, a threat shows its subject and itself, and its invariants below
/// it, in their order.
pub proof fn threats_show_subject_and_invariants(a: &AuditData, b: &AuditData, t: Topic)
    requires
        is_rebuilt(a, b),
        tables_in_order(a, b),
        knows(a, t),
        a.topic_metadata@[t] is ThreatTopic,
    ensures
        b.topic_context@.dom().contains(t),
        b.topic_context@[t]@.len() == 1,
        ({
            let c = b.topic_context@[t]@[0]@;
            let held = if a.threats@.dom().contains(t) {
                a.threats@[t].invariant_topics@
            } else {
                seq![]
            };
            &&& c.scope == t
            &&& c.references.len() == 2
            &&& c.references[0].topic == a.topic_metadata@[t]->ThreatTopic_subject_topic
            &&& c.references[1].topic == t
            &&& c.nested.len() == if held.len() > 0 {
                1nat
            } else {
                0nat
            }
            &&& held.len() > 0 ==> c.nested[0].subscope == t && c.nested[0].children.len()
                == held.len()
            &&& held.len() > 0 ==> forall|k: int|
                0 <= k < held.len() ==> (#[trigger] c.nested[0].children[k]) is Reference
                    && c.nested[0].children[k]->Reference_0.topic == held[k]
        }),
{
    lemma_built(a, b, t);
    let views = context_views(b.topic_context@[t]@);
    assert(views[0] == b.topic_context@[t]@[0]@);
}

/// After a rebuild, an invariant shows its threat.
pub proof fn invariants_show_their_threat(a: &AuditData, b: &AuditData, t: Topic)
    requires
        is_rebuilt(a, b),
        tables_in_order(a, b),
        knows(a, t),
        a.topic_metadata@[t] is InvariantTopic,
    ensures
        b.topic_context@.dom().contains(t),
        b.topic_context@[t]@.len() == 1,
        b.topic_context@[t]@[0]@.scope == t,
        b.topic_context@[t]@[0]@.references.len() == 1,
        b.topic_context@[t]@[0]@.references[0].topic
            == a.topic_metadata@[t]->InvariantTopic_threat_topic,
{
    lemma_built(a, b, t);
    let views = context_views(b.topic_context@[t]@);
    assert(views[0] == b.topic_context@[t]@[0]@);
}

proof fn lemma_untouched(
    src: Sources,
    some: Seq<(Topic, TopicMetadata)>,
    start: Seq<(Topic, Seq<ContextView>)>,
    k: Topic,
)
    requires
        ascending(start),
        forall|i: int|
            0 <= i < some.len() && (#[trigger] some[i]).0 == k ==> built_contexts(
                src,
                some[i].0,
                some[i].1,
            ) is None,
    ensures
        ascending(contexts_built(src, some, start)),
        lookup(contexts_built(src, some, start), k) == lookup(start, k),
    decreases some.len(),
{
    if some.len() > 0 {
        let rest = some.drop_last();
        assert forall|i: int| 0 <= i < rest.len() && (#[trigger] rest[i]).0 == k implies
            built_contexts(src, rest[i].0, rest[i].1) is None by {
            assert(rest[i] == some[i]);
        }
        lemma_untouched(src, rest, start, k);
        let (t, m) = some[some.len() - 1];
        assert(some[some.len() - 1].0 == t);
        match built_contexts(src, t, m) {
            Some(c) => {
                lemma_lookup_put(contexts_built(src, rest, start), t, c, k);
            },
            None => {},
        }
    }
}

/// A rebuild leaves the contexts of code and documentation, and of topics that are
/// not known, as they are.
pub proof fn other_contexts_stay(a: &AuditData, b: &AuditData, t: Topic)
    requires
        is_rebuilt(a, b),
        tables_in_order(a, b),
        knows(a, t) ==> {
            let m = a.topic_metadata@[t];
            m is NamedTopic || m is UnnamedTopic || m is ControlFlow || m is TitledTopic || m
                is CommentTopic || m is DocumentationTopic || m is CharacteristicTopic || m
                is FunctionalPurposeTopic || m is PlacementRationaleTopic || m is ConditionTopic
                || m is ValidationTopic
        },
    ensures
        b.topic_context@.dom().contains(t) == a.topic_context@.dom().contains(t),
        a.topic_context@.dom().contains(t) ==> context_views(b.topic_context@[t]@)
            == context_views(a.topic_context@[t]@),
{
    let f = |v: Vec<SourceContext>| context_views(v@);
    lemma_mapped::<Topic, Vec<SourceContext>, Seq<ContextView>>(a.topic_context.pairs(), f);
    let s = entries(a);
    assert forall|i: int| 0 <= i < s.len() && (#[trigger] s[i]).0 == t implies built_contexts(
        sources_of(a),
        s[i].0,
        s[i].1,
    ) is None by {
        lemma_index_of(s, i);
        assert(knows(a, t));
        assert(a.topic_metadata@[t] == s[i].1);
    }
    lemma_untouched(sources_of(a), s, context_lists(a.topic_context.pairs()), t);
    lemma_mapped_lookup(b.topic_context.pairs(), f, t);
    lemma_mapped_lookup(a.topic_context.pairs(), f, t);
}

proof fn lemma_tied(some: Seq<(Topic, TopicMetadata)>, relation: Relation, k: Topic, t: Topic)
    ensures
        tied_topics(some, relation, k).contains(t) <==> exists|i: int|
            0 <= i < some.len() && (#[trigger] some[i]).0 == t && tied_to(some[i].1, relation)
                == Some(k),
    decreases some.len(),
{
    if some.len() > 0 {
        let rest = some.drop_last();
        let n = some.len() - 1;
        lemma_tied(rest, relation, k, t);
        let l = tied_topics(some, relation, k);
        let d = tied_topics(rest, relation, k);
        if l.contains(t) {
            let i = choose|i: int| 0 <= i < l.len() && l[i] == t;
            if i < d.len() {
                assert(d[i] == t);
                let j = choose|j: int|
                    0 <= j < rest.len() && (#[trigger] rest[j]).0 == t && tied_to(
                        rest[j].1,
                        relation,
                    ) == Some(k);
                assert(some[j] == rest[j]);
            } else {
                assert(some[n].0 == t);
            }
        }
        if exists|i: int|
            0 <= i < some.len() && (#[trigger] some[i]).0 == t && tied_to(some[i].1, relation)
                == Some(k) {
            let i = choose|i: int|
                0 <= i < some.len() && (#[trigger] some[i]).0 == t && tied_to(some[i].1, relation)
                    == Some(k);
            if i < n {
                assert(rest[i] == some[i]);
                let j = choose|j: int| 0 <= j < d.len() && d[j] == t;
                assert(l[j] == t);
            } else {
                assert(l[l.len() - 1] == t);
            }
        }
    }
}

proof fn lemma_index_holds(
    a: &AuditData,
    index: Seq<(Topic, Vec<Topic>)>,
    relation: Relation,
    k: Topic,
    t: Topic,
)
    requires
        ascending(entries(a)),
        ascending(index),
        index_lists(index) == index_by(entries(a), relation),
    ensures
        listed_for(mapping(index), k).contains(t) == (knows(a, t) && tied_to(
            a.topic_metadata@[t],
            relation,
        ) == Some(k)),
{
    let s = entries(a);
    index_lists_exactly_the_tied(s, relation, k);
    lemma_listed_for(index, k);
    lemma_tied(s, relation, k, t);
    if tied_topics(s, relation, k).contains(t) {
        let i = choose|i: int|
            0 <= i < s.len() && (#[trigger] s[i]).0 == t && tied_to(s[i].1, relation) == Some(k);
        lemma_index_of(s, i);
    }
    if knows(a, t) && tied_to(a.topic_metadata@[t], relation) == Some(k) {
        let i = lemma_entry(a, t);
        assert(s[i].0 == t);
    }
}

/// After a rebuild, a section lists exactly the requirements that come from it.
pub proof fn sections_list_their_requirements(a: &AuditData, b: &AuditData, k: Topic, t: Topic)
    requires
        is_rebuilt(a, b),
        tables_in_order(a, b),
    ensures
        listed_for(b.section_requirements@, k).contains(t) == (knows(a, t)
            && match a.topic_metadata@[t] {
            TopicMetadata::RequirementTopic { section_topic, .. } => section_topic == k,
            _ => false,
        }),
{
    lemma_index_holds(a, b.section_requirements.pairs(), Relation::Section, k, t);
}

/// After a rebuild, a member lists exactly the behaviors that belong to it.
pub proof fn members_list_their_behaviors(a: &AuditData, b: &AuditData, k: Topic, t: Topic)
    requires
        is_rebuilt(a, b),
        tables_in_order(a, b),
    ensures
        listed_for(b.member_behaviors@, k).contains(t) == (knows(a, t)
            && match a.topic_metadata@[t] {
            TopicMetadata::BehaviorTopic { member_topic, .. } => member_topic == k,
            _ => false,
        }),
{
    lemma_index_holds(a, b.member_behaviors.pairs(), Relation::Member, k, t);
}

/// After a rebuild, a declaration lists exactly the semantics that describe it.
pub proof fn declarations_list_their_semantics(a: &AuditData, b: &AuditData, k: Topic, t: Topic)
    requires
        is_rebuilt(a, b),
        tables_in_order(a, b),
    ensures
        listed_for(b.declaration_semantics@, k).contains(t) == (knows(a, t)
            && match a.topic_metadata@[t] {
            TopicMetadata::FunctionalSemanticTopic { declaration_topic, .. } => declaration_topic
                == k,
            _ => false,
        }),
{
    lemma_index_holds(a, b.declaration_semantics.pairs(), Relation::Declaration, k, t);
}

/// After a rebuild, a subject lists exactly the conditions that are on it.
pub proof fn subjects_list_their_conditions(a: &AuditData, b: &AuditData, k: Topic, t: Topic)
    requires
        is_rebuilt(a, b),
        tables_in_order(a, b),
    ensures
        listed_for(b.subject_conditions@, k).contains(t) == (knows(a, t)
            && match a.topic_metadata@[t] {
            TopicMetadata::ConditionTopic { subject_topic, .. } => subject_topic == k,
            _ => false,
        }),
{
    lemma_index_holds(a, b.subject_conditions.pairs(), Relation::Condition, k, t);
}

proof fn lemma_last_tied(a: &AuditData, relation: Relation, k: Topic, t: Topic)
    requires
        ascending(entries(a)),
    ensures
        knows(a, t) && tied_to(a.topic_metadata@[t], relation) == Some(k) ==> {
            let r = lookup(latest_by(entries(a), relation), k);
            r is Some && (r->0 == t || topic_before(t, r->0))
        },
        lookup(latest_by(entries(a), relation), k) is Some ==> {
            let r = lookup(latest_by(entries(a), relation), k)->0;
            knows(a, r) && tied_to(a.topic_metadata@[r], relation) == Some(k)
        },
{
    let s = entries(a);
    latest_is_the_last_tied(s, relation, k);
    let l = tied_topics(s, relation, k);
    lemma_tied(s, relation, k, t);
    if l.len() > 0 {
        let r = l.last();
        lemma_tied(s, relation, k, r);
        assert(l[l.len() - 1] == r);
        assert(l.contains(r));
        let i = choose|i: int|
            0 <= i < s.len() && (#[trigger] s[i]).0 == r && tied_to(s[i].1, relation) == Some(k);
        lemma_index_of(s, i);
    }
    if knows(a, t) && tied_to(a.topic_metadata@[t], relation) == Some(k) {
        let i = lemma_entry(a, t);
        assert(s[i].0 == t);
        let j = choose|j: int| 0 <= j < l.len() && l[j] == t;
        if j < l.len() - 1 {
            lemma_tied_ascend(s, relation, k, j, l.len() - 1);
        }
    }
}

proof fn lemma_tied_ascend(
    some: Seq<(Topic, TopicMetadata)>,
    relation: Relation,
    k: Topic,
    i: int,
    j: int,
)
    requires
        ascending(some),
        0 <= i < j < tied_topics(some, relation, k).len(),
    ensures
        topic_before(tied_topics(some, relation, k)[i], tied_topics(some, relation, k)[j]),
    decreases some.len(),
{
    if some.len() > 0 {
        let rest = some.drop_last();
        let n = some.len() - 1;
        let d = tied_topics(rest, relation, k);
        let l = tied_topics(some, relation, k);
        assert(forall|q: int| 0 <= q < n ==> #[trigger] rest[q] == some[q]);
        assert(ascending(rest));
        if j < d.len() {
            lemma_tied_ascend(rest, relation, k, i, j);
        } else {
            assert(l[j] == some[n].0);
            assert(d.contains(d[i]));
            lemma_tied(rest, relation, k, d[i]);
            let q = choose|q: int|
                0 <= q < rest.len() && (#[trigger] rest[q]).0 == d[i] && tied_to(
                    rest[q].1,
                    relation,
                ) == Some(k);
            assert(<Topic as crate::ordered::MapKey>::before(some[q].0@, some[n].0@));
        }
    }
}

/// After a rebuild, the purpose of a subject is a purpose that is on it, and no later
/// one is. A subject with a purpose has one.
pub proof fn subjects_have_their_latest_purpose(a: &AuditData, b: &AuditData, k: Topic, t: Topic)
    requires
        is_rebuilt(a, b),
        tables_in_order(a, b),
    ensures
        (knows(a, t) && a.topic_metadata@[t] is FunctionalPurposeTopic
            && a.topic_metadata@[t]->FunctionalPurposeTopic_subject_topic == k)
            ==> b.subject_purposes@.dom().contains(k) && (b.subject_purposes@[k] == t
            || topic_before(t, b.subject_purposes@[k])),
        b.subject_purposes@.dom().contains(k) ==> {
            let r = b.subject_purposes@[k];
            knows(a, r) && a.topic_metadata@[r] is FunctionalPurposeTopic
                && a.topic_metadata@[r]->FunctionalPurposeTopic_subject_topic == k
        },
{
    lemma_last_tied(a, Relation::Purpose, k, t);
}

/// After a rebuild, the placement rationale of a subject is one that is on it, and no
/// later one is. A subject with a placement rationale has one.
pub proof fn subjects_have_their_latest_placement(a: &AuditData, b: &AuditData, k: Topic, t: Topic)
    requires
        is_rebuilt(a, b),
        tables_in_order(a, b),
    ensures
        (knows(a, t) && a.topic_metadata@[t] is PlacementRationaleTopic
            && a.topic_metadata@[t]->PlacementRationaleTopic_subject_topic == k)
            ==> b.subject_placements@.dom().contains(k) && (b.subject_placements@[k] == t
            || topic_before(t, b.subject_placements@[k])),
        b.subject_placements@.dom().contains(k) ==> {
            let r = b.subject_placements@[k];
            knows(a, r) && a.topic_metadata@[r] is PlacementRationaleTopic
                && a.topic_metadata@[r]->PlacementRationaleTopic_subject_topic == k
        },
{
    lemma_last_tied(a, Relation::Placement, k, t);
}

/// A rebuild changes nothing but what it derives.
pub proof fn sources_stay(a: &AuditData, b: &AuditData)
    requires
        is_rebuilt(a, b),
    ensures
        *b == (AuditData {
            section_requirements: b.section_requirements,
            member_behaviors: b.member_behaviors,
            declaration_semantics: b.declaration_semantics,
            subject_purposes: b.subject_purposes,
            subject_placements: b.subject_placements,
            subject_conditions: b.subject_conditions,
            topic_context: b.topic_context,
            expanded_topic_context: b.expanded_topic_context,
            ..*a
        }),
{
}

/// A reference of the project alone, at the place that its number gives.
pub open spec fn is_numbered(r: RefView) -> bool {
    &&& r.kind == RefKind::Project
    &&& r.mentions.len() == 0
    &&& r.sort_key == Some(number_of(r.topic) as usize)
}

/// After a rebuild, the contexts of a feature count as in scope. Its own comes first,
/// with itself first in it. Everything else stands at the place that its number gives.
pub proof fn contexts_of_features_are_numbered(a: &AuditData, b: &AuditData, f: Topic, i: int)
    requires
        is_rebuilt(a, b),
        tables_in_order(a, b),
        knows(a, f),
        a.topic_metadata@[f] is FeatureTopic,
        0 <= i < b.topic_context@[f]@.len(),
    ensures
        ({
            let c = b.topic_context@[f]@[i]@;
            &&& c.is_in_scope
            &&& i == 0 ==> c.sort_key == Some(0usize) && c.references[0].sort_key == Some(0usize)
                && c.references[0].kind == RefKind::Project && forall|k: int|
                0 < k < c.references.len() ==> is_numbered(#[trigger] c.references[k])
            &&& i > 0 ==> c.sort_key == Some(number_of(c.scope) as usize) && c.references.len() == 0
                && forall|j: int|
                0 <= j < c.nested.len() ==> (#[trigger] c.nested[j]).sort_key == Some(
                    number_of(c.nested[j].subscope) as usize,
                )
        }),
{
    lemma_built(a, b, f);
    let meta = entries(a);
    let src = sources_of(a);
    let list = list_for(src.behavior_links, f);
    let groups = members_by_contract(meta, behaviors_by_member(meta, list));
    let views = context_views(b.topic_context@[f]@);
    assert(views[i] == b.topic_context@[f]@[i]@);
    if i > 0 {
        assert(views[i] == contract_contexts(groups)[i - 1]);
        let members = behaviors_by_member(meta, list);
        lemma_nested_keys(meta, members);
        assert(views[i].nested == groups[i - 1].1);
    }
}

proof fn lemma_nested_keys(meta: Seq<(Topic, TopicMetadata)>, members: Seq<(Topic, Seq<Topic>)>)
    ensures
        ascending(members_by_contract(meta, members)),
        forall|g: int, j: int|
            0 <= g < members_by_contract(meta, members).len() && 0 <= j
                < members_by_contract(meta, members)[g].1.len()
                ==> (#[trigger] members_by_contract(meta, members)[g].1[j]).sort_key == Some(
                number_of(members_by_contract(meta, members)[g].1[j].subscope) as usize,
            ),
    decreases members.len(),
{
    if members.len() > 0 {
        let rest = members.drop_last();
        lemma_nested_keys(meta, rest);
        let before = members_by_contract(meta, rest);
        let (mt, behaviors) = members.last();
        let c = crate::domain::features::contract_of(meta, mt);
        let n = crate::domain::features::member_context(mt, behaviors);
        let list = crate::domain::features::nested_for(before, c).push(n);
        let after = members_by_contract(meta, members);
        lemma_lookup_put(before, c, list, c);
        assert forall|g: int, j: int|
            0 <= g < after.len() && 0 <= j < after[g].1.len() implies (
        #[trigger] after[g].1[j]).sort_key == Some(number_of(after[g].1[j].subscope) as usize) by {
            let k = after[g].0;
            lemma_index_of(after, g);
            lemma_lookup_put(before, c, list, k);
            if k == c {
                assert(after[g].1 == list);
                if j < list.len() - 1 {
                    let h = index_of(before, c);
                    assert(before[h].1[j] == list[j]);
                }
            } else {
                let h = index_of(before, k);
                assert(has_key(before, k));
                assert(before[h].1 == after[g].1);
                assert(before[h].1[j] == after[g].1[j]);
            }
        }
    }
}

/// After a rebuild, what else is shown counts as in scope and stands at the place that
/// its number gives. An invariant stands where its threat does.
pub proof fn other_contexts_are_numbered(a: &AuditData, b: &AuditData, t: Topic)
    requires
        is_rebuilt(a, b),
        tables_in_order(a, b),
        knows(a, t),
        a.topic_metadata@[t] is ThreatTopic || a.topic_metadata@[t] is InvariantTopic
            || a.topic_metadata@[t] is BehaviorTopic
            || a.topic_metadata@[t] is FunctionalSemanticTopic,
    ensures
        ({
            let c = b.topic_context@[t]@[0]@;
            &&& c.is_in_scope
            &&& forall|k: int|
                0 <= k < c.references.len() ==> is_numbered(#[trigger] c.references[k])
            &&& !(a.topic_metadata@[t] is InvariantTopic) ==> c.sort_key == Some(
                number_of(t) as usize,
            )
            &&& a.topic_metadata@[t] matches TopicMetadata::InvariantTopic { threat_topic, .. }
                ==> c.sort_key == Some(number_of(threat_topic) as usize)
            &&& forall|k: int, j: int|
                0 <= k < c.nested.len() && 0 <= j < c.nested[k].children.len() ==> (
                #[trigger] c.nested[k].children[j]) is Reference && is_numbered(
                    c.nested[k].children[j]->Reference_0,
                )
        }),
{
    lemma_built(a, b, t);
    let views = context_views(b.topic_context@[t]@);
    assert(views[0] == b.topic_context@[t]@[0]@);
}

} // verus!
