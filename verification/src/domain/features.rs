//! The indexes and contexts that derive from the topics of an audit.
use crate::domain::audit::{entries, AuditData, Requirement, Threat};
use crate::domain::context::{append_contexts, child_views, context_views, copy_contexts};
use crate::domain::context::{lemma_child_views, merge_context_groups, merged_contexts};
use crate::domain::context::{nested_views, project_ref, ref_views, reference_child, sort_key_of};
use crate::domain::context::{topic_key, ChildView, ContextView, NestedSourceContext, NestedView};
use crate::domain::context::{RefView, Reference, SourceChild, SourceContext};
use crate::domain::index::{index_lists, lemma_index_list, lemma_mapped, lemma_mapped_lookup};
use crate::domain::index::{lemma_mapped_put, lemma_mapped_without, lemma_put_after_without};
use crate::domain::index::{list_at, list_for, list_once_at, listed_at, listed_once_at, mapped};
use crate::domain::index::TopicIndex;
use crate::domain::lists::{push_all_new, push_new, with_topic, with_topics};
use crate::domain::metadata::TopicMetadata;
use crate::domain::scope::{Scope, ScopeView};
use crate::domain::topic::Topic;
use crate::ordered::{ascending, lookup, put, without, OrderedMap};
use vstd::prelude::*;

verus! {

/// What ties a topic to the topic it belongs to.
#[derive(Debug, Clone, Copy, PartialEq, Eq, Structural)]
pub enum Relation {
    /// A requirement to its section.
    Section,
    /// A behavior to its member.
    Member,
    /// A semantic to its declaration.
    Declaration,
    /// A purpose to its subject.
    Purpose,
    /// A placement rationale to its subject.
    Placement,
    /// A condition to its subject.
    Condition,
}

/// The topic to which `m` is tied.
pub open spec fn tied_to(m: TopicMetadata, relation: Relation) -> Option<Topic> {
    match (relation, m) {
        (Relation::Section, TopicMetadata::RequirementTopic { section_topic, .. }) => Some(
            section_topic,
        ),
        (Relation::Member, TopicMetadata::BehaviorTopic { member_topic, .. }) => Some(
            member_topic,
        ),
        (
            Relation::Declaration,
            TopicMetadata::FunctionalSemanticTopic { declaration_topic, .. },
        ) => Some(declaration_topic),
        (Relation::Purpose, TopicMetadata::FunctionalPurposeTopic { subject_topic, .. }) => Some(
            subject_topic,
        ),
        (
            Relation::Placement,
            TopicMetadata::PlacementRationaleTopic { subject_topic, .. },
        ) => Some(subject_topic),
        (Relation::Condition, TopicMetadata::ConditionTopic { subject_topic, .. }) => Some(
            subject_topic,
        ),
        _ => None,
    }
}

fn tie(m: &TopicMetadata, relation: Relation) -> (r: Option<Topic>)
    ensures
        r == tied_to(*m, relation),
{
    match (relation, m) {
        (Relation::Section, TopicMetadata::RequirementTopic { section_topic, .. }) => Some(
            *section_topic,
        ),
        (Relation::Member, TopicMetadata::BehaviorTopic { member_topic, .. }) => Some(
            *member_topic,
        ),
        (
            Relation::Declaration,
            TopicMetadata::FunctionalSemanticTopic { declaration_topic, .. },
        ) => Some(*declaration_topic),
        (Relation::Purpose, TopicMetadata::FunctionalPurposeTopic { subject_topic, .. }) => Some(
            *subject_topic,
        ),
        (
            Relation::Placement,
            TopicMetadata::PlacementRationaleTopic { subject_topic, .. },
        ) => Some(*subject_topic),
        (Relation::Condition, TopicMetadata::ConditionTopic { subject_topic, .. }) => Some(
            *subject_topic,
        ),
        _ => None,
    }
}

/// The topics of `some` by the topic to which they are tied.
pub open spec fn index_by(some: Seq<(Topic, TopicMetadata)>, relation: Relation) -> Seq<
    (Topic, Seq<Topic>),
>
    decreases some.len(),
{
    if some.len() == 0 {
        seq![]
    } else {
        let before = index_by(some.drop_last(), relation);
        match tied_to(some.last().1, relation) {
            Some(k) => listed_at(before, k, some.last().0),
            None => before,
        }
    }
}

/// The last topic of `some` that is tied to each topic.
pub open spec fn latest_by(some: Seq<(Topic, TopicMetadata)>, relation: Relation) -> Seq<
    (Topic, Topic),
>
    decreases some.len(),
{
    if some.len() == 0 {
        seq![]
    } else {
        let before = latest_by(some.drop_last(), relation);
        match tied_to(some.last().1, relation) {
            Some(k) => put(before, k, some.last().0),
            None => before,
        }
    }
}

fn build_index(meta: &OrderedMap<Topic, TopicMetadata>, relation: Relation) -> (r: TopicIndex)
    ensures
        index_lists(r.pairs()) == index_by(meta.pairs(), relation),
{
    let ghost s = meta.pairs();
    let n: usize = meta.len();
    let mut r: TopicIndex = OrderedMap::new();
    assert(index_lists(r.pairs()) =~= seq![]);
    for i in 0..n
        invariant
            s == meta.pairs(),
            n == s.len(),
            index_lists(r.pairs()) == index_by(s.take(i as int), relation),
    {
        assert(s.take(i + 1).drop_last() =~= s.take(i as int));
        match tie(meta.value_at(i), relation) {
            Some(k) => {
                list_at(&mut r, k, *meta.key_at(i));
            },
            None => {},
        }
    }
    assert(s.take(n as int) =~= s);
    r
}

fn build_latest(meta: &OrderedMap<Topic, TopicMetadata>, relation: Relation) -> (r: OrderedMap<
    Topic,
    Topic,
>)
    ensures
        r.pairs() == latest_by(meta.pairs(), relation),
{
    let ghost s = meta.pairs();
    let n: usize = meta.len();
    let mut r: OrderedMap<Topic, Topic> = OrderedMap::new();
    for i in 0..n
        invariant
            s == meta.pairs(),
            n == s.len(),
            r.pairs() == latest_by(s.take(i as int), relation),
    {
        assert(s.take(i + 1).drop_last() =~= s.take(i as int));
        match tie(meta.value_at(i), relation) {
            Some(k) => {
                r.insert(k, *meta.key_at(i));
            },
            None => {},
        }
    }
    assert(s.take(n as int) =~= s);
    r
}

/// `index` with requirement `rt` listed for each of `docs`.
pub open spec fn listed_for_docs(
    index: Seq<(Topic, Seq<Topic>)>,
    docs: Seq<Topic>,
    rt: Topic,
) -> Seq<(Topic, Seq<Topic>)>
    decreases docs.len(),
{
    if docs.len() == 0 {
        index
    } else {
        listed_at(listed_for_docs(index, docs.drop_last(), rt), docs.last(), rt)
    }
}

/// The requirements that each documentation topic informed.
pub open spec fn requirements_by_doc(reqs: Seq<(Topic, Requirement)>) -> Seq<(Topic, Seq<Topic>)>
    decreases reqs.len(),
{
    if reqs.len() == 0 {
        seq![]
    } else {
        listed_for_docs(
            requirements_by_doc(reqs.drop_last()),
            reqs.last().1.documentation_topics@,
            reqs.last().0,
        )
    }
}

fn build_requirements_by_doc(reqs: &OrderedMap<Topic, Requirement>) -> (r: TopicIndex)
    ensures
        index_lists(r.pairs()) == requirements_by_doc(reqs.pairs()),
{
    let ghost s = reqs.pairs();
    let n: usize = reqs.len();
    let mut r: TopicIndex = OrderedMap::new();
    assert(index_lists(r.pairs()) =~= seq![]);
    for i in 0..n
        invariant
            s == reqs.pairs(),
            n == s.len(),
            index_lists(r.pairs()) == requirements_by_doc(s.take(i as int)),
    {
        assert(s.take(i + 1).drop_last() =~= s.take(i as int));
        let rt = *reqs.key_at(i);
        let docs = &reqs.value_at(i).documentation_topics;
        let ghost before = index_lists(r.pairs());
        assert(docs@.take(0) =~= seq![]);
        for j in 0..docs.len()
            invariant
                index_lists(r.pairs()) == listed_for_docs(before, docs@.take(j as int), rt),
        {
            assert(docs@.take(j + 1).drop_last() =~= docs@.take(j as int));
            list_at(&mut r, docs[j], rt);
        }
        assert(docs@.take(docs@.len() as int) =~= docs@);
    }
    assert(s.take(n as int) =~= s);
    r
}

/// `index` with feature `ft` listed for each of `reqs`.
pub open spec fn listed_for_reqs(
    index: Seq<(Topic, Seq<Topic>)>,
    reqs: Seq<Topic>,
    ft: Topic,
) -> Seq<(Topic, Seq<Topic>)>
    decreases reqs.len(),
{
    if reqs.len() == 0 {
        index
    } else {
        listed_once_at(listed_for_reqs(index, reqs.drop_last(), ft), reqs.last(), ft)
    }
}

/// The features of each linked topic.
pub open spec fn features_by_link(links: Seq<(Topic, Seq<Topic>)>) -> Seq<(Topic, Seq<Topic>)>
    decreases links.len(),
{
    if links.len() == 0 {
        seq![]
    } else {
        listed_for_reqs(features_by_link(links.drop_last()), links.last().1, links.last().0)
    }
}

fn build_features_by_link(links: &TopicIndex) -> (r: TopicIndex)
    ensures
        index_lists(r.pairs()) == features_by_link(index_lists(links.pairs())),
{
    let n: usize = links.len();
    let ghost s = index_lists(links.pairs());
    proof {
        lemma_mapped::<Topic, Vec<Topic>, Seq<Topic>>(links.pairs(), |v: Vec<Topic>| v@);
    }
    let mut r: TopicIndex = OrderedMap::new();
    assert(index_lists(r.pairs()) =~= seq![]);
    for i in 0..n
        invariant
            n == links.pairs().len(),
            s == index_lists(links.pairs()),
            n == s.len(),
            forall|k: int|
                0 <= k < n ==> #[trigger] s[k] == (links.pairs()[k].0, links.pairs()[k].1@),
            index_lists(r.pairs()) == features_by_link(s.take(i as int)),
    {
        assert(s.take(i + 1).drop_last() =~= s.take(i as int));
        let ft = *links.key_at(i);
        let reqs = links.value_at(i);
        assert(s[i as int] == (ft, reqs@));
        let ghost before = index_lists(r.pairs());
        assert(reqs@.take(0) =~= seq![]);
        for j in 0..reqs.len()
            invariant
                index_lists(r.pairs()) == listed_for_reqs(before, reqs@.take(j as int), ft),
        {
            assert(reqs@.take(j + 1).drop_last() =~= reqs@.take(j as int));
            list_once_at(&mut r, reqs[j], ft);
        }
        assert(reqs@.take(reqs@.len() as int) =~= reqs@);
    }
    assert(s.take(n as int) =~= s);
    r
}

/// The features of all of `reqs`, each once.
pub open spec fn features_of_all(
    by_req: Seq<(Topic, Seq<Topic>)>,
    reqs: Seq<Topic>,
) -> Seq<Topic>
    decreases reqs.len(),
{
    if reqs.len() == 0 {
        seq![]
    } else {
        with_topics(features_of_all(by_req, reqs.drop_last()), list_for(by_req, reqs.last()))
    }
}

/// The features whose requirements a documentation topic informed.
pub open spec fn features_of_doc(
    by_doc: Seq<(Topic, Seq<Topic>)>,
    by_req: Seq<(Topic, Seq<Topic>)>,
    doc: Topic,
) -> Seq<Topic> {
    features_of_all(by_req, list_for(by_doc, doc))
}

fn collect_features_of_doc(by_doc: &TopicIndex, by_req: &TopicIndex, doc: &Topic) -> (r: Vec<
    Topic,
>)
    ensures
        r@ == features_of_doc(index_lists(by_doc.pairs()), index_lists(by_req.pairs()), *doc),
{
    let _ = by_doc.len();
    let _ = by_req.len();
    let ghost q = index_lists(by_req.pairs());
    proof {
        lemma_index_list(by_doc.pairs(), *doc);
    }
    let mut r: Vec<Topic> = Vec::new();
    match by_doc.get(doc) {
        None => {},
        Some(reqs) => {
            assert(reqs@.take(0) =~= seq![]);
            for i in 0..reqs.len()
                invariant
                    ascending(by_req.pairs()),
                    q == index_lists(by_req.pairs()),
                    r@ == features_of_all(q, reqs@.take(i as int)),
            {
                assert(reqs@.take(i + 1).drop_last() =~= reqs@.take(i as int));
                proof {
                    lemma_index_list(by_req.pairs(), reqs@[i as int]);
                }
                match by_req.get(&reqs[i]) {
                    Some(features) => {
                        push_all_new(&mut r, features);
                    },
                    None => {
                        assert(with_topics(r@, seq![]) == r@);
                    },
                }
            }
            assert(reqs@.take(reqs@.len() as int) =~= reqs@);
        },
    }
    r
}

/// The context of a topic that refers to itself alone.
pub open spec fn self_context(t: Topic) -> ContextView {
    ContextView {
        scope: t,
        sort_key: topic_key(t),
        is_in_scope: true,
        references: seq![project_ref(t, topic_key(t))],
        nested: seq![],
    }
}

fn build_self_context(t: Topic) -> (r: SourceContext)
    ensures
        r@ == self_context(t),
{
    let key = sort_key_of(&t);
    let references = vec![Reference::project_reference(t, key)];
    let r = SourceContext::new_with_scope_references(t, key, true, references);
    assert(r@.references =~= seq![project_ref(t, topic_key(t))]);
    r
}

/// What a map of contexts holds.
pub open spec fn context_lists(s: Seq<(Topic, Vec<SourceContext>)>) -> Seq<
    (Topic, Seq<ContextView>),
> {
    mapped(s, |v: Vec<SourceContext>| context_views(v@))
}

pub open spec fn contexts_for(s: Seq<(Topic, Seq<ContextView>)>, t: Topic) -> Seq<ContextView> {
    match lookup(s, t) {
        Some(c) => c,
        None => seq![],
    }
}

proof fn lemma_contexts_put(s: Seq<(Topic, Vec<SourceContext>)>, k: Topic, v: Vec<SourceContext>)
    requires
        ascending(s),
    ensures
        context_lists(put(s, k, v)) == put(context_lists(s), k, context_views(v@)),
{
    lemma_mapped_put(s, |v: Vec<SourceContext>| context_views(v@), k, v);
}

proof fn lemma_contexts_without(s: Seq<(Topic, Vec<SourceContext>)>, k: Topic)
    requires
        ascending(s),
    ensures
        context_lists(without(s, k)) == without(context_lists(s), k),
{
    lemma_mapped_without(s, |v: Vec<SourceContext>| context_views(v@), k);
}

proof fn lemma_contexts_lookup(s: Seq<(Topic, Vec<SourceContext>)>, k: Topic)
    requires
        ascending(s),
    ensures
        contexts_for(context_lists(s), k) == match lookup(s, k) {
            Some(v) => context_views(v@),
            None => seq![],
        },
{
    lemma_mapped_lookup(s, |v: Vec<SourceContext>| context_views(v@), k);
}

/// `map` with the contexts of `t` replaced: no contexts, no entry.
pub open spec fn with_contexts(
    map: Seq<(Topic, Seq<ContextView>)>,
    t: Topic,
    contexts: Seq<ContextView>,
) -> Seq<(Topic, Seq<ContextView>)> {
    if contexts.len() == 0 {
        without(map, t)
    } else {
        put(map, t, contexts)
    }
}

fn set_contexts(
    map: &mut OrderedMap<Topic, Vec<SourceContext>>,
    t: Topic,
    contexts: Vec<SourceContext>,
)
    ensures
        context_lists(final(map).pairs()) == with_contexts(
            context_lists(old(map).pairs()),
            t,
            context_views(contexts@),
        ),
{
    let _ = map.len();
    assert(context_views(contexts@).len() == contexts@.len());
    proof {
        lemma_contexts_put(map.pairs(), t, contexts);
        lemma_contexts_without(map.pairs(), t);
    }
    if contexts.len() == 0 {
        let _ = map.remove(&t);
    } else {
        map.insert(t, contexts);
    }
}

/// One context for each feature.
pub open spec fn feature_contexts(features: Seq<Topic>) -> Seq<ContextView> {
    features.map_values(|ft: Topic| self_context(ft))
}

/// The related contexts after the documentation topics of `some` got theirs: the
/// features whose requirements they informed.
pub open spec fn docs_expanded(
    some: Seq<(Topic, TopicMetadata)>,
    by_doc: Seq<(Topic, Seq<Topic>)>,
    by_req: Seq<(Topic, Seq<Topic>)>,
    start: Seq<(Topic, Seq<ContextView>)>,
) -> Seq<(Topic, Seq<ContextView>)>
    decreases some.len(),
{
    if some.len() == 0 {
        start
    } else {
        let before = docs_expanded(some.drop_last(), by_doc, by_req, start);
        let (t, m) = some.last();
        if m is TitledTopic || m is UnnamedTopic {
            with_contexts(before, t, feature_contexts(features_of_doc(by_doc, by_req, t)))
        } else {
            before
        }
    }
}

fn expand_docs(
    meta: &OrderedMap<Topic, TopicMetadata>,
    by_doc: &TopicIndex,
    by_req: &TopicIndex,
    expanded: &mut OrderedMap<Topic, Vec<SourceContext>>,
)
    ensures
        context_lists(final(expanded).pairs()) == docs_expanded(
            meta.pairs(),
            index_lists(by_doc.pairs()),
            index_lists(by_req.pairs()),
            context_lists(old(expanded).pairs()),
        ),
{
    let ghost s = meta.pairs();
    let ghost d = index_lists(by_doc.pairs());
    let ghost q = index_lists(by_req.pairs());
    let ghost start = context_lists(expanded.pairs());
    let n: usize = meta.len();
    for i in 0..n
        invariant
            s == meta.pairs(),
            n == s.len(),
            d == index_lists(by_doc.pairs()),
            q == index_lists(by_req.pairs()),
            context_lists(expanded.pairs()) == docs_expanded(s.take(i as int), d, q, start),
    {
        assert(s.take(i + 1).drop_last() =~= s.take(i as int));
        let t = *meta.key_at(i);
        let m = meta.value_at(i);
        if matches!(m, TopicMetadata::TitledTopic { .. } | TopicMetadata::UnnamedTopic { .. }) {
            let features = collect_features_of_doc(by_doc, by_req, &t);
            let mut contexts: Vec<SourceContext> = Vec::new();
            for j in 0..features.len()
                invariant
                    contexts@.len() == j,
                    forall|k: int|
                        0 <= k < j ==> (#[trigger] contexts@[k])@ == self_context(features@[k]),
            {
                contexts.push(build_self_context(features[j]));
            }
            assert(context_views(contexts@) =~= feature_contexts(features@));
            set_contexts(expanded, t, contexts);
        }
    }
    assert(s.take(n as int) =~= s);
}

/// A reference to a topic, ordered by its number.
pub open spec fn numbered_ref(t: Topic) -> RefView {
    project_ref(t, topic_key(t))
}

pub open spec fn numbered_refs(list: Seq<Topic>) -> Seq<RefView> {
    list.map_values(|t: Topic| numbered_ref(t))
}

/// References as the children of a nested context.
pub open spec fn numbered_children(list: Seq<Topic>) -> Seq<ChildView> {
    list.map_values(|t: Topic| ChildView::Reference(numbered_ref(t)))
}

fn build_numbered_children(list: &Vec<Topic>) -> (r: Vec<SourceChild>)
    ensures
        child_views(r@) == numbered_children(list@),
{
    let mut r: Vec<SourceChild> = Vec::new();
    for i in 0..list.len()
        invariant
            r@.len() == i,
            forall|k: int|
                0 <= k < i ==> (#[trigger] r@[k])@ == ChildView::Reference(numbered_ref(list@[k])),
    {
        let t = list[i];
        r.push(reference_child(Reference::project_reference(t, sort_key_of(&t))));
    }
    proof {
        lemma_child_views(r@);
        assert forall|k: int| 0 <= k < r@.len() implies #[trigger] child_views(r@)[k]
            == numbered_children(list@)[k] by {
            assert(r@[k]@ == ChildView::Reference(numbered_ref(list@[k])));
        }
        assert(child_views(r@) =~= numbered_children(list@));
    }
    r
}

/// What the contexts of derived topics are built from: the metadata, the
/// requirements and behaviors of each feature, and the invariants of each threat.
pub ghost struct Sources {
    pub meta: Seq<(Topic, TopicMetadata)>,
    pub requirement_links: Seq<(Topic, Seq<Topic>)>,
    pub behavior_links: Seq<(Topic, Seq<Topic>)>,
    pub threats: Seq<(Topic, Threat)>,
}

pub open spec fn sources_of(a: &AuditData) -> Sources {
    Sources {
        meta: entries(a),
        requirement_links: index_lists(a.feature_requirement_links.pairs()),
        behavior_links: index_lists(a.feature_behavior_links.pairs()),
        threats: a.threats.pairs(),
    }
}

/// The member of a behavior.
pub open spec fn member_of(meta: Seq<(Topic, TopicMetadata)>, bt: Topic) -> Option<Topic> {
    match lookup(meta, bt) {
        Some(TopicMetadata::BehaviorTopic { member_topic, .. }) => Some(member_topic),
        _ => None,
    }
}

fn find_member(meta: &OrderedMap<Topic, TopicMetadata>, bt: &Topic) -> (r: Option<Topic>)
    ensures
        r == member_of(meta.pairs(), *bt),
{
    match meta.get(bt) {
        Some(TopicMetadata::BehaviorTopic { member_topic, .. }) => Some(*member_topic),
        _ => None,
    }
}

/// The behaviors of `list` by member.
pub open spec fn behaviors_by_member(
    meta: Seq<(Topic, TopicMetadata)>,
    list: Seq<Topic>,
) -> Seq<(Topic, Seq<Topic>)>
    decreases list.len(),
{
    if list.len() == 0 {
        seq![]
    } else {
        let before = behaviors_by_member(meta, list.drop_last());
        match member_of(meta, list.last()) {
            Some(mt) => listed_at(before, mt, list.last()),
            None => before,
        }
    }
}

/// The contract of a member: the component that holds it, or else itself.
pub open spec fn contract_of(meta: Seq<(Topic, TopicMetadata)>, mt: Topic) -> Topic {
    match lookup(meta, mt) {
        Some(m) => match m.scope_view() {
            ScopeView::Component { component, .. } => component,
            _ => mt,
        },
        None => mt,
    }
}

fn find_contract(meta: &OrderedMap<Topic, TopicMetadata>, mt: &Topic) -> (r: Topic)
    ensures
        r == contract_of(meta.pairs(), *mt),
{
    match meta.get(mt) {
        Some(m) => match m.scope() {
            Scope::Component { component, .. } => *component,
            _ => *mt,
        },
        None => *mt,
    }
}

/// The nested context of a member with its behaviors.
pub open spec fn member_context(mt: Topic, behaviors: Seq<Topic>) -> NestedView {
    NestedView {
        subscope: mt,
        sort_key: topic_key(mt),
        children: numbered_children(behaviors),
    }
}

pub open spec fn nested_for(s: Seq<(Topic, Seq<NestedView>)>, k: Topic) -> Seq<NestedView> {
    match lookup(s, k) {
        Some(n) => n,
        None => seq![],
    }
}

/// The members by contract.
pub open spec fn members_by_contract(
    meta: Seq<(Topic, TopicMetadata)>,
    members: Seq<(Topic, Seq<Topic>)>,
) -> Seq<(Topic, Seq<NestedView>)>
    decreases members.len(),
{
    if members.len() == 0 {
        seq![]
    } else {
        let before = members_by_contract(meta, members.drop_last());
        let (mt, behaviors) = members.last();
        let c = contract_of(meta, mt);
        put(before, c, nested_for(before, c).push(member_context(mt, behaviors)))
    }
}

/// The context of a contract with its members.
pub open spec fn contract_context(c: Topic, nested: Seq<NestedView>) -> ContextView {
    ContextView {
        scope: c,
        sort_key: topic_key(c),
        is_in_scope: true,
        references: seq![],
        nested,
    }
}

pub open spec fn contract_contexts(groups: Seq<(Topic, Seq<NestedView>)>) -> Seq<ContextView> {
    groups.map_values(|g: (Topic, Seq<NestedView>)| contract_context(g.0, g.1))
}

/// The contexts of a feature: the feature with its requirements, then its
/// behaviors by contract and member.
pub open spec fn contexts_of_feature(src: Sources, ft: Topic) -> Seq<ContextView> {
    seq![
        ContextView {
            scope: ft,
            sort_key: Some(0),
            is_in_scope: true,
            references: seq![project_ref(ft, Some(0))] + numbered_refs(
                list_for(src.requirement_links, ft),
            ),
            nested: seq![],
        },
    ] + contract_contexts(
        members_by_contract(
            src.meta,
            behaviors_by_member(src.meta, list_for(src.behavior_links, ft)),
        ),
    )
}

/// The invariants of a threat, nested under it.
pub open spec fn invariants_under(threats: Seq<(Topic, Threat)>, tt: Topic) -> Seq<NestedView> {
    match lookup(threats, tt) {
        Some(threat) => if threat.invariant_topics@.len() > 0 {
            seq![member_context(tt, threat.invariant_topics@)]
        } else {
            seq![]
        },
        None => seq![],
    }
}

/// The context of a requirement: the features that it is linked to.
pub open spec fn requirement_context(t: Topic, parents: Seq<Topic>) -> ContextView {
    ContextView {
        scope: t,
        sort_key: topic_key(t),
        is_in_scope: true,
        references: numbered_refs(parents),
        nested: seq![],
    }
}

/// The contexts that are built for a topic. Topics of other kinds get none, and so
/// do requirements that are linked to no feature.
pub open spec fn built_contexts(src: Sources, t: Topic, m: TopicMetadata) -> Option<
    Seq<ContextView>,
> {
    match m {
        TopicMetadata::FeatureTopic { .. } => Some(contexts_of_feature(src, t)),
        TopicMetadata::RequirementTopic { .. } => {
            let parents = list_for(features_by_link(src.requirement_links), t);
            if parents.len() > 0 {
                Some(seq![requirement_context(t, parents)])
            } else {
                None
            }
        },
        TopicMetadata::BehaviorTopic { .. } => Some(seq![self_context(t)]),
        TopicMetadata::FunctionalSemanticTopic { .. } => Some(seq![self_context(t)]),
        TopicMetadata::ThreatTopic { subject_topic, .. } => Some(
            seq![
                ContextView {
                    scope: t,
                    sort_key: topic_key(t),
                    is_in_scope: true,
                    references: seq![numbered_ref(subject_topic), numbered_ref(t)],
                    nested: invariants_under(src.threats, t),
                },
            ],
        ),
        TopicMetadata::InvariantTopic { threat_topic, .. } => Some(
            seq![
                ContextView {
                    scope: t,
                    sort_key: topic_key(threat_topic),
                    is_in_scope: true,
                    references: seq![numbered_ref(threat_topic)],
                    nested: seq![],
                },
            ],
        ),
        _ => None,
    }
}

/// The contexts after the topics of `some` got the ones built for them.
pub open spec fn contexts_built(
    src: Sources,
    some: Seq<(Topic, TopicMetadata)>,
    start: Seq<(Topic, Seq<ContextView>)>,
) -> Seq<(Topic, Seq<ContextView>)>
    decreases some.len(),
{
    if some.len() == 0 {
        start
    } else {
        let before = contexts_built(src, some.drop_last(), start);
        let (t, m) = some.last();
        match built_contexts(src, t, m) {
            Some(c) => put(before, t, c),
            None => before,
        }
    }
}

/// Puts a reference to each topic of `list` at the end of `refs`.
fn push_numbered_refs(refs: &mut Vec<Reference>, list: &Vec<Topic>)
    ensures
        ref_views(final(refs)@) == ref_views(old(refs)@) + numbered_refs(list@),
{
    let ghost start = ref_views(refs@);
    let n: usize = refs.len();
    for i in 0..list.len()
        invariant
            n == start.len(),
            refs@.len() == n + i,
            forall|k: int| 0 <= k < n ==> (#[trigger] refs@[k])@ == start[k],
            forall|k: int|
                n <= k < n + i ==> (#[trigger] refs@[k])@ == numbered_ref(list@[k - n]),
    {
        let t = list[i];
        refs.push(Reference::project_reference(t, sort_key_of(&t)));
    }
    assert(ref_views(refs@) =~= start + numbered_refs(list@));
}

fn build_behaviors_by_member(
    meta: &OrderedMap<Topic, TopicMetadata>,
    list: &Vec<Topic>,
) -> (r: TopicIndex)
    ensures
        index_lists(r.pairs()) == behaviors_by_member(meta.pairs(), list@),
{
    let mut r: TopicIndex = OrderedMap::new();
    assert(index_lists(r.pairs()) =~= seq![]);
    assert(list@.take(0) =~= seq![]);
    for i in 0..list.len()
        invariant
            index_lists(r.pairs()) == behaviors_by_member(meta.pairs(), list@.take(i as int)),
    {
        assert(list@.take(i + 1).drop_last() =~= list@.take(i as int));
        let bt = list[i];
        match find_member(meta, &bt) {
            Some(mt) => {
                list_at(&mut r, mt, bt);
            },
            None => {},
        }
    }
    assert(list@.take(list@.len() as int) =~= list@);
    r
}

pub open spec fn nested_lists(s: Seq<(Topic, Vec<NestedSourceContext>)>) -> Seq<
    (Topic, Seq<NestedView>),
> {
    mapped(s, |v: Vec<NestedSourceContext>| nested_views(v@))
}

fn build_members_by_contract(
    meta: &OrderedMap<Topic, TopicMetadata>,
    members: &TopicIndex,
) -> (r: OrderedMap<Topic, Vec<NestedSourceContext>>)
    ensures
        nested_lists(r.pairs()) == members_by_contract(
            meta.pairs(),
            index_lists(members.pairs()),
        ),
{
    let n: usize = members.len();
    let ghost s = index_lists(members.pairs());
    proof {
        lemma_mapped::<Topic, Vec<Topic>, Seq<Topic>>(members.pairs(), |v: Vec<Topic>| v@);
    }
    let mut r: OrderedMap<Topic, Vec<NestedSourceContext>> = OrderedMap::new();
    assert(nested_lists(r.pairs()) =~= seq![]);
    for i in 0..n
        invariant
            n == members.pairs().len(),
            s == index_lists(members.pairs()),
            n == s.len(),
            forall|k: int|
                0 <= k < n ==> #[trigger] s[k] == (members.pairs()[k].0, members.pairs()[k].1@),
            nested_lists(r.pairs()) == members_by_contract(meta.pairs(), s.take(i as int)),
    {
        assert(s.take(i + 1).drop_last() =~= s.take(i as int));
        let mt = *members.key_at(i);
        let behaviors = members.value_at(i);
        assert(s[i as int] == (mt, behaviors@));
        let nested = NestedSourceContext::new(
            mt,
            sort_key_of(&mt),
            build_numbered_children(behaviors),
        );
        let c = find_contract(meta, &mt);
        let _ = r.len();
        let ghost was = r.pairs();
        let ghost f = |v: Vec<NestedSourceContext>| nested_views(v@);
        proof {
            lemma_mapped_lookup(was, f, c);
        }
        let mut list: Vec<NestedSourceContext> = match r.remove(&c) {
            Some(list) => list,
            None => Vec::new(),
        };
        assert(nested_views(list@) =~= nested_for(nested_lists(was), c));
        let ghost before = list@;
        list.push(nested);
        assert(nested_views(list@) =~= nested_views(before).push(nested@));
        proof {
            lemma_put_after_without(was, c, list);
            lemma_mapped_put(was, f, c, list);
        }
        r.insert(c, list);
    }
    assert(s.take(n as int) =~= s);
    r
}

fn build_contract_contexts(groups: OrderedMap<Topic, Vec<NestedSourceContext>>) -> (r: Vec<
    SourceContext,
>)
    ensures
        context_views(r@) == contract_contexts(nested_lists(groups.pairs())),
{
    let ghost all = groups.pairs();
    let ghost want = contract_contexts(nested_lists(all));
    proof {
        lemma_mapped::<Topic, Vec<NestedSourceContext>, Seq<NestedView>>(
            all,
            |v: Vec<NestedSourceContext>| nested_views(v@),
        );
    }
    let mut groups = groups;
    let mut r: Vec<SourceContext> = Vec::new();
    let n: usize = groups.len();
    for i in 0..n
        invariant
            n == all.len(),
            i <= n,
            want == contract_contexts(nested_lists(all)),
            want.len() == n,
            forall|k: int|
                0 <= k < n ==> #[trigger] want[k] == contract_context(
                    all[k].0,
                    nested_views(all[k].1@),
                ),
            groups.pairs() == all.skip(i as int),
            r@.len() == i,
            forall|k: int| 0 <= k < i ==> (#[trigger] r@[k])@ == want[k],
    {
        assert(all.skip(i as int)[0] == all[i as int]);
        assert(all.skip(i as int).drop_first() =~= all.skip(i + 1));
        let (c, nested) = groups.take_first();
        let ctx = SourceContext::new(c, sort_key_of(&c), true, Vec::new(), nested);
        assert(ctx@.references =~= seq![]);
        assert(ctx@ == want[i as int]);
        r.push(ctx);
    }
    assert(context_views(r@) =~= want);
    r
}

fn build_contexts_of_feature(a: &AuditData, ft: &Topic) -> (r: Vec<SourceContext>)
    ensures
        context_views(r@) == contexts_of_feature(sources_of(a), *ft),
{
    let _ = a.feature_requirement_links.len();
    let _ = a.feature_behavior_links.len();
    let none: Vec<Topic> = Vec::new();
    proof {
        lemma_index_list(a.feature_requirement_links.pairs(), *ft);
        lemma_index_list(a.feature_behavior_links.pairs(), *ft);
    }
    let reqs: &Vec<Topic> = match a.feature_requirement_links.get(ft) {
        Some(list) => list,
        None => &none,
    };
    let behaviors: &Vec<Topic> = match a.feature_behavior_links.get(ft) {
        Some(list) => list,
        None => &none,
    };
    let mut refs: Vec<Reference> = vec![Reference::project_reference(*ft, Some(0))];
    assert(ref_views(refs@) =~= seq![project_ref(*ft, Some(0))]);
    push_numbered_refs(&mut refs, reqs);
    let first = SourceContext::new_with_scope_references(*ft, Some(0), true, refs);
    let ghost f = first@;
    let members = build_behaviors_by_member(&a.topic_metadata, behaviors);
    let groups = build_members_by_contract(&a.topic_metadata, &members);
    let mut rest = build_contract_contexts(groups);
    let ghost tail = rest@;
    let mut r: Vec<SourceContext> = vec![first];
    r.append(&mut rest);
    assert(r@ =~= seq![first] + tail);
    assert(context_views(r@) =~= seq![f] + context_views(tail));
    r
}

/// The invariants of the threat, nested under it.
fn build_invariant_nested_refs(tt: &Topic, threats: &OrderedMap<Topic, Threat>) -> (r: Vec<
    NestedSourceContext,
>)
    ensures
        nested_views(r@) == invariants_under(threats.pairs(), *tt),
{
    let mut r: Vec<NestedSourceContext> = Vec::new();
    match threats.get(tt) {
        Some(threat) => {
            if threat.invariant_topics.len() > 0 {
                r.push(
                    NestedSourceContext::new(
                        *tt,
                        sort_key_of(tt),
                        build_numbered_children(&threat.invariant_topics),
                    ),
                );
            }
        },
        None => {},
    }
    assert(nested_views(r@) =~= invariants_under(threats.pairs(), *tt));
    r
}

/// The contexts of topic `t` with metadata `m`, if its kind gets any.
fn build_contexts(a: &AuditData, by_req: &TopicIndex, t: &Topic, m: &TopicMetadata) -> (r: Option<
    Vec<SourceContext>,
>)
    requires
        index_lists(by_req.pairs()) == features_by_link(sources_of(a).requirement_links),
    ensures
        match r {
            Some(v) => built_contexts(sources_of(a), *t, *m) == Some(context_views(v@)),
            None => built_contexts(sources_of(a), *t, *m) is None,
        },
{
    match m {
        TopicMetadata::FeatureTopic { .. } => Some(build_contexts_of_feature(a, t)),
        TopicMetadata::RequirementTopic { .. } => {
            let _ = by_req.len();
            proof {
                lemma_index_list(by_req.pairs(), *t);
            }
            match by_req.get(t) {
                Some(parents) => {
                    if parents.len() == 0 {
                        return None;
                    }
                    let mut refs: Vec<Reference> = Vec::new();
                    push_numbered_refs(&mut refs, parents);
                    assert(ref_views(refs@) =~= numbered_refs(parents@));
                    let c = SourceContext::new_with_scope_references(
                        *t,
                        sort_key_of(t),
                        true,
                        refs,
                    );
                    let ghost cv = c@;
                    let v = vec![c];
                    assert(context_views(v@) =~= seq![cv]);
                    Some(v)
                },
                None => None,
            }
        },
        TopicMetadata::BehaviorTopic { .. } | TopicMetadata::FunctionalSemanticTopic { .. } => {
            let v = vec![build_self_context(*t)];
            assert(context_views(v@) =~= seq![self_context(*t)]);
            Some(v)
        },
        TopicMetadata::ThreatTopic { subject_topic, .. } => {
            let key = sort_key_of(t);
            let references = vec![
                Reference::project_reference(*subject_topic, sort_key_of(subject_topic)),
                Reference::project_reference(*t, key),
            ];
            assert(ref_views(references@) =~= seq![numbered_ref(*subject_topic), numbered_ref(*t)]);
            let nested = build_invariant_nested_refs(t, &a.threats);
            let c = SourceContext::new(*t, key, true, references, nested);
            let ghost cv = c@;
            let v = vec![c];
            assert(context_views(v@) =~= seq![cv]);
            Some(v)
        },
        TopicMetadata::InvariantTopic { threat_topic, .. } => {
            let key = sort_key_of(threat_topic);
            let references = vec![Reference::project_reference(*threat_topic, key)];
            assert(ref_views(references@) =~= seq![numbered_ref(*threat_topic)]);
            let c = SourceContext::new_with_scope_references(*t, key, true, references);
            let ghost cv = c@;
            let v = vec![c];
            assert(context_views(v@) =~= seq![cv]);
            Some(v)
        },
        _ => None,
    }
}

/// The topic whose contexts a behavior or semantic shows.
pub open spec fn shown_topic(m: TopicMetadata) -> Option<Topic> {
    match m {
        TopicMetadata::BehaviorTopic { member_topic, .. } => Some(member_topic),
        TopicMetadata::FunctionalSemanticTopic { declaration_topic, .. } => Some(
            declaration_topic,
        ),
        _ => None,
    }
}

/// The related contexts after the behaviors and semantics of `some` got those of
/// the code they are about, where there are any.
pub open spec fn code_expanded(
    some: Seq<(Topic, TopicMetadata)>,
    contexts: Seq<(Topic, Seq<ContextView>)>,
    start: Seq<(Topic, Seq<ContextView>)>,
) -> Seq<(Topic, Seq<ContextView>)>
    decreases some.len(),
{
    if some.len() == 0 {
        start
    } else {
        let before = code_expanded(some.drop_last(), contexts, start);
        let (t, m) = some.last();
        match shown_topic(m) {
            Some(code) => if contexts_for(contexts, code).len() > 0 {
                put(before, t, contexts_for(contexts, code))
            } else {
                before
            },
            None => before,
        }
    }
}

fn expand_code(
    meta: &OrderedMap<Topic, TopicMetadata>,
    contexts: &OrderedMap<Topic, Vec<SourceContext>>,
    expanded: &mut OrderedMap<Topic, Vec<SourceContext>>,
)
    ensures
        context_lists(final(expanded).pairs()) == code_expanded(
            meta.pairs(),
            context_lists(contexts.pairs()),
            context_lists(old(expanded).pairs()),
        ),
{
    let ghost s = meta.pairs();
    let ghost c = context_lists(contexts.pairs());
    let ghost start = context_lists(expanded.pairs());
    let n: usize = meta.len();
    let _ = contexts.len();
    for i in 0..n
        invariant
            s == meta.pairs(),
            n == s.len(),
            ascending(contexts.pairs()),
            c == context_lists(contexts.pairs()),
            context_lists(expanded.pairs()) == code_expanded(s.take(i as int), c, start),
    {
        assert(s.take(i + 1).drop_last() =~= s.take(i as int));
        let t = *meta.key_at(i);
        let code = match meta.value_at(i) {
            TopicMetadata::BehaviorTopic { member_topic, .. } => Some(*member_topic),
            TopicMetadata::FunctionalSemanticTopic { declaration_topic, .. } => Some(
                *declaration_topic,
            ),
            _ => None,
        };
        match code {
            Some(code) => {
                proof {
                    lemma_contexts_lookup(contexts.pairs(), code);
                }
                match contexts.get(&code) {
                    Some(found) => {
                        assert(context_views(found@).len() == found@.len());
                        if found.len() > 0 {
                            set_contexts(expanded, t, copy_contexts(found));
                        }
                    },
                    None => {},
                }
            },
            None => {},
        }
    }
    assert(s.take(n as int) =~= s);
}

/// The members of the behaviors in `list`, each once.
pub open spec fn members_of(meta: Seq<(Topic, TopicMetadata)>, list: Seq<Topic>) -> Seq<Topic>
    decreases list.len(),
{
    if list.len() == 0 {
        seq![]
    } else {
        let before = members_of(meta, list.drop_last());
        match member_of(meta, list.last()) {
            Some(mt) => with_topic(before, mt),
            None => before,
        }
    }
}

/// The contexts of all topics of `list`, one after the other.
pub open spec fn contexts_of_all(
    contexts: Seq<(Topic, Seq<ContextView>)>,
    list: Seq<Topic>,
) -> Seq<ContextView>
    decreases list.len(),
{
    if list.len() == 0 {
        seq![]
    } else {
        contexts_of_all(contexts, list.drop_last()) + contexts_for(contexts, list.last())
    }
}

/// The related contexts after the features of `links` got those of the members of
/// their behaviors, joined by scope.
pub open spec fn features_expanded(
    meta: Seq<(Topic, TopicMetadata)>,
    links: Seq<(Topic, Seq<Topic>)>,
    contexts: Seq<(Topic, Seq<ContextView>)>,
    start: Seq<(Topic, Seq<ContextView>)>,
) -> Seq<(Topic, Seq<ContextView>)>
    decreases links.len(),
{
    if links.len() == 0 {
        start
    } else {
        let before = features_expanded(meta, links.drop_last(), contexts, start);
        let (ft, list) = links.last();
        with_contexts(
            before,
            ft,
            merged_contexts(contexts_of_all(contexts, members_of(meta, list))),
        )
    }
}

fn collect_members(meta: &OrderedMap<Topic, TopicMetadata>, list: &Vec<Topic>) -> (r: Vec<Topic>)
    ensures
        r@ == members_of(meta.pairs(), list@),
{
    let mut r: Vec<Topic> = Vec::new();
    assert(list@.take(0) =~= seq![]);
    for i in 0..list.len()
        invariant
            r@ == members_of(meta.pairs(), list@.take(i as int)),
    {
        assert(list@.take(i + 1).drop_last() =~= list@.take(i as int));
        match find_member(meta, &list[i]) {
            Some(mt) => {
                push_new(&mut r, mt);
            },
            None => {},
        }
    }
    assert(list@.take(list@.len() as int) =~= list@);
    r
}

fn collect_contexts(contexts: &OrderedMap<Topic, Vec<SourceContext>>, list: &Vec<Topic>) -> (r: Vec<
    SourceContext,
>)
    ensures
        context_views(r@) == contexts_of_all(context_lists(contexts.pairs()), list@),
{
    let ghost c = context_lists(contexts.pairs());
    let _ = contexts.len();
    let mut r: Vec<SourceContext> = Vec::new();
    assert(context_views(r@) =~= seq![]);
    assert(list@.take(0) =~= seq![]);
    for i in 0..list.len()
        invariant
            ascending(contexts.pairs()),
            c == context_lists(contexts.pairs()),
            context_views(r@) == contexts_of_all(c, list@.take(i as int)),
    {
        assert(list@.take(i + 1).drop_last() =~= list@.take(i as int));
        proof {
            lemma_contexts_lookup(contexts.pairs(), list@[i as int]);
        }
        match contexts.get(&list[i]) {
            Some(found) => {
                append_contexts(&mut r, found);
            },
            None => {
                assert(context_views(r@) + Seq::<ContextView>::empty() =~= context_views(r@));
            },
        }
    }
    assert(list@.take(list@.len() as int) =~= list@);
    r
}

fn expand_features(
    meta: &OrderedMap<Topic, TopicMetadata>,
    links: &TopicIndex,
    contexts: &OrderedMap<Topic, Vec<SourceContext>>,
    expanded: &mut OrderedMap<Topic, Vec<SourceContext>>,
)
    ensures
        context_lists(final(expanded).pairs()) == features_expanded(
            meta.pairs(),
            index_lists(links.pairs()),
            context_lists(contexts.pairs()),
            context_lists(old(expanded).pairs()),
        ),
{
    let n: usize = links.len();
    let ghost s = index_lists(links.pairs());
    let ghost c = context_lists(contexts.pairs());
    let ghost start = context_lists(expanded.pairs());
    proof {
        lemma_mapped::<Topic, Vec<Topic>, Seq<Topic>>(links.pairs(), |v: Vec<Topic>| v@);
    }
    for i in 0..n
        invariant
            n == links.pairs().len(),
            s == index_lists(links.pairs()),
            n == s.len(),
            forall|k: int|
                0 <= k < n ==> #[trigger] s[k] == (links.pairs()[k].0, links.pairs()[k].1@),
            c == context_lists(contexts.pairs()),
            context_lists(expanded.pairs()) == features_expanded(
                meta.pairs(),
                s.take(i as int),
                c,
                start,
            ),
    {
        assert(s.take(i + 1).drop_last() =~= s.take(i as int));
        let ft = *links.key_at(i);
        let list = links.value_at(i);
        assert(s[i as int] == (ft, list@));
        let members = collect_members(meta, list);
        let merged = merge_context_groups(collect_contexts(contexts, &members));
        set_contexts(expanded, ft, merged);
    }
    assert(s.take(n as int) =~= s);
}

/// The contexts after a rebuild.
pub open spec fn rebuilt_contexts(a: &AuditData) -> Seq<(Topic, Seq<ContextView>)> {
    contexts_built(sources_of(a), entries(a), context_lists(a.topic_context.pairs()))
}

/// The related contexts after a rebuild: documentation shows its features,
/// behaviors and semantics show their code, features show their members.
pub open spec fn rebuilt_expanded(a: &AuditData) -> Seq<(Topic, Seq<ContextView>)> {
    let contexts = rebuilt_contexts(a);
    let docs = docs_expanded(
        entries(a),
        requirements_by_doc(a.requirements.pairs()),
        features_by_link(index_lists(a.feature_requirement_links.pairs())),
        context_lists(a.expanded_topic_context.pairs()),
    );
    let code = code_expanded(entries(a), contexts, docs);
    features_expanded(
        entries(a),
        index_lists(a.feature_behavior_links.pairs()),
        contexts,
        code,
    )
}

/// `b` holds what a rebuild of `a` gives: indexes and contexts derived anew, all
/// else as it was.
pub open spec fn is_rebuilt(a: &AuditData, b: &AuditData) -> bool {
    &&& index_lists(b.section_requirements.pairs()) == index_by(entries(a), Relation::Section)
    &&& index_lists(b.member_behaviors.pairs()) == index_by(entries(a), Relation::Member)
    &&& index_lists(b.declaration_semantics.pairs()) == index_by(
        entries(a),
        Relation::Declaration,
    )
    &&& b.subject_purposes.pairs() == latest_by(entries(a), Relation::Purpose)
    &&& b.subject_placements.pairs() == latest_by(entries(a), Relation::Placement)
    &&& index_lists(b.subject_conditions.pairs()) == index_by(entries(a), Relation::Condition)
    &&& context_lists(b.topic_context.pairs()) == rebuilt_contexts(a)
    &&& context_lists(b.expanded_topic_context.pairs()) == rebuilt_expanded(a)
    &&& same_sources(a, b)
}

/// `a` and `b` agree in all that a rebuild does not derive.
pub open spec fn same_sources(a: &AuditData, b: &AuditData) -> bool {
    &&& a.audit_name == b.audit_name
    &&& a.in_scope_files == b.in_scope_files
    &&& a.security_notes == b.security_notes
    &&& a.asts == b.asts
    &&& a.nodes == b.nodes
    &&& a.topic_metadata == b.topic_metadata
    &&& a.function_properties == b.function_properties
    &&& a.variable_types == b.variable_types
    &&& a.name_index == b.name_index
    &&& a.comment_index == b.comment_index
    &&& a.requirements == b.requirements
    &&& a.characteristics == b.characteristics
    &&& a.threat_feature_links == b.threat_feature_links
    &&& a.threats == b.threats
    &&& a.invariants == b.invariants
    &&& a.conditions == b.conditions
    &&& a.feature_requirement_links == b.feature_requirement_links
    &&& a.feature_behavior_links == b.feature_behavior_links
    &&& a.mentions_index == b.mentions_index
    &&& a.inheritance == b.inheritance
    &&& a.resolution_graph == b.resolution_graph
    &&& a.resolution_traces == b.resolution_traces
}

/// Derives the indexes and contexts of an audit anew from its topics and links.
pub fn rebuild_feature_context(audit_data: &mut AuditData)
    ensures
        is_rebuilt(&*old(audit_data), &*final(audit_data)),
{
    audit_data.section_requirements = build_index(&audit_data.topic_metadata, Relation::Section);
    audit_data.member_behaviors = build_index(&audit_data.topic_metadata, Relation::Member);
    audit_data.declaration_semantics = build_index(
        &audit_data.topic_metadata,
        Relation::Declaration,
    );
    audit_data.subject_purposes = build_latest(&audit_data.topic_metadata, Relation::Purpose);
    audit_data.subject_placements = build_latest(&audit_data.topic_metadata, Relation::Placement);
    audit_data.subject_conditions = build_index(&audit_data.topic_metadata, Relation::Condition);

    let by_doc = build_requirements_by_doc(&audit_data.requirements);
    let by_req = build_features_by_link(&audit_data.feature_requirement_links);
    expand_docs(
        &audit_data.topic_metadata,
        &by_doc,
        &by_req,
        &mut audit_data.expanded_topic_context,
    );

    let ghost src = sources_of(&*old(audit_data));
    let ghost s = entries(&*old(audit_data));
    let ghost start = context_lists(audit_data.topic_context.pairs());
    let ghost before = *audit_data;
    let n: usize = audit_data.topic_metadata.len();
    for i in 0..n
        invariant
            same_sources(&*old(audit_data), audit_data),
            same_derived(&before, audit_data),
            s == entries(audit_data),
            n == s.len(),
            src == sources_of(audit_data),
            index_lists(by_req.pairs()) == features_by_link(src.requirement_links),
            context_lists(audit_data.topic_context.pairs()) == contexts_built(
                src,
                s.take(i as int),
                start,
            ),
    {
        assert(s.take(i + 1).drop_last() =~= s.take(i as int));
        let t = *audit_data.topic_metadata.key_at(i);
        match build_contexts(audit_data, &by_req, &t, audit_data.topic_metadata.value_at(i)) {
            Some(contexts) => {
                let _ = audit_data.topic_context.len();
                proof {
                    lemma_contexts_put(audit_data.topic_context.pairs(), t, contexts);
                }
                audit_data.topic_context.insert(t, contexts);
            },
            None => {},
        }
    }
    assert(s.take(n as int) =~= s);

    expand_code(
        &audit_data.topic_metadata,
        &audit_data.topic_context,
        &mut audit_data.expanded_topic_context,
    );
    expand_features(
        &audit_data.topic_metadata,
        &audit_data.feature_behavior_links,
        &audit_data.topic_context,
        &mut audit_data.expanded_topic_context,
    );
}

/// `a` and `b` agree in the derived indexes and the related contexts.
spec fn same_derived(a: &AuditData, b: &AuditData) -> bool {
    &&& a.section_requirements == b.section_requirements
    &&& a.member_behaviors == b.member_behaviors
    &&& a.declaration_semantics == b.declaration_semantics
    &&& a.subject_purposes == b.subject_purposes
    &&& a.subject_placements == b.subject_placements
    &&& a.subject_conditions == b.subject_conditions
    &&& a.expanded_topic_context == b.expanded_topic_context
}

} // verus!
