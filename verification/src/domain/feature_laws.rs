//! Laws of the derived indexes and contexts.
use crate::domain::audit::{entries, AuditData};
use crate::domain::context::{merged_contexts, ContextView, SourceContext};
use crate::domain::features::{built_contexts, code_expanded, context_lists, contexts_built};
use crate::domain::features::{contexts_for, contexts_of_all, docs_expanded, feature_contexts};
use crate::domain::features::{features_by_link, features_expanded, features_of_doc, index_by};
use crate::domain::features::{is_rebuilt, latest_by, listed_for_reqs, members_of};
use crate::domain::features::{rebuilt_contexts, rebuilt_expanded, requirement_context};
use crate::domain::features::{requirements_by_doc, shown_topic, sources_of, tied_to};
use crate::domain::features::{with_contexts, Relation, Sources};
use crate::domain::index::{index_lists, lemma_lookup_put, lemma_lookup_without, lemma_mapped};
use crate::domain::index::list_for;
use crate::domain::lists::with_topic;
use crate::domain::metadata::TopicMetadata;
use crate::domain::topic::Topic;
use crate::ordered::{ascending, index_of, lookup, put};
use vstd::prelude::*;

verus! {

/// The topics of `some`, in order, that are tied to `k`.
pub open spec fn tied_topics(
    some: Seq<(Topic, TopicMetadata)>,
    relation: Relation,
    k: Topic,
) -> Seq<Topic>
    decreases some.len(),
{
    if some.len() == 0 {
        seq![]
    } else if tied_to(some.last().1, relation) == Some(k) {
        tied_topics(some.drop_last(), relation, k).push(some.last().0)
    } else {
        tied_topics(some.drop_last(), relation, k)
    }
}

/// An index lists for each topic exactly the topics tied to it, in their order. A
/// topic to which nothing is tied has no entry.
pub proof fn index_lists_exactly_the_tied(
    some: Seq<(Topic, TopicMetadata)>,
    relation: Relation,
    k: Topic,
)
    ensures
        ascending(index_by(some, relation)),
        list_for(index_by(some, relation), k) == tied_topics(some, relation, k),
        lookup(index_by(some, relation), k) is Some == (tied_topics(some, relation, k).len() > 0),
    decreases some.len(),
{
    if some.len() > 0 {
        let rest = some.drop_last();
        index_lists_exactly_the_tied(rest, relation, k);
        let before = index_by(rest, relation);
        match tied_to(some.last().1, relation) {
            Some(q) => {
                index_lists_exactly_the_tied(rest, relation, q);
                lemma_lookup_put(before, q, list_for(before, q).push(some.last().0), k);
            },
            None => {},
        }
    }
}

/// The purpose or placement of a subject is the last topic tied to it. A subject
/// to which none is tied has none.
pub proof fn latest_is_the_last_tied(
    some: Seq<(Topic, TopicMetadata)>,
    relation: Relation,
    k: Topic,
)
    ensures
        ascending(latest_by(some, relation)),
        lookup(latest_by(some, relation), k) == if tied_topics(some, relation, k).len() > 0 {
            Some(tied_topics(some, relation, k).last())
        } else {
            None
        },
    decreases some.len(),
{
    if some.len() > 0 {
        let rest = some.drop_last();
        latest_is_the_last_tied(rest, relation, k);
        match tied_to(some.last().1, relation) {
            Some(q) => {
                lemma_lookup_put(latest_by(rest, relation), q, some.last().0, k);
            },
            None => {},
        }
    }
}

proof fn lemma_put_same<V>(s: Seq<(Topic, V)>, k: Topic, v: V)
    requires
        ascending(s),
        lookup(s, k) == Some(v),
    ensures
        put(s, k, v) == s,
{
    let i = index_of(s, k);
    assert(s[i].0@ == k);
    assert(put(s, k, v) =~= s);
}

pub proof fn lemma_contexts_built(
    src: Sources,
    some: Seq<(Topic, TopicMetadata)>,
    start: Seq<(Topic, Seq<ContextView>)>,
)
    requires
        ascending(some),
        ascending(start),
    ensures
        ascending(contexts_built(src, some, start)),
        forall|i: int|
            0 <= i < some.len() && built_contexts(src, some[i].0, #[trigger] some[i].1) is Some
                ==> lookup(contexts_built(src, some, start), some[i].0) == built_contexts(
                src,
                some[i].0,
                some[i].1,
            ),
    decreases some.len(),
{
    if some.len() > 0 {
        let rest = some.drop_last();
        assert(forall|i: int| 0 <= i < rest.len() ==> #[trigger] rest[i] == some[i]);
        lemma_contexts_built(src, rest, start);
        let before = contexts_built(src, rest, start);
        let (t, m) = some.last();
        match built_contexts(src, t, m) {
            Some(c) => {
                lemma_lookup_put(before, t, c, t);
                assert forall|i: int|
                    0 <= i < some.len() && built_contexts(
                        src,
                        some[i].0,
                        #[trigger] some[i].1,
                    ) is Some implies lookup(contexts_built(src, some, start), some[i].0)
                    == built_contexts(src, some[i].0, some[i].1) by {
                    if i < rest.len() {
                        assert(rest[i] == some[i]);
                        assert(<Topic as crate::ordered::MapKey>::before(
                            some[i].0@,
                            some[some.len() - 1].0@,
                        ));
                        lemma_lookup_put(before, t, c, some[i].0);
                    }
                }
            },
            None => {
                assert forall|i: int|
                    0 <= i < some.len() && built_contexts(
                        src,
                        some[i].0,
                        #[trigger] some[i].1,
                    ) is Some implies lookup(contexts_built(src, some, start), some[i].0)
                    == built_contexts(src, some[i].0, some[i].1) by {
                    if i < rest.len() {
                        assert(rest[i] == some[i]);
                    }
                }
            },
        }
    }
}

proof fn lemma_contexts_settled(
    src: Sources,
    some: Seq<(Topic, TopicMetadata)>,
    done: Seq<(Topic, Seq<ContextView>)>,
)
    requires
        ascending(done),
        forall|i: int|
            0 <= i < some.len() && built_contexts(src, some[i].0, #[trigger] some[i].1) is Some
                ==> lookup(done, some[i].0) == built_contexts(src, some[i].0, some[i].1),
    ensures
        contexts_built(src, some, done) == done,
    decreases some.len(),
{
    if some.len() > 0 {
        let rest = some.drop_last();
        assert forall|i: int|
            0 <= i < rest.len() && built_contexts(
                src,
                rest[i].0,
                #[trigger] rest[i].1,
            ) is Some implies lookup(done, rest[i].0) == built_contexts(
            src,
            rest[i].0,
            rest[i].1,
        ) by {
            assert(rest[i] == some[i]);
        }
        lemma_contexts_settled(src, rest, done);
        let (t, m) = some[some.len() - 1];
        assert(some[some.len() - 1].1 == m);
        match built_contexts(src, t, m) {
            Some(c) => {
                lemma_put_same(done, t, c);
            },
            None => {},
        }
    }
}

pub open spec fn is_doc(m: TopicMetadata) -> bool {
    m is TitledTopic || m is UnnamedTopic
}

pub open spec fn doc_touched(some: Seq<(Topic, TopicMetadata)>, k: Topic) -> bool
    decreases some.len(),
{
    some.len() > 0 && (doc_touched(some.drop_last(), k) || (some.last().0 == k && is_doc(
        some.last().1,
    )))
}

pub proof fn lemma_docs_expanded(
    some: Seq<(Topic, TopicMetadata)>,
    by_doc: Seq<(Topic, Seq<Topic>)>,
    by_req: Seq<(Topic, Seq<Topic>)>,
    x: Seq<(Topic, Seq<ContextView>)>,
    y: Seq<(Topic, Seq<ContextView>)>,
    k: Topic,
)
    requires
        ascending(x),
        ascending(y),
    ensures
        ascending(docs_expanded(some, by_doc, by_req, x)),
        ascending(docs_expanded(some, by_doc, by_req, y)),
        doc_touched(some, k) ==> lookup(docs_expanded(some, by_doc, by_req, x), k) == lookup(
            docs_expanded(some, by_doc, by_req, y),
            k,
        ),
        !doc_touched(some, k) ==> lookup(docs_expanded(some, by_doc, by_req, x), k) == lookup(
            x,
            k,
        ),
        !doc_touched(some, k) ==> lookup(docs_expanded(some, by_doc, by_req, y), k) == lookup(
            y,
            k,
        ),
    decreases some.len(),
{
    if some.len() > 0 {
        let rest = some.drop_last();
        lemma_docs_expanded(rest, by_doc, by_req, x, y, k);
        let (t, m) = some.last();
        if is_doc(m) {
            let c = feature_contexts(features_of_doc(by_doc, by_req, t));
            lemma_with_contexts(docs_expanded(rest, by_doc, by_req, x), t, c, k);
            lemma_with_contexts(docs_expanded(rest, by_doc, by_req, y), t, c, k);
        }
    }
}

pub proof fn lemma_with_contexts(
    s: Seq<(Topic, Seq<ContextView>)>,
    t: Topic,
    c: Seq<ContextView>,
    k: Topic,
)
    requires
        ascending(s),
    ensures
        ascending(with_contexts(s, t, c)),
        lookup(with_contexts(s, t, c), k) == if k != t {
            lookup(s, k)
        } else if c.len() == 0 {
            None
        } else {
            Some(c)
        },
{
    if c.len() == 0 {
        lemma_lookup_without(s, t, k);
    } else {
        lemma_lookup_put(s, t, c, k);
    }
}

pub open spec fn code_touched(
    some: Seq<(Topic, TopicMetadata)>,
    contexts: Seq<(Topic, Seq<ContextView>)>,
    k: Topic,
) -> bool
    decreases some.len(),
{
    some.len() > 0 && (code_touched(some.drop_last(), contexts, k) || (some.last().0 == k
        && shown_topic(some.last().1) is Some && contexts_for(
        contexts,
        shown_topic(some.last().1)->0,
    ).len() > 0))
}

pub proof fn lemma_code_expanded(
    some: Seq<(Topic, TopicMetadata)>,
    contexts: Seq<(Topic, Seq<ContextView>)>,
    x: Seq<(Topic, Seq<ContextView>)>,
    y: Seq<(Topic, Seq<ContextView>)>,
    k: Topic,
)
    requires
        ascending(x),
        ascending(y),
    ensures
        ascending(code_expanded(some, contexts, x)),
        ascending(code_expanded(some, contexts, y)),
        code_touched(some, contexts, k) ==> lookup(code_expanded(some, contexts, x), k) == lookup(
            code_expanded(some, contexts, y),
            k,
        ),
        !code_touched(some, contexts, k) ==> lookup(code_expanded(some, contexts, x), k)
            == lookup(x, k),
        !code_touched(some, contexts, k) ==> lookup(code_expanded(some, contexts, y), k)
            == lookup(y, k),
    decreases some.len(),
{
    if some.len() > 0 {
        let rest = some.drop_last();
        lemma_code_expanded(rest, contexts, x, y, k);
        let (t, m) = some.last();
        match shown_topic(m) {
            Some(code) => {
                let c = contexts_for(contexts, code);
                if c.len() > 0 {
                    lemma_lookup_put(code_expanded(rest, contexts, x), t, c, k);
                    lemma_lookup_put(code_expanded(rest, contexts, y), t, c, k);
                }
            },
            None => {},
        }
    }
}

pub open spec fn link_touched(links: Seq<(Topic, Seq<Topic>)>, k: Topic) -> bool
    decreases links.len(),
{
    links.len() > 0 && (link_touched(links.drop_last(), k) || links.last().0 == k)
}

pub proof fn lemma_features_expanded(
    meta: Seq<(Topic, TopicMetadata)>,
    links: Seq<(Topic, Seq<Topic>)>,
    contexts: Seq<(Topic, Seq<ContextView>)>,
    x: Seq<(Topic, Seq<ContextView>)>,
    y: Seq<(Topic, Seq<ContextView>)>,
    k: Topic,
)
    requires
        ascending(x),
        ascending(y),
    ensures
        ascending(features_expanded(meta, links, contexts, x)),
        ascending(features_expanded(meta, links, contexts, y)),
        link_touched(links, k) ==> lookup(features_expanded(meta, links, contexts, x), k)
            == lookup(features_expanded(meta, links, contexts, y), k),
        !link_touched(links, k) ==> lookup(features_expanded(meta, links, contexts, x), k)
            == lookup(x, k),
        !link_touched(links, k) ==> lookup(features_expanded(meta, links, contexts, y), k)
            == lookup(y, k),
    decreases links.len(),
{
    if links.len() > 0 {
        let rest = links.drop_last();
        lemma_features_expanded(meta, rest, contexts, x, y, k);
        let (ft, list) = links.last();
        let c = merged_contexts(contexts_of_all(contexts, members_of(meta, list)));
        lemma_with_contexts(features_expanded(meta, rest, contexts, x), ft, c, k);
        lemma_with_contexts(features_expanded(meta, rest, contexts, y), ft, c, k);
    }
}

/// A second rebuild changes nothing: the indexes, the contexts and the related
/// contexts of every topic are those of the first.
pub proof fn rebuilding_is_idempotent(a: &AuditData, b: &AuditData, c: &AuditData)
    requires
        is_rebuilt(a, b),
        is_rebuilt(b, c),
        ascending(entries(a)),
        ascending(a.topic_context.pairs()),
        ascending(a.expanded_topic_context.pairs()),
    ensures
        index_lists(c.section_requirements.pairs()) == index_lists(b.section_requirements.pairs()),
        index_lists(c.member_behaviors.pairs()) == index_lists(b.member_behaviors.pairs()),
        index_lists(c.declaration_semantics.pairs()) == index_lists(
            b.declaration_semantics.pairs(),
        ),
        c.subject_purposes.pairs() == b.subject_purposes.pairs(),
        c.subject_placements.pairs() == b.subject_placements.pairs(),
        index_lists(c.subject_conditions.pairs()) == index_lists(b.subject_conditions.pairs()),
        context_lists(c.topic_context.pairs()) == context_lists(b.topic_context.pairs()),
        forall|t: Topic|
            lookup(context_lists(c.expanded_topic_context.pairs()), t) == #[trigger] lookup(
                context_lists(b.expanded_topic_context.pairs()),
                t,
            ),
{
    let src = sources_of(a);
    let s = entries(a);
    let f = |v: Vec<SourceContext>| crate::domain::context::context_views(v@);
    let start = context_lists(a.topic_context.pairs());
    lemma_mapped::<Topic, Vec<SourceContext>, Seq<ContextView>>(a.topic_context.pairs(), f);
    lemma_mapped::<Topic, Vec<SourceContext>, Seq<ContextView>>(
        a.expanded_topic_context.pairs(),
        f,
    );
    assert(ascending(start));
    lemma_contexts_built(src, s, start);
    let contexts = rebuilt_contexts(a);
    assert(sources_of(b) == src);
    lemma_contexts_settled(src, s, contexts);
    assert(rebuilt_contexts(b) == contexts);
    let x = context_lists(a.expanded_topic_context.pairs());
    let y = context_lists(b.expanded_topic_context.pairs());
    assert(ascending(x));
    let by_doc = requirements_by_doc(a.requirements.pairs());
    let by_req = features_by_link(index_lists(a.feature_requirement_links.pairs()));
    let links = index_lists(a.feature_behavior_links.pairs());
    let dx = docs_expanded(s, by_doc, by_req, x);
    let cx = code_expanded(s, contexts, dx);
    let fx = features_expanded(s, links, contexts, cx);
    assert(fx == y);
    lemma_docs_expanded(s, by_doc, by_req, x, x, Topic::Node(0));
    lemma_code_expanded(s, contexts, dx, dx, Topic::Node(0));
    lemma_features_expanded(s, links, contexts, cx, cx, Topic::Node(0));
    assert(ascending(y));
    let dy = docs_expanded(s, by_doc, by_req, y);
    let cy = code_expanded(s, contexts, dy);
    let fy = features_expanded(s, links, contexts, cy);
    assert(fy == rebuilt_expanded(b));
    assert forall|t: Topic| lookup(fy, t) == #[trigger] lookup(y, t) by {
        lemma_docs_expanded(s, by_doc, by_req, x, y, t);
        lemma_code_expanded(s, contexts, dx, dy, t);
        lemma_features_expanded(s, links, contexts, cx, cy, t);
    }
}

proof fn lemma_listed_for_reqs(
    index: Seq<(Topic, Seq<Topic>)>,
    reqs: Seq<Topic>,
    ft: Topic,
    t: Topic,
)
    requires
        ascending(index),
    ensures
        ascending(listed_for_reqs(index, reqs, ft)),
        list_for(listed_for_reqs(index, reqs, ft), t) == if reqs.contains(t) {
            with_topic(list_for(index, t), ft)
        } else {
            list_for(index, t)
        },
    decreases reqs.len(),
{
    if reqs.len() > 0 {
        let rest = reqs.drop_last();
        let k = reqs[reqs.len() - 1];
        lemma_listed_for_reqs(index, rest, ft, t);
        lemma_listed_for_reqs(index, rest, ft, k);
        let before = listed_for_reqs(index, rest, ft);
        lemma_lookup_put(before, k, with_topic(list_for(before, k), ft), t);
        assert(reqs.contains(t) == (rest.contains(t) || t == k)) by {
            if rest.contains(t) {
                let i = choose|i: int| 0 <= i < rest.len() && rest[i] == t;
                assert(reqs[i] == t);
            }
            if reqs.contains(t) && t != k {
                let i = choose|i: int| 0 <= i < reqs.len() && reqs[i] == t;
                assert(rest[i] == t);
            }
        }
        lemma_with_topic(list_for(index, t), ft);
    }
}

pub proof fn lemma_with_topic(list: Seq<Topic>, t: Topic)
    ensures
        with_topic(list, t).contains(t),
        with_topic(with_topic(list, t), t) == with_topic(list, t),
        forall|x: Topic| #[trigger] with_topic(list, t).contains(x) == (x == t || list.contains(x)),
{
    let r = with_topic(list, t);
    if !list.contains(t) {
        assert(r[list.len() as int] == t);
    }
    assert forall|x: Topic| #[trigger] r.contains(x) == (x == t || list.contains(x)) by {
        if list.contains(x) {
            let i = choose|i: int| 0 <= i < list.len() && list[i] == x;
            assert(r[i] == x);
        }
        if r.contains(x) && x != t {
            let i = choose|i: int| 0 <= i < r.len() && r[i] == x;
            assert(list[i] == x);
        }
    }
}

/// The features of a topic are those that are linked to it.
pub proof fn features_by_link_are_the_linked(
    links: Seq<(Topic, Seq<Topic>)>,
    t: Topic,
    ft: Topic,
)
    ensures
        ascending(features_by_link(links)),
        list_for(features_by_link(links), t).contains(ft) <==> exists|i: int|
            0 <= i < links.len() && (#[trigger] links[i]).0 == ft && links[i].1.contains(t),
    decreases links.len(),
{
    if links.len() > 0 {
        let rest = links.drop_last();
        let n = links.len() - 1;
        features_by_link_are_the_linked(rest, t, ft);
        let before = features_by_link(rest);
        lemma_listed_for_reqs(before, links[n].1, links[n].0, t);
        lemma_with_topic(list_for(before, t), links[n].0);
        if exists|i: int| 0 <= i < rest.len() && (#[trigger] rest[i]).0 == ft && rest[i].1.contains(t) {
            let i = choose|i: int|
                0 <= i < rest.len() && (#[trigger] rest[i]).0 == ft && rest[i].1.contains(t);
            assert(links[i] == rest[i]);
        }
        if exists|i: int|
            0 <= i < links.len() && (#[trigger] links[i]).0 == ft && links[i].1.contains(t) {
            let i = choose|i: int|
                0 <= i < links.len() && (#[trigger] links[i]).0 == ft && links[i].1.contains(t);
            if i < n {
                assert(rest[i] == links[i]);
            }
        }
    }
}

/// After a rebuild, a requirement that is linked to a feature has one context, its
/// own, which names exactly the features that it is linked to.
pub proof fn requirements_name_their_features(a: &AuditData, b: &AuditData, t: Topic)
    requires
        is_rebuilt(a, b),
        ascending(entries(a)),
        ascending(a.topic_context.pairs()),
        lookup(entries(a), t) is Some,
        lookup(entries(a), t)->0 is RequirementTopic,
        exists|i: int|
            0 <= i < index_lists(a.feature_requirement_links.pairs()).len() && (
            #[trigger] index_lists(a.feature_requirement_links.pairs())[i]).1.contains(t),
    ensures
        ({
            let links = index_lists(a.feature_requirement_links.pairs());
            let found = lookup(context_lists(b.topic_context.pairs()), t);
            &&& found is Some
            &&& found->0.len() == 1
            &&& found->0[0].scope == t
            &&& forall|ft: Topic|
                (exists|k: int|
                    0 <= k < found->0[0].references.len() && (
                    #[trigger] found->0[0].references[k]).topic == ft) <==> #[trigger] is_linked(
                    links,
                    ft,
                    t,
                )
        }),
{
    let links = index_lists(a.feature_requirement_links.pairs());
    let src = sources_of(a);
    let s = entries(a);
    let parents = list_for(features_by_link(links), t);
    let f = |v: Vec<SourceContext>| crate::domain::context::context_views(v@);
    lemma_mapped::<Topic, Vec<SourceContext>, Seq<ContextView>>(a.topic_context.pairs(), f);
    lemma_contexts_built(src, s, context_lists(a.topic_context.pairs()));
    let i = choose|i: int| 0 <= i < links.len() && (#[trigger] links[i]).1.contains(t);
    features_by_link_are_the_linked(links, t, links[i].0);
    assert(parents.contains(links[i].0));
    let n = index_of(s, t);
    assert(s[n].0 == t);
    assert(built_contexts(src, s[n].0, s[n].1) is Some);
    let refs = requirement_context(t, parents).references;
    assert forall|ft: Topic|
        (exists|k: int| 0 <= k < refs.len() && (#[trigger] refs[k]).topic == ft) <==> #[trigger]
            is_linked(links, ft, t) by {
        features_by_link_are_the_linked(links, t, ft);
        if parents.contains(ft) {
            let k = choose|k: int| 0 <= k < parents.len() && parents[k] == ft;
            assert(refs[k].topic == ft);
        }
        if exists|k: int| 0 <= k < refs.len() && (#[trigger] refs[k]).topic == ft {
            let k = choose|k: int| 0 <= k < refs.len() && (#[trigger] refs[k]).topic == ft;
            assert(parents[k] == ft);
        }
    }
}

/// The feature `ft` is linked to `t`.
pub open spec fn is_linked(links: Seq<(Topic, Seq<Topic>)>, ft: Topic, t: Topic) -> bool {
    exists|i: int| 0 <= i < links.len() && (#[trigger] links[i]).0 == ft && links[i].1.contains(t)
}

} // verus!
