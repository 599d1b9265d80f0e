//! What a rebuild relates, in terms of what the audit records.
use crate::domain::audit::{entries, AuditData, Requirement};
use crate::domain::context::{context_views, merged_contexts, ContextView, SourceContext};
use crate::domain::feature_laws::{code_touched, doc_touched, features_by_link_are_the_linked};
use crate::domain::feature_laws::{is_doc, lemma_code_expanded, lemma_docs_expanded};
use crate::domain::feature_laws::{lemma_features_expanded, lemma_with_contexts, link_touched};
use crate::domain::features::{code_expanded, context_lists, contexts_for, contexts_of_all};
use crate::domain::features::{docs_expanded, feature_contexts, features_by_link};
use crate::domain::features::{features_expanded, features_of_all, features_of_doc, is_rebuilt};
use crate::domain::features::{listed_for_docs, members_of, rebuilt_contexts, requirements_by_doc};
use crate::domain::features::shown_topic;
use crate::domain::index::{index_lists, lemma_lookup_put, lemma_mapped, lemma_mapped_lookup};
use crate::domain::index::list_for;
use crate::domain::lists::with_topics_holds_both;
use crate::domain::metadata::TopicMetadata;
use crate::domain::rebuild_laws::{knows, listed_for, tables_in_order};
use crate::domain::topic::Topic;
use crate::ordered::{ascending, has_key, index_of, lemma_index_of, lookup};
use vstd::prelude::*;

verus! {

/// The tables that relate topics are in order.
pub open spec fn relations_in_order(a: &AuditData, b: &AuditData) -> bool {
    &&& tables_in_order(a, b)
    &&& ascending(a.requirements.pairs())
    &&& ascending(a.expanded_topic_context.pairs())
    &&& ascending(b.expanded_topic_context.pairs())
}

proof fn lemma_pushed<A>(l: Seq<A>, e: A, x: A)
    ensures
        l.push(e).contains(x) == (l.contains(x) || x == e),
{
    if l.contains(x) {
        let i = choose|i: int| 0 <= i < l.len() && l[i] == x;
        assert(l.push(e)[i] == x);
    }
    assert(l.push(e)[l.len() as int] == e);
    if l.push(e).contains(x) && x != e {
        let i = choose|i: int| 0 <= i < l.push(e).len() && l.push(e)[i] == x;
        assert(l[i] == x);
    }
}

proof fn lemma_listed_for_docs(
    index: Seq<(Topic, Seq<Topic>)>,
    docs: Seq<Topic>,
    rt: Topic,
    d: Topic,
    r: Topic,
)
    requires
        ascending(index),
    ensures
        ascending(listed_for_docs(index, docs, rt)),
        list_for(listed_for_docs(index, docs, rt), d).contains(r) == (list_for(index, d).contains(r)
            || (r == rt && docs.contains(d))),
    decreases docs.len(),
{
    if docs.len() > 0 {
        let rest = docs.drop_last();
        let k = docs[docs.len() - 1];
        lemma_listed_for_docs(index, rest, rt, d, r);
        let before = listed_for_docs(index, rest, rt);
        lemma_lookup_put(before, k, list_for(before, k).push(rt), d);
        lemma_pushed(list_for(before, k), rt, r);
        assert(rest.push(k) =~= docs);
        lemma_pushed(rest, k, d);
    }
}

proof fn lemma_requirements_by_doc(reqs: Seq<(Topic, Requirement)>, d: Topic, r: Topic)
    ensures
        ascending(requirements_by_doc(reqs)),
        list_for(requirements_by_doc(reqs), d).contains(r) <==> exists|i: int|
            0 <= i < reqs.len() && (#[trigger] reqs[i]).0 == r
                && reqs[i].1.documentation_topics@.contains(d),
    decreases reqs.len(),
{
    if reqs.len() > 0 {
        let rest = reqs.drop_last();
        let n = reqs.len() - 1;
        lemma_requirements_by_doc(rest, d, r);
        lemma_listed_for_docs(
            requirements_by_doc(rest),
            reqs[n].1.documentation_topics@,
            reqs[n].0,
            d,
            r,
        );
        if exists|i: int|
            0 <= i < rest.len() && (#[trigger] rest[i]).0 == r
                && rest[i].1.documentation_topics@.contains(d) {
            let i = choose|i: int|
                0 <= i < rest.len() && (#[trigger] rest[i]).0 == r
                    && rest[i].1.documentation_topics@.contains(d);
            assert(reqs[i] == rest[i]);
        }
        if exists|i: int|
            0 <= i < reqs.len() && (#[trigger] reqs[i]).0 == r
                && reqs[i].1.documentation_topics@.contains(d) {
            let i = choose|i: int|
                0 <= i < reqs.len() && (#[trigger] reqs[i]).0 == r
                    && reqs[i].1.documentation_topics@.contains(d);
            if i < n {
                assert(rest[i] == reqs[i]);
            }
        }
    }
}

proof fn lemma_features_of_all(by_req: Seq<(Topic, Seq<Topic>)>, reqs: Seq<Topic>, ft: Topic)
    ensures
        features_of_all(by_req, reqs).contains(ft) <==> exists|r: Topic| #[trigger]
            reqs.contains(r) && list_for(by_req, r).contains(ft),
    decreases reqs.len(),
{
    if reqs.len() > 0 {
        let rest = reqs.drop_last();
        let k = reqs[reqs.len() - 1];
        lemma_features_of_all(by_req, rest, ft);
        with_topics_holds_both(features_of_all(by_req, rest), list_for(by_req, k));
        assert(rest.push(k) =~= reqs);
        assert(reqs.contains(k)) by {
            lemma_pushed(rest, k, k);
        }
        if exists|r: Topic| #[trigger] reqs.contains(r) && list_for(by_req, r).contains(ft) {
            let r = choose|r: Topic| #[trigger]
                reqs.contains(r) && list_for(by_req, r).contains(ft);
            lemma_pushed(rest, k, r);
        }
        if exists|r: Topic| #[trigger] rest.contains(r) && list_for(by_req, r).contains(ft) {
            let r = choose|r: Topic| #[trigger]
                rest.contains(r) && list_for(by_req, r).contains(ft);
            lemma_pushed(rest, k, r);
        }
    }
}

proof fn lemma_docs_at(
    some: Seq<(Topic, TopicMetadata)>,
    by_doc: Seq<(Topic, Seq<Topic>)>,
    by_req: Seq<(Topic, Seq<Topic>)>,
    start: Seq<(Topic, Seq<ContextView>)>,
    i: int,
)
    requires
        ascending(some),
        ascending(start),
        0 <= i < some.len(),
        is_doc(some[i].1),
    ensures
        ({
            let c = feature_contexts(features_of_doc(by_doc, by_req, some[i].0));
            lookup(docs_expanded(some, by_doc, by_req, start), some[i].0) == if c.len() == 0 {
                None
            } else {
                Some(c)
            }
        }),
    decreases some.len(),
{
    let rest = some.drop_last();
    let n = some.len() - 1;
    let d = some[i].0;
    lemma_docs_expanded(rest, by_doc, by_req, start, start, d);
    assert(forall|q: int| 0 <= q < n ==> #[trigger] rest[q] == some[q]);
    assert(ascending(rest));
    let before = docs_expanded(rest, by_doc, by_req, start);
    let (t, m) = some.last();
    let c = feature_contexts(features_of_doc(by_doc, by_req, t));
    if i < n {
        lemma_docs_at(rest, by_doc, by_req, start, i);
        assert(<Topic as crate::ordered::MapKey>::before(some[i].0@, some[n].0@));
    }
    if is_doc(m) {
        lemma_with_contexts(before, t, c, d);
    }
}

proof fn lemma_not_code(
    some: Seq<(Topic, TopicMetadata)>,
    contexts: Seq<(Topic, Seq<ContextView>)>,
    k: Topic,
)
    requires
        forall|i: int|
            0 <= i < some.len() && (#[trigger] some[i]).0 == k ==> shown_topic(some[i].1) is None,
    ensures
        !code_touched(some, contexts, k),
    decreases some.len(),
{
    if some.len() > 0 {
        let rest = some.drop_last();
        assert forall|i: int| 0 <= i < rest.len() && (#[trigger] rest[i]).0 == k implies
            shown_topic(rest[i].1) is None by {
            assert(rest[i] == some[i]);
        }
        lemma_not_code(rest, contexts, k);
        assert(some[some.len() - 1] == some.last());
    }
}

proof fn lemma_not_doc(some: Seq<(Topic, TopicMetadata)>, k: Topic)
    requires
        forall|i: int| 0 <= i < some.len() && (#[trigger] some[i]).0 == k ==> !is_doc(some[i].1),
    ensures
        !doc_touched(some, k),
    decreases some.len(),
{
    if some.len() > 0 {
        let rest = some.drop_last();
        assert forall|i: int| 0 <= i < rest.len() && (#[trigger] rest[i]).0 == k implies !is_doc(
            rest[i].1,
        ) by {
            assert(rest[i] == some[i]);
        }
        lemma_not_doc(rest, k);
        assert(some[some.len() - 1] == some.last());
    }
}

proof fn lemma_not_linked(links: Seq<(Topic, Seq<Topic>)>, k: Topic)
    requires
        !has_key(links, k),
    ensures
        !link_touched(links, k),
    decreases links.len(),
{
    if links.len() > 0 {
        let rest = links.drop_last();
        assert(!has_key(rest, k)) by {
            if has_key(rest, k) {
                let i = index_of(rest, k);
                assert(rest[i].0@ == k);
                assert(links[i].0@ == k);
            }
        }
        lemma_not_linked(rest, k);
        assert(links[links.len() - 1].0@ == links.last().0);
    }
}

/// The steps of a rebuild of the related contexts.
spec fn docs_step(a: &AuditData) -> Seq<(Topic, Seq<ContextView>)> {
    docs_expanded(
        entries(a),
        requirements_by_doc(a.requirements.pairs()),
        features_by_link(index_lists(a.feature_requirement_links.pairs())),
        context_lists(a.expanded_topic_context.pairs()),
    )
}

spec fn code_step(a: &AuditData) -> Seq<(Topic, Seq<ContextView>)> {
    code_expanded(entries(a), rebuilt_contexts(a), docs_step(a))
}

proof fn lemma_steps(a: &AuditData, b: &AuditData, k: Topic)
    requires
        is_rebuilt(a, b),
        relations_in_order(a, b),
    ensures
        ascending(context_lists(a.expanded_topic_context.pairs())),
        ascending(docs_step(a)),
        ascending(code_step(a)),
        !a.feature_behavior_links@.dom().contains(k) ==> lookup(
            context_lists(b.expanded_topic_context.pairs()),
            k,
        ) == lookup(code_step(a), k),
{
    let f = |v: Vec<SourceContext>| context_views(v@);
    lemma_mapped::<Topic, Vec<SourceContext>, Seq<ContextView>>(
        a.expanded_topic_context.pairs(),
        f,
    );
    let x = context_lists(a.expanded_topic_context.pairs());
    let by_doc = requirements_by_doc(a.requirements.pairs());
    let by_req = features_by_link(index_lists(a.feature_requirement_links.pairs()));
    lemma_docs_expanded(entries(a), by_doc, by_req, x, x, k);
    lemma_code_expanded(entries(a), rebuilt_contexts(a), docs_step(a), docs_step(a), k);
    let links = index_lists(a.feature_behavior_links.pairs());
    lemma_features_expanded(entries(a), links, rebuilt_contexts(a), code_step(a), code_step(a), k);
    if !a.feature_behavior_links@.dom().contains(k) {
        lemma_mapped::<Topic, Vec<Topic>, Seq<Topic>>(
            a.feature_behavior_links.pairs(),
            |v: Vec<Topic>| v@,
        );
        lemma_not_linked(links, k);
    }
}

proof fn lemma_expanded_at(b: &AuditData, k: Topic)
    requires
        ascending(b.expanded_topic_context.pairs()),
    ensures
        match lookup(context_lists(b.expanded_topic_context.pairs()), k) {
            Some(c) => b.expanded_topic_context@.dom().contains(k) && context_views(
                b.expanded_topic_context@[k]@,
            ) == c && b.expanded_topic_context@[k]@.len() == c.len() && forall|i: int|
                0 <= i < c.len() ==> (#[trigger] b.expanded_topic_context@[k]@[i])@ == c[i],
            None => !b.expanded_topic_context@.dom().contains(k),
        },
{
    let f = |v: Vec<SourceContext>| context_views(v@);
    lemma_mapped_lookup(b.expanded_topic_context.pairs(), f, k);
    if b.expanded_topic_context@.dom().contains(k) {
        let found = b.expanded_topic_context@[k]@;
        assert(context_views(found).len() == found.len());
        assert forall|i: int| 0 <= i < found.len() implies (#[trigger] found[i])@ == context_views(
            found,
        )[i] by {}
    }
}

/// A requirement of the feature `ft` was informed by the documentation `d`.
pub open spec fn documents(a: &AuditData, d: Topic, ft: Topic) -> bool {
    exists|r: Topic| #[trigger]
        a.requirements@.dom().contains(r) && a.requirements@[r].documentation_topics@.contains(d)
            && listed_for(a.feature_requirement_links@, ft).contains(r)
}

proof fn lemma_documents(a: &AuditData, d: Topic, ft: Topic)
    requires
        ascending(a.requirements.pairs()),
        ascending(a.feature_requirement_links.pairs()),
    ensures
        features_of_doc(
            requirements_by_doc(a.requirements.pairs()),
            features_by_link(index_lists(a.feature_requirement_links.pairs())),
            d,
        ).contains(ft) == documents(a, d, ft),
{
    let by_doc = requirements_by_doc(a.requirements.pairs());
    let s = a.requirements.pairs();
    let pairs = a.feature_requirement_links.pairs();
    let links = index_lists(pairs);
    let by_req = features_by_link(links);
    lemma_features_of_all(by_req, list_for(by_doc, d), ft);
    lemma_mapped::<Topic, Vec<Topic>, Seq<Topic>>(pairs, |v: Vec<Topic>| v@);
    if features_of_doc(by_doc, by_req, d).contains(ft) {
        let r = choose|r: Topic| #[trigger]
            list_for(by_doc, d).contains(r) && list_for(by_req, r).contains(ft);
        lemma_requirements_by_doc(s, d, r);
        features_by_link_are_the_linked(links, r, ft);
        let i = choose|i: int|
            0 <= i < s.len() && (#[trigger] s[i]).0 == r
                && s[i].1.documentation_topics@.contains(d);
        lemma_index_of(s, i);
        let j = choose|j: int|
            0 <= j < links.len() && (#[trigger] links[j]).0 == ft && links[j].1.contains(r);
        assert(links[j] == (pairs[j].0, pairs[j].1@));
        lemma_index_of(pairs, j);
        assert(a.requirements@.dom().contains(r));
    }
    if documents(a, d, ft) {
        let r = choose|r: Topic| #[trigger]
            a.requirements@.dom().contains(r) && a.requirements@[r].documentation_topics@.contains(
                d,
            ) && listed_for(a.feature_requirement_links@, ft).contains(r);
        lemma_requirements_by_doc(s, d, r);
        features_by_link_are_the_linked(links, r, ft);
        let i = index_of(s, r);
        assert(has_key(s, r));
        assert(s[i].0@ == r);
        let j = index_of(pairs, ft);
        assert(has_key(pairs, ft));
        assert(pairs[j].0@ == ft);
        assert(links[j] == (pairs[j].0, pairs[j].1@));
        assert(list_for(by_doc, d).contains(r));
    }
}

/// After a rebuild, documentation relates to exactly the features with a requirement
/// that it informed.
pub proof fn documentation_relates_to_its_features(
    a: &AuditData,
    b: &AuditData,
    d: Topic,
    ft: Topic,
)
    requires
        is_rebuilt(a, b),
        relations_in_order(a, b),
        knows(a, d),
        a.topic_metadata@[d] is TitledTopic || a.topic_metadata@[d] is UnnamedTopic,
        !a.feature_behavior_links@.dom().contains(d),
    ensures
        documents(a, d, ft) <==> (b.expanded_topic_context@.dom().contains(d) && exists|i: int|
            0 <= i < b.expanded_topic_context@[d]@.len() && (
            #[trigger] b.expanded_topic_context@[d]@[i])@.scope == ft),
{
    let by_doc = requirements_by_doc(a.requirements.pairs());
    let by_req = features_by_link(index_lists(a.feature_requirement_links.pairs()));
    let s = entries(a);
    lemma_steps(a, b, d);
    let n = index_of(s, d);
    assert(has_key(s, d));
    assert(s[n].0@ == d);
    assert forall|i: int| 0 <= i < s.len() && (#[trigger] s[i]).0 == d implies shown_topic(s[i].1)
        is None by {
        lemma_index_of(s, i);
    }
    lemma_not_code(s, rebuilt_contexts(a), d);
    lemma_code_expanded(s, rebuilt_contexts(a), docs_step(a), docs_step(a), d);
    lemma_docs_at(s, by_doc, by_req, context_lists(a.expanded_topic_context.pairs()), n);
    lemma_expanded_at(b, d);
    lemma_documents(a, d, ft);
    let fs = features_of_doc(by_doc, by_req, d);
    let c = feature_contexts(fs);
    if fs.contains(ft) {
        let i = choose|i: int| 0 <= i < fs.len() && fs[i] == ft;
        assert(c[i].scope == ft);
        assert(b.expanded_topic_context@[d]@[i]@ == c[i]);
    }
    if b.expanded_topic_context@.dom().contains(d) && exists|i: int|
        0 <= i < b.expanded_topic_context@[d]@.len() && (
        #[trigger] b.expanded_topic_context@[d]@[i])@.scope == ft {
        let i = choose|i: int|
            0 <= i < b.expanded_topic_context@[d]@.len() && (
            #[trigger] b.expanded_topic_context@[d]@[i])@.scope == ft;
        assert(c[i].scope == ft);
        assert(fs[i] == ft);
    }
}

/// After a rebuild, documentation relates to each feature by the feature itself.
pub proof fn documentation_names_its_features(a: &AuditData, b: &AuditData, d: Topic, i: int)
    requires
        is_rebuilt(a, b),
        relations_in_order(a, b),
        knows(a, d),
        a.topic_metadata@[d] is TitledTopic || a.topic_metadata@[d] is UnnamedTopic,
        !a.feature_behavior_links@.dom().contains(d),
        b.expanded_topic_context@.dom().contains(d),
        0 <= i < b.expanded_topic_context@[d]@.len(),
    ensures
        ({
            let c = b.expanded_topic_context@[d]@[i]@;
            &&& c.is_in_scope
            &&& c.references.len() == 1
            &&& c.references[0].topic == c.scope
            &&& c.nested.len() == 0
        }),
{
    let by_doc = requirements_by_doc(a.requirements.pairs());
    let by_req = features_by_link(index_lists(a.feature_requirement_links.pairs()));
    let s = entries(a);
    lemma_steps(a, b, d);
    let n = index_of(s, d);
    assert(has_key(s, d));
    assert(s[n].0@ == d);
    assert forall|i: int| 0 <= i < s.len() && (#[trigger] s[i]).0 == d implies shown_topic(s[i].1)
        is None by {
        lemma_index_of(s, i);
    }
    lemma_not_code(s, rebuilt_contexts(a), d);
    lemma_code_expanded(s, rebuilt_contexts(a), docs_step(a), docs_step(a), d);
    lemma_docs_at(s, by_doc, by_req, context_lists(a.expanded_topic_context.pairs()), n);
    lemma_expanded_at(b, d);
    let fs = features_of_doc(by_doc, by_req, d);
    assert(b.expanded_topic_context@[d]@[i]@ == feature_contexts(fs)[i]);
}

proof fn lemma_code_at(
    some: Seq<(Topic, TopicMetadata)>,
    contexts: Seq<(Topic, Seq<ContextView>)>,
    start: Seq<(Topic, Seq<ContextView>)>,
    i: int,
    code: Topic,
)
    requires
        ascending(some),
        ascending(start),
        0 <= i < some.len(),
        shown_topic(some[i].1) == Some(code),
        contexts_for(contexts, code).len() > 0,
    ensures
        lookup(code_expanded(some, contexts, start), some[i].0) == Some(
            contexts_for(contexts, code),
        ),
    decreases some.len(),
{
    let rest = some.drop_last();
    let n = some.len() - 1;
    let k = some[i].0;
    lemma_code_expanded(rest, contexts, start, start, k);
    assert(forall|q: int| 0 <= q < n ==> #[trigger] rest[q] == some[q]);
    assert(ascending(rest));
    if i < n {
        lemma_code_at(rest, contexts, start, i, code);
        assert(<Topic as crate::ordered::MapKey>::before(some[i].0@, some[n].0@));
    }
    let (t, m) = some.last();
    if let Some(c) = shown_topic(m) {
        if contexts_for(contexts, c).len() > 0 {
            lemma_lookup_put(
                code_expanded(rest, contexts, start),
                t,
                contexts_for(contexts, c),
                k,
            );
        }
    }
}

/// After a rebuild, a behavior relates to the contexts of its member, and a semantic
/// to those of its declaration, where there are any.
pub proof fn behaviors_and_semantics_relate_to_their_code(
    a: &AuditData,
    b: &AuditData,
    t: Topic,
    code: Topic,
)
    requires
        is_rebuilt(a, b),
        relations_in_order(a, b),
        knows(a, t),
        match a.topic_metadata@[t] {
            TopicMetadata::BehaviorTopic { member_topic, .. } => member_topic == code,
            TopicMetadata::FunctionalSemanticTopic { declaration_topic, .. } => declaration_topic
                == code,
            _ => false,
        },
        b.topic_context@.dom().contains(code),
        b.topic_context@[code]@.len() > 0,
        !a.feature_behavior_links@.dom().contains(t),
    ensures
        b.expanded_topic_context@.dom().contains(t),
        context_views(b.expanded_topic_context@[t]@) == context_views(b.topic_context@[code]@),
{
    let s = entries(a);
    let contexts = rebuilt_contexts(a);
    let f = |v: Vec<SourceContext>| context_views(v@);
    lemma_steps(a, b, t);
    lemma_mapped_lookup(b.topic_context.pairs(), f, code);
    assert(context_views(b.topic_context@[code]@).len() == b.topic_context@[code]@.len());
    let i = index_of(s, t);
    assert(has_key(s, t));
    assert(s[i].0@ == t);
    lemma_code_at(s, contexts, docs_step(a), i, code);
    lemma_expanded_at(b, t);
}

proof fn lemma_features_at(
    meta: Seq<(Topic, TopicMetadata)>,
    links: Seq<(Topic, Seq<Topic>)>,
    contexts: Seq<(Topic, Seq<ContextView>)>,
    start: Seq<(Topic, Seq<ContextView>)>,
    i: int,
)
    requires
        ascending(links),
        ascending(start),
        0 <= i < links.len(),
    ensures
        ({
            let c = merged_contexts(contexts_of_all(contexts, members_of(meta, links[i].1)));
            lookup(features_expanded(meta, links, contexts, start), links[i].0) == if c.len() == 0 {
                None
            } else {
                Some(c)
            }
        }),
    decreases links.len(),
{
    let rest = links.drop_last();
    let n = links.len() - 1;
    let k = links[i].0;
    lemma_features_expanded(meta, rest, contexts, start, start, k);
    assert(forall|q: int| 0 <= q < n ==> #[trigger] rest[q] == links[q]);
    assert(ascending(rest));
    if i < n {
        lemma_features_at(meta, rest, contexts, start, i);
        assert(<Topic as crate::ordered::MapKey>::before(links[i].0@, links[n].0@));
    }
    let (ft, list) = links.last();
    lemma_with_contexts(
        features_expanded(meta, rest, contexts, start),
        ft,
        merged_contexts(contexts_of_all(contexts, members_of(meta, list))),
        k,
    );
}

proof fn lemma_members_of(meta: Seq<(Topic, TopicMetadata)>, list: Seq<Topic>, mt: Topic)
    ensures
        members_of(meta, list).contains(mt) <==> exists|bt: Topic| #[trigger]
            list.contains(bt) && crate::domain::features::member_of(meta, bt) == Some(mt),
    decreases list.len(),
{
    if list.len() > 0 {
        let rest = list.drop_last();
        let e = list[list.len() - 1];
        lemma_members_of(meta, rest, mt);
        assert(rest.push(e) =~= list);
        lemma_pushed(rest, e, e);
        if let Some(m) = crate::domain::features::member_of(meta, e) {
            crate::domain::feature_laws::lemma_with_topic(members_of(meta, rest), m);
        }
        if exists|bt: Topic| #[trigger]
            rest.contains(bt) && crate::domain::features::member_of(meta, bt) == Some(mt) {
            let bt = choose|bt: Topic| #[trigger]
                rest.contains(bt) && crate::domain::features::member_of(meta, bt) == Some(mt);
            lemma_pushed(rest, e, bt);
        }
        if exists|bt: Topic| #[trigger]
            list.contains(bt) && crate::domain::features::member_of(meta, bt) == Some(mt) {
            let bt = choose|bt: Topic| #[trigger]
                list.contains(bt) && crate::domain::features::member_of(meta, bt) == Some(mt);
            lemma_pushed(rest, e, bt);
        }
    }
}

proof fn lemma_contexts_of_all(
    contexts: Seq<(Topic, Seq<ContextView>)>,
    list: Seq<Topic>,
    c: ContextView,
)
    ensures
        contexts_of_all(contexts, list).contains(c) <==> exists|m: Topic| #[trigger]
            list.contains(m) && contexts_for(contexts, m).contains(c),
    decreases list.len(),
{
    if list.len() > 0 {
        let rest = list.drop_last();
        let e = list[list.len() - 1];
        lemma_contexts_of_all(contexts, rest, c);
        crate::resolution_graph::links::lemma_joined_holds(
            contexts_of_all(contexts, rest),
            contexts_for(contexts, e),
            c,
        );
        assert(rest.push(e) =~= list);
        lemma_pushed(rest, e, e);
        if exists|m: Topic| #[trigger] rest.contains(m) && contexts_for(contexts, m).contains(c) {
            let m = choose|m: Topic| #[trigger]
                rest.contains(m) && contexts_for(contexts, m).contains(c);
            lemma_pushed(rest, e, m);
        }
        if exists|m: Topic| #[trigger] list.contains(m) && contexts_for(contexts, m).contains(c) {
            let m = choose|m: Topic| #[trigger]
                list.contains(m) && contexts_for(contexts, m).contains(c);
            lemma_pushed(rest, e, m);
        }
    }
}

/// After a rebuild, a feature relates to the scopes in the contexts of the members of
/// its behaviors, and to no others.
pub proof fn features_relate_to_the_code_of_their_behaviors(
    a: &AuditData,
    b: &AuditData,
    f: Topic,
    s: Topic,
)
    requires
        is_rebuilt(a, b),
        relations_in_order(a, b),
        a.feature_behavior_links@.dom().contains(f),
    ensures
        (b.expanded_topic_context@.dom().contains(f) && exists|i: int|
            0 <= i < b.expanded_topic_context@[f]@.len() && (
            #[trigger] b.expanded_topic_context@[f]@[i])@.scope == s) <==> exists|
            bt: Topic,
            mt: Topic,
        | #[trigger]
            behavior_of(a, f, bt, mt) && #[trigger] occurs_in(b, mt, s),
{
    let meta = entries(a);
    let pairs = a.feature_behavior_links.pairs();
    let links = index_lists(pairs);
    let contexts = rebuilt_contexts(a);
    lemma_steps(a, b, f);
    lemma_mapped::<Topic, Vec<Topic>, Seq<Topic>>(pairs, |v: Vec<Topic>| v@);
    let i = index_of(pairs, f);
    assert(has_key(pairs, f));
    assert(pairs[i].0@ == f);
    assert(links[i] == (pairs[i].0, pairs[i].1@));
    lemma_features_at(meta, links, contexts, code_step(a), i);
    lemma_expanded_at(b, f);
    let list = listed_for(a.feature_behavior_links@, f);
    assert(list == links[i].1);
    let all = contexts_of_all(contexts, members_of(meta, list));
    let merged = merged_contexts(all);
    crate::domain::context_laws::joined_contexts_have_the_scopes(all, s);
    let cv = |v: Vec<SourceContext>| context_views(v@);
    if b.expanded_topic_context@.dom().contains(f) && exists|i: int|
        0 <= i < b.expanded_topic_context@[f]@.len() && (
        #[trigger] b.expanded_topic_context@[f]@[i])@.scope == s {
        let k = choose|k: int|
            0 <= k < b.expanded_topic_context@[f]@.len() && (
            #[trigger] b.expanded_topic_context@[f]@[k])@.scope == s;
        assert(merged[k].scope == s);
        let j = choose|j: int| 0 <= j < all.len() && (#[trigger] all[j]).scope == s;
        assert(all.contains(all[j]));
        lemma_contexts_of_all(contexts, members_of(meta, list), all[j]);
        let mt = choose|m: Topic| #[trigger]
            members_of(meta, list).contains(m) && contexts_for(contexts, m).contains(all[j]);
        lemma_members_of(meta, list, mt);
        let bt = choose|bt: Topic| #[trigger]
            list.contains(bt) && crate::domain::features::member_of(meta, bt) == Some(mt);
        lemma_mapped_lookup(b.topic_context.pairs(), cv, mt);
        let found = b.topic_context@[mt]@;
        let q = choose|q: int|
            0 <= q < contexts_for(contexts, mt).len() && contexts_for(contexts, mt)[q] == all[j];
        assert(context_views(found)[q] == found[q]@);
        assert(occurs_in(b, mt, s));
        assert(behavior_of(a, f, bt, mt));
    }
    if exists|bt: Topic, mt: Topic| #[trigger]
        behavior_of(a, f, bt, mt) && #[trigger] occurs_in(b, mt, s) {
        let (bt, mt) = choose|bt: Topic, mt: Topic| #[trigger]
            behavior_of(a, f, bt, mt) && #[trigger] occurs_in(b, mt, s);
        assert(crate::domain::features::member_of(meta, bt) == Some(mt));
        lemma_members_of(meta, list, mt);
        lemma_mapped_lookup(b.topic_context.pairs(), cv, mt);
        let found = b.topic_context@[mt]@;
        let q = choose|q: int| 0 <= q < found.len() && (#[trigger] found[q])@.scope == s;
        assert(context_views(found)[q] == found[q]@);
        assert(contexts_for(contexts, mt).contains(found[q]@));
        lemma_contexts_of_all(contexts, members_of(meta, list), found[q]@);
        let j = choose|j: int| 0 <= j < all.len() && all[j] == found[q]@;
        assert(all[j].scope == s);
        let k = choose|k: int| 0 <= k < merged.len() && (#[trigger] merged[k]).scope == s;
        assert(b.expanded_topic_context@[f]@[k]@ == merged[k]);
    }
}

/// The behavior `bt` of the member `mt` is linked to the feature `f`.
pub open spec fn behavior_of(a: &AuditData, f: Topic, bt: Topic, mt: Topic) -> bool {
    &&& listed_for(a.feature_behavior_links@, f).contains(bt)
    &&& knows(a, bt)
    &&& match a.topic_metadata@[bt] {
        TopicMetadata::BehaviorTopic { member_topic, .. } => member_topic == mt,
        _ => false,
    }
}

/// `t` occurs in the scope `s`.
pub open spec fn occurs_in(b: &AuditData, t: Topic, s: Topic) -> bool {
    b.topic_context@.dom().contains(t) && exists|i: int|
        0 <= i < b.topic_context@[t]@.len() && (#[trigger] b.topic_context@[t]@[i])@.scope == s
}

} // verus!
