//! A report on an audit into which a report was installed.
use crate::domain::audit::{entries, AuditData, ThreatFeatureLink};
use crate::domain::index::index_lists;
use crate::domain::metadata::MetadataView;
use crate::domain::topic::{topic_text, topic_text_denotes, Topic};
use crate::ordered::{ascending, has_key, index_of, lemma_index_of, lookup};
use crate::report::apply::{characteristic_map, has_applied, known, links_listed, requirement_map};
use crate::report::apply::threat_link_meant;
use crate::report::export::{by_topic, index_pairs, link_rows, pair_order, pair_texts};
use crate::report::export::{pipeline_of, row_of_entry, rows, threat_link_order, threat_link_row};
use crate::report::export::threat_link_rows;
use crate::report::laws::characteristic_documentation_comes_back;
use crate::report::laws::{installing_gives_back_what_was_reported, is_keyed, lemma_by_topic};
use crate::report::laws::{lemma_filter_map_contains, lemma_links_listed, lemma_pair_order};
use crate::report::laws::{lemma_pairs_from, lemma_threat_link_order, linked_from, produced};
use crate::report::laws::{requirement_documentation_comes_back, rows_are_those_of_the_topics};
use crate::report::laws::{rows_stand_in_topic_order, second_meant};
use crate::report::rows::{as_reported, characteristic_docs, meant, requirement_docs};
use crate::report::rows::{ReportBehavior, ReportCharacteristic, ReportCondition, ReportFeature};
use crate::report::rows::{ReportFunctionalPurpose, ReportFunctionalSemantic, ReportInvariant};
use crate::report::rows::{ReportPlacementRationale, ReportRequirement, ReportRow, ReportThreat};
use crate::report::rows::ReportValidation;
use crate::sorting::{lemma_order_determines, lemma_picked_count, lemma_picked_from};
use crate::sorting::{lemma_same_members, sorted_by_is_sorted, sorting_ordered_changes_nothing};
use crate::text::{text_before_irreflexive, text_before_total};
use vstd::prelude::*;
use vstd::seq_lib::*;

verus! {

/// `b` holds what analysis produced on `a`, and no other topic of that kind.
spec fn holds_produced(a: &AuditData, b: &AuditData) -> bool {
    &&& forall|t: Topic|
        #![trigger lookup(entries(b), t)]
        match produced(a, t) {
            Some(m) => lookup(entries(b), t) is Some && (lookup(entries(b), t)->0)@ == m,
            None => lookup(entries(b), t) is Some ==> as_reported((lookup(entries(b), t)->0)@)
                is None,
        }
    &&& forall|t: Topic| #[trigger]
        produced(a, t) is Some && produced(a, t)->0 is RequirementTopic ==> requirement_docs(b, t)
            == requirement_docs(a, t)
    &&& forall|t: Topic| #[trigger]
        produced(a, t) is Some && produced(a, t)->0 is CharacteristicTopic ==> characteristic_docs(
            b,
            t,
        ) == characteristic_docs(a, t)
}

proof fn lemma_reported_again(m: MetadataView)
    ensures
        as_reported(m) is Some ==> as_reported((as_reported(m)->0).1) == as_reported(m),
{
}

/// The entry of `a` behind an entry of `b` that analysis produced.
proof fn lemma_entry_behind(a: &AuditData, b: &AuditData, i: int) -> (j: int)
    requires
        ascending(entries(a)),
        ascending(entries(b)),
        is_keyed(a),
        holds_produced(a, b),
        0 <= i < entries(b).len(),
        as_reported(entries(b)[i].1@) is Some,
    ensures
        0 <= j < entries(a).len(),
        entries(a)[j].0 == entries(b)[i].0,
        as_reported(entries(a)[j].1@) == Some((entries(b)[i].0, entries(b)[i].1@)),
        as_reported(entries(b)[i].1@) == Some((entries(b)[i].0, entries(b)[i].1@)),
{
    let t = entries(b)[i].0;
    lemma_index_of(entries(b), i);
    assert(lookup(entries(b), t) == Some(entries(b)[i].1));
    assert(produced(a, t) is Some);
    let j = index_of(entries(a), t);
    assert(entries(a)[j].0 == t);
    lemma_reported_again(entries(a)[j].1@);
    j
}

proof fn lemma_keyed_again(a: &AuditData, b: &AuditData)
    requires
        ascending(entries(a)),
        ascending(entries(b)),
        is_keyed(a),
        holds_produced(a, b),
    ensures
        is_keyed(b),
{
    assert forall|i: int|
        0 <= i < entries(b).len() && as_reported((#[trigger] entries(b)[i]).1@) is Some implies (
    as_reported(entries(b)[i].1@)->0).0 == entries(b)[i].0 by {
        let _ = lemma_entry_behind(a, b, i);
    }
}

/// Two rows for one topic are the same row.
proof fn lemma_row_unique<R: ReportRow>(x: &AuditData, v: R::V, w: R::V)
    requires
        ascending(entries(x)),
        is_keyed(x),
        rows::<R>(x).contains(v),
        rows::<R>(x).contains(w),
        R::row_topic(v) == R::row_topic(w),
    ensures
        v == w,
{
    rows_are_those_of_the_topics::<R>(x, v);
    rows_are_those_of_the_topics::<R>(x, w);
    let i = choose|i: int|
        0 <= i < entries(x).len() && R::row_for(x, (#[trigger] entries(x)[i]).1@) == Some(v);
    let j = choose|j: int|
        0 <= j < entries(x).len() && R::row_for(x, (#[trigger] entries(x)[j]).1@) == Some(w);
    R::row_reads_back(x, entries(x)[i].1@);
    R::row_reads_back(x, entries(x)[j].1@);
    lemma_index_of(entries(x), i);
    lemma_index_of(entries(x), j);
    assert(entries(x)[i].0 == entries(x)[j].0);
}

proof fn lemma_found_once<R: ReportRow>(x: &AuditData, n: int)
    requires
        ascending(entries(x)),
        is_keyed(x),
        0 <= n <= entries(x).len(),
    ensures
        entries(x).take(n).filter_map(row_of_entry::<R>(x)).no_duplicates(),
    decreases n,
{
    let s = entries(x);
    let f = row_of_entry::<R>(x);
    if n == 0 {
        assert(s.take(0).filter_map(f) =~= Seq::empty());
    } else {
        lemma_found_once::<R>(x, n - 1);
        s.lemma_filter_map_take_succ(f, n - 1);
        let before = s.take(n - 1).filter_map(f);
        if f(s[n - 1]) is Some {
            let v = f(s[n - 1])->0;
            lemma_filter_map_contains(s, f, n - 1, v);
            if before.contains(v) {
                let i = choose|i: int| 0 <= i < n - 1 && f(#[trigger] s[i]) == Some(v);
                R::row_reads_back(x, s[i].1@);
                R::row_reads_back(x, s[n - 1].1@);
                lemma_index_of(s, i);
                lemma_index_of(s, n - 1);
                assert(s[i].0 == s[n - 1].0);
            }
        }
    }
}

proof fn lemma_rows_once<R: ReportRow>(x: &AuditData)
    requires
        ascending(entries(x)),
        is_keyed(x),
    ensures
        rows::<R>(x).no_duplicates(),
{
    let s = entries(x);
    let found = s.filter_map(row_of_entry::<R>(x));
    lemma_found_once::<R>(x, s.len() as int);
    assert(s.take(s.len() as int) =~= s);
    lemma_by_topic::<R>();
    sorted_by_is_sorted(found, by_topic::<R>());
    found.lemma_multiset_has_no_duplicates();
    rows::<R>(x).lemma_multiset_has_no_duplicates_conv();
}

proof fn lemma_row_again<R: ReportRow>(a: &AuditData, b: &AuditData, j: int)
    requires
        holds_produced(a, b),
        ascending(entries(a)),
        is_keyed(a),
        0 <= j < entries(a).len(),
        as_reported(entries(a)[j].1@) is Some,
    ensures
        R::row_for(b, (as_reported(entries(a)[j].1@)->0).1) == R::row_for(a, entries(a)[j].1@),
{
    let t = entries(a)[j].0;
    lemma_index_of(entries(a), j);
    assert(lookup(entries(a), t) == Some(entries(a)[j].1));
    assert(produced(a, t) == Some((as_reported(entries(a)[j].1@)->0).1));
    R::row_is_written_again(a, b, entries(a)[j].1@);
}

proof fn lemma_rows_again<R: ReportRow>(a: &AuditData, b: &AuditData)
    requires
        ascending(entries(a)),
        ascending(entries(b)),
        is_keyed(a),
        holds_produced(a, b),
    ensures
        rows::<R>(b) == rows::<R>(a),
{
    let x = rows::<R>(a);
    let y = rows::<R>(b);
    assert forall|v: R::V| #[trigger] x.contains(v) == y.contains(v) by {
        rows_are_those_of_the_topics::<R>(a, v);
        rows_are_those_of_the_topics::<R>(b, v);
        if x.contains(v) {
            let j = choose|j: int|
                0 <= j < entries(a).len() && R::row_for(a, (#[trigger] entries(a)[j]).1@) == Some(
                    v,
                );
            R::row_reads_back(a, entries(a)[j].1@);
            lemma_row_again::<R>(a, b, j);
            let t = entries(a)[j].0;
            lemma_index_of(entries(a), j);
            assert(produced(a, t) is Some);
            assert(lookup(entries(b), t) is Some);
            let i = index_of(entries(b), t);
            assert(R::row_for(b, entries(b)[i].1@) == Some(v));
        }
        if y.contains(v) {
            let i = choose|i: int|
                0 <= i < entries(b).len() && R::row_for(b, (#[trigger] entries(b)[i]).1@) == Some(
                    v,
                );
            R::row_reads_back(b, entries(b)[i].1@);
            let j = lemma_entry_behind(a, b, i);
            lemma_row_again::<R>(a, b, j);
            assert(R::row_for(a, entries(a)[j].1@) == Some(v));
        }
    }
    lemma_keyed_again(a, b);
    lemma_rows_once::<R>(a);
    lemma_rows_once::<R>(b);
    lemma_same_members(x, y);
    lemma_by_topic::<R>();
    rows_stand_in_topic_order::<R>(a);
    rows_stand_in_topic_order::<R>(b);
    let le = by_topic::<R>();
    assert forall|v: R::V, w: R::V|
        x.contains(v) && x.contains(w) && #[trigger] le(v, w) && le(w, v) implies v == w by {
        text_before_total(R::row_topic(v), R::row_topic(w));
        lemma_row_unique::<R>(a, v, w);
    }
    lemma_order_determines(x, y, le);
}

proof fn lemma_produced_held(a: &AuditData, c: &AuditData, b: &AuditData)
    requires
        ascending(entries(a)),
        ascending(entries(b)),
        is_keyed(a),
        has_applied(c, pipeline_of(a), b),
    ensures
        holds_produced(a, b),
{
    let base = known(c.topic_metadata@);
    assert forall|t: Topic|
        #![trigger lookup(entries(b), t)]
        match produced(a, t) {
            Some(m) => lookup(entries(b), t) is Some && (lookup(entries(b), t)->0)@ == m,
            None => lookup(entries(b), t) is Some ==> as_reported((lookup(entries(b), t)->0)@)
                is None,
        } by {
        installing_gives_back_what_was_reported(a, base, t);
        assert(known(b.topic_metadata@).dom().contains(t) == has_key(entries(b), t));
        if has_key(entries(b), t) {
            assert(known(b.topic_metadata@)[t] == (lookup(entries(b), t)->0)@);
        }
    }
    assert forall|t: Topic| #[trigger]
        produced(a, t) is Some && produced(a, t)->0 is RequirementTopic implies requirement_docs(
        b,
        t,
    ) == requirement_docs(a, t) by {
        requirement_documentation_comes_back(a, t);
        assert(requirement_map(b.requirements@).dom().contains(t) == has_key(
            b.requirements.pairs(),
            t,
        ));
        assert(requirement_map(b.requirements@)[t] == (lookup(
            b.requirements.pairs(),
            t,
        )->0).documentation_topics@);
    }
    assert forall|t: Topic| #[trigger]
        produced(a, t) is Some && produced(a, t)->0 is CharacteristicTopic implies
        characteristic_docs(b, t) == characteristic_docs(a, t) by {
        characteristic_documentation_comes_back(a, t);
        assert(characteristic_map(b.characteristics@).dom().contains(t) == has_key(
            b.characteristics.pairs(),
            t,
        ));
        assert(characteristic_map(b.characteristics@)[t] == (lookup(
            b.characteristics.pairs(),
            t,
        )->0).documentation_topics@);
    }
}

/// Links that are listed by feature and taken from the lists again are the same.
proof fn lemma_links_again(s: Seq<(Topic, Seq<Topic>)>)
    requires
        ascending(s),
    ensures
        link_rows(links_listed(link_rows(s))) == link_rows(s),
{
    let le = pair_order();
    let first = index_pairs(s).map_values(pair_texts());
    let w = link_rows(s);
    let u = links_listed(w);
    let again = index_pairs(u).map_values(pair_texts());
    lemma_pair_order();
    sorted_by_is_sorted(first, le);
    sorted_by_is_sorted(again, le);
    assert forall|p: (Seq<char>, Seq<char>)| #[trigger]
        again.to_multiset().count(p) == w.to_multiset().count(p) by {
        let k = meant(p.0);
        let f = linked_from(k);
        lemma_links_listed(w, k);
        lemma_pairs_from(u, k);
        let picked = w.filter(f);
        assert forall|i: int| 0 <= i < picked.len() implies #[trigger] again.filter(f)[i]
            == picked[i] by {
            lemma_picked_from(w, f, i);
            assert(first.contains(picked[i]));
            let m = choose|m: int| 0 <= m < first.len() && first[m] == picked[i];
            let e = index_pairs(s)[m];
            assert(picked[i] == (topic_text(e.0), topic_text(e.1)));
            topic_text_denotes(e.0);
            topic_text_denotes(e.1);
            assert(picked.map_values(second_meant())[i] == e.1);
        }
        assert(again.filter(f) =~= picked);
        lemma_picked_count(again, f, p);
        lemma_picked_count(w, f, p);
    }
    assert(again.to_multiset() =~= w.to_multiset());
    assert forall|x: (Seq<char>, Seq<char>), y: (Seq<char>, Seq<char>)| #[trigger]
        le(x, y) && le(y, x) implies x == y by {
        text_before_total(x.0, y.0);
        text_before_total(x.1, y.1);
        text_before_irreflexive(x.0);
        if crate::text::text_before(x.0, y.0) && crate::text::text_before(y.0, x.0) {
            crate::text::text_before_transitive(x.0, y.0, x.0);
        }
    }
    lemma_order_determines(w, link_rows(u), le);
}

proof fn lemma_threat_links_again(s: Seq<ThreatFeatureLink>)
    ensures
        threat_link_rows(threat_link_rows(s).map_values(threat_link_meant())) == threat_link_rows(
            s,
        ),
{
    let le = threat_link_order();
    let first = s.map_values(threat_link_row());
    let w = threat_link_rows(s);
    let back = w.map_values(threat_link_meant());
    lemma_threat_link_order();
    sorted_by_is_sorted(first, le);
    assert forall|i: int| 0 <= i < w.len() implies #[trigger] back.map_values(threat_link_row())[i]
        == w[i] by {
        assert(w.contains(w[i]));
        assert(first.contains(w[i]));
        let m = choose|m: int| 0 <= m < first.len() && first[m] == w[i];
        topic_text_denotes(s[m].threat_topic);
        topic_text_denotes(s[m].feature_topic);
    }
    assert(back.map_values(threat_link_row()) =~= w);
    sorting_ordered_changes_nothing(w, le);
}

/// A report on an audit into which a report was installed says the same as that
/// report, whatever the audit held before.
pub proof fn reporting_again_says_the_same(a: &AuditData, c: &AuditData, b: &AuditData)
    requires
        ascending(entries(a)),
        ascending(entries(b)),
        ascending(index_lists(a.feature_requirement_links.pairs())),
        ascending(index_lists(a.feature_behavior_links.pairs())),
        is_keyed(a),
        has_applied(c, pipeline_of(a), b),
    ensures
        pipeline_of(b) == pipeline_of(a),
{
    lemma_produced_held(a, c, b);
    lemma_rows_again::<ReportFeature>(a, b);
    lemma_rows_again::<ReportRequirement>(a, b);
    lemma_rows_again::<ReportBehavior>(a, b);
    lemma_rows_again::<ReportCharacteristic>(a, b);
    lemma_rows_again::<ReportFunctionalSemantic>(a, b);
    lemma_rows_again::<ReportFunctionalPurpose>(a, b);
    lemma_rows_again::<ReportPlacementRationale>(a, b);
    lemma_rows_again::<ReportCondition>(a, b);
    lemma_rows_again::<ReportThreat>(a, b);
    lemma_rows_again::<ReportInvariant>(a, b);
    lemma_rows_again::<ReportValidation>(a, b);
    lemma_links_again(index_lists(a.feature_requirement_links.pairs()));
    lemma_links_again(index_lists(a.feature_behavior_links.pairs()));
    lemma_threat_links_again(a.threat_feature_links@);
}

} // verus!
