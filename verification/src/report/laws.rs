//! What holds of reports as a whole.
use crate::domain::audit::{entries, AuditData, ThreatFeatureLink};
use crate::domain::index::list_for;
use crate::domain::metadata::MetadataView;
use crate::domain::topic::{number_of, prefix_of, topic_text, topic_text_denotes, Topic};
use crate::ordered::{ascending, has_key, index_of, lemma_index_of, lookup};
use crate::report::apply::{characteristic_entries, installed, is_highest, lemma_installed};
use crate::report::apply::{links_listed, requirement_entries, retained, row_entries};
use crate::report::apply::threat_link_meant;
use crate::report::export::{by_topic, index_pairs, link_rows, pair_at_most, pair_at_most_total};
use crate::report::export::{pair_at_most_transitive, pair_order, pair_texts, pipeline_of};
use crate::report::export::{row_of_entry, rows, text_at_most, text_at_most_total};
use crate::report::export::{text_at_most_transitive, threat_link_order, threat_link_row};
use crate::report::export::{threat_link_rows, PipelineView, ThreatLinkView};
use crate::report::rows::{as_reported, characteristic_docs, meant, requirement_docs};
use crate::report::rows::{written_ids_are_read_back, ReportBehavior, ReportCharacteristic};
use crate::report::rows::{ReportCondition, ReportFeature, ReportFunctionalPurpose};
use crate::report::rows::{ReportFunctionalSemantic, ReportInvariant, ReportPlacementRationale};
use crate::report::rows::{ReportRequirement, ReportRow, ReportThreat, ReportValidation};
use crate::sorting::{in_order, is_preorder, lemma_sorted_by_mapped, lemma_sorted_filtered};
use crate::sorting::{sorted_by, sorted_by_is_sorted};
use crate::text::text_before_irreflexive;
use vstd::prelude::*;

verus! {

/// Each topic that analysis produced is kept under itself.
pub open spec fn is_keyed(a: &AuditData) -> bool {
    forall|i: int|
        0 <= i < entries(a).len() && as_reported((#[trigger] entries(a)[i]).1@) is Some
            ==> (as_reported(entries(a)[i].1@)->0).0 == entries(a)[i].0
}

/// What analysis found out about a topic.
pub open spec fn produced(a: &AuditData, t: Topic) -> Option<MetadataView> {
    match lookup(entries(a), t) {
        Some(m) => match as_reported(m@) {
            Some(e) => Some(e.1),
            None => None,
        },
        None => None,
    }
}

pub proof fn lemma_filter_map_contains<A, B>(s: Seq<A>, f: spec_fn(A) -> Option<B>, n: int, v: B)
    requires
        0 <= n <= s.len(),
    ensures
        s.take(n).filter_map(f).contains(v) == exists|i: int|
            0 <= i < n && f(#[trigger] s[i]) == Some(v),
    decreases n,
{
    if n == 0 {
        assert(s.take(0) =~= Seq::empty());
        assert(Seq::<A>::empty().filter_map(f) =~= Seq::empty());
    } else {
        lemma_filter_map_contains(s, f, n - 1, v);
        s.lemma_filter_map_take_succ(f, n - 1);
        let before = s.take(n - 1).filter_map(f);
        let after = s.take(n).filter_map(f);
        if after.contains(v) {
            let k = choose|k: int| 0 <= k < after.len() && after[k] == v;
            if k < before.len() {
                assert(before[k] == v);
            } else {
                assert(f(s[n - 1]) == Some(v));
            }
        }
        if exists|i: int| 0 <= i < n && f(#[trigger] s[i]) == Some(v) {
            let i = choose|i: int| 0 <= i < n && f(#[trigger] s[i]) == Some(v);
            if i < n - 1 {
                let k = choose|k: int| 0 <= k < before.len() && before[k] == v;
                assert(after[k] == v);
            } else {
                assert(after[after.len() - 1] == v);
            }
        }
    }
}

pub proof fn lemma_by_topic<R: ReportRow>()
    ensures
        is_preorder(by_topic::<R>()),
{
    let le = by_topic::<R>();
    assert forall|a: R::V, b: R::V| #[trigger] le(a, b) || le(b, a) by {
        text_at_most_total(R::row_topic(a), R::row_topic(b));
    }
    assert forall|a: R::V, b: R::V, c: R::V| #[trigger] le(a, b) && #[trigger] le(b, c) implies le(
        a,
        c,
    ) by {
        text_at_most_transitive(R::row_topic(a), R::row_topic(b), R::row_topic(c));
    }
}

/// The rows of a report stand in the order of the wire forms of their topics.
pub proof fn rows_stand_in_topic_order<R: ReportRow>(a: &AuditData)
    ensures
        in_order(rows::<R>(a), by_topic::<R>()),
{
    lemma_by_topic::<R>();
    sorted_by_is_sorted(entries(a).filter_map(row_of_entry::<R>(a)), by_topic::<R>());
}

/// The rows of a report are those of the topics of their kind.
pub proof fn rows_are_those_of_the_topics<R: ReportRow>(a: &AuditData, v: R::V)
    ensures
        rows::<R>(a).contains(v) == exists|i: int|
            0 <= i < entries(a).len() && R::row_for(a, (#[trigger] entries(a)[i]).1@) == Some(v),
{
    let s = entries(a);
    let f = row_of_entry::<R>(a);
    lemma_by_topic::<R>();
    sorted_by_is_sorted(s.filter_map(f), by_topic::<R>());
    lemma_filter_map_contains(s, f, s.len() as int, v);
    assert(s.take(s.len() as int) =~= s);
    assert(rows::<R>(a).contains(v) == s.filter_map(f).contains(v));
    if exists|i: int| 0 <= i < s.len() && f(#[trigger] s[i]) == Some(v) {
        let i = choose|i: int| 0 <= i < s.len() && f(#[trigger] s[i]) == Some(v);
        assert(R::row_for(a, s[i].1@) == Some(v));
    }
    if exists|i: int| 0 <= i < s.len() && R::row_for(a, (#[trigger] s[i]).1@) == Some(v) {
        let i = choose|i: int| 0 <= i < s.len() && R::row_for(a, (#[trigger] s[i]).1@) == Some(v);
        assert(f(s[i]) == Some(v));
    }
}

/// All entries are what analysis found out.
spec fn all_produced(a: &AuditData, es: Seq<(Topic, MetadataView)>) -> bool {
    forall|i: int| 0 <= i < es.len() ==> produced(a, (#[trigger] es[i]).0) == Some(es[i].1)
}

proof fn lemma_group_sound<R: ReportRow>(a: &AuditData)
    requires
        ascending(entries(a)),
        is_keyed(a),
    ensures
        all_produced(a, row_entries::<R>(rows::<R>(a))),
{
    let s = rows::<R>(a);
    let es = row_entries::<R>(s);
    assert forall|k: int| 0 <= k < es.len() implies produced(a, (#[trigger] es[k]).0) == Some(
        es[k].1,
    ) by {
        let v = s[k];
        assert(s.contains(v));
        rows_are_those_of_the_topics::<R>(a, v);
        let i = choose|i: int|
            0 <= i < entries(a).len() && R::row_for(a, (#[trigger] entries(a)[i]).1@) == Some(v);
        R::row_reads_back(a, entries(a)[i].1@);
        lemma_index_of(entries(a), i);
        assert(as_reported(entries(a)[i].1@) == Some(es[k]));
    }
}

proof fn lemma_group_complete<R: ReportRow>(a: &AuditData, i: int)
    requires
        0 <= i < entries(a).len(),
        R::row_for(a, entries(a)[i].1@) is Some,
    ensures
        as_reported(entries(a)[i].1@) is Some,
        row_entries::<R>(rows::<R>(a)).contains(as_reported(entries(a)[i].1@)->0),
{
    let s = rows::<R>(a);
    let v = R::row_for(a, entries(a)[i].1@)->0;
    assert(R::row_for(a, entries(a)[i].1@) == Some(v));
    rows_are_those_of_the_topics::<R>(a, v);
    R::row_reads_back(a, entries(a)[i].1@);
    let k = choose|k: int| 0 <= k < s.len() && s[k] == v;
    assert(row_entries::<R>(s)[k] == as_reported(entries(a)[i].1@)->0);
}

proof fn lemma_joined_contains<A>(x: Seq<A>, y: Seq<A>, e: A)
    ensures
        (x + y).contains(e) == (x.contains(e) || y.contains(e)),
{
    if x.contains(e) {
        let k = choose|k: int| 0 <= k < x.len() && x[k] == e;
        assert((x + y)[k] == e);
    }
    if y.contains(e) {
        let k = choose|k: int| 0 <= k < y.len() && y[k] == e;
        assert((x + y)[x.len() + k] == e);
    }
    if (x + y).contains(e) {
        let k = choose|k: int| 0 <= k < (x + y).len() && (x + y)[k] == e;
        if k < x.len() {
            assert(x[k] == e);
        } else {
            assert(y[k - x.len()] == e);
        }
    }
}

proof fn lemma_joined_produced(
    a: &AuditData,
    x: Seq<(Topic, MetadataView)>,
    y: Seq<(Topic, MetadataView)>,
)
    requires
        all_produced(a, x),
        all_produced(a, y),
    ensures
        all_produced(a, x + y),
{
    let es = x + y;
    assert forall|i: int| 0 <= i < es.len() implies produced(a, (#[trigger] es[i]).0) == Some(
        es[i].1,
    ) by {
        if i < x.len() {
            assert(es[i] == x[i]);
        } else {
            assert(es[i] == y[i - x.len()]);
        }
    }
}

proof fn lemma_entries_sound(a: &AuditData)
    requires
        ascending(entries(a)),
        is_keyed(a),
    ensures
        all_produced(a, pipeline_of(a).entries()),
{
    let p = pipeline_of(a);
    lemma_group_sound::<ReportFeature>(a);
    lemma_group_sound::<ReportRequirement>(a);
    lemma_group_sound::<ReportBehavior>(a);
    lemma_group_sound::<ReportCharacteristic>(a);
    lemma_group_sound::<ReportFunctionalSemantic>(a);
    lemma_group_sound::<ReportFunctionalPurpose>(a);
    lemma_group_sound::<ReportPlacementRationale>(a);
    lemma_group_sound::<ReportCondition>(a);
    lemma_group_sound::<ReportThreat>(a);
    lemma_group_sound::<ReportInvariant>(a);
    lemma_group_sound::<ReportValidation>(a);
    let e0 = row_entries::<ReportFeature>(p.features);
    let e1 = e0 + row_entries::<ReportRequirement>(p.requirements);
    lemma_joined_produced(a, e0, row_entries::<ReportRequirement>(p.requirements));
    let e2 = e1 + row_entries::<ReportBehavior>(p.behaviors);
    lemma_joined_produced(a, e1, row_entries::<ReportBehavior>(p.behaviors));
    let e3 = e2 + row_entries::<ReportCharacteristic>(p.characteristics);
    lemma_joined_produced(a, e2, row_entries::<ReportCharacteristic>(p.characteristics));
    let e4 = e3 + row_entries::<ReportFunctionalSemantic>(p.functional_semantics);
    lemma_joined_produced(a, e3, row_entries::<ReportFunctionalSemantic>(p.functional_semantics));
    let e5 = e4 + row_entries::<ReportFunctionalPurpose>(p.functional_purposes);
    lemma_joined_produced(a, e4, row_entries::<ReportFunctionalPurpose>(p.functional_purposes));
    let e6 = e5 + row_entries::<ReportPlacementRationale>(p.placement_rationales);
    lemma_joined_produced(a, e5, row_entries::<ReportPlacementRationale>(p.placement_rationales));
    let e7 = e6 + row_entries::<ReportCondition>(p.conditions);
    lemma_joined_produced(a, e6, row_entries::<ReportCondition>(p.conditions));
    let e8 = e7 + row_entries::<ReportThreat>(p.threats);
    lemma_joined_produced(a, e7, row_entries::<ReportThreat>(p.threats));
    let e9 = e8 + row_entries::<ReportInvariant>(p.invariants);
    lemma_joined_produced(a, e8, row_entries::<ReportInvariant>(p.invariants));
    let e10 = e9 + row_entries::<ReportValidation>(p.validations);
    lemma_joined_produced(a, e9, row_entries::<ReportValidation>(p.validations));
}

proof fn lemma_entries_complete(a: &AuditData, i: int)
    requires
        0 <= i < entries(a).len(),
        as_reported(entries(a)[i].1@) is Some,
    ensures
        pipeline_of(a).entries().contains(as_reported(entries(a)[i].1@)->0),
{
    let p = pipeline_of(a);
    let e = as_reported(entries(a)[i].1@)->0;
    match entries(a)[i].1@ {
        MetadataView::FeatureTopic { .. } => {
            lemma_group_complete::<ReportFeature>(a, i);
        },
        MetadataView::RequirementTopic { .. } => {
            lemma_group_complete::<ReportRequirement>(a, i);
        },
        MetadataView::BehaviorTopic { .. } => {
            lemma_group_complete::<ReportBehavior>(a, i);
        },
        MetadataView::CharacteristicTopic { .. } => {
            lemma_group_complete::<ReportCharacteristic>(a, i);
        },
        MetadataView::FunctionalSemanticTopic { .. } => {
            lemma_group_complete::<ReportFunctionalSemantic>(a, i);
        },
        MetadataView::FunctionalPurposeTopic { .. } => {
            lemma_group_complete::<ReportFunctionalPurpose>(a, i);
        },
        MetadataView::PlacementRationaleTopic { .. } => {
            lemma_group_complete::<ReportPlacementRationale>(a, i);
        },
        MetadataView::ConditionTopic { .. } => {
            lemma_group_complete::<ReportCondition>(a, i);
        },
        MetadataView::ThreatTopic { .. } => {
            lemma_group_complete::<ReportThreat>(a, i);
        },
        MetadataView::InvariantTopic { .. } => {
            lemma_group_complete::<ReportInvariant>(a, i);
        },
        MetadataView::ValidationTopic { .. } => {
            lemma_group_complete::<ReportValidation>(a, i);
        },
        _ => {},
    }
    let e0 = row_entries::<ReportFeature>(p.features);
    let e1 = e0 + row_entries::<ReportRequirement>(p.requirements);
    lemma_joined_contains(e0, row_entries::<ReportRequirement>(p.requirements), e);
    let e2 = e1 + row_entries::<ReportBehavior>(p.behaviors);
    lemma_joined_contains(e1, row_entries::<ReportBehavior>(p.behaviors), e);
    let e3 = e2 + row_entries::<ReportCharacteristic>(p.characteristics);
    lemma_joined_contains(e2, row_entries::<ReportCharacteristic>(p.characteristics), e);
    let e4 = e3 + row_entries::<ReportFunctionalSemantic>(p.functional_semantics);
    lemma_joined_contains(e3, row_entries::<ReportFunctionalSemantic>(p.functional_semantics), e);
    let e5 = e4 + row_entries::<ReportFunctionalPurpose>(p.functional_purposes);
    lemma_joined_contains(e4, row_entries::<ReportFunctionalPurpose>(p.functional_purposes), e);
    let e6 = e5 + row_entries::<ReportPlacementRationale>(p.placement_rationales);
    lemma_joined_contains(e5, row_entries::<ReportPlacementRationale>(p.placement_rationales), e);
    let e7 = e6 + row_entries::<ReportCondition>(p.conditions);
    lemma_joined_contains(e6, row_entries::<ReportCondition>(p.conditions), e);
    let e8 = e7 + row_entries::<ReportThreat>(p.threats);
    lemma_joined_contains(e7, row_entries::<ReportThreat>(p.threats), e);
    let e9 = e8 + row_entries::<ReportInvariant>(p.invariants);
    lemma_joined_contains(e8, row_entries::<ReportInvariant>(p.invariants), e);
    let e10 = e9 + row_entries::<ReportValidation>(p.validations);
    lemma_joined_contains(e9, row_entries::<ReportValidation>(p.validations), e);
}

/// Installing the report on an audit gives back each topic that analysis produced
/// there, but for who wrote it and when. No other topic changes, except that what
/// analysis had produced before is gone.
pub proof fn installing_gives_back_what_was_reported(
    a: &AuditData,
    base: Map<Topic, MetadataView>,
    t: Topic,
)
    requires
        ascending(entries(a)),
        is_keyed(a),
    ensures
        ({
            let after = installed(retained(base), pipeline_of(a).entries());
            match produced(a, t) {
                Some(m) => after.dom().contains(t) && after[t] == m,
                None => {
                    &&& after.dom().contains(t) == retained(base).dom().contains(t)
                    &&& after.dom().contains(t) ==> after[t] == base[t]
                },
            }
        }),
{
    let es = pipeline_of(a).entries();
    let start = retained(base);
    lemma_entries_sound(a);
    lemma_installed(start, es, t);
    if produced(a, t) is Some {
        let i = index_of(entries(a), t);
        assert(entries(a)[i].0 == t);
        lemma_entries_complete(a, i);
        let e = as_reported(entries(a)[i].1@)->0;
        let k = choose|k: int| 0 <= k < es.len() && es[k] == e;
        assert(es[k].0 == t);
        let j = choose|j: int|
            0 <= j < es.len() && (#[trigger] es[j]).0 == t && installed(start, es)[t] == es[j].1;
        assert(produced(a, es[j].0) == Some(es[j].1));
    } else {
        assert forall|j: int| 0 <= j < es.len() implies (#[trigger] es[j]).0 != t by {
            assert(produced(a, es[j].0) == Some(es[j].1));
        }
    }
}

/// Installing a report twice is the same as installing it once.
pub proof fn installing_twice_changes_nothing(m: Map<Topic, MetadataView>, p: PipelineView)
    ensures
        ({
            let once = installed(retained(m), p.entries());
            installed(retained(once), p.entries()) == once
        }),
{
    let es = p.entries();
    let once = installed(retained(m), es);
    let twice = installed(retained(once), es);
    assert forall|t: Topic| #[trigger] twice.dom().contains(t) == once.dom().contains(t) by {
        lemma_installed(retained(m), es, t);
        lemma_installed(retained(once), es, t);
    }
    assert forall|t: Topic| #[trigger] once.dom().contains(t) implies twice[t] == once[t] by {
        lemma_installed(retained(m), es, t);
        lemma_installed(retained(once), es, t);
        lemma_installed_same(retained(m), retained(once), es, t);
    }
    assert(twice =~= once);
}

/// What an entry puts in does not depend on what was there.
proof fn lemma_installed_same<V>(m: Map<Topic, V>, n: Map<Topic, V>, es: Seq<(Topic, V)>, t: Topic)
    ensures
        (exists|i: int| 0 <= i < es.len() && (#[trigger] es[i]).0 == t) ==> installed(m, es)[t]
            == installed(n, es)[t],
    decreases es.len(),
{
    if es.len() > 0 {
        let rest = es.drop_last();
        lemma_installed_same(m, n, rest, t);
        if exists|i: int| 0 <= i < es.len() && (#[trigger] es[i]).0 == t {
            let i = choose|i: int| 0 <= i < es.len() && (#[trigger] es[i]).0 == t;
            if es.last().0 != t {
                assert(rest[i].0 == t);
            }
        }
    }
}

/// A number above the highest in use belongs to no topic yet.
pub proof fn numbers_above_the_highest_are_free<V>(m: Map<Topic, V>, c: char, n: int, t: Topic)
    requires
        is_highest(m, c, n),
        prefix_of(t) == c,
        number_of(t) > n,
    ensures
        !m.dom().contains(t),
{
}

/// The documentation of each requirement comes back as it was.
pub proof fn requirement_documentation_comes_back(a: &AuditData, t: Topic)
    requires
        ascending(entries(a)),
        is_keyed(a),
    ensures
        ({
            let after = installed(
                Map::<Topic, Seq<Topic>>::empty(),
                requirement_entries(pipeline_of(a).requirements),
            );
            let is_requirement = match lookup(entries(a), t) {
                Some(m) => m@ is RequirementTopic,
                None => false,
            };
            &&& after.dom().contains(t) == is_requirement
            &&& is_requirement ==> after[t] == requirement_docs(a, t)
        }),
{
    let s = rows::<ReportRequirement>(a);
    let es = requirement_entries(s);
    lemma_installed(Map::<Topic, Seq<Topic>>::empty(), es, t);
    assert forall|k: int| 0 <= k < es.len() implies {
        let e = #[trigger] es[k];
        &&& lookup(entries(a), e.0) is Some
        &&& lookup(entries(a), e.0)->0@ is RequirementTopic
        &&& e.1 == requirement_docs(a, e.0)
    } by {
        let v = s[k];
        assert(s.contains(v));
        rows_are_those_of_the_topics::<ReportRequirement>(a, v);
        let i = choose|i: int|
            0 <= i < entries(a).len() && ReportRequirement::row_for(
                a,
                (#[trigger] entries(a)[i]).1@,
            ) == Some(v);
        ReportRequirement::row_reads_back(a, entries(a)[i].1@);
        lemma_index_of(entries(a), i);
        written_ids_are_read_back(requirement_docs(a, entries(a)[i].0));
    }
    if lookup(entries(a), t) is Some && lookup(entries(a), t)->0@ is RequirementTopic {
        let i = index_of(entries(a), t);
        assert(entries(a)[i].0 == t);
        let v = ReportRequirement::row_for(a, entries(a)[i].1@)->0;
        assert(ReportRequirement::row_for(a, entries(a)[i].1@) == Some(v));
        rows_are_those_of_the_topics::<ReportRequirement>(a, v);
        ReportRequirement::row_reads_back(a, entries(a)[i].1@);
        let k = choose|k: int| 0 <= k < s.len() && s[k] == v;
        assert(es[k].0 == t);
    }
}

/// The documentation of each characteristic comes back as it was.
pub proof fn characteristic_documentation_comes_back(a: &AuditData, t: Topic)
    requires
        ascending(entries(a)),
        is_keyed(a),
    ensures
        ({
            let after = installed(
                Map::<Topic, Seq<Topic>>::empty(),
                characteristic_entries(pipeline_of(a).characteristics),
            );
            let is_characteristic = match lookup(entries(a), t) {
                Some(m) => m@ is CharacteristicTopic,
                None => false,
            };
            &&& after.dom().contains(t) == is_characteristic
            &&& is_characteristic ==> after[t] == characteristic_docs(a, t)
        }),
{
    let s = rows::<ReportCharacteristic>(a);
    let es = characteristic_entries(s);
    lemma_installed(Map::<Topic, Seq<Topic>>::empty(), es, t);
    assert forall|k: int| 0 <= k < es.len() implies {
        let e = #[trigger] es[k];
        &&& lookup(entries(a), e.0) is Some
        &&& lookup(entries(a), e.0)->0@ is CharacteristicTopic
        &&& e.1 == characteristic_docs(a, e.0)
    } by {
        let v = s[k];
        assert(s.contains(v));
        rows_are_those_of_the_topics::<ReportCharacteristic>(a, v);
        let i = choose|i: int|
            0 <= i < entries(a).len() && ReportCharacteristic::row_for(
                a,
                (#[trigger] entries(a)[i]).1@,
            ) == Some(v);
        ReportCharacteristic::row_reads_back(a, entries(a)[i].1@);
        lemma_index_of(entries(a), i);
        written_ids_are_read_back(characteristic_docs(a, entries(a)[i].0));
    }
    if lookup(entries(a), t) is Some && lookup(entries(a), t)->0@ is CharacteristicTopic {
        let i = index_of(entries(a), t);
        assert(entries(a)[i].0 == t);
        let v = ReportCharacteristic::row_for(a, entries(a)[i].1@)->0;
        assert(ReportCharacteristic::row_for(a, entries(a)[i].1@) == Some(v));
        rows_are_those_of_the_topics::<ReportCharacteristic>(a, v);
        ReportCharacteristic::row_reads_back(a, entries(a)[i].1@);
        let k = choose|k: int| 0 <= k < s.len() && s[k] == v;
        assert(es[k].0 == t);
    }
}

/// The order of topics by their wire forms.
pub open spec fn by_id() -> spec_fn(Topic, Topic) -> bool {
    |a: Topic, b: Topic| text_at_most(topic_text(a), topic_text(b))
}

/// The order of links between threats and features by their wire forms.
pub open spec fn by_threat_link() -> spec_fn(ThreatFeatureLink, ThreatFeatureLink) -> bool {
    |a: ThreatFeatureLink, b: ThreatFeatureLink|
        pair_at_most(
            (topic_text(a.threat_topic), topic_text(a.feature_topic)),
            (topic_text(b.threat_topic), topic_text(b.feature_topic)),
        )
}

pub proof fn lemma_threat_link_order()
    ensures
        is_preorder(threat_link_order()),
{
    let le = threat_link_order();
    assert forall|a: ThreatLinkView, b: ThreatLinkView| #[trigger] le(a, b) || le(b, a) by {
        pair_at_most_total((a.threat_topic, a.feature_topic), (b.threat_topic, b.feature_topic));
    }
    assert forall|a: ThreatLinkView, b: ThreatLinkView, c: ThreatLinkView| #[trigger]
        le(a, b) && #[trigger] le(b, c) implies le(a, c) by {
        pair_at_most_transitive(
            (a.threat_topic, a.feature_topic),
            (b.threat_topic, b.feature_topic),
            (c.threat_topic, c.feature_topic),
        );
    }
}

/// The links between threats and features come back in the order of their wire
/// forms.
pub proof fn threat_links_come_back_sorted(s: Seq<ThreatFeatureLink>)
    ensures
        threat_link_rows(s).map_values(threat_link_meant()) == sorted_by(s, by_threat_link()),
{
    let le = threat_link_order();
    let f = threat_link_meant();
    let viewed = s.map_values(threat_link_row());
    lemma_threat_link_order();
    assert forall|i: int| 0 <= i < s.len() implies f(#[trigger] viewed[i]) == s[i] by {
        topic_text_denotes(s[i].threat_topic);
        topic_text_denotes(s[i].feature_topic);
    }
    lemma_sorted_by_mapped(viewed, f, le, by_threat_link());
    assert(viewed.map_values(f) =~= s);
}

pub proof fn lemma_pair_order()
    ensures
        is_preorder(pair_order()),
{
    let le = pair_order();
    assert forall|a: (Seq<char>, Seq<char>), b: (Seq<char>, Seq<char>)| #[trigger]
        le(a, b) || le(b, a) by {
        pair_at_most_total(a, b);
    }
    assert forall|a: (Seq<char>, Seq<char>), b: (Seq<char>, Seq<char>), c: (Seq<char>, Seq<char>)|
     #[trigger] le(a, b) && #[trigger] le(b, c) implies le(a, c) by {
        pair_at_most_transitive(a, b, c);
    }
}

/// Links whose first topic is `k`.
pub open spec fn linked_from(k: Topic) -> spec_fn((Seq<char>, Seq<char>)) -> bool {
    |p: (Seq<char>, Seq<char>)| meant(p.0) == k
}

pub open spec fn second_meant() -> spec_fn((Seq<char>, Seq<char>)) -> Topic {
    |p: (Seq<char>, Seq<char>)| meant(p.1)
}

/// The list of a topic holds the second topics of its links.
pub proof fn lemma_links_listed(s: Seq<(Seq<char>, Seq<char>)>, k: Topic)
    ensures
        ascending(links_listed(s)),
        list_for(links_listed(s), k) == s.filter(linked_from(k)).map_values(second_meant()),
        has_key(links_listed(s), k) == (s.filter(linked_from(k)).len() > 0),
    decreases s.len(),
{
    let f = linked_from(k);
    let g = second_meant();
    reveal(Seq::filter);
    if s.len() == 0 {
        assert(s.filter(f).map_values(g) =~= Seq::empty());
    } else {
        let t = s.drop_last();
        let e = s.last();
        lemma_links_listed(t, k);
        let rest = links_listed(t);
        let list = list_for(rest, meant(e.0)).push(meant(e.1));
        crate::domain::index::lemma_lookup_put(rest, meant(e.0), list, k);
        if f(e) {
            assert(s.filter(f).map_values(g) =~= t.filter(f).map_values(g).push(g(e)));
        }
    }
}

pub proof fn lemma_pairs_from(s: Seq<(Topic, Seq<Topic>)>, k: Topic)
    requires
        ascending(s),
    ensures
        index_pairs(s).map_values(pair_texts()).filter(linked_from(k)) == list_for(
            s,
            k,
        ).map_values(|t: Topic| (topic_text(k), topic_text(t))),
    decreases s.len(),
{
    let f = linked_from(k);
    let h = |t: Topic| (topic_text(k), topic_text(t));
    let all = index_pairs(s).map_values(pair_texts());
    if s.len() == 0 {
        reveal(Seq::filter);
        assert(!has_key(s, k));
        assert(all.filter(f) =~= list_for(s, k).map_values(h));
    } else {
        let t = s.drop_last();
        let e = s.last();
        let n = s.len() - 1;
        let part = e.1.map_values(|x: Topic| (e.0, x)).map_values(pair_texts());
        assert(forall|i: int| 0 <= i < n ==> #[trigger] t[i] == s[i]);
        assert(ascending(t));
        lemma_pairs_from(t, k);
        assert(all =~= index_pairs(t).map_values(pair_texts()) + part);
        Seq::filter_distributes_over_add(index_pairs(t).map_values(pair_texts()), part, f);
        assert(s[n] == e);
        if e.0 == k {
            topic_text_denotes(k);
            lemma_index_of(s, n);
            assert(forall|i: int| 0 <= i < part.len() ==> f(#[trigger] part[i]));
            lemma_filter_all(part, f);
            assert(!has_key(t, k)) by {
                if has_key(t, k) {
                    let i = index_of(t, k);
                    assert(s[i].0@ == k);
                    lemma_index_of(s, i);
                }
            }
            assert(list_for(t, k).map_values(h) =~= Seq::empty());
            assert(all.filter(f) =~= list_for(s, k).map_values(h));
        } else {
            assert forall|i: int| 0 <= i < part.len() implies !#[trigger] f(part[i]) by {
                topic_text_denotes(e.0);
            }
            part.lemma_all_neg_filter_empty(f);
            assert(part.filter(f) =~= Seq::empty());
            assert(list_for(s, k) == list_for(t, k)) by {
                if has_key(s, k) {
                    let i = index_of(s, k);
                    assert(s[i].0@ == k);
                    assert(t[i].0@ == k);
                    lemma_index_of(t, i);
                    lemma_index_of(s, i);
                }
                if has_key(t, k) {
                    let i = index_of(t, k);
                    assert(s[i].0@ == k);
                    lemma_index_of(s, i);
                }
            }
            assert(all.filter(f) =~= list_for(s, k).map_values(h));
        }
    }
}

proof fn lemma_filter_all<A>(s: Seq<A>, f: spec_fn(A) -> bool)
    requires
        forall|i: int| 0 <= i < s.len() ==> f(#[trigger] s[i]),
    ensures
        s.filter(f) == s,
    decreases s.len(),
{
    reveal(Seq::filter);
    if s.len() > 0 {
        let t = s.drop_last();
        assert(forall|i: int| 0 <= i < t.len() ==> #[trigger] t[i] == s[i]);
        lemma_filter_all(t, f);
        assert(f(s[s.len() - 1]));
        assert(t.push(s.last()) =~= s);
    } else {
        assert(s.filter(f) =~= s);
    }
}

/// The list of each feature comes back in the order of the wire forms, and a
/// feature with an empty list has none afterwards.
pub proof fn links_come_back_sorted(s: Seq<(Topic, Seq<Topic>)>, k: Topic)
    requires
        ascending(s),
    ensures
        list_for(links_listed(link_rows(s)), k) == sorted_by(list_for(s, k), by_id()),
        has_key(links_listed(link_rows(s)), k) == (list_for(s, k).len() > 0),
{
    let all = index_pairs(s).map_values(pair_texts());
    let f = linked_from(k);
    let g = second_meant();
    lemma_links_listed(link_rows(s), k);
    lemma_pair_order();
    lemma_sorted_filtered(all, f, pair_order());
    lemma_pairs_from(s, k);
    let list = list_for(s, k);
    let pairs = list.map_values(|t: Topic| (topic_text(k), topic_text(t)));
    assert forall|i: int| 0 <= i < list.len() implies g(#[trigger] pairs[i]) == list[i] by {
        topic_text_denotes(list[i]);
    }
    text_before_irreflexive(topic_text(k));
    lemma_sorted_by_mapped(pairs, g, pair_order(), by_id());
    assert(pairs.map_values(g) =~= list);
    sorted_by_is_sorted(pairs, pair_order());
}

} // verus!
