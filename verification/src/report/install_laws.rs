//! What a report brings into an audit, row by row.
use crate::domain::audit::AuditData;
use crate::domain::index::{lemma_lookup_put, list_for};
use crate::domain::rebuild_laws::{knows, lemma_listed_for, listed_for};
use crate::domain::topic::Topic;
use crate::ids::IdCounters;
use crate::ordered::ascending;
use crate::report::apply::{go_on, has_applied, has_room, installed, is_for, known, links_listed};
use crate::report::apply::retained;
use crate::report::content_laws::is_produced;
use crate::report::export::{scope_files, AuditReport, PipelineView, SCHEMA_VERSION};
use crate::report::rows::meant;
use vstd::prelude::*;

verus! {

proof fn lemma_links(s: Seq<(Seq<char>, Seq<char>)>, f: Topic, r: Topic)
    ensures
        ascending(links_listed(s)),
        list_for(links_listed(s), f).contains(r) <==> exists|i: int|
            0 <= i < s.len() && links(#[trigger] s[i], f, r),
    decreases s.len(),
{
    if s.len() > 0 {
        let rest = s.drop_last();
        let n = s.len() - 1;
        lemma_links(rest, f, r);
        let before = links_listed(rest);
        let k = meant(s.last().0);
        let t = meant(s.last().1);
        let list = list_for(before, k);
        lemma_lookup_put(before, k, list.push(t), f);
        if f == k {
            let after = list.push(t);
            assert(after[list.len() as int] == t);
            if list.contains(r) {
                let i = choose|i: int| 0 <= i < list.len() && list[i] == r;
                assert(after[i] == r);
            }
            if after.contains(r) && r != t {
                let i = choose|i: int| 0 <= i < after.len() && after[i] == r;
                assert(list[i] == r);
            }
        }
        assert(s[n] == s.last());
        if exists|i: int| 0 <= i < rest.len() && links(#[trigger] rest[i], f, r) {
            let i = choose|i: int| 0 <= i < rest.len() && links(#[trigger] rest[i], f, r);
            assert(links(s[i], f, r));
        }
        if exists|i: int| 0 <= i < s.len() && links(#[trigger] s[i], f, r) {
            let i = choose|i: int| 0 <= i < s.len() && links(#[trigger] s[i], f, r);
            if i < n {
                assert(links(rest[i], f, r));
            }
        }
    }
}

/// The row links `r` to `f`.
pub open spec fn links(row: (Seq<char>, Seq<char>), f: Topic, r: Topic) -> bool {
    meant(row.0) == f && meant(row.1) == r
}

/// After a report was installed, requirements and behaviors are linked to features
/// exactly where the report says so.
pub proof fn links_are_those_of_the_report(
    a: &AuditData,
    p: PipelineView,
    b: &AuditData,
    f: Topic,
    r: Topic,
)
    requires
        has_applied(a, p, b),
        ascending(b.feature_requirement_links.pairs()),
        ascending(b.feature_behavior_links.pairs()),
    ensures
        listed_for(b.feature_requirement_links@, f).contains(r) <==> exists|i: int|
            0 <= i < p.feature_requirement_links.len() && links(
                #[trigger] p.feature_requirement_links[i],
                f,
                r,
            ),
        listed_for(b.feature_behavior_links@, f).contains(r) <==> exists|i: int|
            0 <= i < p.feature_behavior_links.len() && links(
                #[trigger] p.feature_behavior_links[i],
                f,
                r,
            ),
{
    lemma_links(p.feature_requirement_links, f, r);
    lemma_links(p.feature_behavior_links, f, r);
    lemma_listed_for(b.feature_requirement_links.pairs(), f);
    lemma_listed_for(b.feature_behavior_links.pairs(), f);
}

/// After a report was installed, each of its threat links is there with its relation
/// and severity, in the order of the report, and no others are.
pub proof fn threat_links_are_those_of_the_report(
    a: &AuditData,
    p: PipelineView,
    b: &AuditData,
    i: int,
)
    requires
        has_applied(a, p, b),
    ensures
        b.threat_feature_links@.len() == p.threat_feature_links.len(),
        0 <= i < p.threat_feature_links.len() ==> {
            let l = b.threat_feature_links@[i];
            let v = p.threat_feature_links[i];
            &&& l.threat_topic == meant(v.threat_topic)
            &&& l.feature_topic == meant(v.feature_topic)
            &&& l.relation == v.relation
            &&& l.severity == v.severity
        },
{
}

/// After a report was installed, new topics get numbers that no topic of their family
/// has.
pub proof fn new_numbers_are_free(a: &AuditData, counters: &IdCounters, n: i32)
    requires
        go_on(a, counters),
    ensures
        knows(a, Topic::Spec(n)) ==> n < counters.next_spec,
        knows(a, Topic::FunctionalProperty(n)) ==> n < counters.next_functional_property,
        knows(a, Topic::AdversarialProperty(n)) ==> n < counters.next_adversarial_property,
{
}

/// A file is reported as in scope exactly where it is.
pub proof fn scope_files_are_the_files_in_scope(a: &AuditData, path: Seq<char>)
    ensures
        scope_files(a).contains(path) <==> a.in_scope_files@.dom().contains(path),
{
    let s = a.in_scope_files.pairs();
    let all = scope_files(a);
    if all.contains(path) {
        let i = choose|i: int| 0 <= i < all.len() && all[i] == path;
        assert(s[i].0@ == path);
    }
    if a.in_scope_files@.dom().contains(path) {
        let i = crate::ordered::index_of(s, path);
        assert(s[i].0@ == path);
        assert(all[i] == path);
    }
}

/// What analysis did not produce stays known when a report is installed, unless the
/// report brings it in anew.
pub proof fn what_is_not_produced_stays(a: &AuditData, p: PipelineView, b: &AuditData, t: Topic)
    requires
        has_applied(a, p, b),
        knows(a, t),
        !is_produced(a.topic_metadata@[t]@),
        forall|i: int| 0 <= i < p.entries().len() ==> (#[trigger] p.entries()[i]).0 != t,
    ensures
        knows(b, t),
        b.topic_metadata@[t]@ == a.topic_metadata@[t]@,
{
    let before = known(a.topic_metadata@);
    let after = known(b.topic_metadata@);
    let kept = retained(before);
    assert(before.dom().contains(t) && before[t] == a.topic_metadata@[t]@);
    assert(kept.dom().contains(t) && kept[t] == before[t]);
    lemma_untouched(kept, p.entries(), t);
    assert(after == installed(kept, p.entries()));
    assert(after.dom().contains(t));
    assert(knows(b, t));
    assert(after[t] == b.topic_metadata@[t]@);
}

/// What analysis produced before is gone when a report is installed, unless the report
/// brings it in again.
pub proof fn what_was_produced_goes(a: &AuditData, p: PipelineView, b: &AuditData, t: Topic)
    requires
        has_applied(a, p, b),
        knows(a, t),
        is_produced(a.topic_metadata@[t]@),
        forall|i: int| 0 <= i < p.entries().len() ==> (#[trigger] p.entries()[i]).0 != t,
    ensures
        !knows(b, t),
{
    let before = known(a.topic_metadata@);
    let after = known(b.topic_metadata@);
    let kept = retained(before);
    assert(before.dom().contains(t) && before[t] == a.topic_metadata@[t]@);
    assert(!kept.dom().contains(t));
    lemma_untouched(kept, p.entries(), t);
    assert(after == installed(kept, p.entries()));
    assert(!after.dom().contains(t));
}

proof fn lemma_untouched<V>(m: Map<Topic, V>, es: Seq<(Topic, V)>, t: Topic)
    requires
        forall|i: int| 0 <= i < es.len() ==> (#[trigger] es[i]).0 != t,
    ensures
        installed(m, es).dom().contains(t) == m.dom().contains(t),
        m.dom().contains(t) ==> installed(m, es)[t] == m[t],
    decreases es.len(),
{
    if es.len() > 0 {
        let rest = es.drop_last();
        assert forall|i: int| 0 <= i < rest.len() implies (#[trigger] rest[i]).0 != t by {
            assert(rest[i] == es[i]);
        }
        lemma_untouched(m, rest, t);
        assert(es[es.len() - 1] == es.last());
    }
}

/// A report is installed exactly where it has the form that is written and names the
/// audit.
pub proof fn reports_are_for_their_audit(r: &AuditReport, id: Seq<char>)
    ensures
        is_for(r, id) <==> r.schema_version == SCHEMA_VERSION && r.audit.id@ == id,
{
}

/// A family whose numbers are given out has room after every number but the last, and
/// any other always.
pub proof fn families_have_room_before_their_last_number(n: i32)
    ensures
        has_room(Topic::Spec(n)) <==> n < i32::MAX,
        has_room(Topic::FunctionalProperty(n)) <==> n < i32::MAX,
        has_room(Topic::AdversarialProperty(n)) <==> n < i32::MAX,
        has_room(Topic::Node(n)) && has_room(Topic::Documentation(n)) && has_room(
            Topic::Comment(n),
        ) && has_room(Topic::TypeConstraint(n)),
{
}

} // verus!
