//! Installing a report into an audit.
use crate::domain::audit::{AuditData, Characteristic, Requirement, ThreatFeatureLink};
use crate::domain::index::{index_lists, list_at, listed_at, TopicIndex};
use crate::domain::metadata::{MetadataView, TopicMetadata};
use crate::domain::topic::{new_topic, number_of, prefix_of, Topic};
use crate::ids::{reseed_adversarial_property_id, reseed_functional_property_id, reseed_spec_id};
use crate::ids::IdCounters;
use crate::ordered::{has_key, index_of, mapping, OrderedMap};
use crate::report::export::{viewed, AuditReport, FeatureLink, PipelineOutput, PipelineView};
use crate::report::export::{ReportThreatFeatureLink, ThreatLinkView, SCHEMA_VERSION};
use crate::report::rows::{as_reported, denotes, is_topic_id, meant, meant_each, topics_of};
use crate::report::rows::{ReportBehavior, ReportCharacteristic, ReportCharacteristicView};
use crate::report::rows::{ReportCondition, ReportFeature, ReportFunctionalPurpose};
use crate::report::rows::{ReportFunctionalSemantic, ReportInvariant, ReportPlacementRationale};
use crate::report::rows::{ReportRequirement, ReportRequirementView, ReportRow, ReportThreat};
use crate::report::rows::ReportValidation;
use crate::text::{append_digits, digits, text_eq};
use vstd::prelude::*;
use vstd::string::*;

verus! {

/// Why a report was not installed.
#[derive(Debug)]
pub enum ApplyReportError {
    UnsupportedSchemaVersion { found: u32, supported: u32 },
    AuditIdMismatch { expected: String, found: String },
}

impl ApplyReportError {
    /// What this error says to a reader.
    pub open spec fn text(&self) -> Seq<char> {
        match self {
            ApplyReportError::UnsupportedSchemaVersion { found, supported } => {
                "unsupported schema_version "@ + digits(*found as nat) + " (this build supports "@
                    + digits(*supported as nat) + ")"@
            },
            ApplyReportError::AuditIdMismatch { expected, found } => {
                "audit id mismatch: report is for '"@ + found@ + "', but target is '"@ + expected@
                    + "'"@
            },
        }
    }

    pub fn message(&self) -> (r: String)
        ensures
            r@ == self.text(),
    {
        match self {
            ApplyReportError::UnsupportedSchemaVersion { found, supported } => {
                let mut out = "unsupported schema_version ".to_owned();
                append_digits(&mut out, *found as u64);
                out.append(" (this build supports ");
                append_digits(&mut out, *supported as u64);
                out.append(")");
                out
            },
            ApplyReportError::AuditIdMismatch { expected, found } => {
                let mut out = "audit id mismatch: report is for '".to_owned();
                out.append(found.as_str());
                out.append("', but target is '");
                out.append(expected.as_str());
                out.append("'");
                out
            },
        }
    }
}

/// What is known of each topic.
pub open spec fn known(m: Map<Topic, TopicMetadata>) -> Map<Topic, MetadataView> {
    m.map_values(|v: TopicMetadata| v@)
}

/// `m` without the topics that analysis produces.
pub open spec fn retained(m: Map<Topic, MetadataView>) -> Map<Topic, MetadataView> {
    Map::new(|t: Topic| m.dom().contains(t) && as_reported(m[t]) is None, |t: Topic| m[t])
}

/// `m` with each entry of `es` put in, the later ones over the earlier ones.
pub open spec fn installed<V>(m: Map<Topic, V>, es: Seq<(Topic, V)>) -> Map<Topic, V>
    decreases es.len(),
{
    if es.len() == 0 {
        m
    } else {
        installed(m, es.drop_last()).insert(es.last().0, es.last().1)
    }
}

/// The entries that rows stand for.
pub open spec fn row_entries<R: ReportRow>(s: Seq<R::V>) -> Seq<(Topic, MetadataView)> {
    s.map_values(|v: R::V| (meant(R::row_topic(v)), R::stands_for(v)))
}

pub open spec fn rows_well_formed<R: ReportRow>(s: Seq<R::V>) -> bool {
    forall|i: int| 0 <= i < s.len() ==> R::well_formed(#[trigger] s[i])
}

/// There is a number after that of `t`.
pub open spec fn has_room(t: Topic) -> bool {
    number_of(t) < i32::MAX || !(prefix_of(t) == 'S' || prefix_of(t) == 'P' || prefix_of(t) == 'A')
}

pub open spec fn rows_have_room<R: ReportRow>(s: Seq<R::V>) -> bool {
    forall|i: int| 0 <= i < s.len() ==> has_room(meant(R::row_topic(#[trigger] s[i])))
}

pub open spec fn links_well_formed(s: Seq<(Seq<char>, Seq<char>)>) -> bool {
    forall|i: int| 0 <= i < s.len() ==> denotes((#[trigger] s[i]).0) && denotes(s[i].1)
}

pub open spec fn threat_links_well_formed(s: Seq<ThreatLinkView>) -> bool {
    forall|i: int|
        0 <= i < s.len() ==> denotes((#[trigger] s[i]).threat_topic) && denotes(s[i].feature_topic)
}

impl PipelineView {
    /// Every topic that is named is a wire form.
    pub open spec fn well_formed(self) -> bool {
        &&& rows_well_formed::<ReportFeature>(self.features)
        &&& rows_well_formed::<ReportRequirement>(self.requirements)
        &&& rows_well_formed::<ReportBehavior>(self.behaviors)
        &&& rows_well_formed::<ReportCharacteristic>(self.characteristics)
        &&& rows_well_formed::<ReportFunctionalSemantic>(self.functional_semantics)
        &&& rows_well_formed::<ReportFunctionalPurpose>(self.functional_purposes)
        &&& rows_well_formed::<ReportPlacementRationale>(self.placement_rationales)
        &&& rows_well_formed::<ReportCondition>(self.conditions)
        &&& rows_well_formed::<ReportThreat>(self.threats)
        &&& rows_well_formed::<ReportInvariant>(self.invariants)
        &&& rows_well_formed::<ReportValidation>(self.validations)
        &&& links_well_formed(self.feature_requirement_links)
        &&& links_well_formed(self.feature_behavior_links)
        &&& threat_links_well_formed(self.threat_feature_links)
    }

    /// No topic takes the last number of its family.
    pub open spec fn has_room(self) -> bool {
        &&& rows_have_room::<ReportFeature>(self.features)
        &&& rows_have_room::<ReportRequirement>(self.requirements)
        &&& rows_have_room::<ReportBehavior>(self.behaviors)
        &&& rows_have_room::<ReportCharacteristic>(self.characteristics)
        &&& rows_have_room::<ReportFunctionalSemantic>(self.functional_semantics)
        &&& rows_have_room::<ReportFunctionalPurpose>(self.functional_purposes)
        &&& rows_have_room::<ReportPlacementRationale>(self.placement_rationales)
        &&& rows_have_room::<ReportCondition>(self.conditions)
        &&& rows_have_room::<ReportThreat>(self.threats)
        &&& rows_have_room::<ReportInvariant>(self.invariants)
        &&& rows_have_room::<ReportValidation>(self.validations)
    }

    /// The entries for all topics, kind by kind.
    pub open spec fn entries(self) -> Seq<(Topic, MetadataView)> {
        row_entries::<ReportFeature>(self.features)
            + row_entries::<ReportRequirement>(self.requirements)
            + row_entries::<ReportBehavior>(self.behaviors)
            + row_entries::<ReportCharacteristic>(self.characteristics)
            + row_entries::<ReportFunctionalSemantic>(self.functional_semantics)
            + row_entries::<ReportFunctionalPurpose>(self.functional_purposes)
            + row_entries::<ReportPlacementRationale>(self.placement_rationales)
            + row_entries::<ReportCondition>(self.conditions)
            + row_entries::<ReportThreat>(self.threats)
            + row_entries::<ReportInvariant>(self.invariants)
            + row_entries::<ReportValidation>(self.validations)
    }
}

/// The documentation of each requirement.
pub open spec fn requirement_entries(s: Seq<ReportRequirementView>) -> Seq<(Topic, Seq<Topic>)> {
    s.map_values(
        |v: ReportRequirementView| (meant(v.topic), meant_each(v.documentation_topics)),
    )
}

/// The documentation of each characteristic.
pub open spec fn characteristic_entries(s: Seq<ReportCharacteristicView>) -> Seq<
    (Topic, Seq<Topic>),
> {
    s.map_values(
        |v: ReportCharacteristicView| (meant(v.topic), meant_each(v.documentation_topics)),
    )
}

/// What is recorded of each requirement.
pub open spec fn requirement_map(m: Map<Topic, Requirement>) -> Map<Topic, Seq<Topic>> {
    m.map_values(|r: Requirement| r.documentation_topics@)
}

/// What is recorded of each characteristic.
pub open spec fn characteristic_map(m: Map<Topic, Characteristic>) -> Map<Topic, Seq<Topic>> {
    m.map_values(|r: Characteristic| r.documentation_topics@)
}

/// The index that lists the second topic of each link under the first.
pub open spec fn links_listed(s: Seq<(Seq<char>, Seq<char>)>) -> Seq<(Topic, Seq<Topic>)>
    decreases s.len(),
{
    if s.len() == 0 {
        seq![]
    } else {
        listed_at(links_listed(s.drop_last()), meant(s.last().0), meant(s.last().1))
    }
}

/// The link that a report row stands for.
pub open spec fn threat_link_meant() -> spec_fn(ThreatLinkView) -> ThreatFeatureLink {
    |v: ThreatLinkView|
        ThreatFeatureLink {
            threat_topic: meant(v.threat_topic),
            feature_topic: meant(v.feature_topic),
            relation: v.relation,
            severity: v.severity,
        }
}

/// `b` is `a` with the output of analysis replaced by that of a report.
pub open spec fn has_applied(a: &AuditData, p: PipelineView, b: &AuditData) -> bool {
    &&& known(b.topic_metadata@) == installed(retained(known(a.topic_metadata@)), p.entries())
    &&& requirement_map(b.requirements@) == installed(
        Map::empty(),
        requirement_entries(p.requirements),
    )
    &&& characteristic_map(b.characteristics@) == installed(
        Map::empty(),
        characteristic_entries(p.characteristics),
    )
    &&& index_lists(b.feature_requirement_links.pairs()) == links_listed(
        p.feature_requirement_links,
    )
    &&& index_lists(b.feature_behavior_links.pairs()) == links_listed(p.feature_behavior_links)
    &&& b.threat_feature_links@ == p.threat_feature_links.map_values(threat_link_meant())
    &&& same_but_pipeline(a, b)
}

/// `a` and `b` agree in all that a report does not hold.
pub open spec fn same_but_pipeline(a: &AuditData, b: &AuditData) -> bool {
    &&& a.audit_name == b.audit_name
    &&& a.in_scope_files == b.in_scope_files
    &&& a.security_notes == b.security_notes
    &&& a.asts == b.asts
    &&& a.nodes == b.nodes
    &&& a.function_properties == b.function_properties
    &&& a.variable_types == b.variable_types
    &&& a.name_index == b.name_index
    &&& a.comment_index == b.comment_index
    &&& a.topic_context == b.topic_context
    &&& a.expanded_topic_context == b.expanded_topic_context
    &&& a.section_requirements == b.section_requirements
    &&& a.member_behaviors == b.member_behaviors
    &&& a.declaration_semantics == b.declaration_semantics
    &&& a.subject_purposes == b.subject_purposes
    &&& a.subject_placements == b.subject_placements
    &&& a.subject_conditions == b.subject_conditions
    &&& a.threats == b.threats
    &&& a.invariants == b.invariants
    &&& a.conditions == b.conditions
    &&& a.mentions_index == b.mentions_index
    &&& a.inheritance == b.inheritance
    &&& a.resolution_graph == b.resolution_graph
    &&& a.resolution_traces == b.resolution_traces
}

/// `n` is the highest number among the topics with prefix `c`, or zero if there
/// is none.
pub open spec fn is_highest<V>(m: Map<Topic, V>, c: char, n: int) -> bool {
    if exists|t: Topic| #[trigger] m.dom().contains(t) && prefix_of(t) == c {
        &&& forall|t: Topic| #[trigger] m.dom().contains(t) && prefix_of(t) == c ==> number_of(t) <= n
        &&& exists|t: Topic| #[trigger]
            m.dom().contains(t) && prefix_of(t) == c && number_of(t) == n
    } else {
        n == 0
    }
}

/// The topics of a report are installed in an audit with metadata `m` without
/// taking the last number of a family.
pub open spec fn leaves_room(m: Map<Topic, MetadataView>, p: PipelineView) -> bool {
    &&& forall|t: Topic| #[trigger] retained(m).dom().contains(t) ==> has_room(t)
    &&& p.has_room()
}

pub proof fn lemma_installed_step<V>(m: Map<Topic, V>, es: Seq<(Topic, V)>, i: int)
    requires
        0 <= i < es.len(),
    ensures
        installed(m, es.take(i + 1)) == installed(m, es.take(i)).insert(es[i].0, es[i].1),
{
    assert(es.take(i + 1).drop_last() =~= es.take(i));
}

pub proof fn lemma_installed_joined<V>(m: Map<Topic, V>, a: Seq<(Topic, V)>, b: Seq<(Topic, V)>)
    ensures
        installed(m, a + b) == installed(installed(m, a), b),
    decreases b.len(),
{
    if b.len() == 0 {
        assert(a + b =~= a);
    } else {
        lemma_installed_joined(m, a, b.drop_last());
        assert((a + b).drop_last() =~= a + b.drop_last());
    }
}

/// What an installed map holds: the last entry for a topic, or what was there.
pub proof fn lemma_installed<V>(m: Map<Topic, V>, es: Seq<(Topic, V)>, t: Topic)
    ensures
        installed(m, es).dom().contains(t) == (m.dom().contains(t) || exists|i: int|
            0 <= i < es.len() && (#[trigger] es[i]).0 == t),
        (forall|i: int| 0 <= i < es.len() ==> (#[trigger] es[i]).0 != t) && m.dom().contains(t)
            ==> installed(m, es)[t] == m[t],
        (exists|i: int| 0 <= i < es.len() && (#[trigger] es[i]).0 == t) ==> exists|i: int|
            0 <= i < es.len() && (#[trigger] es[i]).0 == t && installed(m, es)[t] == es[i].1,
    decreases es.len(),
{
    if es.len() > 0 {
        let rest = es.drop_last();
        let n = es.len() - 1;
        lemma_installed(m, rest, t);
        assert(forall|i: int| 0 <= i < n ==> #[trigger] rest[i] == es[i]);
        assert(es[n] == es.last());
        if es[n].0 != t {
            if exists|i: int| 0 <= i < es.len() && (#[trigger] es[i]).0 == t {
                let i = choose|i: int| 0 <= i < es.len() && (#[trigger] es[i]).0 == t;
                assert(rest[i].0 == t);
                let j = choose|j: int|
                    0 <= j < rest.len() && (#[trigger] rest[j]).0 == t && installed(m, rest)[t]
                        == rest[j].1;
                assert(es[j].0 == t);
            }
            if exists|i: int| 0 <= i < rest.len() && (#[trigger] rest[i]).0 == t {
                let i = choose|i: int| 0 <= i < rest.len() && (#[trigger] rest[i]).0 == t;
                assert(es[i].0 == t);
            }
        }
    }
}

/// Whether analysis produces topics of this kind.
fn is_pipeline_topic(m: &TopicMetadata) -> (r: bool)
    ensures
        r == as_reported(m@) is Some,
{
    matches!(
        m,
        TopicMetadata::FeatureTopic { .. }
        | TopicMetadata::RequirementTopic { .. }
        | TopicMetadata::BehaviorTopic { .. }
        | TopicMetadata::CharacteristicTopic { .. }
        | TopicMetadata::FunctionalSemanticTopic { .. }
        | TopicMetadata::FunctionalPurposeTopic { .. }
        | TopicMetadata::PlacementRationaleTopic { .. }
        | TopicMetadata::ConditionTopic { .. }
        | TopicMetadata::ThreatTopic { .. }
        | TopicMetadata::InvariantTopic { .. }
        | TopicMetadata::ValidationTopic { .. }
    )
}

/// Takes out the topics that analysis produces.
fn drop_pipeline_topics(meta: &mut OrderedMap<Topic, TopicMetadata>)
    ensures
        known(final(meta)@) == retained(known(old(meta)@)),
{
    let ghost all = meta@;
    let mut kept: OrderedMap<Topic, TopicMetadata> = OrderedMap::new();
    assert(meta@ == all);
    while meta.len() > 0
        invariant
            forall|t: Topic| #[trigger] all.dom().contains(t) ==> {
                ||| meta@.dom().contains(t) && meta@[t] == all[t]
                ||| as_reported(all[t]@) is Some
                ||| kept@.dom().contains(t) && kept@[t] == all[t]
            },
            forall|t: Topic| #[trigger] meta@.dom().contains(t) ==> all.dom().contains(t)
                && meta@[t] == all[t],
            forall|t: Topic| #[trigger]
                kept@.dom().contains(t) ==> all.dom().contains(t) && kept@[t] == all[t]
                    && as_reported(all[t]@) is None,
        decreases meta.pairs().len(),
    {
        let ghost before = meta.pairs();
        let ghost held = meta@;
        let ghost was = kept@;
        let (t, m) = meta.take_first();
        proof {
            crate::ordered::lemma_index_of(before, 0);
            assert(held.dom().contains(t) && held[t] == m);
            lemma_first_taken(before);
        }
        if !is_pipeline_topic(&m) {
            kept.insert(t, m);
        }
        assert forall|u: Topic| #[trigger] all.dom().contains(u) implies {
            ||| meta@.dom().contains(u) && meta@[u] == all[u]
            ||| as_reported(all[u]@) is Some
            ||| kept@.dom().contains(u) && kept@[u] == all[u]
        } by {
            if u != t && held.dom().contains(u) && held[u] == all[u] {
                assert(meta@.dom().contains(u));
            }
            if was.dom().contains(u) && u != t {
                assert(kept@.dom().contains(u));
            }
        }
    }
    proof {
        assert forall|t: Topic| !meta@.dom().contains(t) by {
            assert(meta.pairs().len() == 0);
        }
        assert(known(kept@) =~= retained(known(all)));
    }
    std::mem::swap(meta, &mut kept);
}

proof fn lemma_first_taken(s: Seq<(Topic, TopicMetadata)>)
    requires
        crate::ordered::ascending(s),
        s.len() > 0,
    ensures
        mapping(s.drop_first()) == mapping(s).remove(s[0].0),
{
    crate::ordered::lemma_without(s, s[0].0);
    crate::ordered::lemma_index_of(s, 0);
    assert(s.remove(0) =~= s.drop_first());
}

/// Puts in the topics of the rows.
fn install_rows<R: ReportRow>(meta: &mut OrderedMap<Topic, TopicMetadata>, rows: &Vec<R>)
    requires
        rows_well_formed::<R>(viewed(rows@)),
    ensures
        known(final(meta)@) == installed(
            known(old(meta)@),
            row_entries::<R>(viewed(rows@)),
        ),
{
    let ghost start = known(meta@);
    let ghost es = row_entries::<R>(viewed(rows@));
    assert(es.take(0) =~= Seq::empty());
    for i in 0..rows.len()
        invariant
            rows_well_formed::<R>(viewed(rows@)),
            es == row_entries::<R>(viewed(rows@)),
            known(meta@) == installed(start, es.take(i as int)),
    {
        let row = &rows[i];
        let ghost v = viewed(rows@)[i as int];
        proof {
            assert(v == row@);
            assert(R::well_formed(v));
            R::well_formed_topic(v);
            lemma_installed_step(start, es, i as int);
            assert(es[i as int] == (meant(R::row_topic(v)), R::stands_for(v)));
        }
        let t = new_topic(row.topic_id().as_str());
        let m = row.metadata();
        let ghost before = meta@;
        meta.insert(t, m);
        assert(known(before.insert(t, m)) =~= known(before).insert(t, m@));
    }
    assert(es.take(es.len() as int) =~= es);
}

fn install_requirements(
    requirements: &mut OrderedMap<Topic, Requirement>,
    rows: &Vec<ReportRequirement>,
)
    requires
        rows_well_formed::<ReportRequirement>(viewed(rows@)),
    ensures
        requirement_map(final(requirements)@) == installed(
            requirement_map(old(requirements)@),
            requirement_entries(viewed(rows@)),
        ),
{
    let ghost start = requirement_map(requirements@);
    let ghost es = requirement_entries(viewed(rows@));
    assert(es.take(0) =~= Seq::empty());
    for i in 0..rows.len()
        invariant
            rows_well_formed::<ReportRequirement>(viewed(rows@)),
            es == requirement_entries(viewed(rows@)),
            requirement_map(requirements@) == installed(start, es.take(i as int)),
    {
        let row = &rows[i];
        proof {
            assert(viewed(rows@)[i as int] == row@);
            assert(ReportRequirement::well_formed(viewed(rows@)[i as int]));
            lemma_installed_step(start, es, i as int);
        }
        let t = new_topic(row.topic.as_str());
        let r = Requirement { documentation_topics: topics_of(&row.documentation_topics) };
        let ghost before = requirements@;
        requirements.insert(t, r);
        assert(requirement_map(before.insert(t, r)) =~= requirement_map(before).insert(
            t,
            r.documentation_topics@,
        ));
    }
    assert(es.take(es.len() as int) =~= es);
}

fn install_characteristics(
    characteristics: &mut OrderedMap<Topic, Characteristic>,
    rows: &Vec<ReportCharacteristic>,
)
    requires
        rows_well_formed::<ReportCharacteristic>(viewed(rows@)),
    ensures
        characteristic_map(final(characteristics)@) == installed(
            characteristic_map(old(characteristics)@),
            characteristic_entries(viewed(rows@)),
        ),
{
    let ghost start = characteristic_map(characteristics@);
    let ghost es = characteristic_entries(viewed(rows@));
    assert(es.take(0) =~= Seq::empty());
    for i in 0..rows.len()
        invariant
            rows_well_formed::<ReportCharacteristic>(viewed(rows@)),
            es == characteristic_entries(viewed(rows@)),
            characteristic_map(characteristics@) == installed(start, es.take(i as int)),
    {
        let row = &rows[i];
        proof {
            assert(viewed(rows@)[i as int] == row@);
            assert(ReportCharacteristic::well_formed(viewed(rows@)[i as int]));
            lemma_installed_step(start, es, i as int);
        }
        let t = new_topic(row.topic.as_str());
        let r = Characteristic { documentation_topics: topics_of(&row.documentation_topics) };
        let ghost before = characteristics@;
        characteristics.insert(t, r);
        assert(characteristic_map(before.insert(t, r)) =~= characteristic_map(before).insert(
            t,
            r.documentation_topics@,
        ));
    }
    assert(es.take(es.len() as int) =~= es);
}

fn install_links(index: &mut TopicIndex, links: &Vec<FeatureLink>)
    requires
        links_well_formed(viewed(links@)),
        index_lists(old(index).pairs()) == Seq::<(Topic, Seq<Topic>)>::empty(),
    ensures
        index_lists(final(index).pairs()) == links_listed(viewed(links@)),
{
    let ghost s = viewed(links@);
    assert(s.take(0) =~= Seq::empty());
    for i in 0..links.len()
        invariant
            s == viewed(links@),
            links_well_formed(s),
            index_lists(index.pairs()) == links_listed(s.take(i as int)),
    {
        let link = &links[i];
        assert(s[i as int] == link@);
        assert(denotes(s[i as int].0));
        assert(s.take(i + 1).drop_last() =~= s.take(i as int));
        list_at(index, new_topic(link.feature_topic.as_str()), new_topic(link.topic.as_str()));
    }
    assert(s.take(s.len() as int) =~= s);
}

fn install_threat_links(links: &mut Vec<ThreatFeatureLink>, rows: &Vec<ReportThreatFeatureLink>)
    requires
        threat_links_well_formed(viewed(rows@)),
        old(links)@.len() == 0,
    ensures
        final(links)@ == viewed(rows@).map_values(threat_link_meant()),
{
    let ghost all = viewed(rows@).map_values(threat_link_meant());
    assert(links@ =~= all.take(0));
    for i in 0..rows.len()
        invariant
            threat_links_well_formed(viewed(rows@)),
            all == viewed(rows@).map_values(threat_link_meant()),
            links@ =~= all.take(i as int),
    {
        let row = &rows[i];
        assert(viewed(rows@)[i as int] == row@);
        assert(denotes(viewed(rows@)[i as int].threat_topic));
        links.push(
            ThreatFeatureLink {
                threat_topic: new_topic(row.threat_topic.as_str()),
                feature_topic: new_topic(row.feature_topic.as_str()),
                relation: row.relation,
                severity: row.severity,
            },
        );
    }
    assert(links@ =~= all);
}

fn max_id(meta: &OrderedMap<Topic, TopicMetadata>, c: char) -> (r: i32)
    ensures
        is_highest(meta@, c, r as int),
{
    let n: usize = meta.len();
    let ghost s = meta.pairs();
    let mut best: Option<i32> = None;
    for i in 0..n
        invariant
            n == s.len(),
            s == meta.pairs(),
            best is None ==> forall|j: int| 0 <= j < i ==> prefix_of((#[trigger] s[j]).0) != c,
            best is Some ==> forall|j: int|
                0 <= j < i && prefix_of((#[trigger] s[j]).0) == c ==> number_of(s[j].0)
                    <= best->0,
            best is Some ==> exists|j: int|
                0 <= j < i && prefix_of((#[trigger] s[j]).0) == c && number_of(s[j].0) == best->0,
    {
        let t = *meta.key_at(i);
        if t.prefix() == c {
            let k: i32 = t.numeric_id();
            let better = match best {
                Some(b) => b < k,
                None => true,
            };
            if better {
                assert(prefix_of(s[i as int].0) == c && number_of(s[i as int].0) == k);
                best = Some(k);
            }
        }
    }
    proof {
        assert forall|t: Topic| #[trigger] meta@.dom().contains(t) && prefix_of(t) == c implies best
            is Some && number_of(t) <= best->0 by {
            let j = index_of(s, t);
            assert(s[j].0 == t);
        }
        if best is Some {
            let j = choose|j: int|
                0 <= j < n && prefix_of((#[trigger] s[j]).0) == c && number_of(s[j].0) == best->0;
            assert(s[j].0@ == s[j].0);
            assert(has_key(s, s[j].0));
            assert(meta@.dom().contains(s[j].0));
        }
    }
    match best {
        Some(b) => b,
        None => 0,
    }
}

/// The highest number of an `S` topic, or zero if there is none.
fn max_spec_id(audit_data: &AuditData) -> (r: i32)
    ensures
        is_highest(audit_data.topic_metadata@, 'S', r as int),
{
    max_id(&audit_data.topic_metadata, 'S')
}

/// The highest number of a `P` topic, or zero if there is none.
fn max_functional_property_id(audit_data: &AuditData) -> (r: i32)
    ensures
        is_highest(audit_data.topic_metadata@, 'P', r as int),
{
    max_id(&audit_data.topic_metadata, 'P')
}

/// The highest number of an `A` topic, or zero if there is none.
fn max_adversarial_property_id(audit_data: &AuditData) -> (r: i32)
    ensures
        is_highest(audit_data.topic_metadata@, 'A', r as int),
{
    max_id(&audit_data.topic_metadata, 'A')
}

proof fn lemma_rows_room<R: ReportRow>(m: Map<Topic, MetadataView>, s: Seq<R::V>)
    requires
        forall|t: Topic| #[trigger] m.dom().contains(t) ==> has_room(t),
        rows_have_room::<R>(s),
    ensures
        forall|t: Topic| #[trigger]
            installed(m, row_entries::<R>(s)).dom().contains(t) ==> has_room(t),
{
    let es = row_entries::<R>(s);
    assert forall|t: Topic| #[trigger] installed(m, es).dom().contains(t) implies has_room(t) by {
        lemma_installed(m, es, t);
        if !m.dom().contains(t) {
            let i = choose|i: int| 0 <= i < es.len() && (#[trigger] es[i]).0 == t;
            assert(has_room(meant(R::row_topic(s[i]))));
        }
    }
}

/// A report is for an audit if it has the current form and the audit's id.
pub open spec fn is_for(report: &AuditReport, audit_id: Seq<char>) -> bool {
    report.schema_version == SCHEMA_VERSION && report.audit.id@ == audit_id
}

/// The counters go on after the highest numbers that are in use.
pub open spec fn go_on(a: &AuditData, counters: &IdCounters) -> bool {
    &&& is_highest(a.topic_metadata@, 'S', counters.next_spec - 1)
    &&& is_highest(a.topic_metadata@, 'P', counters.next_functional_property - 1)
    &&& is_highest(a.topic_metadata@, 'A', counters.next_adversarial_property - 1)
}

/// Lets numbers for new topics go on after the highest that is in use, and says
/// whether it did: where a topic has taken the last number of its family, the
/// counters stay as they are.
pub fn reseed_ids(audit_data: &AuditData, counters: &mut IdCounters) -> (r: bool)
    ensures
        r == forall|t: Topic| #[trigger]
            audit_data.topic_metadata@.dom().contains(t) ==> has_room(t),
        r ==> go_on(audit_data, &*final(counters)),
        !r ==> *final(counters) == *old(counters),
{
    let spec = max_spec_id(audit_data);
    let functional = max_functional_property_id(audit_data);
    let adversarial = max_adversarial_property_id(audit_data);
    let ghost m = audit_data.topic_metadata@;
    if spec == i32::MAX || functional == i32::MAX || adversarial == i32::MAX {
        assert(exists|t: Topic| #[trigger] m.dom().contains(t) && !has_room(t));
        return false;
    }
    reseed_spec_id(counters, spec);
    reseed_functional_property_id(counters, functional);
    reseed_adversarial_property_id(counters, adversarial);
    true
}

/// Installs what analysis produced into an audit, in place of what it produced
/// before. Numbers for new topics go on after the highest that is in use.
pub fn apply_report(
    audit_id: &str,
    audit_data: &mut AuditData,
    report: &AuditReport,
    counters: &mut IdCounters,
) -> (r: Result<(), ApplyReportError>)
    requires
        is_for(report, audit_id@) ==> report.pipeline@.well_formed() && leaves_room(
            known(old(audit_data).topic_metadata@),
            report.pipeline@,
        ),
    ensures
        match r {
            Ok(()) => {
                &&& is_for(report, audit_id@)
                &&& has_applied(&*old(audit_data), report.pipeline@, &*final(audit_data))
                &&& go_on(&*final(audit_data), &*final(counters))
            },
            Err(ApplyReportError::UnsupportedSchemaVersion { found, supported }) => {
                &&& report.schema_version != SCHEMA_VERSION
                &&& found == report.schema_version
                &&& supported == SCHEMA_VERSION
                &&& *final(audit_data) == *old(audit_data)
                &&& *final(counters) == *old(counters)
            },
            Err(ApplyReportError::AuditIdMismatch { expected, found }) => {
                &&& report.schema_version == SCHEMA_VERSION
                &&& report.audit.id@ != audit_id@
                &&& expected@ == audit_id@
                &&& found@ == report.audit.id@
                &&& *final(audit_data) == *old(audit_data)
                &&& *final(counters) == *old(counters)
            },
        },
{
    if report.schema_version != SCHEMA_VERSION {
        return Err(
            ApplyReportError::UnsupportedSchemaVersion {
                found: report.schema_version,
                supported: SCHEMA_VERSION,
            },
        );
    }
    if !text_eq(report.audit.id.as_str(), audit_id) {
        return Err(
            ApplyReportError::AuditIdMismatch {
                expected: audit_id.to_owned(),
                found: report.audit.id.clone(),
            },
        );
    }
    apply_pipeline(audit_data, &report.pipeline);
    let _ = reseed_ids(audit_data, counters);
    Ok(())
}

fn apply_pipeline(audit_data: &mut AuditData, p: &PipelineOutput)
    requires
        p@.well_formed(),
        leaves_room(known(old(audit_data).topic_metadata@), p@),
    ensures
        has_applied(&*old(audit_data), p@, &*final(audit_data)),
        forall|t: Topic| #[trigger]
            final(audit_data).topic_metadata@.dom().contains(t) ==> has_room(t),
{
    let ghost base = retained(known(audit_data.topic_metadata@));
    drop_pipeline_topics(&mut audit_data.topic_metadata);
    audit_data.requirements.clear();
    audit_data.characteristics.clear();
    audit_data.feature_requirement_links.clear();
    audit_data.feature_behavior_links.clear();
    audit_data.threat_feature_links = Vec::new();
    assert(requirement_map(audit_data.requirements@) =~= Map::empty());
    assert(characteristic_map(audit_data.characteristics@) =~= Map::empty());
    assert(index_lists(audit_data.feature_requirement_links.pairs()) =~= Seq::empty());
    assert(index_lists(audit_data.feature_behavior_links.pairs()) =~= Seq::empty());
    install_requirements(&mut audit_data.requirements, &p.requirements);
    install_characteristics(&mut audit_data.characteristics, &p.characteristics);
    install_links(&mut audit_data.feature_requirement_links, &p.feature_requirement_links);
    install_links(&mut audit_data.feature_behavior_links, &p.feature_behavior_links);
    install_threat_links(&mut audit_data.threat_feature_links, &p.threat_feature_links);
    proof {
        lemma_rows_room::<ReportFeature>(known(audit_data.topic_metadata@), p@.features);
    }
    install_rows(&mut audit_data.topic_metadata, &p.features);
    proof {
        lemma_rows_room::<ReportRequirement>(known(audit_data.topic_metadata@), p@.requirements);
    }
    install_rows(&mut audit_data.topic_metadata, &p.requirements);
    proof {
        lemma_rows_room::<ReportBehavior>(known(audit_data.topic_metadata@), p@.behaviors);
    }
    install_rows(&mut audit_data.topic_metadata, &p.behaviors);
    proof {
        lemma_rows_room::<ReportCharacteristic>(known(audit_data.topic_metadata@), p@.characteristics);
    }
    install_rows(&mut audit_data.topic_metadata, &p.characteristics);
    proof {
        lemma_rows_room::<ReportFunctionalSemantic>(known(audit_data.topic_metadata@), p@.functional_semantics);
    }
    install_rows(&mut audit_data.topic_metadata, &p.functional_semantics);
    proof {
        lemma_rows_room::<ReportFunctionalPurpose>(known(audit_data.topic_metadata@), p@.functional_purposes);
    }
    install_rows(&mut audit_data.topic_metadata, &p.functional_purposes);
    proof {
        lemma_rows_room::<ReportPlacementRationale>(known(audit_data.topic_metadata@), p@.placement_rationales);
    }
    install_rows(&mut audit_data.topic_metadata, &p.placement_rationales);
    proof {
        lemma_rows_room::<ReportCondition>(known(audit_data.topic_metadata@), p@.conditions);
    }
    install_rows(&mut audit_data.topic_metadata, &p.conditions);
    proof {
        lemma_rows_room::<ReportThreat>(known(audit_data.topic_metadata@), p@.threats);
    }
    install_rows(&mut audit_data.topic_metadata, &p.threats);
    proof {
        lemma_rows_room::<ReportInvariant>(known(audit_data.topic_metadata@), p@.invariants);
    }
    install_rows(&mut audit_data.topic_metadata, &p.invariants);
    proof {
        lemma_rows_room::<ReportValidation>(known(audit_data.topic_metadata@), p@.validations);
    }
    install_rows(&mut audit_data.topic_metadata, &p.validations);
    proof {
        let e1 = row_entries::<ReportFeature>(p@.features);
        lemma_installed_joined(base, e1, row_entries::<ReportRequirement>(p@.requirements));
        let e2 = e1 + row_entries::<ReportRequirement>(p@.requirements);
        lemma_installed_joined(base, e2, row_entries::<ReportBehavior>(p@.behaviors));
        let e3 = e2 + row_entries::<ReportBehavior>(p@.behaviors);
        lemma_installed_joined(base, e3, row_entries::<ReportCharacteristic>(p@.characteristics));
        let e4 = e3 + row_entries::<ReportCharacteristic>(p@.characteristics);
        lemma_installed_joined(base, e4, row_entries::<ReportFunctionalSemantic>(p@.functional_semantics));
        let e5 = e4 + row_entries::<ReportFunctionalSemantic>(p@.functional_semantics);
        lemma_installed_joined(base, e5, row_entries::<ReportFunctionalPurpose>(p@.functional_purposes));
        let e6 = e5 + row_entries::<ReportFunctionalPurpose>(p@.functional_purposes);
        lemma_installed_joined(base, e6, row_entries::<ReportPlacementRationale>(p@.placement_rationales));
        let e7 = e6 + row_entries::<ReportPlacementRationale>(p@.placement_rationales);
        lemma_installed_joined(base, e7, row_entries::<ReportCondition>(p@.conditions));
        let e8 = e7 + row_entries::<ReportCondition>(p@.conditions);
        lemma_installed_joined(base, e8, row_entries::<ReportThreat>(p@.threats));
        let e9 = e8 + row_entries::<ReportThreat>(p@.threats);
        lemma_installed_joined(base, e9, row_entries::<ReportInvariant>(p@.invariants));
        let e10 = e9 + row_entries::<ReportInvariant>(p@.invariants);
        lemma_installed_joined(base, e10, row_entries::<ReportValidation>(p@.validations));
        let m = audit_data.topic_metadata@;
        assert(known(m).dom() =~= m.dom());
        assert forall|t: Topic| #[trigger] m.dom().contains(t) implies has_room(t) by {
            assert(known(m).dom().contains(t));
        }
    }
}

/// Whether a report can be installed: its topics are wire forms, and numbers are
/// left after those in use.
pub fn can_apply(audit_data: &AuditData, report: &AuditReport) -> (r: bool)
    ensures
        r == (report.pipeline@.well_formed() && leaves_room(
            known(audit_data.topic_metadata@),
            report.pipeline@,
        )),
{
    let p = &report.pipeline;
    let rows_ok = rows_are_good(&p.features)
        && rows_are_good(&p.requirements)
        && rows_are_good(&p.behaviors)
        && rows_are_good(&p.characteristics)
        && rows_are_good(&p.functional_semantics)
        && rows_are_good(&p.functional_purposes)
        && rows_are_good(&p.placement_rationales)
        && rows_are_good(&p.conditions)
        && rows_are_good(&p.threats)
        && rows_are_good(&p.invariants)
        && rows_are_good(&p.validations);
    let links_ok = links_are_good(&p.feature_requirement_links) && links_are_good(
        &p.feature_behavior_links,
    ) && threat_links_are_good(&p.threat_feature_links);
    rows_ok && links_ok && topics_have_room(&audit_data.topic_metadata)
}

fn topic_has_room(t: &Topic) -> (r: bool)
    ensures
        r == has_room(*t),
{
    let c = t.prefix();
    t.numeric_id() < i32::MAX || !(c == 'S' || c == 'P' || c == 'A')
}

fn topics_have_room(meta: &OrderedMap<Topic, TopicMetadata>) -> (r: bool)
    ensures
        r == forall|t: Topic| #[trigger]
            retained(known(meta@)).dom().contains(t) ==> has_room(t),
{
    let n: usize = meta.len();
    let ghost s = meta.pairs();
    let ghost kept = retained(known(meta@));
    for i in 0..n
        invariant
            n == s.len(),
            s == meta.pairs(),
            crate::ordered::ascending(s),
            kept == retained(known(meta@)),
            forall|j: int|
                0 <= j < i && as_reported((#[trigger] s[j]).1@) is None ==> has_room(s[j].0),
    {
        let t = meta.key_at(i);
        if !is_pipeline_topic(meta.value_at(i)) && !topic_has_room(t) {
            proof {
                crate::ordered::lemma_index_of(s, i as int);
                assert(meta@.dom().contains(*t));
                assert(known(meta@).dom().contains(*t));
                assert(kept.dom().contains(*t));
            }
            return false;
        }
    }
    proof {
        assert forall|t: Topic| #[trigger] kept.dom().contains(t) implies has_room(t) by {
            assert(meta@.dom().contains(t));
            let j = index_of(s, t);
            assert(s[j].0@ == t);
        }
    }
    true
}

fn rows_are_good<R: ReportRow>(rows: &Vec<R>) -> (r: bool)
    ensures
        r == (rows_well_formed::<R>(viewed(rows@)) && rows_have_room::<R>(viewed(rows@))),
{
    let ghost s = viewed(rows@);
    for i in 0..rows.len()
        invariant
            s == viewed(rows@),
            forall|j: int|
                0 <= j < i ==> R::well_formed(#[trigger] s[j]) && has_room(
                    meant(R::row_topic(s[j])),
                ),
    {
        let row = &rows[i];
        assert(s[i as int] == row@);
        if !row.is_well_formed() {
            return false;
        }
        proof {
            R::well_formed_topic(row@);
        }
        if !topic_has_room(&new_topic(row.topic_id().as_str())) {
            return false;
        }
    }
    true
}

fn links_are_good(links: &Vec<FeatureLink>) -> (r: bool)
    ensures
        r == links_well_formed(viewed(links@)),
{
    let ghost s = viewed(links@);
    for i in 0..links.len()
        invariant
            s == viewed(links@),
            forall|j: int| 0 <= j < i ==> denotes((#[trigger] s[j]).0) && denotes(s[j].1),
    {
        let link = &links[i];
        assert(s[i as int] == link@);
        if !(is_topic_id(link.feature_topic.as_str()) && is_topic_id(link.topic.as_str())) {
            return false;
        }
    }
    true
}

fn threat_links_are_good(links: &Vec<ReportThreatFeatureLink>) -> (r: bool)
    ensures
        r == threat_links_well_formed(viewed(links@)),
{
    let ghost s = viewed(links@);
    for i in 0..links.len()
        invariant
            s == viewed(links@),
            forall|j: int|
                0 <= j < i ==> denotes((#[trigger] s[j]).threat_topic) && denotes(
                    s[j].feature_topic,
                ),
    {
        let link = &links[i];
        assert(s[i as int] == link@);
        if !(is_topic_id(link.threat_topic.as_str()) && is_topic_id(
            link.feature_topic.as_str(),
        )) {
            return false;
        }
    }
    true
}

} // verus!
