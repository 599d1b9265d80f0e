//! Reports: what analysis found on an audit, in the form in which it is kept.
use crate::domain::audit::{entries, AuditData, ThreatFeatureLink};
use crate::domain::index::{index_lists, TopicIndex};
use crate::domain::kinds::{ThreatFeatureRelation, ThreatSeverity};
use crate::domain::metadata::{copy_text, opt_text, TopicMetadata};
use crate::domain::path::ProjectPath;
use crate::domain::topic::{topic_text, Topic};
use crate::report::rows::{ReportBehavior, ReportBehaviorView, ReportCharacteristic};
use crate::report::rows::{ReportCharacteristicView, ReportCondition, ReportConditionView};
use crate::report::rows::{ReportFeature, ReportFeatureView, ReportFunctionalPurpose};
use crate::report::rows::{ReportFunctionalPurposeView, ReportFunctionalSemantic};
use crate::report::rows::{ReportFunctionalSemanticView, ReportInvariant, ReportInvariantView};
use crate::report::rows::{ReportPlacementRationale, ReportPlacementRationaleView};
use crate::report::rows::{ReportRequirement, ReportRequirementView, ReportRow, ReportThreat};
use crate::report::rows::{ReportThreatView, ReportValidation, ReportValidationView};
use crate::sorting::{lemma_sorted_mapped, sorted_by, stable_sort, Ranked};
use crate::text::{text_before, text_before_irreflexive, text_before_total};
use crate::text::{text_before_transitive, text_order, texts, Standing};
use vstd::prelude::*;
use vstd::string::*;

verus! {

/// The version of the form of a report.
pub const SCHEMA_VERSION: u32 = 4;

/// The name of the tool that writes reports.
pub const GENERATOR_NAME: &'static str = "o11a-analyze";

/// The version of the tool that writes reports.
pub const GENERATOR_VERSION: &'static str = "0.1.0";

/// A report on an audit.
#[derive(Debug)]
pub struct AuditReport {
    pub schema_version: u32,
    pub generator: GeneratorInfo,
    /// When the report was written.
    pub generated_at: String,
    pub audit: AuditMetadata,
    pub pipeline: PipelineOutput,
}

#[derive(Debug)]
pub struct GeneratorInfo {
    pub name: String,
    pub version: String,
}

#[derive(Debug)]
pub struct AuditMetadata {
    pub id: String,
    pub name: String,
    /// The files in scope, in ascending order.
    pub in_scope_files: Vec<String>,
    pub security_notes: Option<String>,
}

/// All that analysis produced.
#[derive(Debug)]
pub struct PipelineOutput {
    pub features: Vec<ReportFeature>,
    pub requirements: Vec<ReportRequirement>,
    pub behaviors: Vec<ReportBehavior>,
    pub characteristics: Vec<ReportCharacteristic>,
    pub functional_semantics: Vec<ReportFunctionalSemantic>,
    pub functional_purposes: Vec<ReportFunctionalPurpose>,
    pub placement_rationales: Vec<ReportPlacementRationale>,
    pub conditions: Vec<ReportCondition>,
    pub threats: Vec<ReportThreat>,
    pub invariants: Vec<ReportInvariant>,
    pub validations: Vec<ReportValidation>,
    pub threat_feature_links: Vec<ReportThreatFeatureLink>,
    pub feature_requirement_links: Vec<FeatureLink>,
    pub feature_behavior_links: Vec<FeatureLink>,
}

/// A requirement or a behavior of a feature.
#[derive(Debug)]
pub struct FeatureLink {
    pub feature_topic: String,
    pub topic: String,
}

/// A link between a threat and a feature.
#[derive(Debug)]
pub struct ReportThreatFeatureLink {
    pub threat_topic: String,
    pub feature_topic: String,
    pub relation: ThreatFeatureRelation,
    pub severity: ThreatSeverity,
}

pub ghost struct ThreatLinkView {
    pub threat_topic: Seq<char>,
    pub feature_topic: Seq<char>,
    pub relation: ThreatFeatureRelation,
    pub severity: ThreatSeverity,
}

impl View for FeatureLink {
    type V = (Seq<char>, Seq<char>);

    open spec fn view(&self) -> (Seq<char>, Seq<char>) {
        (self.feature_topic@, self.topic@)
    }
}

impl View for ReportThreatFeatureLink {
    type V = ThreatLinkView;

    open spec fn view(&self) -> ThreatLinkView {
        ThreatLinkView {
            threat_topic: self.threat_topic@,
            feature_topic: self.feature_topic@,
            relation: self.relation,
            severity: self.severity,
        }
    }
}

/// What a list of rows or links says.
pub open spec fn viewed<R: View>(s: Seq<R>) -> Seq<R::V> {
    s.map_values(|r: R| r@)
}

/// What the output of analysis says.
pub ghost struct PipelineView {
    pub features: Seq<ReportFeatureView>,
    pub requirements: Seq<ReportRequirementView>,
    pub behaviors: Seq<ReportBehaviorView>,
    pub characteristics: Seq<ReportCharacteristicView>,
    pub functional_semantics: Seq<ReportFunctionalSemanticView>,
    pub functional_purposes: Seq<ReportFunctionalPurposeView>,
    pub placement_rationales: Seq<ReportPlacementRationaleView>,
    pub conditions: Seq<ReportConditionView>,
    pub threats: Seq<ReportThreatView>,
    pub invariants: Seq<ReportInvariantView>,
    pub validations: Seq<ReportValidationView>,
    pub threat_feature_links: Seq<ThreatLinkView>,
    pub feature_requirement_links: Seq<(Seq<char>, Seq<char>)>,
    pub feature_behavior_links: Seq<(Seq<char>, Seq<char>)>,
}

impl View for PipelineOutput {
    type V = PipelineView;

    open spec fn view(&self) -> PipelineView {
        PipelineView {
            features: viewed(self.features@),
            requirements: viewed(self.requirements@),
            behaviors: viewed(self.behaviors@),
            characteristics: viewed(self.characteristics@),
            functional_semantics: viewed(self.functional_semantics@),
            functional_purposes: viewed(self.functional_purposes@),
            placement_rationales: viewed(self.placement_rationales@),
            conditions: viewed(self.conditions@),
            threats: viewed(self.threats@),
            invariants: viewed(self.invariants@),
            validations: viewed(self.validations@),
            threat_feature_links: viewed(self.threat_feature_links@),
            feature_requirement_links: viewed(self.feature_requirement_links@),
            feature_behavior_links: viewed(self.feature_behavior_links@),
        }
    }
}

/// `a` comes no later than `b` among texts.
pub open spec fn text_at_most(a: Seq<char>, b: Seq<char>) -> bool {
    !text_before(b, a)
}

pub proof fn text_at_most_total(a: Seq<char>, b: Seq<char>)
    ensures
        text_at_most(a, b) || text_at_most(b, a),
{
    if text_before(a, b) && text_before(b, a) {
        text_before_transitive(a, b, a);
        text_before_irreflexive(a);
    }
}

pub proof fn text_at_most_transitive(a: Seq<char>, b: Seq<char>, c: Seq<char>)
    requires
        text_at_most(a, b),
        text_at_most(b, c),
    ensures
        text_at_most(a, c),
{
    if text_before(c, a) {
        text_before_total(a, b);
        if a == b {
        } else {
            text_before_transitive(c, a, b);
        }
    }
}

/// `a` comes no later than `b` among pairs of texts.
pub open spec fn pair_at_most(a: (Seq<char>, Seq<char>), b: (Seq<char>, Seq<char>)) -> bool {
    text_before(a.0, b.0) || (a.0 == b.0 && text_at_most(a.1, b.1))
}

pub proof fn pair_at_most_total(a: (Seq<char>, Seq<char>), b: (Seq<char>, Seq<char>))
    ensures
        pair_at_most(a, b) || pair_at_most(b, a),
{
    text_before_total(a.0, b.0);
    text_at_most_total(a.1, b.1);
}

pub proof fn pair_at_most_transitive(
    a: (Seq<char>, Seq<char>),
    b: (Seq<char>, Seq<char>),
    c: (Seq<char>, Seq<char>),
)
    requires
        pair_at_most(a, b),
        pair_at_most(b, c),
    ensures
        pair_at_most(a, c),
{
    if text_before(a.0, b.0) && text_before(b.0, c.0) {
        text_before_transitive(a.0, b.0, c.0);
    }
    if a.0 == b.0 && b.0 == c.0 {
        text_before_irreflexive(a.0);
        text_at_most_transitive(a.1, b.1, c.1);
    }
}

fn is_text_at_most(a: &String, b: &String) -> (r: bool)
    ensures
        r == text_at_most(a@, b@),
{
    proof {
        text_before_irreflexive(a@);
    }
    match text_order(a.as_str(), b.as_str()) {
        Standing::After => false,
        Standing::Before => {
            proof {
                if text_before(b@, a@) {
                    text_before_transitive(a@, b@, a@);
                }
            }
            true
        },
        Standing::Same => true,
    }
}

fn is_pair_at_most(a: (&String, &String), b: (&String, &String)) -> (r: bool)
    ensures
        r == pair_at_most((a.0@, a.1@), (b.0@, b.1@)),
{
    proof {
        text_before_irreflexive(a.0@);
    }
    match text_order(a.0.as_str(), b.0.as_str()) {
        Standing::Before => true,
        Standing::Same => is_text_at_most(a.1, b.1),
        Standing::After => {
            proof {
                if text_before(a.0@, b.0@) {
                    text_before_transitive(a.0@, b.0@, a.0@);
                }
            }
            false
        },
    }
}

impl Ranked for ReportFeature {
    open spec fn at_most(a: ReportFeature, b: ReportFeature) -> bool {
        text_at_most(a.topic@, b.topic@)
    }

    proof fn at_most_total(a: ReportFeature, b: ReportFeature) {
        text_at_most_total(a.topic@, b.topic@);
    }

    proof fn at_most_transitive(a: ReportFeature, b: ReportFeature, c: ReportFeature) {
        text_at_most_transitive(a.topic@, b.topic@, c.topic@);
    }

    fn ranks_at_most(&self, other: &ReportFeature) -> (r: bool) {
        is_text_at_most(&self.topic, &other.topic)
    }
}

impl Ranked for ReportRequirement {
    open spec fn at_most(a: ReportRequirement, b: ReportRequirement) -> bool {
        text_at_most(a.topic@, b.topic@)
    }

    proof fn at_most_total(a: ReportRequirement, b: ReportRequirement) {
        text_at_most_total(a.topic@, b.topic@);
    }

    proof fn at_most_transitive(a: ReportRequirement, b: ReportRequirement, c: ReportRequirement) {
        text_at_most_transitive(a.topic@, b.topic@, c.topic@);
    }

    fn ranks_at_most(&self, other: &ReportRequirement) -> (r: bool) {
        is_text_at_most(&self.topic, &other.topic)
    }
}

impl Ranked for ReportBehavior {
    open spec fn at_most(a: ReportBehavior, b: ReportBehavior) -> bool {
        text_at_most(a.topic@, b.topic@)
    }

    proof fn at_most_total(a: ReportBehavior, b: ReportBehavior) {
        text_at_most_total(a.topic@, b.topic@);
    }

    proof fn at_most_transitive(a: ReportBehavior, b: ReportBehavior, c: ReportBehavior) {
        text_at_most_transitive(a.topic@, b.topic@, c.topic@);
    }

    fn ranks_at_most(&self, other: &ReportBehavior) -> (r: bool) {
        is_text_at_most(&self.topic, &other.topic)
    }
}

impl Ranked for ReportCharacteristic {
    open spec fn at_most(a: ReportCharacteristic, b: ReportCharacteristic) -> bool {
        text_at_most(a.topic@, b.topic@)
    }

    proof fn at_most_total(a: ReportCharacteristic, b: ReportCharacteristic) {
        text_at_most_total(a.topic@, b.topic@);
    }

    proof fn at_most_transitive(a: ReportCharacteristic, b: ReportCharacteristic, c: ReportCharacteristic) {
        text_at_most_transitive(a.topic@, b.topic@, c.topic@);
    }

    fn ranks_at_most(&self, other: &ReportCharacteristic) -> (r: bool) {
        is_text_at_most(&self.topic, &other.topic)
    }
}

impl Ranked for ReportFunctionalSemantic {
    open spec fn at_most(a: ReportFunctionalSemantic, b: ReportFunctionalSemantic) -> bool {
        text_at_most(a.topic@, b.topic@)
    }

    proof fn at_most_total(a: ReportFunctionalSemantic, b: ReportFunctionalSemantic) {
        text_at_most_total(a.topic@, b.topic@);
    }

    proof fn at_most_transitive(a: ReportFunctionalSemantic, b: ReportFunctionalSemantic, c: ReportFunctionalSemantic) {
        text_at_most_transitive(a.topic@, b.topic@, c.topic@);
    }

    fn ranks_at_most(&self, other: &ReportFunctionalSemantic) -> (r: bool) {
        is_text_at_most(&self.topic, &other.topic)
    }
}

impl Ranked for ReportFunctionalPurpose {
    open spec fn at_most(a: ReportFunctionalPurpose, b: ReportFunctionalPurpose) -> bool {
        text_at_most(a.topic@, b.topic@)
    }

    proof fn at_most_total(a: ReportFunctionalPurpose, b: ReportFunctionalPurpose) {
        text_at_most_total(a.topic@, b.topic@);
    }

    proof fn at_most_transitive(a: ReportFunctionalPurpose, b: ReportFunctionalPurpose, c: ReportFunctionalPurpose) {
        text_at_most_transitive(a.topic@, b.topic@, c.topic@);
    }

    fn ranks_at_most(&self, other: &ReportFunctionalPurpose) -> (r: bool) {
        is_text_at_most(&self.topic, &other.topic)
    }
}

impl Ranked for ReportPlacementRationale {
    open spec fn at_most(a: ReportPlacementRationale, b: ReportPlacementRationale) -> bool {
        text_at_most(a.topic@, b.topic@)
    }

    proof fn at_most_total(a: ReportPlacementRationale, b: ReportPlacementRationale) {
        text_at_most_total(a.topic@, b.topic@);
    }

    proof fn at_most_transitive(a: ReportPlacementRationale, b: ReportPlacementRationale, c: ReportPlacementRationale) {
        text_at_most_transitive(a.topic@, b.topic@, c.topic@);
    }

    fn ranks_at_most(&self, other: &ReportPlacementRationale) -> (r: bool) {
        is_text_at_most(&self.topic, &other.topic)
    }
}

impl Ranked for ReportCondition {
    open spec fn at_most(a: ReportCondition, b: ReportCondition) -> bool {
        text_at_most(a.topic@, b.topic@)
    }

    proof fn at_most_total(a: ReportCondition, b: ReportCondition) {
        text_at_most_total(a.topic@, b.topic@);
    }

    proof fn at_most_transitive(a: ReportCondition, b: ReportCondition, c: ReportCondition) {
        text_at_most_transitive(a.topic@, b.topic@, c.topic@);
    }

    fn ranks_at_most(&self, other: &ReportCondition) -> (r: bool) {
        is_text_at_most(&self.topic, &other.topic)
    }
}

impl Ranked for ReportThreat {
    open spec fn at_most(a: ReportThreat, b: ReportThreat) -> bool {
        text_at_most(a.topic@, b.topic@)
    }

    proof fn at_most_total(a: ReportThreat, b: ReportThreat) {
        text_at_most_total(a.topic@, b.topic@);
    }

    proof fn at_most_transitive(a: ReportThreat, b: ReportThreat, c: ReportThreat) {
        text_at_most_transitive(a.topic@, b.topic@, c.topic@);
    }

    fn ranks_at_most(&self, other: &ReportThreat) -> (r: bool) {
        is_text_at_most(&self.topic, &other.topic)
    }
}

impl Ranked for ReportInvariant {
    open spec fn at_most(a: ReportInvariant, b: ReportInvariant) -> bool {
        text_at_most(a.topic@, b.topic@)
    }

    proof fn at_most_total(a: ReportInvariant, b: ReportInvariant) {
        text_at_most_total(a.topic@, b.topic@);
    }

    proof fn at_most_transitive(a: ReportInvariant, b: ReportInvariant, c: ReportInvariant) {
        text_at_most_transitive(a.topic@, b.topic@, c.topic@);
    }

    fn ranks_at_most(&self, other: &ReportInvariant) -> (r: bool) {
        is_text_at_most(&self.topic, &other.topic)
    }
}

impl Ranked for ReportValidation {
    open spec fn at_most(a: ReportValidation, b: ReportValidation) -> bool {
        text_at_most(a.topic@, b.topic@)
    }

    proof fn at_most_total(a: ReportValidation, b: ReportValidation) {
        text_at_most_total(a.topic@, b.topic@);
    }

    proof fn at_most_transitive(a: ReportValidation, b: ReportValidation, c: ReportValidation) {
        text_at_most_transitive(a.topic@, b.topic@, c.topic@);
    }

    fn ranks_at_most(&self, other: &ReportValidation) -> (r: bool) {
        is_text_at_most(&self.topic, &other.topic)
    }
}

impl Ranked for FeatureLink {
    open spec fn at_most(a: FeatureLink, b: FeatureLink) -> bool {
        pair_at_most((a.feature_topic@, a.topic@), (b.feature_topic@, b.topic@))
    }

    proof fn at_most_total(a: FeatureLink, b: FeatureLink) {
        pair_at_most_total((a.feature_topic@, a.topic@), (b.feature_topic@, b.topic@));
    }

    proof fn at_most_transitive(a: FeatureLink, b: FeatureLink, c: FeatureLink) {
        pair_at_most_transitive(
            (a.feature_topic@, a.topic@),
            (b.feature_topic@, b.topic@),
            (c.feature_topic@, c.topic@),
        );
    }

    fn ranks_at_most(&self, other: &FeatureLink) -> (r: bool) {
        is_pair_at_most((&self.feature_topic, &self.topic), (&other.feature_topic, &other.topic))
    }
}

impl Ranked for ReportThreatFeatureLink {
    open spec fn at_most(a: ReportThreatFeatureLink, b: ReportThreatFeatureLink) -> bool {
        pair_at_most((a.threat_topic@, a.feature_topic@), (b.threat_topic@, b.feature_topic@))
    }

    proof fn at_most_total(a: ReportThreatFeatureLink, b: ReportThreatFeatureLink) {
        pair_at_most_total((a.threat_topic@, a.feature_topic@), (b.threat_topic@, b.feature_topic@));
    }

    proof fn at_most_transitive(a: ReportThreatFeatureLink, b: ReportThreatFeatureLink, c: ReportThreatFeatureLink) {
        pair_at_most_transitive(
            (a.threat_topic@, a.feature_topic@),
            (b.threat_topic@, b.feature_topic@),
            (c.threat_topic@, c.feature_topic@),
        );
    }

    fn ranks_at_most(&self, other: &ReportThreatFeatureLink) -> (r: bool) {
        is_pair_at_most((&self.threat_topic, &self.feature_topic), (&other.threat_topic, &other.feature_topic))
    }
}

/// The order of rows: by the wire form of their topic.
pub open spec fn by_topic<R: ReportRow>() -> spec_fn(R::V, R::V) -> bool {
    |a: R::V, b: R::V| text_at_most(R::row_topic(a), R::row_topic(b))
}

/// Which row, if any, an entry gives.
pub open spec fn row_of_entry<R: ReportRow>(a: &AuditData) -> spec_fn((Topic, TopicMetadata)) -> Option<
    R::V,
> {
    |e: (Topic, TopicMetadata)| R::row_for(a, e.1@)
}

/// The rows of one kind: one for each topic of that kind, by topic.
pub open spec fn rows<R: ReportRow>(a: &AuditData) -> Seq<R::V> {
    sorted_by(entries(a).filter_map(row_of_entry::<R>(a)), by_topic::<R>())
}

fn collect_rows<R: ReportRow>(a: &AuditData) -> (r: Vec<R>)
    ensures
        viewed(r@) == entries(a).filter_map(row_of_entry::<R>(a)),
{
    let n: usize = a.topic_metadata.len();
    let ghost s = entries(a);
    let ghost f = row_of_entry::<R>(a);
    let mut out: Vec<R> = Vec::new();
    assert(s.take(0) =~= Seq::empty());
    assert(viewed(out@) =~= s.take(0).filter_map(f));
    for i in 0..n
        invariant
            n == s.len(),
            s == entries(a),
            f == row_of_entry::<R>(a),
            viewed(out@) == s.take(i as int).filter_map(f),
    {
        proof {
            s.lemma_filter_map_take_succ(f, i as int);
        }
        match R::of(a, a.topic_metadata.value_at(i)) {
            Some(row) => {
                let ghost before = out@;
                out.push(row);
                assert(viewed(out@) =~= viewed(before).push(row@));
                assert(viewed(before).push(row@) =~= viewed(before) + seq![row@]);
            },
            None => {},
        }
    }
    assert(s.take(n as int) =~= s);
    out
}

fn collect_features(audit_data: &AuditData) -> (r: Vec<ReportFeature>)
    ensures
        viewed(r@) == rows::<ReportFeature>(audit_data),
{
    let found = collect_rows::<ReportFeature>(audit_data);
    proof {
        lemma_sorted_mapped(found@, |r: ReportFeature| r@, by_topic::<ReportFeature>());
    }
    stable_sort(found)
}

fn collect_requirements(audit_data: &AuditData) -> (r: Vec<ReportRequirement>)
    ensures
        viewed(r@) == rows::<ReportRequirement>(audit_data),
{
    let found = collect_rows::<ReportRequirement>(audit_data);
    proof {
        lemma_sorted_mapped(found@, |r: ReportRequirement| r@, by_topic::<ReportRequirement>());
    }
    stable_sort(found)
}

fn collect_behaviors(audit_data: &AuditData) -> (r: Vec<ReportBehavior>)
    ensures
        viewed(r@) == rows::<ReportBehavior>(audit_data),
{
    let found = collect_rows::<ReportBehavior>(audit_data);
    proof {
        lemma_sorted_mapped(found@, |r: ReportBehavior| r@, by_topic::<ReportBehavior>());
    }
    stable_sort(found)
}

fn collect_characteristics(audit_data: &AuditData) -> (r: Vec<ReportCharacteristic>)
    ensures
        viewed(r@) == rows::<ReportCharacteristic>(audit_data),
{
    let found = collect_rows::<ReportCharacteristic>(audit_data);
    proof {
        lemma_sorted_mapped(found@, |r: ReportCharacteristic| r@, by_topic::<ReportCharacteristic>());
    }
    stable_sort(found)
}

fn collect_functional_semantics(audit_data: &AuditData) -> (r: Vec<ReportFunctionalSemantic>)
    ensures
        viewed(r@) == rows::<ReportFunctionalSemantic>(audit_data),
{
    let found = collect_rows::<ReportFunctionalSemantic>(audit_data);
    proof {
        lemma_sorted_mapped(found@, |r: ReportFunctionalSemantic| r@, by_topic::<ReportFunctionalSemantic>());
    }
    stable_sort(found)
}

fn collect_functional_purposes(audit_data: &AuditData) -> (r: Vec<ReportFunctionalPurpose>)
    ensures
        viewed(r@) == rows::<ReportFunctionalPurpose>(audit_data),
{
    let found = collect_rows::<ReportFunctionalPurpose>(audit_data);
    proof {
        lemma_sorted_mapped(found@, |r: ReportFunctionalPurpose| r@, by_topic::<ReportFunctionalPurpose>());
    }
    stable_sort(found)
}

fn collect_placement_rationales(audit_data: &AuditData) -> (r: Vec<ReportPlacementRationale>)
    ensures
        viewed(r@) == rows::<ReportPlacementRationale>(audit_data),
{
    let found = collect_rows::<ReportPlacementRationale>(audit_data);
    proof {
        lemma_sorted_mapped(found@, |r: ReportPlacementRationale| r@, by_topic::<ReportPlacementRationale>());
    }
    stable_sort(found)
}

fn collect_conditions(audit_data: &AuditData) -> (r: Vec<ReportCondition>)
    ensures
        viewed(r@) == rows::<ReportCondition>(audit_data),
{
    let found = collect_rows::<ReportCondition>(audit_data);
    proof {
        lemma_sorted_mapped(found@, |r: ReportCondition| r@, by_topic::<ReportCondition>());
    }
    stable_sort(found)
}

fn collect_threats(audit_data: &AuditData) -> (r: Vec<ReportThreat>)
    ensures
        viewed(r@) == rows::<ReportThreat>(audit_data),
{
    let found = collect_rows::<ReportThreat>(audit_data);
    proof {
        lemma_sorted_mapped(found@, |r: ReportThreat| r@, by_topic::<ReportThreat>());
    }
    stable_sort(found)
}

fn collect_invariants(audit_data: &AuditData) -> (r: Vec<ReportInvariant>)
    ensures
        viewed(r@) == rows::<ReportInvariant>(audit_data),
{
    let found = collect_rows::<ReportInvariant>(audit_data);
    proof {
        lemma_sorted_mapped(found@, |r: ReportInvariant| r@, by_topic::<ReportInvariant>());
    }
    stable_sort(found)
}

fn collect_validations(audit_data: &AuditData) -> (r: Vec<ReportValidation>)
    ensures
        viewed(r@) == rows::<ReportValidation>(audit_data),
{
    let found = collect_rows::<ReportValidation>(audit_data);
    proof {
        lemma_sorted_mapped(found@, |r: ReportValidation| r@, by_topic::<ReportValidation>());
    }
    stable_sort(found)
}

/// The pairs of an index: each topic with each topic of its list.
pub open spec fn index_pairs(s: Seq<(Topic, Seq<Topic>)>) -> Seq<(Topic, Topic)>
    decreases s.len(),
{
    if s.len() == 0 {
        seq![]
    } else {
        index_pairs(s.drop_last()) + s.last().1.map_values(|t: Topic| (s.last().0, t))
    }
}

/// The wire forms of a pair.
pub open spec fn pair_texts() -> spec_fn((Topic, Topic)) -> (Seq<char>, Seq<char>) {
    |p: (Topic, Topic)| (topic_text(p.0), topic_text(p.1))
}

pub open spec fn pair_order() -> spec_fn((Seq<char>, Seq<char>), (Seq<char>, Seq<char>)) -> bool {
    |a: (Seq<char>, Seq<char>), b: (Seq<char>, Seq<char>)| pair_at_most(a, b)
}

/// The links of an index, in the order of their wire forms.
pub open spec fn link_rows(s: Seq<(Topic, Seq<Topic>)>) -> Seq<(Seq<char>, Seq<char>)> {
    sorted_by(index_pairs(s).map_values(pair_texts()), pair_order())
}

fn flatten_links(map: &TopicIndex) -> (r: Vec<FeatureLink>)
    ensures
        viewed(r@) == link_rows(index_lists(map.pairs())),
{
    let n: usize = map.len();
    let ghost lists = index_lists(map.pairs());
    let mut out: Vec<FeatureLink> = Vec::new();
    assert(viewed(out@) =~= index_pairs(lists.take(0)).map_values(pair_texts()));
    for i in 0..n
        invariant
            n == map.pairs().len(),
            lists == index_lists(map.pairs()),
            viewed(out@) == index_pairs(lists.take(i as int)).map_values(pair_texts()),
    {
        let feature = map.key_at(i);
        let list = map.value_at(i);
        let ghost before = out@;
        let ghost part = lists[i as int].1.map_values(|t: Topic| (lists[i as int].0, t));
        assert(viewed(out@) =~= viewed(before) + part.take(0).map_values(pair_texts()));
        for j in 0..list.len()
            invariant
                0 <= i < n,
                n == map.pairs().len(),
                lists == index_lists(map.pairs()),
                *feature == map.pairs()[i as int].0,
                *list == map.pairs()[i as int].1,
                part == lists[i as int].1.map_values(|t: Topic| (lists[i as int].0, t)),
                part.len() == list@.len(),
                viewed(out@) == viewed(before) + part.take(j as int).map_values(pair_texts()),
        {
            let link = FeatureLink { feature_topic: feature.id(), topic: list[j].id() };
            let ghost mid = out@;
            out.push(link);
            assert(viewed(out@) =~= viewed(mid).push(link@));
            assert(part.take(j + 1).map_values(pair_texts()) =~= part.take(j as int).map_values(
                pair_texts(),
            ).push(link@));
            assert(viewed(out@) =~= viewed(before) + part.take(j + 1).map_values(pair_texts()));
        }
        assert(part.take(list@.len() as int) =~= part);
        assert(lists.take(i + 1).drop_last() =~= lists.take(i as int));
        assert(lists.take(i + 1).last() == lists[i as int]);
        assert(index_pairs(lists.take(i + 1)) == index_pairs(lists.take(i as int)) + part);
        assert((index_pairs(lists.take(i as int)) + part).map_values(pair_texts()) =~= index_pairs(
            lists.take(i as int),
        ).map_values(pair_texts()) + part.map_values(pair_texts()));
    }
    assert(lists.take(n as int) =~= lists);
    proof {
        lemma_sorted_mapped(out@, |r: FeatureLink| r@, pair_order());
    }
    stable_sort(out)
}

/// What a report says of a link between a threat and a feature.
pub open spec fn threat_link_row() -> spec_fn(ThreatFeatureLink) -> ThreatLinkView {
    |l: ThreatFeatureLink|
        ThreatLinkView {
            threat_topic: topic_text(l.threat_topic),
            feature_topic: topic_text(l.feature_topic),
            relation: l.relation,
            severity: l.severity,
        }
}

pub open spec fn threat_link_order() -> spec_fn(ThreatLinkView, ThreatLinkView) -> bool {
    |a: ThreatLinkView, b: ThreatLinkView|
        pair_at_most((a.threat_topic, a.feature_topic), (b.threat_topic, b.feature_topic))
}

/// The links between threats and features, in the order of their wire forms.
pub open spec fn threat_link_rows(s: Seq<ThreatFeatureLink>) -> Seq<ThreatLinkView> {
    sorted_by(s.map_values(threat_link_row()), threat_link_order())
}

fn collect_threat_feature_links(audit_data: &AuditData) -> (r: Vec<ReportThreatFeatureLink>)
    ensures
        viewed(r@) == threat_link_rows(audit_data.threat_feature_links@),
{
    let links = &audit_data.threat_feature_links;
    let mut out: Vec<ReportThreatFeatureLink> = Vec::new();
    assert(viewed(out@) =~= links@.take(0).map_values(threat_link_row()));
    for i in 0..links.len()
        invariant
            viewed(out@) == links@.take(i as int).map_values(threat_link_row()),
    {
        let link = &links[i];
        let row = ReportThreatFeatureLink {
            threat_topic: link.threat_topic.id(),
            feature_topic: link.feature_topic.id(),
            relation: link.relation,
            severity: link.severity,
        };
        let ghost before = out@;
        out.push(row);
        assert(viewed(out@) =~= viewed(before).push(row@));
        assert(links@.take(i + 1).map_values(threat_link_row()) =~= links@.take(i as int).map_values(
            threat_link_row(),
        ).push(row@));
    }
    assert(links@.take(links@.len() as int) =~= links@);
    proof {
        lemma_sorted_mapped(out@, |r: ReportThreatFeatureLink| r@, threat_link_order());
    }
    stable_sort(out)
}

/// All that analysis produced on an audit.
pub open spec fn pipeline_of(a: &AuditData) -> PipelineView {
    PipelineView {
        features: rows::<ReportFeature>(a),
        requirements: rows::<ReportRequirement>(a),
        behaviors: rows::<ReportBehavior>(a),
        characteristics: rows::<ReportCharacteristic>(a),
        functional_semantics: rows::<ReportFunctionalSemantic>(a),
        functional_purposes: rows::<ReportFunctionalPurpose>(a),
        placement_rationales: rows::<ReportPlacementRationale>(a),
        conditions: rows::<ReportCondition>(a),
        threats: rows::<ReportThreat>(a),
        invariants: rows::<ReportInvariant>(a),
        validations: rows::<ReportValidation>(a),
        threat_feature_links: threat_link_rows(a.threat_feature_links@),
        feature_requirement_links: link_rows(index_lists(a.feature_requirement_links.pairs())),
        feature_behavior_links: link_rows(index_lists(a.feature_behavior_links.pairs())),
    }
}

/// The paths in scope, in ascending order.
pub open spec fn scope_files(a: &AuditData) -> Seq<Seq<char>> {
    a.in_scope_files.pairs().map_values(|p: (ProjectPath, ())| p.0@)
}

fn list_scope_files(a: &AuditData) -> (r: Vec<String>)
    ensures
        texts(r@) == scope_files(a),
{
    let n: usize = a.in_scope_files.len();
    let mut out: Vec<String> = Vec::new();
    assert(texts(out@) =~= scope_files(a).take(0));
    for i in 0..n
        invariant
            n == a.in_scope_files.pairs().len(),
            texts(out@) == scope_files(a).take(i as int),
    {
        let ghost before = out@;
        out.push(a.in_scope_files.key_at(i).file_path.clone());
        assert(texts(out@) =~= texts(before).push(scope_files(a)[i as int]));
        assert(scope_files(a).take(i + 1) =~= scope_files(a).take(i as int).push(
            scope_files(a)[i as int],
        ));
    }
    assert(scope_files(a).take(n as int) =~= scope_files(a));
    out
}

/// `r` is the report on `a`.
pub open spec fn is_report(
    audit_id: Seq<char>,
    a: &AuditData,
    generated_at: Seq<char>,
    r: AuditReport,
) -> bool {
    &&& r.schema_version == SCHEMA_VERSION
    &&& r.generator.name@ == GENERATOR_NAME@
    &&& r.generator.version@ == GENERATOR_VERSION@
    &&& r.generated_at@ == generated_at
    &&& r.audit.id@ == audit_id
    &&& r.audit.name@ == a.audit_name@
    &&& texts(r.audit.in_scope_files@) == scope_files(a)
    &&& opt_text(r.audit.security_notes) == opt_text(a.security_notes)
    &&& r.pipeline@ == pipeline_of(a)
}

/// The report on what analysis produced. The caller gives the time stamp.
pub fn build_report(audit_id: &str, audit_data: &AuditData, generated_at: String) -> (r:
    AuditReport)
    ensures
        is_report(audit_id@, audit_data, generated_at@, r),
{
    let audit = AuditMetadata {
        id: audit_id.to_owned(),
        name: audit_data.audit_name.clone(),
        in_scope_files: list_scope_files(audit_data),
        security_notes: copy_text(&audit_data.security_notes),
    };
    let pipeline = PipelineOutput {
        features: collect_features(audit_data),
        requirements: collect_requirements(audit_data),
        behaviors: collect_behaviors(audit_data),
        characteristics: collect_characteristics(audit_data),
        functional_semantics: collect_functional_semantics(audit_data),
        functional_purposes: collect_functional_purposes(audit_data),
        placement_rationales: collect_placement_rationales(audit_data),
        conditions: collect_conditions(audit_data),
        threats: collect_threats(audit_data),
        invariants: collect_invariants(audit_data),
        validations: collect_validations(audit_data),
        threat_feature_links: collect_threat_feature_links(audit_data),
        feature_requirement_links: flatten_links(&audit_data.feature_requirement_links),
        feature_behavior_links: flatten_links(&audit_data.feature_behavior_links),
    };
    AuditReport {
        schema_version: SCHEMA_VERSION,
        generator: GeneratorInfo {
            name: GENERATOR_NAME.to_owned(),
            version: GENERATOR_VERSION.to_owned(),
        },
        generated_at,
        audit,
        pipeline,
    }
}

} // verus!
