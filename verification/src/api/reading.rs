//! What requests read.
use crate::api::responses::{has_response, is_response, topic_metadata_to_response};
use crate::api::responses::TopicMetadataResponse;
use crate::api::status::Status;
use crate::domain::audit::{entries, AuditData, Requirement};
use crate::domain::data_context::DataContext;
use crate::domain::index::{index_lists, lemma_index_list, list_for, TopicIndex};
use crate::domain::kinds::{Author, NamedTopicKind};
use crate::domain::lists::{contains_topic, push_all_new, with_topics};
use crate::domain::metadata::TopicMetadata;
use crate::domain::node::Node;
use crate::domain::scope::{Scope, ScopeView};
use crate::domain::topic::{new_topic, parse_adversarial_property_topic};
use crate::domain::topic::{parse_functional_property_topic, parse_spec_topic, prefix_of, Topic};
use crate::feature_lookup::{features_for_topic, features_of};
use crate::ordered::lookup;
use crate::report::export::scope_files;
use crate::report::rows::{denotes, id_texts, ids_of, meant};
use crate::solidity::delimiter::{delimiter_info, delimiter_info_for_node, DelimiterInfo};
use crate::text::{text_before, texts};
use vstd::prelude::*;
use vstd::string::*;

verus! {

#[derive(Debug)]
pub struct InScopeFilesResponse {
    pub in_scope_files: Vec<String>,
}

#[derive(Debug)]
pub struct BoundariesResponse {
    pub boundaries: Vec<String>,
}

#[derive(Debug)]
pub struct AuditInfo {
    pub audit_id: String,
}

#[derive(Debug)]
pub struct AuditsListResponse {
    pub audits: Vec<AuditInfo>,
}

#[derive(Debug)]
pub struct ContractsResponse {
    pub contracts: Vec<TopicMetadataResponse>,
}

#[derive(Debug)]
pub struct DocumentsResponse {
    pub documents: Vec<TopicMetadataResponse>,
}

#[derive(Debug)]
pub struct GetRequirementsQuery {
    pub for_topic: Option<String>,
}

/// A property of a subject.
#[derive(Debug)]
pub struct SubjectPropertyResponse {
    pub topic_id: String,
    pub property_type: String,
    pub value: String,
    pub author: Author,
}

/// The kinds of topics that are listed.
#[derive(Debug, Clone, Copy, PartialEq, Eq, Structural)]
pub enum Listing {
    Documents,
    /// Contracts of files in scope.
    Contracts,
    Features,
    Requirements,
    Behaviors,
    Semantics,
    Threats,
    Invariants,
}

/// A contract that stands directly in a file in scope.
pub open spec fn is_contract_in_scope(a: &AuditData, m: TopicMetadata) -> bool {
    match m {
        TopicMetadata::NamedTopic { kind: NamedTopicKind::Contract(_), scope, .. } => match scope@ {
            ScopeView::Container { container } => a.in_scope_files@.dom().contains(container),
            _ => false,
        },
        _ => false,
    }
}

/// `m` is of the kind that is listed.
pub open spec fn is_listed_as(a: &AuditData, l: Listing, m: TopicMetadata) -> bool {
    match l {
        Listing::Documents => m is DocumentationTopic,
        Listing::Contracts => is_contract_in_scope(a, m),
        Listing::Features => m is FeatureTopic,
        Listing::Requirements => m is RequirementTopic,
        Listing::Behaviors => m is BehaviorTopic,
        Listing::Semantics => m is FunctionalSemanticTopic,
        Listing::Threats => m is ThreatTopic,
        Listing::Invariants => m is InvariantTopic,
    }
}

pub open spec fn listed_as(a: &AuditData, l: Listing) -> spec_fn((Topic, TopicMetadata)) -> bool {
    |e: (Topic, TopicMetadata)| is_listed_as(a, l, e.1)
}

/// One response for each topic, in their order.
pub open spec fn responses_for(
    r: Seq<TopicMetadataResponse>,
    s: Seq<(Topic, TopicMetadata)>,
) -> bool {
    &&& r.len() == s.len()
    &&& forall|i: int| 0 <= i < s.len() ==> is_response(#[trigger] r[i], s[i].0, s[i].1@)
}

fn is_kind(a: &AuditData, l: Listing, m: &TopicMetadata) -> (r: bool)
    ensures
        r == is_listed_as(a, l, *m),
{
    match l {
        Listing::Documents => matches!(m, TopicMetadata::DocumentationTopic { .. }),
        Listing::Contracts => match m {
            TopicMetadata::NamedTopic { kind: NamedTopicKind::Contract(_), scope, .. } => {
                match scope {
                    Scope::Container { container } => a.in_scope_files.contains_key(container),
                    _ => false,
                }
            },
            _ => false,
        },
        Listing::Features => matches!(m, TopicMetadata::FeatureTopic { .. }),
        Listing::Requirements => matches!(m, TopicMetadata::RequirementTopic { .. }),
        Listing::Behaviors => matches!(m, TopicMetadata::BehaviorTopic { .. }),
        Listing::Semantics => matches!(m, TopicMetadata::FunctionalSemanticTopic { .. }),
        Listing::Threats => matches!(m, TopicMetadata::ThreatTopic { .. }),
        Listing::Invariants => matches!(m, TopicMetadata::InvariantTopic { .. }),
    }
}

/// What is said of all topics of one kind, by ascending topic.
pub fn list_topics(a: &AuditData, l: Listing) -> (r: Vec<TopicMetadataResponse>)
    ensures
        responses_for(r@, entries(a).filter(listed_as(a, l))),
{
    let n: usize = a.topic_metadata.len();
    let ghost s = entries(a);
    let ghost f = listed_as(a, l);
    let mut out: Vec<TopicMetadataResponse> = Vec::new();
    assert(s.take(0).filter(f) =~= Seq::empty()) by {
        reveal(Seq::filter);
    }
    for i in 0..n
        invariant
            n == s.len(),
            s == entries(a),
            f == listed_as(a, l),
            responses_for(out@, s.take(i as int).filter(f)),
    {
        let t = a.topic_metadata.key_at(i);
        let m = a.topic_metadata.value_at(i);
        let ghost before = s.take(i as int).filter(f);
        proof {
            assert(s.take(i + 1) =~= s.take(i as int).push(s[i as int]));
            s.take(i as int).lemma_filter_push(s[i as int], f);
        }
        if is_kind(a, l, m) {
            let ghost was = out@;
            if let Some(response) = topic_metadata_to_response(t, m) {
                out.push(response);
                let ghost now = before.push(s[i as int]);
                assert forall|k: int| 0 <= k < now.len() implies is_response(
                    #[trigger] out@[k],
                    now[k].0,
                    now[k].1@,
                ) by {
                    if k < was.len() {
                        assert(out@[k] == was[k]);
                    }
                }
            }
        }
    }
    assert(s.take(n as int) =~= s);
    out
}

/// The files in scope.
pub fn get_in_scope_files(a: &AuditData) -> (r: InScopeFilesResponse)
    ensures
        texts(r.in_scope_files@) == scope_files(a),
{
    let n: usize = a.in_scope_files.len();
    let mut out: Vec<String> = Vec::new();
    assert(texts(out@) =~= scope_files(a).take(0));
    for i in 0..n
        invariant
            n == a.in_scope_files.pairs().len(),
            texts(out@) == scope_files(a).take(i as int),
    {
        let ghost before = out@;
        out.push(a.in_scope_files.key_at(i).file_path.clone());
        assert(texts(out@) =~= texts(before).push(scope_files(a)[i as int]));
        assert(scope_files(a).take(i + 1) =~= scope_files(a).take(i as int).push(
            scope_files(a)[i as int],
        ));
    }
    assert(scope_files(a).take(n as int) =~= scope_files(a));
    InScopeFilesResponse { in_scope_files: out }
}

/// The boundaries of an audit. None are known yet.
pub fn get_boundaries() -> (r: BoundariesResponse)
    ensures
        r.boundaries@.len() == 0,
{
    BoundariesResponse { boundaries: Vec::new() }
}

pub open spec fn audit_ids(s: Seq<AuditInfo>) -> Seq<Seq<char>> {
    s.map_values(|i: AuditInfo| i.audit_id@)
}

/// All audits, by ascending identifier.
pub fn list_audits(ctx: &DataContext) -> (r: AuditsListResponse)
    ensures
        forall|id: Seq<char>| #[trigger]
            audit_ids(r.audits@).contains(id) <==> ctx.audits@.dom().contains(id),
        forall|i: int, j: int|
            0 <= i < j < r.audits@.len() ==> text_before(
                #[trigger] audit_ids(r.audits@)[i],
                #[trigger] audit_ids(r.audits@)[j],
            ),
{
    let ids = ctx.list_audits();
    let mut audits: Vec<AuditInfo> = Vec::new();
    for i in 0..ids.len()
        invariant
            audits@.len() == i,
            forall|k: int| 0 <= k < i ==> (#[trigger] audits@[k]).audit_id@ == ids@[k]@,
    {
        audits.push(AuditInfo { audit_id: ids[i].clone() });
    }
    assert(audit_ids(audits@) =~= texts(ids@));
    assert forall|i: int, j: int| 0 <= i < j < audits@.len() implies text_before(
        #[trigger] audit_ids(audits@)[i],
        #[trigger] audit_ids(audits@)[j],
    ) by {
        assert(text_before(ids@[i]@, ids@[j]@));
    }
    AuditsListResponse { audits }
}

/// All documents.
pub fn get_documents(a: &AuditData) -> (r: DocumentsResponse)
    ensures
        responses_for(r.documents@, entries(a).filter(listed_as(a, Listing::Documents))),
{
    DocumentsResponse { documents: list_topics(a, Listing::Documents) }
}

/// All contracts of files in scope.
pub fn get_contracts(a: &AuditData) -> (r: ContractsResponse)
    ensures
        responses_for(r.contracts@, entries(a).filter(listed_as(a, Listing::Contracts))),
{
    ContractsResponse { contracts: list_topics(a, Listing::Contracts) }
}

/// All qualified names, in ascending order.
pub fn get_qualified_names(a: &AuditData) -> (r: Vec<String>)
    ensures
        forall|name: Seq<char>| #[trigger]
            a.name_index.qualified_map().dom().contains(name) <==> exists|i: int|
                0 <= i < r@.len() && (#[trigger] r@[i])@ == name,
        forall|i: int, j: int|
            0 <= i < j < r@.len() ==> text_before((#[trigger] r@[i])@, (#[trigger] r@[j])@),
{
    let names = a.name_index.qualified_names();
    let mut out: Vec<String> = Vec::new();
    for i in 0..names.len()
        invariant
            out@.len() == i,
            forall|k: int| 0 <= k < i ==> (#[trigger] out@[k])@ == names@[k]@,
    {
        out.push(names[i].to_owned());
    }
    proof {
        assert forall|name: Seq<char>| #[trigger]
            a.name_index.qualified_map().dom().contains(name) <==> exists|i: int|
                0 <= i < out@.len() && (#[trigger] out@[i])@ == name by {
            if a.name_index.qualified_map().dom().contains(name) {
                let i = choose|i: int| 0 <= i < names@.len() && (#[trigger] names@[i])@ == name;
                assert(out@[i]@ == name);
            }
            if exists|i: int| 0 <= i < out@.len() && (#[trigger] out@[i])@ == name {
                let i = choose|i: int| 0 <= i < out@.len() && (#[trigger] out@[i])@ == name;
                assert(names@[i]@ == name);
            }
        }
    }
    out
}

/// The delimiters of the node with a topic.
pub open spec fn delimiter_at(n: Node) -> Option<DelimiterInfo> {
    match n {
        Node::Solidity(node) => delimiter_info(&node),
        _ => None,
    }
}

/// The delimiters of a node, if it is a control flow statement.
pub fn get_delimiter(a: &AuditData, topic_id: &str) -> (r: Result<Option<DelimiterInfo>, Status>)
    requires
        denotes(topic_id@),
    ensures
        match lookup(a.nodes.pairs(), meant(topic_id@)) {
            Some(n) => r == Ok::<Option<DelimiterInfo>, Status>(delimiter_at(n)),
            None => r == Err::<Option<DelimiterInfo>, Status>(Status::NotFound),
        },
{
    match a.nodes.get(&new_topic(topic_id)) {
        Some(Node::Solidity(node)) => Ok(delimiter_info_for_node(node)),
        Some(_) => Ok(None),
        None => Err(Status::NotFound),
    }
}

/// What a request for one topic of a kind is answered. Without a kind, any will
/// do.
pub open spec fn is_answer(
    a: &AuditData,
    t: Topic,
    l: Option<Listing>,
    r: Result<TopicMetadataResponse, Status>,
) -> bool {
    match lookup(entries(a), t) {
        Some(m) => {
            if (l is Some ==> is_listed_as(a, l->0, m)) && has_response(m@) {
                r is Ok && is_response(r->Ok_0, t, m@)
            } else {
                r is Err && r->Err_0 == Status::NotFound
            }
        },
        None => r is Err && r->Err_0 == Status::NotFound,
    }
}

fn answer(a: &AuditData, t: &Topic, l: Option<Listing>) -> (r: Result<
    TopicMetadataResponse,
    Status,
>)
    ensures
        is_answer(a, *t, l, r),
{
    match a.topic_metadata.get(t) {
        Some(m) => {
            let wanted = match l {
                Some(l) => is_kind(a, l, m),
                None => true,
            };
            if !wanted {
                return Err(Status::NotFound);
            }
            match topic_metadata_to_response(t, m) {
                Some(response) => Ok(response),
                None => Err(Status::NotFound),
            }
        },
        None => Err(Status::NotFound),
    }
}

/// What is said of a topic.
pub fn get_metadata(a: &AuditData, topic_id: &str) -> (r: Result<TopicMetadataResponse, Status>)
    requires
        denotes(topic_id@),
    ensures
        is_answer(a, meant(topic_id@), None, r),
{
    answer(a, &new_topic(topic_id), None)
}

/// What a request for the topic with this wire form is answered, where only
/// topics with prefix `c` are valid.
pub open spec fn is_answer_for(
    a: &AuditData,
    id: Seq<char>,
    c: char,
    l: Option<Listing>,
    r: Result<TopicMetadataResponse, Status>,
) -> bool {
    if denotes(id) && prefix_of(meant(id)) == c {
        is_answer(a, meant(id), l, r)
    } else {
        r is Err && r->Err_0 == Status::BadRequest
    }
}

fn spec_answer(a: &AuditData, topic_id: &str, l: Listing) -> (r: Result<
    TopicMetadataResponse,
    Status,
>)
    ensures
        is_answer_for(a, topic_id@, 'S', Some(l), r),
{
    match parse_spec_topic(topic_id) {
        Ok(t) => answer(a, &t, Some(l)),
        Err(_) => Err(Status::BadRequest),
    }
}

fn adversarial_answer(a: &AuditData, topic_id: &str, l: Listing) -> (r: Result<
    TopicMetadataResponse,
    Status,
>)
    ensures
        is_answer_for(a, topic_id@, 'A', Some(l), r),
{
    match parse_adversarial_property_topic(topic_id) {
        Ok(t) => answer(a, &t, Some(l)),
        Err(_) => Err(Status::BadRequest),
    }
}

/// All features.
pub fn get_features(a: &AuditData) -> (r: Vec<TopicMetadataResponse>)
    ensures
        responses_for(r@, entries(a).filter(listed_as(a, Listing::Features))),
{
    list_topics(a, Listing::Features)
}

pub fn get_feature(a: &AuditData, topic_id: &str) -> (r: Result<TopicMetadataResponse, Status>)
    ensures
        is_answer_for(a, topic_id@, 'S', Some(Listing::Features), r),
{
    spec_answer(a, topic_id, Listing::Features)
}

pub fn get_requirement(a: &AuditData, topic_id: &str) -> (r: Result<TopicMetadataResponse, Status>)
    ensures
        is_answer_for(a, topic_id@, 'S', Some(Listing::Requirements), r),
{
    spec_answer(a, topic_id, Listing::Requirements)
}

pub fn get_behavior(a: &AuditData, topic_id: &str) -> (r: Result<TopicMetadataResponse, Status>)
    ensures
        is_answer_for(a, topic_id@, 'S', Some(Listing::Behaviors), r),
{
    spec_answer(a, topic_id, Listing::Behaviors)
}

/// All behaviors.
pub fn get_behaviors(a: &AuditData) -> (r: Vec<TopicMetadataResponse>)
    ensures
        responses_for(r@, entries(a).filter(listed_as(a, Listing::Behaviors))),
{
    list_topics(a, Listing::Behaviors)
}

/// All functional semantics.
pub fn get_all_functional_semantics(a: &AuditData) -> (r: Vec<TopicMetadataResponse>)
    ensures
        responses_for(r@, entries(a).filter(listed_as(a, Listing::Semantics))),
{
    list_topics(a, Listing::Semantics)
}

/// A functional semantic by its topic.
pub fn get_functional_semantic(a: &AuditData, topic_id: &str) -> (r: Result<
    TopicMetadataResponse,
    Status,
>)
    ensures
        is_answer_for(a, topic_id@, 'P', Some(Listing::Semantics), r),
{
    match parse_functional_property_topic(topic_id) {
        Ok(t) => answer(a, &t, Some(Listing::Semantics)),
        Err(_) => Err(Status::BadRequest),
    }
}

pub fn get_threat(a: &AuditData, threat_id: &str) -> (r: Result<TopicMetadataResponse, Status>)
    ensures
        is_answer_for(a, threat_id@, 'A', Some(Listing::Threats), r),
{
    adversarial_answer(a, threat_id, Listing::Threats)
}

pub fn get_invariant(a: &AuditData, invariant_id: &str) -> (r: Result<
    TopicMetadataResponse,
    Status,
>)
    ensures
        is_answer_for(a, invariant_id@, 'A', Some(Listing::Invariants), r),
{
    adversarial_answer(a, invariant_id, Listing::Invariants)
}

/// The list of a topic in an index.
fn list_in(index: &TopicIndex, t: &Topic) -> (r: Vec<Topic>)
    ensures
        r@ == list_for(index_lists(index.pairs()), *t),
{
    let _ = index.len();
    proof {
        lemma_index_list(index.pairs(), *t);
    }
    match index.get(t) {
        Some(list) => crate::domain::lists::copy_topics(list),
        None => Vec::new(),
    }
}

/// The requirements of a feature.
pub fn get_feature_requirements(a: &AuditData, topic_id: &str) -> (r: Result<Vec<String>, Status>)
    ensures
        if denotes(topic_id@) && prefix_of(meant(topic_id@)) == 'S' {
            let t = meant(topic_id@);
            match lookup(entries(a), t) {
                Some(TopicMetadata::FeatureTopic { .. }) => r is Ok && texts(r->Ok_0@) == id_texts(
                    list_for(index_lists(a.feature_requirement_links.pairs()), t),
                ),
                _ => r is Err && r->Err_0 == Status::NotFound,
            }
        } else {
            r is Err && r->Err_0 == Status::BadRequest
        },
{
    match parse_spec_topic(topic_id) {
        Ok(t) => match a.topic_metadata.get(&t) {
            Some(TopicMetadata::FeatureTopic { .. }) => {
                Ok(ids_of(&list_in(&a.feature_requirement_links, &t)))
            },
            _ => Err(Status::NotFound),
        },
        Err(_) => Err(Status::BadRequest),
    }
}

/// The invariants of a threat.
pub fn get_threat_invariants(a: &AuditData, threat_id: &str) -> (r: Result<Vec<String>, Status>)
    ensures
        if denotes(threat_id@) && prefix_of(meant(threat_id@)) == 'A' {
            match lookup(a.threats.pairs(), meant(threat_id@)) {
                Some(threat) => r is Ok && texts(r->Ok_0@) == id_texts(threat.invariant_topics@),
                None => r is Err && r->Err_0 == Status::NotFound,
            }
        } else {
            r is Err && r->Err_0 == Status::BadRequest
        },
{
    match parse_adversarial_property_topic(threat_id) {
        Ok(t) => match a.threats.get(&t) {
            Some(threat) => Ok(ids_of(&threat.invariant_topics)),
            None => Err(Status::NotFound),
        },
        Err(_) => Err(Status::BadRequest),
    }
}

/// The requirements of features, each once.
pub open spec fn requirements_of_features(
    links: Seq<(Topic, Seq<Topic>)>,
    features: Seq<Topic>,
) -> Seq<Topic>
    decreases features.len(),
{
    if features.len() == 0 {
        seq![]
    } else {
        with_topics(
            requirements_of_features(links, features.drop_last()),
            list_for(links, features.last()),
        )
    }
}

/// The requirements of features, each once.
pub fn requirements_for_features(feature_topics: &Vec<Topic>, audit_data: &AuditData) -> (r: Vec<
    Topic,
>)
    ensures
        r@ == requirements_of_features(
            index_lists(audit_data.feature_requirement_links.pairs()),
            feature_topics@,
        ),
{
    let ghost links = index_lists(audit_data.feature_requirement_links.pairs());
    let mut out: Vec<Topic> = Vec::new();
    assert(feature_topics@.take(0) =~= Seq::empty());
    for i in 0..feature_topics.len()
        invariant
            links == index_lists(audit_data.feature_requirement_links.pairs()),
            out@ == requirements_of_features(links, feature_topics@.take(i as int)),
    {
        assert(feature_topics@.take(i + 1).drop_last() =~= feature_topics@.take(i as int));
        let more = list_in(&audit_data.feature_requirement_links, &feature_topics[i]);
        push_all_new(&mut out, &more);
    }
    assert(feature_topics@.take(feature_topics@.len() as int) =~= feature_topics@);
    out
}

/// Picks the requirements that a documentation topic informed.
pub open spec fn informed_by(t: Topic) -> spec_fn((Topic, Requirement)) -> Option<Topic> {
    |e: (Topic, Requirement)|
        if e.1.documentation_topics@.contains(t) {
            Some(e.0)
        } else {
            None
        }
}

/// The requirements that go with a topic. A requirement goes with itself, those
/// of a feature with the feature; with any other topic those of its features, of
/// its section, and those that it informed.
pub open spec fn related_requirements(a: &AuditData, t: Topic) -> Seq<Topic> {
    let links = index_lists(a.feature_requirement_links.pairs());
    match lookup(entries(a), t) {
        Some(TopicMetadata::RequirementTopic { .. }) => seq![t],
        Some(TopicMetadata::FeatureTopic { .. }) => with_topics(seq![], list_for(links, t)),
        _ => with_topics(
            with_topics(
                requirements_of_features(links, features_of(a, t)),
                list_for(index_lists(a.section_requirements.pairs()), t),
            ),
            a.requirements.pairs().filter_map(informed_by(t)),
        ),
    }
}

fn list_informed(a: &AuditData, t: &Topic) -> (r: Vec<Topic>)
    ensures
        r@ == a.requirements.pairs().filter_map(informed_by(*t)),
{
    let n: usize = a.requirements.len();
    let ghost s = a.requirements.pairs();
    let ghost f = informed_by(*t);
    let mut out: Vec<Topic> = Vec::new();
    assert(s.take(0) =~= Seq::empty());
    assert(out@ =~= s.take(0).filter_map(f));
    for i in 0..n
        invariant
            n == s.len(),
            s == a.requirements.pairs(),
            f == informed_by(*t),
            out@ == s.take(i as int).filter_map(f),
    {
        proof {
            s.lemma_filter_map_take_succ(f, i as int);
        }
        let ghost before = out@;
        if contains_topic(&a.requirements.value_at(i).documentation_topics, t) {
            out.push(*a.requirements.key_at(i));
            assert(out@ =~= before + seq![s[i as int].0]);
        }
    }
    assert(s.take(n as int) =~= s);
    out
}

fn find_related_requirements(a: &AuditData, t: &Topic) -> (r: Vec<Topic>)
    ensures
        r@ == related_requirements(a, *t),
{
    let mut out: Vec<Topic> = Vec::new();
    match a.topic_metadata.get(t) {
        Some(TopicMetadata::RequirementTopic { .. }) => {
            out.push(*t);
            assert(out@ =~= seq![*t]);
        },
        Some(TopicMetadata::FeatureTopic { .. }) => {
            assert(out@ =~= seq![]);
            push_all_new(&mut out, &list_in(&a.feature_requirement_links, t));
        },
        _ => {
            out = requirements_for_features(&features_for_topic(t, a), a);
            push_all_new(&mut out, &list_in(&a.section_requirements, t));
            push_all_new(&mut out, &list_informed(a, t));
        },
    }
    out
}

/// Picks the requirements among topics, with their metadata.
pub open spec fn as_requirement(a: &AuditData) -> spec_fn(Topic) -> Option<
    (Topic, TopicMetadata),
> {
    |t: Topic|
        match lookup(entries(a), t) {
            Some(m) => if m is RequirementTopic {
                Some((t, m))
            } else {
                None
            },
            None => None,
        }
}

/// The requirements that a request asks for: all, or those that go with a topic.
pub open spec fn wanted_requirements(a: &AuditData, for_topic: Option<Seq<char>>) -> Seq<
    (Topic, TopicMetadata),
> {
    match for_topic {
        Some(id) => related_requirements(a, meant(id)).filter_map(as_requirement(a)),
        None => entries(a).filter(listed_as(a, Listing::Requirements)),
    }
}

/// The requirements of an audit, or those that go with a topic.
pub fn get_requirements(a: &AuditData, query: &GetRequirementsQuery) -> (r: Vec<
    TopicMetadataResponse,
>)
    requires
        query.for_topic is Some ==> denotes(query.for_topic->0@),
    ensures
        responses_for(
            r@,
            wanted_requirements(a, crate::domain::metadata::opt_text(query.for_topic)),
        ),
{
    let id = match &query.for_topic {
        Some(id) => id,
        None => {
            return list_topics(a, Listing::Requirements);
        },
    };
    let topics = find_related_requirements(a, &new_topic(id.as_str()));
    let ghost f = as_requirement(a);
    let mut out: Vec<TopicMetadataResponse> = Vec::new();
    assert(topics@.take(0) =~= Seq::empty());
    for i in 0..topics.len()
        invariant
            f == as_requirement(a),
            responses_for(out@, topics@.take(i as int).filter_map(f)),
    {
        proof {
            topics@.lemma_filter_map_take_succ(f, i as int);
        }
        let ghost was = out@;
        let ghost before = topics@.take(i as int).filter_map(f);
        let t = &topics[i];
        if let Some(m) = a.topic_metadata.get(t) {
            if let TopicMetadata::RequirementTopic { .. } = m {
                if let Some(response) = topic_metadata_to_response(t, m) {
                    out.push(response);
                    let ghost now = before + seq![(*t, *m)];
                    assert forall|k: int| 0 <= k < now.len() implies is_response(
                        #[trigger] out@[k],
                        now[k].0,
                        now[k].1@,
                    ) by {
                        if k < was.len() {
                            assert(out@[k] == was[k]);
                        }
                    }
                }
            }
        }
    }
    assert(topics@.take(topics@.len() as int) =~= topics@);
    out
}

/// Reads the description and the author of a functional semantic.
pub open spec fn semantic_at(a: &AuditData) -> spec_fn(Topic) -> Option<(Seq<char>, Author)> {
    |t: Topic|
        match lookup(entries(a), t) {
            Some(TopicMetadata::FunctionalSemanticTopic { description, author, .. }) => Some(
                (description@, author),
            ),
            _ => None,
        }
}

/// `r` holds the semantics as properties of the topic with this wire form.
pub open spec fn are_semantics(
    r: Seq<SubjectPropertyResponse>,
    topic_id: Seq<char>,
    s: Seq<(Seq<char>, Author)>,
) -> bool {
    &&& r.len() == s.len()
    &&& forall|i: int|
        0 <= i < s.len() ==> {
            let p = #[trigger] r[i];
            &&& p.topic_id@ == topic_id
            &&& p.property_type@ == "functional_semantics"@
            &&& p.value@ == s[i].0
            &&& p.author == s[i].1
        }
}

/// The functional semantics of a declaration.
pub fn get_functional_semantics(a: &AuditData, topic_id: &str) -> (r: Vec<SubjectPropertyResponse>)
    requires
        denotes(topic_id@),
    ensures
        are_semantics(
            r@,
            topic_id@,
            list_for(
                index_lists(a.declaration_semantics.pairs()),
                meant(topic_id@),
            ).filter_map(semantic_at(a)),
        ),
{
    let list = list_in(&a.declaration_semantics, &new_topic(topic_id));
    let ghost f = semantic_at(a);
    let mut out: Vec<SubjectPropertyResponse> = Vec::new();
    assert(list@.take(0) =~= Seq::empty());
    for i in 0..list.len()
        invariant
            f == semantic_at(a),
            are_semantics(out@, topic_id@, list@.take(i as int).filter_map(f)),
    {
        proof {
            list@.lemma_filter_map_take_succ(f, i as int);
        }
        let ghost was = out@;
        let ghost before = list@.take(i as int).filter_map(f);
        if let Some(TopicMetadata::FunctionalSemanticTopic { description, author, .. }) =
            a.topic_metadata.get(&list[i]) {
            out.push(
                SubjectPropertyResponse {
                    topic_id: topic_id.to_owned(),
                    property_type: "functional_semantics".to_owned(),
                    value: description.clone(),
                    author: *author,
                },
            );
            let ghost now = before + seq![(description@, *author)];
            assert forall|k: int| 0 <= k < now.len() implies {
                let p = #[trigger] out@[k];
                &&& p.topic_id@ == topic_id@
                &&& p.property_type@ == "functional_semantics"@
                &&& p.value@ == now[k].0
                &&& p.author == now[k].1
            } by {
                if k < was.len() {
                    assert(out@[k] == was[k]);
                }
            }
        }
    }
    assert(list@.take(list@.len() as int) =~= list@);
    out
}

} // verus!
