//! Links between the declarations of Solidity sources.
use crate::domain::audit::{entries, AuditData};
use crate::domain::context::{ref_views, RefView, SourceContext};
use crate::domain::kinds::NamedTopicKind;
use crate::domain::lists::contains_topic;
use crate::domain::metadata::{CallInfo, FunctionModProperties, RevertInfo, TopicMetadata};
use crate::domain::node::AST;
use crate::domain::path::ProjectPath;
use crate::domain::scope::{Scope, ScopeView};
use crate::domain::topic::{new_node_topic, Topic};
use crate::ordered::lookup;
use crate::resolution_graph::builder::Extractor;
use crate::resolution_graph::edge::EdgeType;
use crate::resolution_graph::graph::ResolutionGraph;
use crate::resolution_graph::links::{add_directed, add_links, add_undirected, both_ways};
use crate::resolution_graph::links::{distinct, gathered, is_named, is_named_topic, kind_of};
use crate::resolution_graph::links::{lemma_both_ways_sound, lemma_distinct_sound};
use crate::resolution_graph::links::{lemma_gathered_sound, lemma_gathered_step};
use crate::resolution_graph::links::{lemma_joined_sound, lemma_one_way_sound, named_kind};
use crate::resolution_graph::links::{one_way, sound_links, with_links, Link};
use crate::solidity::ast::ASTNode;
use vstd::prelude::*;

verus! {

/// Finds the links of Solidity sources.
pub struct SolidityExtractor;

/// The audit holds a Solidity source.
pub open spec fn has_solidity(a: &AuditData) -> bool {
    exists|i: int| 0 <= i < a.asts.pairs().len() && (#[trigger] a.asts.pairs()[i]).1 is Solidity
}

/// The links between a declaration and what contains it: its contract, struct or
/// enum, the function or modifier whose signature it is in, the innermost block
/// around it.
pub open spec fn containment(a: &AuditData) -> spec_fn((Topic, TopicMetadata)) -> Seq<Link> {
    |e: (Topic, TopicMetadata)|
        {
            match e.1 {
                TopicMetadata::NamedTopic { scope, .. } => match scope@ {
                    ScopeView::Member { component, member, signature_container, .. } => {
                        in_component(a, e.0, component) + in_signature(
                            a,
                            e.0,
                            member,
                            signature_container,
                        )
                    },
                    ScopeView::ContainingBlock { blocks, .. } => {
                        if blocks.len() > 0 {
                            both_ways(a, e.0, blocks.last().block, EdgeType::ContainsLocal)
                        } else {
                            seq![]
                        }
                    },
                    _ => seq![],
                },
                _ => seq![],
            }
        }
}

pub open spec fn in_component(a: &AuditData, t: Topic, component: Topic) -> Seq<Link> {
    if t == component {
        seq![]
    } else {
        match kind_of(a, component) {
            Some(NamedTopicKind::Contract(_)) => both_ways(
                a,
                t,
                component,
                EdgeType::ContainsMember,
            ),
            Some(NamedTopicKind::Struct) => both_ways(a, t, component, EdgeType::ContainsField),
            Some(NamedTopicKind::Enum) => both_ways(a, t, component, EdgeType::ContainsField),
            _ => seq![],
        }
    }
}

pub open spec fn in_signature(
    a: &AuditData,
    t: Topic,
    member: Topic,
    signature_container: Option<Topic>,
) -> Seq<Link> {
    if signature_container is Some && t != member {
        both_ways(a, t, member, EdgeType::ContainsLocal)
    } else {
        seq![]
    }
}

fn extract_containment_edges(a: &AuditData, out: &mut Vec<Link>)
    ensures
        final(out)@ == old(out)@ + gathered(entries(a), containment(a)),
{
    let n: usize = a.topic_metadata.len();
    let ghost s = entries(a);
    let ghost f = containment(a);
    let ghost start = out@;
    assert(s.take(0) =~= Seq::empty());
    assert(start + gathered(s.take(0), f) =~= start);
    for i in 0..n
        invariant
            n == s.len(),
            s == entries(a),
            f == containment(a),
            out@ == start + gathered(s.take(i as int), f),
    {
        let t = *a.topic_metadata.key_at(i);
        let m = a.topic_metadata.value_at(i);
        let ghost before = out@;
        proof {
            lemma_gathered_step(s, f, i as int);
            assert(before + Seq::<Link>::empty() =~= before);
        }
        match m {
            TopicMetadata::NamedTopic { scope, .. } => match scope {
                Scope::Member { component, member, signature_container, .. } => {
                    link_component(a, out, t, *component);
                    if signature_container.is_some() && t != *member {
                        add_undirected(a, out, t, *member, EdgeType::ContainsLocal);
                    }
                    assert(out@ =~= before + (in_component(a, t, *component) + in_signature(
                        a,
                        t,
                        *member,
                        *signature_container,
                    )));
                },
                Scope::ContainingBlock { containing_blocks, .. } => {
                    let k: usize = containing_blocks.len();
                    if k > 0 {
                        let innermost = containing_blocks[k - 1].block;
                        add_undirected(a, out, t, innermost, EdgeType::ContainsLocal);
                    }
                },
                _ => {},
            },
            _ => {},
        }
        assert(out@ == before + f(s[i as int]));
        assert(out@ =~= start + gathered(s.take(i + 1), f));
    }
    assert(s.take(n as int) =~= s);
}

fn link_component(a: &AuditData, out: &mut Vec<Link>, t: Topic, component: Topic)
    ensures
        final(out)@ == old(out)@ + in_component(a, t, component),
{
    assert(out@ + Seq::<Link>::empty() =~= out@);
    if t != component {
        match named_kind(a, &component) {
            Some(NamedTopicKind::Contract(_)) => {
                add_undirected(a, out, t, component, EdgeType::ContainsMember)
            },
            Some(NamedTopicKind::Struct) => {
                add_undirected(a, out, t, component, EdgeType::ContainsField)
            },
            Some(NamedTopicKind::Enum) => {
                add_undirected(a, out, t, component, EdgeType::ContainsField)
            },
            _ => {},
        }
    }
}

/// The links between `src` and each topic.
pub open spec fn between(a: &AuditData, src: Topic, edge_type: EdgeType) -> spec_fn(Topic) -> Seq<
    Link,
> {
    |t: Topic| both_ways(a, src, t, edge_type)
}

/// The links from `src` to each topic.
pub open spec fn leading_to(a: &AuditData, src: Topic, edge_type: EdgeType) -> spec_fn(
    Topic,
) -> Seq<Link> {
    |t: Topic| one_way(a, src, t, edge_type)
}

/// The links between a contract and its bases.
pub open spec fn inheritance(a: &AuditData) -> spec_fn((Topic, Vec<Topic>)) -> Seq<Link> {
    |e: (Topic, Vec<Topic>)| gathered(e.1@, between(a, e.0, EdgeType::Implements))
}

/// Adds the links between `src` and each topic of a list.
pub fn link_between(
    a: &AuditData,
    out: &mut Vec<Link>,
    src: Topic,
    list: &Vec<Topic>,
    edge_type: EdgeType,
)
    ensures
        final(out)@ == old(out)@ + gathered(list@, between(a, src, edge_type)),
{
    let ghost start = out@;
    let ghost f = between(a, src, edge_type);
    assert(list@.take(0) =~= Seq::empty());
    assert(start + gathered(list@.take(0), f) =~= start);
    for i in 0..list.len()
        invariant
            f == between(a, src, edge_type),
            out@ == start + gathered(list@.take(i as int), f),
    {
        proof {
            lemma_gathered_step(list@, f, i as int);
        }
        add_undirected(a, out, src, list[i], edge_type);
        assert(out@ =~= start + gathered(list@.take(i + 1), f));
    }
    assert(list@.take(list@.len() as int) =~= list@);
}

/// Adds the links from `src` to each topic of a list.
pub fn link_to_each(
    a: &AuditData,
    out: &mut Vec<Link>,
    src: Topic,
    list: &Vec<Topic>,
    edge_type: EdgeType,
)
    ensures
        final(out)@ == old(out)@ + gathered(list@, leading_to(a, src, edge_type)),
{
    let ghost start = out@;
    let ghost f = leading_to(a, src, edge_type);
    assert(list@.take(0) =~= Seq::empty());
    assert(start + gathered(list@.take(0), f) =~= start);
    for i in 0..list.len()
        invariant
            f == leading_to(a, src, edge_type),
            out@ == start + gathered(list@.take(i as int), f),
    {
        proof {
            lemma_gathered_step(list@, f, i as int);
        }
        add_directed(a, out, src, list[i], edge_type);
        assert(out@ =~= start + gathered(list@.take(i + 1), f));
    }
    assert(list@.take(list@.len() as int) =~= list@);
}

fn extract_inheritance_edges(a: &AuditData, out: &mut Vec<Link>)
    ensures
        final(out)@ == old(out)@ + gathered(a.inheritance.pairs(), inheritance(a)),
{
    let n: usize = a.inheritance.len();
    let ghost s = a.inheritance.pairs();
    let ghost f = inheritance(a);
    let ghost start = out@;
    assert(s.take(0) =~= Seq::empty());
    assert(start + gathered(s.take(0), f) =~= start);
    for i in 0..n
        invariant
            n == s.len(),
            s == a.inheritance.pairs(),
            f == inheritance(a),
            out@ == start + gathered(s.take(i as int), f),
    {
        proof {
            lemma_gathered_step(s, f, i as int);
        }
        link_between(
            a,
            out,
            *a.inheritance.key_at(i),
            a.inheritance.value_at(i),
            EdgeType::Implements,
        );
        assert(out@ =~= start + gathered(s.take(i + 1), f));
    }
    assert(s.take(n as int) =~= s);
}

/// The link from a proxy to the declaration that it stands for.
pub open spec fn proxy(a: &AuditData) -> spec_fn((Topic, TopicMetadata)) -> Seq<Link> {
    |e: (Topic, TopicMetadata)|
        {
            match e.1 {
                TopicMetadata::NamedTopic { transitive_topic: Some(t), .. } => one_way(
                    a,
                    e.0,
                    t,
                    EdgeType::ProxyOf,
                ),
                _ => seq![],
            }
        }
}

fn extract_proxy_of_edges(a: &AuditData, out: &mut Vec<Link>)
    ensures
        final(out)@ == old(out)@ + gathered(entries(a), proxy(a)),
{
    let n: usize = a.topic_metadata.len();
    let ghost s = entries(a);
    let ghost f = proxy(a);
    let ghost start = out@;
    assert(s.take(0) =~= Seq::empty());
    assert(start + gathered(s.take(0), f) =~= start);
    for i in 0..n
        invariant
            n == s.len(),
            s == entries(a),
            f == proxy(a),
            out@ == start + gathered(s.take(i as int), f),
    {
        let src = *a.topic_metadata.key_at(i);
        let ghost before = out@;
        proof {
            lemma_gathered_step(s, f, i as int);
            assert(before + Seq::<Link>::empty() =~= before);
        }
        match a.topic_metadata.value_at(i) {
            TopicMetadata::NamedTopic { transitive_topic: Some(target), .. } => {
                add_directed(a, out, src, *target, EdgeType::ProxyOf);
            },
            _ => {},
        }
        assert(out@ == before + f(s[i as int]));
        assert(out@ =~= start + gathered(s.take(i + 1), f));
    }
    assert(s.take(n as int) =~= s);
}

/// What a function or modifier calls.
pub open spec fn callees(p: &FunctionModProperties) -> Seq<Topic> {
    match p {
        FunctionModProperties::FunctionProperties { calls, .. } => calls@,
        FunctionModProperties::ModifierProperties { calls, .. } => calls@,
    }.map_values(|c: CallInfo| c.callee)
}

/// What a function or modifier mutates.
pub open spec fn mutated(p: &FunctionModProperties) -> Seq<Topic> {
    match p {
        FunctionModProperties::FunctionProperties { mutations, .. } => mutations@,
        FunctionModProperties::ModifierProperties { mutations, .. } => mutations@,
    }
}

/// The events that a function or modifier emits.
pub open spec fn emitted_events(p: &FunctionModProperties) -> Seq<Topic> {
    match p {
        FunctionModProperties::FunctionProperties { events_emitted, .. } => events_emitted@,
        FunctionModProperties::ModifierProperties { events_emitted, .. } => events_emitted@,
    }
}

/// The errors that a function or modifier raises by name.
pub open spec fn raised_errors(p: &FunctionModProperties) -> Seq<Topic> {
    match p {
        FunctionModProperties::FunctionProperties { reverts, .. } => reverts@,
        FunctionModProperties::ModifierProperties { reverts, .. } => reverts@,
    }.filter_map(|r: RevertInfo| r.error_topic)
}

/// The link for a reference, unless a typed link leads to its topic already.
pub open spec fn reference_link(a: &AuditData, src: Topic, covered: Seq<Topic>) -> spec_fn(
    RefView,
) -> Seq<Link> {
    |r: RefView|
        if covered.contains(r.topic) {
            seq![]
        } else {
            one_way(a, src, r.topic, EdgeType::References)
        }
}

pub open spec fn context_links(a: &AuditData, src: Topic, covered: Seq<Topic>) -> spec_fn(
    SourceContext,
) -> Seq<Link> {
    |c: SourceContext| gathered(c@.references, reference_link(a, src, covered))
}

/// The links for the references in the contexts of `src`.
pub open spec fn references(a: &AuditData, src: Topic, covered: Seq<Topic>) -> Seq<Link> {
    match lookup(a.topic_context.pairs(), src) {
        Some(contexts) => gathered(contexts@, context_links(a, src, covered)),
        None => seq![],
    }
}

/// The links of a function or modifier to what it calls, mutates, emits, raises
/// and refers to.
pub open spec fn properties(a: &AuditData) -> spec_fn((Topic, FunctionModProperties)) -> Seq<
    Link,
> {
    |e: (Topic, FunctionModProperties)|
        {
            if is_named(a, e.0) {
                let p = &e.1;
                let covered = callees(p) + mutated(p) + emitted_events(p) + raised_errors(p);
                gathered(callees(p), leading_to(a, e.0, EdgeType::Calls)) + gathered(
                    mutated(p),
                    leading_to(a, e.0, EdgeType::WritesState),
                ) + gathered(emitted_events(p), leading_to(a, e.0, EdgeType::EventEmitted))
                    + gathered(raised_errors(p), leading_to(a, e.0, EdgeType::ErrorThrown))
                    + references(a, e.0, covered)
            } else {
                seq![]
            }
        }
}

/// What a function or modifier calls, in order.
pub fn list_callees(p: &FunctionModProperties) -> (r: Vec<Topic>)
    ensures
        r@ == callees(p),
{
    let calls = match p {
        FunctionModProperties::FunctionProperties { calls, .. } => calls,
        FunctionModProperties::ModifierProperties { calls, .. } => calls,
    };
    let mut out: Vec<Topic> = Vec::new();
    for i in 0..calls.len()
        invariant
            callees(p) == calls@.map_values(|c: CallInfo| c.callee),
            out@ =~= callees(p).take(i as int),
    {
        out.push(calls[i].callee);
    }
    assert(out@ =~= callees(p));
    out
}

/// What a function or modifier mutates, in order.
pub fn list_mutated(p: &FunctionModProperties) -> (r: &Vec<Topic>)
    ensures
        r@ == mutated(p),
{
    match p {
        FunctionModProperties::FunctionProperties { mutations, .. } => mutations,
        FunctionModProperties::ModifierProperties { mutations, .. } => mutations,
    }
}

fn list_events(p: &FunctionModProperties) -> (r: &Vec<Topic>)
    ensures
        r@ == emitted_events(p),
{
    match p {
        FunctionModProperties::FunctionProperties { events_emitted, .. } => events_emitted,
        FunctionModProperties::ModifierProperties { events_emitted, .. } => events_emitted,
    }
}

fn list_errors(p: &FunctionModProperties) -> (r: Vec<Topic>)
    ensures
        r@ == raised_errors(p),
{
    let reverts = match p {
        FunctionModProperties::FunctionProperties { reverts, .. } => reverts,
        FunctionModProperties::ModifierProperties { reverts, .. } => reverts,
    };
    let ghost f = |r: RevertInfo| r.error_topic;
    let mut out: Vec<Topic> = Vec::new();
    assert(reverts@.take(0) =~= Seq::empty());
    assert(out@ =~= reverts@.take(0).filter_map(f));
    for i in 0..reverts.len()
        invariant
            f == (|r: RevertInfo| r.error_topic),
            out@ == reverts@.take(i as int).filter_map(f),
    {
        proof {
            reverts@.lemma_filter_map_take_succ(f, i as int);
        }
        let ghost before = out@;
        match reverts[i].error_topic {
            Some(t) => {
                out.push(t);
                assert(out@ =~= before + seq![t]);
            },
            None => {},
        }
    }
    assert(reverts@.take(reverts@.len() as int) =~= reverts@);
    out
}

/// Adds the links for the references in the contexts of `src` to topics that no
/// typed link leads to.
pub fn link_references(a: &AuditData, out: &mut Vec<Link>, src: Topic, covered: &Vec<Topic>)
    ensures
        final(out)@ == old(out)@ + references(a, src, covered@),
{
    let ghost start = out@;
    assert(start + Seq::<Link>::empty() =~= start);
    match a.topic_context.get(&src) {
        Some(contexts) => {
            let ghost f = context_links(a, src, covered@);
            assert(contexts@.take(0) =~= Seq::empty());
            for i in 0..contexts.len()
                invariant
                    f == context_links(a, src, covered@),
                    out@ == start + gathered(contexts@.take(i as int), f),
            {
                let refs = contexts[i].scope_references();
                let ghost before = out@;
                let ghost views = contexts@[i as int]@.references;
                let ghost g = reference_link(a, src, covered@);
                proof {
                    lemma_gathered_step(contexts@, f, i as int);
                    assert(views.take(0) =~= Seq::empty());
                    assert(before + gathered(views.take(0), g) =~= before);
                    assert(ref_views(refs@) == views);
                }
                let k: usize = refs.len();
                for j in 0..k
                    invariant
                        k == refs@.len(),
                        ref_views(refs@) == views,
                        g == reference_link(a, src, covered@),
                        out@ == before + gathered(views.take(j as int), g),
                {
                    proof {
                        lemma_gathered_step(views, g, j as int);
                        assert(views[j as int] == refs@[j as int]@);
                    }
                    let dst = *refs[j].reference_topic();
                    let ghost mid = out@;
                    assert(mid + Seq::<Link>::empty() =~= mid);
                    if !contains_topic(covered, &dst) {
                        add_directed(a, out, src, dst, EdgeType::References);
                    }
                    assert(out@ == mid + g(views[j as int]));
                    assert(out@ =~= before + gathered(views.take(j + 1), g));
                }
                assert(views.take(k as int) =~= views);
                assert(out@ =~= start + gathered(contexts@.take(i + 1), f));
            }
            assert(contexts@.take(contexts@.len() as int) =~= contexts@);
        },
        None => {},
    }
}

fn extract_function_property_edges(a: &AuditData, out: &mut Vec<Link>)
    ensures
        final(out)@ == old(out)@ + gathered(a.function_properties.pairs(), properties(a)),
{
    let n: usize = a.function_properties.len();
    let ghost s = a.function_properties.pairs();
    let ghost f = properties(a);
    let ghost start = out@;
    assert(s.take(0) =~= Seq::empty());
    assert(start + gathered(s.take(0), f) =~= start);
    for i in 0..n
        invariant
            n == s.len(),
            s == a.function_properties.pairs(),
            f == properties(a),
            out@ == start + gathered(s.take(i as int), f),
    {
        let src = *a.function_properties.key_at(i);
        let ghost before = out@;
        proof {
            lemma_gathered_step(s, f, i as int);
            assert(before + Seq::<Link>::empty() =~= before);
        }
        if is_named_topic(a, &src) {
            let p = a.function_properties.value_at(i);
            let calls = list_callees(p);
            let mutations = list_mutated(p);
            let events = list_events(p);
            let errors = list_errors(p);
            link_to_each(a, out, src, &calls, EdgeType::Calls);
            link_to_each(a, out, src, mutations, EdgeType::WritesState);
            link_to_each(a, out, src, events, EdgeType::EventEmitted);
            link_to_each(a, out, src, &errors, EdgeType::ErrorThrown);
            let covered = joined(&joined(&joined(&calls, mutations), events), &errors);
            link_references(a, out, src, &covered);
            assert(out@ =~= before + f(s[i as int]));
        }
        assert(out@ == before + f(s[i as int]));
        assert(out@ =~= start + gathered(s.take(i + 1), f));
    }
    assert(s.take(n as int) =~= s);
}

/// The topics of both lists.
pub fn joined(x: &Vec<Topic>, y: &Vec<Topic>) -> (r: Vec<Topic>)
    ensures
        r@ == x@ + y@,
{
    let mut r = crate::domain::lists::copy_topics(x);
    for i in 0..y.len()
        invariant
            r@ =~= x@ + y@.take(i as int),
    {
        r.push(y[i]);
    }
    assert(r@ =~= x@ + y@);
    r
}

/// The declaration that a node names.
pub open spec fn referenced(node: &ASTNode) -> Option<Topic> {
    match node {
        ASTNode::Identifier { referenced_declaration, .. } => Some(
            Topic::Node(*referenced_declaration),
        ),
        ASTNode::IdentifierPath { referenced_declaration, .. } => Some(
            Topic::Node(*referenced_declaration),
        ),
        ASTNode::UserDefinedTypeName { referenced_declaration, .. } => Some(
            Topic::Node(*referenced_declaration),
        ),
        ASTNode::MemberAccess { referenced_declaration: Some(id), .. } => Some(Topic::Node(*id)),
        _ => None,
    }
}

pub open spec fn opt_referenced(node: Option<Box<ASTNode>>) -> Option<Topic> {
    match node {
        Some(n) => referenced(&*n),
        None => None,
    }
}

fn referenced_topic_of(node: &ASTNode) -> (r: Option<Topic>)
    ensures
        r == referenced(node),
{
    match node {
        ASTNode::Identifier { referenced_declaration, .. } => Some(
            new_node_topic(referenced_declaration),
        ),
        ASTNode::IdentifierPath { referenced_declaration, .. } => Some(
            new_node_topic(referenced_declaration),
        ),
        ASTNode::UserDefinedTypeName { referenced_declaration, .. } => Some(
            new_node_topic(referenced_declaration),
        ),
        ASTNode::MemberAccess { referenced_declaration: Some(id), .. } => Some(
            new_node_topic(id),
        ),
        _ => None,
    }
}

fn opt_referenced_topic(node: &Option<Box<ASTNode>>) -> (r: Option<Topic>)
    ensures
        r == opt_referenced(*node),
{
    match node {
        Some(n) => referenced_topic_of(n),
        None => None,
    }
}

/// The links between types and the libraries attached to them, in the directives
/// of a file or a contract.
pub open spec fn using_for(a: &AuditData, node: ASTNode) -> Seq<Link>
    decreases node,
{
    match node {
        ASTNode::UsingForDirective { library_name, type_node, .. } => match (
            opt_referenced(library_name),
            opt_referenced(type_node),
        ) {
            (Some(lib), Some(ty)) => both_ways(a, ty, lib, EdgeType::UsingFor),
            _ => seq![],
        },
        ASTNode::SourceUnit { nodes, .. } => using_for_in(a, nodes@),
        ASTNode::ContractDefinition { signature, nodes, .. } => using_for(a, *signature)
            + using_for_in(a, nodes@),
        ASTNode::ContractSignature { directives, .. } => using_for_in(a, directives@),
        ASTNode::ContractMemberGroup { members, .. } => using_for_in(a, members@),
        _ => seq![],
    }
}

pub open spec fn using_for_in(a: &AuditData, nodes: Seq<ASTNode>) -> Seq<Link>
    decreases nodes,
{
    if nodes.len() == 0 {
        seq![]
    } else {
        using_for_in(a, nodes.drop_last()) + using_for(a, nodes.last())
    }
}

fn walk_for_using_for(node: &ASTNode, a: &AuditData, out: &mut Vec<Link>)
    ensures
        final(out)@ == old(out)@ + using_for(a, *node),
    decreases node,
{
    let ghost start = out@;
    assert(start + Seq::<Link>::empty() =~= start);
    match node {
        ASTNode::UsingForDirective { library_name, type_node, .. } => {
            let lib_topic = opt_referenced_topic(library_name);
            let type_topic = opt_referenced_topic(type_node);
            if let (Some(lib), Some(ty)) = (lib_topic, type_topic) {
                add_undirected(a, out, ty, lib, EdgeType::UsingFor);
            }
        },
        ASTNode::SourceUnit { nodes, .. } => walk_all_for_using_for(nodes, a, out),
        ASTNode::ContractDefinition { signature, nodes, .. } => {
            walk_for_using_for(signature, a, out);
            walk_all_for_using_for(nodes, a, out);
            assert(out@ =~= start + (using_for(a, **signature) + using_for_in(a, nodes@)));
        },
        ASTNode::ContractSignature { directives, .. } => {
            walk_all_for_using_for(directives, a, out)
        },
        ASTNode::ContractMemberGroup { members, .. } => walk_all_for_using_for(members, a, out),
        _ => {},
    }
}

fn walk_all_for_using_for(nodes: &Vec<ASTNode>, a: &AuditData, out: &mut Vec<Link>)
    ensures
        final(out)@ == old(out)@ + using_for_in(a, nodes@),
    decreases nodes,
{
    let ghost start = out@;
    assert(start + using_for_in(a, nodes@.take(0)) =~= start);
    let mut i: usize = 0;
    while i < nodes.len()
        invariant
            i <= nodes@.len(),
            out@ == start + using_for_in(a, nodes@.take(i as int)),
        decreases nodes@.len() - i,
    {
        assert(decreases_to!(nodes => nodes@[i as int]));
        walk_for_using_for(&nodes[i], a, out);
        assert(nodes@.take(i + 1).drop_last() =~= nodes@.take(i as int));
        assert(out@ =~= start + using_for_in(a, nodes@.take(i + 1)));
        i += 1;
    }
    assert(nodes@.take(nodes@.len() as int) =~= nodes@);
}

/// The directives of a source.
pub open spec fn directives_of(a: &AuditData) -> spec_fn((ProjectPath, AST)) -> Seq<Link> {
    |e: (ProjectPath, AST)|
        match e.1 {
            AST::Solidity(sol) => using_for_in(a, sol.nodes@),
            _ => seq![],
        }
}

fn extract_using_for_edges(a: &AuditData, out: &mut Vec<Link>)
    ensures
        final(out)@ == old(out)@ + gathered(a.asts.pairs(), directives_of(a)),
{
    let n: usize = a.asts.len();
    let ghost s = a.asts.pairs();
    let ghost f = directives_of(a);
    let ghost start = out@;
    assert(s.take(0) =~= Seq::empty());
    assert(start + gathered(s.take(0), f) =~= start);
    for i in 0..n
        invariant
            n == s.len(),
            s == a.asts.pairs(),
            f == directives_of(a),
            out@ == start + gathered(s.take(i as int), f),
    {
        let ghost before = out@;
        proof {
            lemma_gathered_step(s, f, i as int);
            assert(before + Seq::<Link>::empty() =~= before);
        }
        match a.asts.value_at(i) {
            AST::Solidity(sol) => walk_all_for_using_for(&sol.nodes, a, out),
            _ => {},
        }
        assert(out@ == before + f(s[i as int]));
        assert(out@ =~= start + gathered(s.take(i + 1), f));
    }
    assert(s.take(n as int) =~= s);
}

/// The links between a function and the modifiers that a list of invocations
/// applies to it.
pub open spec fn applied(a: &AuditData, function: Topic) -> spec_fn(ASTNode) -> Seq<Link> {
    |inv: ASTNode|
        match inv {
            ASTNode::ModifierInvocation { modifier_name, .. } => match referenced(
                &*modifier_name,
            ) {
                Some(m) => both_ways(a, function, m, EdgeType::ModifierApplied),
                None => seq![],
            },
            _ => seq![],
        }
}

/// The invocations in the signature of a function.
pub open spec fn invocations(signature: ASTNode) -> Seq<ASTNode> {
    match signature {
        ASTNode::FunctionSignature { modifiers, .. } => match *modifiers {
            ASTNode::ModifierList { modifiers, .. } => modifiers@,
            _ => seq![],
        },
        _ => seq![],
    }
}

/// The links between functions and the modifiers applied to them, in a file or a
/// contract.
pub open spec fn modifiers(a: &AuditData, node: ASTNode) -> Seq<Link>
    decreases node,
{
    match node {
        ASTNode::FunctionDefinition { node_id, signature, .. } => gathered(
            invocations(*signature),
            applied(a, Topic::Node(node_id)),
        ),
        ASTNode::SourceUnit { nodes, .. } => modifiers_in(a, nodes@),
        ASTNode::ContractDefinition { nodes, .. } => modifiers_in(a, nodes@),
        ASTNode::ContractMemberGroup { members, .. } => modifiers_in(a, members@),
        _ => seq![],
    }
}

pub open spec fn modifiers_in(a: &AuditData, nodes: Seq<ASTNode>) -> Seq<Link>
    decreases nodes,
{
    if nodes.len() == 0 {
        seq![]
    } else {
        modifiers_in(a, nodes.drop_last()) + modifiers(a, nodes.last())
    }
}

fn link_invocations(invocations: &Vec<ASTNode>, function: Topic, a: &AuditData, out: &mut Vec<Link>)
    ensures
        final(out)@ == old(out)@ + gathered(invocations@, applied(a, function)),
{
    let ghost start = out@;
    let ghost f = applied(a, function);
    assert(invocations@.take(0) =~= Seq::empty());
    assert(start + gathered(invocations@.take(0), f) =~= start);
    for i in 0..invocations.len()
        invariant
            f == applied(a, function),
            out@ == start + gathered(invocations@.take(i as int), f),
    {
        let ghost before = out@;
        proof {
            lemma_gathered_step(invocations@, f, i as int);
            assert(before + Seq::<Link>::empty() =~= before);
        }
        if let ASTNode::ModifierInvocation { modifier_name, .. } = &invocations[i] {
            if let Some(m) = referenced_topic_of(modifier_name) {
                add_undirected(a, out, function, m, EdgeType::ModifierApplied);
            }
        }
        assert(out@ == before + f(invocations@[i as int]));
        assert(out@ =~= start + gathered(invocations@.take(i + 1), f));
    }
    assert(invocations@.take(invocations@.len() as int) =~= invocations@);
}

fn walk_for_modifiers(node: &ASTNode, a: &AuditData, out: &mut Vec<Link>)
    ensures
        final(out)@ == old(out)@ + modifiers(a, *node),
    decreases node,
{
    assert(out@ + Seq::<Link>::empty() =~= out@);
    match node {
        ASTNode::FunctionDefinition { node_id, signature, .. } => {
            let function = new_node_topic(node_id);
            if let ASTNode::FunctionSignature { modifiers, .. } = &**signature {
                if let ASTNode::ModifierList { modifiers: invocations, .. } = &**modifiers {
                    link_invocations(invocations, function, a, out);
                }
            }
        },
        ASTNode::SourceUnit { nodes, .. } => walk_all_for_modifiers(nodes, a, out),
        ASTNode::ContractDefinition { nodes, .. } => walk_all_for_modifiers(nodes, a, out),
        ASTNode::ContractMemberGroup { members, .. } => walk_all_for_modifiers(members, a, out),
        _ => {},
    }
}

fn walk_all_for_modifiers(nodes: &Vec<ASTNode>, a: &AuditData, out: &mut Vec<Link>)
    ensures
        final(out)@ == old(out)@ + modifiers_in(a, nodes@),
    decreases nodes,
{
    let ghost start = out@;
    assert(start + modifiers_in(a, nodes@.take(0)) =~= start);
    let mut i: usize = 0;
    while i < nodes.len()
        invariant
            i <= nodes@.len(),
            out@ == start + modifiers_in(a, nodes@.take(i as int)),
        decreases nodes@.len() - i,
    {
        assert(decreases_to!(nodes => nodes@[i as int]));
        walk_for_modifiers(&nodes[i], a, out);
        assert(nodes@.take(i + 1).drop_last() =~= nodes@.take(i as int));
        assert(out@ =~= start + modifiers_in(a, nodes@.take(i + 1)));
        i += 1;
    }
    assert(nodes@.take(nodes@.len() as int) =~= nodes@);
}

/// The applied modifiers of a source.
pub open spec fn modifiers_of(a: &AuditData) -> spec_fn((ProjectPath, AST)) -> Seq<Link> {
    |e: (ProjectPath, AST)|
        match e.1 {
            AST::Solidity(sol) => modifiers_in(a, sol.nodes@),
            _ => seq![],
        }
}

fn extract_modifier_applied_edges(a: &AuditData, out: &mut Vec<Link>)
    ensures
        final(out)@ == old(out)@ + gathered(a.asts.pairs(), modifiers_of(a)),
{
    let n: usize = a.asts.len();
    let ghost s = a.asts.pairs();
    let ghost f = modifiers_of(a);
    let ghost start = out@;
    assert(s.take(0) =~= Seq::empty());
    assert(start + gathered(s.take(0), f) =~= start);
    for i in 0..n
        invariant
            n == s.len(),
            s == a.asts.pairs(),
            f == modifiers_of(a),
            out@ == start + gathered(s.take(i as int), f),
    {
        let ghost before = out@;
        proof {
            lemma_gathered_step(s, f, i as int);
            assert(before + Seq::<Link>::empty() =~= before);
        }
        match a.asts.value_at(i) {
            AST::Solidity(sol) => walk_all_for_modifiers(&sol.nodes, a, out),
            _ => {},
        }
        assert(out@ == before + f(s[i as int]));
        assert(out@ =~= start + gathered(s.take(i + 1), f));
    }
    assert(s.take(n as int) =~= s);
}

/// All links of the Solidity sources, in the order in which they are found.
pub open spec fn solidity_links(a: &AuditData) -> Seq<Link> {
    gathered(entries(a), containment(a)) + gathered(a.inheritance.pairs(), inheritance(a))
        + gathered(entries(a), proxy(a)) + gathered(a.function_properties.pairs(), properties(a))
        + gathered(a.asts.pairs(), directives_of(a)) + gathered(a.asts.pairs(), modifiers_of(a))
}

impl Extractor for SolidityExtractor {
    fn applies_to(&self, audit_data: &AuditData) -> (r: bool)
        ensures
            r == has_solidity(audit_data),
    {
        let n: usize = audit_data.asts.len();
        for i in 0..n
            invariant
                n == audit_data.asts.pairs().len(),
                forall|j: int| 0 <= j < i ==> !((#[trigger] audit_data.asts.pairs()[j]).1 is Solidity),
        {
            if let AST::Solidity(_) = audit_data.asts.value_at(i) {
                assert(audit_data.asts.pairs()[i as int].1 is Solidity);
                return true;
            }
        }
        false
    }

    fn extract(&self, audit_data: &AuditData, graph: &mut ResolutionGraph)
        ensures
            final(graph)@ == with_links(old(graph)@, distinct(solidity_links(audit_data))),
    {
        let mut links: Vec<Link> = Vec::new();
        extract_containment_edges(audit_data, &mut links);
        extract_inheritance_edges(audit_data, &mut links);
        extract_proxy_of_edges(audit_data, &mut links);
        extract_function_property_edges(audit_data, &mut links);
        extract_using_for_edges(audit_data, &mut links);
        extract_modifier_applied_edges(audit_data, &mut links);
        assert(links@ =~= solidity_links(audit_data));
        add_links(graph, &links);
    }
}

pub proof fn lemma_between_sound(a: &AuditData, src: Topic, list: Seq<Topic>, edge_type: EdgeType)
    ensures
        sound_links(a, gathered(list, between(a, src, edge_type))),
{
    let f = between(a, src, edge_type);
    assert forall|i: int| 0 <= i < list.len() implies sound_links(a, f(#[trigger] list[i])) by {
        lemma_both_ways_sound(a, src, list[i], edge_type);
    }
    lemma_gathered_sound(a, list, f);
}

pub proof fn lemma_leading_sound(a: &AuditData, src: Topic, list: Seq<Topic>, edge_type: EdgeType)
    requires
        !edge_type.both_ways(),
    ensures
        sound_links(a, gathered(list, leading_to(a, src, edge_type))),
{
    let f = leading_to(a, src, edge_type);
    assert forall|i: int| 0 <= i < list.len() implies sound_links(a, f(#[trigger] list[i])) by {
        lemma_one_way_sound(a, src, list[i], edge_type);
    }
    lemma_gathered_sound(a, list, f);
}

pub proof fn lemma_references_sound(a: &AuditData, src: Topic, covered: Seq<Topic>)
    ensures
        sound_links(a, references(a, src, covered)),
{
    if let Some(contexts) = lookup(a.topic_context.pairs(), src) {
        let f = context_links(a, src, covered);
        let g = reference_link(a, src, covered);
        assert forall|i: int| 0 <= i < contexts@.len() implies sound_links(
            a,
            f(#[trigger] contexts@[i]),
        ) by {
            let refs = contexts@[i]@.references;
            assert forall|j: int| 0 <= j < refs.len() implies sound_links(
                a,
                g(#[trigger] refs[j]),
            ) by {
                lemma_one_way_sound(a, src, refs[j].topic, EdgeType::References);
            }
            lemma_gathered_sound(a, refs, g);
        }
        lemma_gathered_sound(a, contexts@, f);
    }
}

proof fn lemma_using_for_sound(a: &AuditData, node: ASTNode)
    ensures
        sound_links(a, using_for(a, node)),
    decreases node,
{
    match node {
        ASTNode::UsingForDirective { library_name, type_node, .. } => {
            if let (Some(lib), Some(ty)) = (opt_referenced(library_name), opt_referenced(type_node)) {
                lemma_both_ways_sound(a, ty, lib, EdgeType::UsingFor);
            }
        },
        ASTNode::SourceUnit { nodes, .. } => lemma_using_for_in_sound(a, nodes@),
        ASTNode::ContractDefinition { signature, nodes, .. } => {
            lemma_using_for_sound(a, *signature);
            lemma_using_for_in_sound(a, nodes@);
            lemma_joined_sound(a, using_for(a, *signature), using_for_in(a, nodes@));
        },
        ASTNode::ContractSignature { directives, .. } => lemma_using_for_in_sound(a, directives@),
        ASTNode::ContractMemberGroup { members, .. } => lemma_using_for_in_sound(a, members@),
        _ => {},
    }
}

proof fn lemma_using_for_in_sound(a: &AuditData, nodes: Seq<ASTNode>)
    ensures
        sound_links(a, using_for_in(a, nodes)),
    decreases nodes,
{
    if nodes.len() > 0 {
        lemma_using_for_in_sound(a, nodes.drop_last());
        lemma_using_for_sound(a, nodes.last());
        lemma_joined_sound(a, using_for_in(a, nodes.drop_last()), using_for(a, nodes.last()));
    }
}

proof fn lemma_modifiers_sound(a: &AuditData, node: ASTNode)
    ensures
        sound_links(a, modifiers(a, node)),
    decreases node,
{
    match node {
        ASTNode::FunctionDefinition { node_id, signature, .. } => {
            let s = invocations(*signature);
            let f = applied(a, Topic::Node(node_id));
            assert forall|i: int| 0 <= i < s.len() implies sound_links(a, f(#[trigger] s[i])) by {
                if let ASTNode::ModifierInvocation { modifier_name, .. } = s[i] {
                    if let Some(m) = referenced(&*modifier_name) {
                        lemma_both_ways_sound(
                            a,
                            Topic::Node(node_id),
                            m,
                            EdgeType::ModifierApplied,
                        );
                    }
                }
            }
            lemma_gathered_sound(a, s, f);
        },
        ASTNode::SourceUnit { nodes, .. } => lemma_modifiers_in_sound(a, nodes@),
        ASTNode::ContractDefinition { nodes, .. } => lemma_modifiers_in_sound(a, nodes@),
        ASTNode::ContractMemberGroup { members, .. } => lemma_modifiers_in_sound(a, members@),
        _ => {},
    }
}

proof fn lemma_modifiers_in_sound(a: &AuditData, nodes: Seq<ASTNode>)
    ensures
        sound_links(a, modifiers_in(a, nodes)),
    decreases nodes,
{
    if nodes.len() > 0 {
        lemma_modifiers_in_sound(a, nodes.drop_last());
        lemma_modifiers_sound(a, nodes.last());
        lemma_joined_sound(a, modifiers_in(a, nodes.drop_last()), modifiers(a, nodes.last()));
    }
}

proof fn lemma_containment_sound(a: &AuditData, e: (Topic, TopicMetadata))
    ensures
        sound_links(a, containment(a)(e)),
{
    if let TopicMetadata::NamedTopic { scope, .. } = e.1 {
        match scope@ {
            ScopeView::Member { component, member, signature_container, .. } => {
                lemma_both_ways_sound(a, e.0, component, EdgeType::ContainsMember);
                lemma_both_ways_sound(a, e.0, component, EdgeType::ContainsField);
                lemma_both_ways_sound(a, e.0, member, EdgeType::ContainsLocal);
                lemma_joined_sound(
                    a,
                    in_component(a, e.0, component),
                    in_signature(a, e.0, member, signature_container),
                );
            },
            ScopeView::ContainingBlock { blocks, .. } => {
                lemma_both_ways_sound(a, e.0, blocks.last().block, EdgeType::ContainsLocal);
            },
            _ => {},
        }
    }
}

proof fn lemma_properties_sound(a: &AuditData, e: (Topic, FunctionModProperties))
    ensures
        sound_links(a, properties(a)(e)),
{
    if is_named(a, e.0) {
        let p = &e.1;
        let covered = callees(p) + mutated(p) + emitted_events(p) + raised_errors(p);
        lemma_leading_sound(a, e.0, callees(p), EdgeType::Calls);
        lemma_leading_sound(a, e.0, mutated(p), EdgeType::WritesState);
        lemma_leading_sound(a, e.0, emitted_events(p), EdgeType::EventEmitted);
        lemma_leading_sound(a, e.0, raised_errors(p), EdgeType::ErrorThrown);
        lemma_references_sound(a, e.0, covered);
        let x1 = gathered(callees(p), leading_to(a, e.0, EdgeType::Calls));
        let x2 = gathered(mutated(p), leading_to(a, e.0, EdgeType::WritesState));
        let x3 = gathered(emitted_events(p), leading_to(a, e.0, EdgeType::EventEmitted));
        let x4 = gathered(raised_errors(p), leading_to(a, e.0, EdgeType::ErrorThrown));
        lemma_joined_sound(a, x1, x2);
        lemma_joined_sound(a, x1 + x2, x3);
        lemma_joined_sound(a, x1 + x2 + x3, x4);
        lemma_joined_sound(a, x1 + x2 + x3 + x4, references(a, e.0, covered));
    }
}

/// No Solidity link leads from a topic to itself or to a topic without a name,
/// and relationships that run both ways are there both ways.
pub proof fn solidity_links_are_sound(a: &AuditData)
    ensures
        sound_links(a, solidity_links(a)),
        sound_links(a, distinct(solidity_links(a))),
{
    let s = entries(a);
    assert forall|i: int| 0 <= i < s.len() implies sound_links(
        a,
        containment(a)(#[trigger] s[i]),
    ) by {
        lemma_containment_sound(a, s[i]);
    }
    lemma_gathered_sound(a, s, containment(a));
    assert forall|i: int| 0 <= i < s.len() implies sound_links(a, proxy(a)(#[trigger] s[i])) by {
        if let TopicMetadata::NamedTopic { transitive_topic: Some(t), .. } = s[i].1 {
            lemma_one_way_sound(a, s[i].0, t, EdgeType::ProxyOf);
        }
    }
    lemma_gathered_sound(a, s, proxy(a));
    let bases = a.inheritance.pairs();
    assert forall|i: int| 0 <= i < bases.len() implies sound_links(
        a,
        inheritance(a)(#[trigger] bases[i]),
    ) by {
        lemma_between_sound(a, bases[i].0, bases[i].1@, EdgeType::Implements);
    }
    lemma_gathered_sound(a, bases, inheritance(a));
    let props = a.function_properties.pairs();
    assert forall|i: int| 0 <= i < props.len() implies sound_links(
        a,
        properties(a)(#[trigger] props[i]),
    ) by {
        lemma_properties_sound(a, props[i]);
    }
    lemma_gathered_sound(a, props, properties(a));
    let asts = a.asts.pairs();
    assert forall|i: int| 0 <= i < asts.len() implies sound_links(
        a,
        directives_of(a)(#[trigger] asts[i]),
    ) by {
        if let AST::Solidity(sol) = asts[i].1 {
            lemma_using_for_in_sound(a, sol.nodes@);
        }
    }
    lemma_gathered_sound(a, asts, directives_of(a));
    assert forall|i: int| 0 <= i < asts.len() implies sound_links(
        a,
        modifiers_of(a)(#[trigger] asts[i]),
    ) by {
        if let AST::Solidity(sol) = asts[i].1 {
            lemma_modifiers_in_sound(a, sol.nodes@);
        }
    }
    lemma_gathered_sound(a, asts, modifiers_of(a));
    let x1 = gathered(s, containment(a));
    let x2 = gathered(bases, inheritance(a));
    let x3 = gathered(s, proxy(a));
    let x4 = gathered(props, properties(a));
    let x5 = gathered(asts, directives_of(a));
    let x6 = gathered(asts, modifiers_of(a));
    lemma_joined_sound(a, x1, x2);
    lemma_joined_sound(a, x1 + x2, x3);
    lemma_joined_sound(a, x1 + x2 + x3, x4);
    lemma_joined_sound(a, x1 + x2 + x3 + x4, x5);
    lemma_joined_sound(a, x1 + x2 + x3 + x4 + x5, x6);
    lemma_distinct_sound(a, solidity_links(a));
}

} // verus!
