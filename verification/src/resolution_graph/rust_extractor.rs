//! Links between the declarations of Rust sources. A topic belongs to Rust if the
//! file that holds it does. Rust syntax trees hold no links of their own yet.
use crate::domain::audit::{entries, AuditData};
use crate::domain::metadata::{FunctionModProperties, TopicMetadata};
use crate::domain::node::AST;
use crate::domain::path::ProjectPath;
use crate::domain::scope::{Scope, ScopeView};
use crate::domain::topic::Topic;
use crate::ordered::lookup;
use crate::resolution_graph::builder::Extractor;
use crate::resolution_graph::edge::EdgeType;
use crate::resolution_graph::graph::ResolutionGraph;
use crate::resolution_graph::links::{add_directed, add_links, distinct, gathered};
use crate::resolution_graph::links::{lemma_distinct_sound, lemma_gathered_sound};
use crate::resolution_graph::links::{lemma_gathered_step, lemma_joined_sound};
use crate::resolution_graph::links::{lemma_one_way_sound, one_way, sound_links, with_links, Link};
use crate::resolution_graph::solidity_extractor::{between, callees, joined, leading_to};
use crate::resolution_graph::solidity_extractor::{lemma_between_sound, lemma_leading_sound};
use crate::resolution_graph::solidity_extractor::{lemma_references_sound, link_between};
use crate::resolution_graph::solidity_extractor::{link_references, link_to_each, list_callees};
use crate::resolution_graph::solidity_extractor::{list_mutated, mutated, references};
use vstd::prelude::*;

verus! {

/// Finds the links of Rust sources.
pub struct RustExtractor;

/// The audit holds a Rust source.
pub open spec fn has_rust(a: &AuditData) -> bool {
    exists|i: int| 0 <= i < a.asts.pairs().len() && (#[trigger] a.asts.pairs()[i]).1 is Rust
}

/// The file at a path is a Rust source.
pub open spec fn is_rust_file(a: &AuditData, path: Seq<char>) -> bool {
    match lookup(a.asts.pairs(), path) {
        Some(ast) => ast is Rust,
        None => false,
    }
}

/// The declaration `t` stands in a Rust source.
pub open spec fn is_rust(a: &AuditData, t: Topic) -> bool {
    match lookup(entries(a), t) {
        Some(TopicMetadata::NamedTopic { scope, .. }) => match scope@ {
            ScopeView::Container { container } => is_rust_file(a, container),
            ScopeView::Component { container, .. } => is_rust_file(a, container),
            ScopeView::Member { container, .. } => is_rust_file(a, container),
            ScopeView::ContainingBlock { container, .. } => is_rust_file(a, container),
            ScopeView::Global => false,
        },
        _ => false,
    }
}

fn in_rust_file(a: &AuditData, path: &ProjectPath) -> (r: bool)
    ensures
        r == is_rust_file(a, path@),
{
    match a.asts.get(path) {
        Some(AST::Rust(_)) => true,
        _ => false,
    }
}

fn is_rust_topic(a: &AuditData, t: &Topic) -> (r: bool)
    ensures
        r == is_rust(a, *t),
{
    match a.topic_metadata.get(t) {
        Some(TopicMetadata::NamedTopic { scope, .. }) => match scope {
            Scope::Container { container } => in_rust_file(a, container),
            Scope::Component { container, .. } => in_rust_file(a, container),
            Scope::Member { container, .. } => in_rust_file(a, container),
            Scope::ContainingBlock { container, .. } => in_rust_file(a, container),
            Scope::Global => false,
        },
        _ => false,
    }
}

/// The links between a type and the traits that it implements.
pub open spec fn implementations(a: &AuditData) -> spec_fn((Topic, Vec<Topic>)) -> Seq<Link> {
    |e: (Topic, Vec<Topic>)|
        if is_rust(a, e.0) {
            gathered(e.1@, between(a, e.0, EdgeType::Implements))
        } else {
            seq![]
        }
}

fn extract_inheritance_edges(a: &AuditData, out: &mut Vec<Link>)
    ensures
        final(out)@ == old(out)@ + gathered(a.inheritance.pairs(), implementations(a)),
{
    let n: usize = a.inheritance.len();
    let ghost s = a.inheritance.pairs();
    let ghost f = implementations(a);
    let ghost start = out@;
    assert(s.take(0) =~= Seq::empty());
    assert(start + gathered(s.take(0), f) =~= start);
    for i in 0..n
        invariant
            n == s.len(),
            s == a.inheritance.pairs(),
            f == implementations(a),
            out@ == start + gathered(s.take(i as int), f),
    {
        let ghost before = out@;
        proof {
            lemma_gathered_step(s, f, i as int);
            assert(before + Seq::<Link>::empty() =~= before);
        }
        let child = *a.inheritance.key_at(i);
        if is_rust_topic(a, &child) {
            link_between(a, out, child, a.inheritance.value_at(i), EdgeType::Implements);
        }
        assert(out@ == before + f(s[i as int]));
        assert(out@ =~= start + gathered(s.take(i + 1), f));
    }
    assert(s.take(n as int) =~= s);
}

/// The link from a proxy to the declaration that it stands for.
pub open spec fn rust_proxy(a: &AuditData) -> spec_fn((Topic, TopicMetadata)) -> Seq<Link> {
    |e: (Topic, TopicMetadata)|
        {
            match e.1 {
                TopicMetadata::NamedTopic { transitive_topic: Some(t), .. } => {
                    if is_rust(a, e.0) {
                        one_way(a, e.0, t, EdgeType::ProxyOf)
                    } else {
                        seq![]
                    }
                },
                _ => seq![],
            }
        }
}

fn extract_proxy_of_edges(a: &AuditData, out: &mut Vec<Link>)
    ensures
        final(out)@ == old(out)@ + gathered(entries(a), rust_proxy(a)),
{
    let n: usize = a.topic_metadata.len();
    let ghost s = entries(a);
    let ghost f = rust_proxy(a);
    let ghost start = out@;
    assert(s.take(0) =~= Seq::empty());
    assert(start + gathered(s.take(0), f) =~= start);
    for i in 0..n
        invariant
            n == s.len(),
            s == entries(a),
            f == rust_proxy(a),
            out@ == start + gathered(s.take(i as int), f),
    {
        let src = *a.topic_metadata.key_at(i);
        let ghost before = out@;
        proof {
            lemma_gathered_step(s, f, i as int);
            assert(before + Seq::<Link>::empty() =~= before);
        }
        match a.topic_metadata.value_at(i) {
            TopicMetadata::NamedTopic { transitive_topic: Some(target), .. } => {
                if is_rust_topic(a, &src) {
                    add_directed(a, out, src, *target, EdgeType::ProxyOf);
                }
            },
            _ => {},
        }
        assert(out@ == before + f(s[i as int]));
        assert(out@ =~= start + gathered(s.take(i + 1), f));
    }
    assert(s.take(n as int) =~= s);
}

/// The links of a function to what it calls, mutates and refers to.
pub open spec fn rust_properties(a: &AuditData) -> spec_fn((Topic, FunctionModProperties)) -> Seq<
    Link,
> {
    |e: (Topic, FunctionModProperties)|
        {
            if is_rust(a, e.0) {
                gathered(callees(&e.1), leading_to(a, e.0, EdgeType::Calls)) + gathered(
                    mutated(&e.1),
                    leading_to(a, e.0, EdgeType::MutatesField),
                ) + references(a, e.0, callees(&e.1) + mutated(&e.1))
            } else {
                seq![]
            }
        }
}

fn extract_function_property_edges(a: &AuditData, out: &mut Vec<Link>)
    ensures
        final(out)@ == old(out)@ + gathered(a.function_properties.pairs(), rust_properties(a)),
{
    let n: usize = a.function_properties.len();
    let ghost s = a.function_properties.pairs();
    let ghost f = rust_properties(a);
    let ghost start = out@;
    assert(s.take(0) =~= Seq::empty());
    assert(start + gathered(s.take(0), f) =~= start);
    for i in 0..n
        invariant
            n == s.len(),
            s == a.function_properties.pairs(),
            f == rust_properties(a),
            out@ == start + gathered(s.take(i as int), f),
    {
        let src = *a.function_properties.key_at(i);
        let ghost before = out@;
        proof {
            lemma_gathered_step(s, f, i as int);
            assert(before + Seq::<Link>::empty() =~= before);
        }
        if is_rust_topic(a, &src) {
            let p = a.function_properties.value_at(i);
            let calls = list_callees(p);
            let mutations = list_mutated(p);
            link_to_each(a, out, src, &calls, EdgeType::Calls);
            link_to_each(a, out, src, mutations, EdgeType::MutatesField);
            let covered = joined(&calls, mutations);
            link_references(a, out, src, &covered);
            assert(out@ =~= before + f(s[i as int]));
        }
        assert(out@ == before + f(s[i as int]));
        assert(out@ =~= start + gathered(s.take(i + 1), f));
    }
    assert(s.take(n as int) =~= s);
}

/// All links of the Rust sources, in the order in which they are found.
pub open spec fn rust_links(a: &AuditData) -> Seq<Link> {
    gathered(a.inheritance.pairs(), implementations(a)) + gathered(entries(a), rust_proxy(a))
        + gathered(a.function_properties.pairs(), rust_properties(a))
}

impl Extractor for RustExtractor {
    fn applies_to(&self, audit_data: &AuditData) -> (r: bool)
        ensures
            r == has_rust(audit_data),
    {
        let n: usize = audit_data.asts.len();
        for i in 0..n
            invariant
                n == audit_data.asts.pairs().len(),
                forall|j: int| 0 <= j < i ==> !((#[trigger] audit_data.asts.pairs()[j]).1 is Rust),
        {
            if let AST::Rust(_) = audit_data.asts.value_at(i) {
                assert(audit_data.asts.pairs()[i as int].1 is Rust);
                return true;
            }
        }
        false
    }

    fn extract(&self, audit_data: &AuditData, graph: &mut ResolutionGraph)
        ensures
            final(graph)@ == with_links(old(graph)@, distinct(rust_links(audit_data))),
    {
        let mut links: Vec<Link> = Vec::new();
        extract_inheritance_edges(audit_data, &mut links);
        extract_proxy_of_edges(audit_data, &mut links);
        extract_function_property_edges(audit_data, &mut links);
        assert(links@ =~= rust_links(audit_data));
        add_links(graph, &links);
    }
}

/// No Rust link leads from a topic to itself or to a topic without a name, and
/// relationships that run both ways are there both ways.
pub proof fn rust_links_are_sound(a: &AuditData)
    ensures
        sound_links(a, rust_links(a)),
        sound_links(a, distinct(rust_links(a))),
{
    let s = entries(a);
    assert forall|i: int| 0 <= i < s.len() implies sound_links(
        a,
        rust_proxy(a)(#[trigger] s[i]),
    ) by {
        if let TopicMetadata::NamedTopic { transitive_topic: Some(t), .. } = s[i].1 {
            lemma_one_way_sound(a, s[i].0, t, EdgeType::ProxyOf);
        }
    }
    lemma_gathered_sound(a, s, rust_proxy(a));
    let bases = a.inheritance.pairs();
    assert forall|i: int| 0 <= i < bases.len() implies sound_links(
        a,
        implementations(a)(#[trigger] bases[i]),
    ) by {
        lemma_between_sound(a, bases[i].0, bases[i].1@, EdgeType::Implements);
    }
    lemma_gathered_sound(a, bases, implementations(a));
    let props = a.function_properties.pairs();
    assert forall|i: int| 0 <= i < props.len() implies sound_links(
        a,
        rust_properties(a)(#[trigger] props[i]),
    ) by {
        let e = props[i];
        if is_rust(a, e.0) {
            lemma_leading_sound(a, e.0, callees(&e.1), EdgeType::Calls);
            lemma_leading_sound(a, e.0, mutated(&e.1), EdgeType::MutatesField);
            lemma_references_sound(a, e.0, callees(&e.1) + mutated(&e.1));
            let x1 = gathered(callees(&e.1), leading_to(a, e.0, EdgeType::Calls));
            let x2 = gathered(mutated(&e.1), leading_to(a, e.0, EdgeType::MutatesField));
            lemma_joined_sound(a, x1, x2);
            lemma_joined_sound(a, x1 + x2, references(a, e.0, callees(&e.1) + mutated(&e.1)));
        }
    }
    lemma_gathered_sound(a, props, rust_properties(a));
    let x1 = gathered(bases, implementations(a));
    let x2 = gathered(s, rust_proxy(a));
    let x3 = gathered(props, rust_properties(a));
    lemma_joined_sound(a, x1, x2);
    lemma_joined_sound(a, x1 + x2, x3);
    lemma_distinct_sound(a, rust_links(a));
}

} // verus!
