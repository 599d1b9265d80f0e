//! What the graph of an audit holds, in terms of what the audit records.
use crate::domain::audit::{entries, AuditData};
use crate::domain::kinds::NamedTopicKind;
use crate::domain::metadata::{CallInfo, FunctionModProperties, RevertInfo, TopicMetadata};
use crate::domain::node::AST;
use crate::domain::scope::ScopeView;
use crate::domain::topic::Topic;
use crate::ordered::{ascending, has_key, index_of, lemma_index_of, lookup, mapping};
use crate::resolution_graph::builder::{graph_edges_are_the_links, graph_of, rust_part};
use crate::resolution_graph::builder::solidity_part;
use crate::resolution_graph::edge::EdgeType;
use crate::resolution_graph::graph::{edges_from, finalizing_sorts, OutEdge};
use crate::resolution_graph::links::{both_ways, distinct_holds_each_once, edge_of};
use crate::resolution_graph::links::{edges_are_the_links, gathered, is_named, leaves};
use crate::resolution_graph::links::{lemma_gathered_from, lemma_joined_holds, one_way};
use crate::resolution_graph::links::{with_links, Link};
use crate::resolution_graph::rust_extractor::{implementations, is_rust, rust_links};
use crate::resolution_graph::rust_extractor::{rust_properties, rust_proxy};
use crate::resolution_graph::solidity_extractor::{applied, between, callees, containment};
use crate::resolution_graph::solidity_extractor::{context_links, directives_of, emitted_events};
use crate::resolution_graph::solidity_extractor::{in_component, in_signature, inheritance};
use crate::resolution_graph::solidity_extractor::{invocations, leading_to, modifiers};
use crate::resolution_graph::solidity_extractor::{modifiers_in, modifiers_of, mutated};
use crate::resolution_graph::solidity_extractor::{opt_referenced, properties, proxy};
use crate::resolution_graph::solidity_extractor::{raised_errors, reference_link, referenced};
use crate::resolution_graph::solidity_extractor::{references, solidity_links, using_for};
use crate::resolution_graph::solidity_extractor::using_for_in;
use crate::solidity::ast::ASTNode;
use vstd::prelude::*;

verus! {

/// The audit knows `t` as a declaration with a name.
pub open spec fn declared(a: &AuditData, t: Topic) -> bool {
    a.topic_metadata@.dom().contains(t) && a.topic_metadata@[t] is NamedTopic
}

/// `t` is declared with the kind `k`.
pub open spec fn declared_as(a: &AuditData, t: Topic, k: NamedTopicKind) -> bool {
    declared(a, t) && a.topic_metadata@[t]->NamedTopic_kind == k
}

/// `t` is a member, or stands in the signature of a member, of the component `c`.
pub open spec fn belongs_to(a: &AuditData, t: Topic, c: Topic) -> bool {
    declared(a, t) && match a.topic_metadata@[t]->NamedTopic_scope@ {
        ScopeView::Member { component, .. } => component == c,
        _ => false,
    }
}

/// `t` stands in the signature of the member `m`.
pub open spec fn in_signature_of(a: &AuditData, t: Topic, m: Topic) -> bool {
    declared(a, t) && match a.topic_metadata@[t]->NamedTopic_scope@ {
        ScopeView::Member { member, signature_container: Some(_), .. } => member == m,
        _ => false,
    }
}

/// `b` is the innermost block around `t`.
pub open spec fn innermost_block(a: &AuditData, t: Topic, b: Topic) -> bool {
    declared(a, t) && match a.topic_metadata@[t]->NamedTopic_scope@ {
        ScopeView::ContainingBlock { blocks, .. } => blocks.len() > 0 && blocks.last().block == b,
        _ => false,
    }
}

pub open spec fn is_contract(a: &AuditData, c: Topic) -> bool {
    declared(a, c) && a.topic_metadata@[c]->NamedTopic_kind is Contract
}

pub open spec fn is_struct_or_enum(a: &AuditData, c: Topic) -> bool {
    declared_as(a, c, NamedTopicKind::Struct) || declared_as(a, c, NamedTopicKind::Enum)
}

/// `y` is among the bases recorded for `x`.
pub open spec fn has_base(a: &AuditData, x: Topic, y: Topic) -> bool {
    a.inheritance@.dom().contains(x) && a.inheritance@[x]@.contains(y)
}

/// `x` is a proxy for `y`.
pub open spec fn stands_for(a: &AuditData, x: Topic, y: Topic) -> bool {
    declared(a, x) && a.topic_metadata@[x]->NamedTopic_transitive_topic == Some(y)
}

/// A call of `d` is recorded.
pub open spec fn records_call(p: FunctionModProperties, d: Topic) -> bool {
    match p {
        FunctionModProperties::FunctionProperties { calls, .. } => exists|i: int|
            0 <= i < calls@.len() && (#[trigger] calls@[i]).callee == d,
        FunctionModProperties::ModifierProperties { calls, .. } => exists|i: int|
            0 <= i < calls@.len() && (#[trigger] calls@[i]).callee == d,
    }
}

/// A write to `d` is recorded.
pub open spec fn records_write(p: FunctionModProperties, d: Topic) -> bool {
    match p {
        FunctionModProperties::FunctionProperties { mutations, .. } => mutations@.contains(d),
        FunctionModProperties::ModifierProperties { mutations, .. } => mutations@.contains(d),
    }
}

/// An emission of `d` is recorded.
pub open spec fn records_event(p: FunctionModProperties, d: Topic) -> bool {
    match p {
        FunctionModProperties::FunctionProperties { events_emitted, .. } =>
            events_emitted@.contains(d),
        FunctionModProperties::ModifierProperties { events_emitted, .. } =>
            events_emitted@.contains(d),
    }
}

/// A revert with the error `d` is recorded.
pub open spec fn records_error(p: FunctionModProperties, d: Topic) -> bool {
    match p {
        FunctionModProperties::FunctionProperties { reverts, .. } => exists|i: int|
            0 <= i < reverts@.len() && (#[trigger] reverts@[i]).error_topic == Some(d),
        FunctionModProperties::ModifierProperties { reverts, .. } => exists|i: int|
            0 <= i < reverts@.len() && (#[trigger] reverts@[i]).error_topic == Some(d),
    }
}

/// The contexts of `x` refer to `d` at the level of a scope.
pub open spec fn refers_to(a: &AuditData, x: Topic, d: Topic) -> bool {
    &&& a.topic_context@.dom().contains(x)
    &&& exists|i: int, j: int|
        0 <= i < a.topic_context@[x]@.len() && 0 <= j < a.topic_context@[x]@[i]@.references.len()
            && (#[trigger] a.topic_context@[x]@[i]@.references[j]).topic == d
}

/// Properties are recorded for the declaration `x`.
pub open spec fn has_properties(a: &AuditData, x: Topic) -> bool {
    a.function_properties@.dom().contains(x)
}

/// The node names the declaration `t`.
pub open spec fn node_names(n: ASTNode, t: Topic) -> bool {
    match n {
        ASTNode::Identifier { referenced_declaration, .. } => t == Topic::Node(
            referenced_declaration,
        ),
        ASTNode::IdentifierPath { referenced_declaration, .. } => t == Topic::Node(
            referenced_declaration,
        ),
        ASTNode::UserDefinedTypeName { referenced_declaration, .. } => t == Topic::Node(
            referenced_declaration,
        ),
        ASTNode::MemberAccess { referenced_declaration: Some(id), .. } => t == Topic::Node(id),
        _ => false,
    }
}

/// `x` is `n`, or stands below it where a file or a contract declares things.
/// Directives stand in the signature of a contract too.
pub open spec fn stands_at(x: ASTNode, n: ASTNode) -> bool
    decreases n,
{
    x == n || match n {
        ASTNode::SourceUnit { nodes, .. } => stands_among(x, nodes@),
        ASTNode::ContractDefinition { signature, nodes, .. } => stands_among(x, nodes@) || (x
            is UsingForDirective && stands_at(x, *signature)),
        ASTNode::ContractSignature { directives, .. } => x is UsingForDirective && stands_among(
            x,
            directives@,
        ),
        ASTNode::ContractMemberGroup { members, .. } => stands_among(x, members@),
        _ => false,
    }
}

pub open spec fn stands_among(x: ASTNode, nodes: Seq<ASTNode>) -> bool
    decreases nodes,
{
    nodes.len() > 0 && (stands_among(x, nodes.drop_last()) || stands_at(x, nodes.last()))
}

/// A Solidity source declares `x`.
pub open spec fn source_declares(a: &AuditData, x: ASTNode) -> bool {
    exists|i: int|
        0 <= i < a.asts.pairs().len() && (#[trigger] a.asts.pairs()[i]).1 is Solidity
            && stands_among(x, a.asts.pairs()[i].1->Solidity_0.nodes@)
}

/// A directive attaches the library `lib` to the type `ty`.
pub open spec fn attaches(n: ASTNode, ty: Topic, lib: Topic) -> bool {
    match n {
        ASTNode::UsingForDirective { library_name: Some(l), type_node: Some(t), .. } => node_names(
            *t,
            ty,
        ) && node_names(*l, lib),
        _ => false,
    }
}

/// A node applies the modifier `m`.
pub open spec fn invokes(n: ASTNode, m: Topic) -> bool {
    match n {
        ASTNode::ModifierInvocation { modifier_name, .. } => node_names(*modifier_name, m),
        _ => false,
    }
}

/// The definition of the function `f`, with the modifier `m` in its signature.
pub open spec fn applies(n: ASTNode, f: Topic, m: Topic) -> bool {
    match n {
        ASTNode::FunctionDefinition { node_id, signature, .. } => {
            &&& f == Topic::Node(node_id)
            &&& match *signature {
                ASTNode::FunctionSignature { modifiers, .. } => match *modifiers {
                    ASTNode::ModifierList { modifiers, .. } => exists|i: int|
                        0 <= i < modifiers@.len() && invokes(#[trigger] modifiers@[i], m),
                    _ => false,
                },
                _ => false,
            }
        },
        _ => false,
    }
}

/// A Solidity source attaches the library `lib` to the type `ty`.
pub open spec fn is_attached(a: &AuditData, ty: Topic, lib: Topic) -> bool {
    exists|n: ASTNode| #[trigger] source_declares(a, n) && attaches(n, ty, lib)
}

/// A Solidity source applies the modifier `m` to the function `f`.
pub open spec fn is_applied(a: &AuditData, f: Topic, m: Topic) -> bool {
    exists|n: ASTNode| #[trigger] source_declares(a, n) && applies(n, f, m)
}

/// What the audit records for a relationship of this type from `x` to `y`, if its
/// sources are in Solidity.
pub open spec fn recorded(a: &AuditData, x: Topic, y: Topic, edge_type: EdgeType) -> bool {
    let p = a.function_properties@[x];
    match edge_type {
        EdgeType::ContainsMember => declared(a, x) && ((belongs_to(a, x, y) && is_contract(a, y))
            || (belongs_to(a, y, x) && is_contract(a, x))),
        EdgeType::ContainsField => declared(a, x) && ((belongs_to(a, x, y) && is_struct_or_enum(
            a,
            y,
        )) || (belongs_to(a, y, x) && is_struct_or_enum(a, x))),
        EdgeType::ContainsLocal => declared(a, x) && (in_signature_of(a, x, y) || in_signature_of(
            a,
            y,
            x,
        ) || innermost_block(a, x, y) || innermost_block(a, y, x)),
        EdgeType::Implements => declared(a, x) && (has_base(a, x, y) || has_base(a, y, x)),
        EdgeType::ProxyOf => stands_for(a, x, y),
        EdgeType::Calls => declared(a, x) && has_properties(a, x) && records_call(p, y),
        EdgeType::WritesState => declared(a, x) && has_properties(a, x) && records_write(p, y),
        EdgeType::EventEmitted => declared(a, x) && has_properties(a, x) && records_event(p, y),
        EdgeType::ErrorThrown => declared(a, x) && has_properties(a, x) && records_error(p, y),
        EdgeType::References => declared(a, x) && has_properties(a, x) && refers_to(a, x, y)
            && !records_call(p, y) && !records_write(p, y) && !records_event(p, y)
            && !records_error(p, y),
        EdgeType::UsingFor => declared(a, x) && (is_attached(a, x, y) || is_attached(a, y, x)),
        EdgeType::ModifierApplied => declared(a, x) && (is_applied(a, x, y) || is_applied(
            a,
            y,
            x,
        )),
        EdgeType::Derives => false,
        EdgeType::ReExports => false,
        EdgeType::MutatesField => false,
    }
}

/// The file at the path is a Rust source.
pub open spec fn holds_rust_at(a: &AuditData, path: Seq<char>) -> bool {
    a.asts@.dom().contains(path) && a.asts@[path] is Rust
}

/// `t` is declared in a Rust source.
pub open spec fn declared_in_rust(a: &AuditData, t: Topic) -> bool {
    declared(a, t) && match a.topic_metadata@[t]->NamedTopic_scope@ {
        ScopeView::Global => false,
        ScopeView::Container { container } => holds_rust_at(a, container),
        ScopeView::Component { container, .. } => holds_rust_at(a, container),
        ScopeView::Member { container, .. } => holds_rust_at(a, container),
        ScopeView::ContainingBlock { container, .. } => holds_rust_at(a, container),
    }
}

/// What the audit records for a relationship of this type from `x` to `y` in its
/// Rust sources.
pub open spec fn recorded_in_rust(a: &AuditData, x: Topic, y: Topic, edge_type: EdgeType) -> bool {
    let p = a.function_properties@[x];
    match edge_type {
        EdgeType::Implements => declared(a, x) && ((declared_in_rust(a, x) && has_base(a, x, y))
            || (declared_in_rust(a, y) && has_base(a, y, x))),
        EdgeType::ProxyOf => declared_in_rust(a, x) && stands_for(a, x, y),
        EdgeType::Calls => declared_in_rust(a, x) && has_properties(a, x) && records_call(p, y),
        EdgeType::MutatesField => declared_in_rust(a, x) && has_properties(a, x) && records_write(
            p,
            y,
        ),
        EdgeType::References => declared_in_rust(a, x) && has_properties(a, x) && refers_to(
            a,
            x,
            y,
        ) && !records_call(p, y) && !records_write(p, y),
        _ => false,
    }
}

/// The audit holds a source of the language.
pub open spec fn holds_solidity(a: &AuditData) -> bool {
    exists|i: int| 0 <= i < a.asts.pairs().len() && (#[trigger] a.asts.pairs()[i]).1 is Solidity
}

pub open spec fn holds_rust(a: &AuditData) -> bool {
    exists|i: int| 0 <= i < a.asts.pairs().len() && (#[trigger] a.asts.pairs()[i]).1 is Rust
}

/// The tables of the audit that the graph is built from are in order.
pub open spec fn tables_ascend(a: &AuditData) -> bool {
    &&& ascending(entries(a))
    &&& ascending(a.inheritance.pairs())
    &&& ascending(a.function_properties.pairs())
}

proof fn lemma_gathered_in_map<V>(s: Seq<(Topic, V)>, f: spec_fn((Topic, V)) -> Seq<Link>, l: Link)
    requires
        ascending(s),
    ensures
        gathered(s, f).contains(l) == exists|t: Topic| #[trigger]
            mapping(s).dom().contains(t) && f((t, mapping(s)[t])).contains(l),
{
    lemma_gathered_from(s, f, l);
    if gathered(s, f).contains(l) {
        let i = choose|i: int| 0 <= i < s.len() && f(#[trigger] s[i]).contains(l);
        lemma_index_of(s, i);
        let t = s[i].0;
        assert(mapping(s).dom().contains(t));
        assert(s[i] == (t, mapping(s)[t]));
    }
    if exists|t: Topic| #[trigger]
        mapping(s).dom().contains(t) && f((t, mapping(s)[t])).contains(l) {
        let t = choose|t: Topic| #[trigger]
            mapping(s).dom().contains(t) && f((t, mapping(s)[t])).contains(l);
        let i = index_of(s, t);
        assert(has_key(s, t));
        assert(s[i].0@ == t);
        assert(s[i] == (t, mapping(s)[t]));
        assert(f(s[i]).contains(l));
    }
}

proof fn lemma_named(a: &AuditData, t: Topic)
    ensures
        is_named(a, t) == declared(a, t),
{
}

proof fn lemma_one_way(a: &AuditData, x: Topic, y: Topic, e: EdgeType, l: Link)
    ensures
        one_way(a, x, y, e).contains(l) == (l == (Link { src: x, dst: y, edge_type: e }) && x != y
            && declared(a, y)),
{
    lemma_named(a, y);
    let s = one_way(a, x, y, e);
    if x != y && is_named(a, y) {
        assert(s[0] == (Link { src: x, dst: y, edge_type: e }));
    }
}

proof fn lemma_both_ways(a: &AuditData, x: Topic, y: Topic, e: EdgeType, l: Link)
    ensures
        both_ways(a, x, y, e).contains(l) == (l.edge_type == e && x != y && declared(a, x)
            && declared(a, y) && ((l.src == x && l.dst == y) || (l.src == y && l.dst == x))),
{
    lemma_named(a, x);
    lemma_named(a, y);
    let s = both_ways(a, x, y, e);
    if x != y && is_named(a, x) && is_named(a, y) {
        assert(s[0] == (Link { src: x, dst: y, edge_type: e }));
        assert(s[1] == (Link { src: y, dst: x, edge_type: e }));
    }
}

proof fn lemma_leading(a: &AuditData, x: Topic, list: Seq<Topic>, e: EdgeType, l: Link)
    ensures
        gathered(list, leading_to(a, x, e)).contains(l) == (l.edge_type == e && l.src == x
            && list.contains(l.dst) && l.src != l.dst && declared(a, l.dst)),
{
    let f = leading_to(a, x, e);
    lemma_gathered_from(list, f, l);
    if gathered(list, f).contains(l) {
        let i = choose|i: int| 0 <= i < list.len() && f(#[trigger] list[i]).contains(l);
        lemma_one_way(a, x, list[i], e, l);
    }
    if list.contains(l.dst) {
        let i = choose|i: int| 0 <= i < list.len() && list[i] == l.dst;
        lemma_one_way(a, x, list[i], e, l);
        if f(list[i]).contains(l) {
            assert(gathered(list, f).contains(l));
        }
    }
}

proof fn lemma_between(a: &AuditData, x: Topic, list: Seq<Topic>, e: EdgeType, l: Link)
    ensures
        gathered(list, between(a, x, e)).contains(l) == (l.edge_type == e && l.src != l.dst
            && declared(a, l.src) && declared(a, l.dst) && ((l.src == x && list.contains(l.dst))
            || (l.dst == x && list.contains(l.src)))),
{
    let f = between(a, x, e);
    lemma_gathered_from(list, f, l);
    if gathered(list, f).contains(l) {
        let i = choose|i: int| 0 <= i < list.len() && f(#[trigger] list[i]).contains(l);
        lemma_both_ways(a, x, list[i], e, l);
    }
    if list.contains(l.dst) {
        let i = choose|i: int| 0 <= i < list.len() && list[i] == l.dst;
        lemma_both_ways(a, x, list[i], e, l);
        if f(list[i]).contains(l) {
            assert(gathered(list, f).contains(l));
        }
    }
    if list.contains(l.src) {
        let i = choose|i: int| 0 <= i < list.len() && list[i] == l.src;
        lemma_both_ways(a, x, list[i], e, l);
        if f(list[i]).contains(l) {
            assert(gathered(list, f).contains(l));
        }
    }
}

proof fn lemma_callees(p: FunctionModProperties, d: Topic)
    ensures
        callees(&p).contains(d) == records_call(p, d),
{
    let calls = match p {
        FunctionModProperties::FunctionProperties { calls, .. } => calls@,
        FunctionModProperties::ModifierProperties { calls, .. } => calls@,
    };
    let list = callees(&p);
    assert(list =~= calls.map_values(|c: CallInfo| c.callee));
    if list.contains(d) {
        let i = choose|i: int| 0 <= i < list.len() && list[i] == d;
        assert(calls[i].callee == d);
    }
    if records_call(p, d) {
        let i = choose|i: int| 0 <= i < calls.len() && (#[trigger] calls[i]).callee == d;
        assert(list[i] == d);
    }
}

proof fn lemma_errors(p: FunctionModProperties, d: Topic)
    ensures
        raised_errors(&p).contains(d) == records_error(p, d),
{
    let reverts = match p {
        FunctionModProperties::FunctionProperties { reverts, .. } => reverts@,
        FunctionModProperties::ModifierProperties { reverts, .. } => reverts@,
    };
    let f = |r: RevertInfo| r.error_topic;
    assert(raised_errors(&p) == reverts.filter_map(f));
    crate::report::laws::lemma_filter_map_contains(reverts, f, reverts.len() as int, d);
    assert(reverts.take(reverts.len() as int) =~= reverts);
    if records_error(p, d) {
        let i = choose|i: int|
            0 <= i < reverts.len() && (#[trigger] reverts[i]).error_topic == Some(d);
        assert(f(reverts[i]) == Some(d));
    }
    if exists|i: int| 0 <= i < reverts.len() && f(#[trigger] reverts[i]) == Some(d) {
        let i = choose|i: int| 0 <= i < reverts.len() && f(#[trigger] reverts[i]) == Some(d);
        assert(reverts[i].error_topic == Some(d));
    }
}

proof fn lemma_references(a: &AuditData, x: Topic, covered: Seq<Topic>, l: Link)
    ensures
        references(a, x, covered).contains(l) == (l.edge_type == EdgeType::References && l.src == x
            && l.src != l.dst && declared(a, l.dst) && refers_to(a, x, l.dst)
            && !covered.contains(l.dst)),
{
    if let Some(contexts) = lookup(a.topic_context.pairs(), x) {
        let f = context_links(a, x, covered);
        let g = reference_link(a, x, covered);
        assert(a.topic_context@[x] == contexts);
        lemma_gathered_from(contexts@, f, l);
        if references(a, x, covered).contains(l) {
            let i = choose|i: int| 0 <= i < contexts@.len() && f(#[trigger] contexts@[i]).contains(
                l,
            );
            let refs = contexts@[i]@.references;
            lemma_gathered_from(refs, g, l);
            let j = choose|j: int| 0 <= j < refs.len() && g(#[trigger] refs[j]).contains(l);
            lemma_one_way(a, x, refs[j].topic, EdgeType::References, l);
            assert(a.topic_context@[x]@[i]@.references[j].topic == l.dst);
        }
        if l.edge_type == EdgeType::References && l.src == x && l.src != l.dst && declared(
            a,
            l.dst,
        ) && refers_to(a, x, l.dst) && !covered.contains(l.dst) {
            let (i, j) = choose|i: int, j: int|
                0 <= i < a.topic_context@[x]@.len() && 0 <= j
                    < a.topic_context@[x]@[i]@.references.len() && (
                #[trigger] a.topic_context@[x]@[i]@.references[j]).topic == l.dst;
            let refs = contexts@[i]@.references;
            lemma_gathered_from(refs, g, l);
            lemma_one_way(a, x, refs[j].topic, EdgeType::References, l);
            assert(g(refs[j]).contains(l));
            assert(f(contexts@[i]).contains(l));
        }
    }
}

proof fn lemma_containment(a: &AuditData, t: Topic, m: TopicMetadata, l: Link)
    requires
        a.topic_metadata@.dom().contains(t),
        a.topic_metadata@[t] == m,
    ensures
        containment(a)((t, m)).contains(l) == (l.src != l.dst && declared(a, l.src) && declared(
            a,
            l.dst,
        ) && ((l.src == t && contains_as(a, t, l.dst, l.edge_type)) || (l.dst == t && contains_as(
            a,
            t,
            l.src,
            l.edge_type,
        )))),
{
    if let TopicMetadata::NamedTopic { scope, .. } = m {
        match scope@ {
            ScopeView::Member { component, member, signature_container, .. } => {
                lemma_joined_holds(
                    in_component(a, t, component),
                    in_signature(a, t, member, signature_container),
                    l,
                );
                lemma_both_ways(a, t, component, EdgeType::ContainsMember, l);
                lemma_both_ways(a, t, component, EdgeType::ContainsField, l);
                lemma_both_ways(a, t, member, EdgeType::ContainsLocal, l);
            },
            ScopeView::ContainingBlock { blocks, .. } => {
                if blocks.len() > 0 {
                    lemma_both_ways(a, t, blocks.last().block, EdgeType::ContainsLocal, l);
                }
            },
            _ => {},
        }
    }
}

/// `o` contains `t` in the way that the type of edge says.
pub open spec fn contains_as(a: &AuditData, t: Topic, o: Topic, edge_type: EdgeType) -> bool {
    match edge_type {
        EdgeType::ContainsMember => belongs_to(a, t, o) && is_contract(a, o),
        EdgeType::ContainsField => belongs_to(a, t, o) && is_struct_or_enum(a, o),
        EdgeType::ContainsLocal => in_signature_of(a, t, o) || innermost_block(a, t, o),
        _ => false,
    }
}

proof fn lemma_node_names(n: ASTNode, t: Topic)
    ensures
        (referenced(&n) == Some(t)) == node_names(n, t),
{
}

/// A link for a directive.
spec fn attached_by(n: ASTNode, l: Link) -> bool {
    attaches(n, l.src, l.dst) || attaches(n, l.dst, l.src)
}

/// A link for a modifier that is applied.
spec fn applied_by(n: ASTNode, l: Link) -> bool {
    applies(n, l.src, l.dst) || applies(n, l.dst, l.src)
}

spec fn both_declared(a: &AuditData, l: Link) -> bool {
    l.src != l.dst && declared(a, l.src) && declared(a, l.dst)
}

proof fn lemma_using_for(a: &AuditData, node: ASTNode, l: Link)
    ensures
        using_for(a, node).contains(l) == (l.edge_type == EdgeType::UsingFor && both_declared(a, l)
            && exists|n: ASTNode| #[trigger] stands_at(n, node) && attached_by(n, l)),
    decreases node,
{
    let w = exists|n: ASTNode| #[trigger] stands_at(n, node) && attached_by(n, l);
    match node {
        ASTNode::UsingForDirective { library_name, type_node, .. } => {
            assert(stands_at(node, node));
            if let (Some(lib), Some(ty)) = (opt_referenced(library_name), opt_referenced(type_node)) {
                lemma_both_ways(a, ty, lib, EdgeType::UsingFor, l);
                lemma_node_names(*library_name->0, lib);
                lemma_node_names(*type_node->0, ty);
                assert(attaches(node, ty, lib));
            }
            if w {
                let n = choose|n: ASTNode| #[trigger] stands_at(n, node) && attached_by(n, l);
                assert(n == node);
                lemma_node_names(*library_name->0, l.src);
                lemma_node_names(*library_name->0, l.dst);
                lemma_node_names(*type_node->0, l.src);
                lemma_node_names(*type_node->0, l.dst);
            }
        },
        ASTNode::SourceUnit { nodes, .. } => {
            lemma_using_for_in(a, nodes@, l);
            lemma_same_walk(node, nodes@, l);
        },
        ASTNode::ContractDefinition { signature, nodes, .. } => {
            lemma_using_for(a, *signature, l);
            lemma_using_for_in(a, nodes@, l);
            lemma_joined_holds(using_for(a, *signature), using_for_in(a, nodes@), l);
            if w {
                let n = choose|n: ASTNode| #[trigger] stands_at(n, node) && attached_by(n, l);
                if !stands_among(n, nodes@) {
                    assert(stands_at(n, *signature));
                }
            }
            if exists|n: ASTNode| #[trigger] stands_among(n, nodes@) && attached_by(n, l) {
                let n = choose|n: ASTNode| #[trigger] stands_among(n, nodes@) && attached_by(n, l);
                assert(stands_at(n, node));
            }
            if exists|n: ASTNode| #[trigger] stands_at(n, *signature) && attached_by(n, l) {
                let n = choose|n: ASTNode| #[trigger]
                    stands_at(n, *signature) && attached_by(n, l);
                assert(stands_at(n, node));
            }
        },
        ASTNode::ContractSignature { directives, .. } => {
            lemma_using_for_in(a, directives@, l);
            lemma_same_walk(node, directives@, l);
        },
        ASTNode::ContractMemberGroup { members, .. } => {
            lemma_using_for_in(a, members@, l);
            lemma_same_walk(node, members@, l);
        },
        _ => {
            if w {
                let n = choose|n: ASTNode| #[trigger] stands_at(n, node) && attached_by(n, l);
                assert(n == node);
            }
        },
    }
}

/// What stands below a node that only holds others.
proof fn lemma_same_walk(node: ASTNode, nodes: Seq<ASTNode>, l: Link)
    requires
        !(node is UsingForDirective),
        forall|n: ASTNode| #[trigger]
            stands_at(n, node) == (n == node || (stands_among(n, nodes) && (node
                is ContractSignature ==> n is UsingForDirective))),
    ensures
        (exists|n: ASTNode| #[trigger] stands_at(n, node) && attached_by(n, l)) == (exists|
            n: ASTNode,
        | #[trigger] stands_among(n, nodes) && attached_by(n, l)),
{
    if exists|n: ASTNode| #[trigger] stands_at(n, node) && attached_by(n, l) {
        let n = choose|n: ASTNode| #[trigger] stands_at(n, node) && attached_by(n, l);
        assert(stands_among(n, nodes));
    }
    if exists|n: ASTNode| #[trigger] stands_among(n, nodes) && attached_by(n, l) {
        let n = choose|n: ASTNode| #[trigger] stands_among(n, nodes) && attached_by(n, l);
        assert(stands_at(n, node));
    }
}

proof fn lemma_using_for_in(a: &AuditData, nodes: Seq<ASTNode>, l: Link)
    ensures
        using_for_in(a, nodes).contains(l) == (l.edge_type == EdgeType::UsingFor && both_declared(
            a,
            l,
        ) && exists|n: ASTNode| #[trigger] stands_among(n, nodes) && attached_by(n, l)),
    decreases nodes,
{
    let w = exists|n: ASTNode| #[trigger] stands_among(n, nodes) && attached_by(n, l);
    if nodes.len() > 0 {
        let rest = nodes.drop_last();
        lemma_using_for_in(a, rest, l);
        lemma_using_for(a, nodes.last(), l);
        lemma_joined_holds(using_for_in(a, rest), using_for(a, nodes.last()), l);
        if w {
            let n = choose|n: ASTNode| #[trigger] stands_among(n, nodes) && attached_by(n, l);
            assert(stands_among(n, rest) || stands_at(n, nodes.last()));
        }
        if exists|n: ASTNode| #[trigger] stands_among(n, rest) && attached_by(n, l) {
            let n = choose|n: ASTNode| #[trigger] stands_among(n, rest) && attached_by(n, l);
            assert(stands_among(n, nodes));
        }
        if exists|n: ASTNode| #[trigger] stands_at(n, nodes.last()) && attached_by(n, l) {
            let n = choose|n: ASTNode| #[trigger] stands_at(n, nodes.last()) && attached_by(n, l);
            assert(stands_among(n, nodes));
        }
    }
}

proof fn lemma_applied(a: &AuditData, node: ASTNode, l: Link)
    requires
        node is FunctionDefinition,
    ensures
        modifiers(a, node).contains(l) == (l.edge_type == EdgeType::ModifierApplied
            && both_declared(a, l) && applied_by(node, l)),
{
    let f = Topic::Node(node->FunctionDefinition_node_id);
    let list = invocations(*node->FunctionDefinition_signature);
    let g = applied(a, f);
    lemma_gathered_from(list, g, l);
    if modifiers(a, node).contains(l) {
        let i = choose|i: int| 0 <= i < list.len() && g(#[trigger] list[i]).contains(l);
        if let ASTNode::ModifierInvocation { modifier_name, .. } = list[i] {
            if let Some(m) = referenced(&*modifier_name) {
                lemma_node_names(*modifier_name, m);
                lemma_both_ways(a, f, m, EdgeType::ModifierApplied, l);
                assert(invokes(list[i], m));
            }
        }
    }
    if l.edge_type == EdgeType::ModifierApplied && both_declared(a, l) && applied_by(node, l) {
        let m = if applies(node, l.src, l.dst) {
            l.dst
        } else {
            l.src
        };
        let i = choose|i: int| 0 <= i < list.len() && invokes(#[trigger] list[i], m);
        if let ASTNode::ModifierInvocation { modifier_name, .. } = list[i] {
            lemma_node_names(*modifier_name, m);
            lemma_both_ways(a, f, m, EdgeType::ModifierApplied, l);
            assert(g(list[i]).contains(l));
        }
    }
}

proof fn lemma_modifiers(a: &AuditData, node: ASTNode, l: Link)
    ensures
        modifiers(a, node).contains(l) == (l.edge_type == EdgeType::ModifierApplied
            && both_declared(a, l) && exists|n: ASTNode| #[trigger]
            stands_at(n, node) && applied_by(n, l)),
    decreases node,
{
    let w = exists|n: ASTNode| #[trigger] stands_at(n, node) && applied_by(n, l);
    match node {
        ASTNode::FunctionDefinition { .. } => {
            lemma_applied(a, node, l);
            assert(stands_at(node, node));
            if w {
                let n = choose|n: ASTNode| #[trigger] stands_at(n, node) && applied_by(n, l);
                assert(n == node);
            }
        },
        ASTNode::SourceUnit { nodes, .. } => {
            lemma_modifiers_in(a, nodes@, l);
            lemma_same_functions(node, nodes@, l);
        },
        ASTNode::ContractDefinition { nodes, .. } => {
            lemma_modifiers_in(a, nodes@, l);
            lemma_same_functions(node, nodes@, l);
        },
        ASTNode::ContractMemberGroup { members, .. } => {
            lemma_modifiers_in(a, members@, l);
            lemma_same_functions(node, members@, l);
        },
        _ => {
            if w {
                let n = choose|n: ASTNode| #[trigger] stands_at(n, node) && applied_by(n, l);
                assert(n is FunctionDefinition);
                assert(n == node);
            }
        },
    }
}

proof fn lemma_same_functions(node: ASTNode, nodes: Seq<ASTNode>, l: Link)
    requires
        !(node is FunctionDefinition),
        forall|n: ASTNode| #[trigger]
            stands_at(n, node) && n is FunctionDefinition ==> stands_among(n, nodes),
        forall|n: ASTNode| #[trigger] stands_among(n, nodes) ==> stands_at(n, node),
    ensures
        (exists|n: ASTNode| #[trigger] stands_at(n, node) && applied_by(n, l)) == (exists|
            n: ASTNode,
        | #[trigger] stands_among(n, nodes) && applied_by(n, l)),
{
    if exists|n: ASTNode| #[trigger] stands_at(n, node) && applied_by(n, l) {
        let n = choose|n: ASTNode| #[trigger] stands_at(n, node) && applied_by(n, l);
        assert(n is FunctionDefinition);
        assert(stands_among(n, nodes));
    }
    if exists|n: ASTNode| #[trigger] stands_among(n, nodes) && applied_by(n, l) {
        let n = choose|n: ASTNode| #[trigger] stands_among(n, nodes) && applied_by(n, l);
        assert(stands_at(n, node));
    }
}

proof fn lemma_modifiers_in(a: &AuditData, nodes: Seq<ASTNode>, l: Link)
    ensures
        modifiers_in(a, nodes).contains(l) == (l.edge_type == EdgeType::ModifierApplied
            && both_declared(a, l) && exists|n: ASTNode| #[trigger]
            stands_among(n, nodes) && applied_by(n, l)),
    decreases nodes,
{
    let w = exists|n: ASTNode| #[trigger] stands_among(n, nodes) && applied_by(n, l);
    if nodes.len() > 0 {
        let rest = nodes.drop_last();
        lemma_modifiers_in(a, rest, l);
        lemma_modifiers(a, nodes.last(), l);
        lemma_joined_holds(modifiers_in(a, rest), modifiers(a, nodes.last()), l);
        if w {
            let n = choose|n: ASTNode| #[trigger] stands_among(n, nodes) && applied_by(n, l);
            assert(stands_among(n, rest) || stands_at(n, nodes.last()));
        }
        if exists|n: ASTNode| #[trigger] stands_among(n, rest) && applied_by(n, l) {
            let n = choose|n: ASTNode| #[trigger] stands_among(n, rest) && applied_by(n, l);
            assert(stands_among(n, nodes));
        }
        if exists|n: ASTNode| #[trigger] stands_at(n, nodes.last()) && applied_by(n, l) {
            let n = choose|n: ASTNode| #[trigger] stands_at(n, nodes.last()) && applied_by(n, l);
            assert(stands_among(n, nodes));
        }
    }
}

proof fn lemma_directives(a: &AuditData, l: Link)
    ensures
        gathered(a.asts.pairs(), directives_of(a)).contains(l) == (l.edge_type
            == EdgeType::UsingFor && both_declared(a, l) && (is_attached(a, l.src, l.dst)
            || is_attached(a, l.dst, l.src))),
{
    let s = a.asts.pairs();
    let f = directives_of(a);
    lemma_gathered_from(s, f, l);
    if gathered(s, f).contains(l) {
        let i = choose|i: int| 0 <= i < s.len() && f(#[trigger] s[i]).contains(l);
        if let AST::Solidity(sol) = s[i].1 {
            lemma_using_for_in(a, sol.nodes@, l);
            let n = choose|n: ASTNode| #[trigger] stands_among(n, sol.nodes@) && attached_by(n, l);
            assert(source_declares(a, n));
        }
    }
    if l.edge_type == EdgeType::UsingFor && both_declared(a, l) && (is_attached(a, l.src, l.dst)
        || is_attached(a, l.dst, l.src)) {
        let n = if is_attached(a, l.src, l.dst) {
            choose|n: ASTNode| #[trigger] source_declares(a, n) && attaches(n, l.src, l.dst)
        } else {
            choose|n: ASTNode| #[trigger] source_declares(a, n) && attaches(n, l.dst, l.src)
        };
        let i = choose|i: int|
            0 <= i < s.len() && (#[trigger] s[i]).1 is Solidity && stands_among(
                n,
                s[i].1->Solidity_0.nodes@,
            );
        lemma_using_for_in(a, s[i].1->Solidity_0.nodes@, l);
        assert(attached_by(n, l));
        assert(f(s[i]).contains(l));
    }
}

proof fn lemma_modifier_links(a: &AuditData, l: Link)
    ensures
        gathered(a.asts.pairs(), modifiers_of(a)).contains(l) == (l.edge_type
            == EdgeType::ModifierApplied && both_declared(a, l) && (is_applied(a, l.src, l.dst)
            || is_applied(a, l.dst, l.src))),
{
    let s = a.asts.pairs();
    let f = modifiers_of(a);
    lemma_gathered_from(s, f, l);
    if gathered(s, f).contains(l) {
        let i = choose|i: int| 0 <= i < s.len() && f(#[trigger] s[i]).contains(l);
        if let AST::Solidity(sol) = s[i].1 {
            lemma_modifiers_in(a, sol.nodes@, l);
            let n = choose|n: ASTNode| #[trigger] stands_among(n, sol.nodes@) && applied_by(n, l);
            assert(source_declares(a, n));
        }
    }
    if l.edge_type == EdgeType::ModifierApplied && both_declared(a, l) && (is_applied(
        a,
        l.src,
        l.dst,
    ) || is_applied(a, l.dst, l.src)) {
        let n = if is_applied(a, l.src, l.dst) {
            choose|n: ASTNode| #[trigger] source_declares(a, n) && applies(n, l.src, l.dst)
        } else {
            choose|n: ASTNode| #[trigger] source_declares(a, n) && applies(n, l.dst, l.src)
        };
        let i = choose|i: int|
            0 <= i < s.len() && (#[trigger] s[i]).1 is Solidity && stands_among(
                n,
                s[i].1->Solidity_0.nodes@,
            );
        lemma_modifiers_in(a, s[i].1->Solidity_0.nodes@, l);
        assert(applied_by(n, l));
        assert(f(s[i]).contains(l));
    }
}

proof fn lemma_contained(a: &AuditData, l: Link)
    requires
        ascending(entries(a)),
    ensures
        gathered(entries(a), containment(a)).contains(l) == (both_declared(a, l) && (contains_as(
            a,
            l.src,
            l.dst,
            l.edge_type,
        ) || contains_as(a, l.dst, l.src, l.edge_type))),
{
    let s = entries(a);
    let f = containment(a);
    lemma_gathered_in_map(s, f, l);
    if gathered(s, f).contains(l) {
        let t = choose|t: Topic| #[trigger]
            mapping(s).dom().contains(t) && f((t, mapping(s)[t])).contains(l);
        lemma_containment(a, t, mapping(s)[t], l);
    }
    if both_declared(a, l) {
        assert(mapping(s).dom().contains(l.src) && mapping(s).dom().contains(l.dst));
        lemma_containment(a, l.src, mapping(s)[l.src], l);
        lemma_containment(a, l.dst, mapping(s)[l.dst], l);
    }
}

proof fn lemma_inherited(a: &AuditData, l: Link)
    requires
        ascending(a.inheritance.pairs()),
    ensures
        gathered(a.inheritance.pairs(), inheritance(a)).contains(l) == (l.edge_type
            == EdgeType::Implements && both_declared(a, l) && (has_base(a, l.src, l.dst)
            || has_base(a, l.dst, l.src))),
{
    let s = a.inheritance.pairs();
    let f = inheritance(a);
    lemma_gathered_in_map(s, f, l);
    if gathered(s, f).contains(l) {
        let t = choose|t: Topic| #[trigger]
            mapping(s).dom().contains(t) && f((t, mapping(s)[t])).contains(l);
        lemma_between(a, t, mapping(s)[t]@, EdgeType::Implements, l);
    }
    if has_base(a, l.src, l.dst) {
        assert(mapping(s).dom().contains(l.src));
        lemma_between(a, l.src, mapping(s)[l.src]@, EdgeType::Implements, l);
    }
    if has_base(a, l.dst, l.src) {
        assert(mapping(s).dom().contains(l.dst));
        lemma_between(a, l.dst, mapping(s)[l.dst]@, EdgeType::Implements, l);
    }
}

proof fn lemma_proxies(a: &AuditData, l: Link)
    requires
        ascending(entries(a)),
    ensures
        gathered(entries(a), proxy(a)).contains(l) == (l.edge_type == EdgeType::ProxyOf && l.src
            != l.dst && declared(a, l.dst) && stands_for(a, l.src, l.dst)),
{
    let s = entries(a);
    let f = proxy(a);
    lemma_gathered_in_map(s, f, l);
    if gathered(s, f).contains(l) {
        let t = choose|t: Topic| #[trigger]
            mapping(s).dom().contains(t) && f((t, mapping(s)[t])).contains(l);
        if let TopicMetadata::NamedTopic { transitive_topic: Some(d), .. } = mapping(s)[t] {
            lemma_one_way(a, t, d, EdgeType::ProxyOf, l);
        }
    }
    if stands_for(a, l.src, l.dst) {
        assert(mapping(s).dom().contains(l.src));
        lemma_one_way(a, l.src, l.dst, EdgeType::ProxyOf, l);
    }
}

proof fn lemma_property_link(a: &AuditData, x: Topic, p: FunctionModProperties, l: Link)
    requires
        has_properties(a, x),
        a.function_properties@[x] == p,
    ensures
        properties(a)((x, p)).contains(l) == (l.src == x && l.src != l.dst && declared(a, x)
            && declared(a, l.dst) && (l.edge_type is Calls || l.edge_type is WritesState
            || l.edge_type is EventEmitted || l.edge_type is ErrorThrown || l.edge_type
            is References) && recorded(a, x, l.dst, l.edge_type)),
{
    lemma_named(a, x);
    if is_named(a, x) {
        let d = l.dst;
        let covered = callees(&p) + mutated(&p) + emitted_events(&p) + raised_errors(&p);
        let x1 = gathered(callees(&p), leading_to(a, x, EdgeType::Calls));
        let x2 = gathered(mutated(&p), leading_to(a, x, EdgeType::WritesState));
        let x3 = gathered(emitted_events(&p), leading_to(a, x, EdgeType::EventEmitted));
        let x4 = gathered(raised_errors(&p), leading_to(a, x, EdgeType::ErrorThrown));
        lemma_joined_holds(x1, x2, l);
        lemma_joined_holds(x1 + x2, x3, l);
        lemma_joined_holds(x1 + x2 + x3, x4, l);
        lemma_joined_holds(x1 + x2 + x3 + x4, references(a, x, covered), l);
        lemma_leading(a, x, callees(&p), EdgeType::Calls, l);
        lemma_leading(a, x, mutated(&p), EdgeType::WritesState, l);
        lemma_leading(a, x, emitted_events(&p), EdgeType::EventEmitted, l);
        lemma_leading(a, x, raised_errors(&p), EdgeType::ErrorThrown, l);
        lemma_references(a, x, covered, l);
        lemma_callees(p, d);
        lemma_errors(p, d);
        lemma_joined_holds(callees(&p), mutated(&p), d);
        lemma_joined_holds(callees(&p) + mutated(&p), emitted_events(&p), d);
        lemma_joined_holds(callees(&p) + mutated(&p) + emitted_events(&p), raised_errors(&p), d);
    }
}

proof fn lemma_property_links(a: &AuditData, l: Link)
    requires
        ascending(a.function_properties.pairs()),
    ensures
        gathered(a.function_properties.pairs(), properties(a)).contains(l) == (l.src != l.dst
            && declared(a, l.dst) && (l.edge_type is Calls || l.edge_type is WritesState
            || l.edge_type is EventEmitted || l.edge_type is ErrorThrown || l.edge_type
            is References) && recorded(a, l.src, l.dst, l.edge_type)),
{
    let s = a.function_properties.pairs();
    let f = properties(a);
    lemma_gathered_in_map(s, f, l);
    if gathered(s, f).contains(l) {
        let t = choose|t: Topic| #[trigger]
            mapping(s).dom().contains(t) && f((t, mapping(s)[t])).contains(l);
        lemma_property_link(a, t, mapping(s)[t], l);
    }
    if has_properties(a, l.src) {
        assert(mapping(s).dom().contains(l.src));
        lemma_property_link(a, l.src, mapping(s)[l.src], l);
    }
}

/// The links found in Solidity sources are those that the audit records, between
/// different topics, to declarations with a name.
pub proof fn solidity_links_are_the_recorded(a: &AuditData, l: Link)
    requires
        tables_ascend(a),
    ensures
        solidity_links(a).contains(l) == (l.src != l.dst && declared(a, l.dst) && recorded(
            a,
            l.src,
            l.dst,
            l.edge_type,
        )),
{
    let x1 = gathered(entries(a), containment(a));
    let x2 = gathered(a.inheritance.pairs(), inheritance(a));
    let x3 = gathered(entries(a), proxy(a));
    let x4 = gathered(a.function_properties.pairs(), properties(a));
    let x5 = gathered(a.asts.pairs(), directives_of(a));
    let x6 = gathered(a.asts.pairs(), modifiers_of(a));
    lemma_joined_holds(x1, x2, l);
    lemma_joined_holds(x1 + x2, x3, l);
    lemma_joined_holds(x1 + x2 + x3, x4, l);
    lemma_joined_holds(x1 + x2 + x3 + x4, x5, l);
    lemma_joined_holds(x1 + x2 + x3 + x4 + x5, x6, l);
    lemma_contained(a, l);
    lemma_inherited(a, l);
    lemma_proxies(a, l);
    lemma_property_links(a, l);
    lemma_directives(a, l);
    lemma_modifier_links(a, l);
}

proof fn lemma_in_rust(a: &AuditData, t: Topic)
    ensures
        is_rust(a, t) == declared_in_rust(a, t),
{
}

proof fn lemma_rust_inherited(a: &AuditData, l: Link)
    requires
        ascending(a.inheritance.pairs()),
    ensures
        gathered(a.inheritance.pairs(), implementations(a)).contains(l) == (l.edge_type
            == EdgeType::Implements && both_declared(a, l) && ((declared_in_rust(a, l.src)
            && has_base(a, l.src, l.dst)) || (declared_in_rust(a, l.dst) && has_base(
            a,
            l.dst,
            l.src,
        )))),
{
    let s = a.inheritance.pairs();
    let f = implementations(a);
    lemma_gathered_in_map(s, f, l);
    if gathered(s, f).contains(l) {
        let t = choose|t: Topic| #[trigger]
            mapping(s).dom().contains(t) && f((t, mapping(s)[t])).contains(l);
        lemma_in_rust(a, t);
        lemma_between(a, t, mapping(s)[t]@, EdgeType::Implements, l);
    }
    lemma_in_rust(a, l.src);
    lemma_in_rust(a, l.dst);
    if has_base(a, l.src, l.dst) {
        assert(mapping(s).dom().contains(l.src));
        lemma_between(a, l.src, mapping(s)[l.src]@, EdgeType::Implements, l);
    }
    if has_base(a, l.dst, l.src) {
        assert(mapping(s).dom().contains(l.dst));
        lemma_between(a, l.dst, mapping(s)[l.dst]@, EdgeType::Implements, l);
    }
}

proof fn lemma_rust_proxies(a: &AuditData, l: Link)
    requires
        ascending(entries(a)),
    ensures
        gathered(entries(a), rust_proxy(a)).contains(l) == (l.edge_type == EdgeType::ProxyOf
            && l.src != l.dst && declared(a, l.dst) && declared_in_rust(a, l.src) && stands_for(
            a,
            l.src,
            l.dst,
        )),
{
    let s = entries(a);
    let f = rust_proxy(a);
    lemma_gathered_in_map(s, f, l);
    if gathered(s, f).contains(l) {
        let t = choose|t: Topic| #[trigger]
            mapping(s).dom().contains(t) && f((t, mapping(s)[t])).contains(l);
        lemma_in_rust(a, t);
        if let TopicMetadata::NamedTopic { transitive_topic: Some(d), .. } = mapping(s)[t] {
            lemma_one_way(a, t, d, EdgeType::ProxyOf, l);
        }
    }
    lemma_in_rust(a, l.src);
    if stands_for(a, l.src, l.dst) {
        assert(mapping(s).dom().contains(l.src));
        lemma_one_way(a, l.src, l.dst, EdgeType::ProxyOf, l);
    }
}

proof fn lemma_rust_property_link(a: &AuditData, x: Topic, p: FunctionModProperties, l: Link)
    requires
        has_properties(a, x),
        a.function_properties@[x] == p,
    ensures
        rust_properties(a)((x, p)).contains(l) == (l.src == x && l.src != l.dst && declared(
            a,
            l.dst,
        ) && (l.edge_type is Calls || l.edge_type is MutatesField || l.edge_type is References)
            && recorded_in_rust(a, x, l.dst, l.edge_type)),
{
    lemma_in_rust(a, x);
    if is_rust(a, x) {
        let d = l.dst;
        let covered = callees(&p) + mutated(&p);
        let x1 = gathered(callees(&p), leading_to(a, x, EdgeType::Calls));
        let x2 = gathered(mutated(&p), leading_to(a, x, EdgeType::MutatesField));
        lemma_joined_holds(x1, x2, l);
        lemma_joined_holds(x1 + x2, references(a, x, covered), l);
        lemma_leading(a, x, callees(&p), EdgeType::Calls, l);
        lemma_leading(a, x, mutated(&p), EdgeType::MutatesField, l);
        lemma_references(a, x, covered, l);
        lemma_callees(p, d);
        lemma_joined_holds(callees(&p), mutated(&p), d);
    }
}

/// The links found in Rust sources are those that the audit records there, between
/// different topics, to declarations with a name.
pub proof fn rust_links_are_the_recorded(a: &AuditData, l: Link)
    requires
        tables_ascend(a),
    ensures
        rust_links(a).contains(l) == (l.src != l.dst && declared(a, l.dst) && recorded_in_rust(
            a,
            l.src,
            l.dst,
            l.edge_type,
        )),
{
    let s = a.function_properties.pairs();
    let f = rust_properties(a);
    let x1 = gathered(a.inheritance.pairs(), implementations(a));
    let x2 = gathered(entries(a), rust_proxy(a));
    let x3 = gathered(s, f);
    lemma_joined_holds(x1, x2, l);
    lemma_joined_holds(x1 + x2, x3, l);
    lemma_rust_inherited(a, l);
    lemma_rust_proxies(a, l);
    lemma_gathered_in_map(s, f, l);
    if x3.contains(l) {
        let t = choose|t: Topic| #[trigger]
            mapping(s).dom().contains(t) && f((t, mapping(s)[t])).contains(l);
        lemma_rust_property_link(a, t, mapping(s)[t], l);
    }
    if has_properties(a, l.src) {
        assert(mapping(s).dom().contains(l.src));
        lemma_rust_property_link(a, l.src, mapping(s)[l.src], l);
    }
}

/// The graph has an edge of this type from `x` to `y`.
pub open spec fn has_edge(a: &AuditData, x: Topic, y: Topic, edge_type: EdgeType) -> bool {
    exists|e: OutEdge| #[trigger]
        edges_from(graph_of(a), x).contains(e) && e.dest == y && e.edge_type == edge_type
}

/// The graph of an audit has an edge of each type from one topic to another exactly
/// where the audit records that relationship in a language whose sources it holds.
pub proof fn graph_holds_exactly_the_recorded(
    a: &AuditData,
    x: Topic,
    y: Topic,
    edge_type: EdgeType,
)
    requires
        tables_ascend(a),
    ensures
        has_edge(a, x, y, edge_type) == (x != y && declared(a, y) && ((holds_solidity(a)
            && recorded(a, x, y, edge_type)) || (holds_rust(a) && recorded_in_rust(
            a,
            x,
            y,
            edge_type,
        )))),
{
    let l = Link { src: x, dst: y, edge_type };
    let e = edge_of(l);
    solidity_links_are_the_recorded(a, l);
    rust_links_are_the_recorded(a, l);
    distinct_holds_each_once(solidity_links(a));
    distinct_holds_each_once(rust_links(a));
    graph_edges_are_the_links(a, x, e);
    if has_edge(a, x, y, edge_type) {
        let o = choose|o: OutEdge| #[trigger]
            edges_from(graph_of(a), x).contains(o) && o.dest == y && o.edge_type == edge_type;
        graph_edges_are_the_links(a, x, o);
        let k = choose|k: Link| #[trigger]
            edge_of(k) == o && k.src == x && (solidity_part(a).contains(k) || rust_part(
                a,
            ).contains(k));
        assert(k == l);
    }
    if solidity_part(a).contains(l) || rust_part(a).contains(l) {
        assert(edge_of(l) == e && l.src == x);
        assert(edges_from(graph_of(a), x).contains(e));
    }
}

/// Every call that is recorded for a function or a modifier leads to an edge.
pub proof fn recorded_calls_are_edges(a: &AuditData, f: Topic, i: int)
    requires
        tables_ascend(a),
        holds_solidity(a),
        declared(a, f),
        has_properties(a, f),
        match a.function_properties@[f] {
            FunctionModProperties::FunctionProperties { calls, .. } => 0 <= i < calls@.len()
                && declared(a, calls@[i].callee) && calls@[i].callee != f,
            FunctionModProperties::ModifierProperties { calls, .. } => 0 <= i < calls@.len()
                && declared(a, calls@[i].callee) && calls@[i].callee != f,
        },
    ensures
        match a.function_properties@[f] {
            FunctionModProperties::FunctionProperties { calls, .. } => has_edge(
                a,
                f,
                calls@[i].callee,
                EdgeType::Calls,
            ),
            FunctionModProperties::ModifierProperties { calls, .. } => has_edge(
                a,
                f,
                calls@[i].callee,
                EdgeType::Calls,
            ),
        },
{
    let d = match a.function_properties@[f] {
        FunctionModProperties::FunctionProperties { calls, .. } => calls@[i].callee,
        FunctionModProperties::ModifierProperties { calls, .. } => calls@[i].callee,
    };
    assert(records_call(a.function_properties@[f], d));
    graph_holds_exactly_the_recorded(a, f, d, EdgeType::Calls);
}

proof fn lemma_filtered_once(s: Seq<Link>, f: spec_fn(Link) -> bool)
    requires
        s.no_duplicates(),
    ensures
        s.filter(f).no_duplicates(),
        forall|i: int| 0 <= i < s.filter(f).len() ==> f(#[trigger] s.filter(f)[i]),
        forall|i: int| 0 <= i < s.filter(f).len() ==> s.contains(#[trigger] s.filter(f)[i]),
    decreases s.len(),
{
    reveal(Seq::filter);
    if s.len() > 0 {
        let rest = s.drop_last();
        let last = s.last();
        let n = s.len() - 1;
        assert forall|i: int, j: int|
            0 <= i < rest.len() && 0 <= j < rest.len() && i != j implies rest[i] != rest[j] by {
            assert(rest[i] == s[i] && rest[j] == s[j]);
        }
        lemma_filtered_once(rest, f);
        let before = rest.filter(f);
        let after = s.filter(f);
        assert(!rest.contains(last)) by {
            if rest.contains(last) {
                let i = choose|i: int| 0 <= i < rest.len() && rest[i] == last;
                assert(s[i] == s[n]);
            }
        }
        assert forall|i: int| 0 <= i < after.len() implies s.contains(#[trigger] after[i]) by {
            if i < before.len() {
                assert(after[i] == before[i]);
                let k = choose|k: int| 0 <= k < rest.len() && rest[k] == before[i];
                assert(s[k] == after[i]);
            } else {
                assert(s[n] == after[i]);
            }
        }
        assert forall|i: int, j: int|
            0 <= i < after.len() && 0 <= j < after.len() && i != j implies after[i]
            != after[j] by {
            if i < before.len() && j < before.len() {
                assert(after[i] == before[i] && after[j] == before[j]);
            } else if i < before.len() {
                assert(after[i] == before[i] && rest.contains(before[i]));
            } else if j < before.len() {
                assert(after[j] == before[j] && rest.contains(before[j]));
            }
        }
    }
}

proof fn lemma_edges_once(s: Seq<Link>, src: Topic)
    requires
        s.no_duplicates(),
    ensures
        s.filter(leaves(src)).map_values(|l: Link| edge_of(l)).no_duplicates(),
{
    let p = s.filter(leaves(src));
    let m = p.map_values(|l: Link| edge_of(l));
    lemma_filtered_once(s, leaves(src));
    assert forall|i: int, j: int|
        0 <= i < m.len() && 0 <= j < m.len() && i != j implies m[i] != m[j] by {
        assert(leaves(src)(p[i]) && leaves(src)(p[j]));
        assert(p[i] != p[j]);
    }
}

/// In an audit of one language, however often a relationship is recorded, it is one
/// edge.
pub proof fn relationships_are_edges_once(a: &AuditData, x: Topic)
    requires
        !holds_solidity(a) || !holds_rust(a),
    ensures
        edges_from(graph_of(a), x).no_duplicates(),
{
    broadcast use vstd::seq_lib::group_to_multiset_ensures;

    let g0 = Map::<Topic, Seq<OutEdge>>::empty();
    let g1 = with_links(g0, solidity_part(a));
    let g2 = with_links(g1, rust_part(a));
    finalizing_sorts(g2, x);
    let before = edges_from(g2, x);
    let after = edges_from(graph_of(a), x);
    edges_are_the_links(g0, solidity_part(a), x);
    edges_are_the_links(g1, rust_part(a), x);
    let h = |l: Link| edge_of(l);
    let u = solidity_part(a).filter(leaves(x)).map_values(h);
    let v = rust_part(a).filter(leaves(x)).map_values(h);
    assert(before =~= u + v);
    distinct_holds_each_once(solidity_links(a));
    distinct_holds_each_once(rust_links(a));
    lemma_edges_once(solidity_part(a), x);
    lemma_edges_once(rust_part(a), x);
    assert(Seq::<Link>::empty().filter(leaves(x)) =~= Seq::<Link>::empty()) by {
        reveal(Seq::filter);
    }
    if solidity_part(a).len() == 0 {
        assert(solidity_part(a) =~= Seq::<Link>::empty());
        assert(before =~= v);
    } else {
        assert(rust_part(a) =~= Seq::<Link>::empty());
        assert(before =~= u);
    }
    before.lemma_multiset_has_no_duplicates();
    after.lemma_multiset_has_no_duplicates_conv();
}

} // verus!
