//! What standing together resolves, in terms of what the audit records.
use crate::domain::audit::{entries, AuditData};
use crate::domain::kinds::NamedTopicKind;
use crate::domain::lists::{any, first_index, is_first, lemma_first_index, other_than};
use crate::domain::metadata::TopicMetadata;
use crate::domain::queries::ancestor_chain;
use crate::domain::scope::{ContainingBlockLayer, ScopeView};
use crate::domain::topic::Topic;
use crate::ordered::lookup;
use crate::resolution_graph::coloc::{can_pin, declares, is_pinned, only_shared, pins, resolution};
use crate::resolution_graph::coloc::{resolutions, resolves_to, scope_of, sole};
use crate::sorting::lemma_picked_from;
use vstd::prelude::*;

verus! {

/// `t` is a declaration of the kind `k`.
pub open spec fn is_of_kind(a: &AuditData, t: Topic, k: NamedTopicKind) -> bool {
    a.topic_metadata@.dom().contains(t) && match a.topic_metadata@[t] {
        TopicMetadata::NamedTopic { kind, .. } => kind == k,
        _ => false,
    }
}

/// `t` is a function, a modifier, a struct, an event or an error.
pub open spec fn declares_names(a: &AuditData, t: Topic) -> bool {
    ||| exists|k: crate::domain::kinds::FunctionKind| #[trigger]
        is_of_kind(a, t, NamedTopicKind::Function(k))
    ||| is_of_kind(a, t, NamedTopicKind::Modifier)
    ||| is_of_kind(a, t, NamedTopicKind::Struct)
    ||| is_of_kind(a, t, NamedTopicKind::Event)
    ||| is_of_kind(a, t, NamedTopicKind::Error)
}

/// The scope in which the declaration `c` stands.
pub open spec fn stands_in(a: &AuditData, c: Topic, s: ScopeView) -> bool {
    a.topic_metadata@.dom().contains(c) && match a.topic_metadata@[c] {
        TopicMetadata::NamedTopic { scope, .. } => scope@ == s,
        _ => false,
    }
}

proof fn lemma_can_pin(a: &AuditData, t: Topic)
    ensures
        can_pin(entries(a))(t) == declares_names(a, t),
{
    if can_pin(entries(a))(t) {
        if let Some(TopicMetadata::NamedTopic { kind, .. }) = lookup(entries(a), t) {
            if let NamedTopicKind::Function(k) = kind {
                assert(is_of_kind(a, t, NamedTopicKind::Function(k)));
            }
        }
    }
}

/// The first item of `s` that passes both tests is the first of those that pass
/// one that passes the other.
proof fn lemma_first_of_kept(s: Seq<Topic>, keep: spec_fn(Topic) -> bool, p: spec_fn(Topic) -> bool, k: int)
    requires
        0 <= k < s.len(),
        keep(s[k]) && p(s[k]),
        forall|j: int| 0 <= j < k ==> !(keep(#[trigger] s[j]) && p(s[j])),
    ensures
        any(s.filter(keep), p),
        s.filter(keep)[first_index(s.filter(keep), p)] == s[k],
{
    let x = s.take(k);
    let y = s.skip(k + 1);
    assert(s =~= x.push(s[k]) + y);
    Seq::filter_distributes_over_add(x.push(s[k]), y, keep);
    x.lemma_filter_push(s[k], keep);
    let f = s.filter(keep);
    let n = x.filter(keep).len() as int;
    assert(f =~= x.filter(keep).push(s[k]) + y.filter(keep));
    assert forall|j: int| 0 <= j < n implies !#[trigger] p(f[j]) by {
        lemma_picked_from(x, keep, j);
        let i = choose|i: int| 0 <= i < x.len() && x[i] == x.filter(keep)[j];
        assert(s[i] == f[j]);
    }
    assert(f[n] == s[k]);
    assert(is_first(f, p, n));
    lemma_first_index(f, p, n);
}

proof fn lemma_none_kept(s: Seq<Topic>, keep: spec_fn(Topic) -> bool, p: spec_fn(Topic) -> bool)
    requires
        forall|j: int| 0 <= j < s.len() ==> !(keep(#[trigger] s[j]) && p(s[j])),
    ensures
        !any(s.filter(keep), p),
{
    let f = s.filter(keep);
    assert forall|j: int| 0 <= j < f.len() implies !#[trigger] p(f[j]) by {
        lemma_picked_from(s, keep, j);
        let i = choose|i: int| 0 <= i < s.len() && s[i] == f[j];
        assert(s[i] == f[j]);
    }
}

/// The topics around `c`, innermost first.
proof fn lemma_around(a: &AuditData, c: Topic, s: ScopeView, up: Seq<Topic>)
    requires
        stands_in(a, c, s),
        up == s.ancestors().reverse(),
    ensures
        ancestor_chain(entries(a), c).skip(1) == up.filter(other_than(c)),
{
    assert(ancestor_chain(entries(a), c).skip(1) =~= up.filter(other_than(c)));
}

/// The enclosing scope is the `k`th topic outwards, if none further in declares
/// names.
proof fn lemma_scope_is(a: &AuditData, c: Topic, s: ScopeView, k: int)
    requires
        stands_in(a, c, s),
        0 <= k < s.ancestors().len(),
        s.ancestors().reverse()[k] != c,
        declares_names(a, s.ancestors().reverse()[k]),
        forall|j: int|
            0 <= j < k ==> (#[trigger] s.ancestors().reverse()[j]) == c || !declares_names(
                a,
                s.ancestors().reverse()[j],
            ),
    ensures
        scope_of(entries(a), c) == Some(s.ancestors().reverse()[k]),
{
    let up = s.ancestors().reverse();
    let keep = other_than(c);
    let p = can_pin(entries(a));
    lemma_around(a, c, s, up);
    assert forall|j: int| 0 <= j < up.len() implies p(#[trigger] up[j]) == declares_names(
        a,
        up[j],
    ) by {
        lemma_can_pin(a, up[j]);
    }
    lemma_first_of_kept(up, keep, p, k);
}

proof fn lemma_scope_is_none(a: &AuditData, c: Topic, s: ScopeView)
    requires
        stands_in(a, c, s),
        forall|j: int|
            0 <= j < s.ancestors().len() ==> (#[trigger] s.ancestors().reverse()[j]) == c
                || !declares_names(a, s.ancestors().reverse()[j]),
    ensures
        scope_of(entries(a), c) is None,
{
    let up = s.ancestors().reverse();
    let keep = other_than(c);
    let p = can_pin(entries(a));
    lemma_around(a, c, s, up);
    assert forall|j: int| 0 <= j < up.len() implies !(keep(#[trigger] up[j]) && p(up[j])) by {
        lemma_can_pin(a, up[j]);
    }
    lemma_none_kept(up, keep, p);
}

/// The member and the component around a declaration, as its enclosing scope.
pub open spec fn member_or_component(a: &AuditData, c: Topic, member: Topic, component: Topic) -> Option<
    Topic,
> {
    if member != c && declares_names(a, member) {
        Some(member)
    } else if component != c && declares_names(a, component) {
        Some(component)
    } else {
        None
    }
}

/// A declaration in a member, in its signature: the enclosing scope is the member if
/// it is a function, a modifier, a struct, an event or an error, or else the
/// component if it is one of these.
pub proof fn scope_in_a_signature(
    a: &AuditData,
    c: Topic,
    container: Seq<char>,
    component: Topic,
    member: Topic,
    signature_container: Option<Topic>,
)
    requires
        stands_in(
            a,
            c,
            ScopeView::Member { container, component, member, signature_container },
        ),
    ensures
        scope_of(entries(a), c) == member_or_component(a, c, member, component),
{
    let s = ScopeView::Member { container, component, member, signature_container };
    let up = s.ancestors().reverse();
    assert(up =~= seq![member, component]);
    if member != c && declares_names(a, member) {
        lemma_scope_is(a, c, s, 0);
    } else if component != c && declares_names(a, component) {
        lemma_scope_is(a, c, s, 1);
    } else {
        lemma_scope_is_none(a, c, s);
    }
}

/// A declaration directly in a component: the enclosing scope is the component, if
/// it is a function, a modifier, a struct, an event or an error.
pub proof fn scope_in_a_component(a: &AuditData, c: Topic, container: Seq<char>, component: Topic)
    requires
        stands_in(a, c, ScopeView::Component { container, component }),
    ensures
        scope_of(entries(a), c) == if component != c && declares_names(a, component) {
            Some(component)
        } else {
            None
        },
{
    let s = ScopeView::Component { container, component };
    let up = s.ancestors().reverse();
    assert(up =~= seq![component]);
    if component != c && declares_names(a, component) {
        lemma_scope_is(a, c, s, 0);
    } else {
        lemma_scope_is_none(a, c, s);
    }
}

/// A declaration in the body of a member: blocks that declare no names are passed
/// over, and the enclosing scope is the same as in the signature.
pub proof fn scope_in_a_body(
    a: &AuditData,
    c: Topic,
    container: Seq<char>,
    component: Topic,
    member: Topic,
    blocks: Seq<ContainingBlockLayer>,
)
    requires
        stands_in(a, c, ScopeView::ContainingBlock { container, component, member, blocks }),
        forall|i: int|
            0 <= i < blocks.len() ==> (#[trigger] blocks[i]).block == c || !declares_names(
                a,
                blocks[i].block,
            ),
    ensures
        scope_of(entries(a), c) == member_or_component(a, c, member, component),
{
    let s = ScopeView::ContainingBlock { container, component, member, blocks };
    let up = s.ancestors().reverse();
    let n = blocks.len() as int;
    assert(up.len() == n + 2);
    assert forall|j: int| 0 <= j < n implies up[j] == blocks[n - 1 - j].block by {}
    assert(up[n] == member);
    assert(up[n + 1] == component);
    if member != c && declares_names(a, member) {
        lemma_scope_is(a, c, s, n);
    } else if component != c && declares_names(a, component) {
        lemma_scope_is(a, c, s, n + 1);
    } else {
        lemma_scope_is_none(a, c, s);
    }
}

/// The innermost of the blocks that declare names, where there is one, is the
/// enclosing scope.
pub proof fn scope_is_the_innermost_block(
    a: &AuditData,
    c: Topic,
    container: Seq<char>,
    component: Topic,
    member: Topic,
    blocks: Seq<ContainingBlockLayer>,
    i: int,
)
    requires
        stands_in(a, c, ScopeView::ContainingBlock { container, component, member, blocks }),
        0 <= i < blocks.len(),
        blocks[i].block != c,
        declares_names(a, blocks[i].block),
        forall|j: int|
            i < j < blocks.len() ==> (#[trigger] blocks[j]).block == c || !declares_names(
                a,
                blocks[j].block,
            ),
    ensures
        scope_of(entries(a), c) == Some(blocks[i].block),
{
    let s = ScopeView::ContainingBlock { container, component, member, blocks };
    let up = s.ancestors().reverse();
    let n = blocks.len() as int;
    assert forall|j: int| 0 <= j < n implies up[j] == blocks[n - 1 - j].block by {}
    lemma_scope_is(a, c, s, n - 1 - i);
}

/// A declaration that no component holds, and a topic that is not known, has no
/// enclosing scope.
pub proof fn nothing_encloses_the_outermost(a: &AuditData, c: Topic, container: Seq<char>)
    requires
        !a.topic_metadata@.dom().contains(c) || stands_in(a, c, ScopeView::Global) || stands_in(
            a,
            c,
            ScopeView::Container { container },
        ),
    ensures
        scope_of(entries(a), c) is None,
{
    if a.topic_metadata@.dom().contains(c) {
        if stands_in(a, c, ScopeView::Global) {
            lemma_scope_is_none(a, c, ScopeView::Global);
        } else {
            lemma_scope_is_none(a, c, ScopeView::Container { container });
        }
    } else {
        assert(ancestor_chain(entries(a), c).skip(1) =~= seq![]);
    }
}

/// A declaration in the signature of a function is enclosed by the function.
pub proof fn functions_enclose(
    a: &AuditData,
    c: Topic,
    container: Seq<char>,
    component: Topic,
    f: Topic,
    s: Option<Topic>,
    k: crate::domain::kinds::FunctionKind,
)
    requires
        stands_in(
            a,
            c,
            ScopeView::Member { container, component, member: f, signature_container: s },
        ),
        f != c,
        is_of_kind(a, f, NamedTopicKind::Function(k)),
    ensures
        scope_of(entries(a), c) == Some(f),
{
    scope_in_a_signature(a, c, container, component, f, s);
}

/// A declaration in the signature of a modifier, a struct, an event or an error is
/// enclosed by it.
pub proof fn other_members_enclose(
    a: &AuditData,
    c: Topic,
    container: Seq<char>,
    component: Topic,
    m: Topic,
    s: Option<Topic>,
    k: NamedTopicKind,
)
    requires
        stands_in(
            a,
            c,
            ScopeView::Member { container, component, member: m, signature_container: s },
        ),
        m != c,
        is_of_kind(a, m, k),
        k is Modifier || k is Struct || k is Event || k is Error,
    ensures
        scope_of(entries(a), c) == Some(m),
{
    scope_in_a_signature(a, c, container, component, m, s);
}

/// Two references that stand together, alone: where one scope, and no other, holds
/// candidates of both, and one candidate of each, both resolve to these.
pub proof fn a_pair_resolves(
    meta: Seq<(Topic, TopicMetadata)>,
    x: Seq<Topic>,
    y: Seq<Topic>,
    c: Topic,
    d: Topic,
    s: Topic,
)
    requires
        x.contains(c),
        y.contains(d),
        scope_of(meta, c) == Some(s),
        scope_of(meta, d) == Some(s),
        forall|e: Topic| #[trigger] x.contains(e) && scope_of(meta, e) == Some(s) ==> e == c,
        forall|e: Topic| #[trigger] y.contains(e) && scope_of(meta, e) == Some(s) ==> e == d,
        forall|e: Topic, f: Topic| #[trigger]
            x.contains(e) && #[trigger] y.contains(f) && scope_of(meta, e) is Some && scope_of(
                meta,
                e,
            ) == scope_of(meta, f) ==> scope_of(meta, e) == Some(s),
    ensures
        resolutions(meta, seq![x, y], 2) == seq![(0int, c, s), (1int, d, s)],
{
    let refs = seq![x, y];
    lemma_only_shared(meta, x, y, s, c, d);
    lemma_only_shared(meta, y, x, s, d, c);
    assert(pins(meta, x, y, c, s)) by {
        assert(sole(meta, y, s, d));
    }
    assert(pins(meta, y, x, d, s)) by {
        assert(sole(meta, x, s, c));
    }
    assert(pins(meta, refs[0], refs[1], c, s));
    assert(pins(meta, refs[1], refs[0], d, s));
    lemma_resolves(meta, refs, 0, 1, c, s);
    lemma_resolves(meta, refs, 1, 0, d, s);
    reveal_with_fuel(resolutions, 3);
    assert(resolutions(meta, refs, 0) =~= seq![]);
    assert(resolutions(meta, refs, 2) =~= seq![(0int, c, s), (1int, d, s)]);
}

proof fn lemma_only_shared(
    meta: Seq<(Topic, TopicMetadata)>,
    x: Seq<Topic>,
    y: Seq<Topic>,
    s: Topic,
    c: Topic,
    d: Topic,
)
    requires
        x.contains(c),
        y.contains(d),
        scope_of(meta, c) == Some(s),
        scope_of(meta, d) == Some(s),
        forall|e: Topic, f: Topic| #[trigger]
            x.contains(e) && #[trigger] y.contains(f) && scope_of(meta, e) is Some && scope_of(
                meta,
                e,
            ) == scope_of(meta, f) ==> scope_of(meta, e) == Some(s),
    ensures
        only_shared(meta, x, y, s),
{
    assert forall|t: Topic| #[trigger] declares(meta, x, t) && declares(meta, y, t) implies t
        == s by {
        let e = choose|e: Topic| #[trigger] x.contains(e) && scope_of(meta, e) == Some(t);
        let f = choose|f: Topic| #[trigger] y.contains(f) && scope_of(meta, f) == Some(t);
        assert(x.contains(e) && y.contains(f));
    }
}

proof fn lemma_resolves(
    meta: Seq<(Topic, TopicMetadata)>,
    refs: Seq<Seq<Topic>>,
    i: int,
    j: int,
    c: Topic,
    s: Topic,
)
    requires
        refs.len() == 2,
        (i == 0 && j == 1) || (i == 1 && j == 0),
        pins(meta, refs[i], refs[j], c, s),
    ensures
        resolution(meta, refs, i) == Some(c),
{
    assert(is_pinned(meta, refs, i, c));
    assert forall|d: Topic| #[trigger] is_pinned(meta, refs, i, d) implies d == c by {
        let (k, t) = choose|k: int, t: Topic|
            0 <= k < refs.len() && k != i && #[trigger] pins(meta, refs[i], refs[k], d, t);
        assert(k == j);
        assert(declares(meta, refs[i], t) && declares(meta, refs[j], t));
        assert(t == s);
        assert(refs[i].contains(d));
    }
    assert(resolves_to(meta, refs, i, c));
    let e = choose|e: Topic| resolves_to(meta, refs, i, e);
    assert(e == c);
}

/// Two references that stand together, alone: where two scopes hold candidates of
/// both, neither resolves.
pub proof fn two_shared_scopes_resolve_nothing(
    meta: Seq<(Topic, TopicMetadata)>,
    x: Seq<Topic>,
    y: Seq<Topic>,
    c: Topic,
    d: Topic,
    e: Topic,
    f: Topic,
)
    requires
        x.contains(c) && x.contains(e),
        y.contains(d) && y.contains(f),
        scope_of(meta, c) is Some,
        scope_of(meta, c) == scope_of(meta, d),
        scope_of(meta, e) is Some,
        scope_of(meta, e) == scope_of(meta, f),
        scope_of(meta, c) != scope_of(meta, e),
    ensures
        resolutions(meta, seq![x, y], 2).len() == 0,
{
    let s = scope_of(meta, c)->0;
    let t = scope_of(meta, e)->0;
    assert(declares(meta, x, s) && declares(meta, y, s) && declares(meta, x, t) && declares(
        meta,
        y,
        t,
    ));
    assert forall|g: Topic, u: Topic| !#[trigger] pins(meta, x, y, g, u) by {}
    assert forall|g: Topic, u: Topic| !#[trigger] pins(meta, y, x, g, u) by {}
    lemma_unpinned_pair(meta, x, y);
}

/// Two references that stand together, alone: where a scope that holds candidates of
/// both holds two of one of them, neither resolves.
pub proof fn two_candidates_in_the_scope_resolve_nothing(
    meta: Seq<(Topic, TopicMetadata)>,
    x: Seq<Topic>,
    y: Seq<Topic>,
    c: Topic,
    e: Topic,
    d: Topic,
)
    requires
        x.contains(c) && x.contains(e) && c != e,
        y.contains(d),
        scope_of(meta, c) is Some,
        scope_of(meta, c) == scope_of(meta, e),
        scope_of(meta, c) == scope_of(meta, d),
    ensures
        resolutions(meta, seq![x, y], 2).len() == 0,
        resolutions(meta, seq![y, x], 2).len() == 0,
{
    let s = scope_of(meta, c)->0;
    assert(declares(meta, x, s) && declares(meta, y, s));
    assert forall|g: Topic, u: Topic| !#[trigger] pins(meta, x, y, g, u) by {
        if pins(meta, x, y, g, u) {
            assert(u == s);
        }
    }
    assert forall|g: Topic, u: Topic| !#[trigger] pins(meta, y, x, g, u) by {
        if pins(meta, y, x, g, u) {
            assert(u == s);
            let h = choose|h: Topic| sole(meta, x, s, h);
        }
    }
    lemma_unpinned_pair(meta, x, y);
    lemma_unpinned_pair(meta, y, x);
}

proof fn lemma_unpinned_pair(meta: Seq<(Topic, TopicMetadata)>, x: Seq<Topic>, y: Seq<Topic>)
    requires
        forall|g: Topic, u: Topic| !#[trigger] pins(meta, x, y, g, u),
        forall|g: Topic, u: Topic| !#[trigger] pins(meta, y, x, g, u),
    ensures
        resolutions(meta, seq![x, y], 2).len() == 0,
{
    let refs = seq![x, y];
    assert forall|i: int, g: Topic| 0 <= i < 2 implies !#[trigger] resolves_to(meta, refs, i, g) by {
        if is_pinned(meta, refs, i, g) {
            let (k, t) = choose|k: int, t: Topic|
                0 <= k < refs.len() && k != i && #[trigger] pins(meta, refs[i], refs[k], g, t);
        }
    }
    reveal_with_fuel(resolutions, 3);
}

/// A reference that two others pin to different candidates stays unresolved.
pub proof fn conflicting_pins_resolve_nothing(
    meta: Seq<(Topic, TopicMetadata)>,
    refs: Seq<Seq<Topic>>,
    i: int,
    j: int,
    k: int,
    c: Topic,
    d: Topic,
    s: Topic,
    t: Topic,
)
    requires
        0 <= i < refs.len() && 0 <= j < refs.len() && 0 <= k < refs.len(),
        i != j && i != k,
        pins(meta, refs[i], refs[j], c, s),
        pins(meta, refs[i], refs[k], d, t),
        c != d,
    ensures
        resolution(meta, refs, i) is None,
{
    assert(is_pinned(meta, refs, i, c));
    assert(is_pinned(meta, refs, i, d));
}

} // verus!
