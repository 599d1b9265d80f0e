//! Links between declarations, on their way into the graph.
use crate::domain::audit::{entries, AuditData};
use crate::domain::kinds::NamedTopicKind;
use crate::domain::metadata::TopicMetadata;
use crate::domain::topic::{topic_before, Topic};
use crate::ordered::{lookup, MapKey, OrderedMap};
use crate::resolution_graph::edge::EdgeType;
use crate::resolution_graph::graph::{edges_from, with_edge, OutEdge, ResolutionGraph};
use crate::text::Standing;
use vstd::prelude::*;

verus! {

/// An edge of the graph before it has its weight.
#[derive(Debug, Clone, Copy, PartialEq, Eq, Structural)]
pub struct Link {
    pub src: Topic,
    pub dst: Topic,
    pub edge_type: EdgeType,
}

impl View for Link {
    type V = Link;

    open spec fn view(&self) -> Link {
        *self
    }
}

impl MapKey for Link {
    open spec fn before(a: Link, b: Link) -> bool {
        topic_before(a.src, b.src) || (a.src == b.src && (topic_before(a.dst, b.dst) || (a.dst
            == b.dst && a.edge_type.place() < b.edge_type.place())))
    }

    proof fn before_irreflexive(a: Link) {
    }

    proof fn before_transitive(a: Link, b: Link, c: Link) {
    }

    proof fn before_total(a: Link, b: Link) {
    }

    fn standing(&self, other: &Self) -> (r: Standing) {
        match self.src.standing(&other.src) {
            Standing::Same => match self.dst.standing(&other.dst) {
                Standing::Same => {
                    let (i, j) = (self.edge_type.rank(), other.edge_type.rank());
                    if i < j {
                        Standing::Before
                    } else if j < i {
                        Standing::After
                    } else {
                        Standing::Same
                    }
                },
                s => s,
            },
            s => s,
        }
    }
}

/// `t` is a declaration with a name. Only such topics are nodes.
pub open spec fn is_named(a: &AuditData, t: Topic) -> bool {
    match lookup(entries(a), t) {
        Some(m) => m is NamedTopic,
        None => false,
    }
}

pub open spec fn kind_of(a: &AuditData, t: Topic) -> Option<NamedTopicKind> {
    match lookup(entries(a), t) {
        Some(TopicMetadata::NamedTopic { kind, .. }) => Some(kind),
        _ => None,
    }
}

/// The link from `src` to `dst`, if it may stand: not from a topic to itself, and
/// to a declaration with a name only.
pub open spec fn one_way(a: &AuditData, src: Topic, dst: Topic, edge_type: EdgeType) -> Seq<Link> {
    if src != dst && is_named(a, dst) {
        seq![Link { src, dst, edge_type }]
    } else {
        seq![]
    }
}

/// The links between `x` and `y`, each way, if they may stand.
pub open spec fn both_ways(a: &AuditData, x: Topic, y: Topic, edge_type: EdgeType) -> Seq<Link> {
    if x != y && is_named(a, x) && is_named(a, y) {
        seq![Link { src: x, dst: y, edge_type }, Link { src: y, dst: x, edge_type }]
    } else {
        seq![]
    }
}

/// The links that each item of `s` gives, one after the other.
pub open spec fn gathered<A>(s: Seq<A>, f: spec_fn(A) -> Seq<Link>) -> Seq<Link>
    decreases s.len(),
{
    if s.len() == 0 {
        seq![]
    } else {
        gathered(s.drop_last(), f) + f(s.last())
    }
}

pub proof fn lemma_gathered_step<A>(s: Seq<A>, f: spec_fn(A) -> Seq<Link>, i: int)
    requires
        0 <= i < s.len(),
    ensures
        gathered(s.take(i + 1), f) == gathered(s.take(i), f) + f(s[i]),
{
    assert(s.take(i + 1).drop_last() =~= s.take(i));
}

/// Every gathered link comes from an item.
pub proof fn lemma_gathered_from<A>(s: Seq<A>, f: spec_fn(A) -> Seq<Link>, l: Link)
    ensures
        gathered(s, f).contains(l) == exists|i: int|
            0 <= i < s.len() && f(#[trigger] s[i]).contains(l),
    decreases s.len(),
{
    if s.len() > 0 {
        let t = s.drop_last();
        let n = s.len() - 1;
        lemma_gathered_from(t, f, l);
        lemma_joined_holds(gathered(t, f), f(s.last()), l);
        assert(forall|i: int| 0 <= i < n ==> #[trigger] t[i] == s[i]);
        assert(s[n] == s.last());
        if exists|i: int| 0 <= i < s.len() && f(#[trigger] s[i]).contains(l) {
            let i = choose|i: int| 0 <= i < s.len() && f(#[trigger] s[i]).contains(l);
            if i < n {
                assert(f(t[i]).contains(l));
            }
        }
        if gathered(t, f).contains(l) {
            let i = choose|i: int| 0 <= i < t.len() && f(#[trigger] t[i]).contains(l);
            assert(f(s[i]).contains(l));
        }
        if f(s.last()).contains(l) {
            assert(f(s[n]).contains(l));
        }
    }
}

pub proof fn lemma_joined_holds<A>(x: Seq<A>, y: Seq<A>, e: A)
    ensures
        (x + y).contains(e) == (x.contains(e) || y.contains(e)),
{
    if x.contains(e) {
        let k = choose|k: int| 0 <= k < x.len() && x[k] == e;
        assert((x + y)[k] == e);
    }
    if y.contains(e) {
        let k = choose|k: int| 0 <= k < y.len() && y[k] == e;
        assert((x + y)[x.len() + k] == e);
    }
    if (x + y).contains(e) {
        let k = choose|k: int| 0 <= k < (x + y).len() && (x + y)[k] == e;
        if k < x.len() {
            assert(x[k] == e);
        } else {
            assert(y[k - x.len()] == e);
        }
    }
}

/// The links of `s`, each once, at its first place.
pub open spec fn distinct(s: Seq<Link>) -> Seq<Link>
    decreases s.len(),
{
    if s.len() == 0 {
        seq![]
    } else if s.drop_last().contains(s.last()) {
        distinct(s.drop_last())
    } else {
        distinct(s.drop_last()).push(s.last())
    }
}

/// Each link is there once.
pub proof fn distinct_holds_each_once(s: Seq<Link>)
    ensures
        distinct(s).no_duplicates(),
        forall|l: Link| #[trigger] distinct(s).contains(l) == s.contains(l),
    decreases s.len(),
{
    if s.len() > 0 {
        let t = s.drop_last();
        let e = s.last();
        distinct_holds_each_once(t);
        let d = distinct(t);
        assert forall|l: Link| #[trigger] distinct(s).contains(l) == s.contains(l) by {
            assert(s =~= t + seq![e]);
            lemma_joined_holds(t, seq![e], l);
            if seq![e].contains(l) {
                assert(l == e);
            }
            assert(d.contains(l) == t.contains(l));
            if !t.contains(e) {
                assert(d.push(e) =~= d + seq![e]);
                lemma_joined_holds(d, seq![e], l);
            }
            assert(seq![e][0] == e);
        }
        if !t.contains(e) {
            assert(!d.contains(e));
            assert(d.push(e).no_duplicates());
        }
    } else {
        assert(distinct(s) =~= s);
    }
}

/// The edge that a link becomes.
pub open spec fn edge_of(l: Link) -> OutEdge {
    OutEdge { dest: l.dst, edge_type: l.edge_type, weight: l.edge_type.weight() }
}

/// The graph with each link of `s` as an edge of its standard weight.
pub open spec fn with_links(g: Map<Topic, Seq<OutEdge>>, s: Seq<Link>) -> Map<Topic, Seq<OutEdge>>
    decreases s.len(),
{
    if s.len() == 0 {
        g
    } else {
        with_edge(with_links(g, s.drop_last()), s.last().src, edge_of(s.last()))
    }
}

/// Links that leave `src`.
pub open spec fn leaves(src: Topic) -> spec_fn(Link) -> bool {
    |l: Link| l.src == src
}

/// The edges of a topic are its links, in their order, after the edges that were
/// there before.
pub proof fn edges_are_the_links(g: Map<Topic, Seq<OutEdge>>, s: Seq<Link>, src: Topic)
    ensures
        edges_from(with_links(g, s), src) == edges_from(g, src) + s.filter(leaves(src)).map_values(
            |l: Link| edge_of(l),
        ),
    decreases s.len(),
{
    reveal(Seq::filter);
    let f = leaves(src);
    let h = |l: Link| edge_of(l);
    if s.len() > 0 {
        let t = s.drop_last();
        let e = s.last();
        edges_are_the_links(g, t, src);
        if e.src == src {
            assert(s.filter(f).map_values(h) =~= t.filter(f).map_values(h).push(edge_of(e)));
            assert(edges_from(with_links(g, s), src) =~= edges_from(g, src) + s.filter(
                f,
            ).map_values(h));
        }
    } else {
        assert(edges_from(g, src) + s.filter(f).map_values(h) =~= edges_from(g, src));
    }
}

/// A link may stand: it leads from a topic to another, which has a name.
pub open spec fn may_stand(a: &AuditData, l: Link) -> bool {
    l.src != l.dst && is_named(a, l.dst)
}

/// Links that may stand, with the way back for each relationship that runs both
/// ways.
pub open spec fn sound_links(a: &AuditData, s: Seq<Link>) -> bool {
    &&& forall|l: Link| #[trigger] s.contains(l) ==> may_stand(a, l)
    &&& forall|l: Link| #[trigger]
        s.contains(l) && l.edge_type.both_ways() ==> s.contains(
            Link { src: l.dst, dst: l.src, edge_type: l.edge_type },
        )
}

pub proof fn lemma_one_way_sound(a: &AuditData, src: Topic, dst: Topic, edge_type: EdgeType)
    requires
        !edge_type.both_ways(),
    ensures
        sound_links(a, one_way(a, src, dst, edge_type)),
{
}

pub proof fn lemma_both_ways_sound(a: &AuditData, x: Topic, y: Topic, edge_type: EdgeType)
    ensures
        sound_links(a, both_ways(a, x, y, edge_type)),
{
    let s = both_ways(a, x, y, edge_type);
    if s.len() > 0 {
        assert(s[0] == (Link { src: x, dst: y, edge_type }));
        assert(s[1] == (Link { src: y, dst: x, edge_type }));
    }
}

pub proof fn lemma_joined_sound(a: &AuditData, x: Seq<Link>, y: Seq<Link>)
    requires
        sound_links(a, x),
        sound_links(a, y),
    ensures
        sound_links(a, x + y),
{
    assert forall|l: Link| #[trigger] (x + y).contains(l) implies may_stand(a, l) && (
    l.edge_type.both_ways() ==> (x + y).contains(
        Link { src: l.dst, dst: l.src, edge_type: l.edge_type },
    )) by {
        let back = Link { src: l.dst, dst: l.src, edge_type: l.edge_type };
        lemma_joined_holds(x, y, l);
        lemma_joined_holds(x, y, back);
    }
}

pub proof fn lemma_gathered_sound<A>(a: &AuditData, s: Seq<A>, f: spec_fn(A) -> Seq<Link>)
    requires
        forall|i: int| 0 <= i < s.len() ==> sound_links(a, f(#[trigger] s[i])),
    ensures
        sound_links(a, gathered(s, f)),
    decreases s.len(),
{
    if s.len() > 0 {
        let t = s.drop_last();
        assert(forall|i: int| 0 <= i < t.len() ==> #[trigger] t[i] == s[i]);
        lemma_gathered_sound(a, t, f);
        assert(s[s.len() - 1] == s.last());
        lemma_joined_sound(a, gathered(t, f), f(s.last()));
    }
}

pub proof fn lemma_distinct_sound(a: &AuditData, s: Seq<Link>)
    requires
        sound_links(a, s),
    ensures
        sound_links(a, distinct(s)),
{
    distinct_holds_each_once(s);
    assert forall|l: Link| #[trigger] distinct(s).contains(l) && l.edge_type.both_ways() implies distinct(
        s,
    ).contains(Link { src: l.dst, dst: l.src, edge_type: l.edge_type }) by {
        let back = Link { src: l.dst, dst: l.src, edge_type: l.edge_type };
        assert(distinct(s).contains(back) == s.contains(back));
    }
}

/// Whether `t` is a declaration with a name.
pub fn is_named_topic(a: &AuditData, t: &Topic) -> (r: bool)
    ensures
        r == is_named(a, *t),
{
    match a.topic_metadata.get(t) {
        Some(TopicMetadata::NamedTopic { .. }) => true,
        _ => false,
    }
}

/// The kind of `t`, if it is a declaration with a name.
pub fn named_kind(a: &AuditData, t: &Topic) -> (r: Option<NamedTopicKind>)
    ensures
        r == kind_of(a, *t),
{
    match a.topic_metadata.get(t) {
        Some(TopicMetadata::NamedTopic { kind, .. }) => Some(*kind),
        _ => None,
    }
}

/// Adds the link from `src` to `dst`, if it may stand.
pub fn add_directed(a: &AuditData, out: &mut Vec<Link>, src: Topic, dst: Topic, edge_type: EdgeType)
    ensures
        final(out)@ == old(out)@ + one_way(a, src, dst, edge_type),
{
    if src == dst || !is_named_topic(a, &dst) {
        assert(out@ =~= old(out)@ + one_way(a, src, dst, edge_type));
        return ;
    }
    out.push(Link { src, dst, edge_type });
    assert(out@ =~= old(out)@ + one_way(a, src, dst, edge_type));
}

/// Adds the links between `x` and `y`, if they may stand.
pub fn add_undirected(a: &AuditData, out: &mut Vec<Link>, x: Topic, y: Topic, edge_type: EdgeType)
    ensures
        final(out)@ == old(out)@ + both_ways(a, x, y, edge_type),
{
    if x == y || !is_named_topic(a, &x) || !is_named_topic(a, &y) {
        assert(out@ =~= old(out)@ + both_ways(a, x, y, edge_type));
        return ;
    }
    out.push(Link { src: x, dst: y, edge_type });
    out.push(Link { src: y, dst: x, edge_type });
    assert(out@ =~= old(out)@ + both_ways(a, x, y, edge_type));
}

/// Adds each link to the graph, once, with its standard weight.
pub fn add_links(graph: &mut ResolutionGraph, links: &Vec<Link>)
    ensures
        final(graph)@ == with_links(old(graph)@, distinct(links@)),
{
    let mut emitted: OrderedMap<Link, ()> = OrderedMap::new();
    let ghost start = graph@;
    assert(links@.take(0) =~= Seq::empty());
    for i in 0..links.len()
        invariant
            graph@ == with_links(start, distinct(links@.take(i as int))),
            forall|l: Link| #[trigger]
                emitted@.dom().contains(l) == links@.take(i as int).contains(l),
    {
        let l = links[i];
        let ghost before = links@.take(i as int);
        let ghost after = links@.take(i + 1);
        let ghost held = emitted@;
        assert(after.drop_last() =~= before);
        assert(after.last() == l);
        assert(held.dom().contains(l) == before.contains(l));
        if !emitted.contains_key(&l) {
            emitted.insert(l, ());
            graph.add_edge(l.src, l.dst, l.edge_type, l.edge_type.default_weight());
            assert(distinct(after).drop_last() =~= distinct(before));
        }
        assert forall|k: Link| #[trigger] emitted@.dom().contains(k) == after.contains(k) by {
            assert(after =~= before + seq![l]);
            lemma_joined_holds(before, seq![l], k);
            assert(seq![l].contains(k) == (k == l)) by {
                assert(seq![l][0] == l);
            }
            assert(held.dom().contains(k) == before.contains(k));
        }
    }
    assert(links@.take(links@.len() as int) =~= links@);
}

} // verus!
