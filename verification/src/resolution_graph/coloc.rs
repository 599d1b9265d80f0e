//! Resolution of ambiguous references that stand together. When the candidates of
//! two references share exactly one enclosing scope, that scope is where both
//! resolve.
use crate::domain::audit::{entries, AuditData};
use crate::domain::kinds::NamedTopicKind;
use crate::domain::lists::{any, first_index, is_first, lemma_first_index};
use crate::domain::metadata::TopicMetadata;
use crate::domain::queries::{ancestor_chain, scope_ancestor_chain};
use crate::domain::topic::Topic;
use crate::ordered::lookup;
use crate::sorting::lemma_same_members;
use vstd::prelude::*;

verus! {

/// An ambiguous reference with its candidates.
#[derive(Debug, Clone)]
pub struct CoLocInput<R> {
    pub ref_id: R,
    pub candidates: Vec<Topic>,
}

/// A reference with the candidate that it resolves to.
#[derive(Debug, Clone, PartialEq, Eq)]
pub struct CoLocResolution<R> {
    pub ref_id: R,
    pub chosen_topic: Topic,
    /// The scope that determined the candidate.
    pub pinned_scope: Topic,
}

/// A scope that can determine a candidate: a function, a modifier, a struct, an
/// event or an error.
pub open spec fn can_pin(meta: Seq<(Topic, TopicMetadata)>) -> spec_fn(Topic) -> bool {
    |t: Topic|
        match lookup(meta, t) {
            Some(TopicMetadata::NamedTopic { kind, .. }) => match kind {
                NamedTopicKind::Function(_) => true,
                NamedTopicKind::Modifier => true,
                NamedTopicKind::Struct => true,
                NamedTopicKind::Event => true,
                NamedTopicKind::Error => true,
                _ => false,
            },
            _ => false,
        }
}

/// The innermost scope around `t`, not `t` itself, that can determine a
/// candidate.
pub open spec fn scope_of(meta: Seq<(Topic, TopicMetadata)>, t: Topic) -> Option<Topic> {
    let around = ancestor_chain(meta, t).skip(1);
    if any(around, can_pin(meta)) {
        Some(around[first_index(around, can_pin(meta))])
    } else {
        None
    }
}

/// The innermost function, modifier, struct, event or error around a candidate.
pub fn enclosing_member_scope(audit_data: &AuditData, candidate: Topic) -> (r: Option<Topic>)
    ensures
        r == scope_of(entries(audit_data), candidate),
{
    let chain = scope_ancestor_chain(audit_data, candidate);
    let ghost p = can_pin(entries(audit_data));
    let ghost around = chain@.skip(1);
    let n: usize = chain.len();
    for i in 1..n
        invariant
            n == chain@.len(),
            around == chain@.skip(1),
            chain@ == ancestor_chain(entries(audit_data), candidate),
            p == can_pin(entries(audit_data)),
            forall|j: int| 0 <= j < i - 1 ==> !#[trigger] p(around[j]),
    {
        let ancestor = chain[i];
        assert(around[i - 1] == ancestor);
        let found = match audit_data.topic_metadata.get(&ancestor) {
            Some(TopicMetadata::NamedTopic { kind, .. }) => match kind {
                NamedTopicKind::Function(_) => true,
                NamedTopicKind::Modifier => true,
                NamedTopicKind::Struct => true,
                NamedTopicKind::Event => true,
                NamedTopicKind::Error => true,
                _ => false,
            },
            _ => false,
        };
        assert(found == p(around[i - 1]));
        if found {
            proof {
                assert(is_first(around, p, i - 1));
                lemma_first_index(around, p, i - 1);
            }
            return Some(ancestor);
        }
    }
    assert(!any(around, p));
    None
}

/// A candidate of `x` has the scope `s`.
pub open spec fn declares(meta: Seq<(Topic, TopicMetadata)>, x: Seq<Topic>, s: Topic) -> bool {
    exists|c: Topic| #[trigger] x.contains(c) && scope_of(meta, c) == Some(s)
}

/// The scope `s`, and no other, has candidates of `x` and of `y`.
pub open spec fn only_shared(
    meta: Seq<(Topic, TopicMetadata)>,
    x: Seq<Topic>,
    y: Seq<Topic>,
    s: Topic,
) -> bool {
    &&& declares(meta, x, s)
    &&& declares(meta, y, s)
    &&& forall|t: Topic| #[trigger] declares(meta, x, t) && declares(meta, y, t) ==> t == s
}

/// The candidate `c`, and no other of `x`, has the scope `s`.
pub open spec fn sole(
    meta: Seq<(Topic, TopicMetadata)>,
    x: Seq<Topic>,
    s: Topic,
    c: Topic,
) -> bool {
    &&& x.contains(c)
    &&& scope_of(meta, c) == Some(s)
    &&& forall|d: Topic| #[trigger] x.contains(d) && scope_of(meta, d) == Some(s) ==> d == c
}

/// Standing together with a reference with candidates `y` pins a reference with
/// candidates `x` to `c`, in the scope `s`.
pub open spec fn pins(
    meta: Seq<(Topic, TopicMetadata)>,
    x: Seq<Topic>,
    y: Seq<Topic>,
    c: Topic,
    s: Topic,
) -> bool {
    &&& only_shared(meta, x, y, s)
    &&& sole(meta, x, s, c)
    &&& exists|d: Topic| sole(meta, y, s, d)
}

/// Another reference pins reference `i` to `c`.
pub open spec fn is_pinned(
    meta: Seq<(Topic, TopicMetadata)>,
    refs: Seq<Seq<Topic>>,
    i: int,
    c: Topic,
) -> bool {
    exists|j: int, s: Topic|
        0 <= j < refs.len() && j != i && #[trigger] pins(meta, refs[i], refs[j], c, s)
}

/// Reference `i` resolves to `c`: others pin it to this candidate and to no other.
pub open spec fn resolves_to(
    meta: Seq<(Topic, TopicMetadata)>,
    refs: Seq<Seq<Topic>>,
    i: int,
    c: Topic,
) -> bool {
    &&& is_pinned(meta, refs, i, c)
    &&& forall|d: Topic| #[trigger] is_pinned(meta, refs, i, d) ==> d == c
}

/// What reference `i` resolves to, if it does.
pub open spec fn resolution(
    meta: Seq<(Topic, TopicMetadata)>,
    refs: Seq<Seq<Topic>>,
    i: int,
) -> Option<Topic> {
    if exists|c: Topic| resolves_to(meta, refs, i, c) {
        Some(choose|c: Topic| resolves_to(meta, refs, i, c))
    } else {
        None
    }
}

pub open spec fn candidate_lists<R>(s: Seq<CoLocInput<R>>) -> Seq<Seq<Topic>> {
    s.map_values(|r: CoLocInput<R>| r.candidates@)
}

/// The resolution of each of the first `n` references that has one: where the
/// reference stands, its candidate and the scope.
pub open spec fn resolutions(
    meta: Seq<(Topic, TopicMetadata)>,
    refs: Seq<Seq<Topic>>,
    n: int,
) -> Seq<(int, Topic, Topic)>
    decreases n,
{
    if n <= 0 {
        seq![]
    } else {
        let rest = resolutions(meta, refs, n - 1);
        match resolution(meta, refs, n - 1) {
            Some(c) => rest.push((n - 1, c, scope_of(meta, c)->0)),
            None => rest,
        }
    }
}

/// Each candidate that has a scope, with the scope.
spec fn placed(meta: Seq<(Topic, TopicMetadata)>, x: Seq<Topic>, l: Seq<(Topic, Topic)>) -> bool {
    &&& forall|k: int|
        0 <= k < l.len() ==> x.contains((#[trigger] l[k]).1) && scope_of(meta, l[k].1) == Some(
            l[k].0,
        )
    &&& forall|c: Topic| #[trigger]
        x.contains(c) && scope_of(meta, c) is Some ==> exists|k: int|
            0 <= k < l.len() && #[trigger] l[k] == (scope_of(meta, c)->0, c)
}

fn place_candidates(audit_data: &AuditData, candidates: &Vec<Topic>) -> (r: Vec<(Topic, Topic)>)
    ensures
        placed(entries(audit_data), candidates@, r@),
{
    let ghost meta = entries(audit_data);
    let mut out: Vec<(Topic, Topic)> = Vec::new();
    for i in 0..candidates.len()
        invariant
            meta == entries(audit_data),
            forall|k: int|
                0 <= k < out@.len() ==> candidates@.contains((#[trigger] out@[k]).1) && scope_of(
                    meta,
                    out@[k].1,
                ) == Some(out@[k].0),
            forall|j: int|
                0 <= j < i && scope_of(meta, #[trigger] candidates@[j]) is Some ==> exists|k: int|
                    0 <= k < out@.len() && #[trigger] out@[k] == (
                        scope_of(meta, candidates@[j])->0,
                        candidates@[j],
                    ),
    {
        let c = candidates[i];
        let ghost before = out@;
        assert(candidates@.contains(candidates@[i as int]));
        if let Some(s) = enclosing_member_scope(audit_data, c) {
            out.push((s, c));
            assert(out@[before.len() as int] == (s, c));
        }
        assert forall|j: int|
            0 <= j < i + 1 && scope_of(meta, #[trigger] candidates@[j]) is Some implies exists|
            k: int,
        |
            0 <= k < out@.len() && #[trigger] out@[k] == (
                scope_of(meta, candidates@[j])->0,
                candidates@[j],
            ) by {
            if j < i {
                let k = choose|k: int|
                    0 <= k < before.len() && #[trigger] before[k] == (
                        scope_of(meta, candidates@[j])->0,
                        candidates@[j],
                    );
                assert(out@[k] == before[k]);
            }
        }
    }
    out
}

proof fn lemma_declares(
    meta: Seq<(Topic, TopicMetadata)>,
    x: Seq<Topic>,
    l: Seq<(Topic, Topic)>,
    s: Topic,
)
    requires
        placed(meta, x, l),
    ensures
        declares(meta, x, s) == exists|k: int| 0 <= k < l.len() && (#[trigger] l[k]).0 == s,
{
    if declares(meta, x, s) {
        let c = choose|c: Topic| #[trigger] x.contains(c) && scope_of(meta, c) == Some(s);
        let k = choose|k: int| 0 <= k < l.len() && #[trigger] l[k] == (scope_of(meta, c)->0, c);
        assert(l[k].0 == s);
    }
    if exists|k: int| 0 <= k < l.len() && (#[trigger] l[k]).0 == s {
        let k = choose|k: int| 0 <= k < l.len() && (#[trigger] l[k]).0 == s;
        assert(x.contains(l[k].1));
    }
}

/// Whether a list of placed candidates has the scope.
fn has_scope(l: &Vec<(Topic, Topic)>, s: &Topic) -> (r: bool)
    ensures
        r == exists|k: int| 0 <= k < l@.len() && (#[trigger] l@[k]).0 == *s,
{
    for i in 0..l.len()
        invariant
            forall|k: int| 0 <= k < i ==> (#[trigger] l@[k]).0 != *s,
    {
        if l[i].0 == *s {
            assert(l@[i as int].0 == *s);
            return true;
        }
    }
    false
}

/// The sole candidate with the scope.
fn find_sole(
    Ghost(meta): Ghost<Seq<(Topic, TopicMetadata)>>,
    Ghost(x): Ghost<Seq<Topic>>,
    l: &Vec<(Topic, Topic)>,
    s: &Topic,
) -> (r: Option<Topic>)
    requires
        placed(meta, x, l@),
    ensures
        match r {
            Some(c) => sole(meta, x, *s, c),
            None => forall|c: Topic| !#[trigger] sole(meta, x, *s, c),
        },
{
    let mut found: Option<Topic> = None;
    for i in 0..l.len()
        invariant
            placed(meta, x, l@),
            found is None ==> forall|k: int| 0 <= k < i ==> (#[trigger] l@[k]).0 != *s,
            found is Some ==> forall|k: int|
                0 <= k < i && (#[trigger] l@[k]).0 == *s ==> l@[k].1 == found->0,
            found is Some ==> exists|k: int|
                0 <= k < i && #[trigger] l@[k] == (*s, found->0),
    {
        if l[i].0 == *s {
            let c = l[i].1;
            assert(l@[i as int] == (*s, c));
            match found {
                Some(d) => {
                    if c != d {
                        proof {
                            let k = choose|k: int| 0 <= k < i && #[trigger] l@[k] == (*s, d);
                            assert(x.contains(l@[k].1));
                            assert(x.contains(l@[i as int].1));
                            assert forall|e: Topic| !#[trigger] sole(meta, x, *s, e) by {
                                if sole(meta, x, *s, e) {
                                    assert(x.contains(c) && scope_of(meta, c) == Some(*s));
                                    assert(x.contains(d) && scope_of(meta, d) == Some(*s));
                                }
                            }
                        }
                        return None;
                    }
                },
                None => {
                    found = Some(c);
                },
            }
        }
    }
    proof {
        match found {
            Some(c) => {
                let k = choose|k: int| 0 <= k < l@.len() && #[trigger] l@[k] == (*s, c);
                assert(x.contains(l@[k].1));
                assert forall|d: Topic| #[trigger] x.contains(d) && scope_of(meta, d) == Some(
                    *s,
                ) implies d == c by {
                    let m = choose|m: int|
                        0 <= m < l@.len() && #[trigger] l@[m] == (scope_of(meta, d)->0, d);
                    assert(l@[m].0 == *s);
                }
            },
            None => {
                assert forall|c: Topic| !#[trigger] sole(meta, x, *s, c) by {
                    if sole(meta, x, *s, c) {
                        let m = choose|m: int|
                            0 <= m < l@.len() && #[trigger] l@[m] == (scope_of(meta, c)->0, c);
                        assert(l@[m].0 == *s);
                    }
                }
            },
        }
    }
    found
}

/// The scope that both lists have, if they share exactly one.
fn find_only_shared(
    Ghost(meta): Ghost<Seq<(Topic, TopicMetadata)>>,
    Ghost(x): Ghost<Seq<Topic>>,
    Ghost(y): Ghost<Seq<Topic>>,
    lx: &Vec<(Topic, Topic)>,
    ly: &Vec<(Topic, Topic)>,
) -> (r: Option<Topic>)
    requires
        placed(meta, x, lx@),
        placed(meta, y, ly@),
    ensures
        match r {
            Some(s) => only_shared(meta, x, y, s),
            None => forall|s: Topic| !#[trigger] only_shared(meta, x, y, s),
        },
{
    let mut found: Option<Topic> = None;
    for i in 0..lx.len()
        invariant
            placed(meta, x, lx@),
            placed(meta, y, ly@),
            found is None ==> forall|k: int|
                0 <= k < i ==> !declares(meta, y, (#[trigger] lx@[k]).0),
            found is Some ==> forall|k: int|
                0 <= k < i && declares(meta, y, (#[trigger] lx@[k]).0) ==> lx@[k].0 == found->0,
            found is Some ==> declares(meta, x, found->0) && declares(meta, y, found->0),
    {
        let s = lx[i].0;
        proof {
            lemma_declares(meta, y, ly@, s);
            lemma_declares(meta, x, lx@, s);
            assert(lx@[i as int].0 == s);
        }
        if has_scope(ly, &s) {
            match found {
                Some(t) => {
                    if s != t {
                        assert forall|u: Topic| !#[trigger] only_shared(meta, x, y, u) by {
                            if only_shared(meta, x, y, u) {
                                assert(declares(meta, x, s) && declares(meta, y, s));
                                assert(declares(meta, x, t) && declares(meta, y, t));
                            }
                        }
                        return None;
                    }
                },
                None => {
                    found = Some(s);
                },
            }
        }
    }
    proof {
        assert forall|t: Topic| #[trigger] declares(meta, x, t) && declares(meta, y, t) implies found
            is Some && t == found->0 by {
            lemma_declares(meta, x, lx@, t);
            let k = choose|k: int| 0 <= k < lx@.len() && (#[trigger] lx@[k]).0 == t;
            assert(declares(meta, y, lx@[k].0));
        }
    }
    found
}

/// The candidate to which standing together pins the first reference.
fn find_pin(
    Ghost(meta): Ghost<Seq<(Topic, TopicMetadata)>>,
    Ghost(x): Ghost<Seq<Topic>>,
    Ghost(y): Ghost<Seq<Topic>>,
    lx: &Vec<(Topic, Topic)>,
    ly: &Vec<(Topic, Topic)>,
) -> (r: Option<Topic>)
    requires
        placed(meta, x, lx@),
        placed(meta, y, ly@),
    ensures
        match r {
            Some(c) => exists|s: Topic| #[trigger] pins(meta, x, y, c, s),
            None => forall|c: Topic, s: Topic| !#[trigger] pins(meta, x, y, c, s),
        },
{
    match find_only_shared(Ghost(meta), Ghost(x), Ghost(y), lx, ly) {
        Some(s) => {
            proof {
                assert forall|c: Topic, t: Topic| #[trigger] pins(meta, x, y, c, t) implies t
                    == s by {
                    assert(declares(meta, x, t) && declares(meta, y, t));
                }
            }
            match find_sole(Ghost(meta), Ghost(x), lx, &s) {
                Some(c) => match find_sole(Ghost(meta), Ghost(y), ly, &s) {
                    Some(d) => {
                        assert(pins(meta, x, y, c, s));
                        Some(c)
                    },
                    None => None,
                },
                None => None,
            }
        },
        None => None,
    }
}

/// The candidate to which a reference resolves.
fn find_resolution(
    Ghost(meta): Ghost<Seq<(Topic, TopicMetadata)>>,
    Ghost(refs): Ghost<Seq<Seq<Topic>>>,
    lists: &Vec<Vec<(Topic, Topic)>>,
    i: usize,
) -> (r: Option<Topic>)
    requires
        lists@.len() == refs.len(),
        i < refs.len(),
        forall|k: int| 0 <= k < refs.len() ==> placed(meta, #[trigger] refs[k], lists@[k]@),
    ensures
        match r {
            Some(c) => resolves_to(meta, refs, i as int, c),
            None => forall|c: Topic| !#[trigger] resolves_to(meta, refs, i as int, c),
        },
{
    let mut pin: Option<Topic> = None;
    let n: usize = lists.len();
    for j in 0..n
        invariant
            n == lists@.len(),
            lists@.len() == refs.len(),
            i < refs.len(),
            forall|k: int| 0 <= k < refs.len() ==> placed(meta, #[trigger] refs[k], lists@[k]@),
            pin is None ==> forall|k: int, c: Topic, s: Topic|
                0 <= k < j && k != i ==> !#[trigger] pins(
                    meta,
                    refs[i as int],
                    refs[k],
                    c,
                    s,
                ),
            pin is Some ==> is_pinned(meta, refs, i as int, pin->0),
            pin is Some ==> forall|k: int, c: Topic, s: Topic|
                0 <= k < j && k != i && #[trigger] pins(meta, refs[i as int], refs[k], c, s)
                    ==> c == pin->0,
    {
        if j != i {
            let found = find_pin(
                Ghost(meta),
                Ghost(refs[i as int]),
                Ghost(refs[j as int]),
                &lists[i],
                &lists[j],
            );
            if let Some(c) = found {
                proof {
                    let s = choose|s: Topic| #[trigger]
                        pins(meta, refs[i as int], refs[j as int], c, s);
                    assert(pins(meta, refs[i as int], refs[j as int], c, s));
                    assert(is_pinned(meta, refs, i as int, c));
                    assert forall|d: Topic, t: Topic| #[trigger]
                        pins(meta, refs[i as int], refs[j as int], d, t) implies d == c by {
                        assert(declares(meta, refs[i as int], t) && declares(
                            meta,
                            refs[j as int],
                            t,
                        ));
                        assert(t == s);
                        assert(refs[i as int].contains(d));
                    }
                }
                match pin {
                    Some(b) => {
                        if b != c {
                            assert forall|e: Topic| !#[trigger] resolves_to(
                                meta,
                                refs,
                                i as int,
                                e,
                            ) by {
                                if resolves_to(meta, refs, i as int, e) {
                                    assert(is_pinned(meta, refs, i as int, b));
                                    assert(is_pinned(meta, refs, i as int, c));
                                }
                            }
                            return None;
                        }
                    },
                    None => {
                        pin = Some(c);
                    },
                }
            }
        }
    }
    proof {
        match pin {
            Some(c) => {
                assert forall|d: Topic| #[trigger] is_pinned(meta, refs, i as int, d) implies d
                    == c by {
                    let (k, s) = choose|k: int, s: Topic|
                        0 <= k < refs.len() && k != i && #[trigger] pins(
                            meta,
                            refs[i as int],
                            refs[k],
                            d,
                            s,
                        );
                }
            },
            None => {
                assert forall|c: Topic| !#[trigger] resolves_to(meta, refs, i as int, c) by {
                    if resolves_to(meta, refs, i as int, c) {
                        let (k, s) = choose|k: int, s: Topic|
                            0 <= k < refs.len() && k != i && #[trigger] pins(
                                meta,
                                refs[i as int],
                                refs[k],
                                c,
                                s,
                            );
                    }
                }
            },
        }
    }
    pin
}

/// Resolves the references that standing together pins to one candidate. A
/// reference that is pinned to two different candidates stays unresolved.
pub fn co_locate<R: Clone>(audit_data: &AuditData, refs: &[CoLocInput<R>]) -> (r: Vec<
    CoLocResolution<R>,
>)
    ensures
        ({
            let s = resolutions(entries(audit_data), candidate_lists(refs@), refs@.len() as int);
            &&& r@.len() == s.len()
            &&& forall|k: int|
                #![trigger r@[k]]
                0 <= k < s.len() ==> {
                    &&& 0 <= s[k].0 < refs@.len()
                    &&& cloned(refs@[s[k].0].ref_id, r@[k].ref_id)
                    &&& r@[k].chosen_topic == s[k].1
                    &&& r@[k].pinned_scope == s[k].2
                }
        }),
{
    let ghost meta = entries(audit_data);
    let ghost lists = candidate_lists(refs@);
    let n: usize = refs.len();
    let mut out: Vec<CoLocResolution<R>> = Vec::new();
    let mut places: Vec<Vec<(Topic, Topic)>> = Vec::new();
    for i in 0..n
        invariant
            n == refs@.len(),
            meta == entries(audit_data),
            lists == candidate_lists(refs@),
            places@.len() == i,
            forall|k: int| 0 <= k < i ==> placed(meta, #[trigger] lists[k], places@[k]@),
    {
        places.push(place_candidates(audit_data, &refs[i].candidates));
        assert(lists[i as int] == refs@[i as int].candidates@);
    }
    for i in 0..n
        invariant
            n == refs@.len(),
            meta == entries(audit_data),
            lists == candidate_lists(refs@),
            places@.len() == n,
            lists.len() == n,
            forall|k: int| 0 <= k < n ==> placed(meta, #[trigger] lists[k], places@[k]@),
            out@.len() == resolutions(meta, lists, i as int).len(),
            forall|k: int|
                #![trigger out@[k]]
                0 <= k < out@.len() ==> {
                    let s = resolutions(meta, lists, i as int);
                    &&& 0 <= s[k].0 < refs@.len()
                    &&& cloned(refs@[s[k].0].ref_id, out@[k].ref_id)
                    &&& out@[k].chosen_topic == s[k].1
                    &&& out@[k].pinned_scope == s[k].2
                },
    {
        let ghost before = out@;
        let ghost was = resolutions(meta, lists, i as int);
        let ghost now = resolutions(meta, lists, i + 1);
        let found = find_resolution(Ghost(meta), Ghost(lists), &places, i);
        if let Some(c) = found {
            proof {
                let d = choose|d: Topic| resolves_to(meta, lists, i as int, d);
                assert(resolves_to(meta, lists, i as int, c));
                assert(d == c);
                lemma_pinned_has_scope(meta, lists, i as int, c);
            }
            if let Some(s) = enclosing_member_scope(audit_data, c) {
                let id = refs[i].ref_id.clone();
                out.push(CoLocResolution { ref_id: id, chosen_topic: c, pinned_scope: s });
                assert(now == was.push((i as int, c, s)));
                assert forall|k: int| #![trigger out@[k]] 0 <= k < out@.len() implies {
                    &&& 0 <= now[k].0 < refs@.len()
                    &&& cloned(refs@[now[k].0].ref_id, out@[k].ref_id)
                    &&& out@[k].chosen_topic == now[k].1
                    &&& out@[k].pinned_scope == now[k].2
                } by {
                    if k < before.len() {
                        assert(out@[k] == before[k]);
                        assert(now[k] == was[k]);
                    }
                }
            }
        } else {
            assert(now == was);
        }
    }
    out
}

proof fn lemma_pinned_has_scope(
    meta: Seq<(Topic, TopicMetadata)>,
    refs: Seq<Seq<Topic>>,
    i: int,
    c: Topic,
)
    requires
        is_pinned(meta, refs, i, c),
    ensures
        scope_of(meta, c) is Some,
{
    let (j, s) = choose|j: int, s: Topic|
        0 <= j < refs.len() && j != i && #[trigger] pins(meta, refs[i], refs[j], c, s);
    assert(sole(meta, refs[i], s, c));
}

/// Pinning is mutual: where one reference is pinned by another, that one is
/// pinned too, in the same scope.
pub proof fn pinning_is_mutual(
    meta: Seq<(Topic, TopicMetadata)>,
    x: Seq<Topic>,
    y: Seq<Topic>,
    c: Topic,
    s: Topic,
)
    requires
        pins(meta, x, y, c, s),
    ensures
        exists|d: Topic| #[trigger] pins(meta, y, x, d, s),
{
    let d = choose|d: Topic| sole(meta, y, s, d);
    assert forall|t: Topic| #[trigger] declares(meta, y, t) && declares(meta, x, t) implies t
        == s by {
        assert(declares(meta, x, t));
    }
    assert(only_shared(meta, y, x, s));
    assert(pins(meta, y, x, d, s));
}

/// A reference that stands alone stays unresolved.
pub proof fn alone_stays_unresolved(
    meta: Seq<(Topic, TopicMetadata)>,
    refs: Seq<Seq<Topic>>,
    n: int,
)
    requires
        n <= refs.len() < 2,
    ensures
        resolutions(meta, refs, n).len() == 0,
    decreases n,
{
    if n > 0 {
        alone_stays_unresolved(meta, refs, n - 1);
        let i = n - 1;
        assert forall|c: Topic| !#[trigger] resolves_to(meta, refs, i, c) by {
            assert(!is_pinned(meta, refs, i, c));
        }
    }
}

/// A reference resolves to one of its candidates, and the scope of a resolution
/// encloses that candidate.
pub proof fn resolutions_are_candidates(
    meta: Seq<(Topic, TopicMetadata)>,
    refs: Seq<Seq<Topic>>,
    n: int,
    k: int,
)
    requires
        0 <= n <= refs.len(),
        0 <= k < resolutions(meta, refs, n).len(),
    ensures
        ({
            let (i, c, s) = resolutions(meta, refs, n)[k];
            &&& 0 <= i < n
            &&& refs[i].contains(c)
            &&& scope_of(meta, c) == Some(s)
            &&& resolves_to(meta, refs, i, c)
        }),
    decreases n,
{
    if n > 0 {
        let rest = resolutions(meta, refs, n - 1);
        if k < rest.len() {
            resolutions_are_candidates(meta, refs, n - 1, k);
        } else {
            let c = resolution(meta, refs, n - 1)->0;
            assert(resolves_to(meta, refs, n - 1, c));
            lemma_pinned_has_scope(meta, refs, n - 1, c);
            let (j, s) = choose|j: int, s: Topic|
                0 <= j < refs.len() && j != n - 1 && #[trigger] pins(
                    meta,
                    refs[n - 1],
                    refs[j],
                    c,
                    s,
                );
            assert(sole(meta, refs[n - 1], s, c));
        }
    }
}

/// The same candidates, in any order and any number of times.
pub open spec fn same_candidates(x: Seq<Topic>, y: Seq<Topic>) -> bool {
    forall|c: Topic| #[trigger] x.contains(c) <==> y.contains(c)
}

/// Each reference of `a` is among those of `b`, with the same candidates.
pub open spec fn are_among<R>(a: Seq<CoLocInput<R>>, b: Seq<CoLocInput<R>>) -> bool {
    forall|i: int| 0 <= i < a.len() ==> is_among(#[trigger] a[i], b)
}

pub open spec fn is_among<R>(x: CoLocInput<R>, b: Seq<CoLocInput<R>>) -> bool {
    exists|j: int|
        0 <= j < b.len() && (#[trigger] b[j]).ref_id == x.ref_id && same_candidates(
            x.candidates@,
            b[j].candidates@,
        )
}

pub open spec fn ids_differ<R>(a: Seq<CoLocInput<R>>) -> bool {
    forall|i: int, j: int|
        0 <= i < j < a.len() ==> (#[trigger] a[i]).ref_id != (#[trigger] a[j]).ref_id
}

/// What the resolutions tell, with each reference by its identifier.
pub open spec fn told<R>(meta: Seq<(Topic, TopicMetadata)>, refs: Seq<CoLocInput<R>>) -> Seq<
    (R, Topic, Topic),
> {
    resolutions(meta, candidate_lists(refs), refs.len() as int).map_values(
        |e: (int, Topic, Topic)| (refs[e.0].ref_id, e.1, e.2),
    )
}

/// The references come in any order, and so do the candidates of each, which may
/// be repeated: the same references resolve to the same candidates.
pub proof fn order_of_references_does_not_matter<R>(
    meta: Seq<(Topic, TopicMetadata)>,
    a: Seq<CoLocInput<R>>,
    b: Seq<CoLocInput<R>>,
)
    requires
        ids_differ(a),
        ids_differ(b),
        are_among(a, b),
        are_among(b, a),
    ensures
        told(meta, a).to_multiset() == told(meta, b).to_multiset(),
{
    let x = told(meta, a);
    let y = told(meta, b);
    lemma_told_once(meta, a);
    lemma_told_once(meta, b);
    assert forall|e: (R, Topic, Topic)| #[trigger] x.contains(e) == y.contains(e) by {
        if x.contains(e) {
            lemma_told_by_both(meta, a, b, e);
        }
        if y.contains(e) {
            lemma_told_by_both(meta, b, a, e);
        }
    }
    lemma_same_members(x, y);
}

/// The resolutions stand in the order of their references, each once.
pub proof fn resolutions_keep_the_order(
    meta: Seq<(Topic, TopicMetadata)>,
    refs: Seq<Seq<Topic>>,
    n: int,
)
    requires
        0 <= n <= refs.len(),
    ensures
        forall|k: int, m: int|
            0 <= k < m < resolutions(meta, refs, n).len() ==> (#[trigger] resolutions(
                meta,
                refs,
                n,
            )[k]).0 < (#[trigger] resolutions(meta, refs, n)[m]).0,
    decreases n,
{
    if n > 0 {
        resolutions_keep_the_order(meta, refs, n - 1);
        let rest = resolutions(meta, refs, n - 1);
        let all = resolutions(meta, refs, n);
        assert forall|k: int, m: int| 0 <= k < m < all.len() implies (#[trigger] all[k]).0 < (
        #[trigger] all[m]).0 by {
            assert(all[k] == rest[k]);
            resolutions_are_candidates(meta, refs, n - 1, k);
            if m < rest.len() {
                assert(all[m] == rest[m]);
            }
        }
    }
}

proof fn lemma_told_once<R>(meta: Seq<(Topic, TopicMetadata)>, a: Seq<CoLocInput<R>>)
    requires
        ids_differ(a),
    ensures
        told(meta, a).no_duplicates(),
{
    let lists = candidate_lists(a);
    let n = a.len() as int;
    let all = resolutions(meta, lists, n);
    resolutions_keep_the_order(meta, lists, n);
    assert forall|k: int, m: int| 0 <= k < m < all.len() implies told(meta, a)[k] != told(
        meta,
        a,
    )[m] by {
        resolutions_are_candidates(meta, lists, n, k);
        resolutions_are_candidates(meta, lists, n, m);
        assert(all[k].0 < all[m].0);
        assert(a[all[k].0].ref_id != a[all[m].0].ref_id);
    }
}

/// Each reference that resolves is among the resolutions.
proof fn lemma_is_told(
    meta: Seq<(Topic, TopicMetadata)>,
    refs: Seq<Seq<Topic>>,
    n: int,
    i: int,
)
    requires
        0 <= i < n <= refs.len(),
        resolution(meta, refs, i) is Some,
    ensures
        resolutions(meta, refs, n).contains(
            (i, resolution(meta, refs, i)->0, scope_of(meta, resolution(meta, refs, i)->0)->0),
        ),
    decreases n,
{
    let all = resolutions(meta, refs, n);
    let c = resolution(meta, refs, i)->0;
    let e = (i, c, scope_of(meta, c)->0);
    if i < n - 1 {
        lemma_is_told(meta, refs, n - 1, i);
        let rest = resolutions(meta, refs, n - 1);
        let k = choose|k: int| 0 <= k < rest.len() && rest[k] == e;
        assert(all[k] == e);
    } else {
        assert(all[all.len() - 1] == e);
    }
}

proof fn lemma_told_by_both<R>(
    meta: Seq<(Topic, TopicMetadata)>,
    a: Seq<CoLocInput<R>>,
    b: Seq<CoLocInput<R>>,
    e: (R, Topic, Topic),
)
    requires
        ids_differ(a),
        ids_differ(b),
        are_among(a, b),
        are_among(b, a),
        told(meta, a).contains(e),
    ensures
        told(meta, b).contains(e),
{
    let x = candidate_lists(a);
    let y = candidate_lists(b);
    let all = resolutions(meta, x, a.len() as int);
    let k = choose|k: int| 0 <= k < told(meta, a).len() && told(meta, a)[k] == e;
    resolutions_are_candidates(meta, x, a.len() as int, k);
    let (i, c, s) = all[k];
    assert(is_among(a[i], b));
    let j = choose|j: int|
        0 <= j < b.len() && (#[trigger] b[j]).ref_id == a[i].ref_id && same_candidates(
            a[i].candidates@,
            b[j].candidates@,
        );
    assert forall|d: Topic| is_pinned(meta, x, i, d) == is_pinned(meta, y, j, d) by {
        lemma_pinned_in_both(meta, a, b, i, j, d);
        lemma_pinned_in_both(meta, b, a, j, i, d);
    }
    assert(resolves_to(meta, y, j, c)) by {
        assert(is_pinned(meta, y, j, c));
        assert forall|d: Topic| #[trigger] is_pinned(meta, y, j, d) implies d == c by {
            assert(is_pinned(meta, x, i, d));
        }
    }
    let d = resolution(meta, y, j)->0;
    assert(resolves_to(meta, y, j, d));
    assert(d == c);
    lemma_is_told(meta, y, b.len() as int, j);
    let other = resolutions(meta, y, b.len() as int);
    let m = choose|m: int| 0 <= m < other.len() && other[m] == (j, c, s);
    assert(told(meta, b)[m] == e);
}

proof fn lemma_pinned_in_both<R>(
    meta: Seq<(Topic, TopicMetadata)>,
    a: Seq<CoLocInput<R>>,
    b: Seq<CoLocInput<R>>,
    i: int,
    j: int,
    c: Topic,
)
    requires
        ids_differ(a),
        are_among(a, b),
        0 <= i < a.len(),
        0 <= j < b.len(),
        a[i].ref_id == b[j].ref_id,
        same_candidates(a[i].candidates@, b[j].candidates@),
    ensures
        is_pinned(meta, candidate_lists(a), i, c) ==> is_pinned(meta, candidate_lists(b), j, c),
{
    let x = candidate_lists(a);
    let y = candidate_lists(b);
    if is_pinned(meta, x, i, c) {
        let (k, s) = choose|k: int, s: Topic|
            0 <= k < x.len() && k != i && #[trigger] pins(meta, x[i], x[k], c, s);
        assert(is_among(a[k], b));
        let m = choose|m: int|
            0 <= m < b.len() && (#[trigger] b[m]).ref_id == a[k].ref_id && same_candidates(
                a[k].candidates@,
                b[m].candidates@,
            );
        assert(a[k].ref_id != a[i].ref_id) by {
            if k < i {
                assert(a[k].ref_id != a[i].ref_id);
            } else {
                assert(a[i].ref_id != a[k].ref_id);
            }
        }
        assert(m != j);
        lemma_same_pins(meta, x[i], x[k], y[j], y[m], c, s);
        assert(pins(meta, y[j], y[m], c, s));
    }
}

proof fn lemma_same_sole(
    meta: Seq<(Topic, TopicMetadata)>,
    x: Seq<Topic>,
    y: Seq<Topic>,
    s: Topic,
    c: Topic,
)
    requires
        same_candidates(x, y),
    ensures
        sole(meta, x, s, c) ==> sole(meta, y, s, c),
        declares(meta, x, s) == declares(meta, y, s),
{
    if declares(meta, x, s) {
        let d = choose|d: Topic| #[trigger] x.contains(d) && scope_of(meta, d) == Some(s);
        assert(y.contains(d));
    }
    if declares(meta, y, s) {
        let d = choose|d: Topic| #[trigger] y.contains(d) && scope_of(meta, d) == Some(s);
        assert(x.contains(d));
    }
    if sole(meta, x, s, c) {
        assert forall|d: Topic| #[trigger] y.contains(d) && scope_of(meta, d) == Some(
            s,
        ) implies d == c by {
            assert(x.contains(d));
        }
    }
}

proof fn lemma_same_pins(
    meta: Seq<(Topic, TopicMetadata)>,
    x: Seq<Topic>,
    y: Seq<Topic>,
    u: Seq<Topic>,
    v: Seq<Topic>,
    c: Topic,
    s: Topic,
)
    requires
        same_candidates(x, u),
        same_candidates(y, v),
        pins(meta, x, y, c, s),
    ensures
        pins(meta, u, v, c, s),
{
    let d = choose|d: Topic| sole(meta, y, s, d);
    lemma_same_sole(meta, x, u, s, c);
    lemma_same_sole(meta, y, v, s, d);
    assert forall|t: Topic| #[trigger] declares(meta, u, t) && declares(meta, v, t) implies t
        == s by {
        lemma_same_sole(meta, x, u, t, c);
        lemma_same_sole(meta, y, v, t, c);
        assert(declares(meta, x, t));
    }
}

} // verus!
