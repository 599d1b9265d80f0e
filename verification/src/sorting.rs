//! Stable sorting by a total preorder.
use vstd::multiset::*;
use vstd::prelude::*;
use vstd::seq_lib::*;

verus! {

/// A type whose values are ranked by a total preorder.
pub trait Ranked: Sized {
    spec fn at_most(a: Self, b: Self) -> bool;

    proof fn at_most_total(a: Self, b: Self)
        ensures
            Self::at_most(a, b) || Self::at_most(b, a),
    ;

    proof fn at_most_transitive(a: Self, b: Self, c: Self)
        requires
            Self::at_most(a, b),
            Self::at_most(b, c),
        ensures
            Self::at_most(a, c),
    ;

    /// Whether this value ranks no higher than `other`.
    fn ranks_at_most(&self, other: &Self) -> (r: bool)
        ensures
            r == Self::at_most(*self, *other),
    ;
}

/// Two values of the same rank.
pub open spec fn same_rank<T: Ranked>(a: T, b: T) -> bool {
    T::at_most(a, b) && T::at_most(b, a)
}

pub open spec fn in_rank_order<T: Ranked>(s: Seq<T>) -> bool {
    forall|i: int, j: int| 0 <= i < j < s.len() ==> T::at_most(#[trigger] s[i], #[trigger] s[j])
}

/// How many items of `s` rank no higher than `e`.
pub open spec fn rank_place<T: Ranked>(s: Seq<T>, e: T) -> int
    decreases s.len(),
{
    if s.len() == 0 {
        0
    } else {
        rank_place(s.drop_last(), e) + if T::at_most(s.last(), e) {
            1int
        } else {
            0int
        }
    }
}

/// `s` in rank order. Items of the same rank keep their order.
pub open spec fn stable_sorted<T: Ranked>(s: Seq<T>) -> Seq<T>
    decreases s.len(),
{
    if s.len() == 0 {
        s
    } else {
        let rest = stable_sorted(s.drop_last());
        rest.insert(rank_place(rest, s.last()), s.last())
    }
}

proof fn lemma_rank_place_is<T: Ranked>(s: Seq<T>, e: T, p: int)
    requires
        0 <= p <= s.len(),
        forall|i: int| 0 <= i < p ==> T::at_most(#[trigger] s[i], e),
        forall|i: int| p <= i < s.len() ==> !T::at_most(#[trigger] s[i], e),
    ensures
        rank_place(s, e) == p,
    decreases s.len(),
{
    if s.len() > 0 {
        let t = s.drop_last();
        let n = s.len() - 1;
        assert(forall|i: int| 0 <= i < n ==> #[trigger] t[i] == s[i]);
        if p == s.len() {
            lemma_rank_place_is(t, e, p - 1);
            assert(T::at_most(s[n], e));
        } else {
            lemma_rank_place_is(t, e, p);
            assert(!T::at_most(s[n], e));
        }
    }
}

proof fn lemma_rank_place_splits<T: Ranked>(s: Seq<T>, e: T)
    requires
        in_rank_order(s),
    ensures
        0 <= rank_place(s, e) <= s.len(),
        forall|i: int| 0 <= i < rank_place(s, e) ==> T::at_most(#[trigger] s[i], e),
        forall|i: int| rank_place(s, e) <= i < s.len() ==> !T::at_most(#[trigger] s[i], e),
    decreases s.len(),
{
    if s.len() > 0 {
        let t = s.drop_last();
        let n = s.len() - 1;
        assert(forall|i: int| 0 <= i < n ==> #[trigger] t[i] == s[i]);
        assert(in_rank_order(t));
        lemma_rank_place_splits(t, e);
        if T::at_most(s[n], e) {
            assert forall|i: int| 0 <= i < s.len() implies T::at_most(#[trigger] s[i], e) by {
                if i < n {
                    T::at_most_transitive(s[i], s[n], e);
                }
            }
            lemma_rank_place_is(s, e, s.len() as int);
        } else {
            let p = rank_place(t, e);
            assert forall|i: int| 0 <= i < p implies T::at_most(#[trigger] s[i], e) by {
                assert(t[i] == s[i]);
            }
            assert forall|i: int| p <= i < s.len() implies !T::at_most(#[trigger] s[i], e) by {
                if i < n {
                    assert(t[i] == s[i]);
                }
            }
        }
    }
}

proof fn lemma_insert_ranked<T: Ranked>(s: Seq<T>, e: T)
    requires
        in_rank_order(s),
    ensures
        0 <= rank_place(s, e) <= s.len(),
        in_rank_order(s.insert(rank_place(s, e), e)),
{
    lemma_rank_place_splits(s, e);
    let p = rank_place(s, e);
    let r = s.insert(p, e);
    assert forall|i: int, j: int| 0 <= i < j < r.len() implies T::at_most(
        #[trigger] r[i],
        #[trigger] r[j],
    ) by {
        let i0 = if i < p {
            i
        } else {
            i - 1
        };
        let j0 = if j < p {
            j
        } else {
            j - 1
        };
        if i == p {
            assert(!T::at_most(s[j0], e));
            T::at_most_total(s[j0], e);
        } else if j == p {
            assert(T::at_most(s[i0], e));
        } else {
            assert(T::at_most(s[i0], s[j0]));
        }
    }
}

/// Sorting puts the items in rank order and keeps each of them.
pub proof fn stable_sorted_is_sorted<T: Ranked>(s: Seq<T>)
    ensures
        in_rank_order(stable_sorted(s)),
        stable_sorted(s).to_multiset() == s.to_multiset(),
        stable_sorted(s).len() == s.len(),
    decreases s.len(),
{
    if s.len() > 0 {
        let t = s.drop_last();
        let rest = stable_sorted(t);
        stable_sorted_is_sorted(t);
        lemma_insert_ranked(rest, s.last());
        broadcast use group_to_multiset_ensures;

        assert(s =~= t.push(s.last()));
        let p = rank_place(rest, s.last());
        to_multiset_insert(rest, p, s.last());
        to_multiset_build(t, s.last());
    }
}

/// Items that stand in rank order stay where they are.
pub proof fn sorting_sorted_changes_nothing<T: Ranked>(s: Seq<T>)
    requires
        in_rank_order(s),
    ensures
        stable_sorted(s) == s,
    decreases s.len(),
{
    if s.len() > 0 {
        let t = s.drop_last();
        let n = s.len() - 1;
        assert(forall|i: int| 0 <= i < n ==> #[trigger] t[i] == s[i]);
        assert(in_rank_order(t));
        sorting_sorted_changes_nothing(t);
        assert forall|i: int| 0 <= i < n implies T::at_most(#[trigger] t[i], s.last()) by {
            assert(T::at_most(s[i], s[n]));
        }
        lemma_rank_place_is(t, s.last(), n);
        assert(t.insert(n, s.last()) =~= s);
    }
}

/// Items of the same rank keep their order.
pub proof fn sorting_is_stable<T: Ranked>(s: Seq<T>, e: T)
    ensures
        stable_sorted(s).filter(|x: T| same_rank(x, e)) == s.filter(|x: T| same_rank(x, e)),
    decreases s.len(),
{
    let f = |x: T| same_rank(x, e);
    if s.len() > 0 {
        let t = s.drop_last();
        let y = s.last();
        let rest = stable_sorted(t);
        sorting_is_stable(t, e);
        stable_sorted_is_sorted(t);
        lemma_rank_place_splits(rest, y);
        let p = rank_place(rest, y);
        assert(s =~= t.push(y));
        t.lemma_filter_push(y, f);
        let a = rest.take(p);
        let b = rest.skip(p);
        assert(rest =~= a + b);
        Seq::filter_distributes_over_add(a, b, f);
        let sorted = stable_sorted(s);
        assert(sorted =~= a.push(y) + b);
        Seq::filter_distributes_over_add(a.push(y), b, f);
        a.lemma_filter_push(y, f);
        if f(y) {
            assert forall|i: int| 0 <= i < b.len() implies !#[trigger] f(b[i]) by {
                assert(b[i] == rest[p + i]);
                assert(!T::at_most(rest[p + i], y));
                if f(b[i]) {
                    T::at_most_transitive(b[i], e, y);
                }
            }
            b.lemma_all_neg_filter_empty(f);
            assert(b.filter(f) =~= seq![]);
            assert(a.filter(f).push(y) + b.filter(f) =~= (a.filter(f) + b.filter(f)).push(y));
        }
    }
}

/// Where items of the same rank are equal, the order in which they came does not
/// count: the same items sort to the same sequence.
pub proof fn sorting_forgets_arrival_order<T: Ranked>(a: Seq<T>, b: Seq<T>)
    requires
        a.to_multiset() == b.to_multiset(),
        forall|x: T, y: T|
            a.contains(x) && a.contains(y) && #[trigger] same_rank(x, y) ==> x == y,
    ensures
        stable_sorted(a) == stable_sorted(b),
{
    stable_sorted_is_sorted(a);
    stable_sorted_is_sorted(b);
    let s = stable_sorted(a);
    let t = stable_sorted(b);
    assert forall|x: T| #[trigger] s.contains(x) implies a.contains(x) by {
        broadcast use group_to_multiset_ensures;

        assert(s.to_multiset().count(x) > 0);
        assert(a.to_multiset().count(x) > 0);
    }
    lemma_sorted_is_determined(s, t);
}

proof fn lemma_sorted_is_determined<T: Ranked>(s: Seq<T>, t: Seq<T>)
    requires
        in_rank_order(s),
        in_rank_order(t),
        s.to_multiset() == t.to_multiset(),
        forall|x: T, y: T|
            s.contains(x) && s.contains(y) && #[trigger] same_rank(x, y) ==> x == y,
    ensures
        s == t,
    decreases s.len(),
{
    broadcast use group_to_multiset_ensures;

    assert(s.len() == s.to_multiset().len());
    assert(t.len() == t.to_multiset().len());
    if s.len() == 0 {
        assert(s =~= t);
    } else {
        let n = s.len() - 1;
        let x = s[n];
        let y = t[n];
        assert(s.contains(x));
        assert(t.contains(y));
        assert(t.to_multiset().count(y) > 0);
        assert(s.contains(y));
        assert(s.to_multiset().count(x) > 0);
        assert(t.contains(x));
        let i = choose|i: int| 0 <= i < s.len() && s[i] == y;
        let j = choose|j: int| 0 <= j < t.len() && t[j] == x;
        T::at_most_total(x, x);
        T::at_most_total(y, y);
        assert(T::at_most(y, x)) by {
            if i < n {
                assert(T::at_most(s[i], s[n]));
            }
        }
        assert(T::at_most(x, y)) by {
            if j < n {
                assert(T::at_most(t[j], t[n]));
            }
        }
        assert(same_rank(x, y));
        assert(x == y);
        let s1 = s.drop_last();
        let t1 = t.drop_last();
        assert(s =~= s1.push(x));
        assert(t =~= t1.push(x));
        assert(s1.to_multiset() =~= s.to_multiset().remove(x));
        assert(t1.to_multiset() =~= t.to_multiset().remove(x));
        assert forall|u: T| #[trigger] s1.contains(u) implies s.contains(u) by {
            let k = choose|k: int| 0 <= k < s1.len() && s1[k] == u;
            assert(s[k] == u);
        }
        assert(in_rank_order(s1)) by {
            assert(forall|k: int| 0 <= k < n ==> #[trigger] s1[k] == s[k]);
        }
        assert(in_rank_order(t1)) by {
            assert(forall|k: int| 0 <= k < n ==> #[trigger] t1[k] == t[k]);
        }
        lemma_sorted_is_determined(s1, t1);
    }
}

/// Puts the items in rank order. Items of the same rank keep their order.
pub fn stable_sort<T: Ranked>(items: Vec<T>) -> (r: Vec<T>)
    ensures
        r@ == stable_sorted(items@),
{
    let ghost all = items@;
    let mut items = items;
    let mut sorted: Vec<T> = Vec::new();
    let ghost mut n: int = 0;
    // The items come off the end of the reversed list, so in their own order.
    let mut reversed: Vec<T> = Vec::new();
    while items.len() > 0
        invariant
            items@ + reversed@.reverse() == all,
        decreases items@.len(),
    {
        let ghost before = items@;
        let ghost rev = reversed@;
        match items.pop() {
            Some(x) => {
                reversed.push(x);
                assert(reversed@.reverse() =~= seq![x] + rev.reverse());
                assert(before =~= items@.push(x));
                assert(items@ + reversed@.reverse() =~= before + rev.reverse());
            },
            None => {},
        }
    }
    assert(reversed@.reverse() =~= all);
    assert(all.take(0) =~= Seq::<T>::empty());
    while reversed.len() > 0
        invariant
            0 <= n <= all.len(),
            reversed@.reverse() == all.skip(n),
            sorted@ == stable_sorted(all.take(n)),
        decreases reversed@.len(),
    {
        let ghost rev = reversed@;
        match reversed.pop() {
            Some(x) => {
                proof {
                    assert(rev.reverse().len() == rev.len());
                    assert(rev.reverse()[0] == x);
                    assert(all.skip(n)[0] == all[n]);
                    assert(reversed@.reverse() =~= rev.reverse().drop_first());
                    assert(all.skip(n).drop_first() =~= all.skip(n + 1));
                    assert(all.take(n + 1).drop_last() =~= all.take(n));
                    stable_sorted_is_sorted(all.take(n));
                }
                let p = find_rank_place(&sorted, &x);
                sorted.insert(p, x);
                proof {
                    n = n + 1;
                }
            },
            None => {},
        }
    }
    assert(all.take(n) =~= all);
    sorted
}

fn find_rank_place<T: Ranked>(s: &Vec<T>, e: &T) -> (r: usize)
    requires
        in_rank_order(s@),
    ensures
        r == rank_place(s@, *e),
        r <= s@.len(),
{
    let mut lo: usize = 0;
    let mut hi: usize = s.len();
    while lo < hi
        invariant
            lo <= hi <= s@.len(),
            in_rank_order(s@),
            forall|i: int| 0 <= i < lo ==> T::at_most(#[trigger] s@[i], *e),
            forall|i: int| hi <= i < s@.len() ==> !T::at_most(#[trigger] s@[i], *e),
        decreases hi - lo,
    {
        let mid: usize = lo + (hi - lo) / 2;
        if s[mid].ranks_at_most(e) {
            proof {
                assert forall|i: int| 0 <= i < mid + 1 implies T::at_most(
                    #[trigger] s@[i],
                    *e,
                ) by {
                    if i < mid {
                        T::at_most_transitive(s@[i], s@[mid as int], *e);
                    }
                }
            }
            lo = mid + 1;
        } else {
            proof {
                assert forall|i: int| mid <= i < s@.len() implies !T::at_most(
                    #[trigger] s@[i],
                    *e,
                ) by {
                    if i > mid && T::at_most(s@[i], *e) {
                        T::at_most_transitive(s@[mid as int], s@[i], *e);
                    }
                }
            }
            hi = mid;
        }
    }
    proof {
        lemma_rank_place_is(s@, *e, lo as int);
    }
    lo
}

/// How many items of `s` are at most `e` under `le`.
pub open spec fn place_by<A>(s: Seq<A>, e: A, le: spec_fn(A, A) -> bool) -> int
    decreases s.len(),
{
    if s.len() == 0 {
        0
    } else {
        place_by(s.drop_last(), e, le) + if le(s.last(), e) {
            1int
        } else {
            0int
        }
    }
}

/// `s` in the order of `le`. Items that are equal under it keep their order.
pub open spec fn sorted_by<A>(s: Seq<A>, le: spec_fn(A, A) -> bool) -> Seq<A>
    decreases s.len(),
{
    if s.len() == 0 {
        s
    } else {
        let rest = sorted_by(s.drop_last(), le);
        rest.insert(place_by(rest, s.last(), le), s.last())
    }
}

proof fn lemma_place_mapped<T: Ranked, A>(
    s: Seq<T>,
    e: T,
    f: spec_fn(T) -> A,
    le: spec_fn(A, A) -> bool,
)
    requires
        forall|a: T, b: T| #[trigger] T::at_most(a, b) == le(f(a), f(b)),
    ensures
        rank_place(s, e) == place_by(s.map_values(f), f(e), le),
        0 <= rank_place(s, e) <= s.len(),
    decreases s.len(),
{
    if s.len() > 0 {
        lemma_place_mapped(s.drop_last(), e, f, le);
        assert(s.map_values(f).drop_last() =~= s.drop_last().map_values(f));
        assert(T::at_most(s.last(), e) == le(f(s.last()), f(e)));
    }
}

/// Where the rank of an item depends on what `f` reads from it, what is read can
/// be sorted instead.
pub proof fn lemma_sorted_mapped<T: Ranked, A>(
    s: Seq<T>,
    f: spec_fn(T) -> A,
    le: spec_fn(A, A) -> bool,
)
    requires
        forall|a: T, b: T| #[trigger] T::at_most(a, b) == le(f(a), f(b)),
    ensures
        stable_sorted(s).map_values(f) == sorted_by(s.map_values(f), le),
    decreases s.len(),
{
    if s.len() == 0 {
        assert(stable_sorted(s).map_values(f) =~= sorted_by(s.map_values(f), le));
    } else {
        let t = s.drop_last();
        let rest = stable_sorted(t);
        lemma_sorted_mapped(t, f, le);
        lemma_place_mapped(rest, s.last(), f, le);
        assert(s.map_values(f).drop_last() =~= t.map_values(f));
        assert(s.map_values(f).last() == f(s.last()));
        assert(stable_sorted(s).map_values(f) =~= sorted_by(s.map_values(f), le));
    }
}

/// `le` is a total preorder.
pub open spec fn is_preorder<A>(le: spec_fn(A, A) -> bool) -> bool {
    &&& forall|a: A, b: A| #[trigger] le(a, b) || le(b, a)
    &&& forall|a: A, b: A, c: A| #[trigger] le(a, b) && #[trigger] le(b, c) ==> le(a, c)
}

pub open spec fn in_order<A>(s: Seq<A>, le: spec_fn(A, A) -> bool) -> bool {
    forall|i: int, j: int| 0 <= i < j < s.len() ==> le(#[trigger] s[i], #[trigger] s[j])
}

proof fn lemma_place_by_is<A>(s: Seq<A>, e: A, le: spec_fn(A, A) -> bool, p: int)
    requires
        0 <= p <= s.len(),
        forall|i: int| 0 <= i < p ==> le(#[trigger] s[i], e),
        forall|i: int| p <= i < s.len() ==> !le(#[trigger] s[i], e),
    ensures
        place_by(s, e, le) == p,
    decreases s.len(),
{
    if s.len() > 0 {
        let t = s.drop_last();
        let n = s.len() - 1;
        assert(forall|i: int| 0 <= i < n ==> #[trigger] t[i] == s[i]);
        if p == s.len() {
            lemma_place_by_is(t, e, le, p - 1);
            assert(le(s[n], e));
        } else {
            lemma_place_by_is(t, e, le, p);
            assert(!le(s[n], e));
        }
    }
}

proof fn lemma_place_by_splits<A>(s: Seq<A>, e: A, le: spec_fn(A, A) -> bool)
    requires
        is_preorder(le),
        in_order(s, le),
    ensures
        0 <= place_by(s, e, le) <= s.len(),
        forall|i: int| 0 <= i < place_by(s, e, le) ==> le(#[trigger] s[i], e),
        forall|i: int| place_by(s, e, le) <= i < s.len() ==> !le(#[trigger] s[i], e),
    decreases s.len(),
{
    if s.len() > 0 {
        let t = s.drop_last();
        let n = s.len() - 1;
        assert(forall|i: int| 0 <= i < n ==> #[trigger] t[i] == s[i]);
        assert(in_order(t, le));
        lemma_place_by_splits(t, e, le);
        if le(s[n], e) {
            assert forall|i: int| 0 <= i < s.len() implies le(#[trigger] s[i], e) by {
                if i < n {
                    assert(le(s[i], s[n]));
                }
            }
            lemma_place_by_is(s, e, le, s.len() as int);
        } else {
            let p = place_by(t, e, le);
            assert forall|i: int| 0 <= i < p implies le(#[trigger] s[i], e) by {
                assert(t[i] == s[i]);
            }
            assert forall|i: int| p <= i < s.len() implies !le(#[trigger] s[i], e) by {
                if i < n {
                    assert(t[i] == s[i]);
                }
            }
        }
    }
}

/// Sorting by a total preorder puts the items in order and keeps each of them.
pub proof fn sorted_by_is_sorted<A>(s: Seq<A>, le: spec_fn(A, A) -> bool)
    requires
        is_preorder(le),
    ensures
        in_order(sorted_by(s, le), le),
        sorted_by(s, le).to_multiset() == s.to_multiset(),
        sorted_by(s, le).len() == s.len(),
        forall|x: A| #[trigger] sorted_by(s, le).contains(x) == s.contains(x),
    decreases s.len(),
{
    broadcast use group_to_multiset_ensures;

    let r = sorted_by(s, le);
    if s.len() > 0 {
        let t = s.drop_last();
        let e = s.last();
        let rest = sorted_by(t, le);
        sorted_by_is_sorted(t, le);
        lemma_place_by_splits(rest, e, le);
        let p = place_by(rest, e, le);
        assert forall|i: int, j: int| 0 <= i < j < r.len() implies le(
            #[trigger] r[i],
            #[trigger] r[j],
        ) by {
            let i0 = if i < p {
                i
            } else {
                i - 1
            };
            let j0 = if j < p {
                j
            } else {
                j - 1
            };
            if i == p {
                assert(!le(rest[j0], e));
                assert(le(rest[j0], e) || le(e, rest[j0]));
            } else if j == p {
                assert(le(rest[i0], e));
            } else {
                assert(le(rest[i0], rest[j0]));
            }
        }
        assert(s =~= t.push(e));
        to_multiset_insert(rest, p, e);
        to_multiset_build(t, e);
    }
    assert forall|x: A| #[trigger] r.contains(x) == s.contains(x) by {
        assert(r.contains(x) == (r.to_multiset().count(x) > 0));
        assert(s.contains(x) == (s.to_multiset().count(x) > 0));
    }
}

/// What is picked from `s` was there.
pub proof fn lemma_picked_from<A>(s: Seq<A>, f: spec_fn(A) -> bool, i: int)
    requires
        0 <= i < s.filter(f).len(),
    ensures
        s.contains(s.filter(f)[i]),
        f(s.filter(f)[i]),
    decreases s.len(),
{
    reveal(Seq::filter);
    if s.len() > 0 {
        let t = s.drop_last();
        let x = s.filter(f)[i];
        if i < t.filter(f).len() {
            lemma_picked_from(t, f, i);
            let k = choose|k: int| 0 <= k < t.len() && t[k] == x;
            assert(s[k] == x);
        } else {
            assert(s[s.len() - 1] == x);
        }
    }
}

/// Sorting and picking can change places.
pub proof fn lemma_sorted_filtered<A>(s: Seq<A>, f: spec_fn(A) -> bool, le: spec_fn(A, A) -> bool)
    requires
        is_preorder(le),
    ensures
        sorted_by(s, le).filter(f) == sorted_by(s.filter(f), le),
    decreases s.len(),
{
    if s.len() == 0 {
        reveal(Seq::filter);
        assert(s.filter(f) =~= s);
    } else {
        let t = s.drop_last();
        let e = s.last();
        let rest = sorted_by(t, le);
        lemma_sorted_filtered(t, f, le);
        sorted_by_is_sorted(t, le);
        lemma_place_by_splits(rest, e, le);
        let p = place_by(rest, e, le);
        let a = rest.take(p);
        let b = rest.skip(p);
        assert(s =~= t.push(e));
        t.lemma_filter_push(e, f);
        assert(rest =~= a + b);
        Seq::filter_distributes_over_add(a, b, f);
        assert(sorted_by(s, le) =~= a.push(e) + b);
        Seq::filter_distributes_over_add(a.push(e), b, f);
        a.lemma_filter_push(e, f);
        let picked = rest.filter(f);
        let q = a.filter(f).len() as int;
        if f(e) {
            assert forall|i: int| 0 <= i < q implies le(#[trigger] picked[i], e) by {
                assert(picked[i] == a.filter(f)[i]);
                lemma_picked_from(a, f, i);
                let k = choose|k: int| 0 <= k < a.len() && a[k] == a.filter(f)[i];
                assert(rest[k] == a[k]);
            }
            assert forall|i: int| q <= i < picked.len() implies !le(#[trigger] picked[i], e) by {
                assert(picked[i] == b.filter(f)[i - q]);
                lemma_picked_from(b, f, i - q);
                let k = choose|k: int| 0 <= k < b.len() && b[k] == b.filter(f)[i - q];
                assert(rest[p + k] == b[k]);
            }
            lemma_place_by_is(picked, e, le, q);
            assert(s.filter(f).drop_last() =~= t.filter(f));
            assert(picked.insert(q, e) =~= a.filter(f).push(e) + b.filter(f));
        }
    }
}

proof fn lemma_place_by_mapped<A, B>(
    s: Seq<A>,
    e: A,
    f: spec_fn(A) -> B,
    le: spec_fn(A, A) -> bool,
    le2: spec_fn(B, B) -> bool,
)
    requires
        forall|i: int| 0 <= i < s.len() ==> le(#[trigger] s[i], e) == le2(f(s[i]), f(e)),
    ensures
        place_by(s, e, le) == place_by(s.map_values(f), f(e), le2),
        0 <= place_by(s, e, le) <= s.len(),
    decreases s.len(),
{
    if s.len() > 0 {
        let t = s.drop_last();
        assert(forall|i: int| 0 <= i < t.len() ==> #[trigger] t[i] == s[i]);
        lemma_place_by_mapped(t, e, f, le, le2);
        assert(s.map_values(f).drop_last() =~= t.map_values(f));
        assert(s.last() == s[s.len() - 1]);
    }
}

/// Where the order of items is that of what `f` reads from them, what is read can
/// be sorted instead.
pub proof fn lemma_sorted_by_mapped<A, B>(
    s: Seq<A>,
    f: spec_fn(A) -> B,
    le: spec_fn(A, A) -> bool,
    le2: spec_fn(B, B) -> bool,
)
    requires
        is_preorder(le),
        forall|i: int, j: int|
            0 <= i < s.len() && 0 <= j < s.len() ==> le(#[trigger] s[i], #[trigger] s[j]) == le2(
                f(s[i]),
                f(s[j]),
            ),
    ensures
        sorted_by(s, le).map_values(f) == sorted_by(s.map_values(f), le2),
    decreases s.len(),
{
    if s.len() == 0 {
        assert(sorted_by(s, le).map_values(f) =~= sorted_by(s.map_values(f), le2));
    } else {
        let t = s.drop_last();
        let rest = sorted_by(t, le);
        assert(forall|i: int| 0 <= i < t.len() ==> #[trigger] t[i] == s[i]);
        lemma_sorted_by_mapped(t, f, le, le2);
        sorted_by_is_sorted(t, le);
        let e = s.last();
        assert forall|i: int| 0 <= i < rest.len() implies le(#[trigger] rest[i], e) == le2(
            f(rest[i]),
            f(e),
        ) by {
            assert(rest.contains(rest[i]));
            assert(t.contains(rest[i]));
            let k = choose|k: int| 0 <= k < t.len() && t[k] == rest[i];
            assert(le(s[k], s[s.len() - 1]) == le2(f(s[k]), f(s[s.len() - 1])));
        }
        lemma_place_by_mapped(rest, e, f, le, le2);
        assert(s.map_values(f).drop_last() =~= t.map_values(f));
        assert(s.map_values(f).last() == f(e));
        assert(sorted_by(s, le).map_values(f) =~= sorted_by(s.map_values(f), le2));
    }
}

/// Items that are in order stay as they are.
pub proof fn sorting_ordered_changes_nothing<A>(s: Seq<A>, le: spec_fn(A, A) -> bool)
    requires
        is_preorder(le),
        in_order(s, le),
    ensures
        sorted_by(s, le) == s,
    decreases s.len(),
{
    if s.len() > 0 {
        let t = s.drop_last();
        let n = s.len() - 1;
        assert(forall|i: int| 0 <= i < n ==> #[trigger] t[i] == s[i]);
        sorting_ordered_changes_nothing(t, le);
        assert forall|i: int| 0 <= i < t.len() implies le(#[trigger] t[i], s.last()) by {
            assert(le(s[i], s[n]));
        }
        lemma_place_by_is(t, s.last(), le, n);
        assert(t.insert(n, s.last()) =~= s);
    }
}

/// Two lists with the same items, both in order, are the same, where no two
/// different items have the same rank.
pub proof fn lemma_order_determines<A>(s: Seq<A>, t: Seq<A>, le: spec_fn(A, A) -> bool)
    requires
        is_preorder(le),
        in_order(s, le),
        in_order(t, le),
        s.to_multiset() == t.to_multiset(),
        forall|x: A, y: A|
            s.contains(x) && s.contains(y) && #[trigger] le(x, y) && le(y, x) ==> x == y,
    ensures
        s == t,
    decreases s.len(),
{
    broadcast use group_to_multiset_ensures;

    assert(s.len() == s.to_multiset().len() && t.len() == t.to_multiset().len());
    if s.len() == 0 {
        assert(s =~= t);
    } else {
        let n = s.len() - 1;
        let x = s[n];
        let y = t[n];
        assert(s.to_multiset().count(x) > 0 && t.to_multiset().count(y) > 0);
        assert(t.contains(x) && s.contains(y));
        let i = choose|i: int| 0 <= i < t.len() && t[i] == x;
        let j = choose|j: int| 0 <= j < s.len() && s[j] == y;
        assert(le(x, y)) by {
            assert(le(y, y) || le(y, y));
            if i < n {
                assert(le(t[i], t[n]));
            }
        }
        assert(le(y, x)) by {
            assert(le(x, x) || le(x, x));
            if j < n {
                assert(le(s[j], s[n]));
            }
        }
        assert(x == y);
        let s1 = s.drop_last();
        let t1 = t.drop_last();
        assert(s1.push(x) =~= s && t1.push(y) =~= t);
        assert(s1.to_multiset().insert(x) == t1.to_multiset().insert(x));
        assert forall|e: A| s1.to_multiset().count(e) == t1.to_multiset().count(e) by {
            assert(s1.to_multiset().insert(x).count(e) == t1.to_multiset().insert(x).count(e));
        }
        assert(s1.to_multiset() =~= t1.to_multiset());
        assert forall|a: A| s1.contains(a) implies s.contains(a) by {
            let k = choose|k: int| 0 <= k < s1.len() && s1[k] == a;
            assert(s[k] == a);
        }
        lemma_order_determines(s1, t1, le);
    }
}

/// Two lists that hold the same items, each once, hold them equally often.
pub proof fn lemma_same_members<A>(s: Seq<A>, t: Seq<A>)
    requires
        s.no_duplicates(),
        t.no_duplicates(),
        forall|e: A| #[trigger] s.contains(e) == t.contains(e),
    ensures
        s.to_multiset() == t.to_multiset(),
{
    broadcast use group_to_multiset_ensures;

    s.lemma_multiset_has_no_duplicates();
    t.lemma_multiset_has_no_duplicates();
    assert forall|e: A| s.to_multiset().count(e) == t.to_multiset().count(e) by {
        assert(s.contains(e) <==> s.to_multiset().count(e) > 0);
        assert(t.contains(e) <==> t.to_multiset().count(e) > 0);
        if s.contains(e) {
            assert(s.to_multiset().contains(e) && t.to_multiset().contains(e));
        }
    }
    assert(s.to_multiset() =~= t.to_multiset());
}

/// An item that is picked occurs as often as before.
pub proof fn lemma_picked_count<A>(s: Seq<A>, f: spec_fn(A) -> bool, e: A)
    requires
        f(e),
    ensures
        s.filter(f).to_multiset().count(e) == s.to_multiset().count(e),
    decreases s.len(),
{
    broadcast use group_to_multiset_ensures;

    reveal(Seq::filter);
    if s.len() > 0 {
        let t = s.drop_last();
        lemma_picked_count(t, f, e);
        assert(t.push(s.last()) =~= s);
        assert(s.to_multiset() == t.to_multiset().insert(s.last()));
    } else {
        assert(s.filter(f) =~= s);
    }
}

} // verus!
