//! A map that keeps its entries in ascending key order.
use crate::text::{text_before, text_before_irreflexive, text_before_total};
use crate::text::{text_before_transitive, text_order, Standing};
use vstd::prelude::*;

verus! {

/// A key with a strict total order on its view.
pub trait MapKey: View + Sized {
    spec fn before(a: Self::V, b: Self::V) -> bool;

    proof fn before_irreflexive(a: Self::V)
        ensures
            !Self::before(a, a),
    ;

    proof fn before_transitive(a: Self::V, b: Self::V, c: Self::V)
        requires
            Self::before(a, b),
            Self::before(b, c),
        ensures
            Self::before(a, c),
    ;

    proof fn before_total(a: Self::V, b: Self::V)
        ensures
            a == b || Self::before(a, b) || Self::before(b, a),
    ;

    /// How this key stands to `other`.
    fn standing(&self, other: &Self) -> (r: Standing)
        ensures
            r == Standing::Before ==> Self::before(self@, other@),
            r == Standing::Same ==> self@ == other@,
            r == Standing::After ==> Self::before(other@, self@),
    ;
}

impl MapKey for String {
    open spec fn before(a: Seq<char>, b: Seq<char>) -> bool {
        text_before(a, b)
    }

    proof fn before_irreflexive(a: Seq<char>) {
        text_before_irreflexive(a);
    }

    proof fn before_transitive(a: Seq<char>, b: Seq<char>, c: Seq<char>) {
        text_before_transitive(a, b, c);
    }

    proof fn before_total(a: Seq<char>, b: Seq<char>) {
        text_before_total(a, b);
    }

    fn standing(&self, other: &Self) -> (r: Standing) {
        text_order(self.as_str(), other.as_str())
    }
}

/// The keys of `s` stand in strictly ascending order.
pub open spec fn ascending<K: MapKey, V>(s: Seq<(K, V)>) -> bool {
    forall|i: int, j: int|
        0 <= i < j < s.len() ==> K::before(#[trigger] s[i].0@, #[trigger] s[j].0@)
}

pub open spec fn has_key<K: MapKey, V>(s: Seq<(K, V)>, k: K::V) -> bool {
    exists|i: int| 0 <= i < s.len() && #[trigger] s[i].0@ == k
}

/// Where key `k` stands in `s`, if it is there.
pub open spec fn index_of<K: MapKey, V>(s: Seq<(K, V)>, k: K::V) -> int {
    choose|i: int| 0 <= i < s.len() && #[trigger] s[i].0@ == k
}

/// How many keys of `s` come before `k`.
pub open spec fn place_of<K: MapKey, V>(s: Seq<(K, V)>, k: K::V) -> int
    decreases s.len(),
{
    if s.len() == 0 {
        0
    } else {
        place_of(s.drop_last(), k) + if K::before(s.last().0@, k) {
            1int
        } else {
            0int
        }
    }
}

/// `s` with `k` bound to `v`: in place of the former value, or at the key's
/// place in the order.
pub open spec fn put<K: MapKey, V>(s: Seq<(K, V)>, k: K, v: V) -> Seq<(K, V)> {
    if has_key(s, k@) {
        s.update(index_of(s, k@), (s[index_of(s, k@)].0, v))
    } else {
        s.insert(place_of(s, k@), (k, v))
    }
}

/// `s` without key `k`.
pub open spec fn without<K: MapKey, V>(s: Seq<(K, V)>, k: K::V) -> Seq<(K, V)> {
    if has_key(s, k) {
        s.remove(index_of(s, k))
    } else {
        s
    }
}

/// The value bound to `k` in `s`.
pub open spec fn lookup<K: MapKey, V>(s: Seq<(K, V)>, k: K::V) -> Option<V> {
    if has_key(s, k) {
        Some(s[index_of(s, k)].1)
    } else {
        None
    }
}

/// The mapping that the entries of `s` hold.
pub open spec fn mapping<K: MapKey, V>(s: Seq<(K, V)>) -> Map<K::V, V> {
    Map::new(|k: K::V| has_key(s, k), |k: K::V| s[index_of(s, k)].1)
}

pub proof fn lemma_index_of<K: MapKey, V>(s: Seq<(K, V)>, i: int)
    requires
        ascending(s),
        0 <= i < s.len(),
    ensures
        has_key(s, s[i].0@),
        index_of(s, s[i].0@) == i,
{
    let j = index_of(s, s[i].0@);
    assert(s[i].0@ == s[i].0@);
    K::before_irreflexive(s[i].0@);
    if i < j {
        assert(K::before(s[i].0@, s[j].0@));
    } else if j < i {
        assert(K::before(s[j].0@, s[i].0@));
    }
}

pub proof fn lemma_place_of<K: MapKey, V>(s: Seq<(K, V)>, k: K::V, p: int)
    requires
        0 <= p <= s.len(),
        forall|i: int| 0 <= i < p ==> K::before(#[trigger] s[i].0@, k),
        forall|i: int| p <= i < s.len() ==> !K::before(#[trigger] s[i].0@, k),
    ensures
        place_of(s, k) == p,
    decreases s.len(),
{
    if s.len() > 0 {
        let t = s.drop_last();
        if p == s.len() {
            assert forall|i: int| 0 <= i < p - 1 implies K::before(#[trigger] t[i].0@, k) by {
                assert(t[i] == s[i]);
            }
            lemma_place_of(t, k, p - 1);
            assert(K::before(s[s.len() - 1].0@, k));
        } else {
            assert forall|i: int| 0 <= i < p implies K::before(#[trigger] t[i].0@, k) by {
                assert(t[i] == s[i]);
            }
            assert forall|i: int| p <= i < t.len() implies !K::before(#[trigger] t[i].0@, k) by {
                assert(t[i] == s[i]);
            }
            lemma_place_of(t, k, p);
            assert(!K::before(s[s.len() - 1].0@, k));
        }
    }
}

/// What `place_of` says of an ascending sequence.
pub proof fn lemma_place_splits<K: MapKey, V>(s: Seq<(K, V)>, k: K::V)
    requires
        ascending(s),
    ensures
        0 <= place_of(s, k) <= s.len(),
        forall|i: int| 0 <= i < place_of(s, k) ==> K::before(#[trigger] s[i].0@, k),
        forall|i: int| place_of(s, k) <= i < s.len() ==> !K::before(#[trigger] s[i].0@, k),
    decreases s.len(),
{
    if s.len() > 0 {
        let t = s.drop_last();
        assert forall|i: int, j: int| 0 <= i < j < t.len() implies K::before(
            #[trigger] t[i].0@,
            #[trigger] t[j].0@,
        ) by {
            assert(t[i] == s[i] && t[j] == s[j]);
        }
        lemma_place_splits(t, k);
        let p = place_of(t, k);
        let n = s.len() - 1;
        if K::before(s[n].0@, k) {
            assert forall|i: int| 0 <= i < s.len() implies K::before(#[trigger] s[i].0@, k) by {
                if i < n {
                    K::before_transitive(s[i].0@, s[n].0@, k);
                }
            }
            lemma_place_of(s, k, s.len() as int);
        } else {
            assert forall|i: int| 0 <= i < p implies K::before(#[trigger] s[i].0@, k) by {
                assert(t[i] == s[i]);
            }
            assert forall|i: int| p <= i < s.len() implies !K::before(#[trigger] s[i].0@, k) by {
                if i < n {
                    assert(t[i] == s[i]);
                }
            }
        }
    }
}

pub proof fn lemma_put<K: MapKey, V>(s: Seq<(K, V)>, k: K, v: V)
    requires
        ascending(s),
    ensures
        ascending(put(s, k, v)),
        mapping(put(s, k, v)) == mapping(s).insert(k@, v),
{
    let r = put(s, k, v);
    if has_key(s, k@) {
        let p = index_of(s, k@);
        assert forall|i: int, j: int| 0 <= i < j < r.len() implies K::before(
            #[trigger] r[i].0@,
            #[trigger] r[j].0@,
        ) by {
            assert(r[i].0@ == s[i].0@ && r[j].0@ == s[j].0@);
        }
        assert forall|q: K::V| has_key(r, q) == #[trigger] has_key(s, q) by {
            if has_key(r, q) {
                let i = index_of(r, q);
                assert(s[i].0@ == q);
            }
            if has_key(s, q) {
                let i = index_of(s, q);
                assert(r[i].0@ == q);
            }
        }
        assert forall|q: K::V| #[trigger] has_key(s, q) implies r[index_of(r, q)].1 == mapping(
            s,
        ).insert(k@, v)[q] by {
            let i = index_of(s, q);
            lemma_index_of(s, i);
            assert(r[i].0@ == q);
            lemma_index_of(r, i);
            if q == k@ {
                assert(i == p);
            } else {
                assert(i != p);
            }
        }
        assert(mapping(r) =~= mapping(s).insert(k@, v));
    } else {
        let p = place_of(s, k@);
        lemma_place_splits(s, k@);
        assert forall|i: int| p <= i < s.len() implies K::before(k@, #[trigger] s[i].0@) by {
            K::before_total(k@, s[i].0@);
        }
        assert forall|i: int, j: int| 0 <= i < j < r.len() implies K::before(
            #[trigger] r[i].0@,
            #[trigger] r[j].0@,
        ) by {
            let i0 = if i < p { i } else { i - 1 };
            let j0 = if j < p { j } else { j - 1 };
            if i != p {
                assert(r[i] == s[i0]);
            }
            if j != p {
                assert(r[j] == s[j0]);
            }
            if i != p && j != p {
                assert(K::before(s[i0].0@, s[j0].0@));
            }
        }
        assert(r[p].0@ == k@);
        assert forall|q: K::V| #[trigger] has_key(r, q) == (q == k@ || has_key(s, q)) by {
            if has_key(r, q) && q != k@ {
                let i = index_of(r, q);
                assert(s[if i < p { i } else { i - 1 }].0@ == q);
            }
            if has_key(s, q) {
                let i = index_of(s, q);
                assert(r[if i < p { i } else { i + 1 }].0@ == q);
            }
        }
        assert forall|q: K::V| #[trigger] has_key(r, q) implies r[index_of(r, q)].1 == mapping(
            s,
        ).insert(k@, v)[q] by {
            if q == k@ {
                lemma_index_of(r, p);
            } else {
                let i = index_of(s, q);
                let j = if i < p { i } else { i + 1 };
                assert(r[j].0@ == q);
                lemma_index_of(r, j);
            }
        }
        assert(mapping(r) =~= mapping(s).insert(k@, v));
    }
}

pub proof fn lemma_without<K: MapKey, V>(s: Seq<(K, V)>, k: K::V)
    requires
        ascending(s),
    ensures
        ascending(without(s, k)),
        mapping(without(s, k)) == mapping(s).remove(k),
{
    let r = without(s, k);
    if has_key(s, k) {
        let p = index_of(s, k);
        assert forall|i: int, j: int| 0 <= i < j < r.len() implies K::before(
            #[trigger] r[i].0@,
            #[trigger] r[j].0@,
        ) by {
            assert(r[i] == s[if i < p { i } else { i + 1 }]);
            assert(r[j] == s[if j < p { j } else { j + 1 }]);
        }
        assert forall|q: K::V| #[trigger] has_key(r, q) == (q != k && has_key(s, q)) by {
            if has_key(r, q) {
                let i = index_of(r, q);
                let j = if i < p { i } else { i + 1 };
                assert(s[j].0@ == q);
                lemma_index_of(s, j);
                lemma_index_of(s, p);
            }
            if q != k && has_key(s, q) {
                let i = index_of(s, q);
                assert(r[if i < p { i } else { i - 1 }].0@ == q);
            }
        }
        assert forall|q: K::V| #[trigger] has_key(r, q) implies r[index_of(r, q)].1 == mapping(
            s,
        ).remove(k)[q] by {
            let i = index_of(s, q);
            let j = if i < p { i } else { i - 1 };
            assert(r[j].0@ == q);
            lemma_index_of(r, j);
        }
        assert(mapping(r) =~= mapping(s).remove(k));
    } else {
        assert(mapping(r) =~= mapping(s).remove(k));
    }
}

/// Entries in ascending key order, each key once.
#[derive(Debug, PartialEq, Eq)]
pub struct OrderedMap<K: MapKey, V> {
    keys: Vec<K>,
    values: Vec<V>,
}

/// The entries whose keys are `keys` and whose values are `values`.
pub open spec fn zipped<K, V>(keys: Seq<K>, values: Seq<V>) -> Seq<(K, V)> {
    Seq::new(keys.len(), |i: int| (keys[i], values[i]))
}

pub open spec fn keys_ascend<K: MapKey>(keys: Seq<K>) -> bool {
    forall|i: int, j: int|
        0 <= i < j < keys.len() ==> K::before(#[trigger] keys[i]@, #[trigger] keys[j]@)
}

proof fn lemma_zipped_ascends<K: MapKey, V>(keys: Seq<K>, values: Seq<V>)
    ensures
        keys_ascend(keys) == ascending(zipped(keys, values)),
{
    let s = zipped(keys, values);
    if ascending(s) {
        assert forall|i: int, j: int| 0 <= i < j < keys.len() implies K::before(
            #[trigger] keys[i]@,
            #[trigger] keys[j]@,
        ) by {
            assert(s[i].0@ == keys[i]@ && s[j].0@ == keys[j]@);
        }
    }
}

impl<K: MapKey, V> View for OrderedMap<K, V> {
    type V = Map<K::V, V>;

    open spec fn view(&self) -> Map<K::V, V> {
        mapping(self.pairs())
    }
}

impl<K: MapKey, V> OrderedMap<K, V> {
    /// The entries in ascending key order.
    pub closed spec fn pairs(&self) -> Seq<(K, V)> {
        zipped(self.keys@, self.values@)
    }

    #[verifier::type_invariant]
    closed spec fn in_order(self) -> bool {
        &&& self.keys@.len() == self.values@.len()
        &&& keys_ascend(self.keys@)
    }

    pub fn new() -> (r: Self)
        ensures
            r.pairs() == Seq::<(K, V)>::empty(),
            r@ == Map::<K::V, V>::empty(),
    {
        let r = OrderedMap { keys: Vec::new(), values: Vec::new() };
        assert(r.pairs() =~= Seq::<(K, V)>::empty());
        assert(r@ =~= Map::<K::V, V>::empty());
        r
    }

    /// How many entries there are. The entries ascend, whatever the map.
    pub fn len(&self) -> (r: usize)
        ensures
            r == self.pairs().len(),
            ascending(self.pairs()),
    {
        proof {
            use_type_invariant(self);
            lemma_zipped_ascends(self.keys@, self.values@);
        }
        self.keys.len()
    }

    pub fn is_empty(&self) -> (r: bool)
        ensures
            r == (self.pairs().len() == 0),
            r == (self@ == Map::<K::V, V>::empty()),
    {
        if self.keys.len() == 0 {
            assert(self@ =~= Map::<K::V, V>::empty());
            true
        } else {
            assert(has_key(self.pairs(), self.pairs()[0].0@));
            assert(self@.dom().contains(self.pairs()[0].0@));
            false
        }
    }

    pub fn key_at(&self, i: usize) -> (r: &K)
        requires
            i < self.pairs().len(),
        ensures
            *r == self.pairs()[i as int].0,
            has_key(self.pairs(), r@),
            index_of(self.pairs(), r@) == i,
    {
        proof {
            use_type_invariant(self);
            lemma_zipped_ascends(self.keys@, self.values@);
            lemma_index_of(self.pairs(), i as int);
        }
        &self.keys[i]
    }

    pub fn value_at(&self, i: usize) -> (r: &V)
        requires
            i < self.pairs().len(),
        ensures
            *r == self.pairs()[i as int].1,
    {
        proof {
            use_type_invariant(self);
            lemma_zipped_ascends(self.keys@, self.values@);
        }
        &self.values[i]
    }

    /// Whether key `k` is there, and where it stands or would stand.
    fn find(&self, k: &K) -> (r: (bool, usize))
        ensures
            r.0 == has_key(self.pairs(), k@),
            r.0 ==> r.1 < self.pairs().len() && r.1 == index_of(self.pairs(), k@),
            !r.0 ==> r.1 <= self.pairs().len() && r.1 == place_of(self.pairs(), k@),
    {
        proof {
            use_type_invariant(self);
            lemma_zipped_ascends(self.keys@, self.values@);
        }
        let ghost s = self.pairs();
        let mut lo: usize = 0;
        let mut hi: usize = self.keys.len();
        while lo < hi
            invariant
                s == self.pairs(),
                s.len() == self.keys@.len(),
                ascending(s),
                0 <= lo <= hi <= s.len(),
                forall|i: int| 0 <= i < lo ==> K::before(#[trigger] s[i].0@, k@),
                forall|i: int| hi <= i < s.len() ==> K::before(k@, #[trigger] s[i].0@),
            decreases hi - lo,
        {
            let mid: usize = lo + (hi - lo) / 2;
            match self.keys[mid].standing(k) {
                Standing::Same => {
                    proof {
                        lemma_index_of(s, mid as int);
                    }
                    return (true, mid);
                },
                Standing::Before => {
                    proof {
                        assert forall|i: int| 0 <= i < mid + 1 implies K::before(
                            #[trigger] s[i].0@,
                            k@,
                        ) by {
                            if i < mid {
                                K::before_transitive(s[i].0@, s[mid as int].0@, k@);
                            }
                        }
                    }
                    lo = mid + 1;
                },
                Standing::After => {
                    proof {
                        assert forall|i: int| mid <= i < s.len() implies K::before(
                            k@,
                            #[trigger] s[i].0@,
                        ) by {
                            if i > mid {
                                K::before_transitive(k@, s[mid as int].0@, s[i].0@);
                            }
                        }
                    }
                    hi = mid;
                },
            }
        }
        proof {
            assert forall|i: int| lo <= i < s.len() implies !K::before(#[trigger] s[i].0@, k@) by {
                if K::before(s[i].0@, k@) {
                    K::before_transitive(s[i].0@, k@, s[i].0@);
                    K::before_irreflexive(s[i].0@);
                }
            }
            lemma_place_of(s, k@, lo as int);
            if has_key(s, k@) {
                K::before_irreflexive(k@);
                assert(s[index_of(s, k@)].0@ == k@);
                assert(false);
            }
        }
        (false, lo)
    }

    /// Where key `k` stands.
    pub fn position(&self, k: &K) -> (r: Option<usize>)
        ensures
            r is Some == has_key(self.pairs(), k@),
            r is Some ==> r->0 < self.pairs().len() && r->0 == index_of(self.pairs(), k@)
                && self.pairs()[r->0 as int].0@ == k@,
    {
        let (found, i) = self.find(k);
        if found {
            Some(i)
        } else {
            None
        }
    }

    pub fn contains_key(&self, k: &K) -> (r: bool)
        ensures
            r == self@.dom().contains(k@),
            r == has_key(self.pairs(), k@),
    {
        self.find(k).0
    }

    pub fn get(&self, k: &K) -> (r: Option<&V>)
        ensures
            r == match lookup(self.pairs(), k@) {
                Some(v) => Some(&v),
                None => None,
            },
            r is Some == self@.dom().contains(k@),
            r is Some ==> *r->0 == self@[k@],
    {
        let (found, i) = self.find(k);
        if found {
            proof {
                use_type_invariant(self);
            lemma_zipped_ascends(self.keys@, self.values@);
            }
            Some(&self.values[i])
        } else {
            None
        }
    }

    pub fn get_mut(&mut self, k: &K) -> (r: Option<&mut V>)
        ensures
            r is Some == has_key(old(self).pairs(), k@),
            r is Some == old(self)@.dom().contains(k@),
            r is None ==> final(self).pairs() == old(self).pairs(),
            r is Some ==> *r->0 == old(self)@[k@],
            r is Some ==> final(self).pairs() == put(old(self).pairs(), *k, *final(r->0)),
            r is Some ==> final(self)@ == old(self)@.insert(k@, *final(r->0)),
    {
        let (found, i) = self.find(k);
        if found {
            proof {
                use_type_invariant(&*self);
                lemma_zipped_ascends(self.keys@, self.values@);
                assert forall|v: V| mapping(#[trigger] put(old(self).pairs(), *k, v)) == mapping(
                    old(self).pairs(),
                ).insert(k@, v) by {
                    lemma_put(old(self).pairs(), *k, v);
                }
            }
            Some(&mut self.values[i])
        } else {
            None
        }
    }

    /// Binds `k` to `v`.
    pub fn insert(&mut self, k: K, v: V)
        ensures
            final(self).pairs() == put(old(self).pairs(), k, v),
            final(self)@ == old(self)@.insert(k@, v),
    {
        proof {
            use_type_invariant(&*self);
            lemma_zipped_ascends(self.keys@, self.values@);
            lemma_put(self.pairs(), k, v);
        }
        let (found, i) = self.find(&k);
        let mut was: OrderedMap<K, V> = OrderedMap { keys: Vec::new(), values: Vec::new() };
        std::mem::swap(self, &mut was);
        let OrderedMap { mut keys, mut values } = was;
        let ghost before = zipped(keys@, values@);
        if found {
            values[i] = v;
            assert(zipped(keys@, values@) =~= before.update(i as int, (before[i as int].0, v)));
        } else {
            keys.insert(i, k);
            values.insert(i, v);
            assert(zipped(keys@, values@) =~= before.insert(i as int, (k, v)));
        }
        proof {
            lemma_zipped_ascends(keys@, values@);
        }
        *self = OrderedMap { keys, values };
    }

    /// Takes `k` out and gives back its value.
    pub fn remove(&mut self, k: &K) -> (r: Option<V>)
        ensures
            r == lookup(old(self).pairs(), k@),
            final(self).pairs() == without(old(self).pairs(), k@),
            final(self)@ == old(self)@.remove(k@),
    {
        proof {
            use_type_invariant(&*self);
            lemma_zipped_ascends(self.keys@, self.values@);
            lemma_without(self.pairs(), k@);
        }
        let (found, i) = self.find(k);
        if !found {
            return None;
        }
        let mut was: OrderedMap<K, V> = OrderedMap { keys: Vec::new(), values: Vec::new() };
        std::mem::swap(self, &mut was);
        let OrderedMap { mut keys, mut values } = was;
        let ghost before = zipped(keys@, values@);
        let _ = keys.remove(i);
        let v = values.remove(i);
        assert(zipped(keys@, values@) =~= before.remove(i as int));
        proof {
            lemma_zipped_ascends(keys@, values@);
        }
        *self = OrderedMap { keys, values };
        Some(v)
    }

    /// Takes the first entry out.
    pub fn take_first(&mut self) -> (r: (K, V))
        requires
            old(self).pairs().len() > 0,
        ensures
            r == old(self).pairs()[0],
            final(self).pairs() == old(self).pairs().drop_first(),
    {
        proof {
            use_type_invariant(&*self);
            lemma_zipped_ascends(self.keys@, self.values@);
        }
        let mut was: OrderedMap<K, V> = OrderedMap { keys: Vec::new(), values: Vec::new() };
        std::mem::swap(self, &mut was);
        let OrderedMap { mut keys, mut values } = was;
        let ghost before = zipped(keys@, values@);
        let k = keys.remove(0);
        let v = values.remove(0);
        assert(zipped(keys@, values@) =~= before.drop_first());
        proof {
            assert forall|i: int, j: int| 0 <= i < j < keys@.len() implies K::before(
                #[trigger] keys@[i]@,
                #[trigger] keys@[j]@,
            ) by {
                assert(before[i + 1].0 == keys@[i] && before[j + 1].0 == keys@[j]);
            }
        }
        *self = OrderedMap { keys, values };
        (k, v)
    }

    /// Takes every entry out.
    pub fn clear(&mut self)
        ensures
            final(self).pairs() == Seq::<(K, V)>::empty(),
            final(self)@ == Map::<K::V, V>::empty(),
    {
        *self = OrderedMap { keys: Vec::new(), values: Vec::new() };
        assert(self.pairs() =~= Seq::<(K, V)>::empty());
        assert(self@ =~= Map::<K::V, V>::empty());
    }
}

} // verus!
