//! Lists of topics.
use crate::domain::topic::Topic;
use vstd::prelude::*;

verus! {

pub open spec fn any<A>(s: Seq<A>, p: spec_fn(A) -> bool) -> bool {
    exists|i: int| 0 <= i < s.len() && #[trigger] p(s[i])
}

/// Item `i` is the first of `s` with property `p`.
pub open spec fn is_first<A>(s: Seq<A>, p: spec_fn(A) -> bool, i: int) -> bool {
    &&& 0 <= i < s.len()
    &&& p(s[i])
    &&& forall|j: int| 0 <= j < i ==> !#[trigger] p(s[j])
}

/// Where the first item with property `p` stands, if there is one.
pub open spec fn first_index<A>(s: Seq<A>, p: spec_fn(A) -> bool) -> int {
    choose|i: int| is_first(s, p, i)
}

pub proof fn lemma_first_index<A>(s: Seq<A>, p: spec_fn(A) -> bool, i: int)
    requires
        is_first(s, p, i),
    ensures
        any(s, p),
        first_index(s, p) == i,
{
    let j = first_index(s, p);
    assert(is_first(s, p, j));
    if i < j {
        assert(!p(s[i]));
    } else if j < i {
        assert(!p(s[j]));
    }
}

pub proof fn lemma_first_exists<A>(s: Seq<A>, p: spec_fn(A) -> bool)
    requires
        any(s, p),
    ensures
        is_first(s, p, first_index(s, p)),
    decreases s.len(),
{
    let n = s.len() - 1;
    let t = s.drop_last();
    if any(t, p) {
        lemma_first_exists(t, p);
        let i = first_index(t, p);
        assert forall|j: int| 0 <= j < i implies !#[trigger] p(s[j]) by {
            assert(t[j] == s[j]);
        }
        assert(t[i] == s[i]);
        assert(is_first(s, p, i));
    } else {
        let k = choose|i: int| 0 <= i < s.len() && #[trigger] p(s[i]);
        if k < n {
            assert(p(t[k]));
        }
        assert forall|j: int| 0 <= j < n implies !#[trigger] p(s[j]) by {
            assert(t[j] == s[j]);
            if p(t[j]) {
                assert(any(t, p));
            }
        }
        assert(is_first(s, p, n));
    }
}

/// `list` with `t` at its end, unless it holds `t` already.
pub open spec fn with_topic(list: Seq<Topic>, t: Topic) -> Seq<Topic> {
    if list.contains(t) {
        list
    } else {
        list.push(t)
    }
}

/// `list` followed by those topics of `more` that are new, each once.
pub open spec fn with_topics(list: Seq<Topic>, more: Seq<Topic>) -> Seq<Topic>
    decreases more.len(),
{
    if more.len() == 0 {
        list
    } else {
        with_topic(with_topics(list, more.drop_last()), more.last())
    }
}

pub proof fn lemma_with_topics_step(list: Seq<Topic>, more: Seq<Topic>, i: int)
    requires
        0 <= i < more.len(),
    ensures
        with_topics(list, more.take(i + 1)) == with_topic(
            with_topics(list, more.take(i)),
            more[i],
        ),
{
    assert(more.take(i + 1).drop_last() =~= more.take(i));
}

/// What `with_topics` holds: the topics of both lists, each new one once.
pub proof fn with_topics_holds_both(list: Seq<Topic>, more: Seq<Topic>)
    ensures
        forall|t: Topic| #[trigger]
            with_topics(list, more).contains(t) <==> list.contains(t) || more.contains(t),
        list.no_duplicates() ==> with_topics(list, more).no_duplicates(),
    decreases more.len(),
{
    if more.len() > 0 {
        let m = more.drop_last();
        let x = more.last();
        with_topics_holds_both(list, m);
        let before = with_topics(list, m);
        let after = with_topics(list, more);
        assert(more =~= m.push(x));
        assert forall|t: Topic| #[trigger] after.contains(t) <==> list.contains(t)
            || more.contains(t) by {
            assert(more.contains(t) <==> m.contains(t) || t == x) by {
                if more.contains(t) {
                    let i = choose|i: int| 0 <= i < more.len() && more[i] == t;
                    if i < m.len() {
                        assert(m[i] == t);
                    }
                }
                if m.contains(t) {
                    let i = choose|i: int| 0 <= i < m.len() && m[i] == t;
                    assert(more[i] == t);
                }
                assert(more[more.len() - 1] == x);
            }
            assert(before.contains(t) <==> list.contains(t) || m.contains(t));
            if !before.contains(x) {
                assert(after =~= before.push(x));
                if after.contains(t) && t != x {
                    let i = choose|i: int| 0 <= i < after.len() && after[i] == t;
                    assert(before[i] == t);
                }
                if before.contains(t) {
                    let i = choose|i: int| 0 <= i < before.len() && before[i] == t;
                    assert(after[i] == t);
                }
                assert(after[after.len() - 1] == x);
            }
        }
    } else {
        assert(forall|t: Topic| !more.contains(t));
    }
}

/// Whether the list holds the topic.
pub fn contains_topic(list: &Vec<Topic>, t: &Topic) -> (r: bool)
    ensures
        r == list@.contains(*t),
{
    for i in 0..list.len()
        invariant
            forall|j: int| 0 <= j < i ==> list@[j] != *t,
    {
        if list[i] == *t {
            return true;
        }
    }
    false
}

/// Puts the topic at the end of the list, unless it is there already.
pub fn push_new(list: &mut Vec<Topic>, t: Topic)
    ensures
        final(list)@ == with_topic(old(list)@, t),
{
    if !contains_topic(list, &t) {
        list.push(t);
    }
}

/// Puts the new topics of `more` at the end of the list.
pub fn push_all_new(list: &mut Vec<Topic>, more: &Vec<Topic>)
    ensures
        final(list)@ == with_topics(old(list)@, more@),
{
    for i in 0..more.len()
        invariant
            list@ == with_topics(old(list)@, more@.take(i as int)),
    {
        proof {
            lemma_with_topics_step(old(list)@, more@, i as int);
        }
        push_new(list, more[i]);
    }
    assert(more@.take(more@.len() as int) =~= more@);
}

/// The same list.
pub fn copy_topics(list: &Vec<Topic>) -> (r: Vec<Topic>)
    ensures
        r@ == list@,
{
    let mut r: Vec<Topic> = Vec::new();
    for i in 0..list.len()
        invariant
            r@ == list@.take(i as int),
    {
        assert(list@.take(i + 1) =~= list@.take(i as int).push(list@[i as int]));
        r.push(list[i]);
    }
    assert(list@.take(list@.len() as int) =~= list@);
    r
}

/// Being another topic than `t`.
pub open spec fn other_than(t: Topic) -> spec_fn(Topic) -> bool {
    |x: Topic| x != t
}

/// The topics of `list` other than `t`, in their order.
pub fn without_topic(list: &Vec<Topic>, t: &Topic) -> (r: Vec<Topic>)
    ensures
        r@ == list@.filter(other_than(*t)),
{
    let ghost keep = other_than(*t);
    let mut r: Vec<Topic> = Vec::new();
    for i in 0..list.len()
        invariant
            keep == other_than(*t),
            r@ == list@.take(i as int).filter(keep),
    {
        assert(list@.take(i + 1) =~= list@.take(i as int).push(list@[i as int]));
        proof {
            list@.take(i as int).lemma_filter_push(list@[i as int], keep);
        }
        if list[i] != *t {
            r.push(list[i]);
        }
    }
    assert(list@.take(list@.len() as int) =~= list@);
    r
}

/// New topics come after those that were there, and where all of them are new, in their
/// order.
pub proof fn new_topics_come_last(list: Seq<Topic>, more: Seq<Topic>)
    ensures
        list.is_prefix_of(with_topics(list, more)),
        (list + more).no_duplicates() ==> with_topics(list, more) == list + more,
    decreases more.len(),
{
    if more.len() == 0 {
        assert(list.is_prefix_of(list));
        assert(list + more =~= list);
    } else {
        let rest = more.drop_last();
        let last = more.last();
        new_topics_come_last(list, rest);
        let before = with_topics(list, rest);
        let after = with_topics(list, more);
        assert(after.take(list.len() as int) =~= before.take(list.len() as int));
        assert(list =~= after.take(list.len() as int));
        assert(list.is_prefix_of(after));
        if (list + more).no_duplicates() {
            let whole = list + more;
            let part = list + rest;
            assert forall|i: int, j: int|
                0 <= i < part.len() && 0 <= j < part.len() && i != j implies part[i] != part[j] by {
                assert(part[i] == whole[i] && part[j] == whole[j]);
            }
            assert(part.no_duplicates());
            assert(!before.contains(last)) by {
                if before.contains(last) {
                    let i = choose|i: int| 0 <= i < part.len() && part[i] == last;
                    assert(whole[i] == last && whole[whole.len() - 1] == last);
                }
            }
            assert(after =~= list + more);
        }
    }
}

} // verus!
