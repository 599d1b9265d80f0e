//! Text as a sequence of characters: equality, order and decimal numerals.
use vstd::prelude::*;
use vstd::std_specs::iter::IteratorSpec;
use vstd::string::*;
use vstd::utf8::*;

verus! {

/// How two keys stand to each other.
#[derive(Debug, Clone, Copy, PartialEq, Eq, Structural)]
pub enum Standing {
    Before,
    Same,
    After,
}

/// Lexicographic order of texts by code point.
pub open spec fn text_before(a: Seq<char>, b: Seq<char>) -> bool
    decreases a.len(),
{
    if b.len() == 0 {
        false
    } else if a.len() == 0 {
        true
    } else if a[0] == b[0] {
        text_before(a.drop_first(), b.drop_first())
    } else {
        (a[0] as int) < (b[0] as int)
    }
}

pub proof fn text_before_irreflexive(a: Seq<char>)
    ensures
        !text_before(a, a),
    decreases a.len(),
{
    if a.len() > 0 {
        text_before_irreflexive(a.drop_first());
    }
}

pub proof fn text_before_transitive(a: Seq<char>, b: Seq<char>, c: Seq<char>)
    requires
        text_before(a, b),
        text_before(b, c),
    ensures
        text_before(a, c),
    decreases a.len(),
{
    if a.len() > 0 && a[0] == b[0] && b[0] == c[0] {
        text_before_transitive(a.drop_first(), b.drop_first(), c.drop_first());
    }
}

pub proof fn text_before_total(a: Seq<char>, b: Seq<char>)
    ensures
        a == b || text_before(a, b) || text_before(b, a),
    decreases a.len(),
{
    if a.len() > 0 && b.len() > 0 {
        if a[0] == b[0] {
            text_before_total(a.drop_first(), b.drop_first());
            if a.drop_first() == b.drop_first() {
                assert(a =~= seq![a[0]] + a.drop_first());
                assert(b =~= seq![b[0]] + b.drop_first());
            }
        } else {
            assert(a[0] as int != b[0] as int);
        }
    } else if a.len() == 0 && b.len() == 0 {
        assert(a =~= b);
    }
}

/// Whether two texts are the same.
pub fn text_eq(a: &str, b: &str) -> (r: bool)
    ensures
        r == (a@ == b@),
{
    let x = a.as_bytes();
    let y = b.as_bytes();
    proof {
        encode_utf8_decode_utf8(a@);
        encode_utf8_decode_utf8(b@);
    }
    if x.len() != y.len() {
        return false;
    }
    let mut i: usize = 0;
    while i < x.len()
        invariant
            i <= x.len(),
            x.len() == y.len(),
            x@ == a.spec_bytes(),
            y@ == b.spec_bytes(),
            forall|j: int| 0 <= j < i ==> x@[j] == y@[j],
        decreases x.len() - i,
    {
        if x[i] != y[i] {
            return false;
        }
        i += 1;
    }
    assert(x@ =~= y@);
    true
}

/// The standing of `a` to `b` in the order of texts.
pub fn text_order(a: &str, b: &str) -> (r: Standing)
    ensures
        r == Standing::Before ==> text_before(a@, b@),
        r == Standing::Same ==> a@ == b@,
        r == Standing::After ==> text_before(b@, a@),
{
    broadcast use vstd::string::group_string_axioms;
    let mut it = a.chars();
    let mut jt = b.chars();
    assert(it.remaining() == a@);
    loop
        invariant
            it.decrease() is Some,
            text_before(it.remaining(), jt.remaining()) ==> text_before(a@, b@),
            text_before(jt.remaining(), it.remaining()) ==> text_before(b@, a@),
            it.remaining() == jt.remaining() ==> a@ == b@,
        decreases it.decrease()->0,
    {
        let ghost s = it.remaining();
        let ghost t = jt.remaining();
        let x = it.next();
        let y = jt.next();
        match (x, y) {
            (None, None) => {
                assert(s =~= t);
                return Standing::Same;
            },
            (None, Some(_)) => {
                return Standing::Before;
            },
            (Some(_), None) => {
                return Standing::After;
            },
            (Some(c), Some(d)) => {
                if c < d {
                    return Standing::Before;
                }
                if d < c {
                    return Standing::After;
                }
                assert(s[0] == t[0]);
                assert(s =~= seq![s[0]] + s.drop_first());
                assert(t =~= seq![t[0]] + t.drop_first());
            },
        }
    }
}

/// `String::push` puts one character at the end of the text.
pub assume_specification[ std::string::String::push ](s: &mut std::string::String, c: char)
    ensures
        final(s)@ == old(s)@.push(c),
;

/// The characters of a text.
pub fn chars_of(s: &str) -> (r: Vec<char>)
    ensures
        r@ == s@,
{
    broadcast use vstd::string::group_string_axioms;

    let mut it = s.chars();
    let mut r: Vec<char> = Vec::new();
    assert(it.remaining() == s@);
    loop
        invariant
            it.decrease() is Some,
            r@ + it.remaining() == s@,
        decreases it.decrease()->0,
    {
        let ghost rest = it.remaining();
        match it.next() {
            None => {
                assert(r@ + rest =~= r@);
                return r;
            },
            Some(c) => {
                assert(rest =~= seq![rest[0]] + rest.drop_first());
                assert((r@ + rest) =~= r@.push(c) + rest.drop_first());
                r.push(c);
            },
        }
    }
}

/// The decimal digit of value `d`.
pub open spec fn digit_char(d: int) -> char {
    if d == 0 { '0' } else if d == 1 { '1' } else if d == 2 { '2' } else if d == 3 { '3' }
    else if d == 4 { '4' } else if d == 5 { '5' } else if d == 6 { '6' } else if d == 7 { '7' }
    else if d == 8 { '8' } else { '9' }
}

/// The decimal digits of `n`, without leading zeros.
pub open spec fn digits(n: nat) -> Seq<char>
    decreases n,
{
    if n < 10 {
        seq![digit_char(n as int)]
    } else {
        digits(n / 10).push(digit_char((n % 10) as int))
    }
}

/// The decimal numeral of `n`.
pub open spec fn numeral(n: int) -> Seq<char> {
    if n < 0 {
        seq!['-'] + digits((-n) as nat)
    } else {
        digits(n as nat)
    }
}

pub open spec fn all_digits(s: Seq<char>) -> bool {
    forall|i: int| 0 <= i < s.len() ==> '0' <= #[trigger] s[i] <= '9'
}

/// The number that a run of digits denotes.
pub open spec fn digits_value(s: Seq<char>) -> int
    decreases s.len(),
{
    if s.len() == 0 {
        0
    } else {
        digits_value(s.drop_last()) * 10 + (s.last() as int - '0' as int)
    }
}

/// The integer that a text denotes: an optional sign and at least one digit.
pub open spec fn int_of_text(s: Seq<char>) -> Option<int> {
    if s.len() == 0 {
        None
    } else if s[0] == '-' || s[0] == '+' {
        if s.len() > 1 && all_digits(s.drop_first()) {
            if s[0] == '-' {
                Some(-digits_value(s.drop_first()))
            } else {
                Some(digits_value(s.drop_first()))
            }
        } else {
            None
        }
    } else if all_digits(s) {
        Some(digits_value(s))
    } else {
        None
    }
}

/// The integer that a text denotes, if it lies between `min` and `max`.
pub open spec fn bounded_int_of_text(s: Seq<char>, min: int, max: int) -> Option<int> {
    match int_of_text(s) {
        Some(n) => if min <= n <= max {
            Some(n)
        } else {
            None
        },
        None => None,
    }
}

pub proof fn lemma_digits_denote(n: nat)
    ensures
        digits(n).len() > 0,
        all_digits(digits(n)),
        digits_value(digits(n)) == n,
    decreases n,
{
    if n < 10 {
        assert(digits(n).drop_last() =~= Seq::<char>::empty());
        assert(digits_value(digits(n).drop_last()) == 0);
    } else {
        lemma_digits_denote(n / 10);
        assert(digits(n).drop_last() =~= digits(n / 10));
    }
}

/// Reading a numeral gives the number back.
pub proof fn numeral_denotes(n: int)
    ensures
        int_of_text(numeral(n)) == Some(n),
{
    if n < 0 {
        lemma_digits_denote((-n) as nat);
        assert(numeral(n).drop_first() =~= digits((-n) as nat));
    } else {
        lemma_digits_denote(n as nat);
        assert('0' <= digits(n as nat)[0] <= '9');
    }
}

proof fn lemma_digits_value_grows(s: Seq<char>, i: int)
    requires
        all_digits(s),
        0 <= i <= s.len(),
    ensures
        0 <= digits_value(s.take(i)) <= digits_value(s),
    decreases s.len(),
{
    if i == s.len() {
        assert(s.take(i) =~= s);
        if i > 0 {
            lemma_digits_value_grows(s.drop_last(), i - 1);
            assert(s.drop_last().take(i - 1) =~= s.drop_last());
        }
    } else {
        lemma_digits_value_grows(s.drop_last(), i);
        assert(s.drop_last().take(i) =~= s.take(i));
        assert('0' <= s[s.len() - 1] <= '9');
    }
}

fn digit_text(d: u64) -> (r: char)
    requires
        d < 10,
    ensures
        r == digit_char(d as int),
{
    match d {
        0 => '0',
        1 => '1',
        2 => '2',
        3 => '3',
        4 => '4',
        5 => '5',
        6 => '6',
        7 => '7',
        8 => '8',
        _ => '9',
    }
}

/// Puts the digits of `n` at the end of `out`.
pub fn append_digits(out: &mut String, n: u64)
    ensures
        final(out)@ == old(out)@ + digits(n as nat),
    decreases n,
{
    if n >= 10 {
        append_digits(out, n / 10);
    }
    out.push(digit_text(n % 10));
    proof {
        if n >= 10 {
            assert(old(out)@ + digits(n as nat) =~= (old(out)@ + digits((n / 10) as nat)).push(
                digit_char((n % 10) as int),
            ));
        } else {
            assert(old(out)@ + digits(n as nat) =~= old(out)@.push(digit_char(n as int)));
        }
    }
}

/// Puts the numeral of `n` at the end of `out`.
pub fn append_numeral(out: &mut String, n: i64)
    ensures
        final(out)@ == old(out)@ + numeral(n as int),
{
    if n < 0 {
        out.push('-');
        let m: u64 = (-(n as i128)) as u64;
        append_digits(out, m);
        assert(old(out)@.push('-') + digits(m as nat) =~= old(out)@ + numeral(n as int));
    } else {
        append_digits(out, n as u64);
    }
}

/// Reads the digits of `chars` from `from` on.
fn read_digits(chars: &Vec<char>, from: usize) -> (r: Option<i128>)
    requires
        from <= chars@.len(),
    ensures
        ({
            let rest = chars@.subrange(from as int, chars@.len() as int);
            match r {
                Some(n) => rest.len() > 0 && all_digits(rest) && n == digits_value(rest)
                    && n <= 0x1_0000_0000_0000_0000,
                None => rest.len() == 0 || !all_digits(rest) || digits_value(rest)
                    > 0x1_0000_0000_0000_0000,
            }
        }),
{
    let ghost rest = chars@.subrange(from as int, chars@.len() as int);
    if from == chars.len() {
        return None;
    }
    let mut n: i128 = 0;
    let mut i: usize = from;
    let mut too_large = false;
    while i < chars.len()
        invariant
            from <= i <= chars@.len(),
            rest == chars@.subrange(from as int, chars@.len() as int),
            all_digits(rest.take(i - from)),
            !too_large ==> n == digits_value(rest.take(i - from)),
            !too_large ==> 0 <= n <= 0x1_0000_0000_0000_0000,
            too_large ==> exists|j: int|
                0 <= j <= i - from && digits_value(#[trigger] rest.take(j))
                    > 0x1_0000_0000_0000_0000,
        decreases chars@.len() - i,
    {
        let c = chars[i];
        if c < '0' || '9' < c {
            assert(rest[i - from] == c);
            return None;
        }
        let ghost k = i - from;
        assert(rest.take(k + 1).drop_last() =~= rest.take(k));
        assert(rest.take(k + 1).last() == c);
        assert forall|j: int| 0 <= j < k + 1 implies '0' <= #[trigger] rest.take(k + 1)[j]
            <= '9' by {
            if j < k {
                assert(rest.take(k + 1)[j] == rest.take(k)[j]);
            }
        }
        if !too_large {
            n = n * 10 + (c as i128 - '0' as i128);
            if n > 0x1_0000_0000_0000_0000 {
                too_large = true;
                assert(digits_value(rest.take(k + 1)) > 0x1_0000_0000_0000_0000);
            }
        }
        i += 1;
    }
    assert(rest.take(i - from) =~= rest);
    if too_large {
        proof {
            let j = choose|j: int|
                0 <= j <= i - from && digits_value(#[trigger] rest.take(j))
                    > 0x1_0000_0000_0000_0000;
            lemma_digits_value_grows(rest, j);
        }
        None
    } else {
        Some(n)
    }
}

/// Reads a signed integer that lies between `min` and `max`.
pub fn parse_int(s: &str, min: i128, max: i128) -> (r: Option<i128>)
    requires
        -0x1_0000_0000_0000_0000 <= min <= 0 <= max <= 0x1_0000_0000_0000_0000,
    ensures
        match r {
            Some(n) => bounded_int_of_text(s@, min as int, max as int) == Some(n as int),
            None => bounded_int_of_text(s@, min as int, max as int) is None,
        },
{
    let chars = chars_of(s);
    if chars.len() == 0 {
        return None;
    }
    let signed = chars[0] == '-' || chars[0] == '+';
    let from: usize = if signed {
        1
    } else {
        0
    };
    let ghost rest = chars@.subrange(from as int, chars@.len() as int);
    proof {
        if signed {
            assert(rest =~= s@.drop_first());
        } else {
            assert(rest =~= s@);
        }
        if all_digits(rest) {
            lemma_digits_value_grows(rest, rest.len() as int);
        }
    }
    match read_digits(&chars, from) {
        None => None,
        Some(m) => {
            let n: i128 = if chars[0] == '-' {
                -m
            } else {
                m
            };
            if min <= n && n <= max {
                Some(n)
            } else {
                None
            }
        },
    }
}

/// The parts of a text between occurrences of `sep`.
pub open spec fn split_text(s: Seq<char>, sep: char) -> Seq<Seq<char>>
    decreases s.len(),
{
    if s.len() == 0 {
        seq![seq![]]
    } else {
        let parts = split_text(s.drop_last(), sep);
        if s.last() == sep {
            parts.push(seq![])
        } else {
            parts.update(parts.len() - 1, parts.last().push(s.last()))
        }
    }
}

pub proof fn lemma_split_text_nonempty(s: Seq<char>, sep: char)
    ensures
        split_text(s, sep).len() > 0,
    decreases s.len(),
{
    if s.len() > 0 {
        lemma_split_text_nonempty(s.drop_last(), sep);
    }
}

pub open spec fn texts(v: Seq<String>) -> Seq<Seq<char>> {
    v.map_values(|s: String| s@)
}

/// The parts of a text between occurrences of `sep`.
pub fn split_on(s: &str, sep: char) -> (r: Vec<String>)
    ensures
        texts(r@) == split_text(s@, sep),
        r@.len() == split_text(s@, sep).len(),
        forall|k: int| 0 <= k < r@.len() ==> (#[trigger] r@[k])@ == split_text(s@, sep)[k],
{
    let chars = chars_of(s);
    let mut r: Vec<String> = Vec::new();
    let mut part = String::new();
    assert(texts(r@).push(part@) =~= seq![seq![]]);
    for i in 0..chars.len()
        invariant
            chars@ == s@,
            texts(r@).push(part@) == split_text(s@.take(i as int), sep),
    {
        let c = chars[i];
        assert(s@.take(i + 1).drop_last() =~= s@.take(i as int));
        let ghost was = texts(r@).push(part@);
        if c == sep {
            let ghost p = part@;
            let ghost r0 = texts(r@);
            r.push(part);
            part = String::new();
            assert(texts(r@) =~= r0.push(p));
        } else {
            part.push(c);
            assert(texts(r@).push(part@) =~= was.update(was.len() - 1, was.last().push(c)));
        }
    }
    assert(s@.take(s@.len() as int) =~= s@);
    let ghost r0 = texts(r@);
    let ghost p = part@;
    r.push(part);
    assert(texts(r@) =~= r0.push(p));
    assert forall|k: int| 0 <= k < r@.len() implies (#[trigger] r@[k])@ == split_text(s@, sep)[k] by {
        assert(texts(r@)[k] == r@[k]@);
    }
    r
}

/// A text without `sep` is one part.
pub proof fn lemma_split_after(x: Seq<char>, q: Seq<char>, sep: char)
    requires
        !q.contains(sep),
    ensures
        split_text(x, sep).len() > 0,
        split_text(x + q, sep) == split_text(x, sep).update(
            split_text(x, sep).len() - 1,
            split_text(x, sep).last() + q,
        ),
    decreases q.len(),
{
    lemma_split_text_nonempty(x, sep);
    let parts = split_text(x, sep);
    if q.len() == 0 {
        assert(x + q =~= x);
        assert(parts.last() + q =~= parts.last());
        assert(parts.update(parts.len() - 1, parts.last()) =~= parts);
    } else {
        let r = q.drop_last();
        assert(q[q.len() - 1] == q.last());
        assert(!r.contains(sep)) by {
            if r.contains(sep) {
                let k = choose|k: int| 0 <= k < r.len() && r[k] == sep;
                assert(q[k] == sep);
            }
        }
        lemma_split_after(x, r, sep);
        assert((x + q).drop_last() =~= x + r);
        assert((x + q).last() == q.last());
        assert(q.contains(q.last()));
        assert((parts.last() + r).push(q.last()) =~= parts.last() + q);
        assert(split_text(x + q, sep) =~= parts.update(parts.len() - 1, parts.last() + q));
    }
}

/// No part holds the separator.
pub proof fn lemma_parts_without_separator(s: Seq<char>, sep: char)
    ensures
        forall|k: int|
            0 <= k < split_text(s, sep).len() ==> !(#[trigger] split_text(s, sep)[k]).contains(sep),
    decreases s.len(),
{
    let all = split_text(s, sep);
    if s.len() > 0 {
        let t = s.drop_last();
        lemma_parts_without_separator(t, sep);
        lemma_split_text_nonempty(t, sep);
        let parts = split_text(t, sep);
        assert forall|k: int| 0 <= k < all.len() implies !(#[trigger] all[k]).contains(sep) by {
            if k < parts.len() {
                assert(!parts[k].contains(sep));
                if s.last() != sep && k == parts.len() - 1 {
                    let q = parts.last().push(s.last());
                    assert(all[k] == q);
                    if q.contains(sep) {
                        let i = choose|i: int| 0 <= i < q.len() && q[i] == sep;
                        assert(parts[k][i] == sep);
                    }
                }
            }
        }
    }
}

/// A text that is two texts with the separator between them has the parts of both.
pub proof fn lemma_split_around(a: Seq<char>, b: Seq<char>, sep: char)
    ensures
        split_text(a.push(sep) + b, sep) == split_text(a, sep) + split_text(b, sep),
    decreases b.len(),
{
    let s = a.push(sep) + b;
    if b.len() == 0 {
        assert(s =~= a.push(sep));
        assert(s.drop_last() =~= a);
        assert(split_text(s, sep) =~= split_text(a, sep) + split_text(b, sep));
    } else {
        let c = b.drop_last();
        lemma_split_around(a, c, sep);
        lemma_split_text_nonempty(c, sep);
        assert(s.drop_last() =~= a.push(sep) + c);
        assert(s.last() == b.last());
        assert(split_text(s, sep) =~= split_text(a, sep) + split_text(b, sep));
    }
}

/// The parts of `parts` with `sep` between them.
pub open spec fn joined_text(parts: Seq<Seq<char>>, sep: char) -> Seq<char>
    decreases parts.len(),
{
    if parts.len() == 0 {
        seq![]
    } else if parts.len() == 1 {
        parts[0]
    } else {
        joined_text(parts.drop_last(), sep).push(sep) + parts.last()
    }
}

/// Splitting gives back the parts that were joined.
pub proof fn splitting_undoes_joining(parts: Seq<Seq<char>>, sep: char)
    requires
        parts.len() > 0,
        forall|i: int| 0 <= i < parts.len() ==> !(#[trigger] parts[i]).contains(sep),
    ensures
        split_text(joined_text(parts, sep), sep) == parts,
    decreases parts.len(),
{
    let e = Seq::<char>::empty();
    assert(split_text(e, sep) == seq![e]);
    if parts.len() == 1 {
        let p = parts[0];
        lemma_split_after(e, p, sep);
        assert(e + p =~= p);
        assert(split_text(p, sep) =~= parts);
    } else {
        let rest = parts.drop_last();
        let x = joined_text(rest, sep);
        assert(forall|i: int| 0 <= i < rest.len() ==> #[trigger] rest[i] == parts[i]);
        splitting_undoes_joining(rest, sep);
        assert(x.push(sep).drop_last() =~= x);
        assert(split_text(x.push(sep), sep) == rest.push(e));
        assert(!parts[parts.len() - 1].contains(sep));
        lemma_split_after(x.push(sep), parts.last(), sep);
        assert(e + parts.last() =~= parts.last());
        assert(split_text(joined_text(parts, sep), sep) =~= parts);
    }
}

/// The parts with `sep` between them.
pub fn join_with(parts: &Vec<String>, sep: char) -> (r: String)
    ensures
        r@ == joined_text(texts(parts@), sep),
{
    let ghost all = texts(parts@);
    let mut r = String::new();
    assert(r@ =~= joined_text(all.take(0), sep));
    for i in 0..parts.len()
        invariant
            all == texts(parts@),
            r@ == joined_text(all.take(i as int), sep),
    {
        assert(all.take(i + 1).drop_last() =~= all.take(i as int));
        assert(all[i as int] == parts@[i as int]@);
        if i > 0 {
            r.push(sep);
        }
        let ghost before = r@;
        r.append(parts[i].as_str());
        assert(i == 0 ==> before + all[0] =~= all[0]);
    }
    assert(all.take(all.len() as int) =~= all);
    r
}

} // verus!
