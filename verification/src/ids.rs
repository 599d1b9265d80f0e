//! Numbers for new topics and time stamps.
use crate::text::{append_digits, digits};
use vstd::prelude::*;
use vstd::string::*;

verus! {

/// The next free number of each family of topics. Features, requirements,
/// behaviors and characteristics share one; so do semantics, purposes and
/// placements; so do conditions, threats and invariants.
#[derive(Debug, Clone, Copy, PartialEq, Eq, Structural)]
pub struct IdCounters {
    pub next_spec: i32,
    pub next_functional_property: i32,
    pub next_adversarial_property: i32,
}

/// The number after `n`. After the largest comes the smallest.
pub open spec fn next_number(n: i32) -> i32 {
    if n == i32::MAX {
        i32::MIN
    } else {
        (n + 1) as i32
    }
}

fn number_after(n: i32) -> (r: i32)
    ensures
        r == next_number(n),
{
    if n == i32::MAX {
        i32::MIN
    } else {
        n + 1
    }
}

impl IdCounters {
    pub fn new() -> (r: Self)
        ensures
            r == (IdCounters {
                next_spec: 1,
                next_functional_property: 1,
                next_adversarial_property: 1,
            }),
    {
        IdCounters { next_spec: 1, next_functional_property: 1, next_adversarial_property: 1 }
    }
}

/// Takes a number for an `S` topic.
pub fn allocate_spec_id(counters: &mut IdCounters) -> (r: i32)
    ensures
        r == old(counters).next_spec,
        *final(counters) == (IdCounters { next_spec: next_number(r), ..*old(counters) }),
{
    let id = counters.next_spec;
    counters.next_spec = number_after(id);
    id
}

/// Lets the numbers for `S` topics go on after `max_loaded`.
pub fn reseed_spec_id(counters: &mut IdCounters, max_loaded: i32)
    requires
        max_loaded < i32::MAX,
    ensures
        *final(counters) == (IdCounters { next_spec: (max_loaded + 1) as i32, ..*old(counters) }),
{
    counters.next_spec = max_loaded + 1;
}

/// Takes a number for a `P` topic.
pub fn allocate_functional_property_id(counters: &mut IdCounters) -> (r: i32)
    ensures
        r == old(counters).next_functional_property,
        *final(counters) == (IdCounters {
            next_functional_property: next_number(r),
            ..*old(counters)
        }),
{
    let id = counters.next_functional_property;
    counters.next_functional_property = number_after(id);
    id
}

/// Lets the numbers for `P` topics go on after `max_loaded`.
pub fn reseed_functional_property_id(counters: &mut IdCounters, max_loaded: i32)
    requires
        max_loaded < i32::MAX,
    ensures
        *final(counters) == (IdCounters {
            next_functional_property: (max_loaded + 1) as i32,
            ..*old(counters)
        }),
{
    counters.next_functional_property = max_loaded + 1;
}

/// Takes a number for an `A` topic.
pub fn allocate_adversarial_property_id(counters: &mut IdCounters) -> (r: i32)
    ensures
        r == old(counters).next_adversarial_property,
        *final(counters) == (IdCounters {
            next_adversarial_property: next_number(r),
            ..*old(counters)
        }),
{
    let id = counters.next_adversarial_property;
    counters.next_adversarial_property = number_after(id);
    id
}

/// Lets the numbers for `A` topics go on after `max_loaded`.
pub fn reseed_adversarial_property_id(counters: &mut IdCounters, max_loaded: i32)
    requires
        max_loaded < i32::MAX,
    ensures
        *final(counters) == (IdCounters {
            next_adversarial_property: (max_loaded + 1) as i32,
            ..*old(counters)
        }),
{
    counters.next_adversarial_property = max_loaded + 1;
}
/// The number that comes after taking `k` numbers from `start` on.
pub open spec fn number_after_taking(start: i32, k: nat) -> i32
    decreases k,
{
    if k == 0 {
        start
    } else {
        next_number(number_after_taking(start, (k - 1) as nat))
    }
}

/// As long as the numbers last, each one taken is larger than all before.
pub proof fn taken_numbers_increase(start: i32, k: nat)
    requires
        start + k <= i32::MAX,
    ensures
        number_after_taking(start, k) == start + k,
    decreases k,
{
    if k > 0 {
        taken_numbers_increase(start, (k - 1) as nat);
    }
}

/// Whether a year of the Gregorian calendar has a leap day.
pub open spec fn is_leap(y: int) -> bool {
    y % 4 == 0 && (y % 100 != 0 || y % 400 == 0)
}

pub open spec fn days_in_month(y: int, m: int) -> int {
    if m == 2 {
        if is_leap(y) {
            29
        } else {
            28
        }
    } else if m == 4 || m == 6 || m == 9 || m == 11 {
        30
    } else {
        31
    }
}

/// How many days of year `y` come before month `m`.
pub open spec fn days_before_month(y: int, m: int) -> int
    decreases m,
{
    if m <= 1 {
        0
    } else {
        days_before_month(y, m - 1) + days_in_month(y, m - 1)
    }
}

/// How many days lie between the start of year 1 and the start of year `y`.
pub open spec fn days_before_year(y: int) -> int {
    365 * (y - 1) + (y - 1) / 4 - (y - 1) / 100 + (y - 1) / 400
}

/// How many days lie between the start of 1970 and a date.
pub open spec fn day_number(y: int, m: int, d: int) -> int {
    days_before_year(y) + days_before_month(y, m) + (d - 1) - days_before_year(1970)
}

pub open spec fn is_date(y: int, m: int, d: int) -> bool {
    1 <= m <= 12 && 1 <= d <= days_in_month(y, m)
}

/// Days from the first of March of year 0 to the first of March of year `y`.
spec fn march_days(y: int) -> int {
    365 * y + y / 4 - y / 100 + y / 400
}

/// Days from the first of March to the start of month `mp`, counted from March on.
spec fn march_month_days(mp: int) -> int {
    (153 * mp + 2) / 5
}

#[verifier::spinoff_prover]
proof fn lemma_march_first(y: int)
    ensures
        days_before_year(y) + 59 + (if is_leap(y) {
            1int
        } else {
            0int
        }) == march_days(y) - 306,
        days_before_year(y + 1) == march_days(y),
{
    assert(y / 4 - (y - 1) / 4 == if y % 4 == 0 { 1int } else { 0int });
    assert(y / 100 - (y - 1) / 100 == if y % 100 == 0 { 1int } else { 0int });
    assert(y / 400 - (y - 1) / 400 == if y % 400 == 0 { 1int } else { 0int });
    assert(y % 400 == 0 ==> y % 100 == 0);
    assert(y % 100 == 0 ==> y % 4 == 0);
}

#[verifier::spinoff_prover]
proof fn lemma_march_days_of_era(yoe: int, era: int)
    requires
        0 <= yoe < 400,
    ensures
        march_days(yoe + 400 * era) == march_days(yoe) + 146097 * era,
        yoe / 400 == 0,
{
    assert((yoe + 400 * era) / 4 == yoe / 4 + 100 * era);
    assert((yoe + 400 * era) / 100 == yoe / 100 + 4 * era);
    assert((yoe + 400 * era) / 400 == era);
}

proof fn lemma_months_before(y: int)
    ensures
        days_before_month(y, 1) == 0,
        days_before_month(y, 2) == 31,
        forall|m: int|
            3 <= m <= 12 ==> #[trigger] days_before_month(y, m) == 59 + (if is_leap(y) {
                1int
            } else {
                0int
            }) + march_month_days(m - 3),
{
    reveal_with_fuel(days_before_month, 13);
}

/// The year of the era in which day `doe` of the era lies.
#[verifier::spinoff_prover]
proof fn lemma_year_of_era(doe: int)
    requires
        0 <= doe < 146097,
    ensures
        ({
            let yoe = (doe - doe / 1460 + doe / 36524 - doe / 146096) / 365;
            &&& 0 <= yoe < 400
            &&& 365 * yoe + yoe / 4 - yoe / 100 <= doe
            &&& yoe < 399 ==> doe < 365 * (yoe + 1) + (yoe + 1) / 4 - (yoe + 1) / 100
        }),
{
    let a = doe / 1460;
    let b = doe / 36524;
    let c = doe / 146096;
    let yoe = (doe - a + b - c) / 365;
    assert(0 <= b <= 4);
    assert(0 <= c <= 1);
}

/// Different dates have different numbers.
pub proof fn day_numbers_tell_dates_apart(
    y: int,
    m: int,
    d: int,
    y2: int,
    m2: int,
    d2: int,
)
    requires
        is_date(y, m, d),
        is_date(y2, m2, d2),
        day_number(y, m, d) == day_number(y2, m2, d2),
    ensures
        y == y2,
        m == m2,
        d == d2,
{
    lemma_day_in_year(y, m, d);
    lemma_day_in_year(y2, m2, d2);
    if y < y2 {
        lemma_years_grow(y, y2);
    } else if y2 < y {
        lemma_years_grow(y2, y);
    } else if m < m2 {
        lemma_months_grow(y, m, m2);
    } else if m2 < m {
        lemma_months_grow(y, m2, m);
    }
}

proof fn lemma_months_grow(y: int, m: int, m2: int)
    requires
        1 <= m < m2 <= 12,
    ensures
        days_before_month(y, m) + days_in_month(y, m) <= days_before_month(y, m2),
    decreases m2 - m,
{
    if m2 > m + 1 {
        lemma_months_grow(y, m, m2 - 1);
    }
}

/// A day of a year comes before the next year starts.
proof fn lemma_day_in_year(y: int, m: int, d: int)
    requires
        is_date(y, m, d),
    ensures
        0 <= days_before_month(y, m) + (d - 1) < (if is_leap(y) {
            366int
        } else {
            365int
        }),
{
    lemma_months_before(y);
    assert(days_in_month(y, 12) == 31);
}

/// A multiple of 400 is one of 100, and a multiple of 100 is one of 4.
proof fn lemma_multiples_divide(y: int)
    ensures
        y % 400 == 0 ==> y % 100 == 0,
        y % 100 == 0 ==> y % 4 == 0,
{
    if y % 400 == 0 {
        let q = y / 400;
        assert(y == 400 * q);
        vstd::arithmetic::div_mod::lemma_mod_multiples_basic(4 * q, 100);
    }
    if y % 100 == 0 {
        let q = y / 100;
        assert(y == 100 * q);
        vstd::arithmetic::div_mod::lemma_mod_multiples_basic(25 * q, 4);
    }
}

proof fn lemma_years_grow(y: int, y2: int)
    requires
        y < y2,
    ensures
        days_before_year(y) + (if is_leap(y) {
            366int
        } else {
            365int
        }) <= days_before_year(y2),
    decreases y2 - y,
{
    let n = y - 1;
    lemma_quotient_grows(n, 4);
    lemma_quotient_grows(n, 100);
    lemma_quotient_grows(n, 400);
    lemma_multiples_divide(y);
    if y + 1 < y2 {
        lemma_years_grow(y + 1, y2);
    }
}

/// A second has one time stamp.
pub proof fn time_stamp_is_unique(secs: int, a: Seq<char>, b: Seq<char>)
    requires
        is_stamp_of(secs, a),
        is_stamp_of(secs, b),
    ensures
        a == b,
{
    let (y, m, d) = choose|y: int, m: int, d: int| #[trigger]
        is_date(y, m, d) && day_number(y, m, d) == secs / 86400 && a == stamp(
            y,
            m,
            d,
            (secs % 86400) / 3600,
            (secs % 3600) / 60,
            secs % 60,
        );
    let (y2, m2, d2) = choose|y: int, m: int, d: int| #[trigger]
        is_date(y, m, d) && day_number(y, m, d) == secs / 86400 && b == stamp(
            y,
            m,
            d,
            (secs % 86400) / 3600,
            (secs % 3600) / 60,
            secs % 60,
        );
    day_numbers_tell_dates_apart(y, m, d, y2, m2, d2);
}

/// `n` in decimal digits, filled up with zeros to `width` characters. The sign of
/// a number below zero is one of them.
pub open spec fn padded(n: int, width: int) -> Seq<char> {
    if n < 0 {
        seq!['-'] + zeros(width - 1 - digits((-n) as nat).len()) + digits((-n) as nat)
    } else {
        zeros(width - digits(n as nat).len()) + digits(n as nat)
    }
}

pub open spec fn zeros(k: int) -> Seq<char> {
    Seq::new(
        (if k < 0 {
            0
        } else {
            k
        }) as nat,
        |i: int| '0',
    )
}

/// The time stamp of a date and a time of day.
pub open spec fn stamp(y: int, m: int, d: int, h: int, mi: int, s: int) -> Seq<char> {
    padded(y, 4) + seq!['-'] + padded(m, 2) + seq!['-'] + padded(d, 2) + seq!['T'] + padded(h, 2)
        + seq![':'] + padded(mi, 2) + seq![':'] + padded(s, 2) + seq!['Z']
}

/// `r` is the time stamp of the second that comes `secs` after the start of 1970.
pub open spec fn is_stamp_of(secs: int, r: Seq<char>) -> bool {
    exists|y: int, m: int, d: int| #[trigger]
        is_date(y, m, d) && day_number(y, m, d) == secs / 86400 && r == stamp(
            y,
            m,
            d,
            (secs % 86400) / 3600,
            (secs % 3600) / 60,
            secs % 60,
        )
}

fn floor_div(a: i64, b: i64) -> (r: i64)
    requires
        b > 0,
    ensures
        r == a as int / b as int,
{
    if a >= 0 {
        a / b
    } else {
        let n: i64 = -(a + 1);
        let q: i64 = n / b;
        proof {
            let (a, b, n, q) = (a as int, b as int, n as int, q as int);
            assert(n == b * q + n % b && 0 <= n % b < b) by (nonlinear_arith)
                requires
                    b > 0,
                    q == n / b,
            ;
            let rem = b - 1 - n % b;
            assert(a == b * (-q - 1) + rem) by (nonlinear_arith)
                requires
                    n == b * q + n % b,
                    n == -(a + 1),
                    rem == b - 1 - n % b,
            ;
            vstd::arithmetic::div_mod::lemma_fundamental_div_mod_converse(a, b, -q - 1, rem);
        }
        -q - 1
    }
}

fn floor_rem(a: i64, b: i64) -> (r: i64)
    requires
        0 < b < 0x1_0000_0000,
    ensures
        r == a as int % b as int,
{
    let q: i64 = floor_div(a, b);
    proof {
        let (a, b, q) = (a as int, b as int, q as int);
        assert(a == b * q + a % b && 0 <= a % b < b) by (nonlinear_arith)
            requires
                b > 0,
                q == a / b,
        ;
        assert(q * b == b * q) by (nonlinear_arith);
        assert(i128::MIN <= a - b * q <= i128::MAX);
        assert(-0x1_0000_0000_0000_0000_0000_0000 < q * b < 0x1_0000_0000_0000_0000_0000_0000)
            by (nonlinear_arith)
            requires
                0 < b < 0x1_0000_0000,
                -0x8000_0000_0000_0000 <= q <= 0x7fff_ffff_ffff_ffff,
        ;
    }
    ((a as i128) - (q as i128) * (b as i128)) as i64
}

#[verifier::spinoff_prover]
fn count_digits(n: u64) -> (r: usize)
    ensures
        r == digits(n as nat).len(),
        1 <= r <= 20,
{
    let mut r: usize = 1;
    let mut rest: u64 = n;
    let ghost mut scale: int = 1;
    proof {
        vstd::arithmetic::power::lemma_pow0(10);
    }
    while rest >= 10
        invariant
            1 <= r,
            digits(n as nat).len() == r - 1 + digits(rest as nat).len(),
            scale >= 1,
            rest * scale <= n,
            r == 1 ==> scale == 1,
            r >= 2 ==> scale >= 10,
            scale == vstd::arithmetic::power::pow(10, (r - 1) as nat),
            r <= 20,
        decreases rest,
    {
        proof {
            vstd::arithmetic::power::lemma_pow_adds(10, (r - 1) as nat, 1);
            vstd::arithmetic::power::lemma_pow1(10);
            assert((rest / 10) * (scale * 10) <= n) by (nonlinear_arith)
                requires
                    rest * scale <= n,
                    scale >= 1,
                    rest >= 0,
            ;
            if r == 20 {
                assert(scale >= 10_000_000_000_000_000_000) by {
                    reveal(vstd::arithmetic::power::pow);
                    assert(vstd::arithmetic::power::pow(10, 19) == 10_000_000_000_000_000_000)
                        by {
                        reveal_with_fuel(vstd::arithmetic::power::pow, 20);
                    }
                }
                assert(rest * scale >= 10 * scale) by (nonlinear_arith)
                    requires
                        rest >= 10,
                        scale >= 1,
                ;
            }
            scale = scale * 10;
        }
        rest = rest / 10;
        r += 1;
    }
    r
}

fn append_zeros(out: &mut String, k: usize)
    ensures
        final(out)@ == old(out)@ + zeros(k as int),
{
    assert(old(out)@ + zeros(0) =~= old(out)@);
    for i in 0..k
        invariant
            out@ == old(out)@ + zeros(i as int),
    {
        out.push('0');
        assert(old(out)@ + zeros(i + 1) =~= (old(out)@ + zeros(i as int)).push('0'));
    }
}

fn append_padded(out: &mut String, n: i64, width: usize)
    requires
        width >= 1,
    ensures
        final(out)@ == old(out)@ + padded(n as int, width as int),
{
    let ghost start = out@;
    let negative = n < 0;
    let magnitude: u64 = if negative {
        (-(n as i128)) as u64
    } else {
        n as u64
    };
    if negative {
        out.push('-');
    }
    let room: usize = if negative {
        width - 1
    } else {
        width
    };
    let used = count_digits(magnitude);
    let fill: usize = if used < room {
        room - used
    } else {
        0
    };
    append_zeros(out, fill);
    append_digits(out, magnitude);
    proof {
        assert(zeros(fill as int) =~= zeros(room - used));
        if negative {
            assert(out@ =~= start + padded(n as int, width as int));
        } else {
            assert(out@ =~= start + padded(n as int, width as int));
        }
    }
}

/// The date on which the day with number `days` falls.
#[verifier::spinoff_prover]
fn civil_from_days(days: i64) -> (r: (i64, i64, i64))
    requires
        -200_000_000_000_000 <= days <= 200_000_000_000_000,
    ensures
        is_date(r.0 as int, r.1 as int, r.2 as int),
        day_number(r.0 as int, r.1 as int, r.2 as int) == days,
{
    let z: i64 = days + 719_468;
    let era: i64 = floor_div(z, 146_097);
    let doe: i64 = z - era * 146_097;
    let yoe: i64 = (doe - doe / 1_460 + doe / 36_524 - doe / 146_096) / 365;
    proof {
        lemma_year_of_era(doe as int);
        lemma_march_days_of_era(yoe as int, era as int);
    }
    let march_year: i64 = yoe + era * 400;
    let doy: i64 = doe - (365 * yoe + yoe / 4 - yoe / 100);
    assert(0 <= doy <= 365);
    let mp: i64 = (5 * doy + 2) / 153;
    assert(0 <= mp <= 11);
    let d: i64 = doy - (153 * mp + 2) / 5 + 1;
    let m: i64 = if mp < 10 {
        mp + 3
    } else {
        mp - 9
    };
    let y: i64 = if m <= 2 {
        march_year + 1
    } else {
        march_year
    };
    proof {
        lemma_march_first(march_year as int);
        lemma_months_before(y as int);
        lemma_leap_day(doe as int, yoe as int, era as int);
        assert(march_days(march_year as int) == 365 * yoe + yoe / 4 - yoe / 100 + 146097 * era);
        assert(days_before_year(1970) == 719162);
        if mp == 0 {
        } else if mp == 1 {
        } else if mp == 2 {
        } else if mp == 3 {
        } else if mp == 4 {
        } else if mp == 5 {
        } else if mp == 6 {
        } else if mp == 7 {
        } else if mp == 8 {
        } else if mp == 9 {
        } else if mp == 10 {
        } else {
        }
    }
    (y, m, d)
}

/// Years that are whole eras apart leap alike.
proof fn lemma_eras_leap_alike(n: int, era: int)
    ensures
        (n + 400 * era) % 4 == n % 4,
        (n + 400 * era) % 100 == n % 100,
        (n + 400 * era) % 400 == n % 400,
{
    vstd::arithmetic::div_mod::lemma_mod_multiples_vanish(100 * era, n, 4);
    vstd::arithmetic::div_mod::lemma_mod_multiples_vanish(4 * era, n, 100);
    vstd::arithmetic::div_mod::lemma_mod_multiples_vanish(era, n, 400);
}

/// A quotient grows where the divisor divides.
proof fn lemma_quotient_grows(n: int, k: int)
    requires
        k > 0,
    ensures
        (n + 1) / k == n / k + (if (n + 1) % k == 0 {
            1int
        } else {
            0int
        }),
{
    let q = n / k;
    let r = n % k;
    assert(n == k * q + r && 0 <= r < k) by (nonlinear_arith)
        requires
            k > 0,
            q == n / k,
            r == n % k,
    ;
    if r + 1 < k {
        assert(n + 1 == q * k + (r + 1)) by (nonlinear_arith)
            requires
                n == k * q + r,
        ;
        vstd::arithmetic::div_mod::lemma_fundamental_div_mod_converse(n + 1, k, q, r + 1);
    } else {
        assert(n + 1 == (q + 1) * k + 0) by (nonlinear_arith)
            requires
                n == k * q + r,
                r + 1 == k,
        ;
        vstd::arithmetic::div_mod::lemma_fundamental_div_mod_converse(n + 1, k, q + 1, 0);
    }
}

/// The last day of February counts as one of 29 only in a leap year.
proof fn lemma_leap_day(doe: int, yoe: int, era: int)
    requires
        0 <= doe < 146097,
        0 <= yoe < 400,
        365 * yoe + yoe / 4 - yoe / 100 <= doe,
        yoe < 399 ==> doe < 365 * (yoe + 1) + (yoe + 1) / 4 - (yoe + 1) / 100,
    ensures
        doe - (365 * yoe + yoe / 4 - yoe / 100) == 365 ==> is_leap(yoe + 400 * era + 1),
{
    let n = yoe + 1;
    lemma_eras_leap_alike(n, era);
    lemma_quotient_grows(yoe, 4);
    lemma_quotient_grows(yoe, 100);
    assert(yoe + 400 * era + 1 == n + 400 * era);
    if yoe == 399 {
        assert(n % 4 == 0 && n % 400 == 0);
    }
}

/// The UTC time stamp of a second, as `YYYY-MM-DDTHH:MM:SSZ`.
pub fn iso8601(secs: i64) -> (r: String)
    ensures
        is_stamp_of(secs as int, r@),
{
    let days: i64 = floor_div(secs, 86_400);
    let (y, m, d) = civil_from_days(days);
    let rem: i64 = floor_rem(secs, 86_400);
    assert(rem == secs as int % 86400);
    let h: i64 = rem / 3600;
    let mi: i64 = (rem % 3600) / 60;
    let s: i64 = rem % 60;
    assert(rem as int % 3600 == secs as int % 3600);
    assert(s == secs as int % 60);
    let mut out = String::new();
    append_padded(&mut out, y, 4);
    out.push('-');
    append_padded(&mut out, m, 2);
    out.push('-');
    append_padded(&mut out, d, 2);
    out.push('T');
    append_padded(&mut out, h, 2);
    out.push(':');
    append_padded(&mut out, mi, 2);
    out.push(':');
    append_padded(&mut out, s, 2);
    out.push('Z');
    assert(out@ =~= stamp(y as int, m as int, d as int, h as int, mi as int, s as int));
    out
}

/// `std::time::SystemTime`: a moment of the clock.
#[verifier::external_type_specification]
#[verifier::external_body]
pub struct ExSystemTime(std::time::SystemTime);

/// `std::time::SystemTimeError`: a moment before the one it was counted from.
#[verifier::external_type_specification]
#[verifier::external_body]
pub struct ExSystemTimeError(std::time::SystemTimeError);

/// `std::time::SystemTime::now`. Nothing is claimed of the moment.
#[verifier::external_body]
fn this_moment() -> (r: std::time::SystemTime)
{
    std::time::SystemTime::now()
}

/// `std::time::SystemTime::duration_since`, counted from the start of 1970. Nothing
/// is claimed of the span of time.
#[verifier::external_body]
fn since_epoch(t: &std::time::SystemTime) -> (r: Result<
    std::time::Duration,
    std::time::SystemTimeError,
>)
{
    t.duration_since(std::time::UNIX_EPOCH)
}

/// `std::time::Duration::as_secs`. Nothing is claimed of the number.
#[verifier::external_body]
fn whole_seconds(d: &std::time::Duration) -> (r: u64)
{
    d.as_secs()
}

/// The UTC time stamp of this moment. A clock that is set before 1970 counts as the
/// start of it.
pub fn now_iso8601() -> (r: String)
    ensures
        exists|secs: i64| #[trigger] is_stamp_of(secs as int, r@),
{
    let secs: i64 = match since_epoch(&this_moment()) {
        Ok(d) => #[verifier::truncate] (whole_seconds(&d) as i64),
        Err(_) => 0,
    };
    iso8601(secs)
}

/// A year has one day more where its number is divisible by four, except for full
/// centuries that are not divisible by four hundred, and four hundred years always have
/// the same number of days.
pub proof fn years_have_their_days(y: int)
    ensures
        days_before_year(y + 1) - days_before_year(y) == if y % 400 == 0 || (y % 4 == 0 && y % 100
            != 0) {
            366int
        } else {
            365int
        },
        days_before_month(y, 13) == days_before_year(y + 1) - days_before_year(y),
        days_before_year(y + 400) - days_before_year(y) == 400 * 365 + 97,
{
    lemma_multiples_divide(y);
    lemma_days_of_year(y);
    assert(y / 4 - (y - 1) / 4 == if y % 4 == 0 {
        1int
    } else {
        0int
    });
    assert(y / 100 - (y - 1) / 100 == if y % 100 == 0 {
        1int
    } else {
        0int
    });
    assert(y / 400 - (y - 1) / 400 == if y % 400 == 0 {
        1int
    } else {
        0int
    });
    lemma_after_an_era(y - 1);
}

proof fn lemma_after_an_era(n: int)
    ensures
        (n + 400) / 4 == n / 4 + 100,
        (n + 400) / 100 == n / 100 + 4,
        (n + 400) / 400 == n / 400 + 1,
{
}

proof fn lemma_days_of_year(y: int)
    ensures
        days_before_month(y, 13) == if is_leap(y) {
            366int
        } else {
            365int
        },
{
    reveal_with_fuel(days_before_month, 14);
    assert(days_before_month(y, 2) == 31);
}

} // verus!
