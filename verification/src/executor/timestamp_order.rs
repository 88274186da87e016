//! Timestamps sort as their instants do: the civil calendar of the
//! days-to-civil algorithm is increasing, and fixed-width fields compare
//! digit by digit.
use vstd::prelude::*;
use vstd::arithmetic::div_mod::lemma_fundamental_div_mod_converse;

use crate::executor::parallel::{civil_from_days, civil_spec, iso8601_spec};
use crate::text::{decimal, digit_char, lex_lt, pow10, zero_padded};

verus! {

/// Days before year `y` of a 400-year era, in years that start on March 1.
pub open spec fn days_before_year(y: int) -> int {
    365 * y + y / 4 - y / 100
}

/// The year of era that the days-to-civil algorithm gives for day `doe`.
pub open spec fn year_of_era(doe: int) -> int {
    (doe - doe / 1460 + doe / 36524 - doe / 146096) / 365
}

/// Month and day of day `doy` of a year that starts on March 1, as one
/// number `100 * month + day`, plus 10000 for January and February (which
/// belong to the next calendar year).
pub open spec fn month_day_key(doy: int) -> int {
    let mp = (5 * doy + 2) / 153;
    let d = doy - (153 * mp + 2) / 5 + 1;
    let m = if mp < 10 { mp + 3 } else { mp - 9 };
    (if m <= 2 { 10000int } else { 0int }) + m * 100 + d
}

/// Calendar position of day `doe` of an era, as one number.
pub open spec fn era_key(doe: int) -> int {
    let yoe = year_of_era(doe);
    yoe * 10000 + month_day_key(doe - days_before_year(yoe))
}

#[verifier::spinoff_prover]
#[verifier::rlimit(100)]
proof fn lemma_year_of_era_bounds(doe: int)
    requires
        0 <= doe <= 146096,
    ensures
        0 <= year_of_era(doe) <= 399,
        0 <= doe - days_before_year(year_of_era(doe)) <= 365,
{
}

proof fn lemma_year_of_era_step(doe: int)
    requires
        0 <= doe < 146096,
    ensures
        year_of_era(doe + 1) == year_of_era(doe) || year_of_era(doe + 1) == year_of_era(doe) + 1,
{
}

proof fn lemma_month_day_key_bounds(doy: int)
    requires
        0 <= doy <= 365,
    ensures
        301 <= month_day_key(doy) <= 10229,
{
}

proof fn lemma_month_day_key_step(doy: int)
    requires
        0 <= doy < 365,
    ensures
        month_day_key(doy) < month_day_key(doy + 1),
{
}

proof fn lemma_era_key_step(doe: int)
    requires
        0 <= doe < 146096,
    ensures
        era_key(doe) < era_key(doe + 1),
{
    lemma_year_of_era_bounds(doe);
    lemma_year_of_era_bounds(doe + 1);
    lemma_year_of_era_step(doe);
    let y0 = year_of_era(doe);
    let y1 = year_of_era(doe + 1);
    lemma_month_day_key_bounds(doe - days_before_year(y0));
    lemma_month_day_key_bounds(doe + 1 - days_before_year(y1));
    if y0 == y1 {
        lemma_month_day_key_step(doe - days_before_year(y0));
    }
}

proof fn lemma_month_day_fields(doy: int)
    requires
        0 <= doy <= 365,
    ensures
        ({
            let mp = (5 * doy + 2) / 153;
            let d = doy - (153 * mp + 2) / 5 + 1;
            &&& 0 <= mp <= 11
            &&& 1 <= d <= 31
        }),
{
}

/// The civil date of day `days` after 1970-01-01, as one number
/// `10000 * year + 100 * month + day`.
pub open spec fn civil_key(days: int) -> int {
    let (y, m, d) = civil_from_days(days);
    y * 10000 + m * 100 + d
}

proof fn lemma_civil_fields(days: int)
    requires
        0 <= days,
    ensures
        ({
            let z = days + 719468;
            let (y, m, d) = civil_from_days(days);
            &&& civil_key(days) == (z / 146097) * 4000000 + era_key(z % 146097)
            &&& 1 <= m <= 12
            &&& 1 <= d <= 31
        }),
{
    let z = days + 719468;
    let doe = z % 146097;
    lemma_year_of_era_bounds(doe);
    lemma_month_day_fields(doe - days_before_year(year_of_era(doe)));
}

proof fn lemma_civil_key_step(days: int)
    requires
        0 <= days,
    ensures
        civil_key(days) < civil_key(days + 1),
{
    lemma_civil_fields(days);
    lemma_civil_fields(days + 1);
    let z = days + 719468;
    let doe = z % 146097;
    if doe < 146096 {
        assert((z + 1) / 146097 == z / 146097);
        assert((z + 1) % 146097 == doe + 1);
        lemma_era_key_step(doe);
    } else {
        assert((z + 1) / 146097 == z / 146097 + 1);
        assert((z + 1) % 146097 == 0);
        lemma_year_of_era_bounds(doe);
        lemma_month_day_key_bounds(doe - days_before_year(year_of_era(doe)));
        lemma_year_of_era_bounds(0);
        lemma_month_day_key_bounds(0 - days_before_year(year_of_era(0)));
    }
}

/// Later days have later civil dates.
proof fn lemma_civil_key_increasing(a: int, b: int)
    requires
        0 <= a < b,
    ensures
        civil_key(a) < civil_key(b),
    decreases b - a,
{
    lemma_civil_key_step(a);
    if a + 1 < b {
        lemma_civil_key_increasing(a + 1, b);
    }
}

// ── Text order ───────────────────────────────────────────────────────────────

proof fn lemma_digit_code(k: nat)
    requires
        k < 10,
    ensures
        digit_char(k) as u32 == 48 + k,
{
}

/// Two same-length texts in order stay in order whatever follows them.
proof fn lemma_lex_prefix_lt(x: Seq<char>, y: Seq<char>, r1: Seq<char>, r2: Seq<char>)
    requires
        x.len() == y.len(),
        lex_lt(x, y),
    ensures
        lex_lt(x + r1, y + r2),
    decreases x.len(),
{
    assert((x + r1)[0] == x[0]);
    assert((y + r2)[0] == y[0]);
    if x[0] == y[0] {
        assert((x + r1).drop_first() =~= x.drop_first() + r1);
        assert((y + r2).drop_first() =~= y.drop_first() + r2);
        lemma_lex_prefix_lt(x.drop_first(), y.drop_first(), r1, r2);
    }
}

/// A shared prefix does not change the order.
proof fn lemma_lex_same_prefix(x: Seq<char>, r1: Seq<char>, r2: Seq<char>)
    ensures
        lex_lt(x + r1, x + r2) == lex_lt(r1, r2),
    decreases x.len(),
{
    if x.len() == 0 {
        assert(x + r1 =~= r1);
        assert(x + r2 =~= r2);
    } else {
        assert((x + r1)[0] == x[0]);
        assert((x + r2)[0] == x[0]);
        assert((x + r1).drop_first() =~= x.drop_first() + r1);
        assert((x + r2).drop_first() =~= x.drop_first() + r2);
        lemma_lex_same_prefix(x.drop_first(), r1, r2);
    }
}

/// `n` in exactly `w` digits, most significant first.
pub open spec fn fixed_digits(n: nat, w: nat) -> Seq<char>
    decreases w,
{
    if w == 0 {
        Seq::empty()
    } else {
        fixed_digits(n / 10, (w - 1) as nat).push(digit_char(n % 10))
    }
}

proof fn lemma_zero_padded_fixed(n: nat, w: nat)
    requires
        2 <= w <= 4,
        n < (if w == 2 { 100nat } else if w == 3 { 1000nat } else { 10000nat }),
    ensures
        zero_padded(n, w) == fixed_digits(n, w),
{
    reveal_with_fuel(decimal, 5);
    reveal_with_fuel(fixed_digits, 5);
    assert(zero_padded(n, w) =~= fixed_digits(n, w));
}

proof fn lemma_fixed_digits_len(n: nat, w: nat)
    ensures
        fixed_digits(n, w).len() == w,
    decreases w,
{
    if w > 0 {
        lemma_fixed_digits_len(n / 10, (w - 1) as nat);
    }
}

/// Smaller numbers have smaller fixed-width digit texts.
proof fn lemma_fixed_digits_lt(n1: nat, n2: nat, w: nat)
    requires
        n1 < n2,
        n2 < pow10(w),
    ensures
        lex_lt(fixed_digits(n1, w), fixed_digits(n2, w)),
    decreases w,
{
    if w == 0 {
        assert(pow10(0) == 1);
    } else {
        let w1 = (w - 1) as nat;
        assert(pow10(w) == 10 * pow10(w1));
        let p1 = fixed_digits(n1 / 10, w1);
        let p2 = fixed_digits(n2 / 10, w1);
        lemma_fixed_digits_len(n1 / 10, w1);
        lemma_fixed_digits_len(n2 / 10, w1);
        let c1 = digit_char(n1 % 10);
        let c2 = digit_char(n2 % 10);
        assert(fixed_digits(n1, w) =~= p1 + seq![c1]);
        assert(fixed_digits(n2, w) =~= p2 + seq![c2]);
        if n1 / 10 < n2 / 10 {
            lemma_fixed_digits_lt(n1 / 10, n2 / 10, w1);
            lemma_lex_prefix_lt(p1, p2, seq![c1], seq![c2]);
        } else {
            assert(n1 / 10 == n2 / 10);
            lemma_lex_same_prefix(p1, seq![c1], seq![c2]);
            lemma_digit_code(n1 % 10);
            lemma_digit_code(n2 % 10);
            assert(seq![c1][0] == c1);
            assert(seq![c2][0] == c2);
            assert(c1 != c2);
        }
    }
}

// ── Timestamps ───────────────────────────────────────────────────────────────

/// The width of field `k` of a timestamp: the year has four digits, the
/// milliseconds three, the rest two.
pub open spec fn field_width(k: int) -> nat {
    if k == 0 { 4 } else if k == 6 { 3 } else { 2 }
}

/// The character after field `k` of a timestamp.
pub open spec fn field_sep(k: int) -> char {
    if k <= 1 { '-' } else if k == 2 { 'T' } else if k <= 4 { ':' } else if k == 5 { '.' } else { 'Z' }
}

/// The timestamp text from field `k` on: each field in its width, then its
/// separator.
pub open spec fn stamp_from(f: Seq<nat>, k: int) -> Seq<char>
    decreases 7 - k,
{
    if k < 0 || k >= 7 {
        Seq::empty()
    } else {
        fixed_digits(f[k], field_width(k)) + (seq![field_sep(k)] + stamp_from(f, k + 1))
    }
}

/// `a` comes before `b` field by field from field `k` on.
pub open spec fn fields_lt(a: Seq<nat>, b: Seq<nat>, k: int) -> bool
    decreases 7 - k,
{
    if k < 0 || k >= 7 {
        false
    } else if a[k] < b[k] {
        true
    } else if a[k] == b[k] {
        fields_lt(a, b, k + 1)
    } else {
        false
    }
}

/// Every field fits its width.
pub open spec fn fields_fit(f: Seq<nat>) -> bool {
    &&& f.len() == 7
    &&& forall|k: int| 0 <= k < 7 ==> #[trigger] f[k] < pow10(field_width(k))
}

proof fn lemma_stamp_lt(a: Seq<nat>, b: Seq<nat>, k: int)
    requires
        0 <= k <= 7,
        fields_fit(a),
        fields_fit(b),
        fields_lt(a, b, k),
    ensures
        lex_lt(stamp_from(a, k), stamp_from(b, k)),
    decreases 7 - k,
{
    let w = field_width(k);
    let tail_a = seq![field_sep(k)] + stamp_from(a, k + 1);
    let tail_b = seq![field_sep(k)] + stamp_from(b, k + 1);
    assert(a[k] < pow10(w));
    assert(b[k] < pow10(w));
    if a[k] < b[k] {
        lemma_fixed_digits_len(a[k], w);
        lemma_fixed_digits_len(b[k], w);
        lemma_fixed_digits_lt(a[k], b[k], w);
        lemma_lex_prefix_lt(fixed_digits(a[k], w), fixed_digits(b[k], w), tail_a, tail_b);
    } else {
        lemma_stamp_lt(a, b, k + 1);
        lemma_lex_same_prefix(seq![field_sep(k)], stamp_from(a, k + 1), stamp_from(b, k + 1));
        lemma_lex_same_prefix(fixed_digits(a[k], w), tail_a, tail_b);
    }
}

/// The fields of the timestamp of `secs` seconds and `millis` milliseconds
/// after the epoch: year, month, day, hour, minute, second, millisecond.
pub open spec fn time_fields(secs: nat, millis: nat) -> Seq<nat> {
    let (y, m, d, hh, mm, ss) = civil_spec(secs);
    seq![y as nat, m as nat, d as nat, hh as nat, mm as nat, ss as nat, millis]
}

/// The last second of year 9999, plus one.
pub open spec fn end_of_year_9999() -> nat {
    253402300800
}

proof fn lemma_civil_endpoints()
    ensures
        civil_key(0) == 19700101,
        civil_key(2932896) == 99991231,
{
    assert(719468int / 146097 == 4 && 719468int % 146097 == 135080);
    assert(year_of_era(135080) == 369);
    assert(days_before_year(369) == 134774);
    assert((5 * 306int + 2) / 153 == 10);
    assert((153 * 10int + 2) / 5 == 306);
    assert(civil_from_days(0) == (1970int, 1int, 1int));
    assert(3652364int / 146097 == 24 && 3652364int % 146097 == 146036);
    assert(year_of_era(146036) == 399);
    assert(days_before_year(399) == 145731);
    assert((5 * 305int + 2) / 153 == 9);
    assert((153 * 9int + 2) / 5 == 275);
    assert(civil_from_days(2932896) == (9999int, 12int, 31int));
}

#[verifier::spinoff_prover]
#[verifier::rlimit(100)]
proof fn lemma_year_range(days: int)
    requires
        0 <= days <= 2932896,
    ensures
        ({
            let (y, m, d) = civil_from_days(days);
            &&& 1970 <= y <= 9999
            &&& 1 <= m <= 12
            &&& 1 <= d <= 31
        }),
{
    lemma_civil_fields(days);
    lemma_civil_endpoints();
    if 0 < days {
        lemma_civil_key_increasing(0, days);
    }
    if days < 2932896 {
        lemma_civil_key_increasing(days, 2932896);
    }
}

/// The timestamp text of fields `f`, written as `iso8601_spec` writes it.
pub open spec fn stamp_text(f: Seq<nat>) -> Seq<char> {
    zero_padded(f[0], 4) + seq!['-'] + zero_padded(f[1], 2) + seq!['-'] + zero_padded(f[2], 2) + seq!['T']
        + zero_padded(f[3], 2) + seq![':'] + zero_padded(f[4], 2) + seq![':'] + zero_padded(f[5], 2) + seq!['.']
        + zero_padded(f[6], 3) + seq!['Z']
}

/// Seven pieces joined by the timestamp separators, grouped from the left.
pub open spec fn join_left(p: Seq<Seq<char>>) -> Seq<char> {
    p[0] + seq!['-'] + p[1] + seq!['-'] + p[2] + seq!['T'] + p[3] + seq![':'] + p[4] + seq![':'] + p[5] + seq!['.']
        + p[6] + seq!['Z']
}

/// Seven pieces joined by the timestamp separators, grouped from the right.
pub open spec fn join_right(p: Seq<Seq<char>>) -> Seq<char> {
    p[0] + (seq!['-'] + (p[1] + (seq!['-'] + (p[2] + (seq!['T'] + (p[3] + (seq![':'] + (p[4] + (seq![':'] + (p[5]
        + (seq!['.'] + (p[6] + (seq!['Z'] + Seq::empty())))))))))))))
}

#[verifier::spinoff_prover]
proof fn lemma_join_regroup(p: Seq<Seq<char>>)
    requires
        p.len() == 7,
    ensures
        join_left(p) == join_right(p),
{
    assert(join_left(p) =~= join_right(p));
}

#[verifier::spinoff_prover]
proof fn lemma_stamp_from_right(f: Seq<nat>)
    requires
        f.len() == 7,
    ensures
        stamp_from(f, 0) == join_right(Seq::new(7, |k: int| fixed_digits(f[k], field_width(k)))),
{
    reveal_with_fuel(stamp_from, 8);
}

#[verifier::spinoff_prover]
#[verifier::rlimit(100)]
proof fn lemma_stamp_text(f: Seq<nat>)
    requires
        fields_fit(f),
    ensures
        stamp_text(f) == stamp_from(f, 0),
{
    reveal_with_fuel(pow10, 5);
    assert(f[0] < 10000 && f[1] < 100 && f[2] < 100 && f[3] < 100);
    assert(f[4] < 100 && f[5] < 100 && f[6] < 1000);
    lemma_zero_padded_fixed(f[0], 4);
    lemma_zero_padded_fixed(f[1], 2);
    lemma_zero_padded_fixed(f[2], 2);
    lemma_zero_padded_fixed(f[3], 2);
    lemma_zero_padded_fixed(f[4], 2);
    lemma_zero_padded_fixed(f[5], 2);
    lemma_zero_padded_fixed(f[6], 3);
    let p = Seq::new(7, |k: int| fixed_digits(f[k], field_width(k)));
    assert(stamp_text(f) == join_left(p));
    lemma_join_regroup(p);
    lemma_stamp_from_right(f);
}

#[verifier::spinoff_prover]
#[verifier::rlimit(100)]
proof fn lemma_time_fields(secs: nat, millis: nat)
    requires
        secs < end_of_year_9999(),
        millis < 1000,
    ensures
        fields_fit(time_fields(secs, millis)),
        iso8601_spec(secs, millis) == stamp_text(time_fields(secs, millis)),
{
    let days = (secs / 86400) as int;
    lemma_year_range(days);
    reveal_with_fuel(pow10, 5);
    let f = time_fields(secs, millis);
    assert(f[0] < 10000 && f[1] < 100 && f[2] < 100);
    assert(f[3] < 100 && f[4] < 100 && f[5] < 100 && f[6] < 1000);
    assert(fields_fit(f));
}

/// Hour, minute and second of `s` depend on its second of the day alone.
proof fn lemma_clock_of(s: nat)
    ensures
        ({
            let t = s % 86400;
            &&& (s / 3600) % 24 == t / 3600
            &&& (s / 60) % 60 == (t / 60) % 60
            &&& s % 60 == t % 60
            &&& t < 86400
        }),
{
    let days = (s / 86400) as int;
    let t = (s % 86400) as int;
    let si = s as int;
    assert(si == days * 86400 + t);
    let h = t / 3600;
    assert(t == h * 3600 + t % 3600);
    lemma_fundamental_div_mod_converse(si, 3600, days * 24 + h, t % 3600);
    lemma_fundamental_div_mod_converse(days * 24 + h, 24, days, h);
    let m = t / 60;
    assert(t == m * 60 + t % 60);
    lemma_fundamental_div_mod_converse(si, 60, days * 1440 + m, t % 60);
    assert(m == (m / 60) * 60 + m % 60);
    lemma_fundamental_div_mod_converse(days * 1440 + m, 60, days * 24 + m / 60, m % 60);
}

/// Within a day, a later second has a later `(hour, minute, second)`.
proof fn lemma_clock_fields_lt(s1: nat, s2: nat)
    requires
        s1 < s2,
        s1 / 86400 == s2 / 86400,
    ensures
        ({
            let (h1, mi1, se1) = ((s1 / 3600) % 24, (s1 / 60) % 60, s1 % 60);
            let (h2, mi2, se2) = ((s2 / 3600) % 24, (s2 / 60) % 60, s2 % 60);
            h1 < h2 || (h1 == h2 && (mi1 < mi2 || (mi1 == mi2 && se1 < se2)))
        }),
{
    lemma_clock_of(s1);
    lemma_clock_of(s2);
    let t1 = s1 % 86400;
    let t2 = s2 % 86400;
    assert(t1 < t2);
}

/// Between two days, the later one has a later `(year, month, day)`.
proof fn lemma_date_fields_lt(a: int, b: int)
    requires
        0 <= a < b <= 2932896,
    ensures
        ({
            let (y1, m1, d1) = civil_from_days(a);
            let (y2, m2, d2) = civil_from_days(b);
            y1 < y2 || (y1 == y2 && (m1 < m2 || (m1 == m2 && d1 < d2)))
        }),
{
    lemma_civil_key_increasing(a, b);
    lemma_year_range(a);
    lemma_year_range(b);
}

#[verifier::spinoff_prover]
#[verifier::rlimit(100)]
proof fn lemma_time_fields_lt(s1: nat, m1: nat, s2: nat, m2: nat)
    requires
        m1 < 1000,
        m2 < 1000,
        s1 * 1000 + m1 < s2 * 1000 + m2,
        s2 < end_of_year_9999(),
    ensures
        fields_lt(time_fields(s1, m1), time_fields(s2, m2), 0),
{
    reveal_with_fuel(fields_lt, 8);
    assert(s1 <= s2);
    let a = (s1 / 86400) as int;
    let b = (s2 / 86400) as int;
    assert(a <= b && b <= 2932896);
    lemma_year_range(a);
    lemma_year_range(b);
    if a < b {
        lemma_date_fields_lt(a, b);
    } else if s1 < s2 {
        lemma_clock_fields_lt(s1, s2);
    }
}

/// Later instants give later timestamps: of two instants before the end of
/// year 9999, given as seconds and milliseconds after the epoch, the earlier
/// one's ISO 8601 text sorts strictly before the later one's.
pub proof fn lemma_iso8601_monotonic(s1: nat, m1: nat, s2: nat, m2: nat)
    requires
        m1 < 1000,
        m2 < 1000,
        s1 * 1000 + m1 < s2 * 1000 + m2,
        s2 < end_of_year_9999(),
    ensures
        lex_lt(iso8601_spec(s1, m1), iso8601_spec(s2, m2)),
{
    assert(s1 < end_of_year_9999());
    lemma_time_fields(s1, m1);
    lemma_time_fields(s2, m2);
    lemma_stamp_text(time_fields(s1, m1));
    lemma_stamp_text(time_fields(s2, m2));
    lemma_time_fields_lt(s1, m1, s2, m2);
    lemma_stamp_lt(time_fields(s1, m1), time_fields(s2, m2), 0);
}

} // verus!
