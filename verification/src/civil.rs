use vstd::prelude::*;
use vstd::arithmetic::div_mod::lemma_fundamental_div_mod_converse;
use crate::text::{decimal_padded, push_decimal_padded, string_from_chars};

verus! {

/// Gregorian leap year.
pub open spec fn is_leap(y: int) -> bool {
    y % 4 == 0 && (y % 100 != 0 || y % 400 == 0)
}

pub open spec fn leap_days(y: int) -> int {
    if is_leap(y) { 1 } else { 0 }
}

/// Number of days of month `m` (1..=12) of year `y`.
pub open spec fn days_in_month(y: int, m: int) -> int {
    if m == 2 {
        28 + leap_days(y)
    } else if m == 4 || m == 6 || m == 9 || m == 11 {
        30
    } else {
        31
    }
}

/// Days from 0000-01-01 to the first of January of year `y` (proleptic
/// Gregorian calendar; negative for years before 0).
pub open spec fn days_before_year(y: int) -> int {
    365 * y + (y + 3) / 4 - (y + 99) / 100 + (y + 399) / 400
}

/// Days of the months before month `m` in a common year.
pub open spec fn common_days_before_month(m: int) -> int {
    if m <= 1 {
        0
    } else if m == 2 {
        31
    } else if m == 3 {
        59
    } else if m == 4 {
        90
    } else if m == 5 {
        120
    } else if m == 6 {
        151
    } else if m == 7 {
        181
    } else if m == 8 {
        212
    } else if m == 9 {
        243
    } else if m == 10 {
        273
    } else if m == 11 {
        304
    } else {
        334
    }
}

/// Days from the first of January of year `y` to the first of month `m`.
pub open spec fn days_before_month(y: int, m: int) -> int {
    common_days_before_month(m) + if m > 2 { leap_days(y) } else { 0 }
}

/// Days since 1970-01-01 of the date `y`-`m`-`d`.
pub open spec fn days_from_civil(y: int, m: int, d: int) -> int {
    days_before_year(y) + days_before_month(y, m) + d - 1 - 719528
}

/// `y`-`m`-`d` is a real date.
pub open spec fn valid_date(y: int, m: int, d: int) -> bool {
    1 <= m <= 12 && 1 <= d <= days_in_month(y, m)
}

/// First day (counted from the era's 1 March) of the March-based year `k`
/// of a 400-year era.
spec fn mar_year_start(k: int) -> int {
    365 * k + k / 4 - k / 100
}

/// Length of the March-based year `k` of an era: it ends with February of
/// calendar year `k + 1`.
spec fn mar_year_len(k: int) -> int {
    365 + leap_days(k + 1)
}

/// First day of the March-based month `mp` (0 = March, ..., 11 = February).
spec fn mar_month_start(mp: int) -> int {
    (153 * mp + 2) / 5
}

proof fn lemma_year_of_era(doe: int)
    requires
        0 <= doe <= 146096,
    ensures
        ({
            let yoe = (doe - doe / 1460 + doe / 36524 - doe / 146096) / 365;
            &&& 0 <= yoe <= 399
            &&& mar_year_start(yoe) <= doe < mar_year_start(yoe) + mar_year_len(yoe)
        }),
{
    if doe == 146096 {
        assert(doe / 1460 == 100);
        assert(doe / 36524 == 4);
        assert(doe / 146096 == 1);
        let yoe = (doe - doe / 1460 + doe / 36524 - doe / 146096) / 365;
        assert(yoe == 399);
        assert(mar_year_start(399) == 145731);
        assert(leap_days(400) == 1);
    } else {
        let c = doe / 36524;
        let r = doe % 36524;
        lemma_fundamental_div_mod_converse(doe, 36524, c, r);
        assert(0 <= c <= 3) by {
            if c >= 4 {
                assert(doe >= 4 * 36524);
            }
        }
        let q = r / 1461;
        let s = r % 1461;
        lemma_fundamental_div_mod_converse(r, 1461, q, s);
        assert(0 <= q <= 24);
        assert(q == 24 ==> s <= 1459);
        assert(doe / 146096 == 0);
        let delta = if 24 * c + q + s >= 1460 { 1int } else { 0int };
        lemma_fundamental_div_mod_converse(doe, 1460, 25 * c + q + delta, 24 * c + q + s - 1460 * delta);
        let p = if s >= 1095 { 3int } else { s / 365 };
        let e = 36500 * c + 1460 * q + s - delta;
        assert(doe - doe / 1460 + doe / 36524 - doe / 146096 == e);
        let t = if s >= 1095 { s - delta - 1095 } else { s % 365 };
        if s < 1095 {
            lemma_fundamental_div_mod_converse(s, 365, p, t);
            assert(delta == 0);
        }
        assert(0 <= t < 365);
        lemma_fundamental_div_mod_converse(e, 365, 100 * c + 4 * q + p, t);
        let k = 100 * c + 4 * q + p;
        lemma_fundamental_div_mod_converse(k, 4, 25 * c + q, p);
        lemma_fundamental_div_mod_converse(k, 100, c, 4 * q + p);
        assert(mar_year_start(k) == 36524 * c + 1461 * q + 365 * p);
        if p == 3 && s == 1460 {
            assert(q < 24);
            lemma_fundamental_div_mod_converse(k + 1, 4, 25 * c + q + 1, 0);
            lemma_fundamental_div_mod_converse(k + 1, 100, c, 4 * q + 4);
            assert(leap_days(k + 1) == 1);
        }
    }
}

proof fn lemma_month_of_year(doy: int)
    requires
        0 <= doy <= 365,
    ensures
        ({
            let mp = (5 * doy + 2) / 153;
            &&& 0 <= mp <= 11
            &&& mar_month_start(mp) <= doy
            &&& mp < 11 ==> doy < mar_month_start(mp + 1)
        }),
{
    let mp = (5 * doy + 2) / 153;
    let t = (5 * doy + 2) % 153;
    lemma_fundamental_div_mod_converse(5 * doy + 2, 153, mp, t);
    assert(0 <= mp <= 11);
    let a = mar_month_start(mp);
    lemma_fundamental_div_mod_converse(153 * mp + 2, 5, a, (153 * mp + 2) % 5);
    if mp < 11 {
        let b = mar_month_start(mp + 1);
        lemma_fundamental_div_mod_converse(153 * (mp + 1) + 2, 5, b, (153 * (mp + 1) + 2) % 5);
    }
}

/// Stepping `x` by one moves `(x + d) / d` past `(x + d - 1) / d` exactly
/// when `d` divides `x`.
proof fn lemma_ceil_step(x: int, d: int)
    requires
        d == 4 || d == 100 || d == 400,
    ensures
        (x + d) / d - (x + d - 1) / d == if x % d == 0 { 1int } else { 0int },
{
    if d == 4 {
        lemma_ceil_step_const(x, 4);
    } else if d == 100 {
        lemma_ceil_step_const(x, 100);
    } else {
        lemma_ceil_step_const(x, 400);
    }
}

proof fn lemma_ceil_step_const(x: int, d: int)
    requires
        d == 4 || d == 100 || d == 400,
    ensures
        (x + d) / d - (x + d - 1) / d == if x % d == 0 { 1int } else { 0int },
{
    let q = x / d;
    let r = x % d;
    vstd::arithmetic::div_mod::lemma_fundamental_div_mod(x, d);
    assert(x == d * q + r);
    assert(0 <= r < d);
    assert((q + 1) * d == q * d + d) by (nonlinear_arith);
    assert(q * d == d * q) by (nonlinear_arith);
    if r == 0 {
        lemma_fundamental_div_mod_converse(x + d, d, q + 1, 0);
        lemma_fundamental_div_mod_converse(x + d - 1, d, q, d - 1);
    } else {
        lemma_fundamental_div_mod_converse(x + d, d, q + 1, r);
        lemma_fundamental_div_mod_converse(x + d - 1, d, q + 1, r - 1);
    }
}

/// Consecutive years are a year's length apart.
proof fn lemma_days_before_next_year(y: int)
    ensures
        days_before_year(y + 1) == days_before_year(y) + 365 + leap_days(y),
{
    lemma_ceil_step(y, 4);
    lemma_ceil_step(y, 100);
    lemma_ceil_step(y, 400);
    assert((y + 1) + 3 == y + 4 && (y + 1) + 99 == y + 100 && (y + 1) + 399 == y + 400);
}

/// The 1st of March of year `400 e + k` falls `146097 e + mar_year_start(k) + 60`
/// days after 0000-01-01.
proof fn lemma_era_march_first(e: int, k: int)
    requires
        0 <= k <= 399,
    ensures
        days_before_year(400 * e + k) + 59 + leap_days(400 * e + k) == 146097 * e + mar_year_start(k) + 60,
{
    let y = 400 * e + k;
    lemma_fundamental_div_mod_converse(y + 3, 4, 100 * e + (k + 3) / 4, (k + 3) % 4);
    lemma_fundamental_div_mod_converse(y + 99, 100, 4 * e + (k + 99) / 100, (k + 99) % 100);
    lemma_fundamental_div_mod_converse(y + 399, 400, e + (k + 399) / 400, (k + 399) % 400);
    lemma_fundamental_div_mod_converse(y, 4, 100 * e + k / 4, k % 4);
    lemma_fundamental_div_mod_converse(y, 100, 4 * e + k / 100, k % 100);
    lemma_fundamental_div_mod_converse(y, 400, e, k);
    lemma_fundamental_div_mod_converse(k + 3, 4, (k + 3) / 4, (k + 3) % 4);
    lemma_fundamental_div_mod_converse(k + 99, 100, (k + 99) / 100, (k + 99) % 100);
    lemma_fundamental_div_mod_converse(k, 4, k / 4, k % 4);
    lemma_fundamental_div_mod_converse(k, 100, k / 100, k % 100);
}


proof fn lemma_leap_shift(e: int, x: int)
    ensures
        is_leap(400 * e + x) == is_leap(x),
{
    lemma_fundamental_div_mod_converse(400 * e + x, 4, 100 * e + x / 4, x % 4);
    lemma_fundamental_div_mod_converse(400 * e + x, 100, 4 * e + x / 100, x % 100);
    lemma_fundamental_div_mod_converse(400 * e + x, 400, e + x / 400, x % 400);
    lemma_fundamental_div_mod_converse(x, 4, x / 4, x % 4);
    lemma_fundamental_div_mod_converse(x, 100, x / 100, x % 100);
    lemma_fundamental_div_mod_converse(x, 400, x / 400, x % 400);
}

proof fn lemma_civil_result(z: int, zz: int, era: int, doe: int, yoe: int, doy: int, mp: int, d: int, m: int, year: int)
    requires
        zz == z + 719468,
        zz == era * 146097 + doe,
        0 <= doe <= 146096,
        yoe == (doe - doe / 1460 + doe / 36524 - doe / 146096) / 365,
        doy == doe - mar_year_start(yoe),
        mp == (5 * doy + 2) / 153,
        d == doy - mar_month_start(mp) + 1,
        m == if mp < 10 { mp + 3 } else { mp - 9 },
        year == if m <= 2 { 400 * era + yoe + 1 } else { 400 * era + yoe },
    ensures
        valid_date(year, m, d),
        days_from_civil(year, m, d) == z,
        0 <= yoe <= 399,
        0 <= doy <= 365,
        0 <= mp <= 11,
{
    lemma_year_of_era(doe);
    lemma_month_of_year(doy);
    let bigy = 400 * era + yoe;
    lemma_era_march_first(era, yoe);
    lemma_leap_shift(era, yoe + 1);
    lemma_days_before_next_year(bigy);
    assert(bigy + 1 == 400 * era + (yoe + 1));
    if mp < 11 {
        assert(doy < mar_month_start(mp + 1));
    }
    if mp == 0 { assert(mar_month_start(0) == 0 && mar_month_start(1) == 31); }
    if mp == 1 { assert(mar_month_start(1) == 31 && mar_month_start(2) == 61); }
    if mp == 2 { assert(mar_month_start(2) == 61 && mar_month_start(3) == 92); }
    if mp == 3 { assert(mar_month_start(3) == 92 && mar_month_start(4) == 122); }
    if mp == 4 { assert(mar_month_start(4) == 122 && mar_month_start(5) == 153); }
    if mp == 5 { assert(mar_month_start(5) == 153 && mar_month_start(6) == 184); }
    if mp == 6 { assert(mar_month_start(6) == 184 && mar_month_start(7) == 214); }
    if mp == 7 { assert(mar_month_start(7) == 214 && mar_month_start(8) == 245); }
    if mp == 8 { assert(mar_month_start(8) == 245 && mar_month_start(9) == 275); }
    if mp == 9 { assert(mar_month_start(9) == 275 && mar_month_start(10) == 306); }
    if mp == 10 { assert(mar_month_start(10) == 306 && mar_month_start(11) == 337); }
    if mp == 11 { assert(mar_month_start(11) == 337); }
}

/// Howard Hinnant's `civil_from_days`: days since the Unix epoch to the
/// proleptic Gregorian date (year, month, day) they fall on.
#[verifier::rlimit(40)]
pub fn civil_from_days(z: i64) -> (r: (i64, u32, u32))
    requires
        z <= i64::MAX - 719_468,
    ensures
        valid_date(r.0 as int, r.1 as int, r.2 as int),
        days_from_civil(r.0 as int, r.1 as int, r.2 as int) == z,
        z >= -719_468 ==> r.0 >= 0,
        (r.0 as int, r.1 as int, r.2 as int) == civil_of(z as int),
{
    let zz = z + 719_468;
    // Floor division by the era length; for negative day counts this is the
    // truncating `(zz - 146096) / 146097`, written on non-negative operands.
    let era = if zz >= 0 { zz / 146_097 } else { -((146_096 - zz) / 146_097) };
    proof {
        if zz >= 0 {
            vstd::arithmetic::div_mod::lemma_fundamental_div_mod(zz as int, 146097);
        } else {
            vstd::arithmetic::div_mod::lemma_fundamental_div_mod(146096 - zz as int, 146097);
        }
    }
    let doe = zz - era * 146_097;
    proof {
        lemma_year_of_era(doe as int);
    }
    let yoe = (doe - doe / 1_460 + doe / 36_524 - doe / 146_096) / 365;
    let y = yoe + era * 400;
    let doy = doe - (365 * yoe + yoe / 4 - yoe / 100);
    proof {
        lemma_month_of_year(doy as int);
    }
    let mp = (5 * doy + 2) / 153;
    let d = (doy - (153 * mp + 2) / 5 + 1) as u32;
    let m = (if mp < 10 { mp + 3 } else { mp - 9 }) as u32;
    let year = if m <= 2 { y + 1 } else { y };
    proof {
        lemma_civil_result(z as int, zz as int, era as int, doe as int, yoe as int, doy as int, mp as int, d as int,
            m as int, year as int);
        law_civil_round_trip(year as int, m as int, d as int);
    }
    (year, m, d)
}


proof fn lemma_years_ordered(a: int, b: int)
    requires
        a < b,
    ensures
        days_before_year(a) + 365 + leap_days(a) <= days_before_year(b),
    decreases b - a,
{
    lemma_days_before_next_year(a);
    if a + 1 < b {
        lemma_years_ordered(a + 1, b);
    }
}

/// Offset of a valid date within its year, and months in order.
proof fn lemma_day_of_year(y: int, m: int, d: int)
    requires
        valid_date(y, m, d),
    ensures
        0 <= days_before_month(y, m) + d - 1 < 365 + leap_days(y),
        forall|m2: int| m < m2 <= 12 ==> days_before_month(y, m) + d - 1 < #[trigger] days_before_month(y, m2),
{
    assert forall|m2: int| m < m2 <= 12 implies days_before_month(y, m) + d - 1 < #[trigger] days_before_month(y, m2) by {
        assert(days_before_month(y, m) + days_in_month(y, m) <= days_before_month(y, m2));
    }
}

/// Distinct valid dates fall on distinct days: `days_from_civil` is
/// injective on valid dates, so a day count names exactly one date.
pub proof fn law_days_from_civil_injective(y1: int, m1: int, d1: int, y2: int, m2: int, d2: int)
    requires
        valid_date(y1, m1, d1),
        valid_date(y2, m2, d2),
        days_from_civil(y1, m1, d1) == days_from_civil(y2, m2, d2),
    ensures
        y1 == y2 && m1 == m2 && d1 == d2,
{
    lemma_day_of_year(y1, m1, d1);
    lemma_day_of_year(y2, m2, d2);
    if y1 < y2 {
        lemma_years_ordered(y1, y2);
    } else if y2 < y1 {
        lemma_years_ordered(y2, y1);
    } else if m1 < m2 {
        assert(days_before_month(y1, m1) + d1 - 1 < days_before_month(y1, m2));
    } else if m2 < m1 {
        assert(days_before_month(y2, m2) + d2 - 1 < days_before_month(y2, m1));
    }
}

/// The date a day count (days since 1970-01-01) falls on.
pub open spec fn civil_of(z: int) -> (int, int, int) {
    choose|t: (int, int, int)| valid_date(t.0, t.1, t.2) && days_from_civil(t.0, t.1, t.2) == z
}

/// Converting a day count to a date and back gives the day count, and a
/// valid date converted to days and back gives the date.
pub proof fn law_civil_round_trip(y: int, m: int, d: int)
    requires
        valid_date(y, m, d),
    ensures
        civil_of(days_from_civil(y, m, d)) == (y, m, d),
{
    let z = days_from_civil(y, m, d);
    let w = (y, m, d);
    assert(valid_date(w.0, w.1, w.2) && days_from_civil(w.0, w.1, w.2) == z);
    assert(exists|t: (int, int, int)| valid_date(t.0, t.1, t.2) && days_from_civil(t.0, t.1, t.2) == z);
    let t = civil_of(z);
    law_days_from_civil_injective(t.0, t.1, t.2, y, m, d);
}


/// `YYYY-MM-DD` for a date with a non-negative year.
pub open spec fn date_text(t: (int, int, int)) -> Seq<char> {
    decimal_padded(t.0 as nat, 4) + seq!['-'] + decimal_padded(t.1 as nat, 2) + seq!['-'] + decimal_padded(t.2 as nat, 2)
}

/// `YYYY-MM-DD_HH-MM-SS` (UTC) of a Unix time in seconds.
pub open spec fn timestamp_text(secs: nat) -> Seq<char> {
    let sod = secs % 86400;
    date_text(civil_of((secs / 86400) as int)) + seq!['_'] + decimal_padded(sod / 3600, 2) + seq!['-']
        + decimal_padded((sod % 3600) / 60, 2) + seq!['-'] + decimal_padded(sod % 60, 2)
}

/// `YYYY-MM-DD_HHMMSS` (UTC) of a Unix time in seconds.
pub open spec fn local_timestamp_text(secs: nat) -> Seq<char> {
    let sod = secs % 86400;
    date_text(civil_of((secs / 86400) as int)) + seq!['_'] + decimal_padded(sod / 3600, 2)
        + decimal_padded((sod % 3600) / 60, 2) + decimal_padded(sod % 60, 2)
}

/// Appends `YYYY-MM-DD` for the day `days` after 1970-01-01.
fn push_date(out: &mut Vec<char>, days: i64)
    requires
        0 <= days <= i64::MAX - 719_468,
    ensures
        final(out)@ == old(out)@ + date_text(civil_of(days as int)),
{
    let (y, m, d) = civil_from_days(days);
    push_decimal_padded(out, y as u64, 4);
    out.push('-');
    push_decimal_padded(out, m as u64, 2);
    out.push('-');
    push_decimal_padded(out, d as u64, 2);
    assert(out@ =~= old(out)@ + date_text(civil_of(days as int)));
}

/// `YYYY-MM-DD_HH-MM-SS` (UTC) for file names, from a Unix time in seconds.
pub fn timestamp_compact_from_secs(secs: u64) -> (s: String)
    ensures
        s@ == timestamp_text(secs as nat),
{
    let days = (secs / 86_400) as i64;
    let sod = secs % 86_400;
    let mut out: Vec<char> = Vec::new();
    push_date(&mut out, days);
    out.push('_');
    push_decimal_padded(&mut out, sod / 3_600, 2);
    out.push('-');
    push_decimal_padded(&mut out, (sod % 3_600) / 60, 2);
    out.push('-');
    push_decimal_padded(&mut out, sod % 60, 2);
    assert(out@ =~= timestamp_text(secs as nat));
    string_from_chars(&out)
}

/// `YYYY-MM-DD_HHMMSS` (UTC) for export file names, from a Unix time in seconds.
pub fn local_timestamp_compact_from_secs(secs: u64) -> (s: String)
    ensures
        s@ == local_timestamp_text(secs as nat),
{
    let days = (secs / 86_400) as i64;
    let sod = secs % 86_400;
    let mut out: Vec<char> = Vec::new();
    push_date(&mut out, days);
    out.push('_');
    push_decimal_padded(&mut out, sod / 3_600, 2);
    push_decimal_padded(&mut out, (sod % 3_600) / 60, 2);
    push_decimal_padded(&mut out, sod % 60, 2);
    assert(out@ =~= local_timestamp_text(secs as nat));
    string_from_chars(&out)
}

} // verus!
