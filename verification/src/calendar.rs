//! The mathematical model of the proleptic Gregorian calendar that the
//! time manager's contracts are stated over, and the lemmas relating the
//! weekday formula used by the code to plain day counting.
use vstd::prelude::*;
use vstd::arithmetic::div_mod::lemma_fundamental_div_mod;
use vstd::arithmetic::div_mod::lemma_fundamental_div_mod_converse;

verus! {

/// Seconds in one day.
pub open spec fn day_secs() -> int {
    86400
}

/// Seconds in one week.
pub open spec fn week_secs() -> int {
    604800
}

/// Leap year rule of the Gregorian calendar.
pub open spec fn spec_is_leap_year(year: int) -> bool {
    year % 4 == 0 && (year % 100 != 0 || year % 400 == 0)
}

/// Number of days of `month` (1 = January) in `year`; 0 for a month out of range.
pub open spec fn spec_days_in_month(year: int, month: int) -> int {
    if month == 1 || month == 3 || month == 5 || month == 7 || month == 8 || month == 10
        || month == 12 {
        31
    } else if month == 4 || month == 6 || month == 9 || month == 11 {
        30
    } else if month == 2 {
        if spec_is_leap_year(year) {
            29
        } else {
            28
        }
    } else {
        0
    }
}

/// Number of days of `year`.
pub open spec fn spec_days_in_year(year: int) -> int {
    if spec_is_leap_year(year) {
        366
    } else {
        365
    }
}

/// `(year, month, day)` names an existing day.
pub open spec fn spec_valid_date(year: int, month: int, day: int) -> bool {
    1 <= month <= 12 && 1 <= day <= spec_days_in_month(year, month)
}

/// Number of leap years in `1..=year` (for `year >= 0`); for every integer,
/// `leaps_through(y) - leaps_through(y - 1)` is 1 exactly when `y` is a leap year.
pub open spec fn leaps_through(year: int) -> int {
    year / 4 - year / 100 + year / 400
}

/// Days of `year` that come before the first day of `month`.
pub open spec fn days_before_month(year: int, month: int) -> int {
    let common: int = if month <= 1 {
        0
    } else if month == 2 {
        31
    } else if month == 3 {
        59
    } else if month == 4 {
        90
    } else if month == 5 {
        120
    } else if month == 6 {
        151
    } else if month == 7 {
        181
    } else if month == 8 {
        212
    } else if month == 9 {
        243
    } else if month == 10 {
        273
    } else if month == 11 {
        304
    } else {
        334
    };
    if month > 2 && spec_is_leap_year(year) {
        common + 1
    } else {
        common
    }
}

/// Days from 1970-01-01 to the first day of `year` (negative before 1970).
pub open spec fn days_before_year(year: int) -> int {
    365 * (year - 1970) + leaps_through(year - 1) - leaps_through(1969)
}

/// Signed number of days from 1970-01-01 to the given date.
pub open spec fn days_from_epoch(year: int, month: int, day: int) -> int {
    days_before_year(year) + days_before_month(year, month) + day - 1
}

/// Weekday (1 = Monday .. 7 = Sunday) of the day `n` days after 1970-01-01,
/// which was a Thursday.
pub open spec fn weekday_of_day_number(n: int) -> int {
    (n + 3) % 7 + 1
}

/// Weekday (1 = Monday .. 7 = Sunday) of a date, by counting days.
pub open spec fn calendar_weekday(year: int, month: int, day: int) -> int {
    weekday_of_day_number(days_from_epoch(year, month, day))
}

/// Integer division rounding toward zero, as machine division does.
pub open spec fn tdiv(a: int, b: int) -> int {
    if a >= 0 {
        a / b
    } else {
        -((-a) / b)
    }
}

/// Remainder of `tdiv`: it has the sign of `a`.
pub open spec fn tmod(a: int, b: int) -> int {
    a - b * tdiv(a, b)
}

/// The year that Zeller's congruence works with: January and February count
/// as months 13 and 14 of the previous year.
pub open spec fn zeller_year(year: int, month: int) -> int {
    if month < 3 {
        year - 1
    } else {
        year
    }
}

/// The month that Zeller's congruence works with (3 ..= 14).
pub open spec fn zeller_month(month: int) -> int {
    if month < 3 {
        month + 12
    } else {
        month
    }
}

/// Zeller's congruence computed with division rounding toward zero:
/// 0 = Saturday, 1 = Sunday, 2 = Monday, ..., 6 = Friday.
pub open spec fn zeller_index(year: int, month: int, day: int) -> int {
    let y = zeller_year(year, month);
    let m = zeller_month(month);
    let k = tmod(y, 100);
    let j = tdiv(y, 100);
    let h = tmod(day + (13 * (m + 1)) / 5 + k + tdiv(k, 4) + tdiv(j, 4) + 5 * j, 7);
    tmod(h + 7, 7)
}

/// Weekday number (1 = Monday .. 7 = Sunday) for a Zeller index.
pub open spec fn weekday_of_zeller_index(h: int) -> int {
    if h == 0 {
        6
    } else if h == 1 {
        7
    } else {
        h - 1
    }
}

/// The day after `(year, month, day)`.
pub open spec fn next_date(year: int, month: int, day: int) -> (int, int, int) {
    if day < spec_days_in_month(year, month) {
        (year, month, day + 1)
    } else if month < 12 {
        (year, month + 1, 1)
    } else {
        (year + 1, 1, 1)
    }
}

/// The day after a date is a date, and it is counted one day later.
pub proof fn lemma_next_date_counts_one(year: int, month: int, day: int)
    requires
        spec_valid_date(year, month, day),
    ensures
        spec_valid_date(next_date(year, month, day).0, next_date(year, month, day).1, next_date(year, month, day).2),
        days_from_epoch(next_date(year, month, day).0, next_date(year, month, day).1, next_date(year, month, day).2)
            == days_from_epoch(year, month, day) + 1,
{
    if day >= spec_days_in_month(year, month) && month == 12 {
        lemma_days_before_next_year(year);
    }
}

/// Later years start later.
pub proof fn lemma_days_before_year_monotone(a: int, b: int)
    requires
        a <= b,
    ensures
        days_before_year(a) <= days_before_year(b),
    decreases b - a,
{
    if a < b {
        lemma_days_before_year_monotone(a, b - 1);
        lemma_days_before_next_year(b - 1);
    }
}

/// A date is counted within its own year.
pub proof fn lemma_date_within_year(year: int, month: int, day: int)
    requires
        spec_valid_date(year, month, day),
    ensures
        days_before_year(year) <= days_from_epoch(year, month, day) < days_before_year(year + 1),
{
    lemma_days_before_next_year(year);
}

/// The year of a date follows from its day count: a count from the first day
/// of `lo` up to the last day of `hi` names a year in `lo ..= hi`.
pub proof fn lemma_year_of_day_count(year: int, month: int, day: int, lo: int, hi: int)
    requires
        spec_valid_date(year, month, day),
        days_before_year(lo) <= days_from_epoch(year, month, day) < days_before_year(hi + 1),
    ensures
        lo <= year <= hi,
{
    lemma_date_within_year(year, month, day);
    if year < lo {
        lemma_days_before_year_monotone(year + 1, lo);
    }
    if year > hi {
        lemma_days_before_year_monotone(hi + 1, year);
    }
}

/// The months of a year add up to the year.
pub proof fn lemma_months_fill_year(year: int)
    ensures
        days_before_month(year, 12) + spec_days_in_month(year, 12) == spec_days_in_year(year),
        forall|m: int| 1 <= m < 12 ==> #[trigger] days_before_month(year, m + 1) == days_before_month(year, m) + spec_days_in_month(year, m),
{
}

/// A remainder rounding toward zero is zero exactly when the floor remainder is.
pub proof fn lemma_tmod_zero(a: int, d: int)
    requires
        d > 0,
    ensures
        (tmod(a, d) == 0) == (a % d == 0),
{
    lemma_fundamental_div_mod(a, d);
    vstd::arithmetic::div_mod::lemma_mod_bound(a, d);
    if a < 0 {
        lemma_fundamental_div_mod(-a, d);
        vstd::arithmetic::div_mod::lemma_mod_bound(-a, d);
        let q = (-a) / d;
        let r = (-a) % d;
        assert(tmod(a, d) == -r) by (nonlinear_arith)
            requires
                -a == d * q + r,
                tdiv(a, d) == -q,
                tmod(a, d) == a - d * tdiv(a, d),
        ;
        if r == 0 {
            assert(a == (-q) * d + 0) by (nonlinear_arith)
                requires
                    -a == d * q + r,
                    r == 0,
            ;
            lemma_mod_is(a, d, -q, 0);
        } else {
            assert(a == (-q - 1) * d + (d - r)) by (nonlinear_arith)
                requires
                    -a == d * q + r,
            ;
            lemma_mod_is(a, d, -q - 1, d - r);
        }
    }
}

/// `x % m == v` once `x` is written as `q * m + v` with `v` in range.
pub proof fn lemma_mod_is(x: int, m: int, q: int, v: int)
    requires
        m > 0,
        0 <= v < m,
        x == q * m + v,
    ensures
        x % m == v,
        x / m == q,
{
    lemma_fundamental_div_mod_converse(x, m, q, v);
}

/// Stepping `x` down by one lowers `x / d` exactly when `d` divides `x`.
pub proof fn lemma_div_step(x: int, d: int)
    requires
        d > 0,
    ensures
        x / d - (x - 1) / d == (if x % d == 0 {
            1int
        } else {
            0int
        }),
{
    lemma_fundamental_div_mod(x, d);
    let q = x / d;
    let r = x % d;
    assert(0 <= r < d) by {
        vstd::arithmetic::div_mod::lemma_mod_bound(x, d);
    }
    assert(x == q * d + r) by {
        vstd::arithmetic::mul::lemma_mul_is_commutative(q, d);
    }
    if r == 0 {
        assert(x - 1 == (q - 1) * d + (d - 1)) by {
            vstd::arithmetic::mul::lemma_mul_is_distributive_sub_other_way(d, q, 1);
        }
        lemma_mod_is(x - 1, d, q - 1, d - 1);
    } else {
        lemma_mod_is(x - 1, d, q, r - 1);
    }
}

/// The count of leap years grows by one exactly at a leap year.
pub proof fn lemma_leaps_step(year: int)
    ensures
        leaps_through(year) - leaps_through(year - 1) == (if spec_is_leap_year(year) {
            1int
        } else {
            0int
        }),
{
    lemma_div_step(year, 4);
    lemma_div_step(year, 100);
    lemma_div_step(year, 400);
    lemma_fundamental_div_mod(year, 400);
    lemma_fundamental_div_mod(year, 100);
    if year % 400 == 0 {
        let q = year / 400;
        lemma_mod_is(year, 100, 4 * q, 0);
    }
    if year % 100 == 0 {
        let q = year / 100;
        lemma_mod_is(year, 4, 25 * q, 0);
    }
}

/// The first day of the next year comes `spec_days_in_year` days later.
pub proof fn lemma_days_before_next_year(year: int)
    ensures
        days_before_year(year + 1) == days_before_year(year) + spec_days_in_year(year),
{
    lemma_leaps_step(year);
}

/// For a non-negative Zeller year the index agrees with plain day counting.
pub proof fn lemma_zeller_index_counts_days(year: int, month: int, day: int)
    requires
        1 <= month <= 12,
        zeller_year(year, month) >= 0,
    ensures
        weekday_of_zeller_index(zeller_index(year, month, day)) == calendar_weekday(
            year,
            month,
            day,
        ),
{
    let y = zeller_year(year, month);
    let m = zeller_month(month);
    lemma_fundamental_div_mod(y, 100);
    let j = y / 100;
    let k = y % 100;
    assert(0 <= k < 100) by {
        vstd::arithmetic::div_mod::lemma_mod_bound(y, 100);
    }
    assert(j >= 0) by {
        vstd::arithmetic::div_mod::lemma_div_pos_is_pos(y, 100);
    }
    assert(y == j * 100 + k) by {
        vstd::arithmetic::mul::lemma_mul_is_commutative(j, 100);
    }
    // floor divisions of y in terms of j and k
    lemma_fundamental_div_mod(k, 4);
    let kq = k / 4;
    let kr = k % 4;
    assert(0 <= kr < 4) by {
        vstd::arithmetic::div_mod::lemma_mod_bound(k, 4);
    }
    lemma_mod_is(y, 4, 25 * j + kq, kr);
    lemma_fundamental_div_mod(j, 4);
    let jq = j / 4;
    let jr = j % 4;
    assert(0 <= jr < 4) by {
        vstd::arithmetic::div_mod::lemma_mod_bound(j, 4);
    }
    lemma_mod_is(y, 400, jq, 100 * jr + k);
    lemma_mod_is(y, 100, j, k);
    assert(leaps_through(y) == 24 * j + kq + jq);
    // truncating divisions agree with floor divisions on non-negative values
    assert(tmod(y, 100) == k);
    assert(tdiv(y, 100) == j);
    assert(tdiv(k, 4) == kq);
    assert(tdiv(j, 4) == jq);
    let f = (13 * (m + 1)) / 5;
    let s = day + f + k + kq + jq + 5 * j;
    let d = days_from_epoch(year, month, day);
    if month >= 3 {
        lemma_leaps_step(year);
        assert(y == year);
        let t = days_before_month(year, month) - (if spec_is_leap_year(year) { 1int } else { 0int });
        // f - t is a multiple of 7 for every month from March on
        assert((f - t) % 7 == 0 && f - t <= 0) by {
            if month == 3 { assert(f == 10); }
            else if month == 4 { assert(f == 13); }
            else if month == 5 { assert(f == 15); }
            else if month == 6 { assert(f == 18); }
            else if month == 7 { assert(f == 20); }
            else if month == 8 { assert(f == 23); }
            else if month == 9 { assert(f == 26); }
            else if month == 10 { assert(f == 28); }
            else if month == 11 { assert(f == 31); }
            else { assert(f == 33); }
        }
        lemma_fundamental_div_mod(f - t, 7);
        let e = (f - t) / 7;
        assert(s - d == 7 * (e - 5217 * j - 52 * k + 102789) + 5);
        lemma_zeller_tail(s, d, e - 5217 * j - 52 * k + 102789);
    } else {
        let t = days_before_month(year, month);
        assert(f - t == 36 || f - t == 8) by {
            if month == 1 { assert(f == 36); } else { assert(f == 39); }
        }
        if month == 1 {
            assert(s - d == 7 * (5 - 5217 * j - 52 * k + 102737) + 5);
            lemma_zeller_tail(s, d, 5 - 5217 * j - 52 * k + 102737);
        } else {
            assert(s - d == 7 * (1 - 5217 * j - 52 * k + 102737) + 5);
            lemma_zeller_tail(s, d, 1 - 5217 * j - 52 * k + 102737);
        }
    }
}

/// The last step of `lemma_zeller_index_counts_days`: a sum that exceeds the
/// day number by 5 modulo 7 gives the same weekday.
proof fn lemma_zeller_tail(s: int, d: int, q: int)
    requires
        s - d == 7 * q + 5,
    ensures
        weekday_of_zeller_index(tmod(tmod(s, 7) + 7, 7)) == weekday_of_day_number(d),
{
    lemma_fundamental_div_mod(d + 3, 7);
    vstd::arithmetic::div_mod::lemma_mod_bound(d + 3, 7);
    let dq = (d + 3) / 7;
    let dr = (d + 3) % 7;
    lemma_fundamental_div_mod(s, 7);
    vstd::arithmetic::div_mod::lemma_mod_bound(s, 7);
    let qs = s / 7;
    let r = s % 7;
    let h = tmod(s, 7);
    if s >= 0 {
        assert(tdiv(s, 7) == qs);
    } else {
        lemma_fundamental_div_mod(-s, 7);
        vstd::arithmetic::div_mod::lemma_mod_bound(-s, 7);
    }
    assert(h + 7 >= 0);
    assert(h + 7 == 7 * (qs - tdiv(s, 7) + 1) + r);
    lemma_mod_is(h + 7, 7, qs - tdiv(s, 7) + 1, r);
    lemma_fundamental_div_mod(h + 7, 7);
    assert(tmod(h + 7, 7) == r);
    if dr + 2 < 7 {
        lemma_mod_is(s, 7, q + dq, dr + 2);
    } else {
        lemma_mod_is(s, 7, q + dq + 1, dr - 5);
    }
}

} // verus!
