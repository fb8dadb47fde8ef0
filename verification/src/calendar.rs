//! The proleptic Gregorian calendar: from seconds since the Unix epoch to a date and a time
//! of day.
use vstd::prelude::*;
use vstd::arithmetic::div_mod::{lemma_fundamental_div_mod, lemma_fundamental_div_mod_converse};

verus! {

/// Whether `y` is a leap year.
pub open spec fn is_leap(y: int) -> bool {
    y % 4 == 0 && (y % 100 != 0 || y % 400 == 0)
}

/// The number of days in year `y`.
pub open spec fn year_length(y: int) -> int {
    if is_leap(y) { 366 } else { 365 }
}

/// How many of the years that end before or at `y` are leap years, counted from a fixed
/// origin (only differences of this function matter).
pub open spec fn leap_count(y: int) -> int {
    y / 4 - y / 100 + y / 400
}

/// The number of days from 1970-01-01 to January 1st of year `y` (negative before 1970).
pub open spec fn days_before_year(y: int) -> int {
    365 * (y - 1970) + leap_count(y - 1) - leap_count(1969)
}

/// The number of days in month `m` of year `y`.
pub open spec fn month_length(y: int, m: int) -> int {
    if m == 2 {
        if is_leap(y) { 29 } else { 28 }
    } else if m == 4 || m == 6 || m == 9 || m == 11 {
        30
    } else {
        31
    }
}

/// The number of days in the months of year `y` before month `m`.
pub open spec fn days_before_month(y: int, m: int) -> int
    decreases m,
{
    if m <= 1 {
        0
    } else {
        days_before_month(y, m - 1) + month_length(y, m - 1)
    }
}

/// Whether `y-m-d` is a date of the calendar.
pub open spec fn valid_date(y: int, m: int, d: int) -> bool {
    1 <= m <= 12 && 1 <= d <= month_length(y, m)
}

/// The number of days from 1970-01-01 to `y-m-d`.
pub open spec fn days_from_civil(y: int, m: int, d: int) -> int {
    days_before_year(y) + days_before_month(y, m) + d - 1
}

proof fn lemma_div_step(y: int, d: int)
    requires
        d > 0,
    ensures
        y / d - (y - 1) / d == if y % d == 0 { 1int } else { 0int },
{
    let q = (y - 1) / d;
    let r = (y - 1) % d;
    lemma_fundamental_div_mod(y - 1, d);
    if r == d - 1 {
        assert(y == (q + 1) * d + 0) by (nonlinear_arith)
            requires
                y - 1 == d * q + r,
                r == d - 1,
        ;
        lemma_fundamental_div_mod_converse(y, d, q + 1, 0);
    } else {
        assert(y == q * d + (r + 1)) by (nonlinear_arith)
            requires
                y - 1 == d * q + r,
        ;
        lemma_fundamental_div_mod_converse(y, d, q, r + 1);
    }
}

/// One more year adds that year's length.
pub proof fn lemma_next_year(y: int)
    ensures
        days_before_year(y + 1) == days_before_year(y) + year_length(y),
{
    lemma_div_step(y, 4);
    lemma_div_step(y, 100);
    lemma_div_step(y, 400);
}

proof fn lemma_div_shift(x: int, d: int, k: int, c: int)
    requires
        d > 0,
        c == 400int / d,
        400int % d == 0,
    ensures
        (x + 400 * k) / d == x / d + c * k,
{
    lemma_fundamental_div_mod(x, d);
    lemma_fundamental_div_mod(400, d);
    let q = x / d;
    let r = x % d;
    assert(x + 400 * k == (q + c * k) * d + r) by (nonlinear_arith)
        requires
            x == d * q + r,
            400 == d * c,
    ;
    lemma_fundamental_div_mod_converse(x + 400 * k, d, q + c * k, r);
}

/// Every 400 years hold 146097 days.
pub proof fn lemma_four_centuries(y: int, k: int)
    ensures
        days_before_year(y + 400 * k) == days_before_year(y) + 146097 * k,
{
    lemma_div_shift(y - 1, 4, k, 100);
    lemma_div_shift(y - 1, 100, k, 4);
    lemma_div_shift(y - 1, 400, k, 1);
    assert(y - 1 + 400 * k == (y - 1) + 400 * k);
}

proof fn lemma_months_fill_year(y: int)
    ensures
        days_before_month(y, 13) == year_length(y),
        forall|m: int| 1 <= m <= 12 ==> #[trigger] days_before_month(y, m) + month_length(y, m) == days_before_month(y, m + 1),
        forall|m: int| 1 <= m <= 12 ==> #[trigger] days_before_month(y, m) >= 0,
{
    reveal_with_fuel(days_before_month, 13);
}

/// The date (year, month, day) of the day that lies `days` days after 1970-01-01.
pub fn civil_from_days(days: i64) -> (r: (i64, i64, i64))
    requires
        -200_000_000_000_000 <= days <= 200_000_000_000_000,
    ensures
        valid_date(r.0 as int, r.1 as int, r.2 as int),
        days_from_civil(r.0 as int, r.1 as int, r.2 as int) == days as int,
{
    let k = match days.checked_div_euclid(146097) {
        Some(k) => k,
        None => 0,
    };
    let rest0 = match days.checked_rem_euclid(146097) {
        Some(r) => r,
        None => 0,
    };
    proof {
        lemma_fundamental_div_mod(days as int, 146097);
        lemma_four_centuries(1970, k as int);
        assert(days_before_year(1970) == 0);
    }
    let base: i64 = 1970 + 400 * k;
    let mut year: i64 = base;
    let mut rest: i64 = rest0;
    while rest >= year_length_exec(year)
        invariant
            0 <= rest <= rest0 < 146097,
            base == 1970 + 400 * k,
            -600_000_000_000 < k < 600_000_000_000,
            base <= year,
            rest + 365 * (year - base) <= rest0,
            days_before_year(year as int) + rest == days as int,
        decreases rest,
    {
        let len: i64 = year_length_exec(year);
        proof {
            lemma_next_year(year as int);
        }
        rest = rest - len;
        year = year + 1;
    }
    proof {
        lemma_months_fill_year(year as int);
    }
    let mut m: i64 = 1;
    while m < 12 && rest >= month_length_exec(year, m)
        invariant
            1 <= m <= 12,
            0 <= rest,
            days_before_year(year as int) + days_before_month(year as int, m as int) + rest == days as int,
            rest + days_before_month(year as int, m as int) < year_length(year as int),
            days_before_month(year as int, 13) == year_length(year as int),
            forall|j: int| 1 <= j <= 12 ==> #[trigger] days_before_month(year as int, j) + month_length(year as int, j) == days_before_month(year as int, j + 1),
        decreases 12 - m,
    {
        rest = rest - month_length_exec(year, m);
        m = m + 1;
    }
    proof {
        if m == 12 {
            assert(days_before_month(year as int, 12) + month_length(year as int, 12) == days_before_month(year as int, 13));
        }
    }
    (year, m, rest + 1)
}

/// Decides `is_leap`.
pub fn is_leap_exec(y: i64) -> (b: bool)
    ensures
        b == is_leap(y as int),
{
    let m4 = match y.checked_rem_euclid(4) { Some(r) => r, None => 0 };
    let m100 = match y.checked_rem_euclid(100) { Some(r) => r, None => 0 };
    let m400 = match y.checked_rem_euclid(400) { Some(r) => r, None => 0 };
    m4 == 0 && (m100 != 0 || m400 == 0)
}

/// Computes `year_length`.
pub fn year_length_exec(y: i64) -> (r: i64)
    ensures
        r == year_length(y as int),
{
    if is_leap_exec(y) { 366 } else { 365 }
}

/// Computes `month_length`.
pub fn month_length_exec(y: i64, m: i64) -> (r: i64)
    ensures
        r == month_length(y as int, m as int),
{
    if m == 2 {
        if is_leap_exec(y) { 29 } else { 28 }
    } else if m == 4 || m == 6 || m == 9 || m == 11 {
        30
    } else {
        31
    }
}

} // verus!

verus! {

proof fn lemma_years_increase(a: int, b: int)
    requires
        a <= b,
    ensures
        days_before_year(a) <= days_before_year(b),
        a < b ==> days_before_year(a + 1) <= days_before_year(b),
    decreases b - a,
{
    if a < b {
        lemma_years_increase(a, b - 1);
        lemma_next_year(b - 1);
        lemma_next_year(a);
    }
}

proof fn lemma_months_increase(y: int, a: int, b: int)
    requires
        1 <= a <= b <= 13,
    ensures
        days_before_month(y, a) <= days_before_month(y, b),
        a < b ==> days_before_month(y, a + 1) <= days_before_month(y, b),
    decreases b - a,
{
    if a < b {
        lemma_months_increase(y, a, b - 1);
    }
}

proof fn lemma_day_within_year(y: int, m: int, d: int)
    requires
        valid_date(y, m, d),
    ensures
        days_before_year(y) <= days_from_civil(y, m, d) < days_before_year(y + 1),
        days_before_month(y, m) + d - 1 < days_before_month(y, m + 1),
{
    lemma_months_fill_year(y);
    lemma_months_increase(y, 1, m);
    lemma_months_increase(y, m + 1, 13);
    lemma_next_year(y);
}

/// A day count names one date only: two dates of the calendar with the same number of
/// days since 1970-01-01 are the same date.
pub proof fn lemma_civil_unique(y1: int, m1: int, d1: int, y2: int, m2: int, d2: int)
    requires
        valid_date(y1, m1, d1),
        valid_date(y2, m2, d2),
        days_from_civil(y1, m1, d1) == days_from_civil(y2, m2, d2),
    ensures
        y1 == y2 && m1 == m2 && d1 == d2,
{
    lemma_day_within_year(y1, m1, d1);
    lemma_day_within_year(y2, m2, d2);
    if y1 < y2 {
        lemma_years_increase(y1, y2);
    } else if y2 < y1 {
        lemma_years_increase(y2, y1);
    }
    assert(y1 == y2);
    if m1 < m2 {
        lemma_months_increase(y1, m1, m2);
    } else if m2 < m1 {
        lemma_months_increase(y1, m2, m1);
    }
}

} // verus!
