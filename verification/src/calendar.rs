//! The proleptic Gregorian calendar in UTC, counted in whole days from
//! 1 January 1970 (day 0). Years are numbered astronomically: year 0 comes
//! before year 1.

use vstd::prelude::*;

verus! {

/// The first year whose dates the library represents.
pub const FIRST_YEAR: i32 = -262_143;

/// The last year whose dates the library represents.
pub const LAST_YEAR: i32 = 262_142;

/// The first second, counted from the epoch, that lies in `FIRST_YEAR`.
pub const FIRST_SECOND: i64 = -8_334_601_228_800;

/// The last second, counted from the epoch, that lies in `LAST_YEAR`.
pub const LAST_SECOND: i64 = 8_210_266_876_799;

/// Whether `year` has a 29 February.
pub open spec fn is_leap_year(year: int) -> bool {
    year % 4 == 0 && (year % 100 != 0 || year % 400 == 0)
}

/// The number of leap years among the years `1 ..= year - 1`, continued to
/// every integer.
pub open spec fn leap_years_before(year: int) -> int {
    (year - 1) / 4 - (year - 1) / 100 + (year - 1) / 400
}

/// The day number of 1 January of `year`.
pub open spec fn days_before_year(year: int) -> int {
    365 * (year - 1970) + leap_years_before(year) - leap_years_before(1970)
}

/// Whether `month` numbers a month of the year.
pub open spec fn is_month(month: int) -> bool {
    1 <= month <= 12
}

/// The number of days of `month` in `year`.
pub open spec fn days_in_month(year: int, month: int) -> int {
    if month == 2 {
        if is_leap_year(year) {
            29
        } else {
            28
        }
    } else if month == 4 || month == 6 || month == 9 || month == 11 {
        30
    } else {
        31
    }
}

/// The number of days of `year` that come before the first of `month`.
pub open spec fn days_before_month(year: int, month: int) -> int
    decreases month,
{
    if month <= 1 {
        0
    } else {
        days_before_month(year, month - 1) + days_in_month(year, month - 1)
    }
}

/// The day number of the first day of `month` in `year`.
pub open spec fn month_start(year: int, month: int) -> int {
    days_before_year(year) + days_before_month(year, month)
}

/// The day number that follows the last day of `month` in `year`.
pub open spec fn month_end(year: int, month: int) -> int {
    month_start(year, month) + days_in_month(year, month)
}

/// Whether day number `day` is a day of `month` in `year`.
pub open spec fn day_in_month(day: int, year: int, month: int) -> bool {
    &&& is_month(month)
    &&& month_start(year, month) <= day < month_end(year, month)
}

/// Whether `(y1, m1)` is an earlier month than `(y2, m2)`.
pub open spec fn month_precedes(y1: int, m1: int, y2: int, m2: int) -> bool {
    y1 < y2 || (y1 == y2 && m1 < m2)
}

/// The day number on which second `secs` after the epoch falls.
pub open spec fn day_of_second(secs: int) -> int {
    secs / 86_400
}

/// Whether second `secs` after the epoch falls in a represented year.
pub open spec fn in_calendar_range(secs: int) -> bool {
    days_before_year(FIRST_YEAR as int) <= day_of_second(secs) < days_before_year(
        LAST_YEAR as int + 1,
    )
}

/// The days that come before each month of a year are what the table of the
/// common year says, with one more from March on in a leap year.
pub proof fn lemma_days_before_month(year: int, month: int)
    requires
        is_month(month),
    ensures
        days_before_month(year, month) == common_days_before_month(month) + (if month > 2
            && is_leap_year(year) {
            1int
        } else {
            0int
        }),
        days_before_month(year, 13) == (if is_leap_year(year) {
            366int
        } else {
            365int
        }),
{
    reveal_with_fuel(days_before_month, 14);
}

/// The number of days of a common year that come before the first of `month`.
pub open spec fn common_days_before_month(month: int) -> int {
    if month <= 1 {
        0
    } else if month == 2 {
        31
    } else if month == 3 {
        59
    } else if month == 4 {
        90
    } else if month == 5 {
        120
    } else if month == 6 {
        151
    } else if month == 7 {
        181
    } else if month == 8 {
        212
    } else if month == 9 {
        243
    } else if month == 10 {
        273
    } else if month == 11 {
        304
    } else {
        334
    }
}

/// From one integer to the next, its quotient by four grows by one where
/// four divides the next, and stays where it does not.
proof fn lemma_quotient_step_4(x: int)
    ensures
        x / 4 - (x - 1) / 4 == (if x % 4 == 0 {
            1int
        } else {
            0int
        }),
{
}

/// The same for the quotient by a hundred.
proof fn lemma_quotient_step_100(x: int)
    ensures
        x / 100 - (x - 1) / 100 == (if x % 100 == 0 {
            1int
        } else {
            0int
        }),
{
}

/// The same for the quotient by four hundred.
proof fn lemma_quotient_step_400(x: int)
    ensures
        x / 400 - (x - 1) / 400 == (if x % 400 == 0 {
            1int
        } else {
            0int
        }),
{
}

/// What four hundred divides, a hundred divides, and what a hundred divides,
/// four divides.
proof fn lemma_century_divisors(x: int)
    ensures
        x % 400 == 0 ==> x % 100 == 0,
        x % 100 == 0 ==> x % 4 == 0,
{
    assert(x % 400 == 0 ==> x % 100 == 0) by {
        if x % 400 == 0 {
            assert(x == 100 * (4 * (x / 400)));
        }
    }
    assert(x % 100 == 0 ==> x % 4 == 0) by {
        if x % 100 == 0 {
            assert(x == 4 * (25 * (x / 100)));
        }
    }
}

/// One more leap year lies before the year after a leap year, and no more
/// before the year after a common year.
proof fn lemma_leap_years_step(year: int)
    ensures
        leap_years_before(year + 1) == leap_years_before(year) + (if is_leap_year(year) {
            1int
        } else {
            0int
        }),
{
    lemma_quotient_step_4(year);
    lemma_quotient_step_100(year);
    lemma_quotient_step_400(year);
    lemma_century_divisors(year);
}

/// A year has 366 days if it is a leap year and 365 if it is not.
pub proof fn lemma_year_length(year: int)
    ensures
        days_before_year(year + 1) == days_before_year(year) + (if is_leap_year(year) {
            366int
        } else {
            365int
        }),
        days_before_year(year + 1) == month_end(year, 12),
{
    lemma_leap_years_step(year);
    lemma_days_before_month(year, 12);
}

/// Later years start on later days, at least 365 days apart for each year
/// between them.
pub proof fn lemma_years_increase(y1: int, y2: int)
    requires
        y1 <= y2,
    ensures
        days_before_year(y2) - days_before_year(y1) >= 365 * (y2 - y1),
    decreases y2 - y1,
{
    if y1 < y2 {
        lemma_years_increase(y1, y2 - 1);
        lemma_year_length(y2 - 1);
    }
}

/// Within one year, a later month starts no earlier than an earlier month
/// ends.
pub proof fn lemma_months_increase(year: int, m1: int, m2: int)
    requires
        is_month(m1),
        is_month(m2),
        m1 < m2,
    ensures
        month_end(year, m1) <= month_start(year, m2),
{
    lemma_days_before_month(year, m1);
    lemma_days_before_month(year, m2);
}

/// An earlier month has ended when a later month starts.
pub proof fn lemma_month_order(y1: int, m1: int, y2: int, m2: int)
    requires
        is_month(m1),
        is_month(m2),
        month_precedes(y1, m1, y2, m2),
    ensures
        month_end(y1, m1) <= month_start(y2, m2),
{
    if y1 == y2 {
        lemma_months_increase(y1, m1, m2);
    } else {
        lemma_days_before_month(y1, m1);
        lemma_days_before_month(y2, m2);
        lemma_year_length(y1);
        lemma_years_increase(y1 + 1, y2);
    }
}

/// A day belongs to one month only.
pub proof fn lemma_month_unique(day: int, y1: int, m1: int, y2: int, m2: int)
    requires
        day_in_month(day, y1, m1),
        day_in_month(day, y2, m2),
    ensures
        y1 == y2,
        m1 == m2,
{
    if month_precedes(y1, m1, y2, m2) {
        lemma_month_order(y1, m1, y2, m2);
    } else if month_precedes(y2, m2, y1, m1) {
        lemma_month_order(y2, m2, y1, m1);
    }
}

/// A day of a represented second belongs to a month of a represented year,
/// and to no other.
pub proof fn lemma_range_is_years(secs: int, year: int, month: int)
    requires
        day_in_month(day_of_second(secs), year, month),
    ensures
        in_calendar_range(secs) <==> FIRST_YEAR <= year <= LAST_YEAR,
{
    let day = day_of_second(secs);
    lemma_days_before_month(year, month);
    lemma_days_before_month(year, 12);
    lemma_year_length(year);
    if year < FIRST_YEAR {
        lemma_years_increase(year + 1, FIRST_YEAR as int);
    } else if year > LAST_YEAR {
        lemma_years_increase(LAST_YEAR as int + 1, year);
    } else {
        lemma_years_increase(FIRST_YEAR as int, year);
        lemma_years_increase(year + 1, LAST_YEAR as int + 1);
    }
}

/// The represented seconds are those from `FIRST_SECOND` to `LAST_SECOND`.
pub proof fn lemma_calendar_range(secs: int)
    ensures
        in_calendar_range(secs) <==> FIRST_SECOND <= secs <= LAST_SECOND,
{
    assert(days_before_year(FIRST_YEAR as int) == -96_465_292);
    assert(days_before_year(LAST_YEAR as int + 1) == 95_026_237);
}

/// Whether second `secs` after the epoch falls in a represented year.
pub fn within_calendar(secs: i64) -> (inside: bool)
    ensures
        inside == in_calendar_range(secs as int),
{
    proof {
        lemma_calendar_range(secs as int);
    }
    FIRST_SECOND <= secs && secs <= LAST_SECOND
}

/// The quotient of `value` by `unit`, rounded towards minus infinity.
pub fn floor_div(value: i64, unit: i64) -> (quotient: i64)
    requires
        unit > 0,
    ensures
        quotient == value as int / unit as int,
{
    assert(i64::MIN <= (value as int) / (unit as int) <= i64::MAX) by (nonlinear_arith)
        requires
            unit > 0,
            i64::MIN <= value <= i64::MAX,
    ;
    match value.checked_div_euclid(unit) {
        Some(quotient) => quotient,
        None => 0,
    }
}

/// What is left of `value` when the multiples of `unit` are taken out of it:
/// a number from 0 to `unit - 1`.
pub fn floor_rem(value: i64, unit: i64) -> (rest: i64)
    requires
        unit > 0,
    ensures
        rest == value as int % unit as int,
        0 <= rest < unit,
{
    assert(0 <= (value as int) % (unit as int) < (unit as int)) by (nonlinear_arith)
        requires
            unit > 0,
    ;
    match value.checked_rem_euclid(unit) {
        Some(rest) => rest,
        None => 0,
    }
}

/// Whether `year` has a 29 February.
pub fn leap_year(year: i32) -> (leap: bool)
    ensures
        leap == is_leap_year(year as int),
{
    let year = year as i64;
    floor_rem(year, 4) == 0 && (floor_rem(year, 100) != 0 || floor_rem(year, 400) == 0)
}

/// The leap years before `year`, counted as `leap_years_before` counts them.
fn count_leap_years_before(year: i32) -> (count: i64)
    ensures
        count == leap_years_before(year as int),
{
    let last = year as i64 - 1;
    floor_div(last, 4) - floor_div(last, 100) + floor_div(last, 400)
}

/// The day number of the first day of `month` in `year`.
pub fn first_day_of_month(year: i32, month: i32) -> (day: i64)
    requires
        is_month(month as int),
    ensures
        day == month_start(year as int, month as int),
{
    proof {
        lemma_days_before_month(year as int, month as int);
    }
    let leap = leap_year(year);
    let common: i64 = if month == 1 {
        0
    } else if month == 2 {
        31
    } else if month == 3 {
        59
    } else if month == 4 {
        90
    } else if month == 5 {
        120
    } else if month == 6 {
        151
    } else if month == 7 {
        181
    } else if month == 8 {
        212
    } else if month == 9 {
        243
    } else if month == 10 {
        273
    } else if month == 11 {
        304
    } else {
        334
    };
    let extra: i64 = if month > 2 && leap {
        1
    } else {
        0
    };
    365 * (year as i64 - 1970) + count_leap_years_before(year) - 477 + common + extra
}

} // verus!
