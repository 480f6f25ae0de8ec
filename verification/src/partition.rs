//! From an instant to the monthly partition that holds it.

use crate::calendar::day_in_month;
use crate::calendar::day_of_second;
use crate::calendar::floor_div;
use crate::calendar::in_calendar_range;
use crate::calendar::lemma_month_unique;
use crate::calendar::lemma_range_is_years;
use crate::calendar::FIRST_YEAR;
use crate::calendar::LAST_YEAR;
use crate::error::TripError;
use chrono::DateTime;
use chrono::Datelike;
use chrono::Utc;
use vstd::prelude::*;

verus! {

/// Milliseconds in one second.
pub const MILLIS_PER_SECOND: i64 = 1_000;

/// The second, counted from the epoch, in which millisecond `from_ms` lies.
pub open spec fn second_of_milli(from_ms: int) -> int {
    from_ms / 1_000
}

/// The day number on which millisecond `from_ms` after the epoch falls.
pub open spec fn day_of_milli(from_ms: int) -> int {
    day_of_second(second_of_milli(from_ms))
}

/// Whether the instant `from_ms` falls in a represented year, so that it
/// has a partition.
pub open spec fn resolvable(from_ms: int) -> bool {
    in_calendar_range(second_of_milli(from_ms))
}

/// Whether `key`, a year and a month, is the partition of the instant
/// `from_ms`: the UTC calendar month in which it falls.
pub open spec fn resolves_to(from_ms: int, key: (i32, i32)) -> bool {
    day_in_month(day_of_milli(from_ms), key.0 as int, key.1 as int)
}

/// The year and the month of the UTC date on which second `secs` after the
/// epoch falls.
///
/// Calls `chrono::DateTime::<Utc>::from_timestamp` with no nanoseconds and
/// reads the result with `Datelike::year` and `Datelike::month`. Taken on
/// trust: chrono answers for exactly the seconds of the years from
/// `FIRST_YEAR` to `LAST_YEAR`, the bounds of its `NaiveDate`, and the year
/// and month it gives are those of the proleptic Gregorian calendar, the
/// month counted from 1.
#[verifier::external_body]
fn utc_year_month(secs: i64) -> (found: Option<(i32, u32)>)
    ensures
        found is Some <==> in_calendar_range(secs as int),
        found matches Some(ym) ==> day_in_month(
            day_of_second(secs as int),
            ym.0 as int,
            ym.1 as int,
        ),
{
    match DateTime::<Utc>::from_timestamp(secs, 0) {
        Some(instant) => Some((instant.year(), instant.month())),
        None => None,
    }
}

/// The partition of the instant `from_ms` milliseconds after the epoch: the
/// year and the month, from 1 to 12, of its date in UTC. An instant outside
/// the represented years has none.
pub fn get_year_and_month(from_ms: i64) -> (res: Result<(i32, i32), TripError>)
    ensures
        res is Ok <==> resolvable(from_ms as int),
        res matches Ok(key) ==> {
            &&& resolves_to(from_ms as int, key)
            &&& FIRST_YEAR <= key.0 <= LAST_YEAR
            &&& forall|year: int, month: int| #[trigger]
                day_in_month(day_of_milli(from_ms as int), year, month) ==> key.0 == year && key.1
                    == month
        },
        res matches Err(e) ==> e == (TripError::Resolution { from_ms }),
{
    let secs = floor_div(from_ms, MILLIS_PER_SECOND);
    match utc_year_month(secs) {
        Some((year, month)) => {
            proof {
                lemma_range_is_years(secs as int, year as int, month as int);
                assert forall|y: int, m: int| #[trigger]
                    day_in_month(day_of_milli(from_ms as int), y, m) implies year == y && month
                    == m by {
                    lemma_month_unique(day_of_milli(from_ms as int), year as int, month as int, y, m);
                }
            }
            Ok((year, month as i32))
        },
        None => Err(TripError::Resolution { from_ms }),
    }
}

/// Two instants that fall in one UTC calendar month have one partition.
pub proof fn lemma_same_month_same_partition(
    a_ms: int,
    b_ms: int,
    a_key: (i32, i32),
    b_key: (i32, i32),
    year: int,
    month: int,
)
    requires
        resolves_to(a_ms, a_key),
        resolves_to(b_ms, b_key),
        day_in_month(day_of_milli(a_ms), year, month),
        day_in_month(day_of_milli(b_ms), year, month),
    ensures
        a_key == b_key,
        a_key.0 == year,
        a_key.1 == month,
{
    lemma_month_unique(day_of_milli(a_ms), a_key.0 as int, a_key.1 as int, year, month);
    lemma_month_unique(day_of_milli(b_ms), b_key.0 as int, b_key.1 as int, year, month);
}

/// An instant has one partition at most.
pub proof fn lemma_partition_unique(from_ms: int, a_key: (i32, i32), b_key: (i32, i32))
    requires
        resolves_to(from_ms, a_key),
        resolves_to(from_ms, b_key),
    ensures
        a_key == b_key,
{
    lemma_month_unique(
        day_of_milli(from_ms),
        a_key.0 as int,
        a_key.1 as int,
        b_key.0 as int,
        b_key.1 as int,
    );
}

} // verus!
