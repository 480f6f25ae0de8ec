//! Synthetic trips, for use where the trip records themselves are out of
//! reach: each begins within a minute of the instant asked for and lasts
//! from five minutes to an hour.

use crate::calendar::floor_div;
use crate::calendar::floor_rem;
use crate::calendar::in_calendar_range;
use crate::calendar::lemma_calendar_range;
use crate::calendar::within_calendar;
use crate::error::TripError;
use crate::instant::Timestamp;
use crate::random::draw;
use crate::random::thread_generator;
use crate::trip::Trip;
use vstd::prelude::*;

verus! {

/// A synthetic trip begins less than this many seconds after the instant
/// asked for.
pub const WAIT_END: i64 = 60;

/// A synthetic trip lasts at least this many seconds.
pub const RIDE_START: i64 = 300;

/// A synthetic trip lasts less than this many seconds.
pub const RIDE_END: i64 = 3_600;

/// The synthetic trip that begins `wait` seconds after the instant `from_ms`
/// and lasts `ride` seconds, with the two amounts of `amounts`.
pub open spec fn fake_trip_of(from_ms: int, wait: int, ride: int, amounts: (u64, u64)) -> Trip {
    Trip {
        tpep_pickup_datetime: Timestamp {
            secs: (from_ms / 1_000 + wait) as i64,
            nanos: ((from_ms % 1_000) * 1_000_000) as u32,
        },
        tpep_dropoff_datetime: Timestamp {
            secs: (from_ms / 1_000 + wait + ride) as i64,
            nanos: ((from_ms % 1_000) * 1_000_000) as u32,
        },
        trip_distance_bits: amounts.0,
        fare_amount_bits: amounts.1,
    }
}

/// Whether `wait` and `ride` are a wait and a ride of a synthetic trip.
pub open spec fn is_draw(wait: int, ride: int) -> bool {
    0 <= wait < WAIT_END && RIDE_START <= ride < RIDE_END
}

/// Whether `trip` is a synthetic trip for the instant `from_ms` with the
/// two amounts of `amounts`.
pub open spec fn is_fake_trip(trip: Trip, from_ms: int, amounts: (u64, u64)) -> bool {
    exists|wait: int, ride: int|
        is_draw(wait, ride) && trip == #[trigger] fake_trip_of(from_ms, wait, ride, amounts)
}

/// Whether `trip` began no earlier than the instant `from_ms` and less than a
/// minute after it, and ended after it began, from five minutes to an hour
/// later.
pub open spec fn is_plausible(trip: Trip, from_ms: int) -> bool {
    let began = trip.tpep_pickup_datetime.as_nanos();
    let ended = trip.tpep_dropoff_datetime.as_nanos();
    &&& from_ms * 1_000_000 <= began < from_ms * 1_000_000 + 60_000_000_000
    &&& began + 300_000_000_000 <= ended < began + 3_600_000_000_000
    &&& began < ended
}

/// Whether every synthetic trip for the instant `from_ms` falls in the
/// represented years.
pub open spec fn spans_calendar(from_ms: int) -> bool {
    in_calendar_range(from_ms / 1_000) && in_calendar_range(
        from_ms / 1_000 + (WAIT_END - 1) + (RIDE_END - 1),
    )
}

/// A synthetic trip that falls in the represented years is well formed,
/// begins no earlier than the instant asked for and less than a minute after
/// it, and ends after it began, from five minutes to an hour later.
pub proof fn lemma_fake_trip(from_ms: i64, wait: int, ride: int, amounts: (u64, u64))
    requires
        is_draw(wait, ride),
        in_calendar_range(from_ms / 1_000 + wait),
        in_calendar_range(from_ms / 1_000 + wait + ride),
    ensures
        ({
            let trip = fake_trip_of(from_ms as int, wait, ride, amounts);
            let began = trip.tpep_pickup_datetime.as_nanos();
            let ended = trip.tpep_dropoff_datetime.as_nanos();
            &&& trip.wf()
            &&& began == from_ms * 1_000_000 + wait * 1_000_000_000
            &&& ended == began + ride * 1_000_000_000
            &&& is_plausible(trip, from_ms as int)
        }),
{
    lemma_calendar_range(from_ms / 1_000 + wait);
    lemma_calendar_range(from_ms / 1_000 + wait + ride);
}

/// The synthetic trip that begins `wait` seconds after the instant `from_ms`
/// and lasts `ride` seconds, with the two amounts given by their bits; none
/// where the two are no wait and ride of a synthetic trip, or the trip does
/// not fall in the represented years.
pub fn fake_trip(from_ms: i64, wait: i64, ride: i64, distance_bits: u64, fare_bits: u64) -> (made:
    Option<Trip>)
    ensures
        made is Some <==> is_draw(wait as int, ride as int) && in_calendar_range(
            from_ms / 1_000 + wait,
        ) && in_calendar_range(from_ms / 1_000 + wait + ride),
        made matches Some(trip) ==> trip == fake_trip_of(
            from_ms as int,
            wait as int,
            ride as int,
            (distance_bits, fare_bits),
        ) && is_fake_trip(trip, from_ms as int, (distance_bits, fare_bits)) && trip.wf()
            && is_plausible(trip, from_ms as int),
{
    if wait < 0 || wait >= WAIT_END || ride < RIDE_START || ride >= RIDE_END {
        return None;
    }
    let second = floor_div(from_ms, 1_000);
    let millis = floor_rem(from_ms, 1_000);
    let began = second + wait;
    let ended = began + ride;
    if !within_calendar(began) || !within_calendar(ended) {
        return None;
    }
    let nanos = (millis * 1_000_000) as u32;
    proof {
        lemma_fake_trip(from_ms, wait as int, ride as int, (distance_bits, fare_bits));
    }
    Some(
        Trip {
            tpep_pickup_datetime: Timestamp { secs: began, nanos },
            tpep_dropoff_datetime: Timestamp { secs: ended, nanos },
            trip_distance_bits: distance_bits,
            fare_amount_bits: fare_bits,
        },
    )
}

/// `n_results` synthetic trips for the instant `from_ms`, in milliseconds
/// since the epoch: the wait and the ride of each are drawn at random, its
/// two amounts are those of `amounts` at its place. A negative number of
/// trips is refused, and so is a list of amounts of another length.
pub fn get_fake_trips(from_ms: i64, n_results: i64, amounts: &Vec<(u64, u64)>) -> (res: Result<
    Vec<Trip>,
    TripError,
>)
    ensures
        n_results < 0 || amounts.len() != n_results <==> res == Err::<Vec<Trip>, TripError>(
            TripError::Validation { n_results },
        ),
        n_results >= 0 && amounts.len() == n_results && spans_calendar(from_ms as int)
            ==> res is Ok,
        res matches Ok(trips) ==> {
            &&& trips.len() == n_results
            &&& forall|i: int|
                0 <= i < trips.len() ==> is_fake_trip(#[trigger] trips[i], from_ms as int, amounts[i])
                    && trips[i].wf() && is_plausible(trips[i], from_ms as int)
        },
        res matches Err(error) ==> error == (TripError::Validation { n_results }) || (error == (
        TripError::Resolution { from_ms }) && !spans_calendar(from_ms as int)),
{
    if n_results < 0 || (n_results as u64) != (amounts.len() as u64) {
        return Err(TripError::Validation { n_results });
    }
    let mut generator = thread_generator();
    let mut trips: Vec<Trip> = Vec::new();
    let mut i: usize = 0;
    while i < amounts.len()
        invariant
            0 <= i <= amounts.len(),
            amounts.len() == n_results,
            trips.len() == i,
            forall|k: int|
                0 <= k < i ==> is_fake_trip(#[trigger] trips[k], from_ms as int, amounts[k])
                    && trips[k].wf() && is_plausible(trips[k], from_ms as int),
        decreases amounts.len() - i,
    {
        let wait = draw(&mut generator, 0, WAIT_END);
        let ride = draw(&mut generator, RIDE_START, RIDE_END);
        let (distance_bits, fare_bits) = amounts[i];
        match fake_trip(from_ms, wait, ride, distance_bits, fare_bits) {
            Some(trip) => {
                trips.push(trip);
            },
            None => {
                proof {
                    lemma_calendar_range(from_ms / 1_000);
                    lemma_calendar_range(from_ms / 1_000 + wait);
                    lemma_calendar_range(from_ms / 1_000 + wait + ride);
                    lemma_calendar_range(from_ms / 1_000 + (WAIT_END - 1) + (RIDE_END - 1));
                }
                return Err(TripError::Resolution { from_ms });
            },
        }
        i += 1;
    }
    Ok(trips)
}

} // verus!
