//! What a scan of a partition file has to hand back, and the check of what
//! it did hand back: the trips from an instant on, in the order of their
//! pickup, up to a number asked for.

use crate::error::TripError;
use crate::instant::lemma_lower_bound;
use crate::instant::lower_bound;
use crate::instant::lower_bound_in_units;
use crate::instant::reaches;
use crate::instant::TimeUnit;
use crate::instant::Timestamp;
use crate::trip::Trip;
use vstd::prelude::*;
use vstd::string::StringExecFns;

verus! {

/// The column that holds when a trip began.
pub const PICKUP_COLUMN: &'static str = "tpep_pickup_datetime";

/// The column that holds when a trip ended.
pub const DROPOFF_COLUMN: &'static str = "tpep_dropoff_datetime";

/// The column that holds how far a trip went.
pub const DISTANCE_COLUMN: &'static str = "trip_distance";

/// The column that holds what a trip cost.
pub const FARE_COLUMN: &'static str = "fare_amount";

/// What a partition file holds under a column's name.
#[derive(Clone, Copy, Debug, PartialEq, Eq, Structural)]
pub enum ColumnKind {
    /// Instants, counted in a unit.
    Instants(TimeUnit),
    /// Double-precision numbers.
    Reals,
    /// Values of another type.
    Other,
    /// Nothing: the file has no such column.
    Absent,
}

/// The four columns of a scan's result, as the engine hands them out: the
/// instants in the units of their columns, the amounts by their bits, and
/// `None` where a cell is empty.
pub struct WindowColumns {
    pub pickup: Vec<Option<i64>>,
    pub dropoff: Vec<Option<i64>>,
    pub distance: Vec<Option<u64>>,
    pub fare: Vec<Option<u64>>,
    pub pickup_unit: TimeUnit,
    pub dropoff_unit: TimeUnit,
}

impl WindowColumns {
    /// Whether row `i` is a trip from `from_ms` on: no cell of it is empty,
    /// its two instants fall in represented years, and its pickup is no
    /// earlier than `from_ms`.
    pub open spec fn row_fits(self, i: int, from_ms: int) -> bool {
        &&& self.pickup[i] matches Some(began)
        &&& self.dropoff[i] matches Some(ended)
        &&& self.distance[i] is Some
        &&& self.fare[i] is Some
        &&& reaches(began as int, self.pickup_unit, from_ms)
        &&& Timestamp::representable(began as int, self.pickup_unit)
        &&& Timestamp::representable(ended as int, self.dropoff_unit)
    }

    /// The trip that row `i` holds.
    pub open spec fn trip_at(self, i: int) -> Trip {
        Trip {
            tpep_pickup_datetime: Timestamp::at(self.pickup[i].unwrap() as int, self.pickup_unit),
            tpep_dropoff_datetime: Timestamp::at(
                self.dropoff[i].unwrap() as int,
                self.dropoff_unit,
            ),
            trip_distance_bits: self.distance[i].unwrap(),
            fare_amount_bits: self.fare[i].unwrap(),
        }
    }

    /// Whether the columns are the result of a scan from `from_ms` on for at
    /// most `n_results` trips: they are of one length, which is no more than
    /// `n_results`, every row fits, and the pickups do not decrease.
    pub open spec fn fits(self, from_ms: int, n_results: int) -> bool {
        &&& self.pickup.len() <= n_results
        &&& self.dropoff.len() == self.pickup.len()
        &&& self.distance.len() == self.pickup.len()
        &&& self.fare.len() == self.pickup.len()
        &&& forall|i: int| 0 <= i < self.pickup.len() ==> #[trigger] self.row_fits(i, from_ms)
        &&& forall|i: int, j: int|
            0 <= i < j < self.pickup.len() ==> (#[trigger] self.pickup[i]).unwrap() <= (
            #[trigger] self.pickup[j]).unwrap()
    }

    /// The trips that the rows hold, in their order.
    pub open spec fn trips(self) -> Seq<Trip> {
        Seq::new(self.pickup.len() as nat, |i: int| self.trip_at(i))
    }
}

/// Whether `trips` can answer a query for at most `n_results` trips from
/// `from_ms` on: they are no more than `n_results`, each is well formed and
/// began no earlier than `from_ms`, and none began before the one in front
/// of it.
pub open spec fn is_window(trips: Seq<Trip>, from_ms: int, n_results: int) -> bool {
    &&& trips.len() <= n_results
    &&& forall|i: int| 0 <= i < trips.len() ==> (#[trigger] trips[i]).wf()
    &&& forall|i: int|
        0 <= i < trips.len() ==> (#[trigger] trips[i]).tpep_pickup_datetime.as_nanos() >= from_ms
            * 1_000_000
    &&& forall|i: int, j: int|
        0 <= i < j < trips.len() ==> (#[trigger] trips[i]).tpep_pickup_datetime.as_nanos() <= (
        #[trigger] trips[j]).tpep_pickup_datetime.as_nanos()
}

/// The trips of columns that fit a query answer it.
pub proof fn lemma_fitting_columns_are_window(columns: WindowColumns, from_ms: int, n_results: int)
    requires
        columns.fits(from_ms, n_results),
    ensures
        is_window(columns.trips(), from_ms, n_results),
{
    let trips = columns.trips();
    assert forall|i: int| 0 <= i < trips.len() implies (#[trigger] trips[i]).wf()
        && trips[i].tpep_pickup_datetime.as_nanos() >= from_ms * 1_000_000 by {
        assert(columns.row_fits(i, from_ms));
        Timestamp::lemma_at(columns.pickup[i].unwrap(), columns.pickup_unit);
        Timestamp::lemma_at(columns.dropoff[i].unwrap(), columns.dropoff_unit);
    }
    assert forall|i: int, j: int| 0 <= i < j < trips.len() implies (
    #[trigger] trips[i]).tpep_pickup_datetime.as_nanos() <= (
    #[trigger] trips[j]).tpep_pickup_datetime.as_nanos() by {
        let a = columns.pickup[i].unwrap();
        let b = columns.pickup[j].unwrap();
        Timestamp::lemma_at(a, columns.pickup_unit);
        Timestamp::lemma_at(b, columns.pickup_unit);
        assert(a <= b);
        assert(a * columns.pickup_unit.nanos_each() <= b * columns.pickup_unit.nanos_each());
    }
}

/// What went wrong with columns that do not fit the query they were read
/// for.
pub fn misfit() -> (error: TripError)
    ensures
        error matches TripError::Scan { detail } && detail@
            == "the scan returned rows that do not answer the query"@,
{
    TripError::Scan { detail: String::from_str("the scan returned rows that do not answer the query") }
}

/// The trips of a scan's result, once the result has been checked against
/// the query: trips from `from_ms` on, no more than `n_results`, in the order
/// of their pickup. Columns that hold anything else are refused.
pub fn trips_from_columns(columns: &WindowColumns, from_ms: i64, n_results: i64) -> (res: Result<
    Vec<Trip>,
    TripError,
>)
    ensures
        res is Ok <==> columns.fits(from_ms as int, n_results as int),
        res matches Ok(trips) ==> trips@ == columns.trips() && is_window(
            trips@,
            from_ms as int,
            n_results as int,
        ),
        res matches Err(error) ==> error is Scan,
{
    let rows = columns.pickup.len();
    if n_results < 0 || (n_results as u64) < (rows as u64) || columns.dropoff.len() != rows
        || columns.distance.len() != rows || columns.fare.len() != rows {
        return Err(misfit());
    }
    let bound = lower_bound_in_units(from_ms, columns.pickup_unit);
    let mut trips: Vec<Trip> = Vec::new();
    let mut i: usize = 0;
    while i < rows
        invariant
            rows == columns.pickup.len(),
            rows == columns.dropoff.len(),
            rows == columns.distance.len(),
            rows == columns.fare.len(),
            rows <= n_results,
            bound == lower_bound(from_ms as int, columns.pickup_unit),
            0 <= i <= rows,
            trips@.len() == i,
            forall|k: int| 0 <= k < i ==> #[trigger] columns.row_fits(k, from_ms as int),
            forall|k: int| 0 <= k < i ==> #[trigger] trips@[k] == columns.trip_at(k),
            forall|a: int, b: int|
                0 <= a < b < i ==> (#[trigger] columns.pickup[a]).unwrap() <= (
                #[trigger] columns.pickup[b]).unwrap(),
        decreases rows - i,
    {
        let row = (columns.pickup[i], columns.dropoff[i], columns.distance[i], columns.fare[i]);
        let (began, ended, distance, fare) = match row {
            (Some(began), Some(ended), Some(distance), Some(fare)) => (
                began,
                ended,
                distance,
                fare,
            ),
            _ => {
                assert(!columns.row_fits(i as int, from_ms as int));
                return Err(misfit());
            },
        };
        proof {
            lemma_lower_bound(from_ms as int, columns.pickup_unit, began);
        }
        let reached = match bound {
            Some(least) => began >= least,
            None => false,
        };
        let in_order = i == 0 || match columns.pickup[i - 1] {
            Some(before) => before <= began,
            None => false,
        };
        if !reached {
            assert(!columns.row_fits(i as int, from_ms as int));
            return Err(misfit());
        }
        if !in_order {
            assert(columns.row_fits(i as int - 1, from_ms as int));
            assert(columns.pickup[i as int - 1].unwrap() > columns.pickup[i as int].unwrap());
            return Err(misfit());
        }
        let pickup = match Timestamp::from_units(began, columns.pickup_unit) {
            Some(instant) => instant,
            None => {
                assert(!columns.row_fits(i as int, from_ms as int));
                return Err(misfit());
            },
        };
        let dropoff = match Timestamp::from_units(ended, columns.dropoff_unit) {
            Some(instant) => instant,
            None => {
                assert(!columns.row_fits(i as int, from_ms as int));
                return Err(misfit());
            },
        };
        assert(columns.row_fits(i as int, from_ms as int));
        assert forall|a: int, b: int| 0 <= a < b < i + 1 implies (
        #[trigger] columns.pickup[a]).unwrap() <= (#[trigger] columns.pickup[b]).unwrap() by {
            if b == i && a < i - 1 {
                assert(columns.pickup[a].unwrap() <= columns.pickup[i as int - 1].unwrap());
            }
        }
        trips.push(
            Trip {
                tpep_pickup_datetime: pickup,
                tpep_dropoff_datetime: dropoff,
                trip_distance_bits: distance,
                fare_amount_bits: fare,
            },
        );
        i += 1;
    }
    proof {
        assert(columns.fits(from_ms as int, n_results as int));
        assert(trips@ =~= columns.trips());
        lemma_fitting_columns_are_window(*columns, from_ms as int, n_results as int);
    }
    Ok(trips)
}

/// The unit of a column that has to hold instants.
pub fn unit_of_instants(kind: ColumnKind, column: &str) -> (res: Result<TimeUnit, TripError>)
    ensures
        res is Ok <==> kind is Instants,
        res matches Ok(unit) ==> kind == ColumnKind::Instants(unit),
        res matches Err(error) ==> error matches TripError::Schema { column: named } && named@
            == column@,
{
    match kind {
        ColumnKind::Instants(unit) => Ok(unit),
        _ => Err(TripError::Schema { column: String::from_str(column) }),
    }
}

/// Checks a column that has to hold amounts.
pub fn check_amounts(kind: ColumnKind, column: &str) -> (res: Result<(), TripError>)
    ensures
        res is Ok <==> kind is Reals,
        res matches Err(error) ==> error matches TripError::Schema { column: named } && named@
            == column@,
{
    match kind {
        ColumnKind::Reals => Ok(()),
        _ => Err(TripError::Schema { column: String::from_str(column) }),
    }
}

/// The number of rows to ask the engine for, which counts them in 32 bits:
/// `n_results`, or as many as it can count.
pub fn row_limit(n_results: i64) -> (count: u32)
    requires
        n_results >= 0,
    ensures
        count == if n_results > u32::MAX {
            u32::MAX as int
        } else {
            n_results as int
        },
{
    if n_results > 4_294_967_295 {
        4_294_967_295
    } else {
        n_results as u32
    }
}

/// What a partition file holds under the names of the four columns of a
/// trip.
#[derive(Clone, Copy, Debug, PartialEq, Eq, Structural)]
pub struct ColumnKinds {
    pub pickup: ColumnKind,
    pub dropoff: ColumnKind,
    pub distance: ColumnKind,
    pub fare: ColumnKind,
}

impl ColumnKinds {
    /// Whether the file holds the two instants of a trip as instants and its
    /// two amounts as double-precision numbers.
    pub open spec fn fit(self) -> bool {
        &&& self.pickup is Instants
        &&& self.dropoff is Instants
        &&& self.distance is Reals
        &&& self.fare is Reals
    }

    /// The name of the first column that the file lacks or holds with
    /// another type.
    pub open spec fn first_misfit(self) -> Seq<char> {
        if !(self.pickup is Instants) {
            PICKUP_COLUMN@
        } else if !(self.dropoff is Instants) {
            DROPOFF_COLUMN@
        } else if !(self.distance is Reals) {
            DISTANCE_COLUMN@
        } else {
            FARE_COLUMN@
        }
    }
}

/// What the engine is asked for: the rows whose pickup, counted in the unit
/// of its column, is at least `bound`, in the order of their pickup, and of
/// those the first `limit`. Without a bound no row is asked for.
#[derive(Clone, Copy, Debug, PartialEq, Eq, Structural)]
pub struct ScanPlan {
    pub pickup_unit: TimeUnit,
    pub dropoff_unit: TimeUnit,
    pub bound: Option<i64>,
    pub limit: u32,
}

/// The scan that answers a query for `n_results` trips from `from_ms` on in
/// a file that holds columns of `kinds`. A negative number of trips is
/// refused, and then a file whose columns do not fit.
pub fn plan_scan(kinds: ColumnKinds, from_ms: i64, n_results: i64) -> (res: Result<
    ScanPlan,
    TripError,
>)
    ensures
        res is Ok <==> n_results >= 0 && kinds.fit(),
        res matches Ok(plan) ==> {
            &&& kinds.pickup == ColumnKind::Instants(plan.pickup_unit)
            &&& kinds.dropoff == ColumnKind::Instants(plan.dropoff_unit)
            &&& plan.bound == lower_bound(from_ms as int, plan.pickup_unit)
            &&& plan.limit == if n_results > u32::MAX {
                u32::MAX as int
            } else {
                n_results as int
            }
        },
        res matches Err(error) ==> if n_results < 0 {
            error == (TripError::Validation { n_results })
        } else {
            error matches TripError::Schema { column } && column@ == kinds.first_misfit()
        },
{
    if n_results < 0 {
        return Err(TripError::Validation { n_results });
    }
    let pickup_unit = unit_of_instants(kinds.pickup, PICKUP_COLUMN)?;
    let dropoff_unit = unit_of_instants(kinds.dropoff, DROPOFF_COLUMN)?;
    check_amounts(kinds.distance, DISTANCE_COLUMN)?;
    check_amounts(kinds.fare, FARE_COLUMN)?;
    Ok(
        ScanPlan {
            pickup_unit,
            dropoff_unit,
            bound: lower_bound_in_units(from_ms, pickup_unit),
            limit: row_limit(n_results),
        },
    )
}

} // verus!
