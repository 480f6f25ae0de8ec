//! One taxi trip.

use crate::instant::Timestamp;
use vstd::prelude::*;

verus! {

/// One taxi trip: when it began and ended, how far it went and what it
/// cost. The two amounts are IEEE 754 double-precision numbers, held by
/// their 64 bits. A trip that was read from a file is as the file has it:
/// nothing is asked of its amounts, nor of the order of its two instants.
#[derive(Clone, Copy, Debug, PartialEq, Eq, Structural)]
pub struct Trip {
    pub tpep_pickup_datetime: Timestamp,
    pub tpep_dropoff_datetime: Timestamp,
    pub trip_distance_bits: u64,
    pub fare_amount_bits: u64,
}

impl Trip {
    /// Both instants are well formed.
    pub open spec fn wf(self) -> bool {
        &&& self.tpep_pickup_datetime.wf()
        &&& self.tpep_dropoff_datetime.wf()
    }
}

} // verus!
