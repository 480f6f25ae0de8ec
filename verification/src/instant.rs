//! Instants as the library holds them, and the units in which a partition
//! file stores them.

use crate::calendar::floor_div;
use crate::calendar::floor_rem;
use crate::calendar::in_calendar_range;
use crate::calendar::within_calendar;
use vstd::prelude::*;

verus! {

/// The unit in which a column of instants counts the time since the epoch.
#[derive(Clone, Copy, Debug, PartialEq, Eq, Structural)]
pub enum TimeUnit {
    Nanoseconds,
    Microseconds,
    Milliseconds,
}

impl TimeUnit {
    /// How many nanoseconds one unit lasts.
    pub open spec fn nanos_each(self) -> int {
        match self {
            TimeUnit::Nanoseconds => 1,
            TimeUnit::Microseconds => 1_000,
            TimeUnit::Milliseconds => 1_000_000,
        }
    }

    /// How many units make a millisecond.
    pub open spec fn per_milli(self) -> int {
        match self {
            TimeUnit::Nanoseconds => 1_000_000,
            TimeUnit::Microseconds => 1_000,
            TimeUnit::Milliseconds => 1,
        }
    }

    /// How many units make a second.
    pub open spec fn per_second(self) -> int {
        match self {
            TimeUnit::Nanoseconds => 1_000_000_000,
            TimeUnit::Microseconds => 1_000_000,
            TimeUnit::Milliseconds => 1_000,
        }
    }

    /// How many nanoseconds one unit lasts.
    pub fn nanos_per_unit(self) -> (n: i64)
        ensures
            n == self.nanos_each(),
    {
        match self {
            TimeUnit::Nanoseconds => 1,
            TimeUnit::Microseconds => 1_000,
            TimeUnit::Milliseconds => 1_000_000,
        }
    }

    /// How many units make a millisecond.
    pub fn units_per_milli(self) -> (n: i64)
        ensures
            n == self.per_milli(),
    {
        match self {
            TimeUnit::Nanoseconds => 1_000_000,
            TimeUnit::Microseconds => 1_000,
            TimeUnit::Milliseconds => 1,
        }
    }

    /// How many units make a second.
    pub fn units_per_second(self) -> (n: i64)
        ensures
            n == self.per_second(),
    {
        match self {
            TimeUnit::Nanoseconds => 1_000_000_000,
            TimeUnit::Microseconds => 1_000_000,
            TimeUnit::Milliseconds => 1_000,
        }
    }
}

/// Whether the instant `raw` units after the epoch is no earlier than the
/// instant `from_ms` milliseconds after it.
pub open spec fn reaches(raw: int, unit: TimeUnit, from_ms: int) -> bool {
    raw * unit.nanos_each() >= from_ms * 1_000_000
}

/// The instant `from_ms` milliseconds after the epoch, counted in `unit`:
/// the least stored value that is no earlier. Where every stored value is
/// later, that is the least value there is; where none is, there is no bound.
pub open spec fn lower_bound(from_ms: int, unit: TimeUnit) -> Option<i64> {
    let exact = from_ms * unit.per_milli();
    if exact > i64::MAX {
        None
    } else if exact < i64::MIN {
        Some(i64::MIN)
    } else {
        Some(exact as i64)
    }
}

/// The stored values from the lower bound on are those of the instants from
/// `from_ms` on; without a bound there are none.
pub proof fn lemma_lower_bound(from_ms: int, unit: TimeUnit, raw: i64)
    ensures
        match lower_bound(from_ms, unit) {
            Some(bound) => raw >= bound <==> reaches(raw as int, unit, from_ms),
            None => !reaches(raw as int, unit, from_ms),
        },
{
}

/// Converts the lower end of a time window from milliseconds to the unit of
/// the column that it is compared with.
pub fn lower_bound_in_units(from_ms: i64, unit: TimeUnit) -> (bound: Option<i64>)
    ensures
        bound == lower_bound(from_ms as int, unit),
{
    match from_ms.checked_mul(unit.units_per_milli()) {
        Some(exact) => Some(exact),
        None => if from_ms < 0 {
            Some(i64::MIN)
        } else {
            None
        },
    }
}

/// An instant: whole seconds since 1 January 1970, 0:00 UTC, and the
/// nanoseconds into the second.
#[derive(Clone, Copy, Debug, PartialEq, Eq, Structural)]
pub struct Timestamp {
    pub secs: i64,
    pub nanos: u32,
}

impl Timestamp {
    /// An instant of a represented year, with less than a second of
    /// nanoseconds.
    pub open spec fn wf(self) -> bool {
        &&& in_calendar_range(self.secs as int)
        &&& self.nanos < 1_000_000_000
    }

    /// The nanoseconds from the epoch to this instant.
    pub open spec fn as_nanos(self) -> int {
        self.secs * 1_000_000_000 + self.nanos
    }

    /// Whether the instant `raw` units after the epoch falls in a
    /// represented year.
    pub open spec fn representable(raw: int, unit: TimeUnit) -> bool {
        in_calendar_range(raw / unit.per_second())
    }

    /// The instant `raw` units after the epoch.
    pub open spec fn at(raw: int, unit: TimeUnit) -> Timestamp {
        Timestamp {
            secs: (raw / unit.per_second()) as i64,
            nanos: ((raw % unit.per_second()) * unit.nanos_each()) as u32,
        }
    }

    /// An instant counted in a unit lies as many nanoseconds after the epoch
    /// as its count says.
    pub proof fn lemma_at(raw: i64, unit: TimeUnit)
        ensures
            Self::at(raw as int, unit).as_nanos() == raw * unit.nanos_each(),
            Self::at(raw as int, unit).nanos < 1_000_000_000,
            Self::at(raw as int, unit).secs == raw as int / unit.per_second(),
    {
        let per_second = unit.per_second();
        let secs = raw as int / per_second;
        let rest = raw as int % per_second;
        assert(raw == secs * per_second + rest && 0 <= rest < per_second && i64::MIN <= secs
            <= i64::MAX) by (nonlinear_arith)
            requires
                per_second >= 1_000,
                secs == (raw as int) / per_second,
                rest == (raw as int) % per_second,
                i64::MIN <= raw <= i64::MAX,
        ;
        assert(secs * 1_000_000_000 + rest * unit.nanos_each() == raw * unit.nanos_each())
            by (nonlinear_arith)
            requires
                raw == secs * per_second + rest,
                per_second * unit.nanos_each() == 1_000_000_000,
        ;
    }

    /// The instant `secs` seconds after the epoch, if it falls in a
    /// represented year.
    pub fn from_seconds(secs: i64) -> (instant: Option<Timestamp>)
        ensures
            instant is Some <==> in_calendar_range(secs as int),
            instant matches Some(t) ==> t.wf() && t.secs == secs && t.nanos == 0,
    {
        if within_calendar(secs) {
            Some(Timestamp { secs, nanos: 0 })
        } else {
            None
        }
    }

    /// The instant `raw` units after the epoch, if it falls in a represented
    /// year.
    pub fn from_units(raw: i64, unit: TimeUnit) -> (instant: Option<Timestamp>)
        ensures
            instant is Some <==> Self::representable(raw as int, unit),
            instant matches Some(t) ==> t == Self::at(raw as int, unit) && t.wf() && t.as_nanos()
                == raw * unit.nanos_each(),
    {
        proof {
            Self::lemma_at(raw, unit);
        }
        let per_second = unit.units_per_second();
        let secs = floor_div(raw, per_second);
        let rest = floor_rem(raw, per_second);
        if within_calendar(secs) {
            let nanos = rest * unit.nanos_per_unit();
            Some(Timestamp { secs, nanos: nanos as u32 })
        } else {
            None
        }
    }
}

/// The count that 64 bits stand for where they are read as a signed number,
/// in two's complement.
pub open spec fn signed_count(bits: u64) -> i64 {
    if bits < 0x8000_0000_0000_0000 {
        bits as i64
    } else {
        (bits - 0x1_0000_0000_0000_0000) as i64
    }
}

/// The counts that the cells of a column stand for where each is read as a
/// signed number, an empty cell staying empty.
pub open spec fn signed_counts(cells: Seq<Option<u64>>) -> Seq<Option<i64>> {
    Seq::new(
        cells.len(),
        |i: int|
            match cells[i] {
                Some(bits) => Some(signed_count(bits)),
                None => None,
            },
    )
}

/// The count that the 64 bits `bits` stand for, read as a signed number.
pub fn count_of_bits(bits: u64) -> (count: i64)
    ensures
        count == signed_count(bits),
{
    if bits < 0x8000_0000_0000_0000 {
        bits as i64
    } else {
        let low: i64 = (bits - 0x8000_0000_0000_0000) as i64;
        low + i64::MIN
    }
}

/// The counts that the cells `cells` stand for, each read as a signed number.
pub fn counts_of_bits(cells: &Vec<Option<u64>>) -> (counts: Vec<Option<i64>>)
    ensures
        counts@ == signed_counts(cells@),
{
    let mut counts: Vec<Option<i64>> = Vec::new();
    let mut i: usize = 0;
    while i < cells.len()
        invariant
            0 <= i <= cells.len(),
            counts@.len() == i,
            forall|k: int| 0 <= k < i ==> #[trigger] counts@[k] == signed_counts(cells@)[k],
        decreases cells.len() - i,
    {
        let count = match cells[i] {
            Some(bits) => Some(count_of_bits(bits)),
            None => None,
        };
        counts.push(count);
        i += 1;
    }
    assert(counts@ =~= signed_counts(cells@));
    counts
}

} // verus!
