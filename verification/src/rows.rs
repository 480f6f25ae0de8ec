//! What a scan means on the rows of a partition file: of the rows that
//! began at an instant or later, put in the order of their pickup, the first
//! ones up to a number. What the engine hands back is checked for as much of
//! this meaning as shows without the file: its rows began no earlier, do not
//! fall in their order, and are no more than asked for. Every answer that
//! has this meaning passes that check.

use crate::instant::lemma_lower_bound;
use crate::instant::lower_bound;
use crate::instant::Timestamp;
use crate::window::ScanPlan;
use crate::window::WindowColumns;
use vstd::prelude::*;
use vstd::seq_lib::to_multiset_contains;
use vstd::seq_lib::to_multiset_len;

verus! {

/// One row of a partition file, by the four cells that a scan reads: the
/// instants counted in the units of their columns, the amounts by their bits.
pub struct Row {
    pub pickup: i64,
    pub dropoff: i64,
    pub distance_bits: u64,
    pub fare_bits: u64,
}

/// The test that a row began at `bound` or later.
pub open spec fn from_bound(bound: i64) -> spec_fn(Row) -> bool {
    |row: Row| row.pickup >= bound
}

/// The rows of `rows` that began at `bound` or later, in the order of the
/// file.
pub open spec fn matching(rows: Seq<Row>, bound: i64) -> Seq<Row> {
    rows.filter(from_bound(bound))
}

/// Whether no row of `rows` began before the one in front of it.
pub open spec fn rises(rows: Seq<Row>) -> bool {
    forall|i: int, j: int| 0 <= i < j < rows.len() ==> rows[i].pickup <= rows[j].pickup
}

/// Whether `ordered` holds the rows of `rows`, each as often, in the order
/// of their pickup.
pub open spec fn is_ordering_of(ordered: Seq<Row>, rows: Seq<Row>) -> bool {
    ordered.to_multiset() == rows.to_multiset() && rises(ordered)
}

/// The first `limit` rows of `rows`, or all of them where they are fewer.
pub open spec fn first_of(rows: Seq<Row>, limit: nat) -> Seq<Row> {
    if limit < rows.len() {
        rows.subrange(0, limit as int)
    } else {
        rows
    }
}

impl ScanPlan {
    /// How many rows of `rows` the plan asks for at most: those that began
    /// at its bound or later.
    pub open spec fn count_matching(self, rows: Seq<Row>) -> nat {
        match self.bound {
            Some(bound) => matching(rows, bound).len(),
            None => 0,
        }
    }

    /// Whether `out` is an answer to the plan on a file that holds `rows`:
    /// the first rows, up to the plan's limit, of an ordering of the rows
    /// that began at the plan's bound or later. Rows of one instant may stand
    /// in any order.
    pub open spec fn answered_by(self, out: Seq<Row>, rows: Seq<Row>) -> bool {
        match self.bound {
            Some(bound) => exists|ordered: Seq<Row>| #[trigger]
                is_ordering_of(ordered, matching(rows, bound)) && out == first_of(
                    ordered,
                    self.limit as nat,
                ),
            None => out.len() == 0,
        }
    }

    /// Whether this is the plan of a query for `n_results` trips from
    /// `from_ms` on.
    pub open spec fn is_for(self, from_ms: int, n_results: int) -> bool {
        &&& n_results >= 0
        &&& self.bound == lower_bound(from_ms, self.pickup_unit)
        &&& self.limit == if n_results > u32::MAX {
            u32::MAX as int
        } else {
            n_results
        }
    }
}

impl WindowColumns {
    /// Whether the columns hold the rows `out`, in their order and with no
    /// cell empty, counted in the units of `plan`.
    pub open spec fn hold(self, out: Seq<Row>, plan: ScanPlan) -> bool {
        &&& self.pickup_unit == plan.pickup_unit
        &&& self.dropoff_unit == plan.dropoff_unit
        &&& self.pickup.len() == out.len()
        &&& self.dropoff.len() == out.len()
        &&& self.distance.len() == out.len()
        &&& self.fare.len() == out.len()
        &&& forall|i: int|
            0 <= i < out.len() ==> {
                &&& self.pickup[i] == Some((#[trigger] out[i]).pickup)
                &&& self.dropoff[i] == Some(out[i].dropoff)
                &&& self.distance[i] == Some(out[i].distance_bits)
                &&& self.fare[i] == Some(out[i].fare_bits)
            }
    }
}

/// An answer holds as many rows as the plan's limit says, or as many as
/// began at the plan's bound or later where those are fewer.
pub proof fn lemma_answer_length(plan: ScanPlan, out: Seq<Row>, rows: Seq<Row>)
    requires
        plan.answered_by(out, rows),
    ensures
        out.len() <= plan.limit,
        out.len() <= plan.count_matching(rows),
        out.len() == plan.limit || out.len() == plan.count_matching(rows),
        plan.count_matching(rows) < plan.limit ==> out.len() == plan.count_matching(rows),
{
    if let Some(bound) = plan.bound {
        let ordered = choose|ordered: Seq<Row>| #[trigger]
            is_ordering_of(ordered, matching(rows, bound)) && out == first_of(
                ordered,
                plan.limit as nat,
            );
        to_multiset_len(ordered);
        to_multiset_len(matching(rows, bound));
    }
}

/// Every row of an answer is a row of the file that began at the plan's
/// bound or later, and none began before the one in front of it.
pub proof fn lemma_answer_rows(plan: ScanPlan, out: Seq<Row>, rows: Seq<Row>)
    requires
        plan.answered_by(out, rows),
    ensures
        rises(out),
        forall|i: int| 0 <= i < out.len() ==> rows.contains(#[trigger] out[i]),
        plan.bound matches Some(bound) ==> forall|i: int|
            0 <= i < out.len() ==> (#[trigger] out[i]).pickup >= bound,
{
    if let Some(bound) = plan.bound {
        let kept = matching(rows, bound);
        let ordered = choose|ordered: Seq<Row>| #[trigger]
            is_ordering_of(ordered, kept) && out == first_of(ordered, plan.limit as nat);
        assert forall|i: int| 0 <= i < out.len() implies rows.contains(#[trigger] out[i])
            && out[i].pickup >= bound by {
            let row = out[i];
            assert(ordered[i] == row);
            assert(ordered.contains(row));
            to_multiset_contains(ordered, row);
            to_multiset_contains(kept, row);
            let k = choose|k: int| 0 <= k < kept.len() && kept[k] == row;
            rows.lemma_filter_pred(from_bound(bound), k);
            rows.lemma_filter_contains_rev(from_bound(bound), row);
        }
        assert forall|i: int, j: int| 0 <= i < j < out.len() implies out[i].pickup
            <= out[j].pickup by {
            assert(ordered[i] == out[i] && ordered[j] == out[j]);
        }
    }
}

/// An answer to the plan of a query, of rows whose instants fall in the
/// represented years, passes the check of what a scan hands back.
pub proof fn lemma_answer_fits(
    plan: ScanPlan,
    from_ms: i64,
    n_results: i64,
    out: Seq<Row>,
    rows: Seq<Row>,
    columns: WindowColumns,
)
    requires
        plan.is_for(from_ms as int, n_results as int),
        plan.answered_by(out, rows),
        columns.hold(out, plan),
        forall|i: int|
            0 <= i < out.len() ==> Timestamp::representable(
                (#[trigger] out[i]).pickup as int,
                plan.pickup_unit,
            ) && Timestamp::representable(out[i].dropoff as int, plan.dropoff_unit),
    ensures
        columns.fits(from_ms as int, n_results as int),
{
    lemma_answer_length(plan, out, rows);
    lemma_answer_rows(plan, out, rows);
    assert forall|i: int| 0 <= i < columns.pickup.len() implies #[trigger] columns.row_fits(
        i,
        from_ms as int,
    ) by {
        let row = out[i];
        lemma_lower_bound(from_ms as int, plan.pickup_unit, row.pickup);
    }
    assert forall|i: int, j: int| 0 <= i < j < columns.pickup.len() implies (
    #[trigger] columns.pickup[i]).unwrap() <= (#[trigger] columns.pickup[j]).unwrap() by {
        assert(out[i].pickup <= out[j].pickup);
    }
}

} // verus!
