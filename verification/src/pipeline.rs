//! One query from its instant to its download: which partition holds the
//! instant, and the download of that partition's file. The scan of the file
//! ends the query once the download has ended.

use crate::download::attempt_number;
use crate::download::Download;
use crate::download::Phase;
use crate::error::TripError;
use crate::partition::get_year_and_month;
use crate::partition::resolvable;
use crate::partition::resolves_to;
use crate::store::file_name;
use crate::store::PartitionStore;
use vstd::prelude::*;

verus! {

/// A query for the first `n_results` trips from the instant `from_ms` on,
/// and how far the download of its partition has come.
pub struct Query {
    /// The lower end of the window, in milliseconds since the epoch.
    pub from_ms: i64,
    /// The number of trips asked for.
    pub n_results: i64,
    /// The year of the partition.
    pub year: i32,
    /// The month of the partition.
    pub month: i32,
    /// The download of the partition's file.
    pub download: Download,
}

impl Query {
    /// Whether this is a query for `n_results` trips from `from_ms` on that
    /// reads its partition through `store`: the partition is that of
    /// `from_ms`, and the download is the attempt numbered `tag` at the
    /// partition's file.
    pub open spec fn is_of(
        self,
        store: PartitionStore,
        from_ms: i64,
        n_results: i64,
        tag: int,
    ) -> bool {
        &&& self.from_ms == from_ms
        &&& self.n_results == n_results
        &&& resolves_to(from_ms as int, (self.year, self.month))
        &&& self.download.is_of(store, self.year as int, self.month as int, tag)
    }

    /// The query for `n_results` trips from `from_ms` on that reads its
    /// partition through `store`, before the first step of its download,
    /// which is the attempt numbered `tag`. An
    /// instant outside the represented years is refused, and then a negative
    /// number of trips.
    pub fn begin(store: &PartitionStore, from_ms: i64, n_results: i64, tag: u32) -> (res: Result<
        Query,
        TripError,
    >)
        ensures
            res is Ok <==> resolvable(from_ms as int) && n_results >= 0,
            res matches Ok(query) ==> query.is_of(*store, from_ms, n_results, tag as int)
                && query.download.phase == Phase::Probing,
            res matches Err(error) ==> error == (if !resolvable(from_ms as int) {
                TripError::Resolution { from_ms }
            } else {
                TripError::Validation { n_results }
            }),
    {
        let (year, month) = get_year_and_month(from_ms)?;
        if n_results < 0 {
            return Err(TripError::Validation { n_results });
        }
        Ok(
            Query {
                from_ms,
                n_results,
                year,
                month,
                download: Download::begin(store, year, month, tag),
            },
        )
    }
}

/// The query for `n_results` trips from `from_ms` on that reads its
/// partition from the public source through the working directory, before
/// the first step of its download.
pub fn get_trips(from_ms: i64, n_results: i64) -> (res: Result<Query, TripError>)
    ensures
        res is Ok <==> resolvable(from_ms as int) && n_results >= 0,
        res matches Ok(query) ==> {
            &&& query.from_ms == from_ms
            &&& query.n_results == n_results
            &&& resolves_to(from_ms as int, (query.year, query.month))
            &&& query.download.phase == Phase::Probing
            &&& query.download.path@ == file_name(query.year as int, query.month as int)
            &&& query.download.url@ == "https://d37ci6vzurychx.cloudfront.net/trip-data/"@
                + file_name(query.year as int, query.month as int)
        },
        res matches Err(error) ==> error == (if !resolvable(from_ms as int) {
            TripError::Resolution { from_ms }
        } else {
            TripError::Validation { n_results }
        }),
{
    let store = PartitionStore::standard();
    let res = Query::begin(&store, from_ms, n_results, attempt_number());
    proof {
        if res is Ok {
            let query = res->Ok_0;
            assert(query.download.path@ =~= file_name(query.year as int, query.month as int));
        }
    }
    res
}

} // verus!
