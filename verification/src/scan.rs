//! The scan of one partition file, run by polars: the four columns of a
//! trip, the rows from an instant on, in the order of their pickup, the first
//! of them up to a number asked for.

use crate::error::TripError;
use crate::instant::counts_of_bits;
use crate::instant::signed_counts;
use crate::instant::TimeUnit;
use crate::pipeline::Query;
use crate::trip::Trip;
use crate::window::is_window;
use crate::window::misfit;
use crate::window::plan_scan;
use crate::window::trips_from_columns;
use crate::window::ColumnKind;
use crate::window::ColumnKinds;
use crate::window::WindowColumns;
use crate::window::DISTANCE_COLUMN;
use crate::window::DROPOFF_COLUMN;
use crate::window::FARE_COLUMN;
use crate::window::PICKUP_COLUMN;
use polars::prelude::col;
use polars::prelude::lit;
use polars::prelude::Column;
use polars::prelude::DataFrame;
use polars::prelude::DataType;
use polars::prelude::LazyFrame;
use polars::prelude::PolarsError;
use polars::series::BitRepr;
use vstd::prelude::*;

verus! {

/// A query that polars has not run yet.
#[verifier::external_type_specification]
#[verifier::external_body]
pub struct ExLazyFrame(LazyFrame);

/// A table that polars holds in memory.
#[verifier::external_type_specification]
#[verifier::external_body]
pub struct ExDataFrame(DataFrame);

/// One column of a table of polars.
#[verifier::external_type_specification]
#[verifier::external_body]
pub struct ExColumn(Column);

/// The type of a column's values, as polars names it.
#[verifier::external_type_specification]
#[verifier::external_body]
pub struct ExDataType(DataType);

/// An error of polars.
#[verifier::external_type_specification]
#[verifier::external_body]
pub struct ExPolarsError(PolarsError);

/// The kinds of the columns that `table` holds, by their names.
pub uninterp spec fn table_kinds(table: DataFrame) -> Map<Seq<char>, ColumnKind>;

/// What the columns of `table` hold, by their names: each cell by its 64
/// bits, and `None` for an empty cell.
pub uninterp spec fn table_cells(table: DataFrame) -> Map<Seq<char>, Seq<Option<u64>>>;

/// The kind of `column`.
pub uninterp spec fn column_kind(column: Column) -> ColumnKind;

/// What `column` holds: each cell by its 64 bits, and `None` for an empty
/// cell.
pub uninterp spec fn column_cells(column: Column) -> Seq<Option<u64>>;

/// A query over the rows of the parquet file at `path`.
///
/// Calls `polars::prelude::LazyFrame::scan_parquet` with the default
/// arguments. Nothing is claimed of the result: the file is not read yet.
#[verifier::external_body]
fn open_partition(path: &str) -> (opened: Result<LazyFrame, PolarsError>) {
    LazyFrame::scan_parquet(path, Default::default())
}

/// The type that the rows of `frame` hold under the column `name`, or
/// `None` where there is no such column.
///
/// Calls `polars::prelude::LazyFrame::collect_schema` and looks `name` up
/// in the schema with `Schema::get`. Nothing is claimed of the result: it
/// is what the file on disk says.
#[verifier::external_body]
fn schema_type(frame: &mut LazyFrame, name: &str) -> (found: Result<Option<DataType>, PolarsError>) {
    Ok(frame.collect_schema()?.get(name).cloned())
}

/// The column that `table` holds under `name`.
///
/// Calls `polars::prelude::DataFrame::column` and clones what it finds.
/// Taken on trust: polars finds a column exactly where the table holds one of
/// that name, and the column found is the one that the table holds, of its
/// kind and with its cells.
#[verifier::external_body]
fn table_column(table: &DataFrame, name: &str) -> (found: Result<Column, PolarsError>)
    ensures
        found is Ok <==> table_kinds(*table).dom().contains(name@),
        found matches Ok(column) ==> column_kind(column) == table_kinds(*table)[name@]
            && column_cells(column) == table_cells(*table)[name@],
{
    table.column(name).cloned()
}

/// The kind of `column`, which is never `Absent`.
///
/// Calls `polars::prelude::Column::dtype` and tells the variants of
/// `polars::prelude::DataType` apart, and those of
/// `polars::prelude::TimeUnit` within `Datetime`, as `classify` does. The
/// result is what the library calls the kind of the column.
#[verifier::external_body]
fn column_kind_of(column: &Column) -> (kind: ColumnKind)
    ensures
        kind == column_kind(*column),
        kind !is Absent,
{
    match column.dtype() {
        DataType::Datetime(polars::prelude::TimeUnit::Nanoseconds, _) => {
            ColumnKind::Instants(TimeUnit::Nanoseconds)
        },
        DataType::Datetime(polars::prelude::TimeUnit::Microseconds, _) => {
            ColumnKind::Instants(TimeUnit::Microseconds)
        },
        DataType::Datetime(polars::prelude::TimeUnit::Milliseconds, _) => {
            ColumnKind::Instants(TimeUnit::Milliseconds)
        },
        DataType::Float64 => ColumnKind::Reals,
        _ => ColumnKind::Other,
    }
}

/// The kind of column that holds values of the type `dtype`.
///
/// Tells the variants of `polars::prelude::DataType` apart, and those of
/// `polars::prelude::TimeUnit` within `Datetime`. Of the result no more is
/// claimed than that it is a kind of column, never `Absent`.
#[verifier::external_body]
fn classify(dtype: &DataType) -> (kind: ColumnKind)
    ensures
        kind !is Absent,
{
    match dtype {
        DataType::Datetime(polars::prelude::TimeUnit::Nanoseconds, _) => {
            ColumnKind::Instants(TimeUnit::Nanoseconds)
        },
        DataType::Datetime(polars::prelude::TimeUnit::Microseconds, _) => {
            ColumnKind::Instants(TimeUnit::Microseconds)
        },
        DataType::Datetime(polars::prelude::TimeUnit::Milliseconds, _) => {
            ColumnKind::Instants(TimeUnit::Milliseconds)
        },
        DataType::Float64 => ColumnKind::Reals,
        _ => ColumnKind::Other,
    }
}

/// The query `frame`, with no columns but the four named.
///
/// Calls `polars::prelude::LazyFrame::select` with one `col` for each name.
#[verifier::external_body]
fn keep_columns(frame: LazyFrame, first: &str, second: &str, third: &str, fourth: &str) -> (kept:
    LazyFrame) {
    frame.select([col(first), col(second), col(third), col(fourth)])
}

/// The query `frame`, with no rows but those whose value under `column`, a
/// column of the type `dtype`, is at least the value of that type that
/// `bound` stands for.
///
/// Calls `polars::prelude::LazyFrame::filter` with the predicate
/// `col(column).gt_eq(lit(bound).cast(dtype))`.
#[verifier::external_body]
fn keep_from(frame: LazyFrame, column: &str, bound: i64, dtype: DataType) -> (kept: LazyFrame) {
    frame.filter(col(column).gt_eq(lit(bound).cast(dtype)))
}

/// The query `frame`, with its rows in the rising order of `column`.
///
/// Calls `polars::prelude::LazyFrame::sort` with the default options.
#[verifier::external_body]
fn order_by(frame: LazyFrame, column: &str) -> (ordered: LazyFrame) {
    frame.sort([column], Default::default())
}

/// The query `frame`, with no rows after the first `count`.
///
/// Calls `polars::prelude::LazyFrame::limit`.
#[verifier::external_body]
fn keep_first(frame: LazyFrame, count: u32) -> (kept: LazyFrame) {
    frame.limit(count)
}

/// Runs the query `frame`.
///
/// Calls `polars::prelude::LazyFrame::collect`. Nothing is claimed of the
/// result: it is made from the file on disk.
#[verifier::external_body]
fn run(frame: LazyFrame) -> (table: Result<DataFrame, PolarsError>) {
    frame.collect()
}

/// The cells of `column` by their 64 bits, with `None` for an empty cell;
/// `None` for a column whose values are of another width.
///
/// Calls `polars::prelude::Column::bit_repr`, and collects what
/// `ChunkedArray::iter` gives for the variant `BitRepr::Large`. Taken on
/// trust: a column of instants or of double-precision numbers has values of
/// 64 bits, and what is collected is what the column holds.
#[verifier::external_body]
fn column_bits(column: &Column) -> (cells: Option<Vec<Option<u64>>>)
    ensures
        column_kind(*column) is Instants || column_kind(*column) is Reals ==> cells is Some,
        cells matches Some(found) ==> found@ == column_cells(*column),
{
    match column.bit_repr() {
        Some(BitRepr::Large(bits)) => Some(bits.iter().collect()),
        _ => None,
    }
}

/// What polars says of `error`.
///
/// Formats `error` through its `Display`.
#[verifier::external_body]
fn engine_message(error: &PolarsError) -> (message: String) {
    format!("{}", error)
}

/// The failure of a scan that polars reports with `error`.
fn scan_failure(error: &PolarsError) -> (failure: TripError)
    ensures
        failure is Scan,
{
    TripError::Scan { detail: engine_message(error) }
}

/// What a call of polars gave, with its failure told as the failure of a
/// scan: what was found stays as it is.
fn scan_outcome<T>(outcome: Result<T, PolarsError>) -> (res: Result<T, TripError>)
    ensures
        outcome matches Ok(found) ==> res == Ok::<T, TripError>(found),
        outcome is Err ==> res is Err,
        res matches Err(error) ==> error is Scan,
{
    match outcome {
        Ok(found) => Ok(found),
        Err(error) => Err(scan_failure(&error)),
    }
}

/// The type that `frame` holds under `name`, if it has such a column, or
/// the failure of the look.
fn type_in_file(frame: &mut LazyFrame, name: &str) -> (res: Result<Option<DataType>, TripError>)
    ensures
        res matches Err(error) ==> error is Scan,
{
    scan_outcome(schema_type(frame, name))
}

/// The kind of column that holds values of the type `found`, and `Absent`
/// exactly where no type was found.
fn kind_of(found: &Option<DataType>) -> (kind: ColumnKind)
    ensures
        kind is Absent <==> found is None,
{
    match found {
        Some(dtype) => classify(dtype),
        None => ColumnKind::Absent,
    }
}

/// The kind of column that `frame` holds under `name`, or the failure of
/// the look.
fn kind_in_file(frame: &mut LazyFrame, name: &str) -> (res: Result<ColumnKind, TripError>)
    ensures
        res matches Err(error) ==> error is Scan,
{
    let found = type_in_file(frame, name)?;
    Ok(kind_of(&found))
}

/// Whether `table` holds a column of `kind` under `name`.
pub open spec fn holds_kind(table: DataFrame, name: Seq<char>, kind: ColumnKind) -> bool {
    table_kinds(table).dom().contains(name) && table_kinds(table)[name] == kind
}

/// The column that `table` holds under `name`, if it is of `kind`.
fn column_of_kind(table: &DataFrame, name: &str, kind: ColumnKind) -> (res: Result<
    Column,
    TripError,
>)
    ensures
        res is Ok <==> holds_kind(*table, name@, kind),
        res matches Ok(column) ==> column_kind(column) == kind && column_cells(column)
            == table_cells(*table)[name@],
        res matches Err(error) ==> error is Scan,
{
    match table_column(table, name) {
        Ok(column) => if column_kind_of(&column) == kind {
            Ok(column)
        } else {
            Err(misfit())
        },
        Err(error) => Err(scan_failure(&error)),
    }
}

/// The instants of `table` under `name`, a column of `unit`: the counts
/// that its cells stand for. A table without such a column has none.
fn instants_in(table: &DataFrame, name: &str, unit: TimeUnit) -> (res: Result<
    Vec<Option<i64>>,
    TripError,
>)
    ensures
        res is Ok <==> holds_kind(*table, name@, ColumnKind::Instants(unit)),
        res matches Ok(cells) ==> cells@ == signed_counts(table_cells(*table)[name@]),
        res matches Err(error) ==> error is Scan,
{
    let column = column_of_kind(table, name, ColumnKind::Instants(unit))?;
    match column_bits(&column) {
        Some(cells) => Ok(counts_of_bits(&cells)),
        None => {
            proof {
                assert(false);
            }
            Err(misfit())
        },
    }
}

/// The amounts of `table` under `name`, a column of double-precision
/// numbers, by their bits. A table without such a column has none.
fn amounts_in(table: &DataFrame, name: &str) -> (res: Result<Vec<Option<u64>>, TripError>)
    ensures
        res is Ok <==> holds_kind(*table, name@, ColumnKind::Reals),
        res matches Ok(cells) ==> cells@ == table_cells(*table)[name@],
        res matches Err(error) ==> error is Scan,
{
    let column = column_of_kind(table, name, ColumnKind::Reals)?;
    match column_bits(&column) {
        Some(cells) => Ok(cells),
        None => {
            proof {
                assert(false);
            }
            Err(misfit())
        },
    }
}

/// The first `n_results` trips of the partition file at `file_path` that
/// began at `from_ms`, in milliseconds since the epoch, or later, in the
/// order of their pickup.
///
/// The file has to hold the two instants of a trip as instants and its two
/// amounts as double-precision numbers. The lower end of the window is
/// converted to the unit of the pickup column and compared as a value of the
/// column's own type. What the engine hands back is checked against the query
/// before it is returned.
pub fn get_trips_from_file(file_path: &str, from_ms: i64, n_results: i64) -> (res: Result<
    Vec<Trip>,
    TripError,
>)
    ensures
        n_results < 0 <==> res == Err::<Vec<Trip>, TripError>(
            TripError::Validation { n_results },
        ),
        res matches Ok(trips) ==> is_window(trips@, from_ms as int, n_results as int),
        res matches Err(error) ==> error is Validation || error is Schema || error is Scan,
{
    if n_results < 0 {
        return Err(TripError::Validation { n_results });
    }
    let mut frame = match open_partition(file_path) {
        Ok(frame) => frame,
        Err(error) => return Err(scan_failure(&error)),
    };
    let pickup_type = type_in_file(&mut frame, PICKUP_COLUMN)?;
    let kinds = ColumnKinds {
        pickup: kind_of(&pickup_type),
        dropoff: kind_in_file(&mut frame, DROPOFF_COLUMN)?,
        distance: kind_in_file(&mut frame, DISTANCE_COLUMN)?,
        fare: kind_in_file(&mut frame, FARE_COLUMN)?,
    };
    let plan = plan_scan(kinds, from_ms, n_results)?;
    let bound = match plan.bound {
        Some(bound) => bound,
        None => return Ok(Vec::new()),
    };
    let pickup_type = match pickup_type {
        Some(pickup_type) => pickup_type,
        None => {
            proof {
                assert(kinds.pickup == ColumnKind::Absent);
                assert(false);
            }
            return Err(misfit());
        },
    };
    let projected = keep_columns(frame, PICKUP_COLUMN, DROPOFF_COLUMN, DISTANCE_COLUMN, FARE_COLUMN);
    let filtered = keep_from(projected, PICKUP_COLUMN, bound, pickup_type);
    let ordered = order_by(filtered, PICKUP_COLUMN);
    let limited = keep_first(ordered, plan.limit);
    let table = match run(limited) {
        Ok(table) => table,
        Err(error) => return Err(scan_failure(&error)),
    };
    let columns = WindowColumns {
        pickup: instants_in(&table, PICKUP_COLUMN, plan.pickup_unit)?,
        dropoff: instants_in(&table, DROPOFF_COLUMN, plan.dropoff_unit)?,
        distance: amounts_in(&table, DISTANCE_COLUMN)?,
        fare: amounts_in(&table, FARE_COLUMN)?,
        pickup_unit: plan.pickup_unit,
        dropoff_unit: plan.dropoff_unit,
    };
    trips_from_columns(&columns, from_ms, n_results)
}

/// The trips that answer `query`, once its download has ended: the scan of
/// the file that the download made local, or the error with which the
/// download failed. `None` while the download has not ended.
pub fn answer(query: &Query) -> (res: Option<Result<Vec<Trip>, TripError>>)
    ensures
        res is Some <==> query.download.ended(),
        res matches Some(Ok(trips)) ==> query.download.phase is Local && is_window(
            trips@,
            query.from_ms as int,
            query.n_results as int,
        ),
        res matches Some(Err(error)) ==> if query.download.phase is Local {
            error is Validation || error is Schema || error is Scan
        } else {
            query.download.failed_with(error)
        },
{
    match query.download.outcome() {
        Some(Ok(path)) => Some(get_trips_from_file(path.as_str(), query.from_ms, query.n_results)),
        Some(Err(error)) => Some(Err(error)),
        None => None,
    }
}

} // verus!
