use polars::prelude::Column;
use polars::prelude::DataFrame;
use polars::prelude::Int64Chunked;
use polars::prelude::IntoColumn;
use polars::prelude::NamedFrom;
use polars::prelude::NewChunkedArray;
use polars::prelude::ParquetWriter;
use polars::prelude::Series;
use taxi_trips::download::Event;
use taxi_trips::download::Phase;
use taxi_trips::error::TripError;
use taxi_trips::instant::Timestamp;
use taxi_trips::pipeline::Query;
use taxi_trips::scan::answer;
use taxi_trips::scan::get_trips_from_file;
use taxi_trips::store::PartitionStore;
use taxi_trips::trip::Trip;

const JAN_2024_MS: i64 = 1_704_067_200_000;
const JAN_2024_S: i64 = 1_704_067_200;

fn instants(name: &str, unit: polars::prelude::TimeUnit, values: &[Option<i64>]) -> Column {
    Int64Chunked::from_slice_options(name.into(), values)
        .into_datetime(unit, None)
        .into_column()
}

fn amounts(name: &str, values: &[Option<f64>]) -> Column {
    Series::new(name.into(), values).into_column()
}

fn integers(name: &str, values: &[i64]) -> Column {
    Series::new(name.into(), values).into_column()
}

fn write_bytes(path: &str, bytes: Vec<u8>) {
    tokio::runtime::Builder::new_current_thread()
        .build()
        .unwrap()
        .block_on(tokio::fs::write(path, bytes))
        .unwrap();
}

fn write_table(path: &str, columns: Vec<Column>) {
    let mut table = DataFrame::new(columns).unwrap();
    let mut bytes: Vec<u8> = Vec::new();
    ParquetWriter::new(&mut bytes).finish(&mut table).unwrap();
    write_bytes(path, bytes);
}

fn trip_columns(
    unit: polars::prelude::TimeUnit,
    rows: &[(Option<i64>, Option<i64>, Option<f64>, Option<f64>)],
) -> Vec<Column> {
    let pickups: Vec<Option<i64>> = rows.iter().map(|row| row.0).collect();
    let dropoffs: Vec<Option<i64>> = rows.iter().map(|row| row.1).collect();
    let distances: Vec<Option<f64>> = rows.iter().map(|row| row.2).collect();
    let fares: Vec<Option<f64>> = rows.iter().map(|row| row.3).collect();
    vec![
        integers("vendor", &vec![7; rows.len()]),
        instants("tpep_pickup_datetime", unit, &pickups),
        instants("tpep_dropoff_datetime", unit, &dropoffs),
        amounts("trip_distance", &distances),
        amounts("fare_amount", &fares),
        amounts("tip_amount", &fares),
    ]
}

fn write_partition(path: &str, unit: polars::prelude::TimeUnit, rows: &[(i64, i64, f64, f64)]) {
    let rows: Vec<(Option<i64>, Option<i64>, Option<f64>, Option<f64>)> = rows
        .iter()
        .map(|row| (Some(row.0), Some(row.1), Some(row.2), Some(row.3)))
        .collect();
    write_table(path, trip_columns(unit, &rows));
}

fn january_rows() -> Vec<(i64, i64, f64, f64)> {
    let base = JAN_2024_MS * 1_000;
    vec![
        (base + 3_000_000, base + 9_000_000, 3.5, 30.0),
        (base - 1, base + 5, 9.0, 90.0),
        (base + 1_000_000, base + 2_000_000, 1.5, 10.0),
        (base - 86_400_000_000, base, 8.0, 80.0),
        (base, base + 7_000_000, 0.5, -2.5),
    ]
}

fn pickup_seconds(trips: &[Trip]) -> Vec<i64> {
    trips.iter().map(|trip| trip.tpep_pickup_datetime.secs).collect()
}

#[test]
fn scan_returns_matching_rows_in_pickup_order() {
    let path = "/tmp/taxi_trips_scan_order.parquet";
    write_partition(path, polars::prelude::TimeUnit::Microseconds, &january_rows());
    let trips = get_trips_from_file(path, JAN_2024_MS, 10).unwrap();
    assert_eq!(trips.len(), 3);
    assert_eq!(
        trips[0],
        Trip {
            tpep_pickup_datetime: Timestamp { secs: JAN_2024_S, nanos: 0 },
            tpep_dropoff_datetime: Timestamp { secs: JAN_2024_S + 7, nanos: 0 },
            trip_distance_bits: 0.5f64.to_bits(),
            fare_amount_bits: (-2.5f64).to_bits(),
        }
    );
    assert_eq!(
        trips[1],
        Trip {
            tpep_pickup_datetime: Timestamp { secs: JAN_2024_S + 1, nanos: 0 },
            tpep_dropoff_datetime: Timestamp { secs: JAN_2024_S + 2, nanos: 0 },
            trip_distance_bits: 1.5f64.to_bits(),
            fare_amount_bits: 10.0f64.to_bits(),
        }
    );
    assert_eq!(
        trips[2],
        Trip {
            tpep_pickup_datetime: Timestamp { secs: JAN_2024_S + 3, nanos: 0 },
            tpep_dropoff_datetime: Timestamp { secs: JAN_2024_S + 9, nanos: 0 },
            trip_distance_bits: 3.5f64.to_bits(),
            fare_amount_bits: 30.0f64.to_bits(),
        }
    );
}

#[test]
fn scan_keeps_the_earliest_rows_up_to_the_count() {
    let path = "/tmp/taxi_trips_scan_limit.parquet";
    write_partition(path, polars::prelude::TimeUnit::Microseconds, &january_rows());
    let two = get_trips_from_file(path, JAN_2024_MS, 2).unwrap();
    assert_eq!(pickup_seconds(&two), vec![JAN_2024_S, JAN_2024_S + 1]);
    let one = get_trips_from_file(path, JAN_2024_MS, 1).unwrap();
    assert_eq!(pickup_seconds(&one), vec![JAN_2024_S]);
    let three = get_trips_from_file(path, JAN_2024_MS, 3).unwrap();
    assert_eq!(three.len(), 3);
    let all = get_trips_from_file(path, JAN_2024_MS - 86_400_000, i64::MAX).unwrap();
    assert_eq!(
        pickup_seconds(&all),
        vec![JAN_2024_S - 86_400, JAN_2024_S - 1, JAN_2024_S, JAN_2024_S + 1, JAN_2024_S + 3]
    );
    assert_eq!(all[1].tpep_pickup_datetime.nanos, 999_999_000);
}

#[test]
fn scan_for_no_rows_is_empty() {
    let path = "/tmp/taxi_trips_scan_none.parquet";
    write_partition(path, polars::prelude::TimeUnit::Microseconds, &january_rows());
    assert_eq!(get_trips_from_file(path, JAN_2024_MS, 0).unwrap(), Vec::new());
    assert_eq!(get_trips_from_file(path, i64::MIN, 0).unwrap(), Vec::new());
}

#[test]
fn scan_past_the_last_row_is_empty() {
    let path = "/tmp/taxi_trips_scan_past.parquet";
    write_partition(path, polars::prelude::TimeUnit::Microseconds, &january_rows());
    assert_eq!(get_trips_from_file(path, JAN_2024_MS + 3_001, 10).unwrap(), Vec::new());
    assert_eq!(get_trips_from_file(path, JAN_2024_MS + 3_000, 10).unwrap().len(), 1);
    assert_eq!(get_trips_from_file(path, i64::MAX, 10).unwrap(), Vec::new());
}

#[test]
fn scan_from_before_every_row_returns_them_all() {
    let path = "/tmp/taxi_trips_scan_all.parquet";
    write_partition(path, polars::prelude::TimeUnit::Nanoseconds, &[(-5, 5, 1.0, 1.0), (7, 8, 2.0, 2.0)]);
    let trips = get_trips_from_file(path, i64::MIN, 10).unwrap();
    assert_eq!(trips.len(), 2);
    assert_eq!(trips[0].tpep_pickup_datetime, Timestamp { secs: -1, nanos: 999_999_995 });
    assert_eq!(trips[1].tpep_pickup_datetime, Timestamp { secs: 0, nanos: 7 });
}

#[test]
fn scan_compares_in_the_unit_of_the_column() {
    let base = JAN_2024_MS * 1_000_000;
    let path = "/tmp/taxi_trips_scan_nanos.parquet";
    write_partition(
        path,
        polars::prelude::TimeUnit::Nanoseconds,
        &[(base - 1, base, 1.0, 1.0), (base + 5, base + 6, 2.0, 2.0)],
    );
    let trips = get_trips_from_file(path, JAN_2024_MS, 10).unwrap();
    assert_eq!(trips.len(), 1);
    assert_eq!(trips[0].tpep_pickup_datetime, Timestamp { secs: JAN_2024_S, nanos: 5 });
    assert_eq!(trips[0].tpep_dropoff_datetime, Timestamp { secs: JAN_2024_S, nanos: 6 });

    let path = "/tmp/taxi_trips_scan_millis.parquet";
    write_partition(
        path,
        polars::prelude::TimeUnit::Milliseconds,
        &[(JAN_2024_MS + 5, JAN_2024_MS + 6, 2.0, 2.0), (JAN_2024_MS - 1, JAN_2024_MS, 1.0, 1.0)],
    );
    let trips = get_trips_from_file(path, JAN_2024_MS, 10).unwrap();
    assert_eq!(trips.len(), 1);
    assert_eq!(trips[0].tpep_pickup_datetime, Timestamp { secs: JAN_2024_S, nanos: 5_000_000 });
}

#[test]
fn scan_reads_each_column_in_its_own_unit() {
    let path = "/tmp/taxi_trips_scan_mixed.parquet";
    write_table(
        path,
        vec![
            instants(
                "tpep_pickup_datetime",
                polars::prelude::TimeUnit::Milliseconds,
                &[Some(JAN_2024_MS + 1)],
            ),
            instants(
                "tpep_dropoff_datetime",
                polars::prelude::TimeUnit::Nanoseconds,
                &[Some(JAN_2024_MS * 1_000_000 + 2)],
            ),
            amounts("trip_distance", &[Some(1.25)]),
            amounts("fare_amount", &[Some(12.5)]),
        ],
    );
    let trips = get_trips_from_file(path, JAN_2024_MS, 10).unwrap();
    assert_eq!(
        trips,
        vec![Trip {
            tpep_pickup_datetime: Timestamp { secs: JAN_2024_S, nanos: 1_000_000 },
            tpep_dropoff_datetime: Timestamp { secs: JAN_2024_S, nanos: 2 },
            trip_distance_bits: 1.25f64.to_bits(),
            fare_amount_bits: 12.5f64.to_bits(),
        }]
    );
}

#[test]
fn scan_orders_rows_of_one_instant_together() {
    let base = JAN_2024_MS * 1_000;
    let path = "/tmp/taxi_trips_scan_ties.parquet";
    write_partition(
        path,
        polars::prelude::TimeUnit::Microseconds,
        &[(base + 2, base + 3, 1.0, 1.0), (base, base + 1, 2.0, 2.0), (base + 2, base + 4, 3.0, 3.0)],
    );
    let trips = get_trips_from_file(path, JAN_2024_MS, 10).unwrap();
    assert_eq!(trips.len(), 3);
    assert_eq!(trips[0].tpep_pickup_datetime.nanos, 0);
    assert_eq!(trips[1].tpep_pickup_datetime.nanos, 2_000);
    assert_eq!(trips[2].tpep_pickup_datetime.nanos, 2_000);
}

#[test]
fn scan_passes_amounts_through_as_they_are() {
    let base = JAN_2024_MS * 1_000;
    let path = "/tmp/taxi_trips_scan_amounts.parquet";
    write_partition(
        path,
        polars::prelude::TimeUnit::Microseconds,
        &[(base, base, -0.0, f64::NAN), (base + 1, base, f64::INFINITY, -1e300)],
    );
    let trips = get_trips_from_file(path, JAN_2024_MS, 10).unwrap();
    assert_eq!(trips[0].trip_distance_bits, (-0.0f64).to_bits());
    assert!(f64::from_bits(trips[0].fare_amount_bits).is_nan());
    assert_eq!(f64::from_bits(trips[1].trip_distance_bits), f64::INFINITY);
    assert_eq!(f64::from_bits(trips[1].fare_amount_bits), -1e300);
}

#[test]
fn scan_rejects_negative_count() {
    let path = "/tmp/taxi_trips_scan_negative.parquet";
    write_partition(path, polars::prelude::TimeUnit::Microseconds, &january_rows());
    assert!(matches!(
        get_trips_from_file(path, 0, -1),
        Err(TripError::Validation { n_results: -1 })
    ));
    assert!(matches!(
        get_trips_from_file("/tmp/taxi_trips_no_such_file.parquet", 0, i64::MIN),
        Err(TripError::Validation { n_results: i64::MIN })
    ));
}

#[test]
fn scan_of_missing_file_fails() {
    let outcome = get_trips_from_file("/tmp/taxi_trips_no_such_file.parquet", 0, 5);
    assert!(matches!(outcome, Err(TripError::Scan { .. })));
}

#[test]
fn scan_of_corrupt_file_fails() {
    let path = "/tmp/taxi_trips_scan_corrupt.parquet";
    write_bytes(path, b"this is no columnar file at all, whatever its name says".to_vec());
    assert!(matches!(get_trips_from_file(path, 0, 5), Err(TripError::Scan { .. })));
    let path = "/tmp/taxi_trips_scan_empty.parquet";
    write_bytes(path, Vec::new());
    assert!(matches!(get_trips_from_file(path, 0, 5), Err(TripError::Scan { .. })));
}

#[test]
fn scan_without_the_fare_column_is_a_schema_error() {
    let path = "/tmp/taxi_trips_scan_no_fare.parquet";
    let mut columns = trip_columns(
        polars::prelude::TimeUnit::Microseconds,
        &[(Some(JAN_2024_MS * 1_000), Some(JAN_2024_MS * 1_000), Some(1.0), Some(2.0))],
    );
    columns.retain(|column| column.name().as_str() != "fare_amount");
    write_table(path, columns);
    assert!(matches!(
        get_trips_from_file(path, JAN_2024_MS, 10),
        Err(TripError::Schema { column }) if column == "fare_amount"
    ));
}

#[test]
fn scan_without_an_instant_column_is_a_schema_error() {
    let row = [(Some(JAN_2024_MS * 1_000), Some(JAN_2024_MS * 1_000), Some(1.0), Some(2.0))];
    for missing in ["tpep_pickup_datetime", "tpep_dropoff_datetime", "trip_distance"] {
        let path = format!("/tmp/taxi_trips_scan_no_{}.parquet", missing);
        let mut columns = trip_columns(polars::prelude::TimeUnit::Microseconds, &row);
        columns.retain(|column| column.name().as_str() != missing);
        write_table(&path, columns);
        assert!(matches!(
            get_trips_from_file(&path, JAN_2024_MS, 10),
            Err(TripError::Schema { column }) if column == missing
        ));
    }
}

#[test]
fn scan_of_columns_of_other_types_is_a_schema_error() {
    let base = JAN_2024_MS * 1_000;
    let path = "/tmp/taxi_trips_scan_int_distance.parquet";
    write_table(
        path,
        vec![
            instants("tpep_pickup_datetime", polars::prelude::TimeUnit::Microseconds, &[Some(base)]),
            instants("tpep_dropoff_datetime", polars::prelude::TimeUnit::Microseconds, &[Some(base)]),
            integers("trip_distance", &[3]),
            amounts("fare_amount", &[Some(2.0)]),
        ],
    );
    assert!(matches!(
        get_trips_from_file(path, JAN_2024_MS, 10),
        Err(TripError::Schema { column }) if column == "trip_distance"
    ));
    let path = "/tmp/taxi_trips_scan_int_pickup.parquet";
    write_table(
        path,
        vec![
            integers("tpep_pickup_datetime", &[base]),
            instants("tpep_dropoff_datetime", polars::prelude::TimeUnit::Microseconds, &[Some(base)]),
            amounts("trip_distance", &[Some(3.0)]),
            integers("fare_amount", &[2]),
        ],
    );
    assert!(matches!(
        get_trips_from_file(path, JAN_2024_MS, 10),
        Err(TripError::Schema { column }) if column == "tpep_pickup_datetime"
    ));
    let path = "/tmp/taxi_trips_scan_real_dropoff.parquet";
    write_table(
        path,
        vec![
            instants("tpep_pickup_datetime", polars::prelude::TimeUnit::Microseconds, &[Some(base)]),
            amounts("tpep_dropoff_datetime", &[Some(1.0)]),
            amounts("trip_distance", &[Some(3.0)]),
            amounts("fare_amount", &[Some(2.0)]),
        ],
    );
    assert!(matches!(
        get_trips_from_file(path, JAN_2024_MS, 10),
        Err(TripError::Schema { column }) if column == "tpep_dropoff_datetime"
    ));
}

#[test]
fn scan_leaves_out_rows_without_a_pickup() {
    let base = JAN_2024_MS * 1_000;
    let path = "/tmp/taxi_trips_scan_null_pickup.parquet";
    write_table(
        path,
        trip_columns(
            polars::prelude::TimeUnit::Microseconds,
            &[
                (None, Some(base), Some(1.0), Some(1.0)),
                (Some(base + 1), Some(base + 2), Some(2.0), Some(2.0)),
            ],
        ),
    );
    let trips = get_trips_from_file(path, JAN_2024_MS, 10).unwrap();
    assert_eq!(trips.len(), 1);
    assert_eq!(f64::from_bits(trips[0].trip_distance_bits), 2.0);
}

#[test]
fn scan_of_rows_with_empty_cells_fails() {
    let base = JAN_2024_MS * 1_000;
    let rows = [
        (Some(base), None, Some(1.0), Some(1.0)),
        (Some(base), Some(base), None, Some(1.0)),
        (Some(base), Some(base), Some(1.0), None),
    ];
    for (i, row) in rows.iter().enumerate() {
        let path = format!("/tmp/taxi_trips_scan_null_{}.parquet", i);
        write_table(&path, trip_columns(polars::prelude::TimeUnit::Microseconds, &[*row]));
        assert!(matches!(
            get_trips_from_file(&path, JAN_2024_MS, 10),
            Err(TripError::Scan { .. })
        ));
        assert_eq!(get_trips_from_file(&path, JAN_2024_MS + 1, 10).unwrap(), Vec::new());
    }
}

#[test]
fn query_is_answered_from_the_local_file() {
    let store = PartitionStore {
        base_url: String::from("http://localhost:9/"),
        cache_dir: String::from("/tmp/taxi_trips_answer_"),
    };
    let mut query = Query::begin(&store, JAN_2024_MS, 10, 1).unwrap();
    assert!(answer(&query).is_none());
    assert_eq!(query.download.path, "/tmp/taxi_trips_answer_yellow_tripdata_2024-01.parquet");
    write_partition(
        &query.download.path,
        polars::prelude::TimeUnit::Microseconds,
        &january_rows(),
    );
    query.download.step(Event::Probed { size: Some(1) });
    assert_eq!(query.download.phase, Phase::Local);
    let trips = answer(&query).unwrap().unwrap();
    assert_eq!(pickup_seconds(&trips), vec![JAN_2024_S, JAN_2024_S + 1, JAN_2024_S + 3]);
}

#[test]
fn query_with_a_failed_download_has_its_error() {
    let store = PartitionStore {
        base_url: String::from("http://localhost:9/"),
        cache_dir: String::from("/tmp/taxi_trips_failed_"),
    };
    let mut query = Query::begin(&store, JAN_2024_MS, 10, 1).unwrap();
    query.download.step(Event::Probed { size: None });
    assert!(answer(&query).is_none());
    query.download.step(Event::Responded { status: 503 });
    match answer(&query) {
        Some(Err(TripError::Fetch { url, status })) => {
            assert_eq!(url, "http://localhost:9/yellow_tripdata_2024-01.parquet");
            assert_eq!(status, Some(503));
        }
        other => panic!("unexpected answer: {:?}", other),
    }
}
