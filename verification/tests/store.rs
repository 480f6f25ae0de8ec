use taxi_trips::download::download_parquet_file;
use taxi_trips::download::Action;
use taxi_trips::download::Download;
use taxi_trips::download::Event;
use taxi_trips::download::Failure;
use taxi_trips::download::Phase;
use taxi_trips::error::TripError;
use taxi_trips::store::PartitionStore;
use taxi_trips::text::append_decimal;
use taxi_trips::text::append_natural;
use taxi_trips::text::append_two_wide;
use taxi_trips::text::digit_text;

fn local_store() -> PartitionStore {
    PartitionStore {
        base_url: String::from("http://localhost:9000/data/"),
        cache_dir: String::from("/var/cache/trips/"),
    }
}

#[test]
fn digits_are_written_in_decimal() {
    assert_eq!(digit_text(0), "0");
    assert_eq!(digit_text(7), "7");
    assert_eq!(digit_text(9), "9");
    let mut out = String::from("n=");
    append_natural(&mut out, 0);
    out.push(',');
    append_natural(&mut out, 10);
    out.push(',');
    append_natural(&mut out, 18_446_744_073_709_551_615);
    assert_eq!(out, "n=0,10,18446744073709551615");
}

#[test]
fn integers_are_written_with_their_sign() {
    let mut out = String::new();
    append_decimal(&mut out, -1);
    out.push(' ');
    append_decimal(&mut out, 0);
    out.push(' ');
    append_decimal(&mut out, 2024);
    out.push(' ');
    append_decimal(&mut out, i64::MIN);
    out.push(' ');
    append_decimal(&mut out, i64::MAX);
    assert_eq!(out, "-1 0 2024 -9223372036854775808 9223372036854775807");
}

#[test]
fn months_are_two_wide() {
    let mut out = String::new();
    for month in [1, 9, 10, 12, 0, -3, -12, 123] {
        append_two_wide(&mut out, month);
        out.push(' ');
    }
    assert_eq!(out, "01 09 10 12 00 -3 -12 123 ");
}

#[test]
fn file_names_follow_the_scheme() {
    let store = PartitionStore::standard();
    assert_eq!(store.file_path(2024, 1), "yellow_tripdata_2024-01.parquet");
    assert_eq!(store.file_path(2023, 12), "yellow_tripdata_2023-12.parquet");
    assert_eq!(store.file_path(-5, 3), "yellow_tripdata_-5-03.parquet");
    assert_eq!(store.file_path(2024, 1), format!("yellow_tripdata_{}-{:02}.parquet", 2024, 1));
    assert_eq!(store.file_path(7, -3), format!("yellow_tripdata_{}-{:02}.parquet", 7, -3));
    assert_eq!(
        store.staging_path(2024, 1, 0),
        "yellow_tripdata_2024-01.parquet.0.part"
    );
    assert_eq!(
        store.staging_path(2024, 1, u32::MAX),
        "yellow_tripdata_2024-01.parquet.4294967295.part"
    );
}

#[test]
fn remote_addresses_follow_the_scheme() {
    let store = PartitionStore::standard();
    assert_eq!(
        store.remote_url(2024, 1),
        "https://d37ci6vzurychx.cloudfront.net/trip-data/yellow_tripdata_2024-01.parquet"
    );
    assert_eq!(
        store.remote_url(2019, 11),
        "https://d37ci6vzurychx.cloudfront.net/trip-data/yellow_tripdata_2019-11.parquet"
    );
}

#[test]
fn a_store_of_ones_own_names_under_its_directories() {
    let store = local_store();
    assert_eq!(
        store.file_path(2024, 2),
        "/var/cache/trips/yellow_tripdata_2024-02.parquet"
    );
    assert_eq!(
        store.remote_url(2024, 2),
        "http://localhost:9000/data/yellow_tripdata_2024-02.parquet"
    );
    let download = Download::begin(&store, 2024, 2, 77);
    assert_eq!(download.path, store.file_path(2024, 2));
    assert_eq!(download.staging, store.staging_path(2024, 2, 77));
    assert_eq!(download.staging, "/var/cache/trips/yellow_tripdata_2024-02.parquet.77.part");
    assert_eq!(download.url, store.remote_url(2024, 2));
    assert_eq!(download.phase, Phase::Probing);
}

#[test]
fn file_names_of_different_partitions_differ() {
    let store = PartitionStore::standard();
    let mut names: Vec<String> = Vec::new();
    for year in [-11, -1, 0, 1, 11, 111, 2023, 2024] {
        for month in 1..=12 {
            names.push(store.file_path(year, month));
        }
    }
    for i in 0..names.len() {
        for j in 0..i {
            assert_ne!(names[i], names[j]);
        }
    }
}

#[test]
fn absent_file_is_fetched_then_reused() {
    let mut first = download_parquet_file(2024, 1);
    assert_eq!(first.path, "yellow_tripdata_2024-01.parquet");
    assert_eq!(first.action(), Action::Probe);
    assert!(!first.has_ended());
    assert!(first.outcome().is_none());
    first.step(Event::Probed { size: None });
    assert_eq!(first.action(), Action::Fetch);
    first.step(Event::Responded { status: 200 });
    assert_eq!(first.action(), Action::Store);
    first.step(Event::Stored);
    assert_eq!(first.action(), Action::Finish);
    assert!(first.has_ended());
    let first_path = first.outcome().unwrap().unwrap();
    assert_eq!(first_path, "yellow_tripdata_2024-01.parquet");

    let mut second = download_parquet_file(2024, 1);
    assert_eq!(second.action(), Action::Probe);
    second.step(Event::Probed { size: Some(48_000_000) });
    assert_eq!(second.action(), Action::Finish);
    assert_eq!(second.outcome().unwrap().unwrap(), first_path);
}

#[test]
fn attempts_at_one_file_write_apart_and_name_alike() {
    let first = download_parquet_file(2024, 1);
    assert!(first.staging.starts_with("yellow_tripdata_2024-01.parquet."));
    assert!(first.staging.ends_with(".part"));
    let tag = &first.staging["yellow_tripdata_2024-01.parquet.".len()..first.staging.len() - 5];
    assert!(tag.parse::<u32>().is_ok());
    let mut differs = false;
    for _ in 0..20 {
        let next = download_parquet_file(2024, 1);
        assert_eq!(next.path, first.path);
        assert_eq!(next.url, first.url);
        assert_ne!(next.staging, next.path);
        differs = differs || next.staging != first.staging;
    }
    assert!(differs);
    let store = PartitionStore::standard();
    assert_ne!(
        Download::begin(&store, 2024, 1, 1).staging,
        Download::begin(&store, 2024, 1, 2).staging
    );
}

#[test]
fn empty_file_is_fetched_again() {
    let mut download = download_parquet_file(2024, 1);
    download.step(Event::Probed { size: Some(0) });
    assert_eq!(download.phase, Phase::Fetching);
    assert_eq!(download.action(), Action::Fetch);
}

#[test]
fn every_success_status_is_stored() {
    for status in [200u16, 204, 299] {
        let mut download = download_parquet_file(2024, 1);
        download.step(Event::Probed { size: None });
        download.step(Event::Responded { status });
        assert_eq!(download.phase, Phase::Storing);
    }
}

#[test]
fn refused_fetch_fails_with_the_status() {
    for status in [199u16, 300, 403, 404, 500] {
        let mut download = download_parquet_file(2031, 7);
        download.step(Event::Probed { size: None });
        download.step(Event::Responded { status });
        assert_eq!(download.phase, Phase::Failed(Failure::Fetch(Some(status))));
        assert_eq!(download.action(), Action::Fail);
        match download.outcome() {
            Some(Err(TripError::Fetch { url, status: Some(answer) })) => {
                assert_eq!(
                    url,
                    "https://d37ci6vzurychx.cloudfront.net/trip-data/yellow_tripdata_2031-07.parquet"
                );
                assert_eq!(answer, status);
            }
            other => panic!("unexpected outcome: {:?}", other),
        }
    }
}

#[test]
fn unanswered_fetch_fails_without_a_status() {
    let mut download = download_parquet_file(2024, 1);
    download.step(Event::Probed { size: None });
    download.step(Event::Unanswered);
    assert_eq!(download.phase, Phase::Failed(Failure::Fetch(None)));
    assert!(matches!(
        download.outcome(),
        Some(Err(TripError::Fetch { status: None, .. }))
    ));
}

#[test]
fn local_failures_are_io_errors() {
    let mut unreadable = download_parquet_file(2024, 1);
    unreadable.step(Event::ProbeFailed);
    assert_eq!(unreadable.phase, Phase::Failed(Failure::Probe));
    assert!(matches!(
        unreadable.outcome(),
        Some(Err(TripError::Io { path })) if path == "yellow_tripdata_2024-01.parquet"
    ));

    let mut unwritable = download_parquet_file(2024, 1);
    unwritable.step(Event::Probed { size: None });
    unwritable.step(Event::Responded { status: 200 });
    unwritable.step(Event::StoreFailed);
    assert_eq!(unwritable.phase, Phase::Failed(Failure::Store));
    assert!(matches!(unwritable.outcome(), Some(Err(TripError::Io { .. }))));
}

#[test]
fn events_that_answer_nothing_change_nothing() {
    let mut download = download_parquet_file(2024, 1);
    download.step(Event::Stored);
    assert_eq!(download.phase, Phase::Probing);
    download.step(Event::Responded { status: 200 });
    assert_eq!(download.phase, Phase::Probing);
    download.step(Event::Probed { size: None });
    download.step(Event::Probed { size: Some(5) });
    assert_eq!(download.phase, Phase::Fetching);
    download.step(Event::Responded { status: 200 });
    download.step(Event::Stored);
    assert_eq!(download.phase, Phase::Local);
    download.step(Event::StoreFailed);
    download.step(Event::Unanswered);
    assert_eq!(download.phase, Phase::Local);
}
