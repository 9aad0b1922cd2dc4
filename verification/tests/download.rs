use parquet_ingest::fetch::{DownloadProgress, ProgressMode};

#[test]
fn known_size_gives_a_bar() {
    let progress = DownloadProgress::begin(Some(2048));
    assert_eq!(progress.mode, ProgressMode::Bar(2048));
    assert_eq!(progress.downloaded, 0);
}

#[test]
fn unknown_or_zero_size_gives_a_spinner() {
    assert_eq!(DownloadProgress::begin(None).mode, ProgressMode::Spinner);
    assert_eq!(DownloadProgress::begin(Some(0)).mode, ProgressMode::Spinner);
}

#[test]
fn negative_size_is_read_as_unsigned() {
    assert_eq!(DownloadProgress::begin(Some(-1)).mode, ProgressMode::Bar(u64::MAX));
    assert_eq!(DownloadProgress::begin(Some(i64::MIN)).mode, ProgressMode::Bar(1u64 << 63));
    assert_eq!(DownloadProgress::begin(Some(-2)).mode, ProgressMode::Bar((-2i64) as u64));
}

#[test]
fn chunks_add_up() {
    let mut progress = DownloadProgress::begin(Some(10));
    assert_eq!(progress.record_chunk(4), 4);
    assert_eq!(progress.record_chunk(0), 4);
    assert_eq!(progress.record_chunk(6), 10);
    assert_eq!(progress.downloaded, 10);
    assert_eq!(progress.mode, ProgressMode::Bar(10));
}
