//! The download registry, the queue command, and the identifier format.

use crawler_host::ident::{download_id_string, u64_dec_string};
use crawler_host::store::{download_file, queue_download, DownloadStatus, DownloadStore};

#[test]
fn decimal_rendering_matches_expected_digits() {
    assert_eq!(u64_dec_string(0), "0");
    assert_eq!(u64_dec_string(7), "7");
    assert_eq!(u64_dec_string(10), "10");
    assert_eq!(u64_dec_string(1234567890), "1234567890");
    assert_eq!(u64_dec_string(u64::MAX), "18446744073709551615");
}

#[test]
fn identifier_format_is_download_then_millis() {
    assert_eq!(download_id_string(1699999999999), "download_1699999999999");
    assert_eq!(download_id_string(0), "download_0");
}

#[test]
fn identifier_for_pre_epoch_clock_keeps_the_sign() {
    assert_eq!(download_id_string(-5), "download_-5");
    assert_eq!(download_id_string(i64::MIN), "download_-9223372036854775808");
}

#[test]
fn queued_request_is_recorded_as_pending() {
    let mut store = DownloadStore::new();
    let id = queue_download(
        &mut store,
        String::from("https://example.com/a"),
        String::from("a.bin"),
        1000,
    );
    assert_eq!(id, "download_1000");
    assert_eq!(store.len(), 1);
    let rec = store.get("download_1000").expect("record should be present");
    assert_eq!(rec.id, "download_1000");
    assert_eq!(rec.url, "https://example.com/a");
    assert_eq!(rec.filename, "a.bin");
    assert_eq!(rec.status, DownloadStatus::Pending);
    assert_eq!(rec.progress_millionths, 0);
}

#[test]
fn two_requests_at_distinct_readings_coexist() {
    let mut store = DownloadStore::new();
    let first = queue_download(
        &mut store,
        String::from("https://example.com/a"),
        String::from("a.bin"),
        1,
    );
    let second = queue_download(
        &mut store,
        String::from("https://example.com/a"),
        String::from("a2.bin"),
        2,
    );
    assert_ne!(first, second);
    assert_eq!(store.len(), 2);
    let r1 = store.get(&first).expect("first record should be present");
    assert_eq!(r1.filename, "a.bin");
    assert_eq!(r1.status, DownloadStatus::Pending);
    assert_eq!(r1.progress_millionths, 0);
    let r2 = store.get(&second).expect("second record should be present");
    assert_eq!(r2.filename, "a2.bin");
    assert_eq!(r2.status, DownloadStatus::Pending);
    assert_eq!(r2.progress_millionths, 0);
}

#[test]
fn requests_in_the_same_millisecond_share_an_identifier() {
    // No collision handling exists: the later request replaces the earlier.
    let mut store = DownloadStore::new();
    queue_download(&mut store, String::from("https://example.com/a"), String::from("a.bin"), 7);
    queue_download(&mut store, String::from("https://example.com/b"), String::from("b.bin"), 7);
    assert_eq!(store.len(), 1);
    let rec = store.get("download_7").expect("record should be present");
    assert_eq!(rec.filename, "b.bin");
}

#[test]
fn download_file_records_intent_and_returns_the_identifier() {
    let mut store = DownloadStore::new();
    let id = download_file(
        &mut store,
        String::from("https://example.com/file"),
        String::from("file.bin"),
    )
    .expect("a public https URL should be accepted");
    assert!(id.starts_with("download_"));
    assert_eq!(store.len(), 1);
    let rec = store.get(&id).expect("record should be present");
    assert_eq!(rec.url, "https://example.com/file");
    assert_eq!(rec.filename, "file.bin");
    assert_eq!(rec.status, DownloadStatus::Pending);
    assert_eq!(rec.progress_millionths, 0);
}

#[test]
fn download_file_propagates_the_guard_error_and_records_nothing() {
    let mut store = DownloadStore::new();
    let r = download_file(&mut store, String::from("http://localhost/x"), String::from("x"));
    assert_eq!(r, Err(String::from("Access to localhost and internal networks is not allowed")));
    assert_eq!(store.len(), 0);

    let r = download_file(&mut store, String::from("not a url"), String::from("x"));
    assert_eq!(r, Err(String::from("Invalid URL format")));
    assert_eq!(store.len(), 0);

    let r = download_file(&mut store, String::from("ftp://example.com/x"), String::from("x"));
    assert_eq!(r, Err(String::from("Only HTTP and HTTPS protocols are allowed")));
    assert_eq!(store.len(), 0);
}

#[test]
fn absent_identifier_is_not_found() {
    let store = DownloadStore::new();
    assert!(store.get("download_1").is_none());
    assert_eq!(store.len(), 0);
}
