//! The constant command payloads: application metadata and storage figures.

use crawler_host::info::{clear_storage, get_app_info, get_storage_info, STORAGE_CAPACITY_BYTES};
use crawler_host::store::{download_file, DownloadStore};

#[test]
fn app_info_reports_the_package_constants() {
    let info = get_app_info().expect("get_app_info never fails");
    assert_eq!(info.name, "crawler_host");
    assert_eq!(info.version, "0.1.0");
    assert_eq!(info.description, "");
    assert_eq!(info.authors, "");
    assert_eq!(info.homepage, "");
}

#[test]
fn storage_info_reports_the_fixed_placeholder_figures() {
    let s = get_storage_info();
    assert_eq!(s.used, 0);
    assert_eq!(s.available, 104857600);
    assert_eq!(s.total, 104857600);
    assert_eq!(s.available, STORAGE_CAPACITY_BYTES);
    assert!(!s.quota_exceeded);
}

#[test]
fn storage_info_is_unchanged_by_other_commands() {
    let before = get_storage_info();
    let mut store = DownloadStore::new();
    let _ = download_file(
        &mut store,
        String::from("https://example.com/big.bin"),
        String::from("big.bin"),
    );
    assert_eq!(clear_storage(), Ok(()));
    let after = get_storage_info();
    assert_eq!(after.used, before.used);
    assert_eq!(after.available, before.available);
    assert_eq!(after.total, before.total);
    assert_eq!(after.quota_exceeded, before.quota_exceeded);
}

#[test]
fn clear_storage_always_succeeds() {
    assert_eq!(clear_storage(), Ok(()));
    assert_eq!(clear_storage(), Ok(()));
}
