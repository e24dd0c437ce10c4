//! Static command payloads: application metadata, the placeholder storage
//! snapshot, and the placeholder storage-clear operation.

use vstd::prelude::*;

verus! {

/// Compiled-in identity of the application. The fields mirror the package
/// metadata of this crate; the optional fields (description, authors,
/// homepage) are not set in the package manifest, so they are empty.
pub struct AppInfo {
    pub name: String,
    pub version: String,
    pub description: String,
    pub authors: String,
    pub homepage: String,
}

/// Storage figures reported to the frontend. These are fixed placeholder
/// values: no real filesystem measurement is performed anywhere in the host.
pub struct StorageInfo {
    pub used: u64,
    pub available: u64,
    pub total: u64,
    pub quota_exceeded: bool,
}

/// The placeholder capacity reported by `get_storage_info`: 100 MiB.
pub const STORAGE_CAPACITY_BYTES: u64 = 104857600;

/// Returns the application's compiled-in metadata. Infallible and free of
/// side effects.
pub fn get_app_info() -> (r: Result<AppInfo, String>)
    ensures
        r matches Ok(info) && info.name@ == "crawler_host"@ && info.version@ == "0.1.0"@
            && info.description@ == ""@ && info.authors@ == ""@ && info.homepage@ == ""@,
{
    Ok(AppInfo {
        name: String::from_str("crawler_host"),
        version: String::from_str("0.1.0"),
        description: String::from_str(""),
        authors: String::from_str(""),
        homepage: String::from_str(""),
    })
}

/// Returns the constant storage snapshot: nothing used, 100 MiB available
/// and total, quota never exceeded. The figures never change, whatever
/// other commands ran before.
pub fn get_storage_info() -> (r: StorageInfo)
    ensures
        r.used == 0,
        r.available == STORAGE_CAPACITY_BYTES,
        r.total == STORAGE_CAPACITY_BYTES,
        r.quota_exceeded == false,
{
    StorageInfo { used: 0, available: STORAGE_CAPACITY_BYTES, total: STORAGE_CAPACITY_BYTES, quota_exceeded: false }
}

/// Clears stored data. A placeholder: it mutates nothing and always
/// succeeds; the host only emits a diagnostic log line when this command
/// is invoked.
pub fn clear_storage() -> (r: Result<(), String>)
    ensures
        r matches Ok(u) && u == (),
{
    Ok(())
}

} // verus!
