//! What the renderer learns of application updates and their download.
use vstd::prelude::*;
use crate::text::str_eq;

verus! {

/// The state of the update check as the renderer sees it.
#[derive(Clone, Debug)]
pub struct UpdateSnapshot {
    pub available: bool,
    pub current_version: String,
    pub version: Option<String>,
    pub notes: Option<String>,
}

/// The progress of a download, as the renderer sees it.
#[derive(Clone, Copy, Debug, PartialEq, Eq, Structural)]
pub struct UpdateProgress {
    pub downloaded_bytes: u64,
    pub total_bytes: Option<u64>,
    pub percent: Option<u64>,
}

/// No update: the running version only.
pub fn no_update(current_version: String) -> (r: UpdateSnapshot)
    ensures
        !r.available,
        r.current_version == current_version,
        r.version is None,
        r.notes is None,
{
    UpdateSnapshot { available: false, current_version, version: None, notes: None }
}

/// A signed update that is ready to download.
pub fn available_update(current_version: String, version: String, notes: Option<String>) -> (r:
    UpdateSnapshot)
    ensures
        r.available,
        r.current_version == current_version,
        r.version == Some(version),
        r.notes == notes,
{
    UpdateSnapshot { available: true, current_version, version: Some(version), notes }
}

/// The percentage of `downloaded` bytes out of a known, non-zero total,
/// at most 100.
pub open spec fn percent_of(downloaded: u64, total: Option<u64>) -> Option<u64> {
    match total {
        Some(t) if t > 0 => {
            let scaled = if downloaded * 100 > u64::MAX {
                u64::MAX as int
            } else {
                downloaded * 100
            };
            let p = scaled / (t as int);
            Some(if p > 100 {
                100
            } else {
                p as u64
            })
        },
        _ => None,
    }
}

/// The progress after a chunk of `chunk` bytes, `previous` bytes having
/// arrived before; the count saturates.
pub fn progress_after_chunk(previous: u64, chunk: u64, total_bytes: Option<u64>) -> (r: UpdateProgress)
    ensures
        r.downloaded_bytes == (if previous + chunk > u64::MAX {
            u64::MAX as int
        } else {
            previous + chunk
        }),
        r.total_bytes == total_bytes,
        r.percent == percent_of(r.downloaded_bytes, total_bytes),
        r.percent matches Some(p) ==> p <= 100,
{
    let downloaded_bytes = previous.saturating_add(chunk);
    let percent = match total_bytes {
        Some(total) => {
            if total > 0 {
                let scaled: u64 = if downloaded_bytes > u64::MAX / 100 {
                    u64::MAX
                } else {
                    downloaded_bytes * 100
                };
                proof {
                    assert((downloaded_bytes > u64::MAX / 100) == (downloaded_bytes * 100
                        > u64::MAX)) by (nonlinear_arith);
                }
                let p = scaled / total;
                Some(if p > 100 {
                    100
                } else {
                    p
                })
            } else {
                None
            }
        },
        None => None,
    };
    UpdateProgress { downloaded_bytes, total_bytes, percent }
}

/// The progress reported once the download has finished.
pub fn progress_finished(downloaded_bytes: u64) -> (r: UpdateProgress)
    ensures
        r == (UpdateProgress { downloaded_bytes, total_bytes: None, percent: Some(100) }),
{
    UpdateProgress { downloaded_bytes, total_bytes: None, percent: Some(100) }
}

/// A release build checks for updates; a debug build only where the
/// `ORCESTR_ENABLE_DEBUG_UPDATER` variable is set.
pub fn updater_enabled(debug_build: bool, debug_override_set: bool) -> (r: bool)
    ensures
        r == (!debug_build || debug_override_set),
{
    !debug_build || debug_override_set
}

/// Update commands answer the main window only.
pub fn ensure_main_window(label: &str) -> (r: Result<(), String>)
    ensures
        r is Ok == (label@ == "main"@),
        r matches Err(e) ==> e@ == "This command is not available to the current window"@,
{
    if str_eq(label, "main") {
        Ok(())
    } else {
        Err("This command is not available to the current window".to_owned())
    }
}

} // verus!
