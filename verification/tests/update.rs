use orcestr_real_translate::update::{
    available_update, ensure_main_window, no_update, progress_after_chunk, progress_finished,
    updater_enabled,
};

#[test]
fn no_update_snapshot_preserves_current_version() {
    let snapshot = no_update("0.4.2".to_string());
    assert!(!snapshot.available);
    assert_eq!(snapshot.current_version, "0.4.2");
    assert!(snapshot.version.is_none());
}

#[test]
fn progress_is_a_bounded_percentage() {
    let p = progress_after_chunk(40, 10, Some(200));
    assert_eq!(p.downloaded_bytes, 50);
    assert_eq!(p.percent, Some(25));
    assert_eq!(progress_after_chunk(300, 10, Some(200)).percent, Some(100));
    assert_eq!(progress_after_chunk(0, 10, Some(0)).percent, None);
    assert_eq!(progress_after_chunk(0, 10, None).percent, None);
    assert_eq!(progress_after_chunk(u64::MAX, 10, Some(u64::MAX)).downloaded_bytes, u64::MAX);
    assert_eq!(progress_after_chunk(u64::MAX, 10, Some(u64::MAX)).percent, Some(1));
    assert_eq!(progress_finished(7).percent, Some(100));
}

#[test]
fn updates_are_checked_in_release_builds() {
    assert!(updater_enabled(false, false));
    assert!(!updater_enabled(true, false));
    assert!(updater_enabled(true, true));
    let snapshot = available_update("0.4.2".to_string(), "0.5.0".to_string(), None);
    assert!(snapshot.available);
    assert_eq!(snapshot.version.as_deref(), Some("0.5.0"));
    assert!(ensure_main_window("main").is_ok());
    assert_eq!(
        ensure_main_window("other").unwrap_err(),
        "This command is not available to the current window"
    );
}
