use tkg_gui::freshness::{
    check_update, marker_changed, FreshnessMarkers, PatchMeta, PatchRegistry, UpdateCheckResult,
    UpdateStatus,
};

fn meta(series: &str, file: &str, url: Option<&str>, etag: Option<&str>, lm: Option<&str>) -> PatchMeta {
    PatchMeta {
        filename: file.to_string(),
        kernel_series: series.to_string(),
        source_url: url.map(|s| s.to_string()),
        catalog_id: None,
        sha256: String::new(),
        downloaded_at: 1_700_000_000,
        etag: etag.map(|s| s.to_string()),
        last_modified: lm.map(|s| s.to_string()),
        update_status: UpdateStatus::UpToDate,
    }
}

fn markers(etag: Option<&str>, lm: Option<&str>) -> FreshnessMarkers {
    FreshnessMarkers { etag: etag.map(|s| s.to_string()), last_modified: lm.map(|s| s.to_string()) }
}

#[test]
fn unchanged_markers_are_up_to_date_every_time() {
    let m = meta("6.13", "a.patch", Some("https://x/a"), Some("\"e1\""), Some("Mon, 01 Jan 2024"));
    for _ in 0..2 {
        let r = check_update(&m, Ok(markers(Some("\"e1\""), Some("Mon, 01 Jan 2024"))));
        assert!(matches!(r, UpdateCheckResult::UpToDate { key } if key == "6.13/a.patch"));
    }
}

#[test]
fn a_changed_marker_is_stale() {
    let m = meta("6.13", "a.patch", Some("https://x/a"), Some("\"e1\""), Some("Mon"));
    let r = check_update(&m, Ok(markers(Some("\"e2\""), Some("Mon"))));
    assert!(matches!(r, UpdateCheckResult::Stale { .. }));
    let r = check_update(&m, Ok(markers(Some("\"e1\""), Some("Tue"))));
    assert!(matches!(r, UpdateCheckResult::Stale { .. }));
    let fresh = meta("6.13", "b.patch", Some("https://x/b"), None, None);
    assert!(matches!(check_update(&fresh, Ok(markers(Some("\"new\""), None))), UpdateCheckResult::Stale { .. }));
    assert!(matches!(check_update(&fresh, Ok(markers(None, None))), UpdateCheckResult::UpToDate { .. }));
}

#[test]
fn a_marker_that_disappears_is_no_change() {
    assert!(!marker_changed(&Some("a".to_string()), &None));
    assert!(marker_changed(&None, &Some("a".to_string())));
    assert!(!marker_changed(&None, &None));
}

#[test]
fn batch_of_three_gives_no_url_up_to_date_and_error() {
    let no_url = meta("6.12", "n.patch", None, None, None);
    let same = meta("6.12", "s.patch", Some("https://x/s"), Some("\"t\""), None);
    let broken = meta("6.12", "b.patch", Some("https://x/b"), None, None);
    let results = vec![
        check_update(&broken, Err("dns error".to_string())),
        check_update(&no_url, Err(String::new())),
        check_update(&same, Ok(markers(Some("\"t\""), None))),
    ];
    assert_eq!(results.len(), 3);
    assert!(results.iter().any(|r| matches!(r, UpdateCheckResult::NoUrl { key } if key == "6.12/n.patch")));
    assert!(results.iter().any(|r| matches!(r, UpdateCheckResult::UpToDate { key } if key == "6.12/s.patch")));
    assert!(results.iter().any(|r| matches!(r, UpdateCheckResult::Error { key, reason } if key == "6.12/b.patch" && reason == "dns error")));
}

#[test]
fn registry_keeps_one_record_per_key() {
    let mut reg = PatchRegistry::new();
    reg.record_download(meta("6.13", "a.patch", Some("u1"), None, None));
    reg.record_download(meta("6.12", "a.patch", Some("u2"), None, None));
    reg.record_download(meta("6.13", "a.patch", Some("u3"), None, None));
    assert_eq!(reg.patches.len(), 2);
    assert_eq!(reg.get("6.13", "a.patch").unwrap().source_url.as_deref(), Some("u3"));
    assert_eq!(reg.all_for_series("6.13").len(), 1);
    assert_eq!(reg.patches[0].key(), "6.13/a.patch");
    reg.remove("6.13", "a.patch");
    assert!(reg.get("6.13", "a.patch").is_none());
    assert_eq!(reg.patches.len(), 1);
}

#[test]
fn probe_results_update_the_status() {
    let mut reg = PatchRegistry::new();
    reg.record_download(meta("6.13", "a.patch", Some("u"), None, None));
    reg.apply_check_result(UpdateCheckResult::Stale { key: "6.13/a.patch".to_string() });
    assert!(matches!(reg.get("6.13", "a.patch").unwrap().update_status, UpdateStatus::Stale));
    reg.apply_check_result(UpdateCheckResult::Error { key: "6.13/a.patch".to_string(), reason: "x".to_string() });
    assert!(matches!(&reg.get("6.13", "a.patch").unwrap().update_status, UpdateStatus::CheckError(r) if r == "x"));
    reg.apply_check_result(UpdateCheckResult::NoUrl { key: "6.13/a.patch".to_string() });
    assert!(matches!(reg.get("6.13", "a.patch").unwrap().update_status, UpdateStatus::Unknown));
    reg.update_status("6.13", "a.patch", UpdateStatus::UpToDate);
    assert!(matches!(reg.get("6.13", "a.patch").unwrap().update_status, UpdateStatus::UpToDate));
    // A key without a slash matches nothing.
    reg.apply_check_result(UpdateCheckResult::Stale { key: "nokey".to_string() });
    assert!(matches!(reg.get("6.13", "a.patch").unwrap().update_status, UpdateStatus::UpToDate));
}
