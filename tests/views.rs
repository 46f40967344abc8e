use tkg_gui::config::ConfigManager;
use tkg_gui::download::DownloadProgress;
use tkg_gui::kernel::DownloadResult;
use tkg_gui::layout::AppSettings;
use tkg_gui::tabs::{
    availability, clone_args, download_outcome, parent_creation_error, spawn_error, step_error,
    ConfigTab, DownloadStep, KernelTab, SettingsTab,
};

#[test]
fn version_option_gets_a_v_prefix() {
    let mut t = ConfigTab::new();
    assert_eq!(t.get_version(), None);
    t.set_version("6.13.1");
    assert_eq!(t.get_version().as_deref(), Some("v6.13.1"));
    assert!(t.dirty);
    t.set_version("v6.14");
    assert_eq!(t.get_version().as_deref(), Some("v6.14"));
    assert_eq!(t.values.len(), 1);
}

#[test]
fn config_view_loads_and_saves() {
    let mut t = ConfigTab::new();
    t.load_config("/c/customization.cfg", Err("No such file".to_string()));
    assert_eq!(t.status, "Error loading config: No such file");
    assert!(!t.loaded);
    let m = ConfigManager::load("/c/customization.cfg", Ok("_version=\"v6.1\"\n_distro=Arch\n".to_string())).unwrap();
    t.load_config("/c/customization.cfg", Ok(m));
    assert!(t.loaded && !t.dirty);
    assert_eq!(t.status, "Config loaded");
    assert_eq!(t.config_path.as_deref(), Some("/c/customization.cfg"));
    t.set_version("6.2");
    let fresh = ConfigManager::load("/c/customization.cfg", Ok("# c\n_version=\"v6.1\"\n_distro=Arch\n".to_string())).unwrap();
    let (path, content) = t.save_config(Ok(fresh)).unwrap();
    assert_eq!(path, "/c/customization.cfg");
    assert_eq!(content, "# c\n_version=\"v6.2\"\n_distro=\"Arch\"\n");
    t.saved(Ok(()));
    assert!(!t.dirty);
    assert_eq!(t.status, "Config saved");
    t.saved(Err("read-only".to_string()));
    assert_eq!(t.status, "Error saving: read-only");
    assert!(t.save_config(Err("gone".to_string())).is_none());
    assert_eq!(t.status, "Error: gone");
}

#[test]
fn kernel_selection_and_series() {
    let none = KernelTab { selected: None };
    assert_eq!(none.get_kernel_series(), None);
    let k = KernelTab { selected: Some("v6.13.1".to_string()) };
    assert_eq!(k.get_selected_version().as_deref(), Some("v6.13.1"));
    assert_eq!(k.get_kernel_series().as_deref(), Some("6.13"));
}

#[test]
fn settings_view_shows_the_path() {
    let mut s = SettingsTab { path_input: String::new() };
    s.sync_from_settings(&AppSettings::defaults("/home/u"));
    assert_eq!(s.path_input, "/home/u/.local/share/tkg-gui/linux-tkg");
}

#[test]
fn availability_reads_status_and_size() {
    assert_eq!(availability(200, Some("146000000")), (true, Some(146000000)));
    assert_eq!(availability(404, None), (false, None));
    assert_eq!(availability(200, Some("abc")), (true, None));
}

#[test]
fn download_errors_and_outcomes() {
    assert_eq!(step_error(DownloadStep::Request, "timeout"), "Failed to download: timeout");
    assert_eq!(step_error(DownloadStep::CreateDir, "denied"), "Failed to create destination directory: denied");
    assert_eq!(step_error(DownloadStep::Unpack, "bad"), "Failed to extract tarball: bad");
    let (p, r) = download_outcome(Ok("/k/linux-6.1".to_string()));
    assert!(matches!(p, DownloadProgress::Complete(x) if x == "/k/linux-6.1"));
    assert!(matches!(r, DownloadResult::Success(x) if x == "/k/linux-6.1"));
    let (p, r) = download_outcome(Err("e".to_string()));
    assert!(matches!(p, DownloadProgress::Error(x) if x == "e"));
    assert!(matches!(r, DownloadResult::Error(x) if x == "e"));
}

#[test]
fn clone_commands_and_messages() {
    assert_eq!(clone_args("https://g/x", "/d/x"), vec!["clone", "--depth=1", "https://g/x", "/d/x"]);
    assert_eq!(parent_creation_error("/d", "denied"), "Failed to create directory /d: denied");
    assert_eq!(spawn_error("git", "not found"), "Failed to spawn git: not found");
}

use tkg_gui::freshness::{check_update, FreshnessMarkers, PatchMeta, PatchRegistry, UpdateCheckResult, UpdateStatus};
use tkg_gui::layout::{list_patches, PatchEntry};
use tkg_gui::payload::DownloadInfo;
use tkg_gui::tabs::{copy_meta, probe_targets, record_for_download, PendingDownload};

fn record(file: &str, url: Option<&str>) -> PatchMeta {
    PatchMeta {
        filename: file.to_string(),
        kernel_series: "6.13".to_string(),
        source_url: url.map(|s| s.to_string()),
        catalog_id: None,
        sha256: "00".to_string(),
        downloaded_at: 5,
        etag: None,
        last_modified: None,
        update_status: UpdateStatus::Stale,
    }
}

#[test]
fn patches_are_listed_by_name() {
    let files = vec![
        ("zz.patch".to_string(), "/p/zz.patch".to_string()),
        ("README".to_string(), "/p/README".to_string()),
        ("aa.mypatch.disabled".to_string(), "/p/aa.mypatch.disabled".to_string()),
        ("Bb.patch".to_string(), "/p/Bb.patch".to_string()),
    ];
    let listed = list_patches(&files);
    let names: Vec<(&str, bool)> = listed.iter().map(|p| (p.name.as_str(), p.enabled)).collect();
    assert_eq!(names, vec![("Bb.patch", true), ("aa.mypatch.disabled", false), ("zz.patch", true)]);
    assert_eq!(listed[2].path, "/p/zz.patch");
}

#[test]
fn batch_probe_takes_listed_records_with_urls() {
    let mut reg = PatchRegistry::new();
    reg.record_download(record("a.patch", Some("https://x/a")));
    reg.record_download(record("b.patch", None));
    reg.record_download(record("c.patch", Some("https://x/c")));
    let listed = vec![
        PatchEntry { name: "c.patch".to_string(), enabled: true, path: "/p/c.patch".to_string() },
        PatchEntry { name: "b.patch".to_string(), enabled: true, path: "/p/b.patch".to_string() },
        PatchEntry { name: "d.patch".to_string(), enabled: true, path: "/p/d.patch".to_string() },
        PatchEntry { name: "a.patch".to_string(), enabled: false, path: "/p/a.patch".to_string() },
    ];
    let targets = probe_targets(&reg, "6.13", &listed);
    let names: Vec<&str> = targets.iter().map(|m| m.filename.as_str()).collect();
    assert_eq!(names, vec!["c.patch", "b.patch", "a.patch"]);
    assert!(targets[1].source_url.is_none());
    assert!(probe_targets(&reg, "6.12", &listed).is_empty());
    let copy = copy_meta(&targets[0]);
    assert_eq!(copy.source_url.as_deref(), Some("https://x/c"));
    assert!(matches!(copy.update_status, UpdateStatus::Stale));
}

#[test]
fn finished_download_becomes_a_record() {
    let info = DownloadInfo {
        path: "/p/linux6.13-tkg-userpatches/bbr3-6.13.patch".to_string(),
        sha256: "ab".to_string(),
        etag: Some("\"e\"".to_string()),
        last_modified: None,
    };
    let pending = Some(PendingDownload { url: "https://x/bbr3".to_string(), catalog_id: Some("bbr3".to_string()) });
    let m = record_for_download(info, "6.13", &pending, 1_700_000_000);
    assert_eq!(m.filename, "bbr3-6.13.patch");
    assert_eq!(m.key(), "6.13/bbr3-6.13.patch");
    assert_eq!(m.source_url.as_deref(), Some("https://x/bbr3"));
    assert_eq!(m.catalog_id.as_deref(), Some("bbr3"));
    assert_eq!(m.downloaded_at, 1_700_000_000);
    assert!(matches!(m.update_status, UpdateStatus::UpToDate));
    let bare = DownloadInfo { path: "x.patch".to_string(), sha256: String::new(), etag: None, last_modified: None };
    let m = record_for_download(bare, "6.1", &None, 0);
    assert_eq!(m.source_url, None);
    assert_eq!(m.filename, "x.patch");
}

#[test]
fn batch_reports_no_url_up_to_date_and_error() {
    let mut reg = PatchRegistry::new();
    reg.record_download(record("n.patch", None));
    let mut same = record("s.patch", Some("https://x/s"));
    same.etag = Some("\"t\"".to_string());
    reg.record_download(same);
    reg.record_download(record("e.patch", Some("https://x/e")));
    let listed: Vec<PatchEntry> = ["n.patch", "s.patch", "e.patch"]
        .iter()
        .map(|n| PatchEntry { name: n.to_string(), enabled: true, path: format!("/p/{}", n) })
        .collect();
    let targets = probe_targets(&reg, "6.13", &listed);
    assert_eq!(targets.len(), 3);
    let results: Vec<UpdateCheckResult> = targets
        .iter()
        .map(|m| {
            let response = match m.filename.as_str() {
                "s.patch" => Ok(FreshnessMarkers { etag: Some("\"t\"".to_string()), last_modified: None }),
                "e.patch" => Err("connection refused".to_string()),
                _ => Err(String::new()),
            };
            check_update(m, response)
        })
        .collect();
    assert!(matches!(&results[0], UpdateCheckResult::NoUrl { key } if key == "6.13/n.patch"));
    assert!(matches!(&results[1], UpdateCheckResult::UpToDate { key } if key == "6.13/s.patch"));
    assert!(matches!(&results[2], UpdateCheckResult::Error { key, reason } if key == "6.13/e.patch" && reason == "connection refused"));
}
