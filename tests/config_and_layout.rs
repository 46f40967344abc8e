use tkg_gui::catalog::{catalog, catalog_for_series, fill_template};
use tkg_gui::config::{ConfigManager, Line};
use tkg_gui::layout::{
    build_command, classify_line, extract_filename_from_url, get_patch_dir, patch_entry_for,
    default_linux_tkg_path, default_wine_tkg_path, AppSettings, LogLevel, PatchEntry, WorkDir,
};
use tkg_gui::paths::join_path;
use tkg_gui::wine_config::{load, wine_config_path};

const SAMPLE: &str = "# linux-tkg config\n\n_cpusched=\"pds\"\n_version='v6.13' # pinned\nnot an option\n  # indented comment\r\n_cpusched=bore\n";

#[test]
fn config_lines_are_classified() {
    let c = ConfigManager::load("/c/customization.cfg", Ok(SAMPLE.to_string())).unwrap();
    assert_eq!(c.lines.len(), 7);
    assert!(matches!(&c.lines[0], Line::Comment(s) if s == "# linux-tkg config"));
    assert!(matches!(c.lines[1], Line::Empty));
    assert!(matches!(&c.lines[2], Line::Assignment { key, value, .. } if key == "_cpusched" && value == "pds"));
    assert!(matches!(&c.lines[3], Line::Assignment { key, value, .. } if key == "_version" && value == "v6.13"));
    assert!(matches!(&c.lines[4], Line::Comment(s) if s == "not an option"));
    assert!(matches!(&c.lines[5], Line::Comment(s) if s == "  # indented comment"));
    assert_eq!(c.path, "/c/customization.cfg");
}

#[test]
fn config_options_are_read_and_written() {
    let mut c = ConfigManager::load("/c/x.cfg", Ok(SAMPLE.to_string())).unwrap();
    assert_eq!(c.get_option("_cpusched").as_deref(), Some("pds"));
    assert_eq!(c.get_option("_missing"), None);
    let all = c.get_all_options();
    assert_eq!(all, vec![
        ("_cpusched".to_string(), "bore".to_string()),
        ("_version".to_string(), "v6.13".to_string()),
    ]);
    c.set_option("_version", "v6.14");
    c.set_option("_lto_mode", "thin");
    assert_eq!(c.get_option("_version").as_deref(), Some("v6.14"));
    assert_eq!(
        c.render(),
        "# linux-tkg config\n\n_cpusched=\"pds\"\n_version=\"v6.14\"\nnot an option\n  # indented comment\n_cpusched=bore\n_lto_mode=\"thin\"\n"
    );
    assert_eq!(ConfigManager::load("/c/x.cfg", Err("missing".to_string())).err().unwrap(), "missing");
    let empty = ConfigManager::load("/c/x.cfg", Ok(String::new())).unwrap();
    assert!(empty.lines.is_empty());
}

#[test]
fn catalog_templates_and_series() {
    assert_eq!(fill_template("a-{series}-{series}.patch", "6.13"), "a-6.13-6.13.patch");
    assert_eq!(fill_template("{serie}", "x"), "{serie}");
    let all = catalog();
    assert_eq!(all.len(), 8);
    let acs = all[0];
    assert_eq!(
        acs.url_for_series("6.12"),
        "https://raw.githubusercontent.com/benbaker76/linux-acs-override/main/workspaces/6.12/acso.patch"
    );
    assert_eq!(acs.filename_for_series("6.12"), "acs-override-6.12.patch");
    assert!(acs.supports_series("6.13"));
    assert!(!acs.supports_series("6.9"));
    let ids: Vec<&str> = catalog_for_series("6.10").iter().map(|e| e.id).collect();
    assert_eq!(ids, vec!["acs-override", "graysky-cpu", "futex-waitv", "le9"]);
    assert!(catalog_for_series("5.4").is_empty());
    let ids: Vec<&str> = catalog_for_series("6.13").iter().map(|e| e.id).collect();
    assert_eq!(ids, vec!["acs-override", "bbr3", "cachy-fixes", "graysky-cpu", "zstd-upstream", "amd-pstate"]);
    assert_eq!(
        catalog_for_series("6.12")[0].url_for_series("6.12"),
        "https://raw.githubusercontent.com/benbaker76/linux-acs-override/main/workspaces/6.12/acso.patch"
    );
}

#[test]
fn patch_locations_and_names() {
    assert_eq!(
        get_patch_dir("/home/u/linux-tkg", "6.13"),
        "/home/u/linux-tkg/submodules/linux-tkg/linux6.13-tkg-userpatches"
    );
    assert_eq!(extract_filename_from_url("https://x/y/acso.patch"), "acso.patch");
    assert_eq!(extract_filename_from_url("noslash"), "noslash");
    assert_eq!(extract_filename_from_url("https://x/"), "");
    assert_eq!(wine_config_path("/w"), "/w/wine-tkg-git/customization.cfg");
    assert_eq!(join_path("/a/", "b"), "/a/b");
    assert_eq!(join_path("/a", "/b"), "/b");
    assert_eq!(join_path("", "b"), "b");
}

#[test]
fn patch_files_are_listed_and_toggled() {
    let e = patch_entry_for("a.patch", "/p/a.patch").unwrap();
    assert!(e.enabled);
    let d = patch_entry_for("b.mypatch.disabled", "/p/b.mypatch.disabled").unwrap();
    assert!(!d.enabled);
    assert!(patch_entry_for("README", "/p/README").is_none());

    let mut p = PatchEntry { name: "a.patch".to_string(), enabled: true, path: "/p/a.patch".to_string() };
    let np = p.toggled_path();
    assert_eq!(np, "/p/a.patch.disabled");
    p.apply_toggle(np);
    assert!(!p.enabled);
    assert_eq!(p.name, "a.patch.disabled");
    let back = p.toggled_path();
    assert_eq!(back, "/p/a.patch");
    p.apply_toggle(back);
    assert!(p.enabled);
    assert_eq!(p.name, "a.patch");
}

#[test]
fn work_and_settings_directories() {
    let mut w = WorkDir::new("/tmp", 4242);
    assert_eq!(w.root(), "/tmp/tkg-gui-4242");
    assert_eq!(w.linux_tkg(), "/tmp/tkg-gui-4242/linux-tkg");
    assert_eq!(w.kernel_sources(), "/tmp/tkg-gui-4242/kernel-sources");
    assert_eq!(w.linux_tkg_marker(), "/tmp/tkg-gui-4242/linux-tkg/customization.cfg");
    assert!(w.removed_on_exit());
    w.set_keep(true);
    assert!(!w.removed_on_exit());

    assert_eq!(AppSettings::config_dir("/home/u"), "/home/u/.config/tkg-gui");
    assert_eq!(AppSettings::data_dir("/home/u"), "/home/u/.local/share/tkg-gui");
    let s = AppSettings::defaults("/home/u");
    assert_eq!(s.linux_tkg_path, "/home/u/.local/share/tkg-gui/linux-tkg");
    assert_eq!(s.wine_tkg_path, "/home/u/.local/share/tkg-gui/wine-tkg-git");
    assert_eq!(s.linux_tkg_marker(), "/home/u/.local/share/tkg-gui/linux-tkg/customization.cfg");
    assert_eq!(s.wine_tkg_marker(), "/home/u/.local/share/tkg-gui/wine-tkg-git/wine-tkg-git/customization.cfg");
}

#[test]
fn build_output_levels() {
    assert!(classify_line("==> Building") == LogLevel::Stage);
    assert!(classify_line("cc: warning: x") == LogLevel::Warning);
    assert!(classify_line("WARNING and ERROR") == LogLevel::Warning);
    assert!(classify_line("make: *** FAILED") == LogLevel::Error);
    assert!(classify_line("all good") == LogLevel::Normal);
}

#[test]
fn build_command_follows_the_distribution() {
    assert_eq!(build_command(Some("Arch".to_string())), ("makepkg", "-si"));
    assert_eq!(build_command(Some("Ubuntu".to_string())), ("./install.sh", "install"));
    assert_eq!(build_command(None), ("./install.sh", "install"));
}

#[test]
fn wine_config_is_read_from_the_inner_directory() {
    let c = load("/w", Ok("_use_staging=\"true\"\n".to_string())).unwrap();
    assert_eq!(c.path, "/w/wine-tkg-git/customization.cfg");
    assert_eq!(c.get_option("_use_staging").as_deref(), Some("true"));
    assert_eq!(load("/w", Err("missing".to_string())).err().unwrap(), "missing");
    assert_eq!(default_linux_tkg_path("/h"), "/h/.local/share/tkg-gui/linux-tkg");
    assert_eq!(default_wine_tkg_path("/h"), "/h/.local/share/tkg-gui/wine-tkg-git");
}
