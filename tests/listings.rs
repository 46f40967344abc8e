use std::cmp::Ordering;
use tkg_gui::listing::{fetch_shortlog, fetch_tags, shortlog_url, tags_url, ShortlogRow, TagRow};
use tkg_gui::versions::{
    compare_versions, get_previous_version, kernel_series, split_char, CommitInfo, FetchResult,
    ShortlogResult, VersionInfo,
};

fn v(s: &str) -> VersionInfo {
    VersionInfo { version: s.to_string(), date: None }
}

fn row(link: Option<&str>, date: Option<&str>) -> TagRow {
    TagRow { link_text: link.map(|s| s.to_string()), date: date.map(|s| s.to_string()) }
}

#[test]
fn versions_compare_by_number() {
    assert_eq!(compare_versions("v6.9", "v6.10"), Ordering::Less);
    assert_eq!(compare_versions("6.13.1", "v6.13"), Ordering::Greater);
    assert_eq!(compare_versions("v6.13", "6.13"), Ordering::Equal);
    assert_eq!(compare_versions("v6.x.1", "v6.1"), Ordering::Equal);
}

#[test]
fn series_of_a_version() {
    assert_eq!(kernel_series("v6.13.1"), "6.13");
    assert_eq!(kernel_series("6"), "6");
    assert_eq!(split_char("a..b", '.'), vec!["a".to_string(), String::new(), "b".to_string()]);
}

#[test]
fn previous_version_in_series() {
    let all = vec![v("v6.13.2"), v("v6.12.9"), v("v6.13.1"), v("v6.13")];
    assert_eq!(get_previous_version("v6.13.2", &all).as_deref(), Some("v6.13.1"));
    assert_eq!(get_previous_version("v6.13.1", &all).as_deref(), Some("v6.13"));
    assert_eq!(get_previous_version("v6.13", &all), None);
    assert_eq!(get_previous_version("v6.11", &all), None);
    let base_only = vec![v("v6.12.9"), v("v6.13"), v("v6.14.1")];
    assert_eq!(get_previous_version("v6.14.1", &base_only), None);
    let with_base_before = vec![v("v6.13"), v("v6.14.1"), v("v6.14")];
    assert_eq!(get_previous_version("v6.14.1", &with_base_before).as_deref(), Some("v6.14"));
    let base_earlier = vec![v("v6.14"), v("v6.14.2")];
    assert_eq!(get_previous_version("v6.14.2", &base_earlier).as_deref(), Some("v6.14"));
}

#[test]
fn tags_are_filtered_sorted_and_deduplicated() {
    let rows = vec![
        row(Some("v6.9"), Some(" 2024-05-12 ")),
        row(Some("v6.10.1"), None),
        row(Some("not-a-version"), None),
        row(None, Some("x")),
        row(Some("v6.10.1"), None),
        row(Some("v6.10-rc1"), None),
        row(Some("v6.10"), None),
    ];
    match fetch_tags(Ok(rows)) {
        FetchResult::Done(vs) => {
            let names: Vec<&str> = vs.iter().map(|x| x.version.as_str()).collect();
            assert_eq!(names, vec!["v6.10.1", "v6.10", "v6.9"]);
            assert_eq!(vs[2].date.as_deref(), Some("2024-05-12"));
        }
        FetchResult::Error(_) => panic!("expected versions"),
    }
    assert!(matches!(fetch_tags(Err("timeout".to_string())), FetchResult::Error(e) if e == "timeout"));
}

#[test]
fn shortlog_rows_become_commits() {
    let rows = vec![
        ShortlogRow { subject: "  ".to_string(), href: None, author: None },
        ShortlogRow {
            subject: " Linux 6.13.1 ".to_string(),
            href: Some("/pub/scm/linux/kernel/git/stable/linux.git/commit/?id=0123456789abcdef0123".to_string()),
            author: Some(" Greg Kroah-Hartman ".to_string()),
        },
        ShortlogRow { subject: "fix".to_string(), href: Some("/commit/?h=x".to_string()), author: None },
        ShortlogRow { subject: "two".to_string(), href: Some("?id=abc&id=def".to_string()), author: None },
    ];
    match fetch_shortlog(Ok(rows)) {
        ShortlogResult::Done(cs) => {
            assert_eq!(cs.len(), 3);
            let CommitInfo { hash, subject, author } = &cs[0];
            assert_eq!(hash, "0123456789ab");
            assert_eq!(subject, "Linux 6.13.1");
            assert_eq!(author, "Greg Kroah-Hartman");
            assert_eq!(cs[1].hash, "");
            assert_eq!(cs[1].author, "");
            assert_eq!(cs[2].hash, "abc&");
        }
        ShortlogResult::Error(_) => panic!("expected commits"),
    }
    assert!(matches!(fetch_shortlog(Err("404".to_string())), ShortlogResult::Error(e) if e == "404"));
}

#[test]
fn listing_urls() {
    assert_eq!(
        shortlog_url("v6.13", "v6.13.1"),
        "https://git.kernel.org/pub/scm/linux/kernel/git/stable/linux.git/log/?id=v6.13.1&id2=v6.13"
    );
    assert_eq!(tags_url(), "https://git.kernel.org/pub/scm/linux/kernel/git/stable/linux.git/refs/tags");
}

use tkg_gui::listing::{shortlog_rows_from_html, tag_rows_from_html};

const TAGS_PAGE: &str = "<html><body><table>\
<tr><th>Tag</th><th>Message</th><th>Age</th></tr>\
<tr><td><a href='/tag/?h=v6.13.1'>v6.13.1</a></td><td>Linux 6.13.1</td><td> 2025-02-01 </td></tr>\
<tr><td><a href='/tag/?h=v6.13'>v6.13</a></td><td>Linux 6.13</td><td>2025-01-19</td></tr>\
</table></body></html>";

const SHORTLOG_PAGE: &str = "<html><body><table class='list'>\
<tr class='nohover'><th>Age</th><th>Commit message</th><th>Author</th></tr>\
<tr><td>2 days</td><td><a href='/commit/?id=abcdef0123456789abcd'>Linux 6.13.1</a></td><td>Greg</td></tr>\
<tr><td>3 days</td><td>no link</td><td>Someone</td></tr>\
</table></body></html>";

#[test]
fn tag_page_rows_are_scraped() {
    let rows = tag_rows_from_html(TAGS_PAGE).unwrap();
    assert_eq!(rows.len(), 3);
    assert_eq!(rows[0].link_text, None);
    assert_eq!(rows[1].link_text.as_deref(), Some("v6.13.1"));
    assert_eq!(rows[1].date.as_deref(), Some(" 2025-02-01 "));
    match fetch_tags(Ok(rows)) {
        FetchResult::Done(vs) => {
            assert_eq!(vs.len(), 2);
            assert_eq!(vs[0].version, "v6.13.1");
            assert_eq!(vs[0].date.as_deref(), Some("2025-02-01"));
        }
        FetchResult::Error(_) => panic!("expected versions"),
    }
}

#[test]
fn shortlog_page_rows_are_scraped() {
    let rows = shortlog_rows_from_html(SHORTLOG_PAGE).unwrap();
    assert_eq!(rows.len(), 1);
    assert_eq!(rows[0].subject, "Linux 6.13.1");
    assert_eq!(rows[0].href.as_deref(), Some("/commit/?id=abcdef0123456789abcd"));
    assert_eq!(rows[0].author.as_deref(), Some("Greg"));
    match fetch_shortlog(Ok(rows)) {
        ShortlogResult::Done(cs) => assert_eq!(cs[0].hash, "abcdef012345"),
        ShortlogResult::Error(_) => panic!("expected commits"),
    }
}
