use sha2::Digest;
use std::io::Write;
use tkg_gui::download::{DownloadProgress, DownloadTracker};
use tkg_gui::kernel::{
    format_bytes, get_download_url, get_extracted_folder_name, parse_u64, resolve_extracted_dir,
    tarball_name, DirEntryInfo,
};
use tkg_gui::payload::{compression_for, download_patch, trim_end_matches, Compression, HttpBody};

const EMPTY_SHA256: &str = "e3b0c44298fc1c149afbf4c8996fb92427ae41e4649b934ca495991b7852b855";

fn sha_hex(b: &[u8]) -> String {
    format!("{:x}", sha2::Sha256::digest(b))
}

fn body(b: Vec<u8>) -> HttpBody {
    HttpBody { etag: Some("\"abc\"".to_string()), last_modified: None, body: b }
}

#[test]
fn progress_counts_never_decrease_and_end_at_bytes_written() {
    let (mut t, started) = DownloadTracker::start(Some(16484));
    assert!(matches!(started, DownloadProgress::Started(Some(16484))));
    let mut values = Vec::new();
    for n in [8192u64, 8192, 0, 100] {
        match t.record_chunk(n) {
            DownloadProgress::Downloading(v) => values.push(v),
            _ => panic!("expected a byte count"),
        }
    }
    assert_eq!(values, vec![8192, 16384, 16384, 16484]);
    assert!(values.windows(2).all(|w| w[0] <= w[1]));
    assert_eq!(t.downloaded, 16484);
}

#[test]
fn empty_download_without_length_hashes_the_empty_input() {
    let (t, started) = DownloadTracker::start(None);
    assert!(matches!(started, DownloadProgress::Started(None)));
    assert_eq!(t.downloaded, 0);
    let p = download_patch("/tmp/p/empty.patch", Ok(body(Vec::new()))).unwrap();
    assert!(p.content.is_empty());
    assert_eq!(p.info.sha256, EMPTY_SHA256);
    assert_eq!(p.info.path, "/tmp/p/empty.patch");
}

#[test]
fn xz_payload_round_trips() {
    let plain: Vec<u8> = (0..5000u32).map(|i| (i * 7 % 251) as u8).collect();
    let mut enc = xz2::write::XzEncoder::new(Vec::new(), 6);
    enc.write_all(&plain).unwrap();
    let compressed = enc.finish().unwrap();
    let p = download_patch("/d/fix.patch.xz", Ok(body(compressed))).unwrap();
    assert_eq!(p.content, plain);
    assert_eq!(p.info.path, "/d/fix.patch");
    assert_eq!(p.info.sha256, sha_hex(&plain));
    assert_eq!(p.info.etag.as_deref(), Some("\"abc\""));
}

#[test]
fn gz_payload_round_trips() {
    let plain = b"diff --git a/x b/x\n+hello\n".to_vec();
    let mut enc = flate2::write::GzEncoder::new(Vec::new(), flate2::Compression::default());
    enc.write_all(&plain).unwrap();
    let compressed = enc.finish().unwrap();
    let p = download_patch("/d/fix.patch.gz", Ok(body(compressed))).unwrap();
    assert_eq!(p.content, plain);
    assert_eq!(p.info.path, "/d/fix.patch");
    assert_eq!(p.info.sha256, sha_hex(&plain));
}

#[test]
fn plain_payload_is_kept_and_hashed() {
    let p = download_patch("/d/a.patch", Ok(body(b"abc".to_vec()))).unwrap();
    assert_eq!(p.content, b"abc".to_vec());
    assert_eq!(p.info.sha256, "ba7816bf8f01cfea414140de5dae2223b00361a396177a9cb410ff61f20015ad");
}

#[test]
fn corrupt_payload_is_a_decompression_error() {
    let e = download_patch("/d/a.patch.xz", Ok(body(b"not xz".to_vec()))).err().unwrap();
    assert!(e.starts_with("XZ decompression failed: "));
    let e = download_patch("/d/a.patch.gz", Ok(body(b"not gz".to_vec()))).err().unwrap();
    assert!(e.starts_with("GZ decompression failed: "));
}

#[test]
fn fetch_error_is_passed_on() {
    let e = download_patch("/d/a.patch", Err("connection refused".to_string())).err().unwrap();
    assert_eq!(e, "connection refused");
}

#[test]
fn compression_follows_the_suffix() {
    assert!(compression_for("a.patch.xz") == Compression::Xz);
    assert!(compression_for("a.patch.gz") == Compression::Gz);
    assert!(compression_for("a.patch") == Compression::Plain);
    assert_eq!(trim_end_matches("a.xz.xz", ".xz"), "a");
}

#[test]
fn kernel_archive_names() {
    assert_eq!(
        get_download_url("6.19.2"),
        "https://cdn.kernel.org/pub/linux/kernel/v6.x/linux-6.19.2.tar.xz"
    );
    assert_eq!(
        get_download_url("v6.13"),
        "https://cdn.kernel.org/pub/linux/kernel/v6.x/linux-6.13.tar.xz"
    );
    assert_eq!(get_extracted_folder_name("v6.19.2"), "linux-6.19.2");
    assert_eq!(tarball_name("6.1"), "linux-6.1.tar.xz");
}

#[test]
fn extracted_directory_is_found_by_name_then_by_prefix() {
    let r = resolve_extracted_dir("/k", "6.1", true, Ok(Vec::new())).unwrap();
    assert_eq!(r, "/k/linux-6.1");
    let entries = vec![
        DirEntryInfo { name: "linux-6.1.tar.xz".to_string(), is_dir: false },
        DirEntryInfo { name: "other".to_string(), is_dir: true },
        DirEntryInfo { name: "linux-6.1-rc".to_string(), is_dir: true },
    ];
    assert_eq!(resolve_extracted_dir("/k/", "6.1", false, Ok(entries)).unwrap(), "/k/linux-6.1-rc");
    let none = vec![DirEntryInfo { name: "x".to_string(), is_dir: true }];
    assert_eq!(
        resolve_extracted_dir("/k", "6.1", false, Ok(none)).unwrap_err(),
        "Could not find extracted kernel directory"
    );
    assert_eq!(resolve_extracted_dir("/k", "6.1", false, Err("denied".to_string())).unwrap_err(), "denied");
}

#[test]
fn sizes_are_formatted_in_binary_units() {
    assert_eq!(format_bytes(0), "0 B");
    assert_eq!(format_bytes(1023), "1023 B");
    assert_eq!(format_bytes(1024), "1.00 KB");
    assert_eq!(format_bytes(1536), "1.50 KB");
    assert_eq!(format_bytes(1048576), "1.00 MB");
    assert_eq!(format_bytes(146_000_000), "139.24 MB");
    assert_eq!(format_bytes(1610612736), "1.50 GB");
    assert_eq!(format_bytes(1100), "1.07 KB");
}

#[test]
fn content_length_values_are_read() {
    assert_eq!(parse_u64("12345"), Some(12345));
    assert_eq!(parse_u64("+7"), Some(7));
    assert_eq!(parse_u64(""), None);
    assert_eq!(parse_u64("12a"), None);
    assert_eq!(parse_u64("18446744073709551615"), Some(u64::MAX));
    assert_eq!(parse_u64("18446744073709551616"), None);
}
