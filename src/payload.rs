use crate::text::{ends_with, is_suffix};
use sha2::Digest;
use std::io::Read;
use vstd::prelude::*;

verus! {

/// The single-stream compression that a destination name implies.
#[derive(PartialEq, Eq, Structural, Clone, Copy)]
pub enum Compression {
    Xz,
    Gz,
    Plain,
}

pub open spec fn spec_compression(dest: Seq<char>) -> Compression {
    if is_suffix(".xz"@, dest) {
        Compression::Xz
    } else if is_suffix(".gz"@, dest) {
        Compression::Gz
    } else {
        Compression::Plain
    }
}

/// Selects the decompression step from the destination's suffix.
pub fn compression_for(dest: &str) -> (r: Compression)
    ensures
        r == spec_compression(dest@),
{
    if ends_with(dest, ".xz") {
        Compression::Xz
    } else if ends_with(dest, ".gz") {
        Compression::Gz
    } else {
        Compression::Plain
    }
}

/// `s` with every trailing occurrence of `p` removed.
pub open spec fn trim_end_all(s: Seq<char>, p: Seq<char>) -> Seq<char>
    decreases s.len(),
{
    if p.len() > 0 && is_suffix(p, s) {
        trim_end_all(s.subrange(0, s.len() - p.len()), p)
    } else {
        s
    }
}

/// The string with every trailing occurrence of `p` removed.
pub fn trim_end_matches(s: &str, p: &str) -> (r: String)
    ensures
        r@ == trim_end_all(s@, p@),
{
    let plen = p.unicode_len();
    let mut cur: &str = s;
    if plen == 0 {
        return String::from_str(s);
    }
    while ends_with(cur, p)
        invariant
            plen == p@.len(),
            plen > 0,
            trim_end_all(cur@, p@) == trim_end_all(s@, p@),
        decreases cur@.len(),
    {
        let n = cur.unicode_len();
        cur = cur.substring_char(0, n - plen);
    }
    String::from_str(cur)
}

/// What the xz decoder yields for a payload: the decoded bytes, or `None`
/// where the payload is not a valid xz stream.
pub uninterp spec fn xz_decoded(b: Seq<u8>) -> Option<Seq<u8>>;

/// What the gzip decoder yields for a payload: the decoded bytes, or `None`
/// where the payload is not a valid gzip member.
pub uninterp spec fn gz_decoded(b: Seq<u8>) -> Option<Seq<u8>>;

/// The lowercase hexadecimal SHA-256 digest of a byte sequence.
pub uninterp spec fn sha256_hex(b: Seq<u8>) -> Seq<char>;

/// Relies on `xz2::read::XzDecoder` read to its end over an in-memory slice:
/// the result depends on the bytes alone. The error is the decoder's message.
#[verifier::external_body]
fn xz_decode(data: &Vec<u8>) -> (r: Result<Vec<u8>, String>)
    ensures
        match r {
            Ok(v) => xz_decoded(data@) == Some(v@),
            Err(_) => xz_decoded(data@) is None,
        },
{
    let mut decoder = xz2::read::XzDecoder::new(&data[..]);
    let mut out = Vec::new();
    match decoder.read_to_end(&mut out) {
        Ok(_) => Ok(out),
        Err(e) => Err(e.to_string()),
    }
}

/// Relies on `flate2::read::GzDecoder` read to its end over an in-memory
/// slice: the result depends on the bytes alone. The error is the decoder's
/// message.
#[verifier::external_body]
fn gz_decode(data: &Vec<u8>) -> (r: Result<Vec<u8>, String>)
    ensures
        match r {
            Ok(v) => gz_decoded(data@) == Some(v@),
            Err(_) => gz_decoded(data@) is None,
        },
{
    let mut decoder = flate2::read::GzDecoder::new(&data[..]);
    let mut out = Vec::new();
    match decoder.read_to_end(&mut out) {
        Ok(_) => Ok(out),
        Err(e) => Err(e.to_string()),
    }
}

/// Relies on `sha2::Sha256::digest`, printed with `{:x}`: the lowercase hex
/// digest of the bytes.
#[verifier::external_body]
fn sha256_of(data: &Vec<u8>) -> (r: String)
    ensures
        r@ == sha256_hex(data@),
{
    format!("{:x}", sha2::Sha256::digest(&data[..]))
}

/// The response of a plain GET: its freshness markers and its body.
pub struct HttpBody {
    pub etag: Option<String>,
    pub last_modified: Option<String>,
    pub body: Vec<u8>,
}

/// Metadata of a finished download.
pub struct DownloadInfo {
    pub path: String,
    pub sha256: String,
    pub etag: Option<String>,
    pub last_modified: Option<String>,
}

/// A payload made ready to be written: where, what, and its metadata.
pub struct PreparedDownload {
    pub info: DownloadInfo,
    pub content: Vec<u8>,
}

/// The outcome of a patch download, once its content has been written.
pub enum DownloadResult {
    Done(DownloadInfo),
    Error(String),
}

/// How a failed decompression is reported: the format, then the decoder's
/// own message.
pub open spec fn decode_error_prefix(c: Compression) -> Seq<char> {
    match c {
        Compression::Xz => "XZ decompression failed: "@,
        Compression::Gz => "GZ decompression failed: "@,
        Compression::Plain => seq![],
    }
}

/// The final path and the bytes to write for a payload saved to `dest`, or
/// `None` where its decompression fails.
pub open spec fn spec_prepare(dest: Seq<char>, body: Seq<u8>) -> Option<(Seq<char>, Seq<u8>)> {
    match spec_compression(dest) {
        Compression::Xz => match xz_decoded(body) {
            Some(c) => Some((trim_end_all(dest, ".xz"@), c)),
            None => None,
        },
        Compression::Gz => match gz_decoded(body) {
            Some(c) => Some((trim_end_all(dest, ".gz"@), c)),
            None => None,
        },
        Compression::Plain => Some((dest, body)),
    }
}

/// Turns a fetched payload destined for `dest_path` into what is written:
/// a compressed payload (by its suffix) is decompressed and saved under the
/// path without the suffix; the hash is taken over the bytes written; the
/// freshness markers are passed on. A fetch error is passed on unchanged.
pub fn download_patch(dest_path: &str, fetched: Result<HttpBody, String>) -> (r: Result<
    PreparedDownload,
    String,
>)
    ensures
        fetched is Err ==> r is Err && r->Err_0 == fetched->Err_0,
        fetched is Ok ==> match spec_prepare(dest_path@, fetched->Ok_0.body@) {
            Some((path, content)) => r is Ok && {
                let p = r->Ok_0;
                &&& p.info.path@ == path
                &&& p.content@ == content
                &&& p.info.sha256@ == sha256_hex(content)
                &&& p.info.etag == fetched->Ok_0.etag
                &&& p.info.last_modified == fetched->Ok_0.last_modified
            },
            None => r is Err && exists|cause: Seq<char>|
                r->Err_0@ == decode_error_prefix(spec_compression(dest_path@)) + cause,
        },
{
    let resp = match fetched {
        Ok(b) => b,
        Err(e) => {
            return Err(e);
        },
    };
    let (path, content) = match compression_for(dest_path) {
        Compression::Xz => match xz_decode(&resp.body) {
            Ok(c) => (trim_end_matches(dest_path, ".xz"), c),
            Err(e) => {
                let mut m = String::from_str("XZ decompression failed: ");
                m.append(e.as_str());
                assert(m@ == decode_error_prefix(spec_compression(dest_path@)) + e@);
                return Err(m);
            },
        },
        Compression::Gz => match gz_decode(&resp.body) {
            Ok(c) => (trim_end_matches(dest_path, ".gz"), c),
            Err(e) => {
                let mut m = String::from_str("GZ decompression failed: ");
                m.append(e.as_str());
                assert(m@ == decode_error_prefix(spec_compression(dest_path@)) + e@);
                return Err(m);
            },
        },
        Compression::Plain => (String::from_str(dest_path), resp.body),
    };
    let sha256 = sha256_of(&content);
    Ok(
        PreparedDownload {
            info: DownloadInfo {
                path,
                sha256,
                etag: resp.etag,
                last_modified: resp.last_modified,
            },
            content,
        },
    )
}

/// Whatever compression the destination names, a payload that decodes to
/// `plain` is saved as exactly `plain`, and the hash reported is the
/// hash of `plain`.
pub proof fn lemma_decoded_content_and_hash(dest: Seq<char>, body: Seq<u8>, plain: Seq<u8>)
    requires
        match spec_compression(dest) {
            Compression::Xz => xz_decoded(body) == Some(plain),
            Compression::Gz => gz_decoded(body) == Some(plain),
            Compression::Plain => body == plain,
        },
    ensures
        spec_prepare(dest, body) is Some,
        spec_prepare(dest, body)->Some_0.1 == plain,
        sha256_hex(spec_prepare(dest, body)->Some_0.1) == sha256_hex(plain),
{
}

} // verus!
