use crate::paths::{join_path, spec_join};
use crate::text::{
    decimal, digit_str, is_prefix, starts_with, trim_start, trim_start_char, u64_string,
};
use vstd::prelude::*;

verus! {

/// Outcome of a kernel source download: the unpacked directory, or why not.
pub enum DownloadResult {
    Success(String),
    Error(String),
}

/// The length of the part of `s` before the first `c` (all of `s` if none).
pub open spec fn segment_end(s: Seq<char>, c: char) -> nat
    decreases s.len(),
{
    if s.len() == 0 || s[0] == c {
        0
    } else {
        1 + segment_end(s.drop_first(), c)
    }
}

pub open spec fn first_segment(s: Seq<char>, c: char) -> Seq<char> {
    s.subrange(0, segment_end(s, c) as int)
}

pub proof fn lemma_segment_end_bound(s: Seq<char>, c: char)
    ensures
        segment_end(s, c) <= s.len(),
    decreases s.len(),
{
    if s.len() > 0 && s[0] != c {
        lemma_segment_end_bound(s.drop_first(), c);
    }
}

/// The part of `s` before the first `c`.
pub fn first_segment_of(s: &str, c: char) -> (r: &str)
    ensures
        r@ == first_segment(s@, c),
{
    let n = s.unicode_len();
    let mut i: usize = 0;
    proof {
        lemma_segment_end_bound(s@, c);
        assert(s@.subrange(0, n as int) =~= s@);
    }
    while i < n && s.get_char(i) != c
        invariant
            n == s@.len(),
            i <= n,
            segment_end(s@, c) == i + segment_end(s@.subrange(i as int, n as int), c),
        decreases n - i,
    {
        let ghost rest = s@.subrange(i as int, n as int);
        assert(rest.drop_first() =~= s@.subrange(i + 1, n as int));
        i = i + 1;
    }
    s.substring_char(0, i)
}

/// A version without its leading `v`s.
pub open spec fn bare_version(version: Seq<char>) -> Seq<char> {
    trim_start(version, 'v')
}

pub open spec fn spec_download_url(version: Seq<char>) -> Seq<char> {
    let v = bare_version(version);
    "https://cdn.kernel.org/pub/linux/kernel/v"@ + first_segment(v, '.') + ".x/linux-"@ + v
        + ".tar.xz"@
}

/// The archive URL of a kernel version, e.g. "6.19.2" gives
/// "https://cdn.kernel.org/pub/linux/kernel/v6.x/linux-6.19.2.tar.xz".
pub fn get_download_url(version: &str) -> (r: String)
    ensures
        r@ == spec_download_url(version@),
{
    let v = trim_start_char(version, 'v');
    let major = first_segment_of(v, '.');
    let mut url = String::from_str("https://cdn.kernel.org/pub/linux/kernel/v");
    url.append(major);
    url.append(".x/linux-");
    url.append(v);
    url.append(".tar.xz");
    url
}

pub open spec fn spec_folder_name(version: Seq<char>) -> Seq<char> {
    "linux-"@ + bare_version(version)
}

/// The directory an archive of `version` unpacks to, e.g. "linux-6.19.2".
pub fn get_extracted_folder_name(version: &str) -> (r: String)
    ensures
        r@ == spec_folder_name(version@),
{
    let mut name = String::from_str("linux-");
    name.append(trim_start_char(version, 'v'));
    name
}

/// The file name the archive of `version` is saved under.
pub fn tarball_name(version: &str) -> (r: String)
    ensures
        r@ == spec_folder_name(version@) + ".tar.xz"@,
{
    let mut name = get_extracted_folder_name(version);
    name.append(".tar.xz");
    name
}

/// One entry of a directory listing.
pub struct DirEntryInfo {
    pub name: String,
    pub is_dir: bool,
}

pub open spec fn is_kernel_dir(e: DirEntryInfo) -> bool {
    is_prefix("linux-"@, e.name@) && e.is_dir
}

pub open spec fn not_found_message() -> Seq<char> {
    "Could not find extracted kernel directory"@
}

/// Locates the directory an archive unpacked into under `dest_dir`: the
/// expected one if it exists, else the first listed directory whose name
/// starts with "linux-". `listing` is the listing of `dest_dir`, consulted
/// only when the expected directory is absent.
pub fn resolve_extracted_dir(
    dest_dir: &str,
    version: &str,
    expected_exists: bool,
    listing: Result<Vec<DirEntryInfo>, String>,
) -> (r: Result<String, String>)
    ensures
        expected_exists ==> r is Ok && r->Ok_0@ == spec_join(dest_dir@, spec_folder_name(version@)),
        !expected_exists ==> match listing {
            Err(e) => r is Err && r->Err_0 == e,
            Ok(entries) => {
                if exists|i: int| 0 <= i < entries@.len() && is_kernel_dir(#[trigger] entries@[i]) {
                    r is Ok && exists|i: int|
                        0 <= i < entries@.len() && is_kernel_dir(#[trigger] entries@[i]) && (
                        forall|j: int| 0 <= j < i ==> !is_kernel_dir(#[trigger] entries@[j]))
                            && r->Ok_0@ == spec_join(dest_dir@, entries@[i].name@)
                } else {
                    r is Err && r->Err_0@ == not_found_message()
                }
            },
        },
{
    if expected_exists {
        let name = get_extracted_folder_name(version);
        return Ok(join_path(dest_dir, name.as_str()));
    }
    let entries = match listing {
        Ok(v) => v,
        Err(e) => {
            return Err(e);
        },
    };
    let mut i: usize = 0;
    while i < entries.len()
        invariant
            !expected_exists,
            listing == Ok::<Vec<DirEntryInfo>, String>(entries),
            i <= entries@.len(),
            forall|j: int| 0 <= j < i ==> !is_kernel_dir(#[trigger] entries@[j]),
        decreases entries@.len() - i,
    {
        let e = &entries[i];
        if e.is_dir && starts_with(e.name.as_str(), "linux-") {
            assert(is_kernel_dir(entries@[i as int]));
            return Ok(join_path(dest_dir, e.name.as_str()));
        }
        i = i + 1;
    }
    Err(String::from_str("Could not find extracted kernel directory"))
}

pub open spec fn all_digits(s: Seq<char>) -> bool {
    forall|i: int| 0 <= i < s.len() ==> '0' <= #[trigger] s[i] <= '9'
}

/// The value of a string of decimal digits.
pub open spec fn digits_value(s: Seq<char>) -> nat
    decreases s.len(),
{
    if s.len() == 0 {
        0
    } else {
        digits_value(s.drop_last()) * 10 + ((s.last() as u32) - ('0' as u32)) as nat
    }
}

/// What `str::parse::<u64>` accepts: an optional `+`, then one or more
/// digits, of a value that fits.
pub open spec fn spec_parse_u64(s: Seq<char>) -> Option<u64> {
    let d = if s.len() > 0 && s[0] == '+' {
        s.drop_first()
    } else {
        s
    };
    if d.len() > 0 && all_digits(d) && digits_value(d) <= u64::MAX {
        Some(digits_value(d) as u64)
    } else {
        None
    }
}

/// Reads a size such as a Content-Length header value.
pub fn parse_u64(s: &str) -> (r: Option<u64>)
    ensures
        r == spec_parse_u64(s@),
{
    let n = s.unicode_len();
    let mut start: usize = 0;
    if n > 0 && s.get_char(0) == '+' {
        start = 1;
    }
    let d = s.substring_char(start, n);
    let ghost dv = d@;
    proof {
        if n > 0 && s@[0] == '+' {
            assert(dv =~= s@.drop_first());
        } else {
            assert(dv =~= s@);
        }
    }
    let dlen = d.unicode_len();
    if dlen == 0 {
        return None;
    }
    let mut acc: u64 = 0;
    let mut i: usize = 0;
    while i < dlen
        invariant
            dlen == dv.len(),
            d@ == dv,
            dv == (if s@.len() > 0 && s@[0] == '+' {
                s@.drop_first()
            } else {
                s@
            }),
            i <= dlen,
            all_digits(dv.subrange(0, i as int)),
            acc as nat == digits_value(dv.subrange(0, i as int)),
        decreases dlen - i,
    {
        let c = d.get_char(i);
        let ghost pre = dv.subrange(0, i as int);
        let ghost next = dv.subrange(0, i + 1);
        assert(next.drop_last() =~= pre);
        if c < '0' || c > '9' {
            assert(!all_digits(dv)) by {
                assert(dv[i as int] == c);
            }
            assert(spec_parse_u64(s@) is None);
            return None;
        }
        let digit = (c as u32 - '0' as u32) as u64;
        if acc > (u64::MAX - digit) / 10 {
            proof {
                assert(next.last() == c);
                assert(all_digits(next)) by {
                    assert forall|k: int| 0 <= k < next.len() implies '0' <= #[trigger] next[k] <= '9' by {
                        if k < i {
                            assert(next[k] == pre[k]);
                        }
                    }
                }
                assert(digits_value(next) == acc * 10 + digit);
                lemma_digits_value_prefix_grows(dv, i as int + 1);
                assert(acc * 10 + digit > u64::MAX) by (nonlinear_arith)
                    requires
                        acc > (u64::MAX - digit) / 10,
                        digit <= 9,
                ;
                assert(spec_parse_u64(s@) is None);
            }
            return None;
        }
        assert(acc * 10 + digit <= u64::MAX) by (nonlinear_arith)
            requires
                acc <= (u64::MAX - digit) / 10,
                digit <= 9,
        ;
        acc = acc * 10 + digit;
        i = i + 1;
    }
    assert(dv.subrange(0, dlen as int) =~= dv);
    Some(acc)
}

/// The value of a digit string is at least that of any prefix.
proof fn lemma_digits_value_prefix_grows(s: Seq<char>, k: int)
    requires
        0 <= k <= s.len(),
        all_digits(s.subrange(0, k)) || all_digits(s),
    ensures
        all_digits(s) ==> digits_value(s.subrange(0, k)) <= digits_value(s),
    decreases s.len() - k,
{
    if all_digits(s) && k < s.len() {
        let next = s.subrange(0, k + 1);
        assert(next.drop_last() =~= s.subrange(0, k));
        lemma_digits_value_prefix_grows(s, k + 1);
        assert(s.subrange(0, k + 1)[k] == s[k]);
    } else if k == s.len() {
        assert(s.subrange(0, k) =~= s);
    }
}

pub open spec fn unit_label(u: nat) -> Seq<char> {
    if u == 1073741824 {
        " GB"@
    } else if u == 1048576 {
        " MB"@
    } else {
        " KB"@
    }
}

/// `b / u` in hundredths, rounded to the nearest, ties to even.
pub open spec fn hundredths(b: nat, u: nat) -> nat
    recommends
        u > 0,
{
    let n = (b * 100) / u;
    let rem = (b * 100) % u;
    if rem * 2 > u || (rem * 2 == u && n % 2 == 1) {
        n + 1
    } else {
        n
    }
}

pub open spec fn two_digits(n: nat) -> Seq<char> {
    seq![crate::text::digit_char(n / 10), crate::text::digit_char(n % 10)]
}

pub open spec fn fixed2(b: nat, u: nat) -> Seq<char> {
    let h = hundredths(b, u);
    decimal(h / 100) + "."@ + two_digits(h % 100) + unit_label(u)
}

/// The size as shown to the user: in the largest binary unit it reaches, with
/// two decimals.
pub open spec fn spec_format_bytes(b: nat) -> Seq<char> {
    if b >= 1073741824 {
        fixed2(b, 1073741824)
    } else if b >= 1048576 {
        fixed2(b, 1048576)
    } else if b >= 1024 {
        fixed2(b, 1024)
    } else {
        decimal(b) + " B"@
    }
}

proof fn lemma_split_hundredths(b: int, u: int, q: int, rm: int, n0: int, rem: int)
    requires
        1024 <= u,
        0 <= b <= u64::MAX,
        q == b / u,
        rm == b % u,
        n0 == (rm * 100) / u,
        rem == (rm * 100) % u,
    ensures
        (b * 100) / u == q * 100 + n0,
        (b * 100) % u == rem,
        0 <= n0 < 100,
        0 <= rem < u,
        0 <= q <= u64::MAX / 1024,
        (q * 100 + n0) % 2 == n0 % 2,
{
    vstd::arithmetic::div_mod::lemma_fundamental_div_mod(b, u);
    vstd::arithmetic::div_mod::lemma_fundamental_div_mod(rm * 100, u);
    assert(0 <= rm < u);
    assert(0 <= rem < u);
    let x = q * 100 + n0;
    assert(b * 100 == u * x + rem) by (nonlinear_arith)
        requires
            b == u * q + rm,
            rm * 100 == u * n0 + rem,
            x == q * 100 + n0,
    ;
    vstd::arithmetic::div_mod::lemma_div_multiples_vanish_fancy(x, rem, u);
    vstd::arithmetic::div_mod::lemma_mod_multiples_vanish(x, rem, u);
    vstd::arithmetic::div_mod::lemma_small_mod(rem as nat, u as nat);
    assert(0 <= n0 < 100) by (nonlinear_arith)
        requires
            rm * 100 == u * n0 + rem,
            0 <= rm < u,
            0 <= rem < u,
    ;
    vstd::arithmetic::div_mod::lemma_div_is_ordered_by_denominator(b, 1024, u);
    vstd::arithmetic::div_mod::lemma_div_is_ordered(b, u64::MAX as int, 1024);
    vstd::arithmetic::div_mod::lemma_div_pos_is_pos(b, u);
    assert((q * 100 + n0) % 2 == n0 % 2) by (nonlinear_arith)
        requires
            0 <= q,
            0 <= n0,
    ;
}

fn format_fixed2(b: u64, u: u64) -> (r: String)
    requires
        u == 1024 || u == 1048576 || u == 1073741824,
        b >= u,
    ensures
        r@ == fixed2(b as nat, u as nat),
{
    let q = b / u;
    let rm = b % u;
    let n0 = rm * 100 / u;
    let rem = rm * 100 % u;
    proof {
        lemma_split_hundredths(b as int, u as int, q as int, rm as int, n0 as int, rem as int);
    }
    let up = rem * 2 > u || (rem * 2 == u && n0 % 2 == 1);
    let h = if up {
        q * 100 + n0 + 1
    } else {
        q * 100 + n0
    };
    let whole = h / 100;
    let frac = h % 100;
    let mut s = u64_string(whole);
    s.append(".");
    s.append(digit_str(frac / 10));
    s.append(digit_str(frac % 10));
    if u == 1073741824 {
        s.append(" GB");
    } else if u == 1048576 {
        s.append(" MB");
    } else {
        s.append(" KB");
    }
    assert(s@ =~= fixed2(b as nat, u as nat));
    s
}

/// Formats a byte count for display, e.g. 1536 gives "1.50 KB".
pub fn format_bytes(bytes: u64) -> (r: String)
    ensures
        r@ == spec_format_bytes(bytes as nat),
{
    if bytes >= 1073741824 {
        format_fixed2(bytes, 1073741824)
    } else if bytes >= 1048576 {
        format_fixed2(bytes, 1048576)
    } else if bytes >= 1024 {
        format_fixed2(bytes, 1024)
    } else {
        let mut s = u64_string(bytes);
        s.append(" B");
        s
    }
}

} // verus!
