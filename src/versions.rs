use crate::kernel::{first_segment_of, parse_u64, segment_end, spec_parse_u64};
use crate::text::{str_eq, trim_start, trim_start_char};
use std::cmp::Ordering;
use vstd::prelude::*;

verus! {

/// A release tag and the date the listing shows for it.
pub struct VersionInfo {
    pub version: String,
    pub date: Option<String>,
}

pub enum FetchResult {
    Done(Vec<VersionInfo>),
    Error(String),
}

/// One commit of a shortlog listing.
pub struct CommitInfo {
    pub hash: String,
    pub subject: String,
    pub author: String,
}

pub enum ShortlogResult {
    Done(Vec<CommitInfo>),
    Error(String),
}

/// The pieces of `s` between the separators `c`.
pub open spec fn split_parts(s: Seq<char>, c: char) -> Seq<Seq<char>>
    decreases s.len(),
{
    let e = segment_end(s, c);
    if e >= s.len() {
        seq![s]
    } else {
        seq![s.subrange(0, e as int)] + split_parts(s.subrange(e + 1int, s.len() as int), c)
    }
}

proof fn lemma_segment_end_le(s: Seq<char>, c: char)
    ensures
        segment_end(s, c) <= s.len(),
        segment_end(s, c) < s.len() ==> s[segment_end(s, c) as int] == c,
        forall|k: int| 0 <= k < segment_end(s, c) ==> s[k] != c,
    decreases s.len(),
{
    if s.len() > 0 && s[0] != c {
        lemma_segment_end_le(s.drop_first(), c);
        assert forall|k: int| 0 <= k < segment_end(s, c) implies s[k] != c by {
            if k > 0 {
                assert(s[k] == s.drop_first()[k - 1]);
            }
        }
    }
}

/// The pieces of `s` between the separators `c`, as `str::split` gives them.
pub fn split_char(s: &str, c: char) -> (r: Vec<String>)
    ensures
        r@.map_values(|p: String| p@) == split_parts(s@, c),
{
    let mut out: Vec<String> = Vec::new();
    let mut rest: &str = s;
    loop
        invariant
            out@.map_values(|p: String| p@) + split_parts(rest@, c) == split_parts(s@, c),
        decreases rest@.len(),
    {
        let piece = first_segment_of(rest, c);
        let n = rest.unicode_len();
        let e = piece.unicode_len();
        proof {
            lemma_segment_end_le(rest@, c);
        }
        let ghost before = out@.map_values(|p: String| p@);
        out.push(String::from_str(piece));
        assert(out@.map_values(|p: String| p@) =~= before.push(piece@));
        if e >= n {
            assert(piece@ =~= rest@);
            assert(split_parts(rest@, c) =~= seq![rest@]);
            assert(out@.map_values(|p: String| p@) =~= split_parts(s@, c));
            return out;
        }
        let ghost old_rest = rest@;
        rest = rest.substring_char(e + 1, n);
        assert(split_parts(old_rest, c) =~= seq![piece@] + split_parts(rest@, c));
        assert(before + split_parts(old_rest, c) =~= before.push(piece@) + split_parts(rest@, c));
    }
}

/// The numbers of a version string: the pieces between dots, after any
/// leading `v`, that read as `u32`; the others are skipped.
pub open spec fn version_numbers(s: Seq<char>) -> Seq<u32> {
    numbers_of(split_parts(trim_start(s, 'v'), '.'))
}

pub open spec fn parse_u32_spec(p: Seq<char>) -> Option<u32> {
    match spec_parse_u64(p) {
        Some(n) => if n <= u32::MAX {
            Some(n as u32)
        } else {
            None
        },
        None => None,
    }
}

pub open spec fn numbers_of(parts: Seq<Seq<char>>) -> Seq<u32>
    decreases parts.len(),
{
    if parts.len() == 0 {
        seq![]
    } else {
        let rest = numbers_of(parts.drop_last());
        match parse_u32_spec(parts.last()) {
            Some(n) => rest.push(n),
            None => rest,
        }
    }
}

/// Lexicographic order of number sequences, as `Vec<u32>` compares.
pub open spec fn lex_cmp(a: Seq<u32>, b: Seq<u32>) -> Ordering
    decreases a.len(),
{
    if a.len() == 0 && b.len() == 0 {
        Ordering::Equal
    } else if a.len() == 0 {
        Ordering::Less
    } else if b.len() == 0 {
        Ordering::Greater
    } else if a[0] < b[0] {
        Ordering::Less
    } else if a[0] > b[0] {
        Ordering::Greater
    } else {
        lex_cmp(a.drop_first(), b.drop_first())
    }
}

fn numbers(s: &str) -> (r: Vec<u32>)
    ensures
        r@ == version_numbers(s@),
{
    let parts = split_char(trim_start_char(s, 'v'), '.');
    let ghost pv = parts@.map_values(|p: String| p@);
    let mut out: Vec<u32> = Vec::new();
    let mut i: usize = 0;
    while i < parts.len()
        invariant
            i <= parts@.len(),
            pv == parts@.map_values(|p: String| p@),
            pv == split_parts(trim_start(s@, 'v'), '.'),
            out@ == numbers_of(pv.subrange(0, i as int)),
        decreases parts@.len() - i,
    {
        assert(pv.subrange(0, i + 1).drop_last() =~= pv.subrange(0, i as int));
        assert(pv.subrange(0, i + 1).last() == parts@[i as int]@);
        match parse_u64(parts[i].as_str()) {
            Some(n) => {
                if n <= 4294967295 {
                    out.push(n as u32);
                }
            },
            None => {},
        }
        i = i + 1;
    }
    assert(pv.subrange(0, parts@.len() as int) =~= pv);
    out
}

fn lex_compare(a: &Vec<u32>, b: &Vec<u32>) -> (r: Ordering)
    ensures
        r == lex_cmp(a@, b@),
{
    let mut i: usize = 0;
    assert(a@.subrange(0, a@.len() as int) =~= a@);
    assert(b@.subrange(0, b@.len() as int) =~= b@);
    while i < a.len() && i < b.len() && a[i] == b[i]
        invariant
            i <= a@.len(),
            i <= b@.len(),
            lex_cmp(a@, b@) == lex_cmp(a@.subrange(i as int, a@.len() as int), b@.subrange(i as int, b@.len() as int)),
        decreases a@.len() - i,
    {
        let ghost sa = a@.subrange(i as int, a@.len() as int);
        let ghost sb = b@.subrange(i as int, b@.len() as int);
        assert(sa.drop_first() =~= a@.subrange(i + 1, a@.len() as int));
        assert(sb.drop_first() =~= b@.subrange(i + 1, b@.len() as int));
        i = i + 1;
    }
    if i == a.len() && i == b.len() {
        Ordering::Equal
    } else if i == a.len() {
        Ordering::Less
    } else if i == b.len() {
        Ordering::Greater
    } else if a[i] < b[i] {
        Ordering::Less
    } else {
        Ordering::Greater
    }
}

pub open spec fn spec_compare_versions(a: Seq<char>, b: Seq<char>) -> Ordering {
    lex_cmp(version_numbers(a), version_numbers(b))
}

/// Orders two version strings by their numbers, e.g. "v6.9" before "v6.10".
pub fn compare_versions(a: &str, b: &str) -> (r: Ordering)
    ensures
        r == spec_compare_versions(a@, b@),
{
    let va = numbers(a);
    let vb = numbers(b);
    lex_compare(&va, &vb)
}

/// The series of a version: its first two pieces joined by a dot, or the
/// whole version (without `v`) where it has fewer than two pieces.
pub open spec fn spec_series(version: Seq<char>) -> Seq<char> {
    let parts = split_parts(trim_start(version, 'v'), '.');
    if parts.len() >= 2 {
        parts[0] + "."@ + parts[1]
    } else {
        trim_start(version, 'v')
    }
}

/// The kernel series of a version, e.g. "v6.13.1" gives "6.13".
pub fn kernel_series(version: &str) -> (r: String)
    ensures
        r@ == spec_series(version@),
{
    let stripped = trim_start_char(version, 'v');
    let parts = split_char(stripped, '.');
    proof {
        assert(parts@.map_values(|p: String| p@).len() == parts@.len());
    }
    if parts.len() >= 2 {
        assert(parts@.map_values(|p: String| p@)[0] == parts@[0]@);
        assert(parts@.map_values(|p: String| p@)[1] == parts@[1]@);
        let mut s = parts[0].clone();
        s.append(".");
        s.append(parts[1].as_str());
        s
    } else {
        String::from_str(stripped)
    }
}

pub open spec fn index_of_version(all: Seq<VersionInfo>, v: Seq<char>) -> int
    decreases all.len(),
{
    if all.len() == 0 {
        -1
    } else if index_of_version(all.drop_last(), v) >= 0 {
        index_of_version(all.drop_last(), v)
    } else if all.last().version@ == v {
        all.len() - 1
    } else {
        -1
    }
}

proof fn lemma_index_of_version(all: Seq<VersionInfo>, v: Seq<char>)
    ensures
        -1 <= index_of_version(all, v) < all.len(),
        index_of_version(all, v) >= 0 ==> all[index_of_version(all, v)].version@ == v,
        forall|k: int| 0 <= k < all.len() && k < index_of_version(all, v) ==> all[k].version@ != v,
        index_of_version(all, v) == -1 ==> forall|k: int| 0 <= k < all.len() ==> all[k].version@ != v,
    decreases all.len(),
{
    if all.len() > 0 {
        lemma_index_of_version(all.drop_last(), v);
        assert forall|k: int| 0 <= k < all.len() - 1 implies all.drop_last()[k] == all[k] by {}
    }
}

/// The version that comes before `version` in its series within `all`
/// (ordered newest first): the first later entry of the same series; failing
/// that, the series' base release "v<major>.<minor>" if `all` lists it.
/// `None` where `version` is absent or has fewer than two pieces.
pub open spec fn spec_previous_version(version: Seq<char>, all: Seq<VersionInfo>) -> Option<
    Seq<char>,
> {
    let idx = index_of_version(all, version);
    let parts = split_parts(trim_start(version, 'v'), '.');
    if idx < 0 || parts.len() < 2 {
        None
    } else if exists|k: int|
        idx < k < all.len() && has_series(#[trigger] all[k].version@, spec_series(version)) {
        let k = choose|k: int|
            idx < k < all.len() && has_series(#[trigger] all[k].version@, spec_series(version))
                && forall|j: int|
                idx < j < k ==> !has_series(#[trigger] all[j].version@, spec_series(version));
        Some(all[k].version@)
    } else if parts.len() > 2 && exists|k: int|
        0 <= k < all.len() && (#[trigger] all[k].version@) == "v"@ + spec_series(version) {
        Some("v"@ + spec_series(version))
    } else {
        None
    }
}

/// Whether a version has at least two pieces and belongs to `series`.
pub open spec fn has_series(v: Seq<char>, series: Seq<char>) -> bool {
    split_parts(trim_start(v, 'v'), '.').len() >= 2 && spec_series(v) == series
}

fn in_series(v: &str, series: &str) -> (r: bool)
    ensures
        r == has_series(v@, series@),
{
    let parts = split_char(trim_start_char(v, 'v'), '.');
    if parts.len() < 2 {
        return false;
    }
    let s = kernel_series(v);
    str_eq(s.as_str(), series)
}

/// Finds the version preceding `version` in its series.
pub fn get_previous_version(version: &str, all_versions: &Vec<VersionInfo>) -> (r: Option<String>)
    ensures
        match spec_previous_version(version@, all_versions@) {
            Some(p) => r is Some && r->Some_0@ == p,
            None => r is None,
        },
{
    proof {
        lemma_index_of_version(all_versions@, version@);
    }
    let n = all_versions.len();
    let mut idx: usize = 0;
    while idx < n && !str_eq(all_versions[idx].version.as_str(), version)
        invariant
            n == all_versions@.len(),
            idx <= n,
            forall|k: int| 0 <= k < idx ==> all_versions@[k].version@ != version@,
        decreases n - idx,
    {
        idx = idx + 1;
    }
    if idx == n {
        assert(index_of_version(all_versions@, version@) == -1);
        return None;
    }
    assert(index_of_version(all_versions@, version@) == idx);
    let parts = split_char(trim_start_char(version, 'v'), '.');
    proof {
        assert(parts@.map_values(|p: String| p@).len() == parts@.len());
    }
    if parts.len() < 2 {
        return None;
    }
    let series = kernel_series(version);
    assert(split_parts(trim_start(version@, 'v'), '.').len() == parts@.len());
    let mut k: usize = idx + 1;
    while k < n
        invariant
            n == all_versions@.len(),
            idx < n,
            idx + 1 <= k <= n,
            series@ == spec_series(version@),
            index_of_version(all_versions@, version@) == idx as int,
            split_parts(trim_start(version@, 'v'), '.').len() == parts@.len(),
            parts@.len() >= 2,
            forall|j: int| idx < j < k ==> !has_series(#[trigger] all_versions@[j].version@, series@),
        decreases n - k,
    {
        if in_series(all_versions[k].version.as_str(), series.as_str()) {
            assert(has_series(all_versions@[k as int].version@, spec_series(version@)));
            let ghost kk = k as int;
            assert(idx < kk < all_versions@.len() && has_series(
                all_versions@[kk].version@,
                spec_series(version@),
            ) && forall|j: int|
                idx < j < kk ==> !has_series(#[trigger] all_versions@[j].version@, spec_series(version@)));
            let ghost chosen = choose|k: int|
                idx < k < all_versions@.len() && has_series(
                    #[trigger] all_versions@[k].version@,
                    spec_series(version@),
                ) && forall|j: int|
                    idx < j < k ==> !has_series(#[trigger] all_versions@[j].version@, spec_series(version@));
            assert(chosen == kk) by {
                if chosen < kk {
                    assert(!has_series(all_versions@[chosen].version@, series@));
                } else if chosen > kk {
                    assert(!has_series(all_versions@[kk].version@, spec_series(version@)));
                }
            }
            return Some(all_versions[k].version.clone());
        }
        k = k + 1;
    }
    if parts.len() > 2 {
        let mut base = String::from_str("v");
        base.append(series.as_str());
        let mut j: usize = 0;
        while j < n
            invariant
                n == all_versions@.len(),
                j <= n,
                idx < n,
                series@ == spec_series(version@),
                base@ == "v"@ + series@,
                index_of_version(all_versions@, version@) == idx as int,
                split_parts(trim_start(version@, 'v'), '.').len() == parts@.len(),
                parts@.len() > 2,
                forall|m: int| idx < m < n ==> !has_series(#[trigger] all_versions@[m].version@, series@),
                forall|m: int| 0 <= m < j ==> all_versions@[m].version@ != base@,
            decreases n - j,
        {
            if str_eq(all_versions[j].version.as_str(), base.as_str()) {
                assert(base@ == "v"@ + spec_series(version@));
                assert(all_versions@[j as int].version@ == "v"@ + spec_series(version@));
                return Some(base);
            }
            j = j + 1;
        }
    }
    None
}

} // verus!
