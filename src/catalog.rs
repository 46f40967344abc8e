use crate::text::{occurs_at, str_eq};
use vstd::prelude::*;

verus! {

/// A well-known source of kernel patches.
#[derive(Clone, Copy)]
pub struct CatalogEntry {
    pub id: &'static str,
    pub name: &'static str,
    pub description: &'static str,
    /// URL with a `{series}` placeholder.
    pub url_template: &'static str,
    /// File name with a `{series}` placeholder.
    pub filename_template: &'static str,
    /// The kernel series the patch applies to, e.g. "6.12".
    pub supported_series: &'static [&'static str],
}

/// `s` with every occurrence of `pat`, read left to right without overlap,
/// replaced by `rep`.
pub open spec fn replace_all(s: Seq<char>, pat: Seq<char>, rep: Seq<char>) -> Seq<char>
    decreases s.len(),
{
    if s.len() == 0 {
        s
    } else if pat.len() > 0 && occurs_at(pat, s, 0) {
        rep + replace_all(s.subrange(pat.len() as int, s.len() as int), pat, rep)
    } else {
        seq![s[0]] + replace_all(s.drop_first(), pat, rep)
    }
}

/// Replaces every `{series}` in a template.
pub fn fill_template(template: &str, series: &str) -> (r: String)
    ensures
        r@ == replace_all(template@, "{series}"@, series@),
{
    let pat = "{series}";
    proof {
        reveal_strlit("{series}");
    }
    let plen = pat.unicode_len();
    let n = template.unicode_len();
    let mut out = String::new();
    let mut i: usize = 0;
    assert(template@.subrange(0, n as int) =~= template@);
    assert(out@ + replace_all(template@, pat@, series@) =~= replace_all(template@, pat@, series@));
    while i < n
        invariant
            n == template@.len(),
            plen == pat@.len(),
            plen == 8,
            i <= n,
            replace_all(template@, pat@, series@) == out@ + replace_all(
                template@.subrange(i as int, n as int),
                pat@,
                series@,
            ),
        decreases n - i,
    {
        let ghost rest = template@.subrange(i as int, n as int);
        if plen <= n - i && str_eq(template.substring_char(i, i + plen), pat) {
            assert(occurs_at(pat@, rest, 0)) by {
                assert(rest.subrange(0, plen as int) =~= template@.subrange(i as int, i + plen));
            }
            assert(rest.subrange(plen as int, rest.len() as int) =~= template@.subrange(
                i + plen,
                n as int,
            ));
            out.append(series);
            i = i + plen;
        } else {
            assert(!occurs_at(pat@, rest, 0)) by {
                if i + plen <= n {
                    assert(rest.subrange(0, plen as int) =~= template@.subrange(i as int, i + plen));
                }
            }
            assert(rest.drop_first() =~= template@.subrange(i + 1, n as int));
            let c = template.substring_char(i, i + 1);
            assert(c@ =~= seq![rest[0]]);
            out.append(c);
            i = i + 1;
        }
    }
    assert(out@ + replace_all(template@.subrange(n as int, n as int), pat@, series@) =~= out@);
    out
}

impl CatalogEntry {
    /// The patch URL for a kernel series.
    pub fn url_for_series(&self, series: &str) -> (r: String)
        ensures
            r@ == replace_all(self.url_template@, "{series}"@, series@),
    {
        fill_template(self.url_template, series)
    }

    /// The file name the patch is saved under for a kernel series.
    pub fn filename_for_series(&self, series: &str) -> (r: String)
        ensures
            r@ == replace_all(self.filename_template@, "{series}"@, series@),
    {
        fill_template(self.filename_template, series)
    }

    pub open spec fn supports(self, series: Seq<char>) -> bool {
        exists|i: int| 0 <= i < self.supported_series@.len() && (#[trigger] self.supported_series@[i])@ == series
    }

    /// Whether the patch applies to a kernel series.
    pub fn supports_series(&self, series: &str) -> (r: bool)
        ensures
            r == self.supports(series@),
    {
        let list = self.supported_series;
        let mut i: usize = 0;
        while i < list.len()
            invariant
                list@ == self.supported_series@,
                i <= list@.len(),
                forall|j: int| 0 <= j < i ==> (#[trigger] list@[j])@ != series@,
            decreases list@.len() - i,
        {
            if str_eq(list[i], series) {
                return true;
            }
            i = i + 1;
        }
        false
    }
}

/// The entries of `entries` that apply to a kernel series, in order.
pub fn entries_for_series(entries: &Vec<CatalogEntry>, series: &str) -> (r: Vec<CatalogEntry>)
    ensures
        r@ == entries@.filter(|e: CatalogEntry| e.supports(series@)),
{
    let mut out: Vec<CatalogEntry> = Vec::new();
    let mut i: usize = 0;
    while i < entries.len()
        invariant
            i <= entries@.len(),
            out@ == entries@.subrange(0, i as int).filter(|e: CatalogEntry| e.supports(series@)),
        decreases entries@.len() - i,
    {
        let ghost pre = entries@.subrange(0, i as int);
        assert(entries@.subrange(0, i + 1) =~= pre.push(entries@[i as int]));
        proof {
            pre.lemma_filter_push(entries@[i as int], |e: CatalogEntry| e.supports(series@));
        }
        let e = entries[i];
        if e.supports_series(series) {
            out.push(e);
        }
        i = i + 1;
    }
    assert(entries@.subrange(0, entries@.len() as int) =~= entries@);
    out
}

/// An entry as plain values: identifier, URL template, file name template,
/// supported series.
pub open spec fn entry_view(e: CatalogEntry) -> (Seq<char>, Seq<char>, Seq<char>, Seq<Seq<char>>) {
    (e.id@, e.url_template@, e.filename_template@, e.supported_series@.map_values(|x: &str| x@))
}

pub open spec fn table_of(s: Seq<CatalogEntry>) -> Seq<(Seq<char>, Seq<char>, Seq<char>, Seq<Seq<char>>)> {
    s.map_values(|e: CatalogEntry| entry_view(e))
}

/// The catalog's entries, in order.
pub open spec fn catalog_table() -> Seq<(Seq<char>, Seq<char>, Seq<char>, Seq<Seq<char>>)> {
    seq![
        ("acs-override"@, "https://raw.githubusercontent.com/benbaker76/linux-acs-override/main/workspaces/{series}/acso.patch"@, "acs-override-{series}.patch"@, seq!["6.10"@, "6.11"@, "6.12"@, "6.13"@]),
        ("bbr3"@, "https://raw.githubusercontent.com/CachyOS/kernel-patches/master/{series}/misc/0001-bbr3.patch"@, "bbr3-{series}.patch"@, seq!["6.11"@, "6.12"@, "6.13"@]),
        ("cachy-fixes"@, "https://raw.githubusercontent.com/CachyOS/kernel-patches/master/{series}/all/0001-cachyos-base-all.patch"@, "cachy-fixes-{series}.patch"@, seq!["6.11"@, "6.12"@, "6.13"@]),
        ("graysky-cpu"@, "https://raw.githubusercontent.com/graysky2/kernel_compiler_patch/master/more-uarches-for-kernel-6.8-rc4%2B.patch"@, "graysky-cpu-{series}.patch"@, seq!["6.8"@, "6.9"@, "6.10"@, "6.11"@, "6.12"@, "6.13"@]),
        ("futex-waitv"@, "https://raw.githubusercontent.com/CachyOS/kernel-patches/master/{series}/misc/0001-futex-Add-entry-point-for-FUTEX_WAIT_MULTIPLE.patch"@, "futex-waitv-{series}.patch"@, seq!["6.10"@, "6.11"@]),
        ("zstd-upstream"@, "https://raw.githubusercontent.com/CachyOS/kernel-patches/master/{series}/misc/0001-zstd.patch"@, "zstd-upstream-{series}.patch"@, seq!["6.11"@, "6.12"@, "6.13"@]),
        ("amd-pstate"@, "https://raw.githubusercontent.com/CachyOS/kernel-patches/master/{series}/misc/0001-amd-pstate.patch"@, "amd-pstate-{series}.patch"@, seq!["6.11"@, "6.12"@, "6.13"@]),
        ("le9"@, "https://raw.githubusercontent.com/CachyOS/kernel-patches/master/{series}/misc/0001-mm-add-le9.patch"@, "le9-{series}.patch"@, seq!["6.10"@, "6.11"@, "6.12"@]),
    ]
}

/// The catalog entries that apply to a kernel series, in catalog order.
pub fn catalog_for_series(series: &str) -> (r: Vec<CatalogEntry>)
    ensures
        exists|all: Seq<CatalogEntry>|
            table_of(all) == catalog_table() && r@ == all.filter(|e: CatalogEntry| e.supports(series@)),
{
    let all = catalog();
    entries_for_series(&all, series)
}

/// The known patch sources.
pub fn catalog() -> (r: Vec<CatalogEntry>)
    ensures
        table_of(r@) == catalog_table(),
{
    let e0 = CatalogEntry {
        id: "acs-override",
        name: "ACS Override Patch",
        description: "Allows IOMMU groups to be split for better VFIO passthrough",
        url_template: "https://raw.githubusercontent.com/benbaker76/linux-acs-override/main/workspaces/{series}/acso.patch",
        filename_template: "acs-override-{series}.patch",
        supported_series: &["6.10", "6.11", "6.12", "6.13"],
    };
    assert(e0.supported_series@.map_values(|x: &str| x@) =~= catalog_table()[0].3);
    assert(entry_view(e0) == catalog_table()[0]);
    let e1 = CatalogEntry {
        id: "bbr3",
        name: "BBRv3 TCP Congestion Control",
        description: "Google's BBRv3 TCP congestion control algorithm",
        url_template: "https://raw.githubusercontent.com/CachyOS/kernel-patches/master/{series}/misc/0001-bbr3.patch",
        filename_template: "bbr3-{series}.patch",
        supported_series: &["6.11", "6.12", "6.13"],
    };
    assert(e1.supported_series@.map_values(|x: &str| x@) =~= catalog_table()[1].3);
    assert(entry_view(e1) == catalog_table()[1]);
    let e2 = CatalogEntry {
        id: "cachy-fixes",
        name: "CachyOS Kernel Fixes",
        description: "Collection of kernel fixes from CachyOS",
        url_template: "https://raw.githubusercontent.com/CachyOS/kernel-patches/master/{series}/all/0001-cachyos-base-all.patch",
        filename_template: "cachy-fixes-{series}.patch",
        supported_series: &["6.11", "6.12", "6.13"],
    };
    assert(e2.supported_series@.map_values(|x: &str| x@) =~= catalog_table()[2].3);
    assert(entry_view(e2) == catalog_table()[2]);
    let e3 = CatalogEntry {
        id: "graysky-cpu",
        name: "Graysky CPU Optimizations",
        description: "Additional CPU compiler optimizations by graysky2",
        url_template: "https://raw.githubusercontent.com/graysky2/kernel_compiler_patch/master/more-uarches-for-kernel-6.8-rc4%2B.patch",
        filename_template: "graysky-cpu-{series}.patch",
        supported_series: &["6.8", "6.9", "6.10", "6.11", "6.12", "6.13"],
    };
    assert(e3.supported_series@.map_values(|x: &str| x@) =~= catalog_table()[3].3);
    assert(entry_view(e3) == catalog_table()[3]);
    let e4 = CatalogEntry {
        id: "futex-waitv",
        name: "Futex2/waitv Backport",
        description: "Backport of futex2 waitv for Steam/Proton compatibility",
        url_template: "https://raw.githubusercontent.com/CachyOS/kernel-patches/master/{series}/misc/0001-futex-Add-entry-point-for-FUTEX_WAIT_MULTIPLE.patch",
        filename_template: "futex-waitv-{series}.patch",
        supported_series: &["6.10", "6.11"],
    };
    assert(e4.supported_series@.map_values(|x: &str| x@) =~= catalog_table()[4].3);
    assert(entry_view(e4) == catalog_table()[4]);
    let e5 = CatalogEntry {
        id: "zstd-upstream",
        name: "ZSTD Upstream Updates",
        description: "Latest upstream ZSTD compression improvements",
        url_template: "https://raw.githubusercontent.com/CachyOS/kernel-patches/master/{series}/misc/0001-zstd.patch",
        filename_template: "zstd-upstream-{series}.patch",
        supported_series: &["6.11", "6.12", "6.13"],
    };
    assert(e5.supported_series@.map_values(|x: &str| x@) =~= catalog_table()[5].3);
    assert(entry_view(e5) == catalog_table()[5]);
    let e6 = CatalogEntry {
        id: "amd-pstate",
        name: "AMD P-State Improvements",
        description: "Enhanced AMD P-State driver patches",
        url_template: "https://raw.githubusercontent.com/CachyOS/kernel-patches/master/{series}/misc/0001-amd-pstate.patch",
        filename_template: "amd-pstate-{series}.patch",
        supported_series: &["6.11", "6.12", "6.13"],
    };
    assert(e6.supported_series@.map_values(|x: &str| x@) =~= catalog_table()[6].3);
    assert(entry_view(e6) == catalog_table()[6]);
    let e7 = CatalogEntry {
        id: "le9",
        name: "le9 OOM Protection",
        description: "Protect the working set under memory pressure",
        url_template: "https://raw.githubusercontent.com/CachyOS/kernel-patches/master/{series}/misc/0001-mm-add-le9.patch",
        filename_template: "le9-{series}.patch",
        supported_series: &["6.10", "6.11", "6.12"],
    };
    assert(e7.supported_series@.map_values(|x: &str| x@) =~= catalog_table()[7].3);
    assert(entry_view(e7) == catalog_table()[7]);
    let v = vec![e0, e1, e2, e3, e4, e5, e6, e7];
    assert(v@ =~= seq![e0, e1, e2, e3, e4, e5, e6, e7]);
    assert(table_of(v@) =~= catalog_table());
    v
}

} // verus!
