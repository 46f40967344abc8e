use crate::paths::{join_path, spec_join};
use crate::payload::{trim_end_all, trim_end_matches};
use crate::text::{contains, contains_seq, ends_with, is_prefix, is_suffix, starts_with, u64_string, decimal};
use vstd::prelude::*;

verus! {

/// The directory holding the user patches of a kernel series inside a
/// linux-tkg checkout, e.g. `<base>/submodules/linux-tkg/linux6.13-tkg-userpatches`.
pub fn get_patch_dir(base_dir: &str, kernel_series: &str) -> (r: String)
    ensures
        r@ == spec_join(
            spec_join(spec_join(base_dir@, "submodules"@), "linux-tkg"@),
            "linux"@ + kernel_series@ + "-tkg-userpatches"@,
        ),
{
    let mut dir_name = String::from_str("linux");
    dir_name.append(kernel_series);
    dir_name.append("-tkg-userpatches");
    let a = join_path(base_dir, "submodules");
    let b = join_path(a.as_str(), "linux-tkg");
    join_path(b.as_str(), dir_name.as_str())
}

/// The part of `s` after its last `c` (all of `s` if it has none).
pub open spec fn after_last(s: Seq<char>, c: char) -> Seq<char>
    decreases s.len(),
{
    if s.len() == 0 {
        s
    } else if s.last() == c {
        seq![]
    } else {
        after_last(s.drop_last(), c).push(s.last())
    }
}

/// The part of `s` after its last `c`.
pub fn after_last_char(s: &str, c: char) -> (r: String)
    ensures
        r@ == after_last(s@, c),
{
    let n = s.unicode_len();
    let mut i: usize = n;
    assert(s@.subrange(0, n as int) =~= s@);
    assert(s@ + s@.subrange(n as int, n as int) =~= s@);
    while i > 0 && s.get_char(i - 1) != c
        invariant
            n == s@.len(),
            i <= n,
            after_last(s@, c) == after_last(s@.subrange(0, i as int), c) + s@.subrange(i as int, n as int),
        decreases i,
    {
        let ghost pre = s@.subrange(0, i as int);
        assert(pre.drop_last() =~= s@.subrange(0, i - 1));
        assert(s@.subrange(i - 1, n as int) =~= seq![pre.last()] + s@.subrange(i as int, n as int));
        i = i - 1;
    }
    proof {
        if i > 0 {
            let pre = s@.subrange(0, i as int);
            assert(pre.last() == c);
        } else {
            assert(s@.subrange(0, 0) =~= Seq::<char>::empty());
        }
        assert(after_last(s@, c) =~= s@.subrange(i as int, n as int));
    }
    String::from_str(s.substring_char(i, n))
}

/// The file name at the end of a URL: what follows its last slash.
pub fn extract_filename_from_url(url: &str) -> (r: String)
    ensures
        r@ == after_last(url@, '/'),
{
    after_last_char(url, '/')
}

/// A patch file of a series' user patch directory.
pub struct PatchEntry {
    pub name: String,
    pub enabled: bool,
    pub path: String,
}

pub open spec fn enabled_name(n: Seq<char>) -> bool {
    is_suffix(".patch"@, n) || is_suffix(".mypatch"@, n)
}

pub open spec fn disabled_name(n: Seq<char>) -> bool {
    is_suffix(".patch.disabled"@, n) || is_suffix(".mypatch.disabled"@, n)
}

/// How a directory entry is listed: a patch, enabled or disabled by its
/// suffix; other files are not listed.
pub fn patch_entry_for(name: &str, path: &str) -> (r: Option<PatchEntry>)
    ensures
        enabled_name(name@) ==> r is Some && r->Some_0.enabled && r->Some_0.name@ == name@
            && r->Some_0.path@ == path@,
        !enabled_name(name@) && disabled_name(name@) ==> r is Some && !r->Some_0.enabled
            && r->Some_0.name@ == name@ && r->Some_0.path@ == path@,
        !enabled_name(name@) && !disabled_name(name@) ==> r is None,
{
    if ends_with(name, ".patch") || ends_with(name, ".mypatch") {
        Some(PatchEntry { name: String::from_str(name), enabled: true, path: String::from_str(path) })
    } else if ends_with(name, ".patch.disabled") || ends_with(name, ".mypatch.disabled") {
        Some(PatchEntry { name: String::from_str(name), enabled: false, path: String::from_str(path) })
    } else {
        None
    }
}

/// Code-point order of strings, which is the order `String` compares in.
pub open spec fn str_le(a: Seq<char>, b: Seq<char>) -> bool
    decreases a.len(),
{
    if a.len() == 0 {
        true
    } else if b.len() == 0 {
        false
    } else if a[0] != b[0] {
        (a[0] as u32) < (b[0] as u32)
    } else {
        str_le(a.drop_first(), b.drop_first())
    }
}

pub open spec fn sorted_by_name(s: Seq<PatchEntry>) -> bool {
    forall|i: int, j: int| 0 <= i < j < s.len() ==> str_le((#[trigger] s[i]).name@, (#[trigger] s[j]).name@)
}

/// Relies on `slice::sort_by` with `String::cmp` on the names, which orders
/// strings by their characters' code points.
#[verifier::external_body]
fn sort_by_name(v: &mut Vec<PatchEntry>)
    ensures
        final(v)@.to_multiset() == old(v)@.to_multiset(),
        sorted_by_name(final(v)@),
{
    v.sort_by(|a, b| a.name.cmp(&b.name));
}

pub open spec fn entry_of(f: (Seq<char>, Seq<char>)) -> Option<(Seq<char>, bool)> {
    if enabled_name(f.0) {
        Some((f.0, true))
    } else if disabled_name(f.0) {
        Some((f.0, false))
    } else {
        None
    }
}

/// A patch entry as plain values: name, enabled, path.
pub open spec fn patch_view(e: PatchEntry) -> (Seq<char>, bool, Seq<char>) {
    (e.name@, e.enabled, e.path@)
}

pub open spec fn patch_views(s: Seq<PatchEntry>) -> Seq<(Seq<char>, bool, Seq<char>)> {
    s.map_values(|e: PatchEntry| patch_view(e))
}

/// The patch files of a listing of (name, path) pairs, in listing order.
pub open spec fn listed_patches(files: Seq<(String, String)>) -> Seq<(Seq<char>, bool, Seq<char>)>
    decreases files.len(),
{
    if files.len() == 0 {
        seq![]
    } else {
        let rest = listed_patches(files.drop_last());
        let f = files.last();
        match entry_of((f.0@, f.1@)) {
            Some((name, enabled)) => rest.push((name, enabled, f.1@)),
            None => rest,
        }
    }
}

/// Mapping two sequences with the same multiset of items gives sequences
/// with the same multiset of images.
pub proof fn lemma_map_values_multiset<A, B>(a: Seq<A>, b: Seq<A>, f: spec_fn(A) -> B)
    requires
        a.to_multiset() == b.to_multiset(),
    ensures
        a.map_values(f).to_multiset() == b.map_values(f).to_multiset(),
    decreases a.len(),
{
    broadcast use vstd::multiset::group_multiset_axioms;

    if a.len() == 0 {
        vstd::seq_lib::to_multiset_len(a);
        vstd::seq_lib::to_multiset_len(b);
        assert(a.map_values(f) =~= seq![]);
        assert(b.map_values(f) =~= seq![]);
    } else {
        let x = a.last();
        let a1 = a.drop_last();
        assert(a =~= a1.push(x));
        vstd::seq_lib::to_multiset_build(a1, x);
        vstd::seq_lib::to_multiset_contains(a, x);
        assert(a.contains(x)) by {
            assert(a[a.len() - 1] == x);
        }
        vstd::seq_lib::to_multiset_contains(b, x);
        let k = choose|k: int| 0 <= k < b.len() && b[k] == x;
        let b1 = b.remove(k);
        vstd::seq_lib::to_multiset_remove(b, k);
        assert(a1.to_multiset() =~= b1.to_multiset());
        lemma_map_values_multiset(a1, b1, f);
        assert(a.map_values(f) =~= a1.map_values(f).push(f(x)));
        vstd::seq_lib::to_multiset_build(a1.map_values(f), f(x));
        assert(b.map_values(f) =~= b1.map_values(f).insert(k, f(x)));
        vstd::seq_lib::to_multiset_insert(b1.map_values(f), k, f(x));
    }
}

/// The patch entries of a directory listing of (name, path) pairs: exactly
/// the files named as patches, enabled or disabled, in name order.
pub fn list_patches(files: &Vec<(String, String)>) -> (r: Vec<PatchEntry>)
    ensures
        sorted_by_name(r@),
        patch_views(r@).to_multiset() == listed_patches(files@).to_multiset(),
{
    let mut out: Vec<PatchEntry> = Vec::new();
    let mut i: usize = 0;
    while i < files.len()
        invariant
            i <= files@.len(),
            patch_views(out@) == listed_patches(files@.subrange(0, i as int)),
        decreases files@.len() - i,
    {
        assert(files@.subrange(0, i + 1).drop_last() =~= files@.subrange(0, i as int));
        assert(files@.subrange(0, i + 1).last() == files@[i as int]);
        let ghost before = patch_views(out@);
        match patch_entry_for(files[i].0.as_str(), files[i].1.as_str()) {
            Some(e) => {
                out.push(e);
                assert(patch_views(out@) =~= before.push(patch_view(e)));
            },
            None => {},
        }
        i = i + 1;
    }
    assert(files@.subrange(0, files@.len() as int) =~= files@);
    let ghost unsorted = out@;
    sort_by_name(&mut out);
    proof {
        lemma_map_values_multiset(unsorted, out@, |e: PatchEntry| patch_view(e));
        assert(patch_views(unsorted) =~= unsorted.map_values(|e: PatchEntry| patch_view(e)));
        assert(patch_views(out@) =~= out@.map_values(|e: PatchEntry| patch_view(e)));
    }
    out
}

/// Where a patch file moves when toggled: an enabled patch gains the
/// `.disabled` suffix, a disabled one loses every trailing `.disabled`.
pub open spec fn spec_toggled_path(enabled: bool, path: Seq<char>) -> Seq<char> {
    if enabled {
        path + ".disabled"@
    } else {
        trim_end_all(path, ".disabled"@)
    }
}

impl PatchEntry {
    /// A listed patch: an enabled one has a patch suffix.
    pub open spec fn wf(&self) -> bool {
        self.enabled ==> enabled_name(self.path@)
    }

    /// The path this patch moves to when toggled.
    pub fn toggled_path(&self) -> (r: String)
        ensures
            r@ == spec_toggled_path(self.enabled, self.path@),
    {
        if self.enabled {
            let mut p = String::from_str(self.path.as_str());
            p.append(".disabled");
            p
        } else {
            trim_end_matches(self.path.as_str(), ".disabled")
        }
    }

    /// Records a toggle once the file has been moved to `new_path`.
    pub fn apply_toggle(&mut self, new_path: String)
        ensures
            final(self).enabled == !old(self).enabled,
            final(self).name@ == after_last(new_path@, '/'),
            final(self).path == new_path,
    {
        self.name = after_last_char(new_path.as_str(), '/');
        self.path = new_path;
        self.enabled = !self.enabled;
    }
}

/// A temporary working directory, removed on exit unless kept.
pub struct WorkDir {
    pub path: String,
    pub keep: bool,
}

impl WorkDir {
    /// The working directory of process `pid` under the temporary directory.
    pub fn new(temp_dir: &str, pid: u32) -> (r: WorkDir)
        ensures
            r.path@ == spec_join(temp_dir@, "tkg-gui-"@ + decimal(pid as nat)),
            !r.keep,
    {
        let mut name = String::from_str("tkg-gui-");
        name.append(u64_string(pid as u64).as_str());
        WorkDir { path: join_path(temp_dir, name.as_str()), keep: false }
    }

    pub fn root(&self) -> (r: &str)
        ensures
            r@ == self.path@,
    {
        self.path.as_str()
    }

    /// Where the linux-tkg working copy goes.
    pub fn linux_tkg(&self) -> (r: String)
        ensures
            r@ == spec_join(self.path@, "linux-tkg"@),
    {
        join_path(self.path.as_str(), "linux-tkg")
    }

    /// Where downloaded kernel sources go.
    pub fn kernel_sources(&self) -> (r: String)
        ensures
            r@ == spec_join(self.path@, "kernel-sources"@),
    {
        join_path(self.path.as_str(), "kernel-sources")
    }

    pub fn set_keep(&mut self, keep: bool)
        ensures
            final(self).keep == keep,
            final(self).path == old(self).path,
    {
        self.keep = keep;
    }

    /// The file whose presence shows the linux-tkg working copy is ready.
    pub fn linux_tkg_marker(&self) -> (r: String)
        ensures
            r@ == spec_join(spec_join(self.path@, "linux-tkg"@), "customization.cfg"@),
    {
        let a = self.linux_tkg();
        join_path(a.as_str(), "customization.cfg")
    }

    /// Whether the directory is removed when the application exits.
    pub fn removed_on_exit(&self) -> (r: bool)
        ensures
            r == !self.keep,
    {
        !self.keep
    }
}

/// Where the checkouts live.
pub struct AppSettings {
    pub linux_tkg_path: String,
    pub wine_tkg_path: String,
}

pub open spec fn spec_data_dir(home: Seq<char>) -> Seq<char> {
    spec_join(spec_join(spec_join(home, ".local"@), "share"@), "tkg-gui"@)
}

/// The default linux-tkg checkout of `home`.
pub fn default_linux_tkg_path(home: &str) -> (r: String)
    ensures
        r@ == spec_join(spec_data_dir(home@), "linux-tkg"@),
{
    let d = AppSettings::data_dir(home);
    join_path(d.as_str(), "linux-tkg")
}

/// The default wine-tkg checkout of `home`.
pub fn default_wine_tkg_path(home: &str) -> (r: String)
    ensures
        r@ == spec_join(spec_data_dir(home@), "wine-tkg-git"@),
{
    let d = AppSettings::data_dir(home);
    join_path(d.as_str(), "wine-tkg-git")
}

impl AppSettings {
    /// The default checkouts under the data directory of `home`.
    pub fn defaults(home: &str) -> (r: AppSettings)
        ensures
            r.linux_tkg_path@ == spec_join(spec_data_dir(home@), "linux-tkg"@),
            r.wine_tkg_path@ == spec_join(spec_data_dir(home@), "wine-tkg-git"@),
    {
        AppSettings {
            linux_tkg_path: default_linux_tkg_path(home),
            wine_tkg_path: default_wine_tkg_path(home),
        }
    }

    /// The configuration directory, `<home>/.config/tkg-gui`.
    pub fn config_dir(home: &str) -> (r: String)
        ensures
            r@ == spec_join(spec_join(home@, ".config"@), "tkg-gui"@),
    {
        let a = join_path(home, ".config");
        join_path(a.as_str(), "tkg-gui")
    }

    /// The data directory, `<home>/.local/share/tkg-gui`.
    pub fn data_dir(home: &str) -> (r: String)
        ensures
            r@ == spec_data_dir(home@),
    {
        let a = join_path(home, ".local");
        let b = join_path(a.as_str(), "share");
        join_path(b.as_str(), "tkg-gui")
    }

    /// The file whose presence shows linux-tkg is cloned.
    pub fn linux_tkg_marker(&self) -> (r: String)
        ensures
            r@ == spec_join(self.linux_tkg_path@, "customization.cfg"@),
    {
        join_path(self.linux_tkg_path.as_str(), "customization.cfg")
    }

    /// The file whose presence shows wine-tkg is cloned.
    pub fn wine_tkg_marker(&self) -> (r: String)
        ensures
            r@ == spec_join(spec_join(self.wine_tkg_path@, "wine-tkg-git"@), "customization.cfg"@),
    {
        crate::wine_config::wine_config_path(self.wine_tkg_path.as_str())
    }
}

/// How a line of build output is shown.
#[derive(PartialEq, Eq, Structural, Clone, Copy)]
pub enum LogLevel {
    Normal,
    Stage,
    Warning,
    Error,
    Input,
}

pub open spec fn spec_classify_line(t: Seq<char>) -> LogLevel {
    if is_prefix("==>"@, t) {
        LogLevel::Stage
    } else if contains_seq(t, "warning:"@) || contains_seq(t, "WARNING"@) {
        LogLevel::Warning
    } else if contains_seq(t, "error:"@) || contains_seq(t, "ERROR"@) || contains_seq(t, "FAILED"@) {
        LogLevel::Error
    } else {
        LogLevel::Normal
    }
}

/// Classifies a line of build output: a stage header, a warning, an error,
/// or plain output.
pub fn classify_line(text: &str) -> (r: LogLevel)
    ensures
        r == spec_classify_line(text@),
{
    if starts_with(text, "==>") {
        LogLevel::Stage
    } else if contains(text, "warning:") || contains(text, "WARNING") {
        LogLevel::Warning
    } else if contains(text, "error:") || contains(text, "ERROR") || contains(text, "FAILED") {
        LogLevel::Error
    } else {
        LogLevel::Normal
    }
}

/// The top-level views of the front end.
#[derive(PartialEq, Eq, Structural, Clone, Copy)]
pub enum Tab {
    Kernel,
    Config,
    Patches,
    Build,
    Settings,
}

/// The build command for a checkout: `makepkg -si` where the configured
/// distribution is Arch, the generic install script otherwise.
pub fn build_command(distro: Option<String>) -> (r: (&'static str, &'static str))
    ensures
        (distro is Some && distro->Some_0@ == "Arch"@) ==> r.0@ == "makepkg"@ && r.1@ == "-si"@,
        !(distro is Some && distro->Some_0@ == "Arch"@) ==> r.0@ == "./install.sh"@ && r.1@
            == "install"@,
{
    let arch = match &distro {
        Some(d) => crate::text::str_eq(d.as_str(), "Arch"),
        None => false,
    };
    if arch {
        ("makepkg", "-si")
    } else {
        ("./install.sh", "install")
    }
}

} // verus!
