use crate::config::{
    lines_view, pairs_view, spec_all_options, spec_set_option, unique_keys, upsert, upsert_pair,
    rendered, ConfigManager, LineView,
};
use crate::download::DownloadProgress;
use crate::kernel::{parse_u64, spec_parse_u64, DownloadResult};
use crate::freshness::{find_key, meta_key, PatchMeta, PatchRegistry, UpdateStatus};
use crate::layout::{after_last, after_last_char, AppSettings, PatchEntry};
use crate::payload::DownloadInfo;
use crate::text::{is_prefix, starts_with, str_eq};
use crate::versions::{kernel_series, spec_series};
use vstd::prelude::*;

verus! {

/// The option values of the configuration view, with whether they have
/// unsaved changes and what the last load or save reported.
pub struct ConfigTab {
    pub values: Vec<(String, String)>,
    pub loaded: bool,
    pub dirty: bool,
    pub status: String,
    pub config_path: Option<String>,
}

pub open spec fn with_v(version: Seq<char>) -> Seq<char> {
    if is_prefix("v"@, version) {
        version
    } else {
        "v"@ + version
    }
}

fn get_value(values: &Vec<(String, String)>, key: &str) -> (r: Option<String>)
    requires
        unique_keys(pairs_view(values@)),
    ensures
        match r {
            Some(v) => exists|i: int|
                0 <= i < values@.len() && (#[trigger] pairs_view(values@)[i]) == (key@, v@),
            None => forall|i: int| 0 <= i < values@.len() ==> (#[trigger] pairs_view(values@)[i]).0 != key@,
        },
{
    let ghost m = pairs_view(values@);
    let mut i: usize = 0;
    while i < values.len()
        invariant
            i <= values@.len(),
            m == pairs_view(values@),
            forall|j: int| 0 <= j < i ==> (#[trigger] m[j]).0 != key@,
        decreases values@.len() - i,
    {
        if str_eq(values[i].0.as_str(), key) {
            let v = values[i].1.clone();
            assert(m[i as int] == (key@, v@));
            return Some(v);
        }
        i = i + 1;
    }
    None
}

impl ConfigTab {
    pub open spec fn wf(&self) -> bool {
        unique_keys(pairs_view(self.values@))
    }

    pub fn new() -> (r: ConfigTab)
        ensures
            r.wf(),
            r.values@.len() == 0,
            !r.loaded,
            !r.dirty,
    {
        ConfigTab {
            values: Vec::new(),
            loaded: false,
            dirty: false,
            status: String::new(),
            config_path: None,
        }
    }

    /// Sets the kernel version option, with the `v` prefix that linux-tkg
    /// expects added where missing.
    pub fn set_version(&mut self, version: &str)
        requires
            old(self).wf(),
        ensures
            final(self).wf(),
            final(self).dirty,
            pairs_view(final(self).values@) == upsert(
                pairs_view(old(self).values@),
                "_version"@,
                with_v(version@),
            ),
    {
        let v = if starts_with(version, "v") {
            String::from_str(version)
        } else {
            let mut s = String::from_str("v");
            s.append(version);
            s
        };
        upsert_pair(&mut self.values, "_version", v.as_str());
        self.dirty = true;
    }

    /// The kernel version option, if set.
    pub fn get_version(&self) -> (r: Option<String>)
        requires
            self.wf(),
        ensures
            match r {
                Some(v) => exists|i: int|
                    0 <= i < self.values@.len() && (#[trigger] pairs_view(self.values@)[i]) == (
                        "_version"@,
                        v@,
                    ),
                None => forall|i: int|
                    0 <= i < self.values@.len() ==> (#[trigger] pairs_view(self.values@)[i]).0
                        != "_version"@,
            },
    {
        get_value(&self.values, "_version")
    }

    /// Takes in the outcome of loading the configuration at `path`: on
    /// success every option is taken over and the view is clean; on failure
    /// only the status changes.
    pub fn load_config(&mut self, path: &str, loaded: Result<ConfigManager, String>)
        ensures
            match loaded {
                Ok(m) => {
                    &&& pairs_view(final(self).values@) == spec_all_options(lines_view(m.lines@))
                    &&& final(self).wf()
                    &&& final(self).loaded
                    &&& !final(self).dirty
                    &&& final(self).config_path is Some
                    &&& final(self).config_path->Some_0@ == path@
                    &&& final(self).status@ == "Config loaded"@
                },
                Err(e) => {
                    &&& final(self).values == old(self).values
                    &&& final(self).loaded == old(self).loaded
                    &&& final(self).dirty == old(self).dirty
                    &&& final(self).status@ == "Error loading config: "@ + e@
                },
            },
    {
        match loaded {
            Ok(manager) => {
                self.values = manager.get_all_options();
                self.loaded = true;
                self.dirty = false;
                self.config_path = Some(String::from_str(path));
                self.status = String::from_str("Config loaded");
            },
            Err(e) => {
                let mut s = String::from_str("Error loading config: ");
                s.append(e.as_str());
                self.status = s;
            },
        }
    }

    /// Writes every option of the view, in order, into a freshly loaded
    /// configuration, whose text is then what gets saved.
    pub fn merge_into(&self, manager: &mut ConfigManager)
        ensures
            final(manager).path == old(manager).path,
            lines_view(final(manager).lines@) == merged(
                lines_view(old(manager).lines@),
                pairs_view(self.values@),
            ),
    {
        let ghost vals = pairs_view(self.values@);
        let mut i: usize = 0;
        while i < self.values.len()
            invariant
                i <= self.values@.len(),
                vals == pairs_view(self.values@),
                manager.path == old(manager).path,
                lines_view(manager.lines@) == merged(
                    lines_view(old(manager).lines@),
                    vals.subrange(0, i as int),
                ),
            decreases self.values@.len() - i,
        {
            assert(vals.subrange(0, i + 1).drop_last() =~= vals.subrange(0, i as int));
            assert(vals.subrange(0, i + 1).last() == vals[i as int]);
            manager.set_option(self.values[i].0.as_str(), self.values[i].1.as_str());
            i = i + 1;
        }
        assert(vals.subrange(0, vals.len() as int) =~= vals);
    }

    /// Prepares a save into the configuration as freshly loaded: the path
    /// and the text to write, with every option of the view set. A load
    /// error is reported in the status and nothing is written.
    pub fn save_config(&mut self, loaded: Result<ConfigManager, String>) -> (r: Option<(String, String)>)
        ensures
            final(self).values == old(self).values,
            final(self).dirty == old(self).dirty,
            match loaded {
                Ok(m) => r is Some && r->Some_0.0@ == m.path@ && r->Some_0.1@ == rendered(
                    merged(lines_view(m.lines@), pairs_view(old(self).values@)),
                ),
                Err(e) => r is None && final(self).status@ == "Error: "@ + e@,
            },
    {
        match loaded {
            Ok(mut manager) => {
                self.merge_into(&mut manager);
                let content = manager.render();
                Some((manager.path, content))
            },
            Err(e) => {
                let mut s = String::from_str("Error: ");
                s.append(e.as_str());
                self.status = s;
                None
            },
        }
    }

    /// Takes in the outcome of a save: success leaves the view clean.
    pub fn saved(&mut self, outcome: Result<(), String>)
        ensures
            outcome is Ok ==> !final(self).dirty && final(self).status@ == "Config saved"@,
            outcome is Err ==> final(self).dirty == old(self).dirty && final(self).status@
                == "Error saving: "@ + outcome->Err_0@,
            final(self).values == old(self).values,
    {
        match outcome {
            Ok(()) => {
                self.dirty = false;
                self.status = String::from_str("Config saved");
            },
            Err(e) => {
                let mut s = String::from_str("Error saving: ");
                s.append(e.as_str());
                self.status = s;
            },
        }
    }
}

/// Where a pending download came from.
pub struct PendingDownload {
    pub url: String,
    pub catalog_id: Option<String>,
}

fn copy_text(o: &Option<String>) -> (r: Option<String>)
    ensures
        r == *o,
{
    match o {
        Some(s) => Some(s.clone()),
        None => None,
    }
}

fn copy_status(s: &UpdateStatus) -> (r: UpdateStatus)
    ensures
        r == *s,
{
    match s {
        UpdateStatus::Unknown => UpdateStatus::Unknown,
        UpdateStatus::UpToDate => UpdateStatus::UpToDate,
        UpdateStatus::Stale => UpdateStatus::Stale,
        UpdateStatus::CheckError(e) => UpdateStatus::CheckError(e.clone()),
    }
}

/// An identical copy of a record.
pub fn copy_meta(m: &PatchMeta) -> (r: PatchMeta)
    ensures
        r == *m,
{
    PatchMeta {
        filename: m.filename.clone(),
        kernel_series: m.kernel_series.clone(),
        source_url: copy_text(&m.source_url),
        catalog_id: copy_text(&m.catalog_id),
        sha256: m.sha256.clone(),
        downloaded_at: m.downloaded_at,
        etag: copy_text(&m.etag),
        last_modified: copy_text(&m.last_modified),
        update_status: copy_status(&m.update_status),
    }
}

/// The registry record of a finished download: named by the last component
/// of the written path, filed under `series`, with the source it came from,
/// its hash and markers, taken `now`, and up to date.
pub fn record_for_download(
    info: DownloadInfo,
    series: &str,
    pending: &Option<PendingDownload>,
    now: i64,
) -> (r: PatchMeta)
    ensures
        r.filename@ == after_last(info.path@, '/'),
        r.kernel_series@ == series@,
        r.source_url == match pending {
            Some(p) => Some(p.url),
            None => None::<String>,
        },
        r.catalog_id == match pending {
            Some(p) => p.catalog_id,
            None => None::<String>,
        },
        r.sha256 == info.sha256,
        r.downloaded_at == now,
        r.etag == info.etag,
        r.last_modified == info.last_modified,
        r.update_status == UpdateStatus::UpToDate,
{
    let (source_url, catalog_id) = match pending {
        Some(p) => (Some(p.url.clone()), copy_text(&p.catalog_id)),
        None => (None, None),
    };
    PatchMeta {
        filename: after_last_char(info.path.as_str(), '/'),
        kernel_series: String::from_str(series),
        source_url,
        catalog_id,
        sha256: info.sha256,
        downloaded_at: now,
        etag: info.etag,
        last_modified: info.last_modified,
        update_status: UpdateStatus::UpToDate,
    }
}

/// The records to probe for the listed patches of `series`: each listed
/// patch's record, in listing order. Records without a source URL are kept,
/// so that their probe reports that no URL is known.
pub open spec fn spec_probe_targets(
    records: Seq<PatchMeta>,
    series: Seq<char>,
    listed: Seq<PatchEntry>,
) -> Seq<PatchMeta>
    decreases listed.len(),
{
    if listed.len() == 0 {
        seq![]
    } else {
        let rest = spec_probe_targets(records, series, listed.drop_last());
        let i = find_key(records, meta_key(series, listed.last().name@));
        if i >= 0 {
            rest.push(records[i])
        } else {
            rest
        }
    }
}

/// Selects the records to probe in one batch: one per listed patch that
/// has a record.
pub fn probe_targets(registry: &PatchRegistry, series: &str, listed: &Vec<PatchEntry>) -> (r: Vec<PatchMeta>)
    ensures
        r@ == spec_probe_targets(registry.patches@, series@, listed@),
{
    let mut out: Vec<PatchMeta> = Vec::new();
    let mut i: usize = 0;
    while i < listed.len()
        invariant
            i <= listed@.len(),
            out@ == spec_probe_targets(registry.patches@, series@, listed@.subrange(0, i as int)),
        decreases listed@.len() - i,
    {
        assert(listed@.subrange(0, i + 1).drop_last() =~= listed@.subrange(0, i as int));
        assert(listed@.subrange(0, i + 1).last() == listed@[i as int]);
        match registry.get(series, listed[i].name.as_str()) {
            Some(m) => {
                out.push(copy_meta(m));
            },
            None => {},
        }
        i = i + 1;
    }
    assert(listed@.subrange(0, listed@.len() as int) =~= listed@);
    out
}

/// The lines after setting each pair in order.
pub open spec fn merged(s: Seq<LineView>, vals: Seq<(Seq<char>, Seq<char>)>) -> Seq<LineView>
    decreases vals.len(),
{
    if vals.len() == 0 {
        s
    } else {
        spec_set_option(merged(s, vals.drop_last()), vals.last().0, vals.last().1)
    }
}

/// The selection of the kernel view.
pub struct KernelTab {
    pub selected: Option<String>,
}

impl KernelTab {
    pub fn get_selected_version(&self) -> (r: Option<String>)
        ensures
            r == self.selected,
    {
        match &self.selected {
            Some(s) => Some(s.clone()),
            None => None,
        }
    }

    /// The series of the selected version, e.g. "v6.13.1" gives "6.13".
    pub fn get_kernel_series(&self) -> (r: Option<String>)
        ensures
            match self.selected {
                Some(v) => r is Some && r->Some_0@ == spec_series(v@),
                None => r is None,
            },
    {
        match &self.selected {
            Some(v) => Some(kernel_series(v.as_str())),
            None => None,
        }
    }
}

/// The editable settings of the settings view.
pub struct SettingsTab {
    pub path_input: String,
}

impl SettingsTab {
    /// Shows the current linux-tkg location in the path field.
    pub fn sync_from_settings(&mut self, settings: &AppSettings)
        ensures
            final(self).path_input@ == settings.linux_tkg_path@,
    {
        self.path_input = settings.linux_tkg_path.clone();
    }
}

/// Whether a kernel archive can be fetched and how large it is, from the
/// status and the Content-Length of a metadata-only request.
pub fn availability(status: u16, content_length: Option<&str>) -> (r: (bool, Option<u64>))
    ensures
        r.0 == (status == 200),
        r.1 == match content_length {
            Some(s) => spec_parse_u64(s@),
            None => None,
        },
{
    let size = match content_length {
        Some(s) => parse_u64(s),
        None => None,
    };
    (status == 200, size)
}

/// The step of a kernel download that failed.
#[derive(PartialEq, Eq, Structural, Clone, Copy)]
pub enum DownloadStep {
    CreateDir,
    Request,
    CreateFile,
    Read,
    Write,
    OpenArchive,
    Unpack,
}

pub open spec fn step_prefix(s: DownloadStep) -> Seq<char> {
    match s {
        DownloadStep::CreateDir => "Failed to create destination directory: "@,
        DownloadStep::Request => "Failed to download: "@,
        DownloadStep::CreateFile => "Failed to create file: "@,
        DownloadStep::Read => "Failed to read: "@,
        DownloadStep::Write => "Failed to write: "@,
        DownloadStep::OpenArchive => "Failed to open tarball: "@,
        DownloadStep::Unpack => "Failed to extract tarball: "@,
    }
}

/// The message of a failed step, with the cause.
pub fn step_error(step: DownloadStep, cause: &str) -> (r: String)
    ensures
        r@ == step_prefix(step) + cause@,
{
    let mut s = match step {
        DownloadStep::CreateDir => String::from_str("Failed to create destination directory: "),
        DownloadStep::Request => String::from_str("Failed to download: "),
        DownloadStep::CreateFile => String::from_str("Failed to create file: "),
        DownloadStep::Read => String::from_str("Failed to read: "),
        DownloadStep::Write => String::from_str("Failed to write: "),
        DownloadStep::OpenArchive => String::from_str("Failed to open tarball: "),
        DownloadStep::Unpack => String::from_str("Failed to extract tarball: "),
    };
    s.append(cause);
    s
}

/// The final message and result of a kernel download: the unpacked
/// directory, or the error, reported the same way on both.
pub fn download_outcome(outcome: Result<String, String>) -> (r: (DownloadProgress, DownloadResult))
    ensures
        match outcome {
            Ok(p) => r.0 == DownloadProgress::Complete(p) && r.1 == DownloadResult::Success(p),
            Err(e) => r.0 == DownloadProgress::Error(e) && r.1 == DownloadResult::Error(e),
        },
{
    match outcome {
        Ok(p) => (DownloadProgress::Complete(p.clone()), DownloadResult::Success(p)),
        Err(e) => (DownloadProgress::Error(e.clone()), DownloadResult::Error(e)),
    }
}

/// The arguments of a shallow clone of `url` into `dest`.
pub fn clone_args(url: &str, dest: &str) -> (r: Vec<String>)
    ensures
        r@.len() == 4,
        r@[0]@ == "clone"@,
        r@[1]@ == "--depth=1"@,
        r@[2]@ == url@,
        r@[3]@ == dest@,
{
    let mut v: Vec<String> = Vec::new();
    v.push(String::from_str("clone"));
    v.push(String::from_str("--depth=1"));
    v.push(String::from_str(url));
    v.push(String::from_str(dest));
    v
}

/// The spawn error reported when a destination's parent cannot be created.
pub fn parent_creation_error(parent: &str, cause: &str) -> (r: String)
    ensures
        r@ == "Failed to create directory "@ + parent@ + ": "@ + cause@,
{
    let mut s = String::from_str("Failed to create directory ");
    s.append(parent);
    s.append(": ");
    s.append(cause);
    s
}

/// The spawn error reported when a program cannot be started.
pub fn spawn_error(program: &str, cause: &str) -> (r: String)
    ensures
        r@ == "Failed to spawn "@ + program@ + ": "@ + cause@,
{
    let mut s = String::from_str("Failed to spawn ");
    s.append(program);
    s.append(": ");
    s.append(cause);
    s
}

} // verus!
