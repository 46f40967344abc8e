use crate::text::str_eq;
use vstd::prelude::*;

verus! {

/// Last known staleness classification of a downloaded resource.
pub enum UpdateStatus {
    Unknown,
    UpToDate,
    Stale,
    CheckError(String),
}

/// Everything remembered about one downloaded patch.
pub struct PatchMeta {
    pub filename: String,
    pub kernel_series: String,
    pub source_url: Option<String>,
    pub catalog_id: Option<String>,
    pub sha256: String,
    /// Seconds since the Unix epoch, UTC.
    pub downloaded_at: i64,
    pub etag: Option<String>,
    pub last_modified: Option<String>,
    pub update_status: UpdateStatus,
}

/// The freshness markers returned by a metadata-only request.
pub struct FreshnessMarkers {
    pub etag: Option<String>,
    pub last_modified: Option<String>,
}

/// The result of one probe, keyed by the record's key.
pub enum UpdateCheckResult {
    UpToDate { key: String },
    Stale { key: String },
    Error { key: String, reason: String },
    NoUrl { key: String },
}

/// The registry key of a record: series, a slash, file name.
pub open spec fn meta_key(series: Seq<char>, filename: Seq<char>) -> Seq<char> {
    series + "/"@ + filename
}

pub open spec fn key_of(m: PatchMeta) -> Seq<char> {
    meta_key(m.kernel_series@, m.filename@)
}

fn compose_key(series: &str, filename: &str) -> (r: String)
    ensures
        r@ == meta_key(series@, filename@),
{
    let mut k = String::from_str(series);
    k.append("/");
    k.append(filename);
    k
}

impl PatchMeta {
    pub fn key(&self) -> (r: String)
        ensures
            r@ == key_of(*self),
    {
        compose_key(self.kernel_series.as_str(), self.filename.as_str())
    }
}

/// A marker counts as changed when it differs from the remembered one, or
/// appears where none was remembered. A marker that disappears is no change.
pub open spec fn changed(old: Option<String>, new: Option<String>) -> bool {
    match (old, new) {
        (Some(o), Some(n)) => o@ != n@,
        (None, Some(_)) => true,
        _ => false,
    }
}

pub fn marker_changed(old: &Option<String>, new: &Option<String>) -> (r: bool)
    ensures
        r == changed(*old, *new),
{
    match (old, new) {
        (Some(o), Some(n)) => !str_eq(o.as_str(), n.as_str()),
        (None, Some(_)) => true,
        _ => false,
    }
}

/// Whether a probe that returned `m` classifies the record as stale.
pub open spec fn probe_stale(meta: PatchMeta, m: FreshnessMarkers) -> bool {
    changed(meta.etag, m.etag) || changed(meta.last_modified, m.last_modified)
}

/// Classifies one probe of `meta`'s source. `response` is what the
/// metadata-only request returned; it is not looked at when the record has no
/// source URL, since then no request is made.
pub fn check_update(meta: &PatchMeta, response: Result<FreshnessMarkers, String>) -> (r:
    UpdateCheckResult)
    ensures
        meta.source_url is None ==> r is NoUrl && r->NoUrl_key@ == key_of(*meta),
        meta.source_url is Some ==> match response {
            Err(e) => r is Error && r->Error_key@ == key_of(*meta) && r->Error_reason == e,
            Ok(m) => if probe_stale(*meta, m) {
                r is Stale && r->Stale_key@ == key_of(*meta)
            } else {
                r is UpToDate && r->UpToDate_key@ == key_of(*meta)
            },
        },
{
    let key = meta.key();
    if meta.source_url.is_none() {
        return UpdateCheckResult::NoUrl { key };
    }
    match response {
        Err(reason) => UpdateCheckResult::Error { key, reason },
        Ok(m) => {
            let etag_changed = marker_changed(&meta.etag, &m.etag);
            let modified_changed = marker_changed(&meta.last_modified, &m.last_modified);
            if etag_changed || modified_changed {
                UpdateCheckResult::Stale { key }
            } else {
                UpdateCheckResult::UpToDate { key }
            }
        },
    }
}

/// Probing twice while the remote markers stay those remembered gives
/// "up to date" both times; once either marker changes to another present
/// value, the next probe gives "stale".
pub proof fn lemma_probe_idempotent(meta: PatchMeta, first: FreshnessMarkers, second: FreshnessMarkers)
    requires
        first.etag == meta.etag,
        first.last_modified == meta.last_modified,
    ensures
        !probe_stale(meta, first),
        (second.etag == first.etag && second.last_modified == first.last_modified) ==> !probe_stale(
            meta,
            second,
        ),
        (second.etag is Some && changed(first.etag, second.etag)) ==> probe_stale(meta, second),
        (second.last_modified is Some && changed(first.last_modified, second.last_modified))
            ==> probe_stale(meta, second),
{
}

/// The status that a probe result records.
pub open spec fn status_for(r: UpdateCheckResult) -> UpdateStatus {
    match r {
        UpdateCheckResult::UpToDate { .. } => UpdateStatus::UpToDate,
        UpdateCheckResult::Stale { .. } => UpdateStatus::Stale,
        UpdateCheckResult::Error { reason, .. } => UpdateStatus::CheckError(reason),
        UpdateCheckResult::NoUrl { .. } => UpdateStatus::Unknown,
    }
}

pub open spec fn result_key(r: UpdateCheckResult) -> Seq<char> {
    match r {
        UpdateCheckResult::UpToDate { key } => key@,
        UpdateCheckResult::Stale { key } => key@,
        UpdateCheckResult::Error { key, .. } => key@,
        UpdateCheckResult::NoUrl { key } => key@,
    }
}

/// The index of the first record with key `k`, or -1.
pub open spec fn find_key(s: Seq<PatchMeta>, k: Seq<char>) -> int
    decreases s.len(),
{
    if s.len() == 0 {
        -1
    } else if key_of(s.last()) == k && find_key(s.drop_last(), k) == -1 {
        s.len() - 1
    } else {
        find_key(s.drop_last(), k)
    }
}

/// The downloaded patches that are tracked, at most one per key.
pub struct PatchRegistry {
    pub patches: Vec<PatchMeta>,
}

pub open spec fn keys_unique(s: Seq<PatchMeta>) -> bool {
    forall|i: int, j: int|
        0 <= i < s.len() && 0 <= j < s.len() && i != j ==> key_of(#[trigger] s[i]) != key_of(
            #[trigger] s[j],
        )
}

proof fn lemma_find_key(s: Seq<PatchMeta>, k: Seq<char>)
    ensures
        -1 <= find_key(s, k) < s.len(),
        find_key(s, k) >= 0 ==> key_of(s[find_key(s, k)]) == k,
        find_key(s, k) == -1 <==> forall|i: int| 0 <= i < s.len() ==> key_of(#[trigger] s[i]) != k,
        find_key(s, k) >= 0 ==> forall|i: int|
            0 <= i < find_key(s, k) ==> key_of(#[trigger] s[i]) != k,
    decreases s.len(),
{
    if s.len() > 0 {
        lemma_find_key(s.drop_last(), k);
        assert forall|i: int| 0 <= i < s.len() - 1 implies s.drop_last()[i] == s[i] by {}
    }
}

impl PatchRegistry {
    pub open spec fn wf(&self) -> bool {
        keys_unique(self.patches@)
    }

    pub fn new() -> (r: PatchRegistry)
        ensures
            r.wf(),
            r.patches@.len() == 0,
    {
        PatchRegistry { patches: Vec::new() }
    }

    fn index_of(&self, key: &str) -> (r: Option<usize>)
        ensures
            match r {
                Some(i) => find_key(self.patches@, key@) == i as int && i < self.patches@.len(),
                None => find_key(self.patches@, key@) == -1,
            },
    {
        proof {
            lemma_find_key(self.patches@, key@);
        }
        let mut i: usize = 0;
        while i < self.patches.len()
            invariant
                i <= self.patches@.len(),
                forall|j: int| 0 <= j < i ==> key_of(#[trigger] self.patches@[j]) != key@,
                -1 <= find_key(self.patches@, key@) < self.patches@.len(),
                find_key(self.patches@, key@) >= 0 ==> key_of(
                    self.patches@[find_key(self.patches@, key@)],
                ) == key@,
                find_key(self.patches@, key@) == -1 <==> forall|j: int|
                    0 <= j < self.patches@.len() ==> key_of(#[trigger] self.patches@[j]) != key@,
                find_key(self.patches@, key@) >= 0 ==> forall|j: int|
                    0 <= j < find_key(self.patches@, key@) ==> key_of(#[trigger] self.patches@[j])
                        != key@,
            decreases self.patches@.len() - i,
        {
            let k = self.patches[i].key();
            if str_eq(k.as_str(), key) {
                return Some(i);
            }
            i = i + 1;
        }
        None
    }

    /// Records a download under its key, replacing the record of the same key.
    pub fn record_download(&mut self, meta: PatchMeta)
        requires
            old(self).wf(),
        ensures
            final(self).wf(),
            ({
                let i = find_key(old(self).patches@, key_of(meta));
                if i >= 0 {
                    final(self).patches@ == old(self).patches@.update(i, meta)
                } else {
                    final(self).patches@ == old(self).patches@.push(meta)
                }
            }),
    {
        let key = meta.key();
        proof {
            lemma_find_key(self.patches@, key@);
        }
        match self.index_of(key.as_str()) {
            Some(i) => {
                self.patches.set(i, meta);
            },
            None => {
                self.patches.push(meta);
            },
        }
        proof {
            let s = self.patches@;
            assert forall|a: int, b: int|
                0 <= a < s.len() && 0 <= b < s.len() && a != b implies key_of(#[trigger] s[a])
                != key_of(#[trigger] s[b]) by {
                let o = old(self).patches@;
                if a < o.len() && b < o.len() {
                } else {
                }
            }
        }
    }

    /// Removes the record of `series` and `filename`, if any.
    pub fn remove(&mut self, series: &str, filename: &str)
        requires
            old(self).wf(),
        ensures
            final(self).wf(),
            ({
                let i = find_key(old(self).patches@, meta_key(series@, filename@));
                if i >= 0 {
                    final(self).patches@ == old(self).patches@.remove(i)
                } else {
                    final(self).patches@ == old(self).patches@
                }
            }),
    {
        let key = compose_key(series, filename);
        match self.index_of(key.as_str()) {
            Some(i) => {
                self.patches.remove(i);
                proof {
                    let s = self.patches@;
                    let o = old(self).patches@;
                    assert forall|a: int, b: int|
                        0 <= a < s.len() && 0 <= b < s.len() && a != b implies key_of(
                        #[trigger] s[a],
                    ) != key_of(#[trigger] s[b]) by {
                        let oa = if a < i { a } else { a + 1 };
                        let ob = if b < i { b } else { b + 1 };
                        assert(s[a] == o[oa]);
                        assert(s[b] == o[ob]);
                    }
                }
            },
            None => {},
        }
    }

    /// The record of `series` and `filename`, if any.
    pub fn get(&self, series: &str, filename: &str) -> (r: Option<&PatchMeta>)
        ensures
            ({
                let i = find_key(self.patches@, meta_key(series@, filename@));
                if i >= 0 {
                    r == Some(&self.patches@[i])
                } else {
                    r is None
                }
            }),
    {
        let key = compose_key(series, filename);
        match self.index_of(key.as_str()) {
            Some(i) => Some(&self.patches[i]),
            None => None,
        }
    }

    /// Sets the status of the record of `series` and `filename`, if any.
    pub fn update_status(&mut self, series: &str, filename: &str, status: UpdateStatus)
        requires
            old(self).wf(),
        ensures
            final(self).wf(),
            final(self).patches@.len() == old(self).patches@.len(),
            ({
                let i = find_key(old(self).patches@, meta_key(series@, filename@));
                forall|j: int|
                    0 <= j < old(self).patches@.len() ==> if j == i {
                        (#[trigger] final(self).patches@[j]) == (PatchMeta {
                            update_status: status,
                            ..old(self).patches@[j]
                        })
                    } else {
                        final(self).patches@[j] == old(self).patches@[j]
                    }
            }),
    {
        let key = compose_key(series, filename);
        match self.index_of(key.as_str()) {
            Some(i) => {
                let mut patches = Vec::new();
                std::mem::swap(&mut patches, &mut self.patches);
                let mut m = patches.remove(i);
                m.update_status = status;
                patches.insert(i, m);
                self.patches = patches;
                proof {
                    let s = self.patches@;
                    let o = old(self).patches@;
                    assert forall|j: int| 0 <= j < s.len() implies key_of(#[trigger] s[j]) == key_of(
                        o[j],
                    ) by {}
                }
            },
            None => {},
        }
    }

    /// The records of one kernel series, in registry order.
    pub fn all_for_series(&self, series: &str) -> (r: Vec<&PatchMeta>)
        ensures
            r@ == self.patches@.filter(|m: PatchMeta| m.kernel_series@ == series@).map_values(
                |m: PatchMeta| &m,
            ),
    {
        let mut out: Vec<&PatchMeta> = Vec::new();
        let mut i: usize = 0;
        while i < self.patches.len()
            invariant
                i <= self.patches@.len(),
                out@ == self.patches@.subrange(0, i as int).filter(
                    |m: PatchMeta| m.kernel_series@ == series@,
                ).map_values(|m: PatchMeta| &m),
            decreases self.patches@.len() - i,
        {
            let ghost pre = self.patches@.subrange(0, i as int);
            assert(self.patches@.subrange(0, i + 1) =~= pre.push(self.patches@[i as int]));
            proof {
                pre.lemma_filter_push(self.patches@[i as int], |m: PatchMeta| m.kernel_series@ == series@);
            }
            let m = &self.patches[i];
            if str_eq(m.kernel_series.as_str(), series) {
                out.push(m);
            }
            i = i + 1;
        }
        assert(self.patches@.subrange(0, self.patches@.len() as int) =~= self.patches@);
        out
    }

    /// Records the status that a probe result carries, under the result's
    /// key split at its first slash into series and file name.
    pub fn apply_check_result(&mut self, result: UpdateCheckResult)
        requires
            old(self).wf(),
        ensures
            final(self).wf(),
            final(self).patches@.len() == old(self).patches@.len(),
            forall|j: int|
                0 <= j < old(self).patches@.len() ==> if key_of(old(self).patches@[j]) == result_key(
                    result,
                ) && result_key(result).contains('/') {
                    (#[trigger] final(self).patches@[j]) == (PatchMeta {
                        update_status: status_for(result),
                        ..old(self).patches@[j]
                    })
                } else {
                    final(self).patches@[j] == old(self).patches@[j]
                },
    {
        let ghost k = result_key(result);
        let (key, status) = match result {
            UpdateCheckResult::UpToDate { key } => (key, UpdateStatus::UpToDate),
            UpdateCheckResult::Stale { key } => (key, UpdateStatus::Stale),
            UpdateCheckResult::Error { key, reason } => (key, UpdateStatus::CheckError(reason)),
            UpdateCheckResult::NoUrl { key } => (key, UpdateStatus::Unknown),
        };
        let klen = key.as_str().unicode_len();
        let mut i: usize = 0;
        while i < klen && key.as_str().get_char(i) != '/'
            invariant
                klen == key@.len(),
                i <= klen,
                forall|j: int| 0 <= j < i ==> key@[j] != '/',
            decreases klen - i,
        {
            i = i + 1;
        }
        if i == klen {
            proof {
                lemma_find_key(old(self).patches@, k);
            }
            return;
        }
        let series = key.as_str().substring_char(0, i);
        let filename = key.as_str().substring_char(i + 1, klen);
        assert(meta_key(series@, filename@) =~= k) by {
            reveal_strlit("/");
        }
        proof {
            lemma_find_key(old(self).patches@, k);
            assert(key@.contains('/'));
        }
        self.update_status(series, filename, status);
    }
}

} // verus!
