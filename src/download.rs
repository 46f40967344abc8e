use vstd::prelude::*;

verus! {

/// Progress of a streaming download, as reported to the consumer.
pub enum DownloadProgress {
    /// The download started; the total size where the server gave one.
    Started(Option<u64>),
    /// Bytes received so far.
    Downloading(u64),
    /// The download is complete and unpacking begins.
    Extracting,
    /// Unpacking is complete; the path of the resulting directory.
    Complete(String),
    Error(String),
}

/// The sum of the first `k` chunk sizes.
pub open spec fn prefix_sum(chunks: Seq<u64>, k: int) -> nat
    decreases k,
{
    if k <= 0 || chunks.len() == 0 {
        0
    } else if k > chunks.len() {
        prefix_sum(chunks, chunks.len() as int)
    } else {
        prefix_sum(chunks, k - 1) + chunks[k - 1] as nat
    }
}

/// The messages that a download reports for the chunks it has read: the start,
/// then after each chunk the running total.
pub open spec fn progress_events(total: Option<u64>, chunks: Seq<u64>) -> Seq<DownloadProgress> {
    seq![DownloadProgress::Started(total)] + Seq::new(
        chunks.len(),
        |i: int| DownloadProgress::Downloading(prefix_sum(chunks, i + 1) as u64),
    )
}

/// The byte accounting of a download: each chunk read from the network is
/// recorded here, which returns the progress message to send.
pub struct DownloadTracker {
    pub total: Option<u64>,
    pub downloaded: u64,
    pub chunks: Ghost<Seq<u64>>,
    pub events: Ghost<Seq<DownloadProgress>>,
}

impl DownloadTracker {
    pub open spec fn wf(&self) -> bool {
        &&& self.downloaded as nat == prefix_sum(self.chunks@, self.chunks@.len() as int)
        &&& self.events@ == progress_events(self.total, self.chunks@)
    }

    /// A download begins; `total` is the announced size, if any.
    pub fn start(total: Option<u64>) -> (r: (DownloadTracker, DownloadProgress))
        ensures
            r.0.wf(),
            r.0.total == total,
            r.0.downloaded == 0,
            r.0.chunks@ == Seq::<u64>::empty(),
            r.1 == DownloadProgress::Started(total),
            r.0.events@ == seq![r.1],
    {
        let ghost ev = seq![DownloadProgress::Started(total)];
        let t = DownloadTracker {
            total,
            downloaded: 0,
            chunks: Ghost(Seq::empty()),
            events: Ghost(ev),
        };
        assert(t.events@ =~= progress_events(total, Seq::empty()));
        (t, DownloadProgress::Started(total))
    }

    /// A chunk of `n` bytes was read and written; the running total grows by
    /// `n` and is reported.
    pub fn record_chunk(&mut self, n: u64) -> (r: DownloadProgress)
        requires
            old(self).wf(),
            old(self).downloaded + n <= u64::MAX,
        ensures
            final(self).wf(),
            final(self).total == old(self).total,
            final(self).downloaded == old(self).downloaded + n,
            final(self).chunks@ == old(self).chunks@.push(n),
            r == DownloadProgress::Downloading(final(self).downloaded),
            final(self).events@ == old(self).events@.push(r),
    {
        let ghost old_chunks = self.chunks@;
        self.downloaded = self.downloaded + n;
        let r = DownloadProgress::Downloading(self.downloaded);
        self.chunks = Ghost(self.chunks@.push(n));
        self.events = Ghost(self.events@.push(r));
        proof {
            let c = self.chunks@;
            assert(c.len() == old_chunks.len() + 1);
            lemma_prefix_sum_push(old_chunks, n);
            let e = progress_events(self.total, c);
            assert forall|i: int| 0 <= i <= old_chunks.len() implies prefix_sum(c, i) == prefix_sum(
                old_chunks,
                i,
            ) by {
                lemma_prefix_sum_extend(old_chunks, n, i);
            }
            assert(self.events@ =~= e);
        }
        r
    }
}

proof fn lemma_prefix_sum_extend(chunks: Seq<u64>, n: u64, i: int)
    requires
        0 <= i <= chunks.len(),
    ensures
        prefix_sum(chunks.push(n), i) == prefix_sum(chunks, i),
    decreases i,
{
    if i > 0 {
        lemma_prefix_sum_extend(chunks, n, i - 1);
        assert(chunks.push(n)[i - 1] == chunks[i - 1]);
    }
}

proof fn lemma_prefix_sum_push(chunks: Seq<u64>, n: u64)
    ensures
        prefix_sum(chunks.push(n), chunks.len() + 1int) == prefix_sum(chunks, chunks.len() as int)
            + n,
{
    lemma_prefix_sum_extend(chunks, n, chunks.len() as int);
    assert(chunks.push(n)[chunks.len() as int] == n);
}

proof fn lemma_prefix_sum_monotone(chunks: Seq<u64>, i: int, j: int)
    requires
        0 <= i <= j <= chunks.len(),
    ensures
        prefix_sum(chunks, i) <= prefix_sum(chunks, j),
    decreases j - i,
{
    if i < j {
        lemma_prefix_sum_monotone(chunks, i, j - 1);
    }
}

/// Over any download, the reported byte counts never decrease, and the last
/// one reported equals the number of bytes written.
pub proof fn lemma_progress_monotone(t: DownloadTracker)
    requires
        t.wf(),
    ensures
        forall|i: int, j: int|
            1 <= i <= j < t.events@.len() ==> match (#[trigger] t.events@[i], #[trigger] t.events@[j]) {
                (DownloadProgress::Downloading(a), DownloadProgress::Downloading(b)) => a <= b,
                _ => false,
            },
        t.events@.len() > 1 ==> t.events@.last() == DownloadProgress::Downloading(t.downloaded),
{
    let c = t.chunks@;
    assert forall|i: int, j: int| 1 <= i <= j < t.events@.len() implies match (
        #[trigger] t.events@[i],
        #[trigger] t.events@[j],
    ) {
        (DownloadProgress::Downloading(a), DownloadProgress::Downloading(b)) => a <= b,
        _ => false,
    } by {
        lemma_prefix_sum_monotone(c, i, j);
        lemma_prefix_sum_monotone(c, j, c.len() as int);
    }
}

} // verus!
