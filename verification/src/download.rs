//! The resume policy of the model-weight download. The transfer itself is
//! plain I/O and lives with the caller; the decisions — when a cached file
//! already counts as complete, and how progress is accounted — live here.

use vstd::prelude::*;

verus! {

#[derive(Debug, PartialEq, Eq)]
pub enum DownloadPlan {
    /// The cached file already covers the remote size: no transfer at all.
    UseCached,
    /// The file is absent or smaller than the remote size: it is re-fetched
    /// in full (no byte-range resume is attempted).
    Fetch,
}

/// The plan for a cached file of `local_len` bytes (if one exists) against a
/// remote artifact of `total_len` bytes.
pub open spec fn spec_plan(local_len: Option<u64>, total_len: u64) -> DownloadPlan {
    match local_len {
        Some(len) => if len >= total_len {
            DownloadPlan::UseCached
        } else {
            DownloadPlan::Fetch
        },
        None => DownloadPlan::Fetch,
    }
}

/// Decides whether a download is needed. The decision is a pure function of
/// the two sizes, so a repeated call against an unchanged cache decides the
/// same way: once the cache covers the remote size, no transfer is ever
/// performed again.
pub fn plan_download(local_len: Option<u64>, total_len: u64) -> (r: DownloadPlan)
    ensures
        r == spec_plan(local_len, total_len),
        r is UseCached <==> (local_len is Some && local_len->Some_0 >= total_len),
{
    match local_len {
        Some(len) => if len >= total_len {
            DownloadPlan::UseCached
        } else {
            DownloadPlan::Fetch
        },
        None => DownloadPlan::Fetch,
    }
}

/// Progress accounting for a streaming transfer: bytes received so far,
/// clamped to the announced total.
pub struct DownloadProgress {
    pub downloaded: u64,
    pub total: u64,
}

pub open spec fn progress_wf(p: DownloadProgress) -> bool {
    p.downloaded <= p.total
}

impl DownloadProgress {
    pub fn new(total: u64) -> (p: Self)
        ensures
            p.downloaded == 0,
            p.total == total,
            progress_wf(p),
    {
        DownloadProgress { downloaded: 0, total }
    }

    /// Accounts one received chunk: the new count is the old count plus the
    /// chunk length, clamped to the total.
    pub fn record_chunk(&mut self, chunk_len: u64)
        requires
            progress_wf(*old(self)),
        ensures
            progress_wf(*final(self)),
            final(self).total == old(self).total,
            final(self).downloaded as int == if old(self).downloaded + chunk_len
                >= old(self).total {
                old(self).total as int
            } else {
                old(self).downloaded + chunk_len
            },
    {
        if chunk_len >= self.total - self.downloaded {
            self.downloaded = self.total;
        } else {
            self.downloaded = self.downloaded + chunk_len;
        }
    }
}

} // verus!
