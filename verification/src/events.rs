//! The typed events the core emits towards the UI: lifecycle of a chapter
//! download, overall progress, download speed, and proxy trouble.
use vstd::prelude::*;

verus! {

#[derive(Clone, Debug)]
pub enum DownloadEvent {
    /// A work item was accepted and waits for a chapter permit.
    Pending { id: i64, comic_title: String, episode_title: String },
    /// The chapter's manifest arrived; `total` images will be fetched.
    Start { id: i64, total: u32 },
    /// One image was downloaded, decrypted and written; `current` counts
    /// the successes so far in this chapter.
    ImageSuccess { id: i64, url: String, current: u32 },
    /// One image failed; the chapter carries on.
    ImageError { id: i64, url: String, err_msg: String },
    /// The chapter reached its terminal state; `err_msg` is None exactly
    /// when every image arrived and the archive step succeeded.
    End { id: i64, err_msg: Option<String> },
    /// Progress aggregated over all active chapters.
    OverallProgress { downloaded: u64, total: u64, percentage: u64 },
    /// Human-readable download speed.
    Speed { speed: String },
    /// A custom proxy URL could not be used.
    SetProxyError { err_msg: String },
}

pub open spec fn is_pending(e: DownloadEvent) -> bool {
    e is Pending
}

pub open spec fn is_start(e: DownloadEvent) -> bool {
    e is Start
}

pub open spec fn is_image_success(e: DownloadEvent) -> bool {
    e is ImageSuccess
}

pub open spec fn is_image_error(e: DownloadEvent) -> bool {
    e is ImageError
}

pub open spec fn is_end(e: DownloadEvent) -> bool {
    e is End
}

/// How many events of a sequence satisfy `f`.
pub open spec fn count(s: Seq<DownloadEvent>, f: spec_fn(DownloadEvent) -> bool) -> int
    decreases s.len(),
{
    if s.len() == 0 {
        0
    } else {
        count(s.drop_last(), f) + if f(s.last()) {
            1int
        } else {
            0int
        }
    }
}

pub open spec fn count_pending(s: Seq<DownloadEvent>) -> int {
    count(s, |e: DownloadEvent| is_pending(e))
}

pub open spec fn count_start(s: Seq<DownloadEvent>) -> int {
    count(s, |e: DownloadEvent| is_start(e))
}

pub open spec fn count_image_success(s: Seq<DownloadEvent>) -> int {
    count(s, |e: DownloadEvent| is_image_success(e))
}

pub open spec fn count_image_error(s: Seq<DownloadEvent>) -> int {
    count(s, |e: DownloadEvent| is_image_error(e))
}

pub open spec fn count_end(s: Seq<DownloadEvent>) -> int {
    count(s, |e: DownloadEvent| is_end(e))
}

pub proof fn lemma_count_push(s: Seq<DownloadEvent>, f: spec_fn(DownloadEvent) -> bool, e: DownloadEvent)
    ensures
        count(s.push(e), f) == count(s, f) + if f(e) {
            1int
        } else {
            0int
        },
{
    assert(s.push(e).drop_last() =~= s);
    assert(s.push(e).last() == e);
}

} // verus!
