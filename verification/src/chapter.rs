//! The per-chapter download state machine. A chapter run moves
//! `Pending -> Running -> Ended` and logs every event it emits; the log is
//! what the lifecycle laws are stated over: each run emits exactly one
//! Pending, at most one Start and exactly one End, never more image events
//! than the manifest's total, and ends without error exactly when every
//! image arrived and the archive step succeeded.
use vstd::prelude::*;
use vstd::string::*;

use crate::events::{
    count_end, count_image_error, count_image_success, count_pending, count_start,
    lemma_count_push, DownloadEvent,
};
use crate::text::{dec_str_of, u64_to_string};

verus! {

#[derive(Clone, Copy, Debug, PartialEq, Eq, Structural)]
pub enum ChapterPhase {
    Pending,
    Running,
    Ended,
}

/// The terminal message of a chapter whose images did not all arrive.
pub open spec fn partial_msg_spec(total: nat, current: nat) -> Seq<char> {
    "总共有 "@ + dec_str_of(total) + " 张图片，但只下载了 "@ + dec_str_of(current) + " 张"@
}

/// Build the terminal message for a partial chapter.
pub fn partial_msg(total: u32, current: u32) -> (r: String)
    ensures
        r@ == partial_msg_spec(total as nat, current as nat),
{
    let mut s = String::from_str("总共有 ");
    let t = u64_to_string(total as u64);
    s.append(t.as_str());
    s.append(" 张图片，但只下载了 ");
    let c = u64_to_string(current as u64);
    s.append(c.as_str());
    s.append(" 张");
    s
}

pub struct ChapterRun {
    pub id: i64,
    pub comic_title: String,
    pub episode_title: String,
    pub phase: ChapterPhase,
    pub total: u32,
    pub success: u32,
    pub errors: u32,
    pub end_err: Option<String>,
    pub events: Vec<DownloadEvent>,
}

impl ChapterRun {
    /// The run's invariant, tying the counters to the event log.
    pub open spec fn wf(self) -> bool {
        &&& count_pending(self.events@) == 1
        &&& self.success + self.errors <= self.total
        &&& count_image_success(self.events@) == self.success
        &&& count_image_error(self.events@) == self.errors
        &&& match self.phase {
            ChapterPhase::Pending => {
                &&& count_start(self.events@) == 0
                &&& count_end(self.events@) == 0
                &&& self.success == 0
                &&& self.errors == 0
                &&& self.total == 0
            },
            ChapterPhase::Running => {
                &&& count_start(self.events@) == 1
                &&& count_end(self.events@) == 0
            },
            ChapterPhase::Ended => {
                &&& count_start(self.events@) <= 1
                &&& count_end(self.events@) == 1
                &&& (self.end_err is None ==> self.success == self.total)
            },
        }
    }

    /// A fresh run for one work item: emits the Pending event at once.
    pub fn new(id: i64, comic_title: String, episode_title: String) -> (r: ChapterRun)
        ensures
            r.wf(),
            r.phase == ChapterPhase::Pending,
            r.id == id,
            r.events@.len() == 1,
            r.events@[0] matches DownloadEvent::Pending { id: i, .. } && i == id,
    {
        let ev = DownloadEvent::Pending { id, comic_title: comic_title.clone(), episode_title: episode_title.clone() };
        let mut events: Vec<DownloadEvent> = Vec::new();
        events.push(ev);
        proof {
            let e0 = Seq::<DownloadEvent>::empty();
            assert(events@.drop_last() =~= e0);
            assert(count_pending(e0) == 0);
            assert(count_start(e0) == 0);
            assert(count_end(e0) == 0);
            assert(count_image_success(e0) == 0);
            assert(count_image_error(e0) == 0);
            assert(count_pending(events@) == 1);
            assert(count_start(events@) == 0);
            assert(count_end(events@) == 0);
            assert(count_image_success(events@) == 0);
            assert(count_image_error(events@) == 0);
        }
        ChapterRun {
            id,
            comic_title,
            episode_title,
            phase: ChapterPhase::Pending,
            total: 0,
            success: 0,
            errors: 0,
            end_err: None,
            events,
        }
    }

    /// End the run before or after it started, with an error: a failed
    /// permit acquisition, a failed manifest or token fetch, or shutdown.
    pub fn fail(&mut self, err_msg: String)
        requires
            old(self).wf(),
            old(self).phase != ChapterPhase::Ended,
        ensures
            final(self).wf(),
            final(self).phase == ChapterPhase::Ended,
            final(self).end_err == Some(err_msg),
            final(self).events@ == old(self).events@.push(
                DownloadEvent::End { id: old(self).id, err_msg: Some(err_msg) },
            ),
            final(self).id == old(self).id,
            final(self).success == old(self).success,
            final(self).total == old(self).total,
    {
        let ev = DownloadEvent::End { id: self.id, err_msg: Some(err_msg.clone()) };
        proof {
            lemma_count_push(self.events@, |e: DownloadEvent| crate::events::is_pending(e), ev);
            lemma_count_push(self.events@, |e: DownloadEvent| crate::events::is_start(e), ev);
            lemma_count_push(self.events@, |e: DownloadEvent| crate::events::is_end(e), ev);
            lemma_count_push(
                self.events@,
                |e: DownloadEvent| crate::events::is_image_success(e),
                ev,
            );
            lemma_count_push(
                self.events@,
                |e: DownloadEvent| crate::events::is_image_error(e),
                ev,
            );
        }
        self.events.push(ev);
        self.phase = ChapterPhase::Ended;
        self.end_err = Some(err_msg);
    }

    /// The manifest and signed URLs arrived: the chapter starts with
    /// `total` images to fetch.
    pub fn start(&mut self, total: u32)
        requires
            old(self).wf(),
            old(self).phase == ChapterPhase::Pending,
        ensures
            final(self).wf(),
            final(self).phase == ChapterPhase::Running,
            final(self).total == total,
            final(self).success == 0,
            final(self).errors == 0,
            final(self).events@ == old(self).events@.push(
                DownloadEvent::Start { id: old(self).id, total },
            ),
            final(self).id == old(self).id,
    {
        let ev = DownloadEvent::Start { id: self.id, total };
        proof {
            lemma_count_push(self.events@, |e: DownloadEvent| crate::events::is_pending(e), ev);
            lemma_count_push(self.events@, |e: DownloadEvent| crate::events::is_start(e), ev);
            lemma_count_push(self.events@, |e: DownloadEvent| crate::events::is_end(e), ev);
            lemma_count_push(
                self.events@,
                |e: DownloadEvent| crate::events::is_image_success(e),
                ev,
            );
            lemma_count_push(
                self.events@,
                |e: DownloadEvent| crate::events::is_image_error(e),
                ev,
            );
        }
        self.events.push(ev);
        self.phase = ChapterPhase::Running;
        self.total = total;
    }

    /// One image landed on disk.
    pub fn image_ok(&mut self, save_path: String)
        requires
            old(self).wf(),
            old(self).phase == ChapterPhase::Running,
            old(self).success + old(self).errors < old(self).total,
        ensures
            final(self).wf(),
            final(self).phase == ChapterPhase::Running,
            final(self).success == old(self).success + 1,
            final(self).errors == old(self).errors,
            final(self).total == old(self).total,
            final(self).events@ == old(self).events@.push(
                DownloadEvent::ImageSuccess {
                    id: old(self).id,
                    url: save_path,
                    current: (old(self).success + 1) as u32,
                },
            ),
            final(self).id == old(self).id,
    {
        self.success = self.success + 1;
        let ev = DownloadEvent::ImageSuccess { id: self.id, url: save_path, current: self.success };
        proof {
            lemma_count_push(self.events@, |e: DownloadEvent| crate::events::is_pending(e), ev);
            lemma_count_push(self.events@, |e: DownloadEvent| crate::events::is_start(e), ev);
            lemma_count_push(self.events@, |e: DownloadEvent| crate::events::is_end(e), ev);
            lemma_count_push(
                self.events@,
                |e: DownloadEvent| crate::events::is_image_success(e),
                ev,
            );
            lemma_count_push(
                self.events@,
                |e: DownloadEvent| crate::events::is_image_error(e),
                ev,
            );
        }
        self.events.push(ev);
    }

    /// One image failed; the chapter carries on and fails only at the end.
    pub fn image_failed(&mut self, url: String, err_msg: String)
        requires
            old(self).wf(),
            old(self).phase == ChapterPhase::Running,
            old(self).success + old(self).errors < old(self).total,
        ensures
            final(self).wf(),
            final(self).phase == ChapterPhase::Running,
            final(self).success == old(self).success,
            final(self).errors == old(self).errors + 1,
            final(self).total == old(self).total,
            final(self).events@ == old(self).events@.push(
                DownloadEvent::ImageError { id: old(self).id, url, err_msg },
            ),
            final(self).id == old(self).id,
    {
        self.errors = self.errors + 1;
        let ev = DownloadEvent::ImageError { id: self.id, url, err_msg };
        proof {
            lemma_count_push(self.events@, |e: DownloadEvent| crate::events::is_pending(e), ev);
            lemma_count_push(self.events@, |e: DownloadEvent| crate::events::is_start(e), ev);
            lemma_count_push(self.events@, |e: DownloadEvent| crate::events::is_end(e), ev);
            lemma_count_push(
                self.events@,
                |e: DownloadEvent| crate::events::is_image_success(e),
                ev,
            );
            lemma_count_push(
                self.events@,
                |e: DownloadEvent| crate::events::is_image_error(e),
                ev,
            );
        }
        self.events.push(ev);
    }

    /// Whether the joined chapter is complete and should be archived.
    pub fn complete(&self) -> (r: bool)
        ensures
            r == (self.success == self.total),
    {
        self.success == self.total
    }

    /// End a chapter whose images did not all arrive: the terminal event
    /// reports how many of the total were downloaded.
    pub fn finish_partial(&mut self)
        requires
            old(self).wf(),
            old(self).phase == ChapterPhase::Running,
            old(self).success != old(self).total,
        ensures
            final(self).wf(),
            final(self).phase == ChapterPhase::Ended,
            final(self).end_err matches Some(m) && m@ == partial_msg_spec(
                old(self).total as nat,
                old(self).success as nat,
            ),
            final(self).events@ == old(self).events@.push(
                DownloadEvent::End {
                    id: old(self).id,
                    err_msg: final(self).end_err,
                },
            ),
            final(self).id == old(self).id,
            final(self).success == old(self).success,
            final(self).total == old(self).total,
    {
        let msg = partial_msg(self.total, self.success);
        self.fail(msg);
    }

    /// End a complete chapter: the archiver ran and its result is the
    /// chapter's terminal error, None on success.
    pub fn finish_archived(&mut self, archive_err: Option<String>)
        requires
            old(self).wf(),
            old(self).phase == ChapterPhase::Running,
            old(self).success == old(self).total,
        ensures
            final(self).wf(),
            final(self).phase == ChapterPhase::Ended,
            final(self).end_err == archive_err,
            final(self).events@ == old(self).events@.push(
                DownloadEvent::End { id: old(self).id, err_msg: archive_err },
            ),
            final(self).id == old(self).id,
            final(self).success == old(self).success,
            final(self).total == old(self).total,
    {
        let ev = DownloadEvent::End { id: self.id, err_msg: archive_err.clone() };
        proof {
            lemma_count_push(self.events@, |e: DownloadEvent| crate::events::is_pending(e), ev);
            lemma_count_push(self.events@, |e: DownloadEvent| crate::events::is_start(e), ev);
            lemma_count_push(self.events@, |e: DownloadEvent| crate::events::is_end(e), ev);
            lemma_count_push(
                self.events@,
                |e: DownloadEvent| crate::events::is_image_success(e),
                ev,
            );
            lemma_count_push(
                self.events@,
                |e: DownloadEvent| crate::events::is_image_error(e),
                ev,
            );
        }
        self.events.push(ev);
        self.phase = ChapterPhase::Ended;
        self.end_err = archive_err;
    }
}

/// Every chapter run emits exactly one Pending, at most one Start and
/// exactly one End once it has ended.
pub proof fn lemma_chapter_lifecycle(r: ChapterRun)
    requires
        r.wf(),
        r.phase == ChapterPhase::Ended,
    ensures
        count_pending(r.events@) == 1,
        count_start(r.events@) <= 1,
        count_end(r.events@) == 1,
{
}

/// A chapter run never logs more image events than its total, and a run
/// that ended without error downloaded every image.
pub proof fn lemma_chapter_image_counts(r: ChapterRun)
    requires
        r.wf(),
    ensures
        count_image_success(r.events@) + count_image_error(r.events@) <= r.total,
        r.phase == ChapterPhase::Ended && r.end_err is None ==> count_image_success(r.events@)
            == r.total,
{
}

} // verus!
