//! The download scheduler's state: a bounded FIFO of work items, the two
//! permit counters, and the global progress pair. The async runtime around
//! it performs the waiting and the I/O; every decision — admission,
//! permits, counting, the chapter lifecycle — is made here.
use vstd::prelude::*;

use crate::chapter::{ChapterPhase, ChapterRun};
use crate::comicinfo::ComicMetadata;
use crate::errors::DownloadError;
use crate::events::{count_end, count_image_error, count_image_success, count_pending, count_start};
use crate::permits::PermitCounter;
use crate::progress::GlobalProgress;

verus! {

/// The submission queue holds at most this many work items.
pub const QUEUE_CAPACITY: usize = 32;

/// One unit of work: a chapter of a comic, or one bonus-gallery item.
pub enum WorkItem {
    Chapter {
        episode_id: i64,
        comic_id: i64,
        episode_title: String,
        comic_title: String,
        metadata: ComicMetadata,
    },
    BonusItem { item_id: i64, comic_title: String, item_title: String, image_urls: Vec<String> },
}

pub struct Scheduler {
    pub queue: Vec<WorkItem>,
    pub chapter_permits: PermitCounter,
    pub image_permits: PermitCounter,
    pub progress: GlobalProgress,
}

impl Scheduler {
    pub open spec fn wf(self) -> bool {
        &&& self.queue@.len() <= QUEUE_CAPACITY
        &&& self.progress.wf()
    }

    pub fn new(chapter_concurrency: u32, image_concurrency: u32) -> (r: Scheduler)
        ensures
            r.wf(),
            r.queue@.len() == 0,
            r.chapter_permits.limit == chapter_concurrency,
            r.chapter_permits.held == 0,
            r.image_permits.limit == image_concurrency,
            r.image_permits.held == 0,
            r.progress.downloaded == 0 && r.progress.total == 0,
    {
        Scheduler {
            queue: Vec::new(),
            chapter_permits: PermitCounter::new(chapter_concurrency),
            image_permits: PermitCounter::new(image_concurrency),
            progress: GlobalProgress::new(),
        }
    }

    /// Non-blocking admission: a full queue refuses the item at once with
    /// BackpressureFull; otherwise the item joins the FIFO at the back.
    pub fn submit(&mut self, item: WorkItem) -> (r: Result<(), DownloadError>)
        requires
            old(self).wf(),
        ensures
            final(self).wf(),
            old(self).queue@.len() >= QUEUE_CAPACITY ==> (r matches Err(e) && e
                == DownloadError::BackpressureFull && final(self).queue@ == old(self).queue@),
            old(self).queue@.len() < QUEUE_CAPACITY ==> (r is Ok && final(self).queue@ == old(
                self,
            ).queue@.push(item)),
            final(self).chapter_permits == old(self).chapter_permits,
            final(self).image_permits == old(self).image_permits,
            final(self).progress == old(self).progress,
    {
        if self.queue.len() >= QUEUE_CAPACITY {
            return Err(DownloadError::BackpressureFull);
        }
        self.queue.push(item);
        Ok(())
    }

    /// The dispatch loop takes the oldest item first: FIFO admission order.
    pub fn pop_next(&mut self) -> (r: Option<WorkItem>)
        requires
            old(self).wf(),
        ensures
            final(self).wf(),
            old(self).queue@.len() == 0 ==> (r is None && final(self).queue@ == old(
                self,
            ).queue@),
            old(self).queue@.len() > 0 ==> (r is Some && final(self).queue@ == old(
                self,
            ).queue@.drop_first()),
            final(self).chapter_permits == old(self).chapter_permits,
            final(self).image_permits == old(self).image_permits,
            final(self).progress == old(self).progress,
    {
        if self.queue.len() == 0 {
            return None;
        }
        let item = self.queue.remove(0);
        proof {
            assert(self.queue@ =~= old(self).queue@.drop_first());
        }
        Some(item)
    }

    /// Resize the chapter semaphore without draining in-flight tasks.
    pub fn set_chapter_concurrency(&mut self, n: u32)
        requires
            old(self).wf(),
        ensures
            final(self).wf(),
            final(self).chapter_permits.limit == n,
            final(self).chapter_permits.held == old(self).chapter_permits.held,
            final(self).queue@ == old(self).queue@,
    {
        self.chapter_permits.resize(n);
    }

    /// Resize the image semaphore without draining in-flight tasks.
    pub fn set_image_concurrency(&mut self, n: u32)
        requires
            old(self).wf(),
        ensures
            final(self).wf(),
            final(self).image_permits.limit == n,
            final(self).image_permits.held == old(self).image_permits.held,
            final(self).queue@ == old(self).queue@,
    {
        self.image_permits.resize(n);
    }
}

/// One verified pass over a whole chapter, from the Pending event to the
/// terminal End, given the outcomes of the outside calls: whether a permit
/// was obtained, the signed image URLs (or the manifest error), the
/// per-image outcomes, and the archiver's verdict for a complete chapter.
/// The run ends without error exactly when everything before it succeeded.
pub fn run_chapter(
    id: i64,
    comic_title: String,
    episode_title: String,
    permit_ok: bool,
    manifest: Result<Vec<String>, String>,
    image_results: Vec<Result<String, String>>,
    archive_err: Option<String>,
) -> (r: ChapterRun)
    requires
        manifest matches Ok(urls) ==> image_results@.len() == urls@.len(),
        manifest matches Ok(urls) ==> urls@.len() <= 0xffffffff,
    ensures
        r.wf(),
        r.phase == ChapterPhase::Ended,
        r.id == id,
        count_pending(r.events@) == 1,
        count_start(r.events@) <= 1,
        count_end(r.events@) == 1,
        count_image_success(r.events@) + count_image_error(r.events@) <= r.total,
        r.end_err is None <==> permit_ok && manifest is Ok && (forall|i: int|
            0 <= i < image_results@.len() ==> #[trigger] image_results@[i] is Ok) && archive_err
            is None,
{
    let mut run = ChapterRun::new(id, comic_title, episode_title);
    if !permit_ok {
        run.fail(String::from_str("获取下载章节的semaphore失败"));
        proof {
            crate::chapter::lemma_chapter_lifecycle(run);
            crate::chapter::lemma_chapter_image_counts(run);
        }
        return run;
    }
    let urls = match manifest {
        Ok(urls) => urls,
        Err(e) => {
            run.fail(e);
            proof {
                crate::chapter::lemma_chapter_lifecycle(run);
                crate::chapter::lemma_chapter_image_counts(run);
            }
            return run;
        },
    };
    let total = urls.len() as u32;
    run.start(total);
    let mut i: usize = 0;
    while i < image_results.len()
        invariant
            i <= image_results@.len(),
            image_results@.len() == total,
            urls@.len() == total,
            run.wf(),
            run.phase == ChapterPhase::Running,
            run.total == total,
            run.id == id,
            run.success + run.errors == i,
            run.success == i ==> (forall|j: int|
                0 <= j < i ==> #[trigger] image_results@[j] is Ok),
            (forall|j: int| 0 <= j < i ==> #[trigger] image_results@[j] is Ok) ==> run.success
                == i,
        decreases image_results@.len() - i,
    {
        match &image_results[i] {
            Ok(path) => {
                run.image_ok(path.clone());
            },
            Err(e) => {
                run.image_failed(urls[i].clone(), e.clone());
            },
        }
        i = i + 1;
    }
    if run.complete() {
        run.finish_archived(archive_err);
    } else {
        run.finish_partial();
    }
    proof {
        crate::chapter::lemma_chapter_lifecycle(run);
        crate::chapter::lemma_chapter_image_counts(run);
        if run.end_err is None {
            assert(run.success == total);
            assert(forall|j: int|
                0 <= j < image_results@.len() ==> #[trigger] image_results@[j] is Ok);
        }
    }
    run
}

} // verus!
