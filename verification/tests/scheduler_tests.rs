use bilibili_manga_downloader::chapter::{partial_msg, ChapterPhase};
use bilibili_manga_downloader::comicinfo::ComicMetadata;
use bilibili_manga_downloader::errors::DownloadError;
use bilibili_manga_downloader::events::DownloadEvent;
use bilibili_manga_downloader::permits::PermitCounter;
use bilibili_manga_downloader::progress::{speed_string, GlobalProgress};
use bilibili_manga_downloader::scheduler::{run_chapter, Scheduler, WorkItem};

fn meta() -> ComicMetadata {
    ComicMetadata {
        title: "Ch.1".to_string(),
        series: "Sample".to_string(),
        summary: String::new(),
        writer: String::new(),
        genre: String::new(),
        page_count: 3,
    }
}

fn chapter_item(id: i64) -> WorkItem {
    WorkItem::Chapter {
        episode_id: id,
        comic_id: 7,
        episode_title: "Ch.1".to_string(),
        comic_title: "Sample".to_string(),
        metadata: meta(),
    }
}

#[test]
fn submission_backpressure_is_immediate() {
    let mut s = Scheduler::new(1, 4);
    for i in 0..32 {
        assert!(s.submit(chapter_item(i)).is_ok());
    }
    let r = s.submit(chapter_item(99));
    assert_eq!(r, Err(DownloadError::BackpressureFull));
}

#[test]
fn queue_is_fifo() {
    let mut s = Scheduler::new(1, 4);
    s.submit(chapter_item(1)).unwrap();
    s.submit(chapter_item(2)).unwrap();
    match s.pop_next().unwrap() {
        WorkItem::Chapter { episode_id, .. } => assert_eq!(episode_id, 1),
        _ => panic!("expected chapter"),
    }
    match s.pop_next().unwrap() {
        WorkItem::Chapter { episode_id, .. } => assert_eq!(episode_id, 2),
        _ => panic!("expected chapter"),
    }
    assert!(s.pop_next().is_none());
}

#[test]
fn concurrency_cap_holds_for_ten_chapters() {
    // Ten chapters, chapter_concurrency = 2: only two run at once.
    let mut permits = PermitCounter::new(2);
    let mut running = 0u32;
    let mut done = 0u32;
    let mut started = 0u32;
    while done < 10 {
        while started < 10 && permits.try_acquire() {
            started += 1;
            running += 1;
            assert!(running <= 2);
        }
        // One running chapter finishes and releases its permit.
        running -= 1;
        done += 1;
        permits.release();
    }
    assert_eq!(done, 10);
}

#[test]
fn resize_keeps_holders() {
    let mut s = Scheduler::new(3, 3);
    assert!(s.chapter_permits.try_acquire());
    assert!(s.chapter_permits.try_acquire());
    s.set_chapter_concurrency(1);
    assert_eq!(s.chapter_permits.held, 2);
    // Over the new limit: no further grants until holders release.
    assert!(!s.chapter_permits.try_acquire());
    s.chapter_permits.release();
    s.chapter_permits.release();
    assert!(s.chapter_permits.try_acquire());
    s.set_image_concurrency(9);
    assert_eq!(s.image_permits.limit, 9);
}

#[test]
fn happy_chapter_event_sequence() {
    // Three images, all succeed: Pending, Start(3), 3 successes, End(None).
    let urls = vec!["u1".to_string(), "u2".to_string(), "u3".to_string()];
    let results = vec![
        Ok("001.jpg".to_string()),
        Ok("002.jpg".to_string()),
        Ok("003.jpg".to_string()),
    ];
    let run = run_chapter(
        42,
        "Sample".to_string(),
        "Ch.1".to_string(),
        true,
        Ok(urls),
        results,
        None,
    );
    assert_eq!(run.phase, ChapterPhase::Ended);
    assert_eq!(run.end_err, None);
    let ev = &run.events;
    assert_eq!(ev.len(), 6);
    assert!(matches!(ev[0], DownloadEvent::Pending { id: 42, .. }));
    assert!(matches!(ev[1], DownloadEvent::Start { id: 42, total: 3 }));
    for k in 0..3 {
        match &ev[2 + k] {
            DownloadEvent::ImageSuccess { id, current, .. } => {
                assert_eq!(*id, 42);
                assert_eq!(*current as usize, k + 1);
            }
            other => panic!("expected success, got {other:?}"),
        }
    }
    assert!(matches!(ev[5], DownloadEvent::End { id: 42, err_msg: None }));
}

#[test]
fn partial_chapter_reports_count_mismatch() {
    // Five images; the third fails: four successes, one error, and the
    // terminal message reports 4 of 5.
    let urls: Vec<String> = (1..=5).map(|i| format!("u{i}")).collect();
    let results = vec![
        Ok("001.jpg".to_string()),
        Ok("002.jpg".to_string()),
        Err("HTTP 500".to_string()),
        Ok("004.jpg".to_string()),
        Ok("005.jpg".to_string()),
    ];
    let run = run_chapter(
        5,
        "Sample".to_string(),
        "Ch.1".to_string(),
        true,
        Ok(urls),
        results,
        None,
    );
    assert_eq!(run.phase, ChapterPhase::Ended);
    assert_eq!(run.end_err.as_deref(), Some("总共有 5 张图片，但只下载了 4 张"));
    let successes = run
        .events
        .iter()
        .filter(|e| matches!(e, DownloadEvent::ImageSuccess { .. }))
        .count();
    let errors = run
        .events
        .iter()
        .filter(|e| matches!(e, DownloadEvent::ImageError { .. }))
        .count();
    let ends = run
        .events
        .iter()
        .filter(|e| matches!(e, DownloadEvent::End { .. }))
        .count();
    assert_eq!((successes, errors, ends), (4, 1, 1));
}

#[test]
fn empty_manifest_ends_clean() {
    // A chapter whose manifest lists no images starts with total 0 and
    // ends at once without error.
    let run = run_chapter(
        9,
        "Sample".to_string(),
        "Ch.0".to_string(),
        true,
        Ok(vec![]),
        vec![],
        None,
    );
    assert_eq!(run.phase, ChapterPhase::Ended);
    assert_eq!(run.total, 0);
    assert_eq!(run.success, 0);
    assert_eq!(run.end_err, None);
}

#[test]
fn failed_permit_ends_with_error() {
    let run = run_chapter(
        3,
        "Sample".to_string(),
        "Ch.1".to_string(),
        false,
        Ok(vec!["u".to_string()]),
        vec![Ok("p".to_string())],
        None,
    );
    assert_eq!(run.phase, ChapterPhase::Ended);
    assert!(run.end_err.is_some());
    assert_eq!(run.events.len(), 2);
}

#[test]
fn archive_failure_surfaces_in_end() {
    let run = run_chapter(
        4,
        "Sample".to_string(),
        "Ch.1".to_string(),
        true,
        Ok(vec!["u".to_string()]),
        vec![Ok("001.jpg".to_string())],
        Some("rename failed".to_string()),
    );
    assert_eq!(run.end_err.as_deref(), Some("rename failed"));
}

#[test]
fn partial_message_format() {
    assert_eq!(partial_msg(5, 4), "总共有 5 张图片，但只下载了 4 张");
    assert_eq!(partial_msg(120, 0), "总共有 120 张图片，但只下载了 0 张");
}

#[test]
fn global_progress_resets_at_quiescence() {
    let mut p = GlobalProgress::new();
    p.add_total(3);
    assert_eq!((p.downloaded, p.total), (0, 3));
    p.image_joined();
    p.image_joined();
    assert_eq!((p.downloaded, p.total), (2, 3));
    p.image_joined();
    // Queue drained: both counters read zero.
    assert_eq!((p.downloaded, p.total), (0, 0));
}

#[test]
fn progress_event_percentage() {
    let mut p = GlobalProgress::new();
    p.add_total(4);
    p.image_joined();
    match p.progress_event() {
        DownloadEvent::OverallProgress { downloaded, total, percentage } => {
            assert_eq!((downloaded, total, percentage), (1, 4, 25));
        }
        other => panic!("unexpected event {other:?}"),
    }
}

#[test]
fn speed_string_format() {
    assert_eq!(speed_string(0), "0.00 MB/s");
    assert_eq!(speed_string(1048576), "1.00 MB/s");
    assert_eq!(speed_string(2621440), "2.50 MB/s");
}

#[test]
fn bonus_items_queue_like_chapters() {
    let mut s = Scheduler::new(1, 1);
    let item = WorkItem::BonusItem {
        item_id: 8,
        comic_title: "Sample".to_string(),
        item_title: "extra".to_string(),
        image_urls: vec!["u".to_string()],
    };
    assert!(s.submit(item).is_ok());
    match s.pop_next().unwrap() {
        WorkItem::BonusItem { item_id, .. } => assert_eq!(item_id, 8),
        _ => panic!("expected bonus item"),
    }
}
