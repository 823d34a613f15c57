use bilibili_manga_downloader::archive::{archive_entry_names, finalize_plan, ArchiveFormat, FinalizePlan};
use bilibili_manga_downloader::comicinfo::{comic_info_xml, ComicMetadata};
use bilibili_manga_downloader::paths::{
    bonus_download_dir, final_download_dir, image_file_name, temp_download_dir,
};

fn meta() -> ComicMetadata {
    ComicMetadata {
        title: "Ch.1".to_string(),
        series: "Sample".to_string(),
        summary: "An <example> & \"more\"".to_string(),
        writer: "someone".to_string(),
        genre: "comedy".to_string(),
        page_count: 3,
    }
}

#[test]
fn layout_paths() {
    let root = "/dl".to_string();
    let comic = "Sample".to_string();
    let ep = "Ch.1".to_string();
    assert_eq!(temp_download_dir(&root, &comic, &ep), "/dl/Sample/.下载中-Ch.1");
    assert_eq!(final_download_dir(&root, &comic, &ep), "/dl/Sample/Ch.1");
    assert_eq!(
        bonus_download_dir(&root, &comic, &"extra".to_string()),
        "/dl/Sample/特典/extra"
    );
}

#[test]
fn image_names_are_zero_padded() {
    assert_eq!(image_file_name(1), "001.jpg");
    assert_eq!(image_file_name(12), "012.jpg");
    assert_eq!(image_file_name(123), "123.jpg");
    assert_eq!(image_file_name(999), "999.jpg");
    assert_eq!(image_file_name(1000), "1000.jpg");
}

#[test]
fn image_names_sort_in_reading_order() {
    let mut names: Vec<String> = (1..=15).map(image_file_name).collect();
    let sorted = {
        let mut s = names.clone();
        s.sort();
        s
    };
    assert_eq!(names, sorted);
    names.reverse();
    assert_ne!(names, sorted);
}

#[test]
fn archive_entries_list_images_then_sidecar() {
    let names = archive_entry_names(3);
    assert_eq!(names, vec!["001.jpg", "002.jpg", "003.jpg", "ComicInfo.xml"]);
}

#[test]
fn cbz_finalize_plan() {
    let plan = finalize_plan(
        &ArchiveFormat::Cbz,
        &"/dl".to_string(),
        &"Sample".to_string(),
        &"Ch.1".to_string(),
        &meta(),
    );
    match plan {
        FinalizePlan::WriteArchive { comic_info_path, archive_path, remove_dir, .. } => {
            assert_eq!(comic_info_path, "/dl/Sample/.下载中-Ch.1/ComicInfo.xml");
            assert_eq!(archive_path, "/dl/Sample/Ch.1.cbz");
            assert_eq!(remove_dir, "/dl/Sample/.下载中-Ch.1");
        }
        _ => panic!("expected archive plan, got a rename"),
    }
}

#[test]
fn zip_extension() {
    let plan = finalize_plan(
        &ArchiveFormat::Zip,
        &"/dl".to_string(),
        &"Sample".to_string(),
        &"Ch.1".to_string(),
        &meta(),
    );
    match plan {
        FinalizePlan::WriteArchive { archive_path, .. } => {
            assert_eq!(archive_path, "/dl/Sample/Ch.1.zip");
        }
        _ => panic!("expected archive plan"),
    }
}

#[test]
fn image_finalize_plan_renames() {
    let plan = finalize_plan(
        &ArchiveFormat::Image,
        &"/dl".to_string(),
        &"Sample".to_string(),
        &"Ch.1".to_string(),
        &meta(),
    );
    match plan {
        FinalizePlan::ReplaceDir { rename_from, rename_to } => {
            assert_eq!(rename_from, "/dl/Sample/.下载中-Ch.1");
            assert_eq!(rename_to, "/dl/Sample/Ch.1");
        }
        _ => panic!("expected rename plan"),
    }
}

#[test]
fn comic_info_xml_escapes() {
    let xml = comic_info_xml(&meta());
    assert_eq!(
        xml,
        "<?xml version=\"1.0\" encoding=\"utf-8\"?><ComicInfo><Title>Ch.1</Title><Series>Sample</Series><Summary>An &lt;example&gt; &amp; &quot;more&quot;</Summary><Writer>someone</Writer><Genre>comedy</Genre><PageCount>3</PageCount></ComicInfo>"
    );
}
