use bilibili_manga_downloader::api::{
    comic_detail_referer, complete_urls, episode_referer, json_string_array, manifest_paths,
};
use bilibili_manga_downloader::envelope::{
    classify_response, is_incomplete_cookie, is_qr_poll_code, is_transient_status, retry_decision,
};
use bilibili_manga_downloader::errors::DownloadError;
use bilibili_manga_downloader::responses::{ImageIndexRespData, ImageRespData, UrlTokenRespData};

#[test]
fn referers() {
    assert_eq!(
        comic_detail_referer(26551),
        "https://manga.bilibili.com/detail/mc26551?from=manga_person"
    );
    assert_eq!(episode_referer(26551, 42), "https://manga.bilibili.com/mc26551/42");
}

#[test]
fn complete_urls_append_tokens_in_order() {
    let tokens = vec![
        UrlTokenRespData { url: "https://cdn/a.jpg".to_string(), token: "t1".to_string() },
        UrlTokenRespData { url: "https://cdn/b.jpg".to_string(), token: "t2".to_string() },
    ];
    let urls = complete_urls(&tokens);
    assert_eq!(urls, vec!["https://cdn/a.jpg?token=t1", "https://cdn/b.jpg?token=t2"]);
    assert_eq!(urls.len(), tokens.len());
}

#[test]
fn manifest_paths_in_manifest_order() {
    let data = ImageIndexRespData {
        host: "https://cdn".to_string(),
        images: vec![
            ImageRespData { path: "/p1".to_string(), video_path: String::new(), video_size: String::new(), x: 800, y: 1200 },
            ImageRespData { path: "/p2".to_string(), video_path: String::new(), video_size: String::new(), x: 800, y: 1200 },
        ],
        last_modified: String::new(),
        path: String::new(),
    };
    assert_eq!(manifest_paths(&data), vec!["/p1", "/p2"]);
}

#[test]
fn json_array_payload() {
    let v = vec!["/p1".to_string(), "a\"b\\c".to_string()];
    assert_eq!(json_string_array(&v), "[\"/p1\",\"a\\\"b\\\\c\"]");
    assert_eq!(json_string_array(&vec![]), "[]");
}

#[test]
fn envelope_classification() {
    assert_eq!(classify_response(200, 0, true), Ok(()));
    assert_eq!(classify_response(503, 0, true), Err(DownloadError::HttpStatus { code: 503 }));
    assert_eq!(classify_response(200, 99, true), Err(DownloadError::EnvelopeCode { code: 99 }));
    assert_eq!(classify_response(200, -404, false), Err(DownloadError::EnvelopeCode { code: -404 }));
    assert_eq!(classify_response(200, 0, false), Err(DownloadError::Decode));
    assert!(is_incomplete_cookie(99));
    assert!(!is_incomplete_cookie(0));
}

#[test]
fn qr_poll_codes_are_pending() {
    assert!(is_qr_poll_code(86038));
    assert!(is_qr_poll_code(86039));
    assert!(is_qr_poll_code(86090));
    assert!(!is_qr_poll_code(0));
    assert!(!is_qr_poll_code(99));
}

#[test]
fn retry_policy() {
    assert!(is_transient_status(500) && is_transient_status(599));
    assert!(!is_transient_status(404) && !is_transient_status(200));
    assert_eq!(retry_decision(0, 3, true), Some(500));
    assert_eq!(retry_decision(1, 3, true), Some(1000));
    assert_eq!(retry_decision(2, 3, true), Some(2000));
    assert_eq!(retry_decision(3, 3, true), None);
    assert_eq!(retry_decision(0, 3, false), None);
}
