use bilibili_manga_downloader::album_plus::{AlbumPlus, AlbumPlusDetail, AlbumPlusItem, AlbumPlusRespData};
use bilibili_manga_downloader::comic::{get_episode_title, Comic};
use bilibili_manga_downloader::config::{needs_client_rebuild, proxy_plan, proxy_url, Config, ProxyMode, ProxyPlan};
use bilibili_manga_downloader::archive::ArchiveFormat;
use bilibili_manga_downloader::responses::{
    AutoPayInfoRespData, ComicRespData, EpisodeRespData, FavComicInfoRespData,
    RookieFavTipRespData,
};
use bilibili_manga_downloader::update::{is_newer_version, parse_version_body, release_is_newer};

fn ep(id: i64, title: &str, short: &str) -> EpisodeRespData {
    EpisodeRespData {
        id,
        read: 0,
        pay_mode: 0,
        is_locked: false,
        pay_gold: 0,
        size: 0,
        short_title: short.to_string(),
        is_in_free: false,
        title: title.to_string(),
        cover: String::new(),
        pub_time: String::new(),
        comments: 0,
        unlock_expire_at: String::new(),
        unlock_type: 0,
        allow_wait_free: false,
        progress: String::new(),
        like_count: 0,
        chapter_id: 0,
        type_field: 0,
        extra: 0,
        image_count: 0,
        index_last_modified: String::new(),
        jump_url: String::new(),
    }
}

fn resp() -> ComicRespData {
    ComicRespData {
        id: 26551,
        title: "Sam:ple".to_string(),
        comic_type: 0,
        author_name: vec!["a".to_string()],
        styles: vec![],
        is_finish: 1,
        total: 2,
        ep_list: vec![ep(2, "第2话", "2"), ep(1, "第1话", "1")],
        styles2: vec![],
        fav_comic_info: FavComicInfoRespData { has_fav_activity: false, fav_free_amount: 0, fav_coupon_type: 0 },
        auto_pay_info: AutoPayInfoRespData { auto_pay_orders: vec![], id: 0 },
        story_elems: vec![],
        tags: vec![],
        rookie_fav_tip: RookieFavTipRespData { is_show: false, used: 0, total: 0 },
        authors: vec![],
        comic_alias: vec![],
        horizontal_covers: vec![],
        introduction: String::new(),
        evaluate: String::new(),
    }
}

#[test]
fn episode_titles_combine_and_sanitize() {
    assert_eq!(get_episode_title(&"第1话".to_string(), &"1".to_string()), "1 第1话");
    assert_eq!(get_episode_title(&"Same".to_string(), &"Same".to_string()), "Same");
    assert_eq!(get_episode_title(&"a/b".to_string(), &"x".to_string()), "x a b");
}

#[test]
fn comic_mapping_reverses_and_marks() {
    let mut r = resp();
    r.tags = vec![bilibili_manga_downloader::responses::TagRespData { id: 3, name: "tag".to_string() }];
    let c = Comic::from_resp(&r, &vec![true, false]);
    assert_eq!(c.tags.len(), 1);
    assert_eq!(c.tags[0].id, 3);
    assert_eq!(c.tags[0].name, "tag");
    assert_eq!(c.id, 26551);
    assert_eq!(c.title, "Sam:ple");
    assert_eq!(c.episode_infos.len(), 2);
    // Payload order is newest first; the mapped list reads oldest first.
    assert_eq!(c.episode_infos[0].episode_id, 1);
    assert_eq!(c.episode_infos[0].episode_title, "1 第1话");
    assert_eq!(c.episode_infos[0].comic_title, "Sam：ple");
    assert_eq!(c.episode_infos[0].is_downloaded, false);
    assert_eq!(c.episode_infos[1].episode_id, 2);
    assert_eq!(c.episode_infos[1].is_downloaded, true);
}

#[test]
fn album_plus_mapping_filters_titles() {
    let item = AlbumPlusItem {
        id: 5,
        title: "bonus: art".to_string(),
        cover: String::new(),
        pic: vec![],
        rank: 0,
        detail: String::new(),
        limits: 0,
        pic_type: 0,
        pic_num: 0,
        online_time: String::new(),
        offline_time: String::new(),
        num: 0,
        type_field: 0,
        icon: String::new(),
        activity_url: String::new(),
        activity_name: String::new(),
        item_ids: vec![],
        no_local: false,
        video: None,
        item_infos: vec![],
    };
    let detail = AlbumPlusDetail {
        is_lock: false,
        is_downloaded: false,
        cost: 0,
        reward: 0,
        item,
        unlocked_item_ids: vec![],
    };
    let r = AlbumPlusRespData {
        list: vec![detail],
        icon_url: String::new(),
        comic_title: "Sample".to_string(),
        server_time: String::new(),
    };
    let a = AlbumPlus::from_resp(&r, &vec![true]);
    assert_eq!(a.list.len(), 1);
    assert_eq!(a.list[0].item.title, "bonus： art");
    assert!(a.list[0].is_downloaded);
}

fn base_config() -> Config {
    Config {
        download_dir: "/dl".to_string(),
        archive_format: ArchiveFormat::Image,
        chapter_concurrency: 1,
        image_concurrency: 4,
        proxy_mode: ProxyMode::NoProxy,
        proxy_host: "127.0.0.1".to_string(),
        proxy_port: 7890,
        access_token: String::new(),
        uid: 0,
        cookie: String::new(),
    }
}

#[test]
fn proxy_switch_rebuilds_client() {
    // The UI flips NoProxy to Custom(127.0.0.1, 7890): the engine must be
    // rebuilt, and the new plan carries the custom URL.
    let old_cfg = base_config();
    let mut new_cfg = base_config();
    new_cfg.proxy_mode = ProxyMode::Custom;
    assert!(needs_client_rebuild(&old_cfg, &new_cfg));
    match proxy_plan(&new_cfg.proxy_mode, &new_cfg.proxy_host, new_cfg.proxy_port) {
        ProxyPlan::Custom { url } => assert_eq!(url, "http://127.0.0.1:7890"),
        _ => panic!("expected custom plan"),
    }
    // An unrelated change keeps the old client.
    let mut same = base_config();
    same.download_dir = "/elsewhere".to_string();
    assert!(!needs_client_rebuild(&old_cfg, &same));
}

#[test]
fn proxy_url_format() {
    assert_eq!(proxy_url(&"proxy.local".to_string(), 8080), "http://proxy.local:8080");
}

#[test]
fn version_parsing_and_comparison() {
    assert_eq!(parse_version_body("1.2.3"), Some((1, 2, 3)));
    assert_eq!(parse_version_body("0.10.0"), Some((0, 10, 0)));
    assert_eq!(parse_version_body("1.2"), None);
    assert_eq!(parse_version_body("1.2.3.4"), None);
    assert_eq!(parse_version_body("1.x.3"), None);
    assert_eq!(parse_version_body(""), None);
    assert!(is_newer_version((1, 2, 4), (1, 2, 3)));
    assert!(is_newer_version((2, 0, 0), (1, 9, 9)));
    assert!(!is_newer_version((1, 2, 3), (1, 2, 3)));
    assert!(release_is_newer("v1.3.0", (1, 2, 9)));
    assert!(!release_is_newer("v1.2.0", (1, 2, 9)));
    assert!(!release_is_newer("1.3.0", (1, 2, 9)));
    assert!(!release_is_newer("vNext", (0, 0, 0)));
}
