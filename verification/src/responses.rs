//! The typed shapes of the service's response payloads, as plain data. The
//! network layer parses JSON into these outside the library; everything
//! the core computes from them is specified here.
use vstd::prelude::*;

verus! {

#[derive(Clone, Debug, PartialEq)]
pub struct GenerateQrcodeRespData {
    pub url: String,
    pub qrcode_key: String,
}

#[derive(Clone, Debug, PartialEq)]
pub struct QrcodeStatusRespData {
    pub url: String,
    pub refresh_token: String,
    pub timestamp: i64,
    pub code: i64,
    pub message: String,
}

#[derive(Clone, Debug, PartialEq)]
pub struct Buvid3RespData {
    pub buvid: String,
}

#[derive(Clone, Debug, PartialEq)]
pub struct WikiRespData {
    pub id: i32,
    pub title: String,
    pub origin_title: String,
    pub vertical_cover: String,
    pub producer: String,
    pub author_name: Vec<String>,
    pub publish_time: String,
    pub frequency: String,
}

#[derive(Clone, Debug, PartialEq)]
pub struct MangaInSearchRespData {
    pub id: i32,
    pub title: String,
    pub org_title: String,
    pub horizontal_cover: String,
    pub square_cover: String,
    pub vertical_cover: String,
    pub author_name: Vec<String>,
    pub styles: Vec<String>,
    pub is_finish: i32,
    pub allow_wait_free: bool,
    pub discount_type: i32,
    pub type_field: i32,
    pub wiki: WikiRespData,
    pub numbers: i32,
    pub jump_value: String,
    pub real_title: String,
}

#[derive(Clone, Debug, PartialEq)]
pub struct RecommendRespData {
    pub id: i32,
    pub title: String,
    pub horizontal_cover: String,
    pub square_cover: String,
    pub vertical_cover: String,
    pub last_short_title: String,
    pub recommendation: String,
    pub is_finish: i32,
    pub total: i32,
    pub allow_wait_free: bool,
    pub author_name: Vec<String>,
    pub styles: Vec<String>,
    pub discount_type: i32,
}

#[derive(Clone, Debug, PartialEq)]
pub struct BannerRespData {
    pub icon: String,
    pub title: String,
    pub url: String,
}

#[derive(Clone, Debug, PartialEq)]
pub struct SearchMangaRespData {
    pub list: Vec<MangaInSearchRespData>,
    pub total_page: i32,
    pub total_num: i32,
    pub recommends: Vec<RecommendRespData>,
    pub similar: String,
    pub se_id: String,
    pub banner: BannerRespData,
}

/// One chapter as the comic-detail endpoint reports it. The upstream `ord`
/// field is a floating-point ordinal the core never reads, so it stays
/// outside the library.
#[derive(Clone, Debug, PartialEq)]
pub struct EpisodeRespData {
    pub id: i64,
    pub read: i64,
    pub pay_mode: i64,
    pub is_locked: bool,
    pub pay_gold: i64,
    pub size: i64,
    pub short_title: String,
    pub is_in_free: bool,
    pub title: String,
    pub cover: String,
    pub pub_time: String,
    pub comments: i64,
    pub unlock_expire_at: String,
    pub unlock_type: i64,
    pub allow_wait_free: bool,
    pub progress: String,
    pub like_count: i64,
    pub chapter_id: i64,
    pub type_field: i64,
    pub extra: i64,
    pub image_count: i64,
    pub index_last_modified: String,
    pub jump_url: String,
}

#[derive(Clone, Debug, PartialEq)]
pub struct Styles2RespData {
    pub id: i64,
    pub name: String,
}

#[derive(Clone, Debug, PartialEq)]
pub struct FavComicInfoRespData {
    pub has_fav_activity: bool,
    pub fav_free_amount: i64,
    pub fav_coupon_type: i64,
}

#[derive(Clone, Debug, PartialEq)]
pub struct AutoPayOrderRespData {
    pub id: i64,
    pub title: String,
}

#[derive(Clone, Debug, PartialEq)]
pub struct AutoPayInfoRespData {
    pub auto_pay_orders: Vec<AutoPayOrderRespData>,
    pub id: i64,
}

#[derive(Clone, Debug, PartialEq)]
pub struct StoryElemRespData {
    pub id: i64,
    pub name: String,
}

#[derive(Clone, Debug, PartialEq)]
pub struct TagRespData {
    pub id: i64,
    pub name: String,
}

#[derive(Clone, Debug, PartialEq)]
pub struct RookieFavTipRespData {
    pub is_show: bool,
    pub used: i64,
    pub total: i64,
}

#[derive(Clone, Debug, PartialEq)]
pub struct IncreaseRespData {
    pub days: i64,
    pub increase_percent: i64,
}

#[derive(Clone, Debug, PartialEq)]
pub struct AuthorRespData {
    pub id: i64,
    pub name: String,
    pub cname: String,
}

/// The comic-detail payload, reduced to the fields the core consumes: its
/// identity, titles and the chapter list. The presentational remainder of
/// the payload stays with the UI layer.
#[derive(Clone, Debug, PartialEq)]
pub struct ComicRespData {
    pub id: i64,
    pub title: String,
    pub comic_type: i64,
    pub author_name: Vec<String>,
    pub styles: Vec<String>,
    pub is_finish: i64,
    pub total: i64,
    pub ep_list: Vec<EpisodeRespData>,
    pub styles2: Vec<Styles2RespData>,
    pub fav_comic_info: FavComicInfoRespData,
    pub auto_pay_info: AutoPayInfoRespData,
    pub story_elems: Vec<StoryElemRespData>,
    pub tags: Vec<TagRespData>,
    pub rookie_fav_tip: RookieFavTipRespData,
    pub authors: Vec<AuthorRespData>,
    pub comic_alias: Vec<String>,
    pub horizontal_covers: Vec<String>,
    pub introduction: String,
    pub evaluate: String,
}

#[derive(Clone, Debug, PartialEq)]
pub struct ImageRespData {
    pub path: String,
    pub video_path: String,
    pub video_size: String,
    pub x: i64,
    pub y: i64,
}

/// The per-chapter image manifest. The upstream also carries a video
/// payload of loose JSON the core never touches; it stays outside.
#[derive(Clone, Debug, PartialEq)]
pub struct ImageIndexRespData {
    pub host: String,
    pub images: Vec<ImageRespData>,
    pub last_modified: String,
    pub path: String,
}

#[derive(Clone, Debug, PartialEq)]
pub struct UrlTokenRespData {
    pub url: String,
    pub token: String,
}

#[derive(Clone, Debug, PartialEq)]
pub struct LevelInfoRespData {
    pub current_level: i64,
    pub current_min: i64,
    pub current_exp: i64,
    pub next_exp: String,
}

#[derive(Clone, Debug, PartialEq)]
pub struct OfficialRespData {
    pub role: i64,
    pub title: String,
    pub desc: String,
    pub type_field: i64,
}

#[derive(Clone, Debug, PartialEq)]
pub struct OfficialVerifyRespData {
    pub type_field: i64,
    pub desc: String,
}

#[derive(Clone, Debug, PartialEq)]
pub struct PendantRespData {
    pub pid: i64,
    pub name: String,
    pub image: String,
    pub expire: i64,
    pub image_enhance: String,
    pub image_enhance_frame: String,
    pub n_pid: i64,
}

#[derive(Clone, Debug, PartialEq)]
pub struct LabelRespData {
    pub path: String,
    pub text: String,
    pub label_theme: String,
    pub text_color: String,
    pub bg_style: i64,
    pub bg_color: String,
    pub border_color: String,
    pub use_img_label: bool,
    pub img_label_uri_hans: String,
    pub img_label_uri_hant: String,
    pub img_label_uri_hans_static: String,
    pub img_label_uri_hant_static: String,
}

#[derive(Clone, Debug, PartialEq)]
pub struct IconResourceRespData {}

#[derive(Clone, Debug, PartialEq)]
pub struct AvatarIconRespData {
    pub icon_resource: IconResourceRespData,
}

#[derive(Clone, Debug, PartialEq)]
pub struct VipRespData {
    pub type_field: i64,
    pub status: i64,
    pub due_date: i64,
    pub vip_pay_type: i64,
    pub theme_type: i64,
    pub label: LabelRespData,
    pub avatar_subscript: i64,
    pub nickname_color: String,
    pub role: i64,
    pub avatar_subscript_url: String,
    pub tv_vip_status: i64,
    pub tv_vip_pay_type: i64,
    pub tv_due_date: i64,
    pub avatar_icon: AvatarIconRespData,
}

#[derive(Clone, Debug, PartialEq)]
pub struct WalletRespData {
    pub mid: i64,
    pub bcoin_balance: i64,
    pub coupon_balance: i64,
    pub coupon_due_time: i64,
}

#[derive(Clone, Debug, PartialEq)]
pub struct WbiImgRespData {
    pub img_url: String,
    pub sub_url: String,
}

#[derive(Clone, Debug, PartialEq)]
pub struct UserProfileRespData {
    pub is_login: bool,
    pub email_verified: i64,
    pub face: String,
    pub face_nft: i64,
    pub face_nft_type: i64,
    pub level_info: LevelInfoRespData,
    pub mid: i64,
    pub mobile_verified: i64,
    pub money: i64,
    pub moral: i64,
    pub official: OfficialRespData,
    pub official_verify: OfficialVerifyRespData,
    pub pendant: PendantRespData,
    pub scores: i64,
    pub uname: String,
    pub vip_due_date: i64,
    pub vip_status: i64,
    pub vip_type: i64,
    pub vip_pay_type: i64,
    pub vip_theme_type: i64,
    pub vip_label: LabelRespData,
    pub vip_avatar_subscript: i64,
    pub vip_nickname_color: String,
    pub vip: VipRespData,
    pub wallet: WalletRespData,
    pub has_shop: bool,
    pub shop_url: String,
    pub answer_status: i64,
    pub is_senior_member: i64,
    pub wbi_img: WbiImgRespData,
    pub is_jury: bool,
}

#[derive(Clone, Debug, PartialEq)]
pub struct TokenInfoRespData {
    pub mid: i64,
    pub access_token: String,
    pub refresh_token: String,
    pub expires_in: i64,
}

#[derive(Clone, Debug, PartialEq)]
pub struct CookieRespData {
    pub name: String,
    pub value: String,
    pub http_only: i64,
    pub expires: i64,
    pub secure: i64,
}

#[derive(Clone, Debug, PartialEq)]
pub struct CookieInfoRespData {
    pub cookies: Vec<CookieRespData>,
    pub domains: Vec<String>,
}

} // verus!
