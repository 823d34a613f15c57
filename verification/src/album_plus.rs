//! The bonus-gallery ("album plus") model: titles pass through the
//! filename sanitizer and each item learns whether it is already on disk.
use vstd::prelude::*;
use vstd::string::*;

use crate::sanitize::{filename_filter, sanitize_spec};

verus! {

#[derive(Clone, Debug, PartialEq)]
pub struct ItemInfo {
    pub id: i64,
    pub title: String,
}

#[derive(Clone, Debug, PartialEq)]
pub struct Video {
    pub id: i64,
    pub url: String,
    pub cover: String,
    pub duration: String,
}

#[derive(Clone, Debug, PartialEq)]
pub struct AlbumPlusItem {
    pub id: i64,
    pub title: String,
    pub cover: String,
    pub pic: Vec<String>,
    pub rank: i64,
    pub detail: String,
    pub limits: i64,
    pub pic_type: i64,
    pub pic_num: i64,
    pub online_time: String,
    pub offline_time: String,
    pub num: i64,
    pub type_field: i64,
    pub icon: String,
    pub activity_url: String,
    pub activity_name: String,
    pub item_ids: Vec<i64>,
    pub no_local: bool,
    pub video: Option<Video>,
    pub item_infos: Vec<ItemInfo>,
}

#[derive(Clone, Debug, PartialEq)]
pub struct AlbumPlusDetail {
    pub is_lock: bool,
    pub is_downloaded: bool,
    pub cost: i64,
    pub reward: i64,
    pub item: AlbumPlusItem,
    pub unlocked_item_ids: Vec<i64>,
}

#[derive(Clone, Debug, PartialEq)]
pub struct AlbumPlus {
    pub list: Vec<AlbumPlusDetail>,
    pub icon_url: String,
    pub comic_title: String,
    pub server_time: String,
}

/// The bonus-gallery payload as the service reports it: raw titles, no
/// download marks yet.
#[derive(Clone, Debug, PartialEq)]
pub struct AlbumPlusRespData {
    pub list: Vec<AlbumPlusDetail>,
    pub icon_url: String,
    pub comic_title: String,
    pub server_time: String,
}

impl AlbumPlus {
    /// Build the UI gallery from the payload: the comic title and each
    /// item title pass through the filename filter, and `downloaded[i]`
    /// marks item `i` as already on disk.
    pub fn from_resp(resp: &AlbumPlusRespData, downloaded: &Vec<bool>) -> (r: AlbumPlus)
        requires
            downloaded@.len() == resp.list@.len(),
        ensures
            r.icon_url@ == resp.icon_url@,
            r.comic_title@ == resp.comic_title@,
            r.server_time@ == resp.server_time@,
            r.list@.len() == resp.list@.len(),
            forall|i: int|
                0 <= i < r.list@.len() ==> {
                    let d = #[trigger] r.list@[i];
                    let o = resp.list@[i];
                    &&& d.is_lock == o.is_lock
                    &&& d.is_downloaded == downloaded@[i]
                    &&& d.cost == o.cost
                    &&& d.reward == o.reward
                    &&& d.item.id == o.item.id
                    &&& d.item.title@ == sanitize_spec(o.item.title@)
                    &&& d.unlocked_item_ids@ == o.unlocked_item_ids@
                },
    {
        let n = resp.list.len();
        let mut list: Vec<AlbumPlusDetail> = Vec::new();
        let mut i: usize = 0;
        while i < n
            invariant
                i <= n,
                n == resp.list@.len(),
                downloaded@.len() == n,
                list@.len() == i,
                forall|j: int|
                    0 <= j < i ==> {
                        let d = #[trigger] list@[j];
                        let o = resp.list@[j];
                        &&& d.is_lock == o.is_lock
                        &&& d.is_downloaded == downloaded@[j]
                        &&& d.cost == o.cost
                        &&& d.reward == o.reward
                        &&& d.item.id == o.item.id
                        &&& d.item.title@ == sanitize_spec(o.item.title@)
                        &&& d.unlocked_item_ids@ == o.unlocked_item_ids@
                    },
            decreases n - i,
        {
            let o = &resp.list[i];
            let oi = &o.item;
            let video = match &oi.video {
                Some(v) => Some(
                    Video {
                        id: v.id,
                        url: v.url.clone(),
                        cover: v.cover.clone(),
                        duration: v.duration.clone(),
                    },
                ),
                None => None,
            };
            let item = AlbumPlusItem {
                id: oi.id,
                title: filename_filter(oi.title.as_str()),
                cover: oi.cover.clone(),
                pic: oi.pic.clone(),
                rank: oi.rank,
                detail: oi.detail.clone(),
                limits: oi.limits,
                pic_type: oi.pic_type,
                pic_num: oi.pic_num,
                online_time: oi.online_time.clone(),
                offline_time: oi.offline_time.clone(),
                num: oi.num,
                type_field: oi.type_field,
                icon: oi.icon.clone(),
                activity_url: oi.activity_url.clone(),
                activity_name: oi.activity_name.clone(),
                item_ids: oi.item_ids.clone(),
                no_local: oi.no_local,
                video,
                item_infos: oi.item_infos.clone(),
            };
            let d = AlbumPlusDetail {
                is_lock: o.is_lock,
                is_downloaded: downloaded[i],
                cost: o.cost,
                reward: o.reward,
                item,
                unlocked_item_ids: o.unlocked_item_ids.clone(),
            };
            list.push(d);
            i = i + 1;
        }
        AlbumPlus {
            list,
            icon_url: resp.icon_url.clone(),
            comic_title: resp.comic_title.clone(),
            server_time: resp.server_time.clone(),
        }
    }
}

} // verus!
