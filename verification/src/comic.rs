//! The comic model handed to the UI, built from the comic-detail payload:
//! titles pass through the filename sanitizer, the chapter list is
//! reversed into reading order, and each chapter learns whether it is
//! already on disk.
use vstd::prelude::*;
use vstd::string::*;

use crate::responses::{ComicRespData, EpisodeRespData};
use crate::sanitize::{filename_filter, sanitize_spec, trim_spec};

verus! {

#[derive(Clone, Debug, PartialEq)]
pub struct EpisodeInfo {
    pub episode_id: i64,
    pub episode_title: String,
    pub comic_id: i64,
    pub comic_title: String,
    pub is_locked: bool,
    pub is_downloaded: bool,
}

#[derive(Clone, Debug, PartialEq)]
pub struct Styles2 {
    pub id: i64,
    pub name: String,
}

#[derive(Clone, Debug, PartialEq)]
pub struct FavComicInfo {
    pub has_fav_activity: bool,
    pub fav_free_amount: i64,
    pub fav_coupon_type: i64,
}

#[derive(Clone, Debug, PartialEq)]
pub struct AutoPayOrder {
    pub id: i64,
    pub title: String,
}

#[derive(Clone, Debug, PartialEq)]
pub struct AutoPayInfo {
    pub auto_pay_orders: Vec<AutoPayOrder>,
    pub id: i64,
}

#[derive(Clone, Debug, PartialEq)]
pub struct StoryElem {
    pub id: i64,
    pub name: String,
}

#[derive(Clone, Debug, PartialEq)]
pub struct Tag {
    pub id: i64,
    pub name: String,
}

#[derive(Clone, Debug, PartialEq)]
pub struct RookieFavTip {
    pub is_show: bool,
    pub used: i64,
    pub total: i64,
}

#[derive(Clone, Debug, PartialEq)]
pub struct Author {
    pub id: i64,
    pub name: String,
    pub cname: String,
}

#[derive(Clone, Debug, PartialEq)]
pub struct Increase {
    pub days: i64,
    pub increase_percent: i64,
}

/// The comic handed to the UI: identity, titles, the chapter list in
/// reading order, and the payload's descriptive lists mapped one to one.
#[derive(Clone, Debug, PartialEq)]
pub struct Comic {
    pub id: i64,
    pub title: String,
    pub comic_type: i64,
    pub author_name: Vec<String>,
    pub styles: Vec<String>,
    pub is_finish: i64,
    pub total: i64,
    pub episode_infos: Vec<EpisodeInfo>,
    pub styles2: Vec<Styles2>,
    pub fav_comic_info: FavComicInfo,
    pub auto_pay_info: AutoPayInfo,
    pub story_elems: Vec<StoryElem>,
    pub tags: Vec<Tag>,
    pub rookie_fav_tip: RookieFavTip,
    pub authors: Vec<Author>,
    pub introduction: String,
    pub evaluate: String,
}

/// A chapter's display title: both titles sanitized; when they differ the
/// short title is prefixed, and the result is trimmed.
pub open spec fn episode_title_spec(title: Seq<char>, short_title: Seq<char>) -> Seq<char> {
    let t = sanitize_spec(title);
    let st = sanitize_spec(short_title);
    if t == st {
        trim_spec(t)
    } else {
        trim_spec(st + " "@ + t)
    }
}

/// Compose a chapter's display title from its title and short title.
pub fn get_episode_title(title: &String, short_title: &String) -> (r: String)
    ensures
        r@ == episode_title_spec(title@, short_title@),
{
    let t = filename_filter(title.as_str());
    let st = filename_filter(short_title.as_str());
    if t == st {
        let cs = crate::text::string_chars(t.as_str());
        let trimmed = crate::sanitize::trim_chars(&cs);
        crate::text::chars_to_string(&trimmed)
    } else {
        let mut joined = st;
        joined.append(" ");
        joined.append(t.as_str());
        let cs = crate::text::string_chars(joined.as_str());
        let trimmed = crate::sanitize::trim_chars(&cs);
        crate::text::chars_to_string(&trimmed)
    }
}

/// What one chapter entry of the mapped comic must hold, relative to the
/// corresponding manifest entry.
pub open spec fn episode_info_matches(
    info: EpisodeInfo,
    ep: EpisodeRespData,
    comic_id: i64,
    comic_title: Seq<char>,
    downloaded: bool,
) -> bool {
    &&& info.episode_id == ep.id
    &&& info.episode_title@ == episode_title_spec(ep.title@, ep.short_title@)
    &&& info.comic_id == comic_id
    &&& info.comic_title@ == comic_title
    &&& info.is_locked == ep.is_locked
    &&& info.is_downloaded == downloaded
}

impl Comic {
    /// Build the UI comic from the detail payload. `downloaded[i]` says
    /// whether chapter `i` of the payload's list already has its final
    /// directory on disk; the chapter list comes out reversed, so the
    /// newest-first payload order becomes reading order.
    pub fn from_resp(resp: &ComicRespData, downloaded: &Vec<bool>) -> (r: Comic)
        requires
            downloaded@.len() == resp.ep_list@.len(),
        ensures
            r.id == resp.id,
            r.title@ == resp.title@,
            r.comic_type == resp.comic_type,
            r.is_finish == resp.is_finish,
            r.total == resp.total,
            r.episode_infos@.len() == resp.ep_list@.len(),
            forall|i: int|
                0 <= i < r.episode_infos@.len() ==> episode_info_matches(
                    #[trigger] r.episode_infos@[i],
                    resp.ep_list@[resp.ep_list@.len() - 1 - i],
                    resp.id,
                    sanitize_spec(resp.title@),
                    downloaded@[resp.ep_list@.len() - 1 - i],
                ),
            r.styles2@.len() == resp.styles2@.len(),
            forall|i: int|
                0 <= i < r.styles2@.len() ==> #[trigger] r.styles2@[i].id == resp.styles2@[i].id
                    && r.styles2@[i].name@ == resp.styles2@[i].name@,
            r.fav_comic_info.has_fav_activity == resp.fav_comic_info.has_fav_activity,
            r.fav_comic_info.fav_free_amount == resp.fav_comic_info.fav_free_amount,
            r.fav_comic_info.fav_coupon_type == resp.fav_comic_info.fav_coupon_type,
            r.auto_pay_info.id == resp.auto_pay_info.id,
            r.auto_pay_info.auto_pay_orders@.len() == resp.auto_pay_info.auto_pay_orders@.len(),
            forall|i: int|
                0 <= i < r.auto_pay_info.auto_pay_orders@.len()
                    ==> #[trigger] r.auto_pay_info.auto_pay_orders@[i].id
                    == resp.auto_pay_info.auto_pay_orders@[i].id
                    && r.auto_pay_info.auto_pay_orders@[i].title@
                    == resp.auto_pay_info.auto_pay_orders@[i].title@,
            r.story_elems@.len() == resp.story_elems@.len(),
            forall|i: int|
                0 <= i < r.story_elems@.len() ==> #[trigger] r.story_elems@[i].id
                    == resp.story_elems@[i].id && r.story_elems@[i].name@
                    == resp.story_elems@[i].name@,
            r.tags@.len() == resp.tags@.len(),
            forall|i: int|
                0 <= i < r.tags@.len() ==> #[trigger] r.tags@[i].id == resp.tags@[i].id
                    && r.tags@[i].name@ == resp.tags@[i].name@,
            r.rookie_fav_tip.is_show == resp.rookie_fav_tip.is_show,
            r.rookie_fav_tip.used == resp.rookie_fav_tip.used,
            r.rookie_fav_tip.total == resp.rookie_fav_tip.total,
            r.authors@.len() == resp.authors@.len(),
            forall|i: int|
                0 <= i < r.authors@.len() ==> #[trigger] r.authors@[i].id == resp.authors@[i].id
                    && r.authors@[i].name@ == resp.authors@[i].name@ && r.authors@[i].cname@
                    == resp.authors@[i].cname@,
    {
        let comic_title = filename_filter(resp.title.as_str());
        let n = resp.ep_list.len();
        let mut episode_infos: Vec<EpisodeInfo> = Vec::new();
        let mut i: usize = 0;
        while i < n
            invariant
                i <= n,
                n == resp.ep_list@.len(),
                downloaded@.len() == n,
                comic_title@ == sanitize_spec(resp.title@),
                episode_infos@.len() == i,
                forall|j: int|
                    0 <= j < i ==> episode_info_matches(
                        #[trigger] episode_infos@[j],
                        resp.ep_list@[n - 1 - j],
                        resp.id,
                        sanitize_spec(resp.title@),
                        downloaded@[n - 1 - j],
                    ),
            decreases n - i,
        {
            let idx = n - 1 - i;
            let ep = &resp.ep_list[idx];
            let episode_title = get_episode_title(&ep.title, &ep.short_title);
            let info = EpisodeInfo {
                episode_id: ep.id,
                episode_title,
                comic_id: resp.id,
                comic_title: comic_title.clone(),
                is_locked: ep.is_locked,
                is_downloaded: downloaded[idx],
            };
            episode_infos.push(info);
            i = i + 1;
        }
        let mut styles2: Vec<Styles2> = Vec::new();
        let mut i: usize = 0;
        while i < resp.styles2.len()
            invariant
                i <= resp.styles2@.len(),
                styles2@.len() == i,
                forall|j: int|
                    0 <= j < i ==> #[trigger] styles2@[j].id == resp.styles2@[j].id
                        && styles2@[j].name@ == resp.styles2@[j].name@,
            decreases resp.styles2@.len() - i,
        {
            styles2.push(Styles2 { id: resp.styles2[i].id, name: resp.styles2[i].name.clone() });
            i = i + 1;
        }
        let mut auto_pay_orders: Vec<AutoPayOrder> = Vec::new();
        let mut i: usize = 0;
        while i < resp.auto_pay_info.auto_pay_orders.len()
            invariant
                i <= resp.auto_pay_info.auto_pay_orders@.len(),
                auto_pay_orders@.len() == i,
                forall|j: int|
                    0 <= j < i ==> #[trigger] auto_pay_orders@[j].id
                        == resp.auto_pay_info.auto_pay_orders@[j].id && auto_pay_orders@[j].title@
                        == resp.auto_pay_info.auto_pay_orders@[j].title@,
            decreases resp.auto_pay_info.auto_pay_orders@.len() - i,
        {
            auto_pay_orders.push(
                AutoPayOrder {
                    id: resp.auto_pay_info.auto_pay_orders[i].id,
                    title: resp.auto_pay_info.auto_pay_orders[i].title.clone(),
                },
            );
            i = i + 1;
        }
        let mut story_elems: Vec<StoryElem> = Vec::new();
        let mut i: usize = 0;
        while i < resp.story_elems.len()
            invariant
                i <= resp.story_elems@.len(),
                story_elems@.len() == i,
                forall|j: int|
                    0 <= j < i ==> #[trigger] story_elems@[j].id == resp.story_elems@[j].id
                        && story_elems@[j].name@ == resp.story_elems@[j].name@,
            decreases resp.story_elems@.len() - i,
        {
            story_elems.push(
                StoryElem { id: resp.story_elems[i].id, name: resp.story_elems[i].name.clone() },
            );
            i = i + 1;
        }
        let mut tags: Vec<Tag> = Vec::new();
        let mut i: usize = 0;
        while i < resp.tags.len()
            invariant
                i <= resp.tags@.len(),
                tags@.len() == i,
                forall|j: int|
                    0 <= j < i ==> #[trigger] tags@[j].id == resp.tags@[j].id && tags@[j].name@
                        == resp.tags@[j].name@,
            decreases resp.tags@.len() - i,
        {
            tags.push(Tag { id: resp.tags[i].id, name: resp.tags[i].name.clone() });
            i = i + 1;
        }
        let mut authors: Vec<Author> = Vec::new();
        let mut i: usize = 0;
        while i < resp.authors.len()
            invariant
                i <= resp.authors@.len(),
                authors@.len() == i,
                forall|j: int|
                    0 <= j < i ==> #[trigger] authors@[j].id == resp.authors@[j].id
                        && authors@[j].name@ == resp.authors@[j].name@ && authors@[j].cname@
                        == resp.authors@[j].cname@,
            decreases resp.authors@.len() - i,
        {
            authors.push(
                Author {
                    id: resp.authors[i].id,
                    name: resp.authors[i].name.clone(),
                    cname: resp.authors[i].cname.clone(),
                },
            );
            i = i + 1;
        }
        Comic {
            id: resp.id,
            title: resp.title.clone(),
            comic_type: resp.comic_type,
            author_name: resp.author_name.clone(),
            styles: resp.styles.clone(),
            is_finish: resp.is_finish,
            total: resp.total,
            episode_infos,
            styles2,
            fav_comic_info: FavComicInfo {
                has_fav_activity: resp.fav_comic_info.has_fav_activity,
                fav_free_amount: resp.fav_comic_info.fav_free_amount,
                fav_coupon_type: resp.fav_comic_info.fav_coupon_type,
            },
            auto_pay_info: AutoPayInfo { auto_pay_orders, id: resp.auto_pay_info.id },
            story_elems,
            tags,
            rookie_fav_tip: RookieFavTip {
                is_show: resp.rookie_fav_tip.is_show,
                used: resp.rookie_fav_tip.used,
                total: resp.rookie_fav_tip.total,
            },
            authors,
            introduction: resp.introduction.clone(),
            evaluate: resp.evaluate.clone(),
        }
    }
}

} // verus!
