//! Archive finalization planning: what a successfully downloaded chapter
//! becomes on disk — an in-place directory rename, or a zip/cbz archive
//! holding the images and a ComicInfo.xml sidecar — and the exact entry
//! names the archive carries.
use vstd::prelude::*;
use vstd::string::*;

use crate::comicinfo::{comic_info_xml, comic_info_xml_spec, ComicMetadata};
use crate::paths::{final_dir_spec, image_file_name, image_name_spec, temp_dir_spec};

verus! {

#[derive(Clone, Copy, Debug, PartialEq, Eq, Structural)]
pub enum ArchiveFormat {
    Image,
    Zip,
    Cbz,
}

impl ArchiveFormat {
    /// The archive file extension; only zip and cbz chapters carry one.
    pub fn extension(&self) -> (r: &'static str)
        requires
            !(self is Image),
        ensures
            self is Zip ==> r@ == "zip"@,
            self is Cbz ==> r@ == "cbz"@,
    {
        match self {
            ArchiveFormat::Zip => "zip",
            ArchiveFormat::Cbz => "cbz",
            ArchiveFormat::Image => "zip",
        }
    }
}

/// The names inside a finished chapter archive: the images in manifest
/// order, then the metadata sidecar.
pub fn archive_entry_names(total: u32) -> (r: Vec<String>)
    requires
        total < 0xffffffff,
    ensures
        r@.len() == total + 1,
        forall|i: int| 0 <= i < total ==> #[trigger] r@[i]@ == image_name_spec((i + 1) as nat),
        r@[total as int]@ == "ComicInfo.xml"@,
{
    let mut r: Vec<String> = Vec::new();
    let mut i: u32 = 0;
    while i < total
        invariant
            i <= total,
            r@.len() == i,
            forall|j: int| 0 <= j < i ==> #[trigger] r@[j]@ == image_name_spec((j + 1) as nat),
        decreases total - i,
    {
        r.push(image_file_name(i + 1));
        i = i + 1;
    }
    r.push(String::from_str("ComicInfo.xml"));
    r
}

/// The steps finalization takes, fully determined by the configuration and
/// the chapter: either replace the final directory by the temp directory,
/// or write the metadata sidecar, pack everything into the archive and
/// remove the temp directory.
pub enum FinalizePlan {
    ReplaceDir { rename_from: String, rename_to: String },
    WriteArchive {
        comic_info_path: String,
        comic_info_xml: String,
        archive_path: String,
        remove_dir: String,
    },
}

/// Decide how a complete chapter is finalized.
pub fn finalize_plan(
    format: &ArchiveFormat,
    root: &String,
    comic_title: &String,
    episode_title: &String,
    metadata: &ComicMetadata,
) -> (r: FinalizePlan)
    ensures
        format is Image ==> (r matches FinalizePlan::ReplaceDir { rename_from, rename_to }
            && rename_from@ == temp_dir_spec(root@, comic_title@, episode_title@) && rename_to@
            == final_dir_spec(root@, comic_title@, episode_title@)),
        !(format is Image) ==> (r matches FinalizePlan::WriteArchive {
            comic_info_path,
            comic_info_xml: xml,
            archive_path,
            remove_dir,
        } && comic_info_path@ == temp_dir_spec(root@, comic_title@, episode_title@) + "/"@
            + "ComicInfo.xml"@ && xml@ == comic_info_xml_spec(*metadata) && archive_path@
            == final_dir_spec(root@, comic_title@, episode_title@) + "."@ + (if format is Zip {
            "zip"@
        } else {
            "cbz"@
        }) && remove_dir@ == temp_dir_spec(root@, comic_title@, episode_title@)),
{
    let temp = crate::paths::temp_download_dir(root, comic_title, episode_title);
    let fin = crate::paths::final_download_dir(root, comic_title, episode_title);
    match format {
        ArchiveFormat::Image => FinalizePlan::ReplaceDir { rename_from: temp, rename_to: fin },
        _ => {
            let mut comic_info_path = temp.clone();
            comic_info_path.append("/");
            comic_info_path.append("ComicInfo.xml");
            let xml = comic_info_xml(metadata);
            let mut archive_path = fin;
            archive_path.append(".");
            archive_path.append(format.extension());
            FinalizePlan::WriteArchive {
                comic_info_path,
                comic_info_xml: xml,
                archive_path,
                remove_dir: temp,
            }
        },
    }
}

} // verus!
