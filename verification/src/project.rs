use vstd::prelude::*;

use crate::json::Json;
use crate::text::{spec_to_lowercase, str_eq, to_lowercase};

verus! {

/// The type of a wallpaper in lowercase, as its `project.json` gives it.
pub open spec fn spec_wallpaper_type(project: Json) -> Option<Seq<char>> {
    match project.spec_get("type"@) {
        Some(t) => match t.spec_as_str() {
            Some(s) => Some(spec_to_lowercase(s)),
            None => None,
        },
        None => None,
    }
}

/// The type of a wallpaper in lowercase (`scene`, `video`, `web`, ...), read from
/// its `project.json`; `None` when the file gives no string type.
pub fn wallpaper_type(project: &Json) -> (r: Option<String>)
    ensures
        r matches Some(t) ==> spec_wallpaper_type(*project) == Some(t@),
        r is None ==> spec_wallpaper_type(*project) is None,
{
    match project.get("type") {
        Some(t) => match t.as_str() {
            Some(s) => Some(to_lowercase(s.as_str())),
            None => None,
        },
        None => None,
    }
}

/// Whether a wallpaper is a video, by its `project.json`.
pub fn is_video_wallpaper(project: &Json) -> (r: bool)
    ensures
        r == (spec_wallpaper_type(*project) == Some("video"@)),
{
    match wallpaper_type(project) {
        Some(t) => is_video_type(t.as_str()),
        None => false,
    }
}

/// Whether a lowercased wallpaper type is that of a video.
pub fn is_video_type(wallpaper_type: &str) -> (r: bool)
    ensures
        r == (wallpaper_type@ == "video"@),
{
    str_eq(wallpaper_type, "video")
}

/// A string field of `project.json`, or the empty text.
pub open spec fn spec_project_text(project: Json, key: Seq<char>) -> Seq<char> {
    match project.spec_get(key) {
        Some(v) => match v.spec_as_str() {
            Some(s) => s,
            None => Seq::empty(),
        },
        None => Seq::empty(),
    }
}

fn project_text(project: &Json, key: &str) -> (r: String)
    ensures
        r@ == spec_project_text(*project, key@),
{
    match project.get(key) {
        Some(v) => match v.as_str() {
            Some(s) => s.clone(),
            None => String::new(),
        },
        None => String::new(),
    }
}

/// The file of a wallpaper (its `file` in `project.json`), relative to its directory.
pub fn get_wallpaper_file(project: &Json) -> (r: String)
    ensures
        r@ == spec_project_text(*project, "file"@),
{
    project_text(project, "file")
}

/// The name of a wallpaper (its `title` in `project.json`).
pub fn get_wallpaper_name(project: &Json) -> (r: String)
    ensures
        r@ == spec_project_text(*project, "title"@),
{
    project_text(project, "title")
}

} // verus!
