//! Telling media by the extension of the file name.

use crate::path::{extension, MediaPath};
use crate::text::{from_utf8_lossy, lowercase, str_eq, to_lowercase, utf8_lossy};
use vstd::prelude::*;

verus! {

/// What kind of media a file holds.
#[derive(Debug, Clone, Copy, PartialEq, Eq, Structural)]
pub enum MediaKind {
    Video,
    Image,
}

/// The extensions of videos.
pub open spec fn video_ext_list() -> Seq<Seq<char>> {
    seq![
        "mp4"@,
        "webm"@,
        "ogg"@,
        "ogv"@,
        "mov"@,
        "mkv"@,
        "avi"@,
        "m4v"@,
        "mts"@,
        "ts"@,
        "wmv"@,
        "flv"@,
    ]
}

/// The extensions of images.
pub open spec fn image_ext_list() -> Seq<Seq<char>> {
    seq![
        "jpg"@,
        "jpeg"@,
        "png"@,
        "gif"@,
        "webp"@,
        "bmp"@,
        "avif"@,
        "tiff"@,
        "tif"@,
        "svg"@,
    ]
}

/// The characters of several string slices.
pub open spec fn texts(slices: Seq<&'static str>) -> Seq<Seq<char>> {
    slices.map_values(|s: &'static str| s@)
}

/// The extensions of videos.
pub fn video_exts() -> (exts: Vec<&'static str>)
    ensures
        texts(exts@) == video_ext_list(),
{
    let exts: Vec<&'static str> = vec![
        "mp4",
        "webm",
        "ogg",
        "ogv",
        "mov",
        "mkv",
        "avi",
        "m4v",
        "mts",
        "ts",
        "wmv",
        "flv",
    ];
    assert(texts(exts@) =~= video_ext_list());
    exts
}

/// The extensions of images.
pub fn image_exts() -> (exts: Vec<&'static str>)
    ensures
        texts(exts@) == image_ext_list(),
{
    let exts: Vec<&'static str> = vec![
        "jpg",
        "jpeg",
        "png",
        "gif",
        "webp",
        "bmp",
        "avif",
        "tiff",
        "tif",
        "svg",
    ];
    assert(texts(exts@) =~= image_ext_list());
    exts
}

/// The extension of a path as text in lowercase.
pub open spec fn lower_ext(path: Seq<u8>) -> Option<Seq<char>> {
    match extension(path) {
        Some(ext) => Some(lowercase(utf8_lossy(ext))),
        None => None,
    }
}

/// Whether the path has the extension of a video.
pub open spec fn is_video(path: Seq<u8>) -> bool {
    lower_ext(path) matches Some(ext) && video_ext_list().contains(ext)
}

/// Whether the path has the extension of an image.
pub open spec fn is_image(path: Seq<u8>) -> bool {
    lower_ext(path) matches Some(ext) && image_ext_list().contains(ext)
}

/// The kind of media that a path is taken for. What is no video counts as an image.
pub open spec fn kind_of(path: Seq<u8>) -> MediaKind {
    if is_video(path) {
        MediaKind::Video
    } else {
        MediaKind::Image
    }
}

/// The extension of a path in lowercase.
pub fn ext_lower(path: &MediaPath) -> (ext: Option<String>)
    ensures
        match ext {
            Some(e) => lower_ext(path@) == Some(e@),
            None => lower_ext(path@) is None,
        },
{
    match path.extension() {
        Some(ext) => Some(to_lowercase(from_utf8_lossy(&ext).as_str())),
        None => None,
    }
}

/// Whether one of the slices is `text`.
pub fn lists_text(slices: &Vec<&'static str>, text: &str) -> (found: bool)
    ensures
        found == texts(slices@).contains(text@),
{
    let mut i: usize = 0;
    while i < slices.len()
        invariant
            i <= slices.len(),
            forall|k: int| 0 <= k < i ==> slices@[k]@ != text@,
        decreases slices.len() - i,
    {
        if str_eq(slices[i], text) {
            assert(texts(slices@)[i as int] == text@);
            return true;
        }
        i += 1;
    }
    false
}

/// Whether the path has the extension of a video, upper and lower case being one.
pub fn is_video_file(path: &MediaPath) -> (video: bool)
    ensures
        video == is_video(path@),
{
    match ext_lower(path) {
        Some(ext) => lists_text(&video_exts(), ext.as_str()),
        None => false,
    }
}

/// Whether the path has the extension of an image, upper and lower case being one.
pub fn is_image_file(path: &MediaPath) -> (image: bool)
    ensures
        image == is_image(path@),
{
    match ext_lower(path) {
        Some(ext) => lists_text(&image_exts(), ext.as_str()),
        None => false,
    }
}

/// The kind of media that a path is taken for.
pub fn media_kind(path: &MediaPath) -> (kind: MediaKind)
    ensures
        kind == kind_of(path@),
{
    if is_video_file(path) {
        MediaKind::Video
    } else {
        MediaKind::Image
    }
}

} // verus!
