//! Where posters and previews are kept on disk.

use crate::path::{joined, push_bytes, MediaPath};
use vstd::prelude::*;
use vstd::utf8::encode_utf8;

verus! {

/// The side of a poster in pixels.
pub const POSTER_SIZE: u32 = 128;

/// The systems that the program runs on.
#[derive(Debug, Clone, Copy, PartialEq, Eq, Structural)]
pub enum Platform {
    Linux,
    MacOs,
    Windows,
}

/// The name of the program's folder among those for caches, as it is usual on a system.
pub open spec fn program_folder(platform: Platform) -> Seq<char> {
    match platform {
        Platform::Linux => "flick"@,
        _ => "Flick"@,
    }
}

/// A folder of the cache below the folder for caches.
pub open spec fn cache_folder(base: Seq<u8>, platform: Platform, name: Seq<char>) -> Seq<u8> {
    joined(joined(base, encode_utf8(program_folder(platform))), encode_utf8(name))
}

/// A file of the cache: its name is a content hash with an ending.
pub open spec fn cache_file(
    base: Seq<u8>,
    platform: Platform,
    folder: Seq<char>,
    hash: Seq<char>,
    ending: Seq<char>,
) -> Seq<u8> {
    joined(cache_folder(base, platform, folder), encode_utf8(hash + ending))
}

fn folder(base: &MediaPath, platform: Platform, name: &str) -> (path: MediaPath)
    ensures
        path@ == cache_folder(base@, platform, name@),
{
    let program = match platform {
        Platform::Linux => "flick",
        _ => "Flick",
    };
    base.join(program.as_bytes()).join(name.as_bytes())
}

fn file(base: &MediaPath, platform: Platform, name: &str, hash: &str, ending: &str) -> (path:
    MediaPath)
    ensures
        path@ == cache_file(base@, platform, name@, hash@, ending@),
{
    let mut file_name = hash.to_string();
    file_name.push_str(ending);
    folder(base, platform, name).join(file_name.as_str().as_bytes())
}

/// The folder of previews, given the folder for caches.
pub fn sprites_dir(base: &MediaPath, platform: Platform) -> (path: MediaPath)
    ensures
        path@ == cache_folder(base@, platform, "sprites"@),
{
    folder(base, platform, "sprites")
}

/// The folder of posters, given the folder for caches.
pub fn posters_dir(base: &MediaPath, platform: Platform) -> (path: MediaPath)
    ensures
        path@ == cache_folder(base@, platform, "posters"@),
{
    folder(base, platform, "posters")
}

/// The folder of marks for media that cannot be read, given the folder for caches.
pub fn invalid_dir(base: &MediaPath, platform: Platform) -> (path: MediaPath)
    ensures
        path@ == cache_folder(base@, platform, "invalid"@),
{
    folder(base, platform, "invalid")
}

/// The file of a preview.
pub fn sprite_file(base: &MediaPath, platform: Platform, hash: &str) -> (path: MediaPath)
    ensures
        path@ == cache_file(base@, platform, "sprites"@, hash@, ".jpg"@),
{
    file(base, platform, "sprites", hash, ".jpg")
}

/// The file of what is to be known of a preview.
pub fn meta_file(base: &MediaPath, platform: Platform, hash: &str) -> (path: MediaPath)
    ensures
        path@ == cache_file(base@, platform, "sprites"@, hash@, ".json"@),
{
    file(base, platform, "sprites", hash, ".json")
}

/// The file of a poster. Its name tells the side of the poster.
pub fn poster_file(base: &MediaPath, platform: Platform, hash: &str) -> (path: MediaPath)
    ensures
        path@ == cache_file(base@, platform, "posters"@, hash@, "-s128.jpg"@),
{
    file(base, platform, "posters", hash, "-s128.jpg")
}

/// The file that marks media as such that cannot be read.
pub fn invalid_marker_file(base: &MediaPath, platform: Platform, hash: &str) -> (path: MediaPath)
    ensures
        path@ == cache_file(base@, platform, "invalid"@, hash@, ".broken"@),
{
    file(base, platform, "invalid", hash, ".broken")
}

/// Whether a preview is there: both of its files are.
pub fn is_cached(sprite_exists: bool, meta_exists: bool) -> (cached: bool)
    ensures
        cached == (sprite_exists && meta_exists),
{
    sprite_exists && meta_exists
}

/// Whether a poster can be read: its file is there and is not empty. `len` is the length of the
/// file, where it is there.
pub fn poster_is_ready(len: Option<u64>) -> (ready: bool)
    ensures
        ready == (len matches Some(n) && n > 0),
{
    match len {
        Some(n) => n > 0,
        None => false,
    }
}

/// Whether a poster is there.
pub fn is_poster_cached(len: Option<u64>) -> (cached: bool)
    ensures
        cached == (len matches Some(n) && n > 0),
{
    poster_is_ready(len)
}

/// The file that is written first and renamed when it is complete, so that a file of the cache is
/// there as a whole or not at all.
pub fn temp_file(path: &MediaPath) -> (temp: MediaPath)
    ensures
        temp@ == path@ + encode_utf8(".tmp"@),
{
    let mut temp = path.clone();
    push_bytes(&mut temp.bytes, ".tmp".as_bytes());
    temp
}

} // verus!
