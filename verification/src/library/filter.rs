//! Keeping the files that are what their names say.

use super::ext::{ext_lower, lower_ext};
use super::magic::{confirm_media_magic, magic_byte_count, magic_len, magic_matches};
use crate::path::MediaPath;
use vstd::prelude::*;

verus! {

/// A path together with the first bytes of the file it names; no bytes where the file could not
/// be read.
#[derive(Debug)]
pub struct SniffedFile {
    pub path: MediaPath,
    pub head: Vec<u8>,
}

/// What a sniffed file holds.
pub struct SniffedView {
    pub path: Seq<u8>,
    pub head: Seq<u8>,
}

impl View for SniffedFile {
    type V = SniffedView;

    open spec fn view(&self) -> SniffedView {
        SniffedView { path: self.path@, head: self.head@ }
    }
}

/// The extension of a path in lowercase, or nothing at all.
pub open spec fn ext_or_blank(path: Seq<u8>) -> Seq<char> {
    match lower_ext(path) {
        Some(ext) => ext,
        None => Seq::empty(),
    }
}

/// Whether a file's first bytes bear out its extension.
pub open spec fn is_valid_media(file: SniffedView) -> bool {
    magic_matches(ext_or_blank(file.path), file.head)
}

/// The paths of the valid files, in their order.
pub open spec fn valid_paths(files: Seq<SniffedView>) -> Seq<Seq<u8>>
    decreases files.len(),
{
    if files.len() == 0 {
        Seq::empty()
    } else {
        let rest = valid_paths(files.drop_last());
        if is_valid_media(files.last()) {
            rest.push(files.last().path)
        } else {
            rest
        }
    }
}

/// The contents of several paths.
pub open spec fn path_views(paths: Seq<MediaPath>) -> Seq<Seq<u8>> {
    paths.map_values(|p: MediaPath| p@)
}

/// The contents of several sniffed files.
pub open spec fn sniffed_views(files: Seq<SniffedFile>) -> Seq<SniffedView> {
    files.map_values(|f: SniffedFile| f@)
}

/// How many bytes of the file have to be read before it can be confirmed.
pub fn bytes_to_sniff(path: &MediaPath) -> (count: usize)
    ensures
        count == magic_len(ext_or_blank(path@)),
{
    let ext = match ext_lower(path) {
        Some(ext) => ext,
        None => String::new(),
    };
    magic_byte_count(ext.as_str())
}

/// Whether the file's first bytes bear out its extension.
pub fn confirm_file(file: &SniffedFile) -> (valid: bool)
    ensures
        valid == is_valid_media(file@),
{
    let ext = match ext_lower(&file.path) {
        Some(ext) => ext,
        None => String::new(),
    };
    confirm_media_magic(&file.head, ext.as_str())
}

/// The paths of the files whose first bytes bear out their extension. Extensions without a mark
/// of their own pass unchecked.
pub fn filter_valid_media(files: Vec<SniffedFile>) -> (paths: Vec<MediaPath>)
    ensures
        path_views(paths@) == valid_paths(sniffed_views(files@)),
{
    let ghost views = sniffed_views(files@);
    let mut paths: Vec<MediaPath> = Vec::new();
    assert(views.take(0) =~= Seq::empty());
    assert(path_views(paths@) =~= Seq::empty());
    for file in it: files
        invariant
            views == sniffed_views(it.seq()),
            path_views(paths@) == valid_paths(views.take(it.index())),
    {
        proof {
            let i = it.index();
            assert(views[i] == it.seq()[i]@);
            assert(views.take(i + 1).drop_last() =~= views.take(i));
        }
        if confirm_file(&file) {
            let ghost before = paths@;
            paths.push(file.path);
            assert(path_views(paths@) =~= path_views(before).push(file.path@));
        }
    }
    assert(views.take(views.len() as int) =~= views);
    paths
}

} // verus!
