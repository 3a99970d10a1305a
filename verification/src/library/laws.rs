//! Which files count as media, and what a walk through a folder hands on, told by the names and
//! the first bytes of the files.

use super::batch::{batches_make_up_entries, full_batches, waiting, BATCH_SIZE};
use super::ext::{
    image_ext_list, is_image, is_video, kind_of, lower_ext, texts, video_ext_list,
};
use super::filter::{
    ext_or_blank, is_valid_media, path_views, sniffed_views, valid_paths, SniffedFile, SniffedView,
};
use super::magic::{magic_len, magic_matches};
use super::scan::{
    finished, is_sorted, opt_text, path_before, place_for, scanned_views, sorted_by_path,
    sorting_orders_and_keeps_files, visited, FoundView, ScannedFile, ScannedView,
};
use crate::path::{components, MediaPath};
use crate::path_key::{key_less_irreflexive, path_key};
use crate::path_laws::{
    extension_is_behind_last_dot, file_name_is_last_name, is_name, is_one_piece,
    paths_compare_by_components, steps_before,
};
use crate::text::{lowercase, utf8_lossy};
use vstd::prelude::*;

verus! {

/// The twelve endings of videos.
pub open spec fn names_video(ext: Seq<char>) -> bool {
    ext == "mp4"@ || ext == "webm"@ || ext == "ogg"@ || ext == "ogv"@ || ext == "mov"@ || ext
        == "mkv"@ || ext == "avi"@ || ext == "m4v"@ || ext == "mts"@ || ext == "ts"@ || ext
        == "wmv"@ || ext == "flv"@
}

/// The ten endings of images.
pub open spec fn names_image(ext: Seq<char>) -> bool {
    ext == "jpg"@ || ext == "jpeg"@ || ext == "png"@ || ext == "gif"@ || ext == "webp"@ || ext
        == "bmp"@ || ext == "avif"@ || ext == "tiff"@ || ext == "tif"@ || ext == "svg"@
}

/// Whether a file bears the mark that goes with its ending, byte by byte.
pub open spec fn bears_mark(ext: Seq<char>, head: Seq<u8>) -> bool {
    &&& (ext == "ts"@ || ext == "mts"@) ==> head.len() > 188 && head[0] == 0x47 && head[188] == 0x47
    &&& (ext == "jpg"@ || ext == "jpeg"@) ==> head.len() > 2 && head[0] == 255 && head[1] == 216
        && head[2] == 255
    &&& ext == "png"@ ==> head.len() > 3 && head[0] == 137 && head[1] == 80 && head[2] == 78
        && head[3] == 71
    &&& ext == "gif"@ ==> head.len() > 3 && head[0] == 71 && head[1] == 73 && head[2] == 70
        && head[3] == 56
    &&& ext == "webp"@ ==> head.len() > 11 && head[0] == 82 && head[1] == 73 && head[2] == 70
        && head[3] == 70 && head[8] == 87 && head[9] == 69 && head[10] == 66 && head[11] == 80
    &&& ext == "bmp"@ ==> head.len() > 1 && head[0] == 66 && head[1] == 77
    &&& (ext == "tiff"@ || ext == "tif"@) ==> head.len() > 3 && ((head[0] == 73 && head[1] == 73
        && head[2] == 42 && head[3] == 0) || (head[0] == 77 && head[1] == 77 && head[2] == 0
        && head[3] == 42))
}

/// A path is that of a video exactly if its ending, in lowercase, is one of the twelve, and that
/// of an image exactly if it is one of the ten. No path is both, and what is no video is taken
/// for an image.
pub proof fn endings_tell_the_kind(path: Seq<u8>)
    ensures
        is_video(path) <==> (lower_ext(path) matches Some(ext) && names_video(ext)),
        is_image(path) <==> (lower_ext(path) matches Some(ext) && names_image(ext)),
        !(is_video(path) && is_image(path)),
        kind_of(path) is Video <==> is_video(path),
        kind_of(path) is Image <==> !is_video(path),
{
    if let Some(ext) = lower_ext(path) {
        lemma_video_list(ext);
        lemma_image_list(ext);
        lemma_no_ending_is_both(ext);
    }
}

proof fn lemma_video_list(ext: Seq<char>)
    ensures
        video_ext_list().contains(ext) <==> names_video(ext),
{
    let list = video_ext_list();
    assert(list.len() == 12);
    assert(list[0] == "mp4"@ && list[1] == "webm"@ && list[2] == "ogg"@ && list[3] == "ogv"@);
    assert(list[4] == "mov"@ && list[5] == "mkv"@ && list[6] == "avi"@ && list[7] == "m4v"@);
    assert(list[8] == "mts"@ && list[9] == "ts"@ && list[10] == "wmv"@ && list[11] == "flv"@);
}

proof fn lemma_image_list(ext: Seq<char>)
    ensures
        image_ext_list().contains(ext) <==> names_image(ext),
{
    let list = image_ext_list();
    assert(list.len() == 10);
    assert(list[0] == "jpg"@ && list[1] == "jpeg"@ && list[2] == "png"@ && list[3] == "gif"@);
    assert(list[4] == "webp"@ && list[5] == "bmp"@ && list[6] == "avif"@ && list[7] == "tiff"@);
    assert(list[8] == "tif"@ && list[9] == "svg"@);
}

proof fn lemma_no_ending_is_both(ext: Seq<char>)
    ensures
        !(names_video(ext) && names_image(ext)),
{
    reveal_strlit("mp4");
    reveal_strlit("webm");
    reveal_strlit("ogg");
    reveal_strlit("ogv");
    reveal_strlit("mov");
    reveal_strlit("mkv");
    reveal_strlit("avi");
    reveal_strlit("m4v");
    reveal_strlit("mts");
    reveal_strlit("ts");
    reveal_strlit("wmv");
    reveal_strlit("flv");
    reveal_strlit("jpg");
    reveal_strlit("jpeg");
    reveal_strlit("png");
    reveal_strlit("gif");
    reveal_strlit("webp");
    reveal_strlit("bmp");
    reveal_strlit("avif");
    reveal_strlit("tiff");
    reveal_strlit("tif");
    reveal_strlit("svg");
    if names_video(ext) && names_image(ext) {
        let (first, last) = (ext[0], ext[ext.len() - 1]);
        assert(ext.len() == 2 ==> ext == "ts"@);
        if ext.len() == 3 {
            assert(ext == "tif"@ ==> first == 't' && last == 'f');
            assert(first != 't');
            assert(first == 'm' || first == 'o' || first == 'a' || first == 'w' || first == 'f');
            assert(first == 'j' || first == 'p' || first == 'g' || first == 'b' || first == 's');
        }
        if ext.len() == 4 {
            assert(ext == "webm"@ && first == 'w' && last == 'm');
            assert(ext == "webp"@ ==> last == 'p');
            assert(ext == "jpeg"@ ==> first == 'j');
            assert(ext == "avif"@ ==> first == 'a');
            assert(ext == "tiff"@ ==> first == 't');
        }
    }
}

/// The ending of a file in a folder is what stands behind the last dot of its name, in lowercase,
/// in whatever folder the file is.
pub proof fn ending_is_read_from_the_name(folder: Seq<u8>, stem: Seq<u8>, ext: Seq<u8>)
    requires
        folder.len() > 0,
        stem.len() > 0,
        is_one_piece(stem),
        is_one_piece(ext),
        ext.len() > 0,
        forall|k: int| 0 <= k < ext.len() ==> #[trigger] ext[k] != 46,
    ensures
        lower_ext(folder + seq![47u8] + (stem + seq![46u8] + ext)) == Some(
            lowercase(utf8_lossy(ext)),
        ),
        lower_ext(folder + seq![47u8] + ext) is None,
        lower_ext(folder + seq![47u8] + (seq![46u8] + ext)) is None,
{
    let name = stem + seq![46u8] + ext;
    let hidden = seq![46u8] + ext;
    assert(name.last() == ext.last());
    assert(ext[ext.len() - 1] != 46);
    assert forall|k: int| 0 <= k < name.len() implies #[trigger] name[k] != 47 by {
        if k < stem.len() {
            assert(name[k] == stem[k]);
        } else if k > stem.len() {
            assert(name[k] == ext[k - stem.len() - 1]);
        }
    }
    assert forall|k: int| 0 <= k < hidden.len() implies #[trigger] hidden[k] != 47 by {
        if k > 0 {
            assert(hidden[k] == ext[k - 1]);
        }
    }
    assert(name.len() > 2);
    assert(hidden[1] == ext[0]);
    assert(ext[0] != 46);
    assert(is_name(name));
    assert(is_name(hidden));
    assert(is_name(ext));
    file_name_is_last_name(folder, name);
    file_name_is_last_name(folder, hidden);
    file_name_is_last_name(folder, ext);
    extension_is_behind_last_dot(folder + seq![47u8] + name, stem, ext);
    extension_is_behind_last_dot(folder + seq![47u8] + hidden, stem, ext);
    extension_is_behind_last_dot(folder + seq![47u8] + ext, stem, ext);
}

/// A file is confirmed exactly if it bears the mark of its ending.
pub proof fn confirmed_files_bear_their_mark(ext: Seq<char>, head: Seq<u8>)
    ensures
        magic_matches(ext, head) <==> bears_mark(ext, head),
{
    lemma_endings_with_marks_differ();
    if head.len() >= 2 {
        lemma_two(head);
    }
    if head.len() >= 3 {
        lemma_three(head);
    }
    if head.len() >= 4 {
        lemma_four(head);
    }
    if head.len() >= 12 {
        let part = head.subrange(8, 12);
        let mark = seq![0x57u8, 0x45, 0x42, 0x50];
        if head[8] == 87 && head[9] == 69 && head[10] == 66 && head[11] == 80 {
            assert(part =~= mark);
        }
        if part == mark {
            assert(part[0] == 0x57 && part[1] == 0x45 && part[2] == 0x42 && part[3] == 0x50);
        }
    }
}

proof fn lemma_two(head: Seq<u8>)
    requires
        head.len() >= 2,
    ensures
        head.take(2) == seq![0x42u8, 0x4d] <==> head[0] == 66 && head[1] == 77,
{
    if head[0] == 66 && head[1] == 77 {
        assert(head.take(2) =~= seq![0x42u8, 0x4d]);
    }
    if head.take(2) == seq![0x42u8, 0x4d] {
        assert(head.take(2)[0] == 0x42 && head.take(2)[1] == 0x4d);
    }
}

proof fn lemma_three(head: Seq<u8>)
    requires
        head.len() >= 3,
    ensures
        head.take(3) == seq![0xffu8, 0xd8, 0xff] <==> head[0] == 255 && head[1] == 216 && head[2]
            == 255,
{
    if head[0] == 255 && head[1] == 216 && head[2] == 255 {
        assert(head.take(3) =~= seq![0xffu8, 0xd8, 0xff]);
    }
    if head.take(3) == seq![0xffu8, 0xd8, 0xff] {
        assert(head.take(3)[0] == 0xff && head.take(3)[1] == 0xd8 && head.take(3)[2] == 0xff);
    }
}

proof fn lemma_starts_with_four(head: Seq<u8>, a: u8, b: u8, c: u8, d: u8)
    requires
        head.len() >= 4,
    ensures
        head.take(4) == seq![a, b, c, d] <==> head[0] == a && head[1] == b && head[2] == c
            && head[3] == d,
{
    if head[0] == a && head[1] == b && head[2] == c && head[3] == d {
        assert(head.take(4) =~= seq![a, b, c, d]);
    }
    if head.take(4) == seq![a, b, c, d] {
        assert(head.take(4)[0] == a && head.take(4)[1] == b && head.take(4)[2] == c && head.take(
            4,
        )[3] == d);
    }
}

proof fn lemma_four(head: Seq<u8>)
    requires
        head.len() >= 4,
    ensures
        head.take(4) == seq![0x89u8, 0x50, 0x4e, 0x47] <==> head[0] == 137 && head[1] == 80
            && head[2] == 78 && head[3] == 71,
        head.take(4) == seq![0x47u8, 0x49, 0x46, 0x38] <==> head[0] == 71 && head[1] == 73
            && head[2] == 70 && head[3] == 56,
        head.take(4) == seq![0x52u8, 0x49, 0x46, 0x46] <==> head[0] == 82 && head[1] == 73
            && head[2] == 70 && head[3] == 70,
        head.take(4) == seq![0x49u8, 0x49, 0x2a, 0x00] <==> head[0] == 73 && head[1] == 73
            && head[2] == 42 && head[3] == 0,
        head.take(4) == seq![0x4du8, 0x4d, 0x00, 0x2a] <==> head[0] == 77 && head[1] == 77
            && head[2] == 0 && head[3] == 42,
{
    lemma_starts_with_four(head, 0x89, 0x50, 0x4e, 0x47);
    lemma_starts_with_four(head, 0x47, 0x49, 0x46, 0x38);
    lemma_starts_with_four(head, 0x52, 0x49, 0x46, 0x46);
    lemma_starts_with_four(head, 0x49, 0x49, 0x2a, 0x00);
    lemma_starts_with_four(head, 0x4d, 0x4d, 0x00, 0x2a);
}

proof fn lemma_endings_with_marks_differ()
    ensures
        "ts"@.len() == 2,
        "mts"@.len() == 3 && "mts"@[0] == 'm',
        "jpg"@.len() == 3 && "jpg"@[0] == 'j',
        "png"@.len() == 3 && "png"@[0] == 'p',
        "gif"@.len() == 3 && "gif"@[0] == 'g',
        "bmp"@.len() == 3 && "bmp"@[0] == 'b',
        "tif"@.len() == 3 && "tif"@[0] == 't',
        "jpeg"@.len() == 4 && "jpeg"@[0] == 'j',
        "webp"@.len() == 4 && "webp"@[0] == 'w',
        "tiff"@.len() == 4 && "tiff"@[0] == 't',
{
    reveal_strlit("ts");
    reveal_strlit("mts");
    reveal_strlit("jpg");
    reveal_strlit("png");
    reveal_strlit("gif");
    reveal_strlit("bmp");
    reveal_strlit("tif");
    reveal_strlit("jpeg");
    reveal_strlit("webp");
    reveal_strlit("tiff");
}

/// The bytes that are looked at are enough and none too many: a mark can be told from as many
/// bytes, and not from fewer.
pub proof fn no_more_is_read_than_needed(ext: Seq<char>, head: Seq<u8>)
    ensures
        head.len() < magic_len(ext) ==> !bears_mark(ext, head),
        head.len() >= magic_len(ext) ==> bears_mark(ext, head) == bears_mark(
            ext,
            head.take(magic_len(ext) as int),
        ),
        magic_len(ext) > 0 ==> exists|short: Seq<u8>| #[trigger]
            bears_mark(ext, short) && short.len() == magic_len(ext),
{
    lemma_endings_with_marks_differ();
    if magic_len(ext) > 0 {
        let plain = Seq::new(
            magic_len(ext),
            |k: int|
                if ext == "ts"@ || ext == "mts"@ {
                    0x47u8
                } else if ext == "jpg"@ || ext == "jpeg"@ {
                    if k == 1 {
                        216u8
                    } else {
                        255u8
                    }
                } else if ext == "png"@ {
                    if k == 0 {
                        137u8
                    } else if k == 1 {
                        80u8
                    } else if k == 2 {
                        78u8
                    } else {
                        71u8
                    }
                } else if ext == "gif"@ {
                    if k == 0 {
                        71u8
                    } else if k == 1 {
                        73u8
                    } else if k == 2 {
                        70u8
                    } else {
                        56u8
                    }
                } else if ext == "webp"@ {
                    if k == 0 {
                        82u8
                    } else if k == 1 {
                        73u8
                    } else if k == 2 || k == 3 {
                        70u8
                    } else if k == 8 {
                        87u8
                    } else if k == 9 {
                        69u8
                    } else if k == 10 {
                        66u8
                    } else {
                        80u8
                    }
                } else if ext == "bmp"@ {
                    if k == 0 {
                        66u8
                    } else {
                        77u8
                    }
                } else {
                    if k < 2 {
                        73u8
                    } else if k == 2 {
                        42u8
                    } else {
                        0u8
                    }
                },
        );
        assert(bears_mark(ext, plain));
    }
}

/// Whether a file is what its ending says: it bears the mark of the ending, if it has one. A file
/// without an ending bears none and is taken as it is.
pub open spec fn is_as_named(file: SniffedView) -> bool {
    lower_ext(file.path) matches Some(ext) ==> bears_mark(ext, file.head)
}

/// A file counts as valid exactly if it is what its ending says.
pub proof fn validity_is_being_as_named(file: SniffedView)
    ensures
        is_valid_media(file) <==> is_as_named(file),
{
    confirmed_files_bear_their_mark(ext_or_blank(file.path), file.head);
    if lower_ext(file.path) is None {
        lemma_endings_with_marks_differ();
    }
}

/// Filtering keeps the paths of the files that are what their ending says, in their order, and no
/// others.
pub proof fn filtering_keeps_files_that_are_as_named(files: Seq<SniffedView>)
    ensures
        valid_paths(files) == files.filter(|file: SniffedView| is_as_named(file)).map_values(
            |file: SniffedView| file.path,
        ),
    decreases files.len(),
{
    reveal(Seq::filter);
    let named = |file: SniffedView| is_as_named(file);
    let path = |file: SniffedView| file.path;
    if files.len() > 0 {
        filtering_keeps_files_that_are_as_named(files.drop_last());
        validity_is_being_as_named(files.last());
        let rest = files.drop_last().filter(named);
        assert(rest.push(files.last()).map_values(path) =~= rest.map_values(path).push(
            files.last().path,
        ));
    } else {
        assert(valid_paths(files) =~= files.filter(named).map_values(path));
    }
}

/// Whether a walk takes in what it came across: a file, not a folder, whose ending is that of a
/// video or of an image, and which bears the mark that goes with it.
pub open spec fn is_taken(entry: FoundView) -> bool {
    &&& entry.is_file
    &&& lower_ext(entry.file.path) matches Some(ext) && (names_video(ext) || names_image(ext))
        && bears_mark(ext, entry.file.head)
}

/// What a walk tells of a file that it took in: its path, its size and the hash of its content.
pub open spec fn told_of(entry: FoundView) -> ScannedView {
    ScannedView {
        path: entry.file.path,
        size: entry.size,
        content_hash: entry.content_hash,
    }
}

/// What a walk takes in of the entries that it came across, in the order in which it did.
pub open spec fn taken(entries: Seq<FoundView>) -> Seq<ScannedView> {
    entries.filter(|entry: FoundView| is_taken(entry)).map_values(
        |entry: FoundView| told_of(entry),
    )
}

/// What waits after a walk through some entries, and the batches handed on so far.
pub open spec fn walked(entries: Seq<FoundView>) -> (Seq<ScannedView>, Seq<Seq<ScannedView>>)
    decreases entries.len(),
{
    if entries.len() == 0 {
        (Seq::empty(), Seq::empty())
    } else {
        let before = walked(entries.drop_last());
        let (waiting, batch) = visited(before.0, entries.last());
        match batch {
            Some(b) => (waiting, before.1.push(b)),
            None => (waiting, before.1),
        }
    }
}

/// All the batches of a walk that has ended.
pub open spec fn handed_on(entries: Seq<FoundView>) -> Seq<Seq<ScannedView>> {
    let (waiting, batches) = walked(entries);
    match finished(waiting) {
        Some(b) => batches.push(b),
        None => batches,
    }
}

proof fn lemma_taken(entry: FoundView)
    ensures
        entry.is_media() <==> is_taken(entry),
        entry.scanned() == told_of(entry),
{
    endings_tell_the_kind(entry.file.path);
    validity_is_being_as_named(entry.file);
}

proof fn lemma_walked(entries: Seq<FoundView>)
    ensures
        walked(entries).0 == waiting(taken(entries)),
        walked(entries).1 == full_batches(taken(entries)).map_values(
            |batch: Seq<ScannedView>| sorted_by_path(batch),
        ),
    decreases entries.len(),
{
    reveal(Seq::filter);
    let all = taken(entries);
    let sort = |batch: Seq<ScannedView>| sorted_by_path(batch);
    if entries.len() == 0 {
        assert(all =~= Seq::empty());
        assert(waiting(all) =~= Seq::empty());
        assert(walked(entries).1 =~= full_batches(all).map_values(sort));
    } else {
        let some = taken(entries.drop_last());
        let entry = entries.last();
        lemma_walked(entries.drop_last());
        lemma_taken(entry);
        let rest = entries.drop_last().filter(|entry: FoundView| is_taken(entry));
        let tell = |entry: FoundView| told_of(entry);
        assert(rest.push(entry).map_values(tell) =~= rest.map_values(tell).push(told_of(entry)));
        batches_make_up_entries(some, told_of(entry));
        if is_taken(entry) {
            assert(all == some.push(told_of(entry)));
            if waiting(some).len() + 1 == BATCH_SIZE {
                let b = waiting(some).push(told_of(entry));
                assert(full_batches(some).push(b).map_values(sort) =~= full_batches(
                    some,
                ).map_values(sort).push(sorted_by_path(b)));
            }
        } else {
            assert(all == some);
        }
    }
}

/// A walk through a folder hands on the files that it takes in, all of them and nothing else:
/// the first fifty in the first batch, the next fifty in the second, and so on, with what is left
/// in the last one. Each batch is sorted by path.
pub proof fn walk_hands_on_all_media(entries: Seq<FoundView>)
    ensures
        forall|k: int|
            0 <= k < handed_on(entries).len() ==> {
                &&& 50 * k < taken(entries).len()
                &&& (#[trigger] handed_on(entries)[k]).to_multiset() == taken(entries).subrange(
                    50 * k,
                    if 50 * k + 50 <= taken(entries).len() {
                        50 * k + 50
                    } else {
                        taken(entries).len() as int
                    },
                ).to_multiset()
                &&& forall|i: int, j: int|
                    0 <= i < j < handed_on(entries)[k].len() ==> !steps_before(
                        components((#[trigger] handed_on(entries)[k][j]).path),
                        components((#[trigger] handed_on(entries)[k][i]).path),
                    )
            },
        50 * handed_on(entries).len() >= taken(entries).len(),
        handed_on(entries).len() > 0 ==> 50 * (handed_on(entries).len() - 1) < taken(entries).len(),
{
    let all = taken(entries);
    let batches = handed_on(entries);
    let full = full_batches(all);
    let n = full.len() as int;
    lemma_walked(entries);
    assert(n == all.len() / 50);
    assert(waiting(all).len() == all.len() - 50 * n);
    assert forall|k: int| 0 <= k < batches.len() implies {
        let part = all.subrange(
            50 * k,
            if 50 * k + 50 <= all.len() {
                50 * k + 50
            } else {
                all.len() as int
            },
        );
        50 * k < all.len() && #[trigger] batches[k] == sorted_by_path(part)
    } by {
        if k < n {
            assert(batches[k] == sorted_by_path(full[k]));
            assert(full[k] =~= all.subrange(50 * k, 50 * k + 50));
        } else {
            assert(k == n);
            assert(waiting(all) =~= all.subrange(50 * k, all.len() as int));
        }
    }
    assert forall|k: int| 0 <= k < batches.len() implies {
        let part = all.subrange(
            50 * k,
            if 50 * k + 50 <= all.len() {
                50 * k + 50
            } else {
                all.len() as int
            },
        );
        (#[trigger] batches[k]).to_multiset() == part.to_multiset() && is_sorted(batches[k])
    } by {
        sorting_orders_and_keeps_files(
            all.subrange(
                50 * k,
                if 50 * k + 50 <= all.len() {
                    50 * k + 50
                } else {
                    all.len() as int
                },
            ),
        );
    }
    assert forall|k: int, i: int, j: int|
        0 <= k < batches.len() && 0 <= i < j < batches[k].len() implies !steps_before(
        components((#[trigger] batches[k][j]).path),
        components((#[trigger] batches[k][i]).path),
    ) by {
        assert(is_sorted(batches[k]));
        assert(!path_before(batches[k][j], batches[k][i]));
        paths_compare_by_components(batches[k][j].path, batches[k][i].path);
    }
}

/// A media file that a walk comes across is in one of its batches, with its size and its hash.
pub proof fn no_media_file_is_lost(entries: Seq<FoundView>, at: int)
    requires
        0 <= at < entries.len(),
        is_taken(entries[at]),
    ensures
        exists|k: int|
            0 <= k < handed_on(entries).len() && (#[trigger] handed_on(entries)[k]).contains(
                told_of(entries[at]),
            ),
{
    let all = taken(entries);
    let wanted = |entry: FoundView| is_taken(entry);
    let tell = |entry: FoundView| told_of(entry);
    let kept = entries.filter(wanted);
    assert(kept.contains(entries[at])) by {
        broadcast use vstd::seq_lib::group_filter_ensures;

        assert(wanted(entries[at]));
    }
    let i = kept.index_of(entries[at]);
    assert(all[i] == told_of(entries[at]));
    walk_hands_on_all_media(entries);
    let k = i / 50;
    let part = all.subrange(
        50 * k,
        if 50 * k + 50 <= all.len() {
            50 * k + 50
        } else {
            all.len() as int
        },
    );
    assert(part[i - 50 * k] == all[i]);
    assert(part.contains(told_of(entries[at])));
    assert(handed_on(entries)[k].to_multiset() == part.to_multiset());
    part.to_multiset_ensures();
    handed_on(entries)[k].to_multiset_ensures();
    assert(part.to_multiset().count(told_of(entries[at])) > 0);
    assert(handed_on(entries)[k].contains(told_of(entries[at])));
}

proof fn lemma_filter_of_joined<T>(a: Seq<T>, b: Seq<T>, keep: spec_fn(T) -> bool)
    ensures
        (a + b).filter(keep) == a.filter(keep) + b.filter(keep),
    decreases b.len(),
{
    reveal(Seq::filter);
    if b.len() == 0 {
        assert(a + b =~= a);
        assert(a.filter(keep) + b.filter(keep) =~= a.filter(keep));
    } else {
        lemma_filter_of_joined(a, b.drop_last(), keep);
        assert((a + b).drop_last() =~= a + b.drop_last());
        assert((a + b).filter(keep) =~= a.filter(keep) + b.filter(keep));
    }
}

proof fn lemma_filter_of_none<T>(a: Seq<T>, keep: spec_fn(T) -> bool)
    requires
        forall|k: int| 0 <= k < a.len() ==> !keep(#[trigger] a[k]),
    ensures
        a.filter(keep) == Seq::<T>::empty(),
    decreases a.len(),
{
    reveal(Seq::filter);
    if a.len() > 0 {
        assert forall|k: int| 0 <= k < a.drop_last().len() implies !keep(
            #[trigger] a.drop_last()[k],
        ) by {
            assert(a[k] == a.drop_last()[k]);
        }
        lemma_filter_of_none(a.drop_last(), keep);
        assert(!keep(a[a.len() - 1]));
    } else {
        assert(a =~= Seq::empty());
    }
}

proof fn lemma_filter_of_inserted<T>(rest: Seq<T>, at: int, x: T, keep: spec_fn(T) -> bool)
    requires
        0 <= at <= rest.len(),
        forall|k: int| at <= k < rest.len() && keep(x) ==> !keep(#[trigger] rest[k]),
    ensures
        rest.insert(at, x).filter(keep) == if keep(x) {
            rest.filter(keep).push(x)
        } else {
            rest.filter(keep)
        },
{
    let front = rest.take(at);
    let back = rest.skip(at);
    assert(rest =~= front + back);
    assert(rest.insert(at, x) =~= (front + seq![x]) + back);
    lemma_filter_of_joined(front, back, keep);
    lemma_filter_of_joined(front + seq![x], back, keep);
    assert(front + seq![x] =~= front.push(x));
    assert(front.push(x).drop_last() =~= front);
    assert(front.push(x).filter(keep) == if keep(x) {
        front.filter(keep).push(x)
    } else {
        front.filter(keep)
    }) by {
        reveal(Seq::filter);
    }
    if keep(x) {
        assert forall|k: int| 0 <= k < back.len() implies !keep(#[trigger] back[k]) by {
            assert(back[k] == rest[at + k]);
        }
        lemma_filter_of_none(back, keep);
        assert(rest.insert(at, x).filter(keep) =~= rest.filter(keep).push(x));
    }
}

/// Files whose paths are the same stay in the order in which they came.
pub proof fn sorting_keeps_order_of_equal_paths(files: Seq<ScannedView>, path: Seq<u8>)
    ensures
        sorted_by_path(files).filter(
            |f: ScannedView| components(f.path) == components(path),
        ) == files.filter(|f: ScannedView| components(f.path) == components(path)),
    decreases files.len(),
{
    let keep = |f: ScannedView| components(f.path) == components(path);
    if files.len() > 0 {
        let x = files.last();
        let init = files.drop_last();
        let rest = sorted_by_path(init);
        sorting_keeps_order_of_equal_paths(init, path);
        sorting_orders_and_keeps_files(init);
        let at = place_for(rest, x);
        lemma_place_ends_equal_paths(rest, x);
        assert forall|k: int| at <= k < rest.len() && keep(x) implies !keep(#[trigger] rest[k]) by {
            assert(path_before(x, rest[k]));
            paths_compare_by_components(x.path, rest[k].path);
            key_less_irreflexive(path_key(x.path));
        }
        lemma_filter_of_inserted(rest, at, x, keep);
        lemma_filter_of_inserted(init, init.len() as int, x, keep);
        assert(files =~= init.insert(init.len() as int, x));
    } else {
        assert(sorted_by_path(files) =~= files);
    }
}

proof fn lemma_place_ends_equal_paths(sorted: Seq<ScannedView>, x: ScannedView)
    requires
        is_sorted(sorted),
    ensures
        0 <= place_for(sorted, x) <= sorted.len(),
        forall|i: int|
            place_for(sorted, x) <= i < sorted.len() ==> path_before(x, #[trigger] sorted[i]),
    decreases sorted.len(),
{
    if sorted.len() > 0 && path_before(x, sorted.last()) {
        assert(is_sorted(sorted.drop_last()));
        lemma_place_ends_equal_paths(sorted.drop_last(), x);
        assert forall|i: int| place_for(sorted, x) <= i < sorted.len() implies path_before(
            x,
            #[trigger] sorted[i],
        ) by {
            if i < sorted.len() - 1 {
                assert(sorted.drop_last()[i] == sorted[i]);
            }
        }
    }
}

/// Sorting leaves no file in front of one whose path comes first, and loses none.
pub proof fn sorting_puts_paths_in_order(files: Seq<ScannedView>)
    ensures
        sorted_by_path(files).to_multiset() == files.to_multiset(),
        forall|i: int, j: int|
            0 <= i < j < sorted_by_path(files).len() ==> !steps_before(
                components((#[trigger] sorted_by_path(files)[j]).path),
                components((#[trigger] sorted_by_path(files)[i]).path),
            ),
{
    let sorted = sorted_by_path(files);
    sorting_orders_and_keeps_files(files);
    assert forall|i: int, j: int| 0 <= i < j < sorted.len() implies !steps_before(
        components((#[trigger] sorted[j]).path),
        components((#[trigger] sorted[i]).path),
    ) by {
        assert(!path_before(sorted[j], sorted[i]));
        paths_compare_by_components(sorted[j].path, sorted[i].path);
    }
}

/// What several paths, files, texts or batches hold is what each of them holds, in their order.
pub proof fn contents_stand_in_order(
    paths: Seq<MediaPath>,
    sniffed: Seq<SniffedFile>,
    scanned: Seq<ScannedFile>,
    texts_listed: Seq<&'static str>,
    k: int,
)
    ensures
        path_views(paths).len() == paths.len(),
        0 <= k < paths.len() ==> path_views(paths)[k] == paths[k].bytes@,
        sniffed_views(sniffed).len() == sniffed.len(),
        0 <= k < sniffed.len() ==> sniffed_views(sniffed)[k].path == sniffed[k].path.bytes@
            && sniffed_views(sniffed)[k].head == sniffed[k].head@,
        scanned_views(scanned).len() == scanned.len(),
        0 <= k < scanned.len() ==> scanned_views(scanned)[k].path == scanned[k].path.bytes@
            && scanned_views(scanned)[k].size == scanned[k].size && scanned_views(
            scanned,
        )[k].content_hash == opt_text(scanned[k].content_hash),
        texts(texts_listed).len() == texts_listed.len(),
        0 <= k < texts_listed.len() ==> texts(texts_listed)[k] == texts_listed[k]@,
        opt_text(None) is None,
{
}

} // verus!
