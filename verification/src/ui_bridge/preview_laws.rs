//! What the rows of the list say, which previews are shown and made, and how animations go on.

use super::format::{base_name, size_text};
use super::gif::{ascii_lowered_bytes, first_shown, is_gif, AnimationView};
use super::rows::{has_poster, posters_wf, rows_with_hash, status_glyph, POSTER_IMAGE_CACHE_MAX};
use super::screen::{group_told, lemma_same_effects, screen, Notes, Screen};
use super::sprite_preview::{frame_place, is_cell_of};
use super::state::{AppView, SpriteStatus};
use crate::library::ext::is_video;
use crate::path::{extension, file_name};
use crate::path_key::path_key;
use crate::text::utf8_lossy;
use crate::thumbnails::sprite::SpriteMeta;
use vstd::prelude::*;

verus! {

/// A path is listed under its file name, or under all of it where it has none.
pub proof fn paths_are_listed_by_file_name(path: Seq<u8>)
    ensures
        file_name(path) matches Some(name) ==> base_name(path) == utf8_lossy(name),
        file_name(path) is None ==> base_name(path) == utf8_lossy(path),
{
}

/// What the row of an item says: its own name and size, whether it is on show and whether it is a
/// video, and a sign for how far its preview is. There is no sign for what is no video outside the
/// mode for videos, nor in the mode for images, and just a dash as long as it is left open.
pub proof fn row_tells_of_its_item(s: AppView, index: usize, deferred: bool, status: SpriteStatus)
    requires
        index < s.queue_of(s.mode).items.len(),
    ensures
        ({
            let item = s.queue_of(s.mode).items[index as int];
            let row = s.row_of(index, deferred, status);
            &&& row.queue_index == index
            &&& row.name == item.name
            &&& row.playing <==> s.queue_of(s.mode).now_playing == Some(index)
            &&& row.is_video == is_video(item.path)
            &&& item.size_bytes matches Some(bytes) ==> row.file_size_text == size_text(
                bytes as nat,
            )
            &&& item.size_bytes is None ==> row.file_size_text.len() == 0
            &&& deferred ==> row.sprite_status == "-"@
            &&& !deferred && (s.mode is Image || (s.mode is All && !is_video(item.path)))
                ==> row.sprite_status.len() == 0
            &&& !deferred && (s.mode is Video || (s.mode is All && is_video(item.path)))
                ==> row.sprite_status == match status {
                SpriteStatus::NotStarted => "-"@,
                SpriteStatus::InProgress => "⏳"@,
                SpriteStatus::Done => "✓"@,
            }
        }),
        status_glyph(SpriteStatus::NotStarted) == "-"@,
        status_glyph(SpriteStatus::InProgress) == "⏳"@,
        status_glyph(SpriteStatus::Done) == "✓"@,
{
}

/// The rows that show how far a preview is are those of videos, or all in the mode for videos and
/// none in the mode for images. They are named in their order, each of them once.
pub proof fn rows_with_a_sign_are_those_of_videos(
    s: AppView,
    shown: Seq<usize>,
    with_status: bool,
)
    requires
        shown.len() <= usize::MAX,
    ensures
        forall|row: usize| #[trigger]
            s.rows_among(shown, with_status).contains(row) <==> row < shown.len() && (!with_status
                || s.mode is Video || (s.mode is All && is_video(
                s.all_queue.items[shown[row as int] as int].path,
            ))),
        forall|a: int, b: int|
            0 <= a < b < s.rows_among(shown, with_status).len() ==> #[trigger] s.rows_among(
                shown,
                with_status,
            )[a] < #[trigger] s.rows_among(shown, with_status)[b],
    decreases shown.len(),
{
    let rows = s.rows_among(shown, with_status);
    if shown.len() > 0 {
        let init = shown.drop_last();
        let rest = s.rows_among(init, with_status);
        let last = (shown.len() - 1) as usize;
        rows_with_a_sign_are_those_of_videos(s, init, with_status);
        assert forall|k: int| 0 <= k < rest.len() implies #[trigger] rest[k] < last by {
            assert(rest.contains(rest[k]));
        }
        let added = !with_status || s.row_shows_status(shown.last());
        assert(rows == if added {
            rest.push(last)
        } else {
            rest
        });
        assert forall|row: usize| #[trigger] rows.contains(row) <==> rest.contains(row) || (added
            && row == last) by {
            if rows.contains(row) {
                let k = rows.index_of(row);
                if k < rest.len() {
                    assert(rest[k] == row);
                }
            }
            if rest.contains(row) {
                let k = rest.index_of(row);
                assert(rows[k] == row);
            }
            if added && row == last {
                assert(rows[rest.len() as int] == row);
            }
        }
        assert forall|row: usize| row < init.len() implies shown[row as int]
            == init[row as int] by {}
    }
}

/// The rows that belong to a content hash are those whose hash it is, in their order.
pub proof fn rows_of_a_hash_have_it(
    rows: Seq<usize>,
    hashes: Seq<Option<String>>,
    hash: Seq<char>,
    row: usize,
)
    requires
        rows.len() == hashes.len(),
    ensures
        rows_with_hash(rows, hashes, hash).contains(row) <==> exists|k: int|
            0 <= k < rows.len() && #[trigger] rows[k] == row && (hashes[k] matches Some(h) && h@
                == hash),
        (forall|k: int| 0 <= k < rows.len() ==> (#[trigger] hashes[k] matches Some(h) && h@ == hash))
            ==> rows_with_hash(rows, hashes, hash) == rows,
        rows.len() > 0 && !(hashes.last() matches Some(h) && h@ == hash) ==> rows_with_hash(
            rows,
            hashes,
            hash,
        ) == rows_with_hash(rows.drop_last(), hashes.drop_last(), hash),
        rows.len() > 0 && (hashes.last() matches Some(h) && h@ == hash) ==> rows_with_hash(
            rows,
            hashes,
            hash,
        ) == rows_with_hash(rows.drop_last(), hashes.drop_last(), hash).push(rows.last()),
    decreases rows.len(),
{
    let all = rows_with_hash(rows, hashes, hash);
    if rows.len() > 0 {
        let (r, h) = (rows.drop_last(), hashes.drop_last());
        let n = r.len() as int;
        assert(hashes.take(rows.len() - 1) =~= h);
        rows_of_a_hash_have_it(r, h, hash, row);
        let rest = rows_with_hash(r, h, hash);
        let added = hashes[n] matches Some(t) && t@ == hash;
        assert(all == if added {
            rest.push(rows.last())
        } else {
            rest
        });
        if exists|k: int|
            0 <= k < r.len() && #[trigger] r[k] == row && (h[k] matches Some(t) && t@ == hash) {
            let k = choose|k: int|
                0 <= k < r.len() && #[trigger] r[k] == row && (h[k] matches Some(t) && t@ == hash);
            assert(rows[k] == row);
        }
        if exists|k: int|
            0 <= k < rows.len() && #[trigger] rows[k] == row && (hashes[k] matches Some(t) && t@
                == hash) {
            let k = choose|k: int|
                0 <= k < rows.len() && #[trigger] rows[k] == row && (hashes[k] matches Some(t)
                    && t@ == hash);
            if k < n {
                assert(r[k] == row);
            }
        }
        if rest.contains(row) {
            let k = rest.index_of(row);
            assert(all[k] == row);
        }
        if added && rows.last() == row {
            assert(all[rest.len() as int] == row);
            assert(rows[n] == row);
        }
        if all.contains(row) {
            let k = all.index_of(row);
            if k < rest.len() {
                assert(rest[k] == row);
            }
        }
        if forall|k: int|
            0 <= k < rows.len() ==> (#[trigger] hashes[k] matches Some(t) && t@ == hash) {
            assert forall|k: int| 0 <= k < r.len() implies (#[trigger] h[k] matches Some(t) && t@
                == hash) by {
                assert(hashes[k] == h[k]);
            }
            assert(added);
            assert(rows =~= r.push(rows.last()));
        }
    } else {
        assert(all =~= rows);
    }
}

/// A hash that is remembered for a path is the one that is found for it from then on, and for it
/// alone. One that is just offered does not replace what is remembered. Nothing else changes.
pub proof fn remembered_hash_is_found(
    s: AppView,
    path: Seq<u8>,
    hash: Seq<char>,
    other: Seq<u8>,
)
    ensures
        s.hash_known(path, hash).known_hash(path) == Some(hash),
        s.hash_known(path, hash) == (AppView {
            sprite_hash: s.hash_known(path, hash).sprite_hash,
            ..s
        }),
        path_key(other) != path_key(path) ==> s.hash_known(path, hash).known_hash(other)
            == s.known_hash(other),
        s.known_hash(path) is Some ==> s.hash_primed(path, hash) == s,
        s.known_hash(path) is None ==> s.hash_primed(path, hash) == s.hash_known(path, hash),
        s.sprite_hash.dom().contains(path_key(path)) <==> s.known_hash(path) is Some,
{
}

/// How far a preview is known to be is what was last set for its hash, and not begun where nothing
/// was. One that lies on disk is done.
pub proof fn status_is_what_was_set(
    s: AppView,
    hash: Seq<char>,
    status: SpriteStatus,
    other: Seq<char>,
    on_disk: bool,
)
    ensures
        s.status_set(hash, status).known_status(hash) == status,
        other != hash ==> s.status_set(hash, status).known_status(other) == s.known_status(other),
        s.status_set(hash, status) == (AppView {
            sprite_status: s.status_set(hash, status).sprite_status,
            ..s
        }),
        !s.sprite_status.dom().contains(hash) ==> s.known_status(hash) is NotStarted,
        s.status_of(hash, true) is Done,
        s.status_of(hash, false) == s.known_status(hash),
{
}

/// The video on show is the item on show of the mode, where that is a video: always in the mode
/// for videos, never in the mode for images.
pub proof fn video_on_show_is_the_item_on_show(s: AppView, index: usize)
    requires
        index < s.queue_of(s.mode).items.len(),
        s.queue_of(s.mode).now_playing == Some(index),
    ensures
        ({
            let path = s.queue_of(s.mode).items[index as int].path;
            let plays = s.mode is Video || (s.mode is All && s.all_current_is_video);
            &&& plays ==> s.current_video_index() == Some(index) && s.current_video_path() == Some(
                path,
            )
            &&& !plays ==> s.current_video_index() is None && s.current_video_path() is None
            &&& s.preview_source() == if plays && is_video(path) {
                Some(path)
            } else {
                None
            }
            &&& s.now_playing_index() == if s.mode is Image {
                None
            } else {
                Some(index)
            }
        }),
{
}

/// Without an item on show there is no video on show, and no preview of one.
pub proof fn no_item_no_video(s: AppView)
    requires
        s.queue_of(s.mode).now_playing is None,
    ensures
        s.current_video_index() is None,
        s.current_video_path() is None,
        s.preview_source() is None,
        s.now_playing_index() is None,
{
}

/// An item can have a preview exactly if it is a video, in a mode that plays videos.
pub proof fn only_videos_have_previews(s: AppView, index: usize)
    ensures
        s.previewable(index) == if s.mode !is Image && index < s.queue_of(s.mode).items.len()
            && is_video(s.queue_of(s.mode).items[index as int].path) {
            Some(s.queue_of(s.mode).items[index as int].path)
        } else {
            None
        },
{
}

/// The progress bar shows the preview of the video on show once it is made and could be had, says
/// so while it is being made, and otherwise shows none.
pub proof fn progress_bar_shows_made_previews(s: AppView, loaded: bool, status: SpriteStatus)
    ensures
        s.preview_source() is None ==> s.progress_preview(status, loaded) is Clear,
        s.preview_source() is Some ==> {
            &&& s.progress_preview(SpriteStatus::Done, true) is Sheet
            &&& s.progress_preview(SpriteStatus::Done, false) is Clear
            &&& s.progress_preview(SpriteStatus::InProgress, loaded) is Loading
            &&& s.progress_preview(SpriteStatus::NotStarted, loaded) is Clear
        },
{
}

/// The list shows the preview of a video that is done and could be had. For any other item the
/// preview on show is taken away. Nothing else changes.
#[verifier::rlimit(40)]
pub proof fn list_shows_made_previews(
    s: AppView,
    index: usize,
    status: SpriteStatus,
    sheet: Option<SpriteMeta>,
    before: Screen,
)
    ensures
        s.shows_list_preview(index, status, sheet) <==> s.mode !is Image && index < s.queue_of(
            s.mode,
        ).items.len() && is_video(s.queue_of(s.mode).items[index as int].path) && status is Done
            && sheet is Some,
        s.shows_list_preview(index, status, sheet) ==> s.list_preview_shown(index, status, sheet)
            == s,
        !s.shows_list_preview(index, status, sheet) ==> screen(
            s.list_preview_shown(index, status, sheet),
            before,
        ) == (Screen {
            notes: Notes { list_preview: false, ..screen(s, before).notes },
            ..screen(s, before)
        }) && s.list_preview_shown(index, status, sheet) == (AppView {
            effects: s.list_preview_shown(index, status, sheet).effects,
            ..s
        }),
{
    broadcast use group_told;

}

/// Once an item has been on show long enough its preview is made, if it is still on show, its hash
/// is known and the preview is not there or being made already. It counts as being made then, and
/// that is shown. One that is there is shown. For an item that is on show no longer nothing
/// happens.
#[verifier::rlimit(40)]
pub proof fn preview_is_begun_for_the_item_on_show(
    s: AppView,
    index: usize,
    status: SpriteStatus,
    hash: Option<Seq<char>>,
    before: Screen,
)
    ensures
        ({
            let after = s.sprite_timer_fired(index, status, hash);
            let w = screen(after, before);
            let there = s.mode !is Image && s.queue_of(s.mode).now_playing == Some(index);
            &&& s.begins_sprite(index, status, hash) <==> there && status is NotStarted && hash
                is Some
            &&& !there ==> after == s
            &&& there && status is Done ==> after == (AppView { effects: after.effects, ..s })
                && w.notes == (Notes { preview: true, ..screen(s, before).notes })
            &&& there && status is InProgress ==> after == (AppView {
                effects: after.effects,
                ..s
            }) && w.notes == (Notes { preview_loading: true, ..screen(s, before).notes })
            &&& there && status is NotStarted ==> match hash {
                Some(h) => after == (AppView {
                    sprite_status: s.sprite_status.insert(h, SpriteStatus::InProgress),
                    effects: after.effects,
                    ..s
                }) && w.notes == (Notes { preview_loading: true, ..screen(s, before).notes }),
                None => after == s,
            }
        }),
{
    broadcast use group_told;

    if let Some(h) = hash {
        let begun = s.status_set(h, SpriteStatus::InProgress);
        lemma_same_effects(begun, s, before);
    }
}

/// A preview that was made counts as done, and is shown if it is that of the video on show. One
/// that could not be made counts as not begun, and is not said to be in the making any longer.
#[verifier::rlimit(40)]
pub proof fn made_preview_is_done(
    s: AppView,
    hash: Seq<char>,
    current: Option<Seq<char>>,
    before: Screen,
)
    ensures
        ({
            let made = s.sprite_result_applied(hash, true, current);
            let failed = s.sprite_result_applied(hash, false, current);
            &&& made == (AppView {
                sprite_status: s.sprite_status.insert(hash, SpriteStatus::Done),
                effects: made.effects,
                ..s
            })
            &&& current == Some(hash) ==> screen(made, before) == (Screen {
                notes: Notes { preview: true, ..screen(s, before).notes },
                ..screen(s, before)
            })
            &&& current != Some(hash) ==> made.effects == s.effects
            &&& failed == (AppView {
                sprite_status: s.sprite_status.insert(hash, SpriteStatus::NotStarted),
                effects: failed.effects,
                ..s
            })
            &&& screen(failed, before) == (Screen {
                notes: Notes { preview_loading: false, ..screen(s, before).notes },
                ..screen(s, before)
            })
        }),
{
    broadcast use group_told;

    lemma_same_effects(s.status_set(hash, SpriteStatus::Done), s, before);
    lemma_same_effects(s.status_set(hash, SpriteStatus::NotStarted), s, before);
}

/// Frames stand in a sheet row by row: counting the cells before that of a frame gives its number.
pub proof fn frames_stand_row_by_row(frame: u32, columns: u32)
    requires
        columns > 0,
    ensures
        frame_place(frame, columns).0 < columns,
        frame_place(frame, columns).1 * columns + frame_place(frame, columns).0 == frame,
{
    assert((frame / columns) * columns + frame % columns == frame) by (nonlinear_arith)
        requires
            columns > 0,
    ;
}

/// The pictures of an animation come in turn, and each stays for its own time.
pub proof fn pictures_come_in_turn(view: AnimationView, steps: nat, elapsed: u128)
    requires
        view.wf(),
        view.current + steps < view.delays.len(),
    ensures
        view.after(steps).current == view.current + steps,
        view.after(steps).delays == view.delays,
        view.current + steps + 1 == view.delays.len() ==> view.after(steps + 1).current == 0,
        view.is_over(elapsed) <==> elapsed >= view.delays[view.current as int],
        view.next() == if view.current + 1 == view.delays.len() {
            0
        } else {
            view.current + 1
        },
    decreases steps,
{
    if steps > 0 {
        pictures_come_in_turn(view, (steps - 1) as nat, elapsed);
    }
    reveal_with_fuel(AnimationView::after, 2);
}

/// An animation begins with its first picture, and each picture stays for the time that it tells.
pub proof fn animation_begins_with_first_picture(pictures: Seq<(u32, u32, u128, Seq<u8>)>)
    ensures
        first_shown(pictures).current == 0,
        first_shown(pictures).delays.len() == pictures.len(),
        forall|k: int|
            0 <= k < pictures.len() ==> #[trigger] first_shown(pictures).delays[k]
                == pictures[k].2,
{
}

/// A path is that of a GIF file exactly if its ending is `gif`, each letter large or small.
pub proof fn gif_files_end_in_gif(path: Seq<u8>)
    ensures
        is_gif(path) <==> (extension(path) matches Some(ext) && ext.len() == 3 && (ext[0] == 71
            || ext[0] == 103) && (ext[1] == 73 || ext[1] == 105) && (ext[2] == 70 || ext[2]
            == 102)),
{
    if let Some(ext) = extension(path) {
        let lowered = ascii_lowered_bytes(ext);
        let target = seq![103u8, 105, 102];
        assert(lowered.len() == ext.len() && target.len() == 3);
        if ext.len() == 3 && (ext[0] == 71 || ext[0] == 103) && (ext[1] == 73 || ext[1] == 105) && (
        ext[2] == 70 || ext[2] == 102) {
            assert(lowered =~= target);
        }
        if lowered == target {
            assert(lowered[0] == 103 && lowered[1] == 105 && lowered[2] == 102);
        }
    }
}

/// The cell that is picked for a preview is that of one of its frames.
pub proof fn picked_cell_is_that_of_a_frame(cell: (u32, u32), frame_count: u32, columns: u32)
    requires
        columns > 0,
        is_cell_of(cell, frame_count, columns),
    ensures
        cell.0 < columns,
        frame_count > 0 ==> cell.1 * columns + cell.0 < frame_count,
        frame_count == 0 ==> cell.0 == 0 && cell.1 == 0,
{
    let frame = choose|frame: u32|
        (frame < frame_count || frame_count == 0 && frame == 0) && cell == #[trigger] frame_place(
            frame,
            columns,
        );
    frames_stand_row_by_row(frame, columns);
}

/// Of decoded pictures 512 are kept at most, and a hash has one exactly if an entry is for it.
pub proof fn kept_pictures_are_found_by_hash<T>(
    entries: Seq<(Seq<char>, T)>,
    hash: Seq<char>,
    image: T,
)
    ensures
        has_poster(entries.push((hash, image)), hash),
        !has_poster(Seq::<(Seq<char>, T)>::empty(), hash),
        posters_wf(entries) ==> entries.len() <= 512,
        POSTER_IMAGE_CACHE_MAX == 512,
{
    assert(entries.push((hash, image))[entries.len() as int].0 == hash);
}

} // verus!
