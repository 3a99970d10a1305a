//! What adding to the library leads to, and how the list is filled and loading told.

use super::acting::{item_asked_for_is_shown, on_show, only_shown_differs};
use super::changing::switching_shows_the_mode;
use super::controls::scanned_candidates;
use super::effect::Effect;
use super::enqueue::{adding_text_of, mode_for};
use super::format::base_name;
use super::gallery::GalleryReload;
use super::grid_laws::{
    added_items_reach_the_grid, opening_the_grid, pictures_all_in, rows_still_right,
};
use super::loading::JobView;
use super::playback::of_kind;
use super::screen::{group_told, lemma_same_effects, screen, Notes, Screen};
use super::showing::{
    group_parts, group_synced, is_loading, played_video_is_on_screen, presented_item_is_on_screen,
    rows_begun, shown_image_is_on_screen,
};
use super::state::{AppView, Mode};
use crate::library::ext::is_video;
use crate::library::scan::ScannedView;
use crate::path_key::path_key;
use crate::playlist::item::CandidateView;
use crate::playlist::laws::enqueue_extends_queue;
use crate::playlist::model::QueueView;
use crate::text::decimal;
use vstd::prelude::*;

verus! {

/// Parting files by kind keeps each of the two kinds in its order.
pub proof fn kinds_are_parted_in_order(cs: Seq<CandidateView>, videos: bool)
    ensures
        of_kind(cs, videos) == cs.filter(|c: CandidateView| is_video(c.path) == videos),
    decreases cs.len(),
{
    reveal(Seq::filter);
    if cs.len() > 0 {
        kinds_are_parted_in_order(cs.drop_last(), videos);
    } else {
        assert(cs =~= Seq::empty());
    }
}

/// Files lead to the mode for videos if all of them are videos, to the mode for images if none is,
/// and to the mode for all media if some are and some are not.
pub proof fn files_lead_to_their_mode(s: AppView, cs: Seq<CandidateView>)
    ensures
        cs.len() > 0 && (forall|k: int| 0 <= k < cs.len() ==> is_video(#[trigger] cs[k].path))
            ==> mode_for(cs) == Some(Mode::Video) && s.mode_after(cs) is Video,
        cs.len() > 0 && (forall|k: int| 0 <= k < cs.len() ==> !is_video(#[trigger] cs[k].path))
            ==> mode_for(cs) == Some(Mode::Image) && s.mode_after(cs) is Image,
        (exists|k: int| 0 <= k < cs.len() && is_video(#[trigger] cs[k].path)) && (exists|k: int|
            0 <= k < cs.len() && !is_video(#[trigger] cs[k].path)) ==> mode_for(cs) == Some(
            Mode::All,
        ) && s.mode_after(cs) is All,
        cs.len() == 0 ==> mode_for(cs) is None && s.mode_after(cs) == s.mode,
{
    lemma_some_of_kind(cs, true);
    lemma_some_of_kind(cs, false);
    if cs.len() > 0 {
        assert(is_video(cs[0].path) || !is_video(cs[0].path));
    }
}

proof fn lemma_some_of_kind(cs: Seq<CandidateView>, videos: bool)
    ensures
        of_kind(cs, videos).len() > 0 <==> exists|k: int|
            0 <= k < cs.len() && is_video(#[trigger] cs[k].path) == videos,
    decreases cs.len(),
{
    if cs.len() > 0 {
        let init = cs.drop_last();
        lemma_some_of_kind(init, videos);
        if exists|k: int| 0 <= k < init.len() && is_video(#[trigger] init[k].path) == videos {
            let k = choose|k: int|
                0 <= k < init.len() && is_video(#[trigger] init[k].path) == videos;
            assert(is_video(cs[k].path) == videos);
        }
        if exists|k: int| 0 <= k < cs.len() && is_video(#[trigger] cs[k].path) == videos {
            let k = choose|k: int| 0 <= k < cs.len() && is_video(#[trigger] cs[k].path) == videos;
            if k < init.len() {
                assert(is_video(init[k].path) == videos);
            }
        }
        if is_video(cs.last().path) == videos {
            assert(is_video(cs[cs.len() - 1].path) == videos);
        }
    }
}

/// What a queue holds after files were offered to it, whatever is on show.
pub open spec fn holds(queue: QueueView, filled: QueueView) -> bool {
    &&& queue.items == filled.items
    &&& queue.play_order == filled.play_order
    &&& queue.last_id == filled.last_id
}

#[verifier::rlimit(40)]
proof fn lemma_filled_queues(s: AppView, cs: Seq<CandidateView>)
    ensures
        ({
            let after = s.adding_told(cs.len()).queues_filled(cs);
            &&& after == (AppView {
                queue: s.queue.enqueued(of_kind(cs, true)),
                image_queue: s.image_queue.enqueued(of_kind(cs, false)),
                all_queue: s.all_queue.enqueued(cs),
                library_loading: s.library_loading || cs.len() > 0,
                rebuild: after.rebuild,
                effects: after.effects,
                ..s
            })
        }),
{
    broadcast use group_parts;

    reveal(AppView::adding_told);
    reveal(AppView::queues_filled);
    reveal(AppView::videos_enqueued);
    reveal(AppView::images_enqueued);
}

#[verifier::rlimit(40)]
proof fn lemma_import_shown(s: AppView, before: Screen)
    requires
        s.all_queue.items.len() > 0,
    ensures
        ({
            let after = s.import_shown();
            &&& after.mode == s.mode
            &&& holds(after.queue, s.queue)
            &&& holds(after.image_queue, s.image_queue)
            &&& holds(after.all_queue, s.all_queue)
            &&& after.library_session == s.library_session
            &&& after.search_query == s.search_query
            &&& rows_begun(after)
            &&& s.queue_of(s.mode).items.len() == 1 ==> after.gallery_open && after.queue_of(
                s.mode,
            ).now_playing == Some(0usize)
            &&& s.queue_of(s.mode).items.len() != 1 ==> after.queue == s.queue && after.image_queue
                == s.image_queue && after.all_queue == s.all_queue
            &&& s.queue_of(s.mode).items.len() != 1 && (pictures_all_in(s) || !rows_still_right(s)
                || s.gallery_order.len() == 0) ==> !after.gallery_open
        }),
{
    broadcast use {group_parts, group_synced};

    reveal(AppView::import_shown);
    reveal(AppView::import_told);
    if s.queue_of(s.mode).items.len() == 1 {
        item_asked_for_is_shown(s, 0, before);
        reveal(on_show);
        reveal(only_shown_differs);
    } else {
        added_items_reach_the_grid(s);
        opening_the_grid(s, GalleryReload::Force, before);
        reveal(AppView::appended);
    }
}

/// After files were added to the library each of them is in the queue of all media and in the
/// queue of its kind, in the order in which they came, behind what was there; files whose path is
/// there already are not added again. The window is in the mode that goes with the files. A mode
/// that has just one item then shows it, and one that has several shows its grid.
#[verifier::rlimit(40)]
pub proof fn added_files_reach_their_queues(s: AppView, cs: Seq<CandidateView>, before: Screen)
    requires
        cs.len() > 0,
        s.queue_of(s.mode_after(cs)).now_playing matches Some(index) ==> index < s.queue_of(
            s.mode_after(cs),
        ).items.len(),
    ensures
        ({
            let after = s.paths_enqueued(cs);
            let videos = cs.filter(|c: CandidateView| is_video(c.path) == true);
            let images = cs.filter(|c: CandidateView| is_video(c.path) == false);
            &&& holds(after.all_queue, s.all_queue.enqueued(cs))
            &&& holds(after.queue, s.queue.enqueued(videos))
            &&& holds(after.image_queue, s.image_queue.enqueued(images))
            &&& Some(after.mode) == mode_for(cs)
            &&& after.library_session == s.library_session
            &&& after.search_query == s.search_query
            &&& rows_begun(after)
            &&& after.queue_of(after.mode).items.len() == 1 ==> after.gallery_open
                && after.queue_of(after.mode).now_playing == Some(0usize)
        }),
{
    let mode = s.mode_after(cs);
    files_lead_to_their_mode(s, cs);
    kinds_are_parted_in_order(cs, true);
    kinds_are_parted_in_order(cs, false);
    enqueue_extends_queue(s.all_queue, cs);
    enqueue_extends_queue(s.queue, of_kind(cs, true));
    enqueue_extends_queue(s.image_queue, of_kind(cs, false));
    lemma_filled_queues(s, cs);
    let filled = s.adding_told(cs.len()).queues_filled(cs);
    assert(filled.all_queue.has_path(cs[0].path));
    let set = filled.mode_set(mode, false);
    assert(holds(set.queue, filled.queue) && holds(set.image_queue, filled.image_queue) && holds(
        set.all_queue,
        filled.all_queue,
    ) && set.mode == mode && set.library_session == filled.library_session && set.search_query
        == filled.search_query) by {
        if filled.mode != mode {
            switching_shows_the_mode(filled, mode, false, before);
            lemma_session_kept(filled, mode);
        }
    }
    lemma_import_shown(set, before);
    let shown = set.import_shown();
    let done = AppView { library_loading: false, ..shown };
    broadcast use group_parts;

    assert(s.paths_enqueued(cs) == done.loading_synced());
    assert(rows_begun(shown) ==> rows_begun(done.loading_synced()));
    assert(mode_for(cs) is Some) by {
        lemma_some_of_kind(cs, true);
        lemma_some_of_kind(cs, false);
        assert(is_video(cs[0].path) || !is_video(cs[0].path));
    }
}

#[verifier::rlimit(40)]
proof fn lemma_session_kept(s: AppView, mode: Mode)
    ensures
        s.mode_set(mode, false).library_session == s.library_session,
{
    broadcast use {group_parts, group_synced};

    reveal(AppView::mode_switched);
    reveal(AppView::quieted);
    reveal(AppView::mode_announced);
    reveal(AppView::mode_entered);
    reveal(AppView::index_played);
    reveal(AppView::image_shown);
    reveal(AppView::item_presented);
}

/// A batch that belongs to the session under way is added; one of another session, or one without
/// files, changes nothing.
pub proof fn batches_of_this_session_are_added(
    s: AppView,
    session: u64,
    cs: Seq<CandidateView>,
    files: Seq<ScannedView>,
)
    ensures
        session == s.library_session && cs.len() > 0 ==> s.batch_imported(session, cs)
            == s.paths_enqueued(cs),
        session != s.library_session || cs.len() == 0 ==> s.batch_imported(session, cs) == s,
        session == s.library_session && files.len() > 0 ==> s.scan_applied(session, files)
            == s.hashes_primed(files).paths_enqueued(scanned_candidates(files)),
        session != s.library_session || files.len() == 0 ==> s.scan_applied(session, files) == s,
{
}

/// A file that was found is offered under the name by which it is listed, with its own path and
/// size, in the place in which it was found.
pub proof fn found_files_are_offered_as_they_are(files: Seq<ScannedView>)
    ensures
        scanned_candidates(files).len() == files.len(),
        forall|k: int|
            0 <= k < files.len() ==> {
                &&& (#[trigger] scanned_candidates(files)[k]).name == base_name(files[k].path)
                &&& scanned_candidates(files)[k].path == files[k].path
                &&& scanned_candidates(files)[k].size_bytes == files[k].size
            },
{
}

/// The hash that a scan found for a path is remembered where none was remembered: the first one
/// that was found for it. One that was remembered stays. Nothing else changes.
pub proof fn first_hash_is_remembered(s: AppView, files: Seq<ScannedView>, path: Seq<u8>)
    ensures
        s.hashes_primed(files) == (AppView {
            sprite_hash: s.hashes_primed(files).sprite_hash,
            ..s
        }),
        s.known_hash(path) matches Some(hash) ==> s.hashes_primed(files).known_hash(path) == Some(
            hash,
        ),
        forall|k: int|
            0 <= k < files.len() && s.known_hash(path) is None && path_key(
                #[trigger] files[k].path,
            ) == path_key(path) && files[k].content_hash is Some && (forall|j: int|
                0 <= j < k ==> path_key(#[trigger] files[j].path) != path_key(path)
                    || files[j].content_hash is None) ==> s.hashes_primed(files).known_hash(path)
                == files[k].content_hash,
        s.known_hash(path) is None && (forall|k: int|
            0 <= k < files.len() ==> path_key(#[trigger] files[k].path) != path_key(path)
                || files[k].content_hash is None) ==> s.hashes_primed(files).known_hash(path)
            is None,
    decreases files.len(),
{
    if files.len() > 0 {
        let init = files.drop_last();
        first_hash_is_remembered(s, init, path);
        let some = s.hashes_primed(init);
        let after = s.hashes_primed(files);
        let key = path_key(path);
        assert forall|k: int| 0 <= k < init.len() implies #[trigger] init[k] == files[k] by {}
        assert forall|k: int|
            0 <= k < files.len() && s.known_hash(path) is None && path_key(
                #[trigger] files[k].path,
            ) == key && files[k].content_hash is Some && (forall|j: int|
                0 <= j < k ==> path_key(#[trigger] files[j].path) != key
                    || files[j].content_hash is None) implies after.known_hash(path)
            == files[k].content_hash by {
            if k < init.len() {
                assert(init[k].path == files[k].path);
                assert forall|j: int| 0 <= j < k implies path_key(#[trigger] init[j].path) != key
                    || init[j].content_hash is None by {
                    assert(files[j].path == init[j].path);
                }
                assert(some.known_hash(path) == files[k].content_hash);
            } else {
                assert forall|j: int| 0 <= j < init.len() implies path_key(
                    #[trigger] init[j].path,
                ) != key || init[j].content_hash is None by {
                    assert(files[j].path == init[j].path);
                }
                assert(some.known_hash(path) is None);
            }
        }
        if s.known_hash(path) is None && (forall|k: int|
            0 <= k < files.len() ==> path_key(#[trigger] files[k].path) != key
                || files[k].content_hash is None) {
            assert forall|j: int| 0 <= j < init.len() implies path_key(#[trigger] init[j].path)
                != key || init[j].content_hash is None by {
                assert(files[j].path == init[j].path);
            }
            assert(path_key(files[files.len() - 1].path) != key || files[files.len()
                - 1].content_hash is None);
        }
    }
}

/// An import that begins is shown as loading, under the text that there is, or one of its own.
pub proof fn import_is_shown_as_loading(s: AppView, before: Screen)
    ensures
        s.import_begun().library_loading,
        screen(s.import_begun(), before).notes.loading,
        s.library_loading_message.len() > 0 ==> s.import_begun().library_loading_message
            == s.library_loading_message,
        s.library_loading_message.len() == 0 ==> s.import_begun().library_loading_message
            == "Importing…"@,
{
    broadcast use group_parts;

    reveal_strlit("Importing…");
}

/// Each bit of the list takes up where the last one ended and goes on for 120 rows, or to the end.
/// At the end a first pass, which leaves out what has to be read from disk, is followed by a
/// second one from the first row on, and a second one by nothing.
pub proof fn list_is_filled_row_by_row(s: AppView, job: JobView)
    requires
        s.rebuild == Some(job),
        job.next_index <= job.filtered.len() <= usize::MAX,
    ensures
        ({
            let after = s.rebuild_ticked();
            let total = job.filtered.len() as int;
            let first_pass = job.defer_sprite_status && !job.sprite_pass;
            &&& after.effects.len() == s.effects.len() + 2
            &&& after.effects.take(s.effects.len() as int) == s.effects
            &&& after.effects[s.effects.len() as int] matches Effect::FillRowRange {
                from,
                to,
                deferred,
            } && {
                &&& from == job.next_index
                &&& from <= to <= total
                &&& to - from <= 120
                &&& to < total ==> to - from == 120
                &&& deferred == first_pass
                &&& to < total ==> after.rebuild == Some(JobView { next_index: to, ..job })
                &&& to == total && first_pass ==> after.rebuild == Some(
                    JobView { next_index: 0, sprite_pass: true, ..job },
                )
                &&& to == total && !first_pass ==> after.rebuild is None
            }
        }),
        s.rebuild_ticked() == (AppView {
            rebuild: s.rebuild_ticked().rebuild,
            library_loading: s.rebuild_ticked().library_loading,
            library_loading_message: s.rebuild_ticked().library_loading_message,
            effects: s.rebuild_ticked().effects,
            ..s
        }),
{
    reveal(AppView::loading_synced);
    let after = s.rebuild_ticked();
    assert(after.effects.take(s.effects.len() as int) =~= s.effects);
}

/// Without a list to fill nothing is filled.
pub proof fn full_list_is_left_alone(s: AppView)
    ensures
        s.rebuild is None ==> s.rebuild_ticked() == s,
{
}

/// An import ends once nothing is loading any more, and not before.
#[verifier::rlimit(40)]
pub proof fn import_ends_when_nothing_loads(s: AppView, before: Screen)
    ensures
        !s.library_loading || s.rebuild is Some || s.thumbs_loaded + s.thumbs_failed
            < s.thumbs_pending ==> s.import_finished() == s,
        s.library_loading && s.rebuild is None && s.thumbs_loaded + s.thumbs_failed
            >= s.thumbs_pending ==> s.import_finished() == (AppView {
            library_loading: false,
            library_loading_message: Seq::empty(),
            effects: s.import_finished().effects,
            ..s
        }) && !screen(s.import_finished(), before).notes.loading,
{
    broadcast use group_parts;

    let done = AppView {
        library_loading: false,
        library_loading_message: Seq::empty(),
        ..s
    };
    if s.rebuild is None && s.thumbs_loaded + s.thumbs_failed >= s.thumbs_pending {
        assert(done.loading_synced().library_loading_message =~= Seq::empty());
    }
}

/// What the text that goes with loading counts: the rows filled so far of all rows, and the
/// pictures that came or failed of all that are due.
pub proof fn loading_text_counts_what_is_done(s: AppView)
    ensures
        !is_loading(s) ==> s.loading_text().len() == 0,
        s.rebuild matches Some(job) && s.thumbs_pending == 0 && !job.sprite_pass
            ==> s.loading_text() == "Loading library… ("@ + ("items"@ + " "@ + decimal(
            s.rebuild->0.next_index as nat,
        ) + "/"@ + decimal(s.rebuild->0.filtered.len())) + ")"@,
        s.rebuild matches Some(job) && s.thumbs_pending == 0 && job.sprite_pass ==> s.loading_text()
            == "Loading library… ("@ + ("previews"@ + " "@ + decimal(
            s.rebuild->0.next_index as nat,
        ) + "/"@ + decimal(s.rebuild->0.filtered.len())) + ")"@,
        s.rebuild is None && s.thumbs_pending > 0 && is_loading(s) && s.thumbs_failed == 0
            ==> s.loading_text() == "Loading library… ("@ + ("thumbs "@ + decimal(
            s.thumbs_loaded as nat,
        ) + "/"@ + decimal(s.thumbs_pending as nat)) + ")"@,
        s.rebuild is None && s.thumbs_pending > 0 && is_loading(s) && s.thumbs_failed > 0
            ==> s.loading_text() == "Loading library… ("@ + ("thumbs "@ + decimal(
            (s.thumbs_loaded + s.thumbs_failed) as nat,
        ) + "/"@ + decimal(s.thumbs_pending as nat) + " ("@ + decimal(s.thumbs_failed as nat)
            + " failed)"@) + ")"@,
        s.rebuild is Some && s.thumbs_pending > 0 ==> s.loading_text() == "Loading library… ("@
            + s.rows_text() + ", "@ + s.thumbs_text() + ")"@,
        s.rebuild is None && s.thumbs_pending == 0 && s.library_loading
            && s.library_loading_message.len() > 0 ==> s.loading_text()
            == s.library_loading_message,
        s.rebuild is None && s.thumbs_pending == 0 && s.library_loading
            && s.library_loading_message.len() == 0 ==> s.loading_text() == "Loading library…"@,
        adding_text_of(s.thumbs_pending as nat) == "Adding "@ + decimal(s.thumbs_pending as nat)
            + " items…"@,
{
}

/// While files are being added their number is shown.
pub proof fn number_of_added_files_is_shown(s: AppView, count: nat, before: Screen)
    requires
        count <= usize::MAX,
    ensures
        count == 0 ==> s.adding_told(count) == s,
        count > 0 ==> s.adding_told(count) == (AppView {
            library_loading: true,
            effects: s.adding_told(count).effects,
            ..s
        }) && screen(s.adding_told(count), before) == (Screen {
            notes: Notes { adding: Some(count as usize), ..screen(s, before).notes },
            ..screen(s, before)
        }),
{
    broadcast use group_told;

    reveal(AppView::adding_told);
    lemma_same_effects(AppView { library_loading: true, ..s }, s, before);
}

/// Files that go into a queue begin its list anew exactly if it is on show.
pub proof fn list_on_show_is_begun_anew(s: AppView, cs: Seq<CandidateView>)
    ensures
        s.videos_enqueued(cs) == (AppView {
            queue: s.queue.enqueued(cs),
            rebuild: s.videos_enqueued(cs).rebuild,
            effects: s.videos_enqueued(cs).effects,
            ..s
        }),
        s.images_enqueued(cs) == (AppView {
            image_queue: s.image_queue.enqueued(cs),
            rebuild: s.images_enqueued(cs).rebuild,
            effects: s.images_enqueued(cs).effects,
            ..s
        }),
        s.mode is Video ==> rows_begun(s.videos_enqueued(cs)),
        s.mode !is Video ==> s.videos_enqueued(cs).effects == s.effects && s.videos_enqueued(
            cs,
        ).rebuild == s.rebuild,
        s.mode is Image ==> rows_begun(s.images_enqueued(cs)),
        s.mode !is Image ==> s.images_enqueued(cs).effects == s.effects && s.images_enqueued(
            cs,
        ).rebuild == s.rebuild,
{
    broadcast use group_parts;

    reveal(AppView::videos_enqueued);
    reveal(AppView::images_enqueued);
}

/// Once an import was shown, a single item of the mode has the window to itself; the view is up to
/// date, and so is what is said of loading.
#[verifier::rlimit(60)]
pub proof fn single_import_is_on_show(s: AppView, before: Screen)
    requires
        s.all_queue.items.len() > 0,
        s.queue_of(s.mode).items.len() == 1,
    ensures
        on_show(s.import_shown(), screen(s.import_shown(), before), 0),
        screen(s.import_shown(), before).notes.loading == s.import_shown().library_loading,
        screen(s.import_shown(), before).has == screen(s, before).has.with(s.mode, true),
{
    broadcast use {group_parts, group_synced};

    reveal(AppView::import_shown);
    reveal(AppView::import_told);
    reveal(on_show);
    match s.mode {
        Mode::Video => played_video_is_on_screen(s, 0, before),
        Mode::Image => shown_image_is_on_screen(s, 0, before),
        Mode::All => presented_item_is_on_screen(s, 0, before),
    }
}

/// Adding files goes step by step: their number is told, they go into the queues, the mode is set
/// without its grid, the import is shown, and then loading is told anew.
pub proof fn files_are_added_step_by_step(s: AppView, cs: Seq<CandidateView>)
    ensures
        ({
            let filled = s.adding_told(cs.len()).queues_filled(cs);
            let shown = filled.mode_set(s.mode_after(cs), false).import_shown();
            s.paths_enqueued(cs) == (AppView { library_loading: false, ..shown }).loading_synced()
        }),
{
}

/// An import of which the mode has several items reaches the grid as added items do; an import
/// that leaves the library empty shows nothing.
#[verifier::rlimit(40)]
pub proof fn import_of_several_reaches_the_grid(s: AppView, before: Screen)
    ensures
        s.all_queue.items.len() == 0 ==> s.import_shown() == s,
        s.all_queue.items.len() > 0 && s.queue_of(s.mode).items.len() > 1 ==> {
            let after = s.import_shown();
            let w = screen(after, before);
            let grown = screen(s.grid_extended(), before);
            &&& rows_begun(after)
            &&& w.has == grown.has.with(s.mode, true)
            &&& w.page.gallery_open == after.gallery_open
            &&& w.notes.loading == after.library_loading
            &&& w.player == grown.player
            &&& w.switches == grown.switches
        },
        s.all_queue.items.len() > 0 && s.queue_of(s.mode).items.len() != 1 ==> {
            let after = s.import_shown();
            let grown = s.grid_extended();
            after == (AppView {
                rebuild: after.rebuild,
                library_loading: after.library_loading,
                library_loading_message: after.library_loading_message,
                effects: after.effects,
                ..grown
            })
        },
{
    broadcast use {group_parts, group_synced};

    reveal(AppView::import_shown);
    reveal(AppView::import_told);
    lemma_extending_keeps_items(s, before);
}

proof fn lemma_extending_keeps_items(s: AppView, before: Screen)
    ensures
        s.grid_extended().queue == s.queue,
        s.grid_extended().image_queue == s.image_queue,
        s.grid_extended().all_queue == s.all_queue,
        s.grid_extended().mode == s.mode,
        s.grid_extended().search_query == s.search_query,
{
    added_items_reach_the_grid(s);
    opening_the_grid(s, GalleryReload::Force, before);
    reveal(AppView::appended);
}

} // verus!
