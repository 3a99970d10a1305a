//! What switching modes, taking items out, moving them, shuffling, clearing and adding to the
//! library lead to.

use super::acting::{
    item_asked_for_is_shown, on_show, only_shown_differs,
};
use super::effect::Effect;
use super::gallery::GalleryReload;
use super::grid_laws::{items_due, opening_the_grid};
use super::screen::{
    group_told, lemma_same_effects, screen, Notes, Page, Player, Screen, Switches, Viewer,
};
use super::showing::{group_parts, group_synced, nothing_else_is_shown, place_shown, rows_begun};
use super::state::{AppView, Mode};
use crate::playlist::behaviour::{
    is_found, jump_goes_to_first_found, moving_puts_item_where_asked, removal_takes_out_one_item,
};
use crate::playlist::laws::full_order_is_permutation;
use crate::playlist::model::{indices, QueueView, RemoveOutcome};
use vstd::prelude::*;

verus! {

/// What leaving a mode for another does to the player and the switches before anything is shown.
#[verifier::rlimit(40)]
pub broadcast proof fn told_quieted(s: AppView, mode: Mode, before: Screen)
    ensures
        #[trigger] screen(s.quieted(mode), before) == (Screen {
            player: if mode is Image {
                Player { loaded: None, runs: false, playing: false, ..screen(s, before).player }
            } else if s.mode is Video {
                Player { runs: false, playing: false, ..screen(s, before).player }
            } else {
                screen(s, before).player
            },
            switches: if mode is Video {
                Switches {
                    slideshow: screen(s, before).switches.slideshow && !s.slideshow_on,
                    timer: false,
                    ..screen(s, before).switches
                }
            } else {
                screen(s, before).switches
            },
            ..screen(s, before)
        }),
{
    broadcast use group_told;

    reveal(AppView::quieted);
    let quiet = if mode == Mode::Image {
        s.stopped()
    } else if s.mode == Mode::Video {
        s.with(Effect::PausePlayer)
    } else {
        s
    };
    lemma_same_effects(AppView { slideshow_on: false, ..quiet }, quiet, before);
}

pub broadcast proof fn kept_quieted(s: AppView, mode: Mode)
    ensures
        #[trigger] s.quieted(mode) == (AppView {
            slideshow_on: s.slideshow_on && mode !is Video,
            effects: s.quieted(mode).effects,
            ..s
        }),
{
    reveal(AppView::quieted);
}

pub broadcast proof fn told_mode_announced(s: AppView, mode: Mode, before: Screen)
    ensures
        #[trigger] screen(s.mode_announced(mode), before) == (Screen {
            page: Page { mode, ..screen(s, before).page },
            notes: Notes { preview: false, list_preview: false, ..screen(s, before).notes },
            ..screen(s, before)
        }),
{
    broadcast use group_told;

    reveal(AppView::mode_announced);
    lemma_same_effects(AppView { mode, pending_gallery_append: false, ..s }, s, before);
}

pub broadcast proof fn kept_mode_announced(s: AppView, mode: Mode)
    ensures
        #[trigger] s.mode_announced(mode) == (AppView {
            mode,
            pending_gallery_append: false,
            effects: s.mode_announced(mode).effects,
            ..s
        }),
{
    reveal(AppView::mode_announced);
}

broadcast group group_mode {
    told_quieted,
    kept_quieted,
    told_mode_announced,
    kept_mode_announced,
}

/// Switching to another mode shows it. An item that was on show there is on show again; where
/// there is none the grid is, or nothing where the mode has no items. Images silence the player,
/// and videos end the slideshow.
#[verifier::rlimit(40)]
pub proof fn switching_shows_the_mode(s: AppView, mode: Mode, with_grid: bool, before: Screen)
    requires
        s.mode != mode,
        s.queue_of(mode).now_playing matches Some(index) ==> index < s.queue_of(mode).items.len(),
    ensures
        ({
            let after = s.mode_set(mode, with_grid);
            let w = screen(after, before);
            &&& after.mode == mode
            &&& w.page.mode == mode
            &&& rows_begun(after)
            &&& !w.notes.list_preview
            &&& !after.pending_gallery_append
            &&& after.search_query == s.search_query
            &&& after.shuffle_on == s.shuffle_on
            &&& after.loop_on == s.loop_on
            &&& after.ab_loop == s.ab_loop
            &&& after.queue == s.queue
            &&& after.image_queue == s.image_queue
            &&& after.all_queue == s.all_queue
            &&& s.queue_of(mode).now_playing matches Some(index) ==> on_show(after, w, index)
            &&& s.queue_of(mode).now_playing is None ==> {
                &&& !w.notes.preview
                &&& s.queue_of(mode).items.len() > 0 ==> !after.gallery_open
                    && !w.page.gallery_open
                &&& s.queue_of(mode).items.len() == 0 ==> after.gallery_open == s.gallery_open
                    && w.page.gallery_open == s.gallery_open
                &&& s.queue_of(mode).items.len() > 0 && with_grid ==> after.pending_gallery_reload
                    && after.gallery_order == items_due(after)
                &&& s.queue_of(mode).items.len() == 0 || !with_grid ==> after.gallery_order
                    == s.gallery_order && after.pending_gallery_reload == s.pending_gallery_reload
            }
            &&& mode is Image ==> !w.player.runs && !w.player.playing && w.player.loaded is None
            &&& mode is Video ==> !after.slideshow_on && !w.switches.timer
            &&& s.mode is Video && s.queue_of(mode).now_playing is None ==> !w.player.runs
                && !w.player.playing
            &&& w.has == screen(s, before).has.with(mode, s.queue_of(mode).items.len() > 0)
            &&& w.places == screen(s, before).places.with(
                mode,
                place_shown(
                    s.queue_of(mode),
                    s.search_query,
                    s.shuffle_on,
                    screen(s, before).places.of(mode),
                ),
            )
        }),
{
    broadcast use {group_mode, group_parts};

    reveal(AppView::mode_switched);
    let quiet = s.quieted(mode);
    let told = quiet.mode_announced(mode);
    let entered = told.mode_entered(with_grid);
    lemma_entered(told, with_grid, before);
    match s.queue_of(mode).now_playing {
        Some(index) => {
            reveal(on_show);
            reveal(only_shown_differs);
        },
        None => {},
    }
}

#[verifier::rlimit(40)]
proof fn lemma_entered(s: AppView, with_grid: bool, before: Screen)
    requires
        s.queue_of(s.mode).now_playing matches Some(index) ==> index < s.queue_of(
            s.mode,
        ).items.len(),
    ensures
        ({
            let after = s.mode_entered(with_grid);
            let w = screen(after, before);
            &&& s.queue_of(s.mode).now_playing matches Some(index) ==> on_show(after, w, index)
                && only_shown_differs(s, after) && w.switches == screen(s, before).switches
                && after.queue == s.queue && after.image_queue == s.image_queue && after.all_queue
                == s.all_queue && w.page.mode == screen(s, before).page.mode && (
            s.mode is Image ==> w.player.loaded is None) && w.notes.list_preview == screen(
                s,
                before,
            ).notes.list_preview
            &&& s.queue_of(s.mode).now_playing is None ==> {
                &&& after.mode == s.mode
                &&& after.queue == s.queue
                &&& after.image_queue == s.image_queue
                &&& after.all_queue == s.all_queue
                &&& after.pending_gallery_append == s.pending_gallery_append
                &&& after.search_query == s.search_query
                &&& after.shuffle_on == s.shuffle_on
                &&& after.loop_on == s.loop_on
                &&& after.ab_loop == s.ab_loop
                &&& s.mode is Video ==> after.slideshow_on == s.slideshow_on && w.switches
                    == screen(s, before).switches
                &&& s.queue_of(s.mode).items.len() > 0 ==> !after.gallery_open
                    && !w.page.gallery_open
                &&& s.queue_of(s.mode).items.len() == 0 ==> after.gallery_open == s.gallery_open
                    && w.page.gallery_open == s.gallery_open
                &&& s.queue_of(s.mode).items.len() > 0 && with_grid
                    ==> after.pending_gallery_reload && after.gallery_order == items_due(s)
                &&& s.queue_of(s.mode).items.len() == 0 || !with_grid ==> after.gallery_order
                    == s.gallery_order && after.pending_gallery_reload == s.pending_gallery_reload
                &&& w.page.mode == screen(s, before).page.mode
                &&& w.notes.preview == screen(s, before).notes.preview
                &&& w.notes.list_preview == screen(s, before).notes.list_preview
                &&& s.mode is Image && screen(s, before).player.loaded is None && !screen(
                    s,
                    before,
                ).player.runs && !screen(s, before).player.playing ==> w.player.loaded is None
                    && !w.player.runs && !w.player.playing
                &&& !screen(s, before).player.runs && !screen(s, before).player.playing
                    ==> !w.player.runs && !w.player.playing
            }
            &&& w.has == screen(s, before).has.with(
                s.mode,
                s.queue_of(s.mode).items.len() > 0,
            )
            &&& w.places == screen(s, before).places.with(
                s.mode,
                place_shown(
                    s.queue_of(s.mode),
                    s.search_query,
                    s.shuffle_on,
                    screen(s, before).places.of(s.mode),
                ),
            )
        }),
{
    reveal(AppView::mode_entered);
    match s.queue_of(s.mode).now_playing {
        Some(index) => {
            item_asked_for_is_shown(s, index, before);
            lemma_shown_page(s, index, before);
            reveal(on_show);
            reveal(only_shown_differs);
        },
        None => {
            broadcast use {group_told, group_parts, group_synced};

            opening_the_grid(s, GalleryReload::Force, before);
            lemma_same_effects(AppView { gallery_open: false, ..s }, s, before);
        },
    }
}

proof fn lemma_shown_page(s: AppView, index: usize, before: Screen)
    requires
        index < s.queue_of(s.mode).items.len(),
    ensures
        screen(s.shown(index), before).page.mode == screen(s, before).page.mode,
        screen(s.shown(index), before).notes.list_preview == screen(
            s,
            before,
        ).notes.list_preview,
        s.mode is Image ==> screen(s.shown(index), before).player.loaded is None,
        screen(s.shown(index), before).has == screen(s, before).has.with(s.mode, true),
        screen(s.shown(index), before).places == screen(s, before).places.with(
            s.mode,
            place_shown(
                s.shown(index).queue_of(s.mode),
                s.search_query,
                s.shuffle_on,
                screen(s, before).places.of(s.mode),
            ),
        ),
{
    match s.mode {
        Mode::Video => super::showing::played_video_is_on_screen(s, index, before),
        Mode::Image => super::showing::shown_image_is_on_screen(s, index, before),
        Mode::All => super::showing::presented_item_is_on_screen(s, index, before),
    }
}

/// Setting the mode that the window is in already changes nothing.
pub proof fn same_mode_changes_nothing(s: AppView, with_grid: bool)
    ensures
        s.mode_set(s.mode, with_grid) == s,
{
}

/// Taking an item out of the queue of the mode leaves the others, in their order. Where the item
/// was on show the one that follows is, or the new last one; where it was another, what is on
/// show and in the player stays; where it was the only one, nothing is on show, and the player is
/// stopped unless the mode shows images alone.
pub proof fn taking_out_shows_what_follows(s: AppView, index: usize, before: Screen)
    requires
        s.queue_of(s.mode).wf(),
        index < s.queue_of(s.mode).items.len(),
        s.queue_of(s.mode).now_playing matches Some(np) ==> np < s.queue_of(s.mode).items.len(),
    ensures
        ({
            let queue = s.queue_of(s.mode);
            let after = s.item_removed(index);
            let w = screen(after, before);
            let last = queue.items.len() - 1;
            &&& after.mode == s.mode
            &&& after.queue_of(s.mode).items == queue.removed(index).items
            &&& after.queue_of(s.mode).play_order == queue.removed(index).play_order
            &&& after.queue_of(s.mode).now_playing == queue.removed(index).now_playing
            &&& rows_begun(after)
            &&& w.switches == screen(s, before).switches
            &&& queue.items.len() == 1 ==> !after.gallery_open && !w.page.gallery_open
                && w.has == screen(s, before).has.with(s.mode, false) && (s.mode !is Image
                ==> w.player.loaded is None && !w.player.runs && !w.player.playing)
            &&& queue.items.len() > 1 && queue.now_playing == Some(index) && index < last
                ==> on_show(after, w, index)
            &&& queue.items.len() > 1 && queue.now_playing == Some(index) && index == last
                ==> on_show(after, w, (index - 1) as usize)
            &&& queue.items.len() > 1 && queue.now_playing != Some(index) ==> w.player == screen(
                s,
                before,
            ).player && after.gallery_open == s.gallery_open
        }),
{
    let queue = s.queue_of(s.mode);
    removal_takes_out_one_item(queue, index);
    match s.mode {
        Mode::Video => lemma_video_taken_out(s, index, before),
        Mode::Image => lemma_image_taken_out(s, index, before),
        Mode::All => lemma_media_taken_out(s, index, before),
    }
}

#[verifier::rlimit(40)]
proof fn lemma_shown_after(s: AppView, less: AppView, next: usize, before: Screen)
    requires
        less.mode == s.mode,
        less.effects == s.effects,
        next < less.queue_of(s.mode).items.len(),
    ensures
        ({
            let after = less.shown(next);
            let w = screen(after, before);
            &&& on_show(after, w, next)
            &&& after.mode == s.mode
            &&& after.queue_of(s.mode) == (QueueView {
                now_playing: Some(next),
                ..less.queue_of(s.mode)
            })
            &&& rows_begun(after)
            &&& w.switches == screen(s, before).switches
        }),
{
    lemma_same_effects(less, s, before);
    item_asked_for_is_shown(less, next, before);
    reveal(on_show);
    reveal(only_shown_differs);
}

#[verifier::rlimit(40)]
proof fn lemma_video_taken_out(s: AppView, index: usize, before: Screen)
    requires
        s.mode is Video,
        index < s.queue.items.len(),
        s.queue.now_playing matches Some(np) ==> np < s.queue.items.len(),
    ensures
        ({
            let queue = s.queue;
            let after = s.item_removed(index);
            let w = screen(after, before);
            let last = queue.items.len() - 1;
            &&& after.mode == s.mode
            &&& after.queue.items == queue.removed(index).items
            &&& after.queue.play_order == queue.removed(index).play_order
            &&& after.queue.now_playing == queue.removed(index).now_playing
            &&& rows_begun(after)
            &&& w.switches == screen(s, before).switches
            &&& queue.items.len() == 1 ==> !after.gallery_open && !w.page.gallery_open
                && w.has == screen(s, before).has.with(s.mode, false) && w.player.loaded is None
                && !w.player.runs && !w.player.playing
            &&& queue.items.len() > 1 && queue.now_playing == Some(index) && index < last
                ==> on_show(after, w, index)
            &&& queue.items.len() > 1 && queue.now_playing == Some(index) && index == last
                ==> on_show(after, w, (index - 1) as usize)
            &&& queue.items.len() > 1 && queue.now_playing != Some(index) ==> w.player == screen(
                s,
                before,
            ).player && after.gallery_open == s.gallery_open
        }),
{
    let less = s.video_removed(index);
    reveal(AppView::video_removed);
    lemma_same_effects(less, s, before);
    match s.queue.remove_outcome(index) {
        RemoveOutcome::QueueEmpty => {
            broadcast use {group_told, group_parts, group_synced};

            reveal(AppView::emptied);
            lemma_same_effects(
                AppView { gallery_open: false, ..less.stopped() },
                less.stopped(),
                before,
            );
        },
        RemoveOutcome::NowPlayingChanged(next) => {
            lemma_shown_after(s, less, next, before);
        },
        RemoveOutcome::NoPlaybackChange => {
            broadcast use group_parts;

        },
    }
}

#[verifier::rlimit(40)]
proof fn lemma_image_taken_out(s: AppView, index: usize, before: Screen)
    requires
        s.mode is Image,
        index < s.image_queue.items.len(),
        s.image_queue.now_playing matches Some(np) ==> np < s.image_queue.items.len(),
    ensures
        ({
            let queue = s.image_queue;
            let after = s.item_removed(index);
            let w = screen(after, before);
            let last = queue.items.len() - 1;
            &&& after.mode == s.mode
            &&& after.image_queue.items == queue.removed(index).items
            &&& after.image_queue.play_order == queue.removed(index).play_order
            &&& after.image_queue.now_playing == queue.removed(index).now_playing
            &&& rows_begun(after)
            &&& w.switches == screen(s, before).switches
            &&& queue.items.len() == 1 ==> !after.gallery_open && !w.page.gallery_open
                && w.has == screen(s, before).has.with(s.mode, false)
            &&& queue.items.len() > 1 && queue.now_playing == Some(index) && index < last
                ==> on_show(after, w, index)
            &&& queue.items.len() > 1 && queue.now_playing == Some(index) && index == last
                ==> on_show(after, w, (index - 1) as usize)
            &&& queue.items.len() > 1 && queue.now_playing != Some(index) ==> w.player == screen(
                s,
                before,
            ).player && after.gallery_open == s.gallery_open
        }),
{
    let less = s.image_removed(index);
    reveal(AppView::image_removed);
    lemma_same_effects(less, s, before);
    match s.image_queue.remove_outcome(index) {
        RemoveOutcome::QueueEmpty => {
            broadcast use {group_told, group_parts, group_synced};

            reveal(AppView::emptied);
            lemma_same_effects(AppView { gallery_open: false, ..less }, less, before);
        },
        RemoveOutcome::NowPlayingChanged(next) => {
            lemma_shown_after(s, less, next, before);
        },
        RemoveOutcome::NoPlaybackChange => {
            broadcast use {group_parts, group_synced};

        },
    }
}

#[verifier::rlimit(40)]
proof fn lemma_media_taken_out(s: AppView, index: usize, before: Screen)
    requires
        s.mode is All,
        index < s.all_queue.items.len(),
        s.all_queue.now_playing matches Some(np) ==> np < s.all_queue.items.len(),
    ensures
        ({
            let queue = s.all_queue;
            let after = s.item_removed(index);
            let w = screen(after, before);
            let last = queue.items.len() - 1;
            &&& after.mode == s.mode
            &&& after.all_queue.items == queue.removed(index).items
            &&& after.all_queue.play_order == queue.removed(index).play_order
            &&& after.all_queue.now_playing == queue.removed(index).now_playing
            &&& rows_begun(after)
            &&& w.switches == screen(s, before).switches
            &&& queue.items.len() == 1 ==> !after.gallery_open && !w.page.gallery_open
                && w.has == screen(s, before).has.with(s.mode, false) && w.player.loaded is None
                && !w.player.runs && !w.player.playing
            &&& queue.items.len() > 1 && queue.now_playing == Some(index) && index < last
                ==> on_show(after, w, index)
            &&& queue.items.len() > 1 && queue.now_playing == Some(index) && index == last
                ==> on_show(after, w, (index - 1) as usize)
            &&& queue.items.len() > 1 && queue.now_playing != Some(index) ==> w.player == screen(
                s,
                before,
            ).player && after.gallery_open == s.gallery_open
        }),
{
    let less = s.media_removed(index);
    reveal(AppView::media_removed);
    lemma_same_effects(less, s, before);
    match s.all_queue.remove_outcome(index) {
        RemoveOutcome::QueueEmpty => {
            broadcast use {group_told, group_parts, group_synced};

            reveal(AppView::emptied);
            lemma_same_effects(
                AppView { gallery_open: false, ..less.stopped() },
                less.stopped(),
                before,
            );
        },
        RemoveOutcome::NowPlayingChanged(next) => {
            lemma_shown_after(s, less, next, before);
        },
        RemoveOutcome::NoPlaybackChange => {
            broadcast use {group_parts, group_synced};

        },
    }
}

/// Taking an item out of the videos or of the images leaves the other queues as they are. Taking
/// it out of all media takes its path out of the other two as well.
#[verifier::rlimit(40)]
pub proof fn taking_out_reaches_the_right_queues(s: AppView, index: usize)
    requires
        index < s.queue_of(s.mode).items.len(),
    ensures
        ({
            let after = s.item_removed(index);
            &&& s.mode is Video ==> after.image_queue == s.image_queue && after.all_queue
                == s.all_queue
            &&& s.mode is Image ==> after.queue == s.queue && after.all_queue == s.all_queue
            &&& s.mode is All ==> {
                let path = s.all_queue.items[index as int].path;
                &&& after.queue == s.queue.removed_path(path)
                &&& after.image_queue == s.image_queue.removed_path(path)
            }
        }),
{
    broadcast use {group_parts, group_synced};

    reveal(AppView::video_removed);
    reveal(AppView::image_removed);
    reveal(AppView::media_removed);
    reveal(AppView::emptied);
    reveal(AppView::index_played);
    reveal(AppView::image_shown);
    reveal(AppView::item_presented);
}

/// An item that is dropped on another stands right before it then, and one dropped behind the
/// last item stands last. The others keep their order, the queues of the other modes stay, and
/// what is on show and playing stays the same item. An item dropped on itself stays.
#[verifier::rlimit(40)]
pub proof fn dropped_item_stands_before_its_target(s: AppView, src: usize, dst: usize)
    requires
        s.queue_of(s.mode).wf(),
        src < s.queue_of(s.mode).items.len(),
        dst <= s.queue_of(s.mode).items.len(),
        src != dst,
        s.queue_of(s.mode).now_playing matches Some(np) ==> np < s.queue_of(s.mode).items.len(),
    ensures
        ({
            let old_items = s.queue_of(s.mode).items;
            let after = s.item_reordered(src, dst);
            let items = after.queue_of(s.mode).items;
            &&& rows_begun(after)
            &&& after.mode == s.mode
            &&& after.gallery_open == s.gallery_open
            &&& exists|t: int|
                0 <= t < items.len() && #[trigger] items[t] == old_items[src as int] && items.remove(
                    t,
                ) == old_items.remove(src as int) && (if dst < old_items.len() {
                    t + 1 < items.len() && items[t + 1] == old_items[dst as int]
                } else {
                    t + 1 == items.len()
                })
            &&& s.queue_of(s.mode).now_playing matches Some(np) ==> after.queue_of(
                s.mode,
            ).now_playing matches Some(now) && now < items.len() && items[now as int]
                == old_items[np as int]
            &&& s.mode !is Video ==> after.queue == s.queue
            &&& s.mode !is Image ==> after.image_queue == s.image_queue
            &&& s.mode !is All ==> after.all_queue == s.all_queue
        }),
        s.item_reordered(src, src) == s,
{
    broadcast use group_parts;

    let old_items = s.queue_of(s.mode).items;
    let to: usize = if dst > src {
        (dst - 1) as usize
    } else {
        dst
    };
    moving_puts_item_where_asked(s.queue_of(s.mode), src, to);
    let moved = s.queue_of(s.mode).moved(src, to);
    assert(s.item_reordered(src, dst).queue_of(s.mode) == moved);
    assert(moved.items[to as int] == old_items[src as int]);
    if dst < old_items.len() {
        let rest = old_items.remove(src as int);
        assert(moved.items.remove(to as int) == rest);
        assert(moved.items.remove(to as int)[to as int] == moved.items[to + 1]);
        assert(rest[to as int] == old_items[dst as int]);
    }
}

/// Shuffle turned on is shown to be on, turned off to be off. Turned on, each queue of two items
/// or more takes on the order that was drawn for it, the one on show first among images and among
/// all media; in the mode for videos the first of the new order that the search finds is on show.
#[verifier::rlimit(40)]
pub proof fn shuffling_takes_on_new_orders(
    s: AppView,
    video: Seq<usize>,
    image: Seq<usize>,
    all: Seq<usize>,
    before: Screen,
)
    requires
        !s.shuffle_on,
    ensures
        ({
            let after = s.shuffle_toggled(video, image, all);
            let w = screen(after, before);
            let query = s.search_query;
            &&& after.shuffle_on
            &&& w.switches == (Switches { shuffle: true, ..screen(s, before).switches })
            &&& after.mode == s.mode
            &&& rows_begun(after)
            &&& after.queue.items == s.queue.items
            &&& after.queue.play_order == if s.queue.items.len() >= 2 {
                video
            } else {
                s.queue.play_order
            }
            &&& after.queue.now_playing == if s.queue.items.len() >= 2 {
                s.queue.jumped_to_first(video, query).now_playing
            } else {
                s.queue.now_playing
            }
            &&& after.image_queue == if s.image_queue.items.len() >= 2 {
                s.image_queue.kept_current_first(image, query)
            } else {
                s.image_queue
            }
            &&& after.all_queue == if s.all_queue.items.len() >= 2 {
                s.all_queue.kept_current_first(all, query)
            } else {
                s.all_queue
            }
        }),
{
    let flipped = AppView { shuffle_on: true, ..s };
    let switched = flipped.with(Effect::SetShuffleOn(true));
    assert(screen(switched, before) == (Screen {
        switches: Switches { shuffle: true, ..screen(s, before).switches },
        ..screen(s, before)
    })) by {
        broadcast use group_told;

        lemma_same_effects(flipped, s, before);
    }
    reveal(AppView::all_reshuffled);
    let one = if switched.queue.items.len() >= 2 {
        switched.videos_shuffled(video)
    } else {
        switched
    };
    lemma_videos_shuffled(switched, video, before);
    let two = if switched.image_queue.items.len() >= 2 {
        one.images_shuffled(image)
    } else {
        one
    };
    lemma_images_shuffled(one, image, before);
    lemma_all_shuffled(two, all, before);
    let done = switched.all_reshuffled(video, image, all);
    assert(s.shuffle_toggled(video, image, all) == done.rebuilt());
    broadcast use group_parts;

}

proof fn lemma_videos_shuffled(s: AppView, order: Seq<usize>, before: Screen)
    ensures
        ({
            let after = s.videos_shuffled(order);
            &&& after == (AppView {
                queue: after.queue,
                gallery_open: after.gallery_open,
                rebuild: after.rebuild,
                effects: after.effects,
                ..s
            })
            &&& after.queue.items == s.queue.items
            &&& after.queue.play_order == order
            &&& after.queue.now_playing == s.queue.jumped_to_first(order, s.search_query).now_playing
            &&& screen(after, before).switches == screen(s, before).switches
        }),
{
    reveal(AppView::videos_shuffled);
    let jumped = AppView { queue: s.queue.jumped_to_first(order, s.search_query), ..s };
    let shown = s.queue.with_order(order).current_order(s.search_query, true);
    lemma_same_effects(jumped, s, before);
    if shown.len() > 0 {
        nothing_else_is_shown(jumped, shown[0]);
        if jumped.mode is Video && shown[0] < jumped.queue.items.len() {
            super::showing::played_video_is_on_screen(jumped, shown[0], before);
        }
    }
}

proof fn lemma_images_shuffled(s: AppView, order: Seq<usize>, before: Screen)
    ensures
        s.images_shuffled(order) == (AppView {
            image_queue: s.image_queue.kept_current_first(order, s.search_query),
            effects: s.images_shuffled(order).effects,
            ..s
        }),
        screen(s.images_shuffled(order), before).switches == screen(s, before).switches,
{
    broadcast use group_synced;

    reveal(AppView::images_shuffled);
    lemma_same_effects(
        AppView {
            image_queue: s.image_queue.kept_current_first(order, s.search_query),
            ..s
        },
        s,
        before,
    );
}

proof fn lemma_all_shuffled(s: AppView, order: Seq<usize>, before: Screen)
    ensures
        s.all_shuffled(order) == (AppView {
            all_queue: s.all_queue.kept_current_first(order, s.search_query),
            effects: s.all_shuffled(order).effects,
            ..s
        }),
        screen(s.all_shuffled(order), before).switches == screen(s, before).switches,
{
    broadcast use group_synced;

    reveal(AppView::all_shuffled);
    lemma_same_effects(
        AppView { all_queue: s.all_queue.kept_current_first(order, s.search_query), ..s },
        s,
        before,
    );
}

/// In the mode for videos, turning shuffle on plays the first video of the new order that the
/// search finds.
pub proof fn shuffling_plays_first_of_new_order(
    s: AppView,
    order: Seq<usize>,
    first: int,
    before: Screen,
)
    requires
        s.mode is Video,
        s.queue.wf(),
        s.queue.is_full_order(order),
        0 <= first < order.len(),
        is_found(s.queue.items, order[first], s.search_query),
        forall|k: int|
            0 <= k < first ==> !is_found(s.queue.items, #[trigger] order[k], s.search_query),
    ensures
        on_show(s.videos_shuffled(order), screen(s.videos_shuffled(order), before), order[first]),
{
    reveal(AppView::videos_shuffled);
    jump_goes_to_first_found(s.queue, order, s.search_query, first);
    full_order_is_permutation(s.queue, order);
    let jumped = AppView { queue: s.queue.jumped_to_first(order, s.search_query), ..s };
    let shown = s.queue.with_order(order).current_order(s.search_query, true);
    assert(order.contains(order[first]));
    if shown.len() > 0 {
        item_asked_for_is_shown(jumped, shown[0], before);
    } else {
        lemma_shown_not_empty(s, order, first);
    }
}

proof fn lemma_shown_not_empty(s: AppView, order: Seq<usize>, first: int)
    requires
        s.queue.wf(),
        s.queue.is_full_order(order),
        0 <= first < order.len(),
        is_found(s.queue.items, order[first], s.search_query),
    ensures
        s.queue.with_order(order).current_order(s.search_query, true).len() > 0,
{
    let ordered = s.queue.with_order(order);
    full_order_is_permutation(s.queue, order);
    assert(ordered.wf()) by {
        assert forall|k: int| 0 <= k < order.len() implies #[trigger] order[k]
            < s.queue.items.len() by {
            assert(order.contains(order[k]));
        }
    }
    crate::playlist::behaviour::search_finds_what_is_in_names(ordered, s.search_query);
    assert(ordered.filtered(s.search_query).contains(order[first]));
}

/// Turning shuffle off is shown, and sets the shuffle order of every queue back to queue order.
/// What is on show stays.
#[verifier::rlimit(40)]
pub proof fn unshuffling_restores_queue_order(
    s: AppView,
    video: Seq<usize>,
    image: Seq<usize>,
    all: Seq<usize>,
    mode: Mode,
    before: Screen,
)
    requires
        s.shuffle_on,
    ensures
        ({
            let after = s.shuffle_toggled(video, image, all);
            &&& !after.shuffle_on
            &&& screen(after, before).switches == (Switches {
                shuffle: false,
                ..screen(s, before).switches
            })
            &&& after.mode == s.mode
            &&& rows_begun(after)
            &&& after.queue_of(mode) == (QueueView {
                play_order: after.queue_of(mode).play_order,
                ..s.queue_of(mode)
            })
            &&& after.queue_of(mode).play_order.len() == s.queue_of(mode).items.len()
            &&& forall|k: int|
                0 <= k < s.queue_of(mode).items.len() <= usize::MAX
                    ==> #[trigger] after.queue_of(mode).play_order[k] == k
            &&& screen(after, before).player == screen(s, before).player
            &&& s.image_queue.now_playing is None ==> screen(after, before).places.image is None
            &&& s.image_queue.now_playing matches Some(now) ==> (now < s.image_queue.items.len()
                ==> screen(after, before).places.image == place_shown(
                after.image_queue,
                s.search_query,
                false,
                screen(s, before).places.image,
            ))
            &&& s.mode is All ==> screen(after, before).places.media == place_shown(
                after.all_queue,
                s.search_query,
                false,
                screen(s, before).places.media,
            )
        }),
{
    broadcast use {group_told, group_parts, group_synced};

    let flipped = AppView { shuffle_on: false, ..s };
    let switched = flipped.with(Effect::SetShuffleOn(false));
    lemma_same_effects(flipped, s, before);
    reveal(AppView::orders_reset);
    let ordered = AppView {
        queue: switched.queue.with_order(indices(switched.queue.items.len())),
        image_queue: switched.image_queue.with_order(indices(switched.image_queue.items.len())),
        all_queue: switched.all_queue.with_order(indices(switched.all_queue.items.len())),
        ..switched
    };
    lemma_same_effects(ordered, switched, before);
}

/// Whether a queue has been cleared: nothing is in it, and its ids go on from where they were.
pub open spec fn is_cleared(before: QueueView, after: QueueView) -> bool {
    &&& after.items.len() == 0
    &&& after.play_order.len() == 0
    &&& after.now_playing is None
    &&& after.last_id == before.last_id
}

/// Clearing takes everything out of the queue of the mode, and out of every queue in the mode for
/// all media; other queues stay. Where videos may be playing the player is stopped. Whatever is
/// still on its way into the library belongs to an older session.
pub proof fn clearing_empties_the_right_queues(s: AppView, before: Screen)
    requires
        s.library_session < u64::MAX,
    ensures
        ({
            let after = s.queue_cleared();
            let w = screen(after, before);
            &&& after.mode == s.mode
            &&& after.library_session == s.library_session + 1
            &&& rows_begun(after)
            &&& after.search_query == s.search_query
            &&& if s.mode !is Image {
                is_cleared(s.queue, after.queue)
            } else {
                after.queue == s.queue
            }
            &&& if s.mode !is Video {
                is_cleared(s.image_queue, after.image_queue)
            } else {
                after.image_queue == s.image_queue
            }
            &&& if s.mode is All {
                is_cleared(s.all_queue, after.all_queue)
            } else {
                after.all_queue == s.all_queue
            }
            &&& s.mode !is Image ==> w.player == (Player {
                loaded: None,
                runs: false,
                playing: false,
                ..screen(s, before).player
            })
            &&& s.mode is Image ==> w.player == screen(s, before).player
            &&& s.mode !is Video ==> !after.gallery_open && !w.page.gallery_open && w.has
                == screen(s, before).has.with(s.mode, false) && w.places.of(s.mode) is None
            &&& s.mode is Video ==> after.gallery_open == s.gallery_open
            &&& w.switches == screen(s, before).switches
        }),
{
    match s.mode {
        Mode::Video => lemma_videos_cleared(s, before),
        Mode::Image => lemma_images_cleared(s, before),
        Mode::All => lemma_library_cleared(s, before),
    }
}

#[verifier::rlimit(40)]
proof fn lemma_videos_cleared(s: AppView, before: Screen)
    requires
        s.mode is Video,
    ensures
        ({
            let after = s.queue_cleared();
            let w = screen(after, before);
            &&& after == (AppView {
                queue: after.queue,
                library_session: (s.library_session + 1) as u64,
                rebuild: after.rebuild,
                effects: after.effects,
                ..s
            })
            &&& is_cleared(s.queue, after.queue)
            &&& rows_begun(after)
            &&& w.player == (Player {
                loaded: None,
                runs: false,
                playing: false,
                ..screen(s, before).player
            })
            &&& w.switches == screen(s, before).switches
        }),
{
    broadcast use {group_told, group_parts};

    reveal(AppView::videos_cleared);
    let cleared = AppView {
        queue: s.queue.cleared(),
        library_session: (s.library_session + 1) as u64,
        ..s
    };
    lemma_same_effects(cleared, s, before);
}

#[verifier::rlimit(40)]
proof fn lemma_images_cleared(s: AppView, before: Screen)
    requires
        s.mode is Image,
    ensures
        ({
            let after = s.queue_cleared();
            let w = screen(after, before);
            &&& after == (AppView {
                image_queue: after.image_queue,
                gallery_open: false,
                library_session: (s.library_session + 1) as u64,
                rebuild: after.rebuild,
                effects: after.effects,
                ..s
            })
            &&& is_cleared(s.image_queue, after.image_queue)
            &&& rows_begun(after)
            &&& !w.page.gallery_open
            &&& w.has == screen(s, before).has.with(Mode::Image, false)
            &&& w.places.image is None
            &&& w.player == screen(s, before).player
            &&& w.switches == screen(s, before).switches
        }),
{
    broadcast use {group_parts, group_synced};

    reveal(AppView::images_cleared);
    let cleared = AppView {
        image_queue: s.image_queue.cleared(),
        gallery_open: false,
        library_session: (s.library_session + 1) as u64,
        ..s
    };
    lemma_same_effects(cleared, s, before);
}

#[verifier::rlimit(40)]
proof fn lemma_library_cleared(s: AppView, before: Screen)
    requires
        s.mode is All,
    ensures
        ({
            let after = s.queue_cleared();
            let w = screen(after, before);
            &&& after == (AppView {
                queue: after.queue,
                image_queue: after.image_queue,
                all_queue: after.all_queue,
                gallery_open: false,
                library_session: (s.library_session + 1) as u64,
                rebuild: after.rebuild,
                effects: after.effects,
                ..s
            })
            &&& is_cleared(s.queue, after.queue)
            &&& is_cleared(s.image_queue, after.image_queue)
            &&& is_cleared(s.all_queue, after.all_queue)
            &&& rows_begun(after)
            &&& !w.page.gallery_open
            &&& w.has == screen(s, before).has.with(Mode::All, false)
            &&& w.places.media is None
            &&& w.player == (Player {
                loaded: None,
                runs: false,
                playing: false,
                ..screen(s, before).player
            })
            &&& w.switches == screen(s, before).switches
        }),
{
    broadcast use {group_told, group_parts, group_synced};

    reveal(AppView::library_cleared);
    let cleared = AppView {
        queue: s.queue.cleared(),
        image_queue: s.image_queue.cleared(),
        all_queue: s.all_queue.cleared(),
        gallery_open: false,
        library_session: (s.library_session + 1) as u64,
        ..s
    };
    lemma_same_effects(cleared, s, before);
}

/// Taking out an item that is not on show changes nothing on the screen in the mode for videos but
/// the list. Among images and among all media the place of what is on show is told anew.
#[verifier::rlimit(40)]
pub proof fn taking_out_another_item_updates_its_place(s: AppView, index: usize, before: Screen)
    requires
        index < s.queue_of(s.mode).items.len(),
        s.queue_of(s.mode).items.len() > 1,
        s.queue_of(s.mode).now_playing != Some(index),
        s.queue_of(s.mode).now_playing matches Some(np) ==> np < s.queue_of(s.mode).items.len(),
    ensures
        ({
            let after = s.item_removed(index);
            let w = screen(s, before);
            let notes = Notes { rows_deferred: after.rebuild is Some, ..w.notes };
            &&& s.mode is Video ==> screen(after, before) == (Screen { notes, ..w })
            &&& s.mode is Image ==> screen(after, before) == (Screen {
                page: Page { gallery_open: s.gallery_open, ..w.page },
                has: w.has.with(Mode::Image, true),
                places: w.places.with(
                    Mode::Image,
                    place_shown(
                        after.image_queue,
                        s.search_query,
                        s.shuffle_on,
                        w.places.image,
                    ),
                ),
                viewer: match after.image_queue.now_playing {
                    Some(now) => Viewer {
                        picture: Some((Mode::Image, now)),
                        animated: true,
                        ..w.viewer
                    },
                    None => Viewer { animated: false, zoomed: false, ..w.viewer },
                },
                notes,
                ..w
            })
            &&& s.mode is All ==> screen(after, before) == (Screen {
                page: Page {
                    gallery_open: s.gallery_open,
                    current_is_video: s.all_current_is_video,
                    ..w.page
                },
                has: w.has.with(Mode::All, true),
                places: w.places.with(
                    Mode::All,
                    place_shown(after.all_queue, s.search_query, s.shuffle_on, w.places.media),
                ),
                viewer: Viewer {
                    animated: w.viewer.animated && s.all_queue.now_playing is Some,
                    ..w.viewer
                },
                notes,
                ..w
            })
        }),
{
    broadcast use {group_parts, group_synced};

    reveal(AppView::video_removed);
    reveal(AppView::image_removed);
    reveal(AppView::media_removed);
    match s.mode {
        Mode::Video => lemma_same_effects(s.video_removed(index), s, before),
        Mode::Image => lemma_same_effects(s.image_removed(index), s, before),
        Mode::All => lemma_same_effects(s.media_removed(index), s, before),
    }
}

/// Images and all media that are put in a new order go on being shown: the viewer and the player
/// keep what they have, and the place of what is on show is told anew.
#[verifier::rlimit(40)]
pub proof fn shuffled_items_stay_on_show(s: AppView, order: Seq<usize>, before: Screen)
    ensures
        ({
            let after = s.images_shuffled(order);
            let w = screen(after, before);
            &&& w.player == screen(s, before).player
            &&& s.image_queue.now_playing matches Some(now) ==> (now < s.image_queue.items.len()
                ==> w.viewer.picture == Some((Mode::Image, now)) && w.places.image == place_shown(
                after.image_queue,
                s.search_query,
                s.shuffle_on,
                screen(s, before).places.image,
            ))
            &&& s.image_queue.now_playing is None ==> w.places.image is None
            &&& w.page == (Page { gallery_open: s.gallery_open, ..screen(s, before).page })
        }),
        ({
            let after = s.all_shuffled(order);
            let w = screen(after, before);
            &&& w.player == screen(s, before).player
            &&& s.mode !is All ==> w == screen(s, before)
            &&& s.mode is All ==> w.places.media == place_shown(
                after.all_queue,
                s.search_query,
                s.shuffle_on,
                screen(s, before).places.media,
            ) && w.viewer.picture == screen(s, before).viewer.picture
        }),
{
    broadcast use group_synced;

    reveal(AppView::images_shuffled);
    reveal(AppView::all_shuffled);
    lemma_same_effects(
        AppView {
            image_queue: s.image_queue.kept_current_first(order, s.search_query),
            ..s
        },
        s,
        before,
    );
    lemma_same_effects(
        AppView { all_queue: s.all_queue.kept_current_first(order, s.search_query), ..s },
        s,
        before,
    );
}

} // verus!
