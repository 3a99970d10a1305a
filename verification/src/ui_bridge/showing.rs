//! What the user sees after an item was put on show, gone on to, taken out or moved.

use super::effect::Effect;
use super::screen::{group_told, lemma_same_effects, screen, Page, Player, Screen, Viewer, Notes};
use super::state::{AppView, Mode};
use crate::library::ext::is_video;
use crate::playlist::model::QueueView;
use vstd::prelude::*;

verus! {

/// Where the item on show stands in an order of play, counted from one, and how many items there
/// are in it. Nothing is said of an item that is not in it.
pub open spec fn place_shown(
    queue: QueueView,
    query: Seq<char>,
    shuffle_on: bool,
    before: Option<(usize, usize)>,
) -> Option<(usize, usize)> {
    let order = queue.current_order(query, shuffle_on);
    match queue.now_playing {
        Some(item) => match order.index_of_first(item) {
            Some(p) => Some(((p as usize + 1) as usize, order.len() as usize)),
            None => before,
        },
        None => None,
    }
}

/// The place of an item on show is shown counting from one, out of all items that play.
pub proof fn place_counts_from_one(
    queue: QueueView,
    query: Seq<char>,
    shuffle_on: bool,
    before: Option<(usize, usize)>,
    p: int,
)
    requires
        queue.current_order(query, shuffle_on).len() < usize::MAX,
        0 <= p < queue.current_order(query, shuffle_on).len(),
        queue.now_playing == Some(queue.current_order(query, shuffle_on)[p]),
        forall|k: int|
            0 <= k < p ==> queue.now_playing != Some(
                #[trigger] queue.current_order(query, shuffle_on)[k],
            ),
    ensures
        place_shown(queue, query, shuffle_on, before) == Some(
            ((p + 1) as usize, queue.current_order(query, shuffle_on).len() as usize),
        ),
{
    let order = queue.current_order(query, shuffle_on);
    order.index_of_first_ensures(order[p]);
    let q = order.index_of_first(order[p]).unwrap();
    assert(order.contains(order[p]));
    if q < p {
        assert(queue.now_playing != Some(order[q]));
    }
}

/// Whether anything is still to be loaded: items, rows of the list or pictures of the grid.
pub open spec fn is_loading(s: AppView) -> bool {
    s.library_loading || s.rebuild is Some || s.thumbs_loaded + s.thumbs_failed < s.thumbs_pending
}

/// Whether the list was begun anew for the items that the search shows: filled at once where it
/// has at most eighty rows, and otherwise to be filled from the first row on, in two passes.
pub open spec fn rows_begun(s: AppView) -> bool {
    let found = s.queue_of(s.mode).filtered(s.search_query);
    match s.rebuild {
        Some(job) => {
            &&& found.len() > 80
            &&& job.filtered == found
            &&& job.now_playing == s.queue_of(s.mode).now_playing
            &&& job.show_sprite_status == (s.mode is Video)
            &&& job.next_index == 0
            &&& job.defer_sprite_status
            &&& !job.sprite_pass
        },
        None => found.len() <= 80,
    }
}

pub broadcast proof fn told_rebuilt(s: AppView, before: Screen)
    ensures
        #[trigger] screen(s.rebuilt(), before) == (Screen {
            notes: Notes {
                rows_deferred: s.queue_of(s.mode).filtered(s.search_query).len() > 80,
                ..screen(s, before).notes
            },
            ..screen(s, before)
        }),
{
    broadcast use group_told;

    reveal(AppView::rebuilt);
    let done = AppView { rebuild: None, ..s };
    let begun = AppView { rebuild: s.rebuilt().rebuild, ..s };
    lemma_same_effects(done, s, before);
    lemma_same_effects(begun, s, before);
}

pub broadcast proof fn kept_rebuilt(s: AppView)
    ensures
        #[trigger] s.rebuilt() == (AppView {
            rebuild: s.rebuilt().rebuild,
            effects: s.rebuilt().effects,
            ..s
        }),
        rows_begun(s.rebuilt()),
{
    reveal(AppView::rebuilt);
}

pub broadcast proof fn told_loading_synced(s: AppView, before: Screen)
    ensures
        #[trigger] screen(s.loading_synced(), before) == (Screen {
            notes: Notes {
                loading: is_loading(s),
                gallery_loading: is_loading(s) && !s.gallery_open,
                adding: None,
                ..screen(s, before).notes
            },
            ..screen(s, before)
        }),
{
    broadcast use group_told;

    reveal(AppView::loading_synced);
    let told = AppView {
        library_loading: s.loading_synced().library_loading,
        library_loading_message: s.loading_synced().library_loading_message,
        ..s
    };
    lemma_same_effects(told, s, before);
}

pub broadcast proof fn kept_loading_synced(s: AppView)
    ensures
        #[trigger] s.loading_synced() == (AppView {
            library_loading: is_loading(s),
            library_loading_message: s.loading_synced().library_loading_message,
            effects: s.loading_synced().effects,
            ..s
        }),
        !is_loading(s) ==> s.loading_synced().library_loading_message.len() == 0,
        is_loading(s) && s.library_loading_message.len() > 0
            ==> s.loading_synced().library_loading_message == s.library_loading_message,
        is_loading(s) && s.library_loading_message.len() == 0
            ==> s.loading_synced().library_loading_message == "Loading library…"@,
{
    reveal(AppView::loading_synced);
}

pub broadcast proof fn told_view_told(s: AppView, mode: Mode, before: Screen)
    ensures
        #[trigger] screen(s.view_told(mode), before) == (Screen {
            page: Page { gallery_open: s.gallery_open, ..screen(s, before).page },
            has: screen(s, before).has.with(mode, s.queue_of(mode).items.len() > 0),
            ..screen(s, before)
        }),
{
    broadcast use group_told;

    reveal(AppView::view_told);
}

pub broadcast proof fn kept_view_told(s: AppView, mode: Mode)
    ensures
        #[trigger] s.view_told(mode) == (AppView { effects: s.view_told(mode).effects, ..s }),
{
    reveal(AppView::view_told);
}

pub broadcast proof fn told_position_shown(s: AppView, mode: Mode, before: Screen)
    ensures
        #[trigger] screen(s.position_shown(mode), before) == (Screen {
            places: screen(s, before).places.with(
                mode,
                place_shown(
                    s.queue_of(mode),
                    s.search_query,
                    s.shuffle_on,
                    screen(s, before).places.of(mode),
                ),
            ),
            ..screen(s, before)
        }),
{
    broadcast use group_told;

    reveal(AppView::position_shown);
}

pub broadcast proof fn kept_position_shown(s: AppView, mode: Mode)
    ensures
        #[trigger] s.position_shown(mode) == (AppView {
            effects: s.position_shown(mode).effects,
            ..s
        }),
{
    reveal(AppView::position_shown);
}

/// What bringing the list, the places and the notes up to date does.
pub broadcast group group_parts {
    told_rebuilt,
    kept_rebuilt,
    told_loading_synced,
    kept_loading_synced,
    told_view_told,
    kept_view_told,
    told_position_shown,
    kept_position_shown,
}

pub broadcast proof fn told_video_synced(s: AppView, before: Screen)
    ensures
        #[trigger] screen(s.video_synced(), before) == (Screen {
            page: Page { gallery_open: s.gallery_open, ..screen(s, before).page },
            has: screen(s, before).has.with(Mode::Video, s.queue.items.len() > 0),
            places: screen(s, before).places.with(
                Mode::Video,
                place_shown(
                    s.queue,
                    s.search_query,
                    s.shuffle_on,
                    screen(s, before).places.video,
                ),
            ),
            ..screen(s, before)
        }),
{
    broadcast use group_parts;

    reveal(AppView::video_synced);
}

pub broadcast proof fn kept_video_synced(s: AppView)
    ensures
        #[trigger] s.video_synced() == (AppView { effects: s.video_synced().effects, ..s }),
{
    broadcast use group_parts;

    reveal(AppView::video_synced);
}

#[verifier::rlimit(40)]
pub broadcast proof fn told_all_synced(s: AppView, before: Screen)
    ensures
        #[trigger] screen(s.all_synced(), before) == (Screen {
            page: Page {
                gallery_open: s.gallery_open,
                current_is_video: s.all_current_is_video,
                ..screen(s, before).page
            },
            has: screen(s, before).has.with(Mode::All, s.all_queue.items.len() > 0),
            places: screen(s, before).places.with(
                Mode::All,
                place_shown(
                    s.all_queue,
                    s.search_query,
                    s.shuffle_on,
                    screen(s, before).places.media,
                ),
            ),
            viewer: Viewer {
                animated: screen(s, before).viewer.animated && s.all_queue.now_playing is Some,
                ..screen(s, before).viewer
            },
            ..screen(s, before)
        }),
{
    broadcast use {group_told, group_parts};

    reveal(AppView::all_synced);
}

pub broadcast proof fn kept_all_synced(s: AppView)
    ensures
        #[trigger] s.all_synced() == (AppView { effects: s.all_synced().effects, ..s }),
{
    broadcast use group_parts;

    reveal(AppView::all_synced);
}

/// What the image viewer shows once it was brought up to date: the picture on show, or none.
pub open spec fn viewer_for(s: AppView, before: Viewer) -> Viewer {
    match s.image_queue.now_playing {
        Some(index) => if index < s.image_queue.items.len() {
            Viewer { picture: Some((Mode::Image, index)), animated: true, ..before }
        } else {
            before
        },
        None => Viewer { animated: false, zoomed: false, ..before },
    }
}

#[verifier::rlimit(40)]
pub broadcast proof fn told_image_synced(s: AppView, before: Screen)
    ensures
        #[trigger] screen(s.image_synced(), before) == (Screen {
            page: Page { gallery_open: s.gallery_open, ..screen(s, before).page },
            has: screen(s, before).has.with(Mode::Image, s.image_queue.items.len() > 0),
            places: if s.image_queue.now_playing matches Some(index) && index
                >= s.image_queue.items.len() {
                screen(s, before).places
            } else {
                screen(s, before).places.with(
                    Mode::Image,
                    place_shown(
                        s.image_queue,
                        s.search_query,
                        s.shuffle_on,
                        screen(s, before).places.image,
                    ),
                )
            },
            viewer: viewer_for(s, screen(s, before).viewer),
            ..screen(s, before)
        }),
{
    broadcast use {group_told, group_parts};

    reveal(AppView::image_synced);
    reveal(AppView::image_view_emptied);
    reveal(AppView::image_view_filled);
}

#[verifier::rlimit(40)]
pub broadcast proof fn kept_image_synced(s: AppView)
    ensures
        #[trigger] s.image_synced() == (AppView { effects: s.image_synced().effects, ..s }),
{
    broadcast use group_parts;

    reveal(AppView::image_synced);
    reveal(AppView::image_view_emptied);
    reveal(AppView::image_view_filled);
}

/// What bringing a view up to date does.
pub broadcast group group_synced {
    told_video_synced,
    kept_video_synced,
    told_all_synced,
    kept_all_synced,
    told_image_synced,
    kept_image_synced,
}

/// Putting a video on show in the mode for videos: that item of the videos is in the player,
/// which runs and is shown to; the item has the window to itself, and its place is shown.
#[verifier::rlimit(40)]
pub proof fn played_video_is_on_screen(s: AppView, index: usize, before: Screen)
    requires
        s.mode is Video,
        index < s.queue.items.len(),
    ensures
        ({
            let after = s.index_played(index);
            let w = screen(s, before);
            &&& after == (AppView {
                queue: QueueView { now_playing: Some(index), ..s.queue },
                gallery_open: true,
                rebuild: after.rebuild,
                effects: after.effects,
                ..s
            })
            &&& rows_begun(after)
            &&& screen(after, before) == (Screen {
                page: Page { gallery_open: true, ..w.page },
                has: w.has.with(Mode::Video, true),
                places: w.places.with(
                    Mode::Video,
                    place_shown(after.queue, s.search_query, s.shuffle_on, w.places.video),
                ),
                player: Player {
                    loaded: Some((Mode::Video, index)),
                    runs: true,
                    playing: true,
                    ..w.player
                },
                notes: Notes {
                    preview: true,
                    rows_deferred: after.rebuild is Some,
                    ..w.notes
                },
                ..w
            })
        }),
{
    broadcast use {group_told, group_parts, group_synced};

    reveal(AppView::index_played);
    let open = AppView { gallery_open: true, ..s.playing(Mode::Video, index) };
    lemma_same_effects(open, s, before);
}

/// Putting an image on show in the mode for images: that image is in the viewer, with zoom and
/// rotation set back, the player is stopped, and the image has the window to itself.
#[verifier::rlimit(40)]
pub proof fn shown_image_is_on_screen(s: AppView, index: usize, before: Screen)
    requires
        s.mode is Image,
        index < s.image_queue.items.len(),
    ensures
        ({
            let after = s.image_shown(index);
            let w = screen(s, before);
            &&& after == (AppView {
                image_queue: QueueView { now_playing: Some(index), ..s.image_queue },
                gallery_open: true,
                rebuild: after.rebuild,
                effects: after.effects,
                ..s
            })
            &&& rows_begun(after)
            &&& screen(after, before) == (Screen {
                page: Page { gallery_open: true, ..w.page },
                has: w.has.with(Mode::Image, true),
                places: w.places.with(
                    Mode::Image,
                    place_shown(after.image_queue, s.search_query, s.shuffle_on, w.places.image),
                ),
                player: Player { loaded: None, runs: false, playing: false, ..w.player },
                viewer: Viewer {
                    picture: Some((Mode::Image, index)),
                    animated: true,
                    zoomed: false,
                },
                notes: Notes { rows_deferred: after.rebuild is Some, ..w.notes },
                ..w
            })
        }),
{
    broadcast use {group_told, group_parts, group_synced};

    reveal(AppView::image_shown);
    let open = AppView { gallery_open: true, ..s.stopped().playing(Mode::Image, index) };
    lemma_same_effects(open, s.stopped(), before);
}

/// Putting an item on show in the mode for all media. A video is in the player, which runs; an
/// image is in the viewer, with the player paused. Either has the window to itself.
#[verifier::rlimit(40)]
pub proof fn presented_item_is_on_screen(s: AppView, index: usize, before: Screen)
    requires
        s.mode is All,
        index < s.all_queue.items.len(),
    ensures
        ({
            let after = s.item_presented(index);
            let w = screen(s, before);
            let video = is_video(s.all_queue.items[index as int].path);
            &&& after == (AppView {
                all_queue: QueueView { now_playing: Some(index), ..s.all_queue },
                gallery_open: true,
                all_current_is_video: video,
                rebuild: after.rebuild,
                effects: after.effects,
                ..s
            })
            &&& rows_begun(after)
            &&& screen(after, before) == (Screen {
                page: Page { gallery_open: true, current_is_video: video, ..w.page },
                has: w.has.with(Mode::All, true),
                places: w.places.with(
                    Mode::All,
                    place_shown(after.all_queue, s.search_query, s.shuffle_on, w.places.media),
                ),
                player: if video {
                    Player {
                        loaded: Some((Mode::All, index)),
                        runs: true,
                        playing: true,
                        ..w.player
                    }
                } else {
                    Player { runs: false, playing: false, ..w.player }
                },
                viewer: if video {
                    Viewer { animated: false, zoomed: false, ..w.viewer }
                } else {
                    Viewer {
                        picture: Some((Mode::All, index)),
                        animated: true,
                        zoomed: false,
                    }
                },
                notes: Notes {
                    preview: video || w.notes.preview,
                    rows_deferred: after.rebuild is Some,
                    ..w.notes
                },
                ..w
            })
        }),
{
    broadcast use {group_told, group_parts, group_synced};

    reveal(AppView::item_presented);
    let open = AppView { gallery_open: true, ..s.playing(Mode::All, index) };
    let opened = open.with(Effect::SetGalleryOpen(true)).with(Effect::ResetPictureView);
    lemma_same_effects(open, s, before);
    lemma_same_effects(AppView { all_current_is_video: true, ..opened }, opened, before);
    lemma_same_effects(AppView { all_current_is_video: false, ..opened }, opened, before);
}

/// An item that is not there, or is asked for in another mode, is not put on show.
#[verifier::rlimit(40)]
pub proof fn nothing_else_is_shown(s: AppView, index: usize)
    ensures
        !(s.mode is Video && index < s.queue.items.len()) ==> s.index_played(index) == s,
        !(s.mode is Image && index < s.image_queue.items.len()) ==> s.image_shown(index) == s,
        !(s.mode is All && index < s.all_queue.items.len()) ==> s.item_presented(index) == s,
        s.mode is Video ==> s.shown(index) == s.index_played(index),
        s.mode is Image ==> s.shown(index) == s.image_shown(index),
        s.mode is All ==> s.shown(index) == s.item_presented(index),
{
    reveal(AppView::index_played);
    reveal(AppView::image_shown);
    reveal(AppView::item_presented);
}

} // verus!
