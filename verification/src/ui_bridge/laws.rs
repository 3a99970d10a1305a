//! What holds of the program as a whole.

use super::effect::Effect;
use super::enqueue::mode_for;
use super::gallery::GalleryReload;
use super::playback::{of_kind, player_runs};
use super::state::{AppView, Mode};
use crate::library::ext::{is_video, kind_of};
use crate::library::MediaKind;
use crate::path_key::path_key;
use crate::playlist::item::CandidateView;
use crate::playlist::laws::{enqueue_extends_queue, removed_path_can_return, reset_order_is_queue_order};
use crate::playlist::model::{indices, QueueView};
use vstd::prelude::*;

verus! {

/// Whether two states have the same items in each queue.
pub open spec fn same_items(a: AppView, b: AppView) -> bool {
    &&& a.queue.items == b.queue.items
    &&& a.image_queue.items == b.image_queue.items
    &&& a.all_queue.items == b.all_queue.items
}

/// Whether the player runs after everything that it was told.
pub open spec fn runs(s: AppView, before: bool) -> bool {
    player_runs(s.effects, before)
}

proof fn lemma_with(s: AppView, effect: Effect, before: bool)
    ensures
        runs(s.with(effect), before) == match effect {
            Effect::StopPlayer => false,
            Effect::PausePlayer => false,
            Effect::LoadVideo { .. } => true,
            _ => runs(s, before),
        },
{
    assert(s.with(effect).effects.drop_last() =~= s.effects);
}

/// Telling the window about queues, places and loading does nothing to items or to the player.
proof fn lemma_telling(s: AppView, mode: Mode, before: bool)
    ensures
        runs(s.view_told(mode), before) == runs(s, before),
        same_items(s.view_told(mode), s),
        s.view_told(mode).mode == s.mode,
        runs(s.position_shown(mode), before) == runs(s, before),
        same_items(s.position_shown(mode), s),
        s.position_shown(mode).mode == s.mode,
        runs(s.loading_synced(), before) == runs(s, before),
        same_items(s.loading_synced(), s),
        s.loading_synced().mode == s.mode,
        runs(s.rebuilt(), before) == runs(s, before),
        same_items(s.rebuilt(), s),
        s.rebuilt().mode == s.mode,
        s.rebuilt().slideshow_on == s.slideshow_on,
        s.view_told(mode).slideshow_on == s.slideshow_on,
        s.position_shown(mode).slideshow_on == s.slideshow_on,
        s.loading_synced().slideshow_on == s.slideshow_on,
        s.rebuilt().gallery_generation == s.gallery_generation,
        s.view_told(mode).gallery_generation == s.gallery_generation,
        s.position_shown(mode).gallery_generation == s.gallery_generation,
        s.loading_synced().gallery_generation == s.gallery_generation,
{
    reveal(AppView::view_told);
    reveal(AppView::position_shown);
    reveal(AppView::loading_synced);
    reveal(AppView::rebuilt);
    let open = s.with(Effect::SetGalleryOpen(s.gallery_open));
    lemma_with(s, Effect::SetGalleryOpen(s.gallery_open), before);
    lemma_with(open, Effect::SetHasItems { mode, has: s.queue_of(mode).items.len() > 0 }, before);
    match s.position_effect(mode) {
        Some(effect) => lemma_with(s, effect, before),
        None => {},
    }
    let l = s.loading_synced();
    assert(l.effects.drop_last() =~= s.effects);
    let r = s.rebuilt();
    assert(r.effects.drop_last() =~= s.effects);
}

/// Bringing a view up to date does nothing to items or to the player.
proof fn lemma_syncing(s: AppView, before: bool)
    ensures
        runs(s.video_synced(), before) == runs(s, before),
        same_items(s.video_synced(), s),
        s.video_synced().mode == s.mode,
        s.video_synced().slideshow_on == s.slideshow_on,
        s.video_synced().gallery_generation == s.gallery_generation,
        runs(s.all_synced(), before) == runs(s, before),
        same_items(s.all_synced(), s),
        s.all_synced().mode == s.mode,
        s.all_synced().slideshow_on == s.slideshow_on,
        s.all_synced().gallery_generation == s.gallery_generation,
        runs(s.image_synced(), before) == runs(s, before),
        same_items(s.image_synced(), s),
        s.image_synced().mode == s.mode,
        s.image_synced().slideshow_on == s.slideshow_on,
        s.image_synced().gallery_generation == s.gallery_generation,
{
    reveal(AppView::video_synced);
    reveal(AppView::all_synced);
    reveal(AppView::image_synced);
    reveal(AppView::image_view_emptied);
    reveal(AppView::image_view_filled);
    lemma_telling(s, Mode::Video, before);
    lemma_telling(s.view_told(Mode::Video), Mode::Video, before);
    lemma_telling(s, Mode::All, before);
    let told = s.view_told(Mode::All);
    let kind = told.with(Effect::SetCurrentIsVideo(s.all_current_is_video));
    lemma_with(told, Effect::SetCurrentIsVideo(s.all_current_is_video), before);
    lemma_with(kind, Effect::DropAnimation, before);
    lemma_telling(kind, Mode::All, before);
    lemma_telling(kind.with(Effect::DropAnimation), Mode::All, before);
    lemma_telling(s, Mode::Image, before);
    let image = s.view_told(Mode::Image);
    lemma_with(image, Effect::DropAnimation, before);
    lemma_telling(image.with(Effect::DropAnimation), Mode::Image, before);
    lemma_with(
        image.with(Effect::DropAnimation).position_shown(Mode::Image),
        Effect::ResetPictureView,
        before,
    );
    lemma_telling(image, Mode::Image, before);
    match s.image_queue.now_playing {
        Some(index) => lemma_with(
            image.position_shown(Mode::Image),
            Effect::ShowPicture { mode: Mode::Image, index },
            before,
        ),
        None => {},
    }
}

/// Putting a video on show in the mode for videos makes the player run, and takes no item away.
pub proof fn played_video_runs(s: AppView, index: usize, before: bool)
    ensures
        s.can_show(Mode::Video, index) ==> runs(s.index_played(index), before),
        same_items(s.index_played(index), s),
        s.index_played(index).mode == s.mode,
        s.index_played(index).slideshow_on == s.slideshow_on,
        s.index_played(index).gallery_generation == s.gallery_generation,
{
    reveal(AppView::index_played);
    let open = AppView { gallery_open: true, ..s.playing(Mode::Video, index) }.with(
        Effect::SetGalleryOpen(true),
    );
    let loaded = open.with(Effect::LoadVideo { mode: Mode::Video, index });
    let playing = loaded.with(Effect::SetPlaying(true));
    let synced = playing.with(Effect::SyncSpritePreview);
    lemma_with(open, Effect::LoadVideo { mode: Mode::Video, index }, before);
    lemma_with(loaded, Effect::SetPlaying(true), before);
    lemma_with(playing, Effect::SyncSpritePreview, before);
    lemma_syncing(synced, before);
    lemma_telling(synced.video_synced(), Mode::Video, before);
}

/// Putting a video on show in the mode for videos leaves the other queues as they are.
pub proof fn played_video_keeps_other_queues(s: AppView, index: usize)
    ensures
        s.index_played(index).image_queue == s.image_queue,
        s.index_played(index).all_queue == s.all_queue,
{
    reveal(AppView::index_played);
    reveal(AppView::video_synced);
    reveal(AppView::view_told);
    reveal(AppView::position_shown);
    reveal(AppView::rebuilt);
}

/// In the mode for images, putting an image on show leaves the player stopped.
pub proof fn shown_image_is_silent(s: AppView, index: usize, before: bool)
    ensures
        s.can_show(Mode::Image, index) ==> !runs(s.image_shown(index), before),
        same_items(s.image_shown(index), s),
        s.image_shown(index).mode == s.mode,
        s.image_shown(index).slideshow_on == s.slideshow_on,
        s.image_shown(index).gallery_generation == s.gallery_generation,
{
    reveal(AppView::image_shown);
    let stop = s.with(Effect::StopPlayer);
    let quiet = s.stopped();
    lemma_with(s, Effect::StopPlayer, before);
    lemma_with(stop, Effect::SetPlaying(false), before);
    let open = AppView { gallery_open: true, ..quiet.playing(Mode::Image, index) };
    assert(open.effects == quiet.effects);
    lemma_with(open, Effect::ResetPictureView, before);
    let reset = open.with(Effect::ResetPictureView);
    lemma_syncing(reset, before);
    lemma_telling(reset.image_synced(), Mode::Image, before);
}

/// In the mode for all media the player runs just when a video was put on show.
pub proof fn presented_item_runs(s: AppView, index: usize, before: bool)
    ensures
        s.can_show(Mode::All, index) ==> runs(s.item_presented(index), before) == (kind_of(
            s.all_queue.items[index as int].path,
        ) == MediaKind::Video),
        same_items(s.item_presented(index), s),
        s.item_presented(index).mode == s.mode,
        s.item_presented(index).slideshow_on == s.slideshow_on,
        s.item_presented(index).gallery_generation == s.gallery_generation,
{
    reveal(AppView::item_presented);
    if s.can_show(Mode::All, index) {
        let opened = AppView { gallery_open: true, ..s.playing(Mode::All, index) }.with(
            Effect::SetGalleryOpen(true),
        ).with(Effect::ResetPictureView);
        let video0 = AppView { all_current_is_video: true, ..opened };
        let video1 = video0.with(Effect::SetCurrentIsVideo(true));
        let video2 = video1.with(Effect::DropAnimation);
        let video3 = video2.with(Effect::LoadVideo { mode: Mode::All, index });
        let video4 = video3.with(Effect::SetPlaying(true));
        let video5 = video4.with(Effect::SyncSpritePreview);
        lemma_with(video2, Effect::LoadVideo { mode: Mode::All, index }, before);
        lemma_with(video3, Effect::SetPlaying(true), before);
        lemma_with(video4, Effect::SyncSpritePreview, before);
        lemma_syncing(video5, before);
        lemma_telling(video5.all_synced(), Mode::All, before);
        let image0 = AppView { all_current_is_video: false, ..opened };
        let image1 = image0.with(Effect::SetCurrentIsVideo(false));
        let image2 = image1.with(Effect::PausePlayer);
        let image3 = image2.with(Effect::ShowPicture { mode: Mode::All, index });
        lemma_with(image1, Effect::PausePlayer, before);
        lemma_with(image2, Effect::ShowPicture { mode: Mode::All, index }, before);
        lemma_syncing(image3, before);
        lemma_telling(image3.all_synced(), Mode::All, before);
    }
}

proof fn lemma_grid_opened(s: AppView, reload: GalleryReload, before: bool)
    ensures
        !runs(s, before) ==> !runs(s.grid_opened(reload), before),
        same_items(s.grid_opened(reload), s),
        s.grid_opened(reload).mode == s.mode,
        s.mode == Mode::Video ==> s.grid_opened(reload).slideshow_on == s.slideshow_on,
        s.grid_opened(reload).gallery_generation == s.gallery_generation,
{
    reveal(AppView::grid_opened);
    reveal(AppView::reload_put_off);
    reveal(AppView::grid_shown);
    reveal(AppView::loading_primed);
    let stops_show = s.slideshow_on && s.mode != Mode::Video;
    let closed = AppView {
        gallery_open: false,
        slideshow_on: s.slideshow_on && !stops_show,
        ..s
    };
    let off = closed.with(Effect::SetSlideshowOn(false));
    lemma_with(closed, Effect::SetSlideshowOn(false), before);
    lemma_with(off, Effect::StopSlideshowTimer, before);
    let quiet = if stops_show {
        off.with(Effect::StopSlideshowTimer)
    } else {
        closed
    };
    lemma_with(quiet, Effect::StopPlayer, before);
    lemma_with(quiet.with(Effect::StopPlayer), Effect::SetPlaying(false), before);
    let stopped = if s.mode != Mode::All || s.all_current_is_video {
        quiet.with(Effect::StopPlayer).with(Effect::SetPlaying(false))
    } else {
        quiet
    };
    lemma_with(stopped, Effect::SetGalleryOpen(false), before);
    let shown = s.grid_shown();
    assert(shown == stopped.with(Effect::SetGalleryOpen(false)));
    lemma_telling(shown, Mode::All, before);
    lemma_telling(shown.loading_primed(), Mode::All, before);
}

proof fn lemma_mode_entered(s: AppView, with_grid: bool, before: bool)
    ensures
        s.mode == Mode::Image && !runs(s, before) ==> !runs(s.mode_entered(with_grid), before),
        same_items(s.mode_entered(with_grid), s),
        s.mode_entered(with_grid).mode == s.mode,
        s.mode == Mode::Video ==> s.mode_entered(with_grid).slideshow_on == s.slideshow_on,
        s.mode_entered(with_grid).gallery_generation == s.gallery_generation,
{
    reveal(AppView::mode_entered);
    match s.active().now_playing {
        Some(index) => {
            played_video_runs(s, index, before);
            shown_image_is_silent(s, index, before);
            presented_item_runs(s, index, before);
            reveal(AppView::image_shown);
        },
        None => {
            lemma_grid_opened(s, GalleryReload::Force, before);
            let closed = AppView { gallery_open: false, ..s };
            lemma_with(closed, Effect::SetGalleryOpen(false), before);
            lemma_syncing(s, before);
            lemma_syncing(s.grid_entered(with_grid), before);
        },
    }
}

/// Switching the mode leads to that mode, takes no item out of any queue, and leaves the making of
/// the grid for later.
pub proof fn mode_is_set(s: AppView, mode: Mode, with_grid: bool)
    ensures
        s.mode_set(mode, with_grid).mode == mode,
        same_items(s.mode_set(mode, with_grid), s),
        s.mode_set(mode, with_grid).gallery_generation == s.gallery_generation,
{
    if s.mode != mode {
        lemma_switched(s, mode, with_grid, false);
    }
}

proof fn lemma_switched(s: AppView, mode: Mode, with_grid: bool, before: bool)
    ensures
        s.mode_switched(mode, with_grid).mode == mode,
        same_items(s.mode_switched(mode, with_grid), s),
        mode == Mode::Image ==> !runs(s.mode_switched(mode, with_grid), before),
        mode == Mode::Video ==> !s.mode_switched(mode, with_grid).slideshow_on,
        s.mode_switched(mode, with_grid).gallery_generation == s.gallery_generation,
{
    reveal(AppView::mode_switched);
    reveal(AppView::mode_announced);
    reveal(AppView::quieted);
    let quiet = s.quieted(mode);
    lemma_with(s, Effect::StopPlayer, before);
    lemma_with(s.with(Effect::StopPlayer), Effect::SetPlaying(false), before);
    let one = AppView { mode, pending_gallery_append: false, ..quiet };
    lemma_with(one, Effect::SetViewMode(mode), before);
    let two = one.with(Effect::SetViewMode(mode));
    lemma_with(two, Effect::ClearSpritePreview, before);
    let three = two.with(Effect::ClearSpritePreview);
    lemma_with(three, Effect::HideListPreview, before);
    let four = three.with(Effect::HideListPreview);
    lemma_mode_entered(four, with_grid, before);
    lemma_telling(four.mode_entered(with_grid), mode, before);
}

/// Switching to images leaves the player stopped, whatever it did before: no video goes on
/// underneath the image viewer.
pub proof fn image_mode_is_silent(s: AppView, with_grid: bool, before: bool)
    requires
        s.mode != Mode::Image,
    ensures
        !runs(s.mode_set(Mode::Image, with_grid), before),
{
    lemma_switched(s, Mode::Image, with_grid, before);
}

/// There is no slideshow in the mode for videos: switching to it ends one, and the slideshow's
/// button does nothing there.
pub proof fn video_mode_has_no_slideshow(s: AppView, with_grid: bool)
    ensures
        s.mode != Mode::Video ==> !s.mode_set(Mode::Video, with_grid).slideshow_on,
        s.mode == Mode::Video ==> s.slideshow_toggled() == s,
{
    if s.mode != Mode::Video {
        lemma_switched(s, Mode::Video, with_grid, false);
    }
}

/// An item that is taken out in the mode for all media is in no queue any more.
pub proof fn removed_media_is_gone(s: AppView, index: usize)
    requires
        s.mode == Mode::All,
        s.queue.wf(),
        s.image_queue.wf(),
        s.all_queue.wf(),
        index < s.all_queue.items.len(),
    ensures
        ({
            let path = s.all_queue.items[index as int].path;
            let after = s.item_removed(index);
            &&& !after.all_queue.has_path(path)
            &&& !after.queue.has_path(path)
            &&& !after.image_queue.has_path(path)
        }),
{
    let path = s.all_queue.items[index as int].path;
    let c = CandidateView { name: Seq::empty(), path, size_bytes: None };
    removed_path_can_return(s.all_queue, index, c);
    lemma_removed_path_is_gone(s.queue, path);
    lemma_removed_path_is_gone(s.image_queue, path);
    reveal(AppView::media_removed);
    reveal(AppView::emptied);
    let less = s.media_removed(index);
    let closed = AppView { gallery_open: false, ..less.stopped() };
    lemma_syncing(closed, false);
    lemma_telling(closed.all_synced(), Mode::All, false);
    lemma_syncing(less, false);
    lemma_telling(less.all_synced(), Mode::All, false);
    let next = s.all_queue.removed(index).now_playing.unwrap();
    presented_item_runs(less, next, false);
    assert(same_items(s.item_removed(index), less));
}

proof fn lemma_removed_path_is_gone(view: QueueView, path: Seq<u8>)
    requires
        view.wf(),
    ensures
        !view.removed_path(path).has_path(path),
{
    if view.has_path(path) {
        let i = choose|i: int|
            0 <= i < view.items.len() && path_key(#[trigger] view.items[i].path) == path_key(path);
        let at = i as usize;
        assert(at < view.items.len() && path_key(view.items[at as int].path) == path_key(path));
        let found = view.path_index(path);
        let c = CandidateView { name: Seq::empty(), path, size_bytes: None };
        removed_path_can_return(view, found, c);
    }
}

proof fn lemma_of_kind(cs: Seq<CandidateView>, videos: bool, k: int)
    requires
        0 <= k < cs.len(),
        is_video(cs[k].path) == videos,
    ensures
        of_kind(cs, videos).contains(cs[k]),
    decreases cs.len(),
{
    let rest = of_kind(cs.drop_last(), videos);
    if k == cs.len() - 1 {
        assert(of_kind(cs, videos)[rest.len() as int] == cs[k]);
    } else {
        lemma_of_kind(cs.drop_last(), videos, k);
        let j = choose|j: int| 0 <= j < rest.len() && rest[j] == cs[k];
        assert(of_kind(cs, videos)[j] == cs[k]);
    }
}

/// After files were added to the library, each of them is in the queue of all media and in the
/// queue of its kind, every item that was there is still there, in its place, and the mode is the
/// one that goes with the files.
pub proof fn added_media_is_queued(s: AppView, cs: Seq<CandidateView>, k: int)
    requires
        0 <= k < cs.len(),
    ensures
        ({
            let after = s.paths_enqueued(cs);
            &&& Some(after.mode) == mode_for(cs)
            &&& after.all_queue.has_path(cs[k].path)
            &&& is_video(cs[k].path) ==> after.queue.has_path(cs[k].path)
            &&& !is_video(cs[k].path) ==> after.image_queue.has_path(cs[k].path)
            &&& after.all_queue.items.take(s.all_queue.items.len() as int) == s.all_queue.items
            &&& after.queue.items.take(s.queue.items.len() as int) == s.queue.items
            &&& after.image_queue.items.take(s.image_queue.items.len() as int)
                == s.image_queue.items
        }),
{
    lemma_paths_enqueued_items(s, cs);
    enqueue_extends_queue(s.all_queue, cs);
    enqueue_extends_queue(s.queue, of_kind(cs, true));
    enqueue_extends_queue(s.image_queue, of_kind(cs, false));
    let after = s.paths_enqueued(cs);
    lemma_has_path(after.all_queue, s.all_queue.enqueued(cs), cs[k].path);
    if is_video(cs[k].path) {
        lemma_of_kind(cs, true, k);
        let videos = of_kind(cs, true);
        let j = choose|j: int| 0 <= j < videos.len() && videos[j] == cs[k];
        assert(s.queue.enqueued(videos).has_path(videos[j].path));
        lemma_has_path(after.queue, s.queue.enqueued(videos), cs[k].path);
    } else {
        lemma_of_kind(cs, false, k);
        let images = of_kind(cs, false);
        let j = choose|j: int| 0 <= j < images.len() && images[j] == cs[k];
        assert(s.image_queue.enqueued(images).has_path(images[j].path));
        lemma_has_path(after.image_queue, s.image_queue.enqueued(images), cs[k].path);
    }
}

proof fn lemma_has_path(a: QueueView, b: QueueView, path: Seq<u8>)
    requires
        a.items == b.items,
        b.has_path(path),
    ensures
        a.has_path(path),
{
    let i = choose|i: int|
        0 <= i < b.items.len() && path_key(#[trigger] b.items[i].path) == path_key(path);
    assert(path_key(a.items[i].path) == path_key(path));
}

proof fn lemma_paths_enqueued_items(s: AppView, cs: Seq<CandidateView>)
    ensures
        s.paths_enqueued(cs).mode == s.mode_after(cs),
        s.paths_enqueued(cs).all_queue.items == s.all_queue.enqueued(cs).items,
        s.paths_enqueued(cs).queue.items == s.queue.enqueued(of_kind(cs, true)).items,
        s.paths_enqueued(cs).image_queue.items == s.image_queue.enqueued(of_kind(cs, false)).items,
{
    reveal(AppView::adding_told);
    reveal(AppView::queues_filled);
    reveal(AppView::videos_enqueued);
    reveal(AppView::images_enqueued);
    reveal(AppView::import_shown);
    reveal(AppView::import_told);
    let told = s.adding_told(cs.len());
    let all = AppView { all_queue: told.all_queue.enqueued(cs), ..told };
    let videos = of_kind(cs, true);
    let images = of_kind(cs, false);
    let v0 = AppView { queue: all.queue.enqueued(videos), ..all };
    lemma_telling(v0, Mode::Video, false);
    lemma_rebuilt_queues(v0);
    let v = all.videos_enqueued(videos);
    let i0 = AppView { image_queue: v.image_queue.enqueued(images), ..v };
    lemma_telling(i0, Mode::Image, false);
    lemma_rebuilt_queues(i0);
    let filled = told.queues_filled(cs);
    let mode = s.mode_after(cs);
    mode_is_set(filled, mode, false);
    let set = filled.mode_set(mode, false);
    played_video_runs(set, 0, false);
    shown_image_is_silent(set, 0, false);
    presented_item_runs(set, 0, false);
    lemma_grid_extended(set);
    lemma_import_told(set.shown(0));
    lemma_import_told(set.grid_extended());
    let shown = set.import_shown();
    let quiet = AppView { library_loading: false, ..shown };
    lemma_telling(quiet, Mode::All, false);
}

proof fn lemma_grid_extended(s: AppView)
    ensures
        same_items(s.grid_extended(), s),
        s.grid_extended().mode == s.mode,
{
    reveal(AppView::grid_extended);
    reveal(AppView::appended);
    lemma_grid_opened(s, GalleryReload::Force, false);
}

proof fn lemma_rebuilt_queues(s: AppView)
    ensures
        s.rebuilt().queue == s.queue,
        s.rebuilt().image_queue == s.image_queue,
        s.rebuilt().all_queue == s.all_queue,
{
    reveal(AppView::rebuilt);
}

proof fn lemma_import_told(s: AppView)
    ensures
        same_items(s.import_told(), s),
        s.import_told().mode == s.mode,
{
    reveal(AppView::import_told);
    lemma_syncing(s, false);
    let synced = s.view_synced(s.mode);
    lemma_telling(synced, s.mode, false);
    lemma_telling(synced.rebuilt(), s.mode, false);
}

proof fn lemma_sync_keeps_queues(s: AppView)
    ensures
        s.image_synced().queue == s.queue,
        s.image_synced().image_queue == s.image_queue,
        s.image_synced().all_queue == s.all_queue,
        s.image_synced().search_query == s.search_query,
        s.image_synced().shuffle_on == s.shuffle_on,
        s.all_synced().queue == s.queue,
        s.all_synced().image_queue == s.image_queue,
        s.all_synced().all_queue == s.all_queue,
        s.all_synced().search_query == s.search_query,
        s.all_synced().shuffle_on == s.shuffle_on,
{
    reveal(AppView::image_synced);
    reveal(AppView::all_synced);
    reveal(AppView::view_told);
    reveal(AppView::image_view_emptied);
    reveal(AppView::image_view_filled);
    reveal(AppView::position_shown);
}

/// Switching shuffle off sets every queue back to its own order, and leaves its items and the one
/// on show as they were.
pub proof fn shuffle_off_restores_order(
    s: AppView,
    video: Seq<usize>,
    image: Seq<usize>,
    all: Seq<usize>,
    mode: Mode,
)
    requires
        s.shuffle_on,
    ensures
        ({
            let after = s.shuffle_toggled(video, image, all);
            &&& !after.shuffle_on
            &&& after.queue_of(mode).items == s.queue_of(mode).items
            &&& after.queue_of(mode).now_playing == s.queue_of(mode).now_playing
            &&& after.queue_of(mode).current_order(s.search_query, true) == s.queue_of(
                mode,
            ).filtered(s.search_query)
            &&& after.queue_of(mode).current_order(s.search_query, false) == s.queue_of(
                mode,
            ).filtered(s.search_query)
        }),
{
    let switched = AppView { shuffle_on: false, ..s }.with(Effect::SetShuffleOn(false));
    let ordered = AppView {
        queue: switched.queue.with_order(indices(switched.queue.items.len())),
        image_queue: switched.image_queue.with_order(indices(switched.image_queue.items.len())),
        all_queue: switched.all_queue.with_order(indices(switched.all_queue.items.len())),
        ..switched
    };
    reveal(AppView::orders_reset);
    reveal(AppView::rebuilt);
    lemma_sync_keeps_queues(ordered);
    lemma_sync_keeps_queues(ordered.image_synced());
    reset_order_is_queue_order(s.queue_of(mode), s.search_query);
}

} // verus!
