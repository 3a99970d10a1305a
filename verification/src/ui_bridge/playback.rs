//! Showing items, and what follows from it for the window and the player.

use super::effect::Effect;
use super::gallery::GalleryReload;
use super::state::{AppState, AppView, Mode};
use crate::library::ext::{is_video, kind_of};
use crate::library::{media_kind, MediaKind};
use crate::playlist::item::CandidateView;
use crate::playlist::model::{position, QueueView};
use crate::playlist::queue::find_position;
use crate::playlist::RemoveOutcome;
use vstd::prelude::*;

verus! {

/// What follows when a video came to its end.
#[derive(Debug, Clone, Copy, PartialEq, Eq, Structural)]
pub struct VideoEofAdvance {
    /// The index of the new item if it is a video.
    pub video_index: Option<usize>,
    /// Whether the timer of the slideshow is to be started over.
    pub restart_slideshow_timer: bool,
}

/// The candidates that are videos, or those that are not, in their order.
pub open spec fn of_kind(cs: Seq<CandidateView>, videos: bool) -> Seq<CandidateView>
    decreases cs.len(),
{
    if cs.len() == 0 {
        Seq::empty()
    } else {
        let rest = of_kind(cs.drop_last(), videos);
        if is_video(cs.last().path) == videos {
            rest.push(cs.last())
        } else {
            rest
        }
    }
}

/// Whether the player runs after it did what it was told, `before` saying whether it ran before.
pub open spec fn player_runs(effects: Seq<Effect>, before: bool) -> bool
    decreases effects.len(),
{
    if effects.len() == 0 {
        before
    } else {
        match effects.last() {
            Effect::StopPlayer => false,
            Effect::PausePlayer => false,
            Effect::LoadVideo { .. } => true,
            _ => player_runs(effects.drop_last(), before),
        }
    }
}

impl AppView {
    /// The state with the item on show of a mode set.
    pub open spec fn playing(self, mode: Mode, index: usize) -> AppView {
        match mode {
            Mode::Video => AppView {
                queue: QueueView { now_playing: Some(index), ..self.queue },
                ..self
            },
            Mode::Image => AppView {
                image_queue: QueueView { now_playing: Some(index), ..self.image_queue },
                ..self
            },
            Mode::All => AppView {
                all_queue: QueueView { now_playing: Some(index), ..self.all_queue },
                ..self
            },
        }
    }

    /// Whether a mode is on and its queue has the item.
    pub open spec fn can_show(self, mode: Mode, index: usize) -> bool {
        self.mode == mode && index < self.queue_of(mode).items.len()
    }

    /// The state after the player was stopped for the image viewer.
    pub open spec fn stopped(self) -> AppView {
        self.with(Effect::StopPlayer).with(Effect::SetPlaying(false))
    }

    /// How to show the place of the item on show of a mode. There is nothing to change for an item
    /// that is not in the order of play.
    pub open spec fn position_effect(self, mode: Mode) -> Option<Effect> {
        let queue = self.queue_of(mode);
        let order = queue.current_order(self.search_query, self.shuffle_on);
        match queue.now_playing {
            Some(index) => match position(order, index) {
                Some(at) => Some(
                    Effect::ShowPosition {
                        mode,
                        position: (at + 1) as usize,
                        total: order.len() as usize,
                    },
                ),
                None => None,
            },
            None => Some(Effect::ClearPosition(mode)),
        }
    }

    /// The state after the place of the item on show of a mode was shown.
    #[verifier::opaque]
    pub open spec fn position_shown(self, mode: Mode) -> AppView {
        match self.position_effect(mode) {
            Some(effect) => self.with(effect),
            None => self,
        }
    }

    /// The state after the window was told what a mode's queue and grid are like.
    #[verifier::opaque]
    pub open spec fn view_told(self, mode: Mode) -> AppView {
        self.with(Effect::SetGalleryOpen(self.gallery_open)).with(
            Effect::SetHasItems { mode, has: self.queue_of(mode).items.len() > 0 },
        )
    }

    /// The state after the video view was brought up to date.
    #[verifier::opaque]
    pub open spec fn video_synced(self) -> AppView {
        self.view_told(Mode::Video).position_shown(Mode::Video)
    }

    /// The state after the view of all media was brought up to date.
    #[verifier::opaque]
    pub open spec fn all_synced(self) -> AppView {
        let told = self.view_told(Mode::All).with(
            Effect::SetCurrentIsVideo(self.all_current_is_video),
        );
        if self.all_queue.now_playing is None {
            told.with(Effect::DropAnimation).position_shown(Mode::All)
        } else {
            told.position_shown(Mode::All)
        }
    }

    /// The state after the image viewer was emptied.
    #[verifier::opaque]
    pub open spec fn image_view_emptied(self) -> AppView {
        self.with(Effect::DropAnimation).position_shown(Mode::Image).with(Effect::ResetPictureView)
    }

    /// The state after the image viewer was filled.
    #[verifier::opaque]
    pub open spec fn image_view_filled(self, index: usize) -> AppView {
        self.position_shown(Mode::Image).with(Effect::ShowPicture { mode: Mode::Image, index })
    }

    /// The state after the image viewer was brought up to date.
    #[verifier::opaque]
    pub open spec fn image_synced(self) -> AppView {
        let told = self.view_told(Mode::Image);
        match self.image_queue.now_playing {
            None => told.image_view_emptied(),
            Some(index) => if index < self.image_queue.items.len() {
                told.image_view_filled(index)
            } else {
                told
            },
        }
    }

    /// The state after the view of a mode was brought up to date.
    pub open spec fn view_synced(self, mode: Mode) -> AppView {
        match mode {
            Mode::Video => self.video_synced(),
            Mode::Image => self.image_synced(),
            Mode::All => self.all_synced(),
        }
    }

    /// The state after a video was put on show in the mode for videos.
    #[verifier::opaque]
    pub open spec fn index_played(self, index: usize) -> AppView {
        if self.can_show(Mode::Video, index) {
            AppView { gallery_open: true, ..self.playing(Mode::Video, index) }.with(
                Effect::SetGalleryOpen(true),
            ).with(Effect::LoadVideo { mode: Mode::Video, index }).with(
                Effect::SetPlaying(true),
            ).with(Effect::SyncSpritePreview).video_synced().rebuilt()
        } else {
            self
        }
    }

    /// The state after an item was put on show in the mode for all media.
    #[verifier::opaque]
    pub open spec fn item_presented(self, index: usize) -> AppView {
        if self.can_show(Mode::All, index) {
            let opened = AppView { gallery_open: true, ..self.playing(Mode::All, index) }.with(
                Effect::SetGalleryOpen(true),
            ).with(Effect::ResetPictureView);
            let shown = match kind_of(self.all_queue.items[index as int].path) {
                MediaKind::Video => AppView { all_current_is_video: true, ..opened }.with(
                    Effect::SetCurrentIsVideo(true),
                ).with(Effect::DropAnimation).with(
                    Effect::LoadVideo { mode: Mode::All, index },
                ).with(Effect::SetPlaying(true)).with(Effect::SyncSpritePreview),
                MediaKind::Image => AppView { all_current_is_video: false, ..opened }.with(
                    Effect::SetCurrentIsVideo(false),
                ).with(Effect::PausePlayer).with(Effect::ShowPicture { mode: Mode::All, index }),
            };
            shown.all_synced().rebuilt()
        } else {
            self
        }
    }

    /// The state after an image was put on show in the mode for images.
    #[verifier::opaque]
    pub open spec fn image_shown(self, index: usize) -> AppView {
        if self.can_show(Mode::Image, index) {
            AppView { gallery_open: true, ..self.stopped().playing(Mode::Image, index) }.with(
                Effect::ResetPictureView,
            ).image_synced().rebuilt()
        } else {
            self
        }
    }

    /// The state after an item was put on show in the mode that the window is in.
    pub open spec fn shown(self, index: usize) -> AppView {
        match self.mode {
            Mode::Video => self.index_played(index),
            Mode::Image => self.image_shown(index),
            Mode::All => self.item_presented(index),
        }
    }

    /// The item that comes next in a mode, or before if `delta` is negative.
    pub open spec fn neighbour(self, mode: Mode, delta: i32) -> Option<usize> {
        if delta < 0 {
            self.queue_of(mode).prev(self.search_query, self.shuffle_on, self.loop_on)
        } else {
            self.queue_of(mode).next(self.search_query, self.shuffle_on, self.loop_on)
        }
    }

    /// The state after going on, or back, to an image.
    pub open spec fn image_navigated(self, delta: i32) -> AppView {
        match self.neighbour(Mode::Image, delta) {
            Some(index) => self.image_shown(index),
            None => self,
        }
    }

    /// The state after going on, or back, in the mode for all media.
    pub open spec fn all_navigated(self, delta: i32) -> AppView {
        match self.neighbour(Mode::All, delta) {
            Some(index) => self.item_presented(index),
            None => self,
        }
    }

    /// Whether the slideshow's timer should run in the mode for all media.
    pub open spec fn wants_timer(self) -> bool {
        self.mode == Mode::All && self.slideshow_on && !self.all_current_is_video
            && self.gallery_open
    }

    /// The state after a video came to its end.
    pub open spec fn eof_advanced(self) -> AppView {
        match self.mode {
            Mode::Video => match self.neighbour(Mode::Video, 1) {
                Some(index) => self.index_played(index),
                None => self,
            },
            Mode::All => if self.all_current_is_video {
                self.all_navigated(1)
            } else {
                self
            },
            Mode::Image => self,
        }
    }

    /// What follows when a video came to its end.
    pub open spec fn eof_outcome(self) -> VideoEofAdvance {
        let after = self.eof_advanced();
        match self.mode {
            Mode::Video => VideoEofAdvance {
                video_index: self.neighbour(Mode::Video, 1),
                restart_slideshow_timer: false,
            },
            Mode::All => if self.all_current_is_video {
                VideoEofAdvance {
                    video_index: if self.neighbour(Mode::All, 1) is Some
                        && after.all_current_is_video {
                        after.all_queue.now_playing
                    } else {
                        None
                    },
                    restart_slideshow_timer: self.neighbour(Mode::All, 1) is Some
                        && self.slideshow_on && after.wants_timer(),
                }
            } else {
                VideoEofAdvance { video_index: None, restart_slideshow_timer: false }
            },
            Mode::Image => VideoEofAdvance { video_index: None, restart_slideshow_timer: false },
        }
    }

    /// The state after the slideshow was switched. Switching it on shows the first item where
    /// none is on show.
    pub open spec fn slideshow_toggled(self) -> AppView {
        let switched = AppView { slideshow_on: !self.slideshow_on, ..self }.with(
            Effect::SetSlideshowOn(!self.slideshow_on),
        );
        if self.mode == Mode::Video {
            self
        } else if switched.slideshow_on && self.active().now_playing is None
            && self.active().items.len() > 0 {
            switched.shown(0)
        } else {
            switched
        }
    }

    /// The state after the grid was put on show, or just the item taken off where there is no
    /// grid to be had.
    pub open spec fn grid_entered(self, with_grid: bool) -> AppView {
        if with_grid {
            self.grid_opened(GalleryReload::Force)
        } else {
            AppView { gallery_open: false, ..self }.with(Effect::SetGalleryOpen(false))
        }
    }

    /// The state after a mode just switched to was shown: its item if there is one, its grid if
    /// it has items, nothing otherwise.
    #[verifier::opaque]
    pub open spec fn mode_entered(self, with_grid: bool) -> AppView {
        match self.active().now_playing {
            Some(index) => self.shown(index),
            None => if self.active().items.len() > 0 {
                self.grid_entered(with_grid).view_synced(self.mode)
            } else {
                self.view_synced(self.mode)
            },
        }
    }

    /// The state made ready for another mode: the image viewer stops the player, leaving the video
    /// view pauses it, and the video view ends the slideshow.
    #[verifier::opaque]
    pub open spec fn quieted(self, mode: Mode) -> AppView {
        let quiet = if mode == Mode::Image {
            self.stopped()
        } else if self.mode == Mode::Video {
            self.with(Effect::PausePlayer)
        } else {
            self
        };
        if mode == Mode::Video {
            (if quiet.slideshow_on {
                AppView { slideshow_on: false, ..quiet }.with(Effect::SetSlideshowOn(false))
            } else {
                quiet
            }).with(Effect::StopSlideshowTimer)
        } else {
            quiet
        }
    }

    /// The state after the window was told of another mode.
    #[verifier::opaque]
    pub open spec fn mode_announced(self, mode: Mode) -> AppView {
        AppView { mode, pending_gallery_append: false, ..self }.with(
            Effect::SetViewMode(mode),
        ).with(Effect::ClearSpritePreview).with(Effect::HideListPreview)
    }

    /// The state after the mode was switched to another one.
    #[verifier::opaque]
    pub open spec fn mode_switched(self, mode: Mode, with_grid: bool) -> AppView {
        self.quieted(mode).mode_announced(mode).mode_entered(with_grid).rebuilt()
    }

    /// The state after the mode was set.
    pub open spec fn mode_set(self, mode: Mode, with_grid: bool) -> AppView {
        if self.mode == mode {
            self
        } else {
            self.mode_switched(mode, with_grid)
        }
    }

    /// The state with a video taken out of its queue.
    #[verifier::opaque]
    pub open spec fn video_removed(self, index: usize) -> AppView {
        AppView { queue: self.queue.removed(index), ..self }
    }

    /// The state with an image taken out of its queue.
    #[verifier::opaque]
    pub open spec fn image_removed(self, index: usize) -> AppView {
        AppView { image_queue: self.image_queue.removed(index), ..self }
    }

    /// The state with an item of all media taken out of every queue.
    #[verifier::opaque]
    pub open spec fn media_removed(self, index: usize) -> AppView {
        let path = self.all_queue.items[index as int].path;
        AppView {
            all_queue: self.all_queue.removed(index),
            queue: self.queue.removed_path(path),
            image_queue: self.image_queue.removed_path(path),
            ..self
        }
    }

    /// The state after the queue of the mode was found to have no item left.
    #[verifier::opaque]
    pub open spec fn emptied(self) -> AppView {
        AppView { gallery_open: false, ..self }.view_synced(self.mode).rebuilt()
    }

    /// The state after the item at `index` was taken out of the queue of the mode.
    pub open spec fn item_removed(self, index: usize) -> AppView {
        let outcome = self.active().remove_outcome(index);
        match self.mode {
            Mode::Video => {
                let less = self.video_removed(index);
                match outcome {
                    RemoveOutcome::QueueEmpty => less.stopped().emptied(),
                    RemoveOutcome::NowPlayingChanged(next) => less.index_played(next),
                    RemoveOutcome::NoPlaybackChange => less.rebuilt(),
                }
            },
            Mode::Image => {
                let less = self.image_removed(index);
                match outcome {
                    RemoveOutcome::QueueEmpty => less.emptied(),
                    RemoveOutcome::NowPlayingChanged(next) => less.image_shown(next),
                    RemoveOutcome::NoPlaybackChange => less.image_synced().rebuilt(),
                }
            },
            Mode::All => {
                if index < self.all_queue.items.len() {
                    let less = self.media_removed(index);
                    match outcome {
                        RemoveOutcome::QueueEmpty => less.stopped().emptied(),
                        RemoveOutcome::NowPlayingChanged(next) => less.item_presented(next),
                        RemoveOutcome::NoPlaybackChange => less.all_synced().rebuilt(),
                    }
                } else {
                    self
                }
            },
        }
    }

    /// The state after the item at `src` of the queue of the mode was moved to `to`.
    pub open spec fn item_moved(self, src: usize, to: usize) -> AppView {
        match self.mode {
            Mode::Video => AppView { queue: self.queue.moved(src, to), ..self },
            Mode::Image => AppView { image_queue: self.image_queue.moved(src, to), ..self },
            Mode::All => AppView { all_queue: self.all_queue.moved(src, to), ..self },
        }
    }

    /// The state after the item at `src` of the queue of the mode was dropped in front of the one
    /// at `dst`.
    pub open spec fn item_reordered(self, src: usize, dst: usize) -> AppView {
        let to = if dst > src {
            (dst - 1) as usize
        } else {
            dst
        };
        if src == dst {
            self
        } else {
            self.item_moved(src, to).rebuilt()
        }
    }
}

impl AppState {
    /// Stops the player for the image viewer.
    pub fn stop_mpv_for_image_mode(&mut self)
        requires
            old(self).parts_wf(),
        ensures
            final(self).parts_wf(),
            final(self)@ == old(self)@.stopped(),
            old(self).wf() ==> final(self).wf(),
    {
        self.ask_for(Effect::StopPlayer);
        self.ask_for(Effect::SetPlaying(false));
    }

    fn queue_of(&self, mode: Mode) -> (queue: &crate::playlist::Queue)
        requires
            self.parts_wf(),
        ensures
            queue@ == self@.queue_of(mode),
            queue.wf(),
    {
        match mode {
            Mode::Video => &self.queue,
            Mode::Image => &self.image_queue,
            Mode::All => &self.all_queue,
        }
    }

    fn position_effect(&self, mode: Mode) -> (effect: Option<Effect>)
        requires
            self.parts_wf(),
        ensures
            effect == self@.position_effect(mode),
    {
        let queue = self.queue_of(mode);
        let order = queue.current_order(self.search_query.as_str(), self.shuffle_on);
        let total = order.len();
        match queue.now_playing() {
            Some(index) => match find_position(order.as_slice(), index) {
                Some(at) => Some(Effect::ShowPosition { mode, position: at + 1, total }),
                None => None,
            },
            None => Some(Effect::ClearPosition(mode)),
        }
    }

    fn show_position(&mut self, mode: Mode)
        requires
            old(self).parts_wf(),
        ensures
            final(self).parts_wf(),
            final(self)@ == old(self)@.position_shown(mode),
            final(self)@ == (AppView { effects: final(self)@.effects, ..old(self)@ }),
            old(self).wf() ==> final(self).wf(),
    {
        proof {
            reveal(AppView::position_shown);
        }
        match self.position_effect(mode) {
            Some(effect) => {
                self.ask_for(effect);
            },
            None => {},
        }
    }

    fn tell_view(&mut self, mode: Mode)
        requires
            old(self).parts_wf(),
        ensures
            final(self).parts_wf(),
            final(self)@ == old(self)@.view_told(mode),
            final(self)@ == (AppView { effects: final(self)@.effects, ..old(self)@ }),
            old(self).wf() ==> final(self).wf(),
    {
        proof {
            reveal(AppView::view_told);
        }
        let has = !self.queue_of(mode).is_empty();
        self.ask_for(Effect::SetGalleryOpen(self.gallery_open));
        self.ask_for(Effect::SetHasItems { mode, has });
    }

    /// Brings the video view up to date.
    pub fn sync_video_view_ui(&mut self)
        requires
            old(self).parts_wf(),
        ensures
            final(self).parts_wf(),
            final(self)@ == old(self)@.video_synced(),
            old(self).wf() ==> final(self).wf(),
    {
        proof {
            reveal(AppView::video_synced);
        }
        self.tell_view(Mode::Video);
        self.show_position(Mode::Video);
    }

    /// Brings the view of all media up to date.
    pub fn sync_all_view_ui(&mut self)
        requires
            old(self).parts_wf(),
        ensures
            final(self).parts_wf(),
            final(self)@ == old(self)@.all_synced(),
            old(self).wf() ==> final(self).wf(),
    {
        proof {
            reveal(AppView::all_synced);
        }
        self.tell_view(Mode::All);
        self.ask_for(Effect::SetCurrentIsVideo(self.all_current_is_video));
        if self.all_queue.now_playing().is_none() {
            self.ask_for(Effect::DropAnimation);
        }
        self.show_position(Mode::All);
    }

    fn empty_image_view(&mut self)
        requires
            old(self).parts_wf(),
        ensures
            final(self).parts_wf(),
            final(self)@ == old(self)@.image_view_emptied(),
            old(self).wf() ==> final(self).wf(),
    {
        proof {
            reveal(AppView::image_view_emptied);
        }
        self.ask_for(Effect::DropAnimation);
        self.show_position(Mode::Image);
        self.ask_for(Effect::ResetPictureView);
    }

    fn fill_image_view(&mut self, index: usize)
        requires
            old(self).parts_wf(),
        ensures
            final(self).parts_wf(),
            final(self)@ == old(self)@.image_view_filled(index),
            old(self).wf() ==> final(self).wf(),
    {
        proof {
            reveal(AppView::image_view_filled);
        }
        self.show_position(Mode::Image);
        self.ask_for(Effect::ShowPicture { mode: Mode::Image, index });
    }

    /// Brings the image viewer up to date.
    pub fn sync_image_viewer_ui(&mut self)
        requires
            old(self).parts_wf(),
        ensures
            final(self).parts_wf(),
            final(self)@ == old(self)@.image_synced(),
            old(self).wf() ==> final(self).wf(),
    {
        proof {
            reveal(AppView::image_synced);
        }
        self.tell_view(Mode::Image);
        match self.image_queue.now_playing() {
            None => self.empty_image_view(),
            Some(index) => {
                if index < self.image_queue.len() {
                    self.fill_image_view(index);
                }
            },
        }
    }

    /// Brings the view of the mode up to date.
    pub fn sync_active_view_ui(&mut self)
        requires
            old(self).parts_wf(),
        ensures
            final(self).parts_wf(),
            final(self)@ == old(self)@.view_synced(old(self)@.mode),
            old(self).wf() ==> final(self).wf(),
    {
        match self.mode {
            Mode::Video => self.sync_video_view_ui(),
            Mode::Image => self.sync_image_viewer_ui(),
            Mode::All => self.sync_all_view_ui(),
        }
    }

    /// Puts a video on show, in the mode for videos. Nothing happens in another mode, or where
    /// there is no such item.
    pub fn play_index(&mut self, index: usize)
        requires
            old(self).parts_wf(),
        ensures
            final(self).parts_wf(),
            final(self)@ == old(self)@.index_played(index),
            old(self).wf() || old(self)@.can_show(Mode::Video, index) ==> final(self).wf(),
    {
        proof {
            reveal(AppView::index_played);
        }
        if self.mode != Mode::Video {
            return;
        }
        if index >= self.queue.len() {
            return;
        }
        self.queue.set_now_playing(Some(index));
        self.gallery_open = true;
        self.ask_for(Effect::SetGalleryOpen(true));
        self.ask_for(Effect::LoadVideo { mode: Mode::Video, index });
        self.ask_for(Effect::SetPlaying(true));
        self.ask_for(Effect::SyncSpritePreview);
        self.sync_video_view_ui();
        self.rebuild_playlist_model();
    }

    /// Puts an item on show, in the mode for all media. Nothing happens in another mode, or where
    /// there is no such item.
    pub fn present_item(&mut self, index: usize)
        requires
            old(self).parts_wf(),
        ensures
            final(self).parts_wf(),
            final(self)@ == old(self)@.item_presented(index),
            old(self).wf() || old(self)@.can_show(Mode::All, index) ==> final(self).wf(),
    {
        proof {
            reveal(AppView::item_presented);
        }
        if self.mode != Mode::All {
            return;
        }
        let kind = match self.all_queue.item(index) {
            Some(item) => media_kind(&item.path),
            None => {
                return;
            },
        };
        self.all_queue.set_now_playing(Some(index));
        self.gallery_open = true;
        self.ask_for(Effect::SetGalleryOpen(true));
        self.ask_for(Effect::ResetPictureView);
        match kind {
            MediaKind::Video => {
                self.all_current_is_video = true;
                self.ask_for(Effect::SetCurrentIsVideo(true));
                self.ask_for(Effect::DropAnimation);
                self.ask_for(Effect::LoadVideo { mode: Mode::All, index });
                self.ask_for(Effect::SetPlaying(true));
                self.ask_for(Effect::SyncSpritePreview);
            },
            MediaKind::Image => {
                self.all_current_is_video = false;
                self.ask_for(Effect::SetCurrentIsVideo(false));
                self.ask_for(Effect::PausePlayer);
                self.ask_for(Effect::ShowPicture { mode: Mode::All, index });
            },
        }
        self.sync_all_view_ui();
        self.rebuild_playlist_model();
    }

    /// Puts an image on show, in the mode for images. Nothing happens in another mode, or where
    /// there is no such item.
    pub fn show_image_at(&mut self, index: usize)
        requires
            old(self).parts_wf(),
        ensures
            final(self).parts_wf(),
            final(self)@ == old(self)@.image_shown(index),
            old(self).wf() || old(self)@.can_show(Mode::Image, index) ==> final(self).wf(),
    {
        proof {
            reveal(AppView::image_shown);
        }
        if self.mode != Mode::Image {
            return;
        }
        if index >= self.image_queue.len() {
            return;
        }
        self.stop_mpv_for_image_mode();
        self.image_queue.set_now_playing(Some(index));
        self.gallery_open = true;
        self.ask_for(Effect::ResetPictureView);
        self.sync_image_viewer_ui();
        self.rebuild_playlist_model();
    }

    /// Puts an item on show in the mode that the window is in.
    pub fn show(&mut self, index: usize)
        requires
            old(self).parts_wf(),
        ensures
            final(self).parts_wf(),
            final(self)@ == old(self)@.shown(index),
            old(self).wf() || index < old(self)@.active().items.len() ==> final(self).wf(),
    {
        match self.mode {
            Mode::Video => self.play_index(index),
            Mode::Image => self.show_image_at(index),
            Mode::All => self.present_item(index),
        }
    }

    pub(crate) fn neighbour(&self, mode: Mode, delta: i32) -> (index: Option<usize>)
        requires
            self.parts_wf(),
        ensures
            index == self@.neighbour(mode, delta),
    {
        let queue = self.queue_of(mode);
        if delta < 0 {
            queue.playable_prev(self.search_query.as_str(), self.shuffle_on, self.loop_on)
        } else {
            queue.playable_next(self.search_query.as_str(), self.shuffle_on, self.loop_on)
        }
    }

    /// Goes on to the next image, or back if `delta` is negative. Says whether there was one.
    pub fn navigate_image_relative(&mut self, delta: i32) -> (moved: bool)
        requires
            old(self).wf(),
        ensures
            final(self).wf(),
            final(self)@ == old(self)@.image_navigated(delta),
            moved == (old(self)@.neighbour(Mode::Image, delta) is Some),
    {
        match self.neighbour(Mode::Image, delta) {
            Some(index) => {
                self.show_image_at(index);
                true
            },
            None => false,
        }
    }

    /// Goes on to the next item of all media, or back if `delta` is negative. Says whether there
    /// was one.
    pub fn navigate_all_relative(&mut self, delta: i32) -> (moved: bool)
        requires
            old(self).wf(),
        ensures
            final(self).wf(),
            final(self)@ == old(self)@.all_navigated(delta),
            moved == (old(self)@.neighbour(Mode::All, delta) is Some),
    {
        match self.neighbour(Mode::All, delta) {
            Some(index) => {
                self.present_item(index);
                true
            },
            None => false,
        }
    }

    /// Whether the slideshow's timer should run in the mode for all media.
    pub fn all_slideshow_wants_timer(&self) -> (wants: bool)
        ensures
            wants == self@.wants_timer(),
    {
        self.mode == Mode::All && self.slideshow_on && !self.all_current_is_video
            && self.gallery_open
    }

    /// Goes on to the next item when a video came to its end.
    pub fn advance_on_video_eof(&mut self) -> (advance: VideoEofAdvance)
        requires
            old(self).wf(),
        ensures
            final(self).wf(),
            final(self)@ == old(self)@.eof_advanced(),
            advance == old(self)@.eof_outcome(),
    {
        match self.mode {
            Mode::Video => {
                let next = self.neighbour(Mode::Video, 1);
                match next {
                    Some(index) => self.play_index(index),
                    None => {},
                }
                VideoEofAdvance { video_index: next, restart_slideshow_timer: false }
            },
            Mode::All => {
                if !self.all_current_is_video {
                    return VideoEofAdvance { video_index: None, restart_slideshow_timer: false };
                }
                let slideshow_on = self.slideshow_on;
                let advanced = self.navigate_all_relative(1);
                let video_index = if advanced && self.all_current_is_video {
                    self.all_queue.now_playing()
                } else {
                    None
                };
                VideoEofAdvance {
                    video_index,
                    restart_slideshow_timer: advanced && slideshow_on
                        && self.all_slideshow_wants_timer(),
                }
            },
            Mode::Image => VideoEofAdvance { video_index: None, restart_slideshow_timer: false },
        }
    }

    /// Switches the slideshow on or off. There is none in the mode for videos.
    pub fn toggle_slideshow(&mut self)
        requires
            old(self).wf(),
        ensures
            final(self).wf(),
            final(self)@ == old(self)@.slideshow_toggled(),
    {
        if self.mode == Mode::Video {
            return;
        }
        self.slideshow_on = !self.slideshow_on;
        self.ask_for(Effect::SetSlideshowOn(self.slideshow_on));
        if !self.slideshow_on {
            return;
        }
        let queue = self.active_queue();
        if queue.now_playing().is_none() && !queue.is_empty() {
            self.show(0);
        }
    }

    fn show_gallery_grid(&mut self, with_grid: bool)
        requires
            old(self).parts_wf(),
        ensures
            final(self).parts_wf(),
            final(self)@ == old(self)@.grid_entered(with_grid),
            final(self)@.mode == old(self)@.mode,
    {
        proof {
            reveal(AppView::grid_opened);
            reveal(AppView::reload_put_off);
            reveal(AppView::grid_shown);
            reveal(AppView::loading_primed);
            reveal(AppView::loading_synced);
        }
        if with_grid {
            self.open_gallery_grid(GalleryReload::Force);
        } else {
            self.gallery_open = false;
            self.ask_for(Effect::SetGalleryOpen(false));
        }
    }

    fn enter_mode_view(&mut self, with_grid: bool)
        requires
            old(self).parts_wf(),
        ensures
            final(self).parts_wf(),
            final(self)@ == old(self)@.mode_entered(with_grid),
    {
        proof {
            reveal(AppView::mode_entered);
        }
        let (now_playing, empty) = {
            let queue = self.active_queue();
            (queue.now_playing(), queue.is_empty())
        };
        match now_playing {
            Some(index) => self.show(index),
            None => {
                if !empty {
                    self.show_gallery_grid(with_grid);
                }
                self.sync_active_view_ui();
            },
        }
    }

    fn quiet_down(&mut self, mode: Mode)
        requires
            old(self).parts_wf(),
        ensures
            final(self).parts_wf(),
            final(self)@ == old(self)@.quieted(mode),
    {
        proof {
            reveal(AppView::quieted);
        }
        if mode == Mode::Image {
            self.stop_mpv_for_image_mode();
        } else if self.mode == Mode::Video {
            self.ask_for(Effect::PausePlayer);
        }
        if mode == Mode::Video {
            if self.slideshow_on {
                self.slideshow_on = false;
                self.ask_for(Effect::SetSlideshowOn(false));
            }
            self.ask_for(Effect::StopSlideshowTimer);
        }
    }

    fn announce_mode(&mut self, mode: Mode)
        requires
            old(self).parts_wf(),
        ensures
            final(self).parts_wf(),
            final(self)@ == old(self)@.mode_announced(mode),
    {
        proof {
            reveal(AppView::mode_announced);
        }
        self.mode = mode;
        self.pending_gallery_append = false;
        self.ask_for(Effect::SetViewMode(mode));
        self.ask_for(Effect::ClearSpritePreview);
        self.ask_for(Effect::HideListPreview);
    }

    fn switch_mode(&mut self, mode: Mode, with_grid: bool)
        requires
            old(self).parts_wf(),
        ensures
            final(self).wf(),
            final(self)@ == old(self)@.mode_switched(mode, with_grid),
    {
        proof {
            reveal(AppView::mode_switched);
        }
        self.quiet_down(mode);
        self.announce_mode(mode);
        self.enter_mode_view(with_grid);
        self.rebuild_playlist_model();
    }

    /// Switches the window to a mode. With a grid at hand, a mode with items but none on show
    /// opens it.
    pub fn set_mode(&mut self, mode: Mode, with_grid: bool)
        requires
            old(self).parts_wf(),
        ensures
            final(self).parts_wf(),
            final(self)@ == old(self)@.mode_set(mode, with_grid),
            old(self).wf() || old(self)@.mode != mode ==> final(self).wf(),
    {
        if self.mode == mode {
            return;
        }
        self.switch_mode(mode, with_grid);
    }

    fn take_video_out(&mut self, index: usize) -> (outcome: RemoveOutcome)
        requires
            old(self).parts_wf(),
            old(self)@.mode == Mode::Video,
            index < old(self)@.queue.items.len(),
        ensures
            final(self).parts_wf(),
            final(self)@ == old(self)@.video_removed(index),
            outcome == old(self)@.queue.remove_outcome(index),
            outcome matches RemoveOutcome::NowPlayingChanged(next) ==> final(self)@.can_show(
                Mode::Video,
                next,
            ),
            final(self)@.mode == Mode::Video,
    {
        proof {
            reveal(AppView::video_removed);
        }
        self.queue.remove_at(index)
    }

    fn take_image_out(&mut self, index: usize) -> (outcome: RemoveOutcome)
        requires
            old(self).parts_wf(),
            old(self)@.mode == Mode::Image,
            index < old(self)@.image_queue.items.len(),
        ensures
            final(self).parts_wf(),
            final(self)@ == old(self)@.image_removed(index),
            outcome == old(self)@.image_queue.remove_outcome(index),
            outcome matches RemoveOutcome::NowPlayingChanged(next) ==> final(self)@.can_show(
                Mode::Image,
                next,
            ),
            final(self)@.mode == Mode::Image,
    {
        proof {
            reveal(AppView::image_removed);
        }
        self.image_queue.remove_at(index)
    }

    fn take_media_out(&mut self, index: usize) -> (outcome: RemoveOutcome)
        requires
            old(self).parts_wf(),
            old(self)@.mode == Mode::All,
            index < old(self)@.all_queue.items.len(),
        ensures
            final(self).parts_wf(),
            final(self)@ == old(self)@.media_removed(index),
            outcome == old(self)@.all_queue.remove_outcome(index),
            outcome matches RemoveOutcome::NowPlayingChanged(next) ==> final(self)@.can_show(
                Mode::All,
                next,
            ),
            final(self)@.mode == Mode::All,
    {
        proof {
            reveal(AppView::media_removed);
        }
        let path = match self.all_queue.item(index) {
            Some(item) => item.path.clone(),
            None => {
                return RemoveOutcome::NoPlaybackChange;
            },
        };
        self.queue.remove_by_path(&path);
        self.image_queue.remove_by_path(&path);
        self.all_queue.remove_at(index)
    }

    fn show_emptied(&mut self)
        requires
            old(self).parts_wf(),
        ensures
            final(self).wf(),
            final(self)@ == old(self)@.emptied(),
    {
        proof {
            reveal(AppView::emptied);
        }
        self.gallery_open = false;
        self.sync_active_view_ui();
        self.rebuild_playlist_model();
    }

    fn remove_video(&mut self, index: usize)
        requires
            old(self).parts_wf(),
            old(self)@.mode == Mode::Video,
            index < old(self)@.queue.items.len(),
        ensures
            final(self).wf(),
            final(self)@ == old(self)@.item_removed(index),
    {
        match self.take_video_out(index) {
            RemoveOutcome::QueueEmpty => {
                self.stop_mpv_for_image_mode();
                self.show_emptied();
            },
            RemoveOutcome::NowPlayingChanged(next) => self.play_index(next),
            RemoveOutcome::NoPlaybackChange => self.rebuild_playlist_model(),
        }
    }

    fn remove_image(&mut self, index: usize)
        requires
            old(self).parts_wf(),
            old(self)@.mode == Mode::Image,
            index < old(self)@.image_queue.items.len(),
        ensures
            final(self).wf(),
            final(self)@ == old(self)@.item_removed(index),
    {
        match self.take_image_out(index) {
            RemoveOutcome::QueueEmpty => self.show_emptied(),
            RemoveOutcome::NowPlayingChanged(next) => self.show_image_at(next),
            RemoveOutcome::NoPlaybackChange => {
                self.sync_image_viewer_ui();
                self.rebuild_playlist_model();
            },
        }
    }

    fn remove_media(&mut self, index: usize)
        requires
            old(self).wf(),
            old(self)@.mode == Mode::All,
        ensures
            final(self).wf(),
            final(self)@ == old(self)@.item_removed(index),
    {
        if index >= self.all_queue.len() {
            return;
        }
        match self.take_media_out(index) {
            RemoveOutcome::QueueEmpty => {
                self.stop_mpv_for_image_mode();
                self.show_emptied();
            },
            RemoveOutcome::NowPlayingChanged(next) => self.present_item(next),
            RemoveOutcome::NoPlaybackChange => {
                self.sync_all_view_ui();
                self.rebuild_playlist_model();
            },
        }
    }

    /// Takes the item at `index` out of the queue of the mode. In the mode for all media it leaves
    /// the queues of videos and images too.
    pub fn remove_item(&mut self, index: usize)
        requires
            old(self).wf(),
            old(self)@.mode != Mode::All ==> index < old(self)@.active().items.len(),
        ensures
            final(self).wf(),
            final(self)@ == old(self)@.item_removed(index),
    {
        match self.mode {
            Mode::Video => self.remove_video(index),
            Mode::Image => self.remove_image(index),
            Mode::All => self.remove_media(index),
        }
    }

    fn move_item(&mut self, src: usize, to: usize)
        requires
            old(self).parts_wf(),
            src < old(self)@.active().items.len(),
            to < old(self)@.active().items.len(),
        ensures
            final(self).parts_wf(),
            final(self)@ == old(self)@.item_moved(src, to),
    {
        match self.mode {
            Mode::Video => self.queue.move_item(src, to),
            Mode::Image => self.image_queue.move_item(src, to),
            Mode::All => self.all_queue.move_item(src, to),
        }
    }

    /// Moves the item at `src` of the queue of the mode in front of the one at `dst`.
    pub fn reorder_item(&mut self, src: usize, dst: usize)
        requires
            old(self).wf(),
            src != dst ==> src < old(self)@.active().items.len() && dst
                <= old(self)@.active().items.len(),
        ensures
            final(self).wf(),
            final(self)@ == old(self)@.item_reordered(src, dst),
    {
        if src == dst {
            return;
        }
        let to: usize = if dst > src {
            dst - 1
        } else {
            dst
        };
        self.move_item(src, to);
        self.rebuild_playlist_model();
    }
}

} // verus!
