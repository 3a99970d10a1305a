//! What the buttons, the list and the player's own events do.

use super::effect::Effect;
use super::laws::played_video_keeps_other_queues;
use super::state::{AppState, AppView, Mode};
use crate::library::scan::{scanned_views, ScannedFile, ScannedView};
use crate::path::MediaPath;
use crate::playlist::item::{candidate_view, candidate_views, Candidate, CandidateView};
use crate::playlist::model::{indices, is_lowercase_of};
use crate::text::{decimal, lowercase, push_decimal, to_lowercase};
use crate::ui_bridge::format::{base_name, basename};
use vstd::prelude::*;

verus! {

/// The speeds that the speed button goes through, in hundredths.
pub open spec fn speed_list() -> Seq<u32> {
    seq![50u32, 75, 100, 125, 150, 200]
}

/// Which of the speeds is on.
#[derive(Debug, Clone, Copy, PartialEq, Eq, Structural)]
pub struct SpeedCycle {
    pub index: usize,
}

impl SpeedCycle {
    /// Whether the speed is one of the list.
    pub open spec fn wf(self) -> bool {
        self.index < speed_list().len()
    }

    /// The speed that is on.
    pub open spec fn current(self) -> u32 {
        speed_list()[self.index as int]
    }

    /// The next speed; the first one after the last.
    pub open spec fn next(self) -> SpeedCycle {
        if self.index + 1 < speed_list().len() {
            SpeedCycle { index: (self.index + 1) as usize }
        } else {
            SpeedCycle { index: 0 }
        }
    }

    /// Normal speed.
    pub fn new() -> (cycle: SpeedCycle)
        ensures
            cycle.wf(),
            cycle.current() == 100,
    {
        SpeedCycle { index: 2 }
    }

    /// Goes on to the next speed, and from the last one to the first. Gives back the new speed in
    /// hundredths.
    pub fn cycle_speed(&mut self) -> (hundredths: u32)
        requires
            old(self).wf(),
        ensures
            final(self).wf(),
            *final(self) == old(self).next(),
            hundredths == final(self).current(),
    {
        let speeds: [u32; 6] = [50, 75, 100, 125, 150, 200];
        assert(speeds@ =~= speed_list());
        self.index = if self.index + 1 < 6 {
            self.index + 1
        } else {
            0
        };
        speeds[self.index]
    }
}

/// Pressing the speed button as often as there are speeds leads back to the one that was on.
pub proof fn speeds_come_round(cycle: SpeedCycle)
    requires
        cycle.wf(),
    ensures
        cycle.next().next().next().next().next().next() == cycle,
{
}

/// A speed as text, without digits that are not needed.
pub open spec fn speed_label(hundredths: nat) -> Seq<char> {
    let whole = decimal(hundredths / 100);
    if hundredths % 100 == 0 {
        whole + "x"@
    } else if hundredths % 10 == 0 {
        whole + "."@ + decimal(hundredths % 100 / 10) + "x"@
    } else {
        whole + "."@ + decimal(hundredths % 100 / 10) + decimal(hundredths % 10) + "x"@
    }
}

/// A speed in hundredths as text.
pub fn speed_text(hundredths: u32) -> (text: String)
    ensures
        text@ == speed_label(hundredths as nat),
{
    let mut text = String::new();
    push_decimal(&mut text, (hundredths / 100) as u64);
    if hundredths % 100 != 0 {
        text.push_str(".");
        push_decimal(&mut text, (hundredths % 100 / 10) as u64);
        if hundredths % 10 != 0 {
            push_decimal(&mut text, (hundredths % 10) as u64);
        }
    }
    text.push_str("x");
    assert(text@ =~= speed_label(hundredths as nat));
    text
}

/// The name of the file for a screenshot that is taken at a time in whole seconds.
pub fn screenshot_name(timestamp: u64) -> (name: String)
    ensures
        name@ == "Flick-Screenshot-"@ + decimal(timestamp as nat) + ".png"@,
{
    let mut name = String::new();
    name.push_str("Flick-Screenshot-");
    push_decimal(&mut name, timestamp);
    name.push_str(".png");
    assert(name@ =~= "Flick-Screenshot-"@ + decimal(timestamp as nat) + ".png"@);
    name
}

/// The place of an item on show as text.
pub fn counter_text(position: usize, total: usize) -> (text: String)
    ensures
        text@ == decimal(position as nat) + " / "@ + decimal(total as nat),
{
    let mut text = String::new();
    push_decimal(&mut text, position as u64);
    text.push_str(" / ");
    push_decimal(&mut text, total as u64);
    assert(text@ =~= decimal(position as nat) + " / "@ + decimal(total as nat));
    text
}

/// The candidate for a file that was found in a folder.
pub open spec fn scanned_candidate(file: ScannedView) -> CandidateView {
    CandidateView { name: base_name(file.path), path: file.path, size_bytes: file.size }
}

/// The candidates for files that were found in a folder.
pub open spec fn scanned_candidates(files: Seq<ScannedView>) -> Seq<CandidateView> {
    files.map_values(|f: ScannedView| scanned_candidate(f))
}

impl AppView {
    /// The state after an item of the list was clicked.
    pub open spec fn item_clicked(self, index: usize) -> AppView {
        self.shown(index).sprite_scheduled(index)
    }

    /// The state after a picture of the grid was clicked.
    pub open spec fn gallery_item_clicked(self, row: usize) -> AppView {
        if row < self.gallery_order.len() {
            self.item_clicked(self.gallery_order[row as int])
        } else {
            self
        }
    }

    /// The state after the search was changed.
    pub open spec fn search_changed(self, text: Seq<char>) -> AppView {
        AppView { search_query: lowercase(text), ..self }.rebuilt()
    }

    /// The state after looping was switched.
    pub open spec fn loop_toggled(self) -> AppView {
        AppView { loop_on: !self.loop_on, ..self }.with(Effect::SetLoopOn(!self.loop_on))
    }

    /// The state after the videos were put in a new shuffle order, with the first of them on show.
    #[verifier::opaque]
    pub open spec fn videos_shuffled(self, order: Seq<usize>) -> AppView {
        let jumped = AppView {
            queue: self.queue.jumped_to_first(order, self.search_query),
            ..self
        };
        let shown = self.queue.with_order(order).current_order(self.search_query, true);
        if shown.len() > 0 {
            jumped.index_played(shown[0])
        } else {
            jumped
        }
    }

    /// The state after the images were put in a new shuffle order, the one on show first.
    #[verifier::opaque]
    pub open spec fn images_shuffled(self, order: Seq<usize>) -> AppView {
        AppView {
            image_queue: self.image_queue.kept_current_first(order, self.search_query),
            ..self
        }.image_synced()
    }

    /// The state after all media were put in a new shuffle order, the one on show first.
    #[verifier::opaque]
    pub open spec fn all_shuffled(self, order: Seq<usize>) -> AppView {
        let shuffled = AppView {
            all_queue: self.all_queue.kept_current_first(order, self.search_query),
            ..self
        };
        if self.mode == Mode::All {
            shuffled.all_synced()
        } else {
            shuffled
        }
    }

    /// The state after every queue went back to its own order.
    #[verifier::opaque]
    pub open spec fn orders_reset(self) -> AppView {
        let reset = AppView {
            queue: self.queue.with_order(indices(self.queue.items.len())),
            image_queue: self.image_queue.with_order(indices(self.image_queue.items.len())),
            all_queue: self.all_queue.with_order(indices(self.all_queue.items.len())),
            ..self
        }.image_synced();
        if self.mode == Mode::All {
            reset.all_synced()
        } else {
            reset
        }
    }

    /// The state after every queue with two items or more was put in a new shuffle order.
    #[verifier::opaque]
    pub open spec fn all_reshuffled(
        self,
        video: Seq<usize>,
        image: Seq<usize>,
        all: Seq<usize>,
    ) -> AppView {
        let one = if self.queue.items.len() >= 2 {
            self.videos_shuffled(video)
        } else {
            self
        };
        let two = if self.image_queue.items.len() >= 2 {
            one.images_shuffled(image)
        } else {
            one
        };
        if self.all_queue.items.len() >= 2 {
            two.all_shuffled(all)
        } else {
            two
        }
    }

    /// The state after shuffle was switched, with the shuffle orders that come up.
    pub open spec fn shuffle_toggled(
        self,
        video: Seq<usize>,
        image: Seq<usize>,
        all: Seq<usize>,
    ) -> AppView {
        let switched = AppView { shuffle_on: !self.shuffle_on, ..self }.with(
            Effect::SetShuffleOn(!self.shuffle_on),
        );
        if switched.shuffle_on {
            switched.all_reshuffled(video, image, all).rebuilt()
        } else {
            switched.orders_reset().rebuilt()
        }
    }

    /// The state after the button for the next or the previous item was pressed.
    pub open spec fn stepped(self, delta: i32) -> AppView {
        let mode = if self.mode == Mode::All {
            Mode::All
        } else {
            Mode::Video
        };
        match self.neighbour(mode, delta) {
            Some(index) => if mode == Mode::All {
                self.item_presented(index).sprite_scheduled(index)
            } else {
                self.index_played(index).sprite_scheduled(index)
            },
            None => self,
        }
    }

    /// The state after the player came to the end of a video.
    pub open spec fn video_ended(self) -> AppView {
        let outcome = self.eof_outcome();
        let planned = match outcome.video_index {
            Some(index) => self.eof_advanced().sprite_scheduled(index),
            None => self.eof_advanced(),
        };
        if outcome.restart_slideshow_timer {
            planned.with(Effect::StartSlideshowTimer)
        } else {
            planned
        }
    }

    /// The state after the player was ready: a first video is played where none is on show.
    pub open spec fn player_ready(self) -> AppView {
        if self.queue.now_playing is None && self.queue.items.len() > 0 {
            self.index_played(0).sprite_scheduled(0)
        } else {
            self
        }
    }

    /// Whether the slideshow's timer should run.
    pub open spec fn timer_wanted(self) -> bool {
        if self.mode == Mode::All {
            self.wants_timer()
        } else {
            self.slideshow_on
        }
    }

    /// The state after the slideshow's timer was started over or stopped, as it should be.
    pub open spec fn timer_set(self) -> AppView {
        if self.timer_wanted() {
            self.with(Effect::StartSlideshowTimer)
        } else {
            self.with(Effect::StopSlideshowTimer)
        }
    }

    /// The state after the slideshow was ended.
    pub open spec fn slideshow_ended(self) -> AppView {
        AppView { slideshow_on: false, ..self }.with(Effect::SetSlideshowOn(false)).with(
            Effect::StopSlideshowTimer,
        )
    }

    /// The state after the slideshow's timer went off: the next item is put on show, and the
    /// slideshow ends where there is none. A video of all media stops the timer.
    pub open spec fn slideshow_ticked(self) -> AppView {
        if !self.slideshow_on {
            self
        } else if self.mode == Mode::All {
            self.all_slideshow_ticked()
        } else {
            self.image_slideshow_ticked()
        }
    }

    /// The state after the slideshow of all media went on, or ended.
    #[verifier::opaque]
    pub open spec fn all_slideshow_ticked(self) -> AppView {
        match self.neighbour(Mode::All, 1) {
            Some(_) => if self.all_navigated(1).wants_timer() {
                self.all_navigated(1)
            } else {
                self.all_navigated(1).with(Effect::StopSlideshowTimer)
            },
            None => self.slideshow_ended(),
        }
    }

    /// The state after the slideshow of images went on, or ended.
    #[verifier::opaque]
    pub open spec fn image_slideshow_ticked(self) -> AppView {
        match self.neighbour(Mode::Image, 1) {
            Some(_) => self.image_navigated(1),
            None => self.slideshow_ended(),
        }
    }

    /// The state after the button for clearing was pressed in the mode for videos. Batches that
    /// are still on their way belong to an older session then.
    #[verifier::opaque]
    pub open spec fn videos_cleared(self) -> AppView {
        AppView {
            queue: self.queue.cleared(),
            library_session: (self.library_session + 1) as u64,
            ..self
        }.stopped().rebuilt()
    }

    /// The state after the button for clearing was pressed in the mode for images. Batches that
    /// are still on their way belong to an older session then.
    #[verifier::opaque]
    pub open spec fn images_cleared(self) -> AppView {
        AppView {
            image_queue: self.image_queue.cleared(),
            gallery_open: false,
            library_session: (self.library_session + 1) as u64,
            ..self
        }.image_synced().rebuilt()
    }

    /// The state after the whole library was cleared. Batches that are still on their way belong
    /// to an older session then.
    #[verifier::opaque]
    pub open spec fn library_cleared(self) -> AppView {
        AppView {
            queue: self.queue.cleared(),
            image_queue: self.image_queue.cleared(),
            all_queue: self.all_queue.cleared(),
            gallery_open: false,
            library_session: (self.library_session + 1) as u64,
            ..self
        }.stopped().all_synced().rebuilt()
    }

    /// The state after the button for clearing was pressed.
    pub open spec fn queue_cleared(self) -> AppView {
        match self.mode {
            Mode::Video => self.videos_cleared(),
            Mode::Image => self.images_cleared(),
            Mode::All => self.library_cleared(),
        }
    }

    /// The mode that the button for the mode switches to.
    pub open spec fn other_mode(self) -> Mode {
        if self.mode == Mode::Video {
            Mode::Image
        } else {
            Mode::Video
        }
    }

    /// The state after an import was begun.
    pub open spec fn import_begun(self) -> AppView {
        AppView {
            library_loading: true,
            library_loading_message: if self.library_loading_message.len() == 0 {
                "Importing…"@
            } else {
                self.library_loading_message
            },
            ..self
        }.loading_synced()
    }

    /// The state after a batch of an import came. One of an older session is dropped.
    pub open spec fn batch_imported(self, session: u64, cs: Seq<CandidateView>) -> AppView {
        if session != self.library_session || cs.len() == 0 {
            self
        } else {
            self.paths_enqueued(cs)
        }
    }

    /// The state with the content hashes of scanned files remembered where none was.
    pub open spec fn hashes_primed(self, files: Seq<ScannedView>) -> AppView
        decreases files.len(),
    {
        if files.len() == 0 {
            self
        } else {
            let before = self.hashes_primed(files.drop_last());
            match files.last().content_hash {
                Some(hash) => before.hash_primed(files.last().path, hash),
                None => before,
            }
        }
    }

    /// The state after a batch of a folder scan came. One of an older session is dropped.
    pub open spec fn scan_applied(self, session: u64, files: Seq<ScannedView>) -> AppView {
        if session != self.library_session || files.len() == 0 {
            self
        } else {
            self.hashes_primed(files).paths_enqueued(scanned_candidates(files))
        }
    }
}

/// Clearing, in whatever mode, makes batches that are on their way come to nothing.
pub proof fn clearing_drops_late_batches(
    s: AppView,
    cs: Seq<CandidateView>,
    files: Seq<ScannedView>,
)
    requires
        s.library_session < u64::MAX,
    ensures
        s.queue_cleared().library_session == s.library_session + 1,
        s.queue_cleared().batch_imported(s.library_session, cs) == s.queue_cleared(),
        s.queue_cleared().scan_applied(s.library_session, files) == s.queue_cleared(),
{
    reveal(AppView::videos_cleared);
    reveal(AppView::images_cleared);
    reveal(AppView::library_cleared);
    reveal(AppView::image_synced);
    reveal(AppView::image_view_emptied);
    reveal(AppView::image_view_filled);
    reveal(AppView::rebuilt);
    reveal(AppView::all_synced);
    reveal(AppView::view_told);
    reveal(AppView::position_shown);
}

/// The candidates for files that were found in a folder.
pub fn scanned_entries(files: &Vec<ScannedFile>) -> (entries: Vec<Candidate>)
    ensures
        candidate_views(entries@) == scanned_candidates(
            scanned_views(files@),
        ),
        entries.len() == files.len(),
{
    let mut entries: Vec<Candidate> = Vec::new();
    let mut i: usize = 0;
    while i < files.len()
        invariant
            i <= files.len(),
            entries.len() == i,
            forall|k: int|
                0 <= k < i ==> candidate_view(#[trigger] entries@[k]) == scanned_candidate(
                    files@[k]@,
                ),
        decreases files.len() - i,
    {
        entries.push((basename(&files[i].path), files[i].path.clone(), files[i].size));
        i += 1;
    }
    assert(candidate_views(entries@) =~= scanned_candidates(
        scanned_views(files@),
    ));
    entries
}

impl AppState {
    /// Takes in a click on an item of the list.
    pub fn item_clicked(&mut self, index: usize)
        requires
            old(self).wf(),
        ensures
            final(self).wf(),
            final(self)@ == old(self)@.item_clicked(index),
    {
        self.show(index);
        self.schedule_sprite_generation(index);
    }

    /// Takes in a click on a picture of the grid.
    pub fn gallery_item_clicked(&mut self, row: usize)
        requires
            old(self).wf(),
        ensures
            final(self).wf(),
            final(self)@ == old(self)@.gallery_item_clicked(row),
    {
        if row < self.gallery_order.len() {
            let index = self.gallery_order[row];
            self.item_clicked(index);
        }
    }

    /// The path of an item that is to be shown in the file manager.
    pub fn reveal_path(&self, index: usize) -> (path: Option<MediaPath>)
        requires
            self.parts_wf(),
        ensures
            match path {
                Some(p) => index < self@.active().items.len() && p@
                    == self@.active().items[index as int].path,
                None => index >= self@.active().items.len(),
            },
    {
        match self.active_queue().item(index) {
            Some(item) => Some(item.path.clone()),
            None => None,
        }
    }

    /// Changes the search. Capitals make no difference to it.
    pub fn search_changed(&mut self, text: &str)
        requires
            old(self).parts_wf(),
        ensures
            final(self).wf(),
            final(self)@ == old(self)@.search_changed(text@),
            is_lowercase_of(final(self)@.search_query, text@),
    {
        proof {
            reveal(AppView::rebuilt);
        }
        self.search_query = to_lowercase(text);
        self.rebuild_playlist_model();
    }

    /// Switches looping on or off.
    pub fn toggle_loop(&mut self)
        requires
            old(self).wf(),
        ensures
            final(self).wf(),
            final(self)@ == old(self)@.loop_toggled(),
    {
        self.loop_on = !self.loop_on;
        self.effects.push(Effect::SetLoopOn(self.loop_on));
    }

    fn shuffle_videos(&mut self, order: Vec<usize>)
        requires
            old(self).parts_wf(),
            old(self)@.queue.is_full_order(order@),
        ensures
            final(self).parts_wf(),
            final(self)@ == old(self)@.videos_shuffled(order@),
            final(self)@.image_queue == old(self)@.image_queue,
            final(self)@.all_queue == old(self)@.all_queue,
    {
        proof {
            reveal(AppView::videos_shuffled);
        }
        match self.queue.jump_to_first_of(order, self.search_query.as_str()) {
            Some(index) => {
                proof {
                    played_video_keeps_other_queues(self@, index);
                }
                self.play_index(index);
            },
            None => {},
        }
    }

    fn shuffle_images(&mut self, order: Vec<usize>)
        requires
            old(self).parts_wf(),
            old(self)@.image_queue.is_full_order(order@),
        ensures
            final(self).parts_wf(),
            final(self)@ == old(self)@.images_shuffled(order@),
            final(self)@.all_queue == old(self)@.all_queue,
    {
        proof {
            reveal(AppView::images_shuffled);
        }
        self.image_queue.keep_current_first_of(order, self.search_query.as_str());
        let ghost shuffled = self@;
        self.sync_image_viewer_ui();
        proof {
            reveal(AppView::image_synced);
            reveal(AppView::image_view_emptied);
            reveal(AppView::image_view_filled);
            reveal(AppView::view_told);
            reveal(AppView::position_shown);
            assert(self@.all_queue == shuffled.all_queue);
        }
    }

    fn shuffle_all(&mut self, order: Vec<usize>)
        requires
            old(self).parts_wf(),
            old(self)@.all_queue.is_full_order(order@),
        ensures
            final(self).parts_wf(),
            final(self)@ == old(self)@.all_shuffled(order@),
    {
        proof {
            reveal(AppView::all_shuffled);
        }
        self.all_queue.keep_current_first_of(order, self.search_query.as_str());
        if self.mode == Mode::All {
            self.sync_all_view_ui();
        }
    }

    fn reshuffle_all(&mut self, video: Vec<usize>, image: Vec<usize>, all: Vec<usize>)
        requires
            old(self).parts_wf(),
            old(self)@.queue.is_full_order(video@),
            old(self)@.image_queue.is_full_order(image@),
            old(self)@.all_queue.is_full_order(all@),
        ensures
            final(self).parts_wf(),
            final(self)@ == old(self)@.all_reshuffled(video@, image@, all@),
    {
        proof {
            reveal(AppView::all_reshuffled);
        }
        if self.queue.len() >= 2 {
            self.shuffle_videos(video);
        }
        if self.image_queue.len() >= 2 {
            self.shuffle_images(image);
        }
        if self.all_queue.len() >= 2 {
            self.shuffle_all(all);
        }
    }

    fn reset_orders(&mut self)
        requires
            old(self).parts_wf(),
        ensures
            final(self).parts_wf(),
            final(self)@ == old(self)@.orders_reset(),
    {
        proof {
            reveal(AppView::orders_reset);
        }
        self.queue.reset_play_order();
        self.image_queue.reset_play_order();
        self.all_queue.reset_play_order();
        let mode = self.mode;
        self.sync_image_viewer_ui();
        if mode == Mode::All {
            self.sync_all_view_ui();
        }
    }

    /// Switches shuffle on, with the given shuffle orders, or off.
    pub fn toggle_shuffle_with(&mut self, video: Vec<usize>, image: Vec<usize>, all: Vec<usize>)
        requires
            old(self).wf(),
            old(self)@.queue.is_full_order(video@),
            old(self)@.image_queue.is_full_order(image@),
            old(self)@.all_queue.is_full_order(all@),
        ensures
            final(self).wf(),
            final(self)@ == old(self)@.shuffle_toggled(video@, image@, all@),
    {
        self.shuffle_on = !self.shuffle_on;
        self.effects.push(Effect::SetShuffleOn(self.shuffle_on));
        if self.shuffle_on {
            self.reshuffle_all(video, image, all);
        } else {
            self.reset_orders();
        }
        self.rebuild_playlist_model();
    }

    /// Switches shuffle on, with shuffle orders that are left to chance, or off.
    pub fn toggle_shuffle(&mut self)
        requires
            old(self).wf(),
        ensures
            final(self).wf(),
            exists|video: Seq<usize>, image: Seq<usize>, all: Seq<usize>|
                {
                    &&& old(self)@.queue.is_full_order(video)
                    &&& old(self)@.image_queue.is_full_order(image)
                    &&& old(self)@.all_queue.is_full_order(all)
                    &&& final(self)@ == #[trigger] old(self)@.shuffle_toggled(video, image, all)
                },
    {
        let video = self.queue.draw_order();
        let image = self.image_queue.draw_order();
        let all = self.all_queue.draw_order();
        self.toggle_shuffle_with(video, image, all);
        assert(self@ == old(self)@.shuffle_toggled(video@, image@, all@));
    }

    fn step_track(&mut self, delta: i32)
        requires
            old(self).wf(),
        ensures
            final(self).wf(),
            final(self)@ == old(self)@.stepped(delta),
    {
        if self.mode == Mode::All {
            match self.neighbour(Mode::All, delta) {
                Some(index) => {
                    self.present_item(index);
                    self.schedule_sprite_generation(index);
                },
                None => {},
            }
        } else {
            match self.neighbour(Mode::Video, delta) {
                Some(index) => {
                    self.play_index(index);
                    self.schedule_sprite_generation(index);
                },
                None => {},
            }
        }
    }

    /// Goes back to the item before.
    pub fn previous_track(&mut self)
        requires
            old(self).wf(),
        ensures
            final(self).wf(),
            final(self)@ == old(self)@.stepped((-1) as i32),
    {
        self.step_track(-1i32);
    }

    /// Goes on to the next item.
    pub fn next_track(&mut self)
        requires
            old(self).wf(),
        ensures
            final(self).wf(),
            final(self)@ == old(self)@.stepped(1),
    {
        self.step_track(1);
    }

    /// Takes in that the player came to the end of a video.
    pub fn video_ended(&mut self)
        requires
            old(self).wf(),
        ensures
            final(self).wf(),
            final(self)@ == old(self)@.video_ended(),
    {
        let advance = self.advance_on_video_eof();
        match advance.video_index {
            Some(index) => self.schedule_sprite_generation(index),
            None => {},
        }
        if advance.restart_slideshow_timer {
            self.effects.push(Effect::StartSlideshowTimer);
        }
    }

    /// Takes in that the player is ready to show videos.
    pub fn player_ready(&mut self)
        requires
            old(self).wf(),
        ensures
            final(self).wf(),
            final(self)@ == old(self)@.player_ready(),
    {
        if self.queue.now_playing().is_none() && !self.queue.is_empty() {
            self.play_index(0);
            self.schedule_sprite_generation(0);
        }
    }

    /// Whether the slideshow's timer should run.
    pub fn timer_wanted(&self) -> (wanted: bool)
        ensures
            wanted == self@.timer_wanted(),
    {
        if self.mode == Mode::All {
            self.all_slideshow_wants_timer()
        } else {
            self.slideshow_on
        }
    }

    fn set_timer(&mut self)
        requires
            old(self).wf(),
        ensures
            final(self).wf(),
            final(self)@ == old(self)@.timer_set(),
    {
        if self.timer_wanted() {
            self.effects.push(Effect::StartSlideshowTimer);
        } else {
            self.effects.push(Effect::StopSlideshowTimer);
        }
    }

    /// Takes in a press of the slideshow's button.
    pub fn slideshow_clicked(&mut self)
        requires
            old(self).wf(),
        ensures
            final(self).wf(),
            final(self)@ == old(self)@.slideshow_toggled().timer_set(),
    {
        self.toggle_slideshow();
        self.set_timer();
    }

    fn end_slideshow(&mut self)
        requires
            old(self).wf(),
        ensures
            final(self).wf(),
            final(self)@ == old(self)@.slideshow_ended(),
    {
        self.slideshow_on = false;
        self.effects.push(Effect::SetSlideshowOn(false));
        self.effects.push(Effect::StopSlideshowTimer);
    }

    fn tick_all_slideshow(&mut self)
        requires
            old(self).wf(),
        ensures
            final(self).wf(),
            final(self)@ == old(self)@.all_slideshow_ticked(),
    {
        proof {
            reveal(AppView::all_slideshow_ticked);
        }
        if !self.navigate_all_relative(1) {
            self.end_slideshow();
        } else if !self.all_slideshow_wants_timer() {
            self.effects.push(Effect::StopSlideshowTimer);
        }
    }

    fn tick_image_slideshow(&mut self)
        requires
            old(self).wf(),
        ensures
            final(self).wf(),
            final(self)@ == old(self)@.image_slideshow_ticked(),
    {
        proof {
            reveal(AppView::image_slideshow_ticked);
        }
        if !self.navigate_image_relative(1) {
            self.end_slideshow();
        }
    }

    /// Takes in that the slideshow's timer went off.
    pub fn slideshow_tick(&mut self)
        requires
            old(self).wf(),
        ensures
            final(self).wf(),
            final(self)@ == old(self)@.slideshow_ticked(),
    {
        if !self.slideshow_on {
            return;
        }
        if self.mode == Mode::All {
            self.tick_all_slideshow();
        } else {
            self.tick_image_slideshow();
        }
    }

    /// Takes in a press of the button that goes back to the grid. Says whether the grid is to be
    /// made anew.
    pub fn gallery_clicked(&mut self) -> (reloads: bool)
        requires
            old(self).wf(),
        ensures
            final(self).wf(),
            final(self)@ == (if old(self)@.returned_to_gallery().slideshow_on {
                old(self)@.returned_to_gallery()
            } else {
                old(self)@.returned_to_gallery().with(Effect::StopSlideshowTimer)
            }),
            reloads == (old(self)@.gallery_open && old(self)@.grid_shown().needs_reload(
                super::gallery::GalleryReload::IfStale,
            )),
    {
        let reloads = self.toggle_gallery();
        if !self.slideshow_on {
            self.effects.push(Effect::StopSlideshowTimer);
        }
        reloads
    }

    /// Switches between videos and images.
    pub fn toggle_mode(&mut self, with_grid: bool)
        requires
            old(self).wf(),
        ensures
            final(self).wf(),
            final(self)@ == old(self)@.mode_set(old(self)@.other_mode(), with_grid),
    {
        let mode = if self.mode == Mode::Video {
            Mode::Image
        } else {
            Mode::Video
        };
        self.set_mode(mode, with_grid);
    }

    fn clear_videos(&mut self)
        requires
            old(self).parts_wf(),
            old(self)@.library_session < u64::MAX,
        ensures
            final(self).wf(),
            final(self)@ == old(self)@.videos_cleared(),
    {
        proof {
            reveal(AppView::videos_cleared);
        }
        self.queue.clear();
        self.library_session = self.library_session + 1;
        self.stop_mpv_for_image_mode();
        self.rebuild_playlist_model();
    }

    fn clear_images(&mut self)
        requires
            old(self).parts_wf(),
            old(self)@.library_session < u64::MAX,
        ensures
            final(self).wf(),
            final(self)@ == old(self)@.images_cleared(),
    {
        proof {
            reveal(AppView::images_cleared);
        }
        self.image_queue.clear();
        self.library_session = self.library_session + 1;
        self.gallery_open = false;
        self.sync_image_viewer_ui();
        self.rebuild_playlist_model();
    }

    /// Clears the whole library.
    pub fn clear_library(&mut self)
        requires
            old(self).parts_wf(),
            old(self)@.library_session < u64::MAX,
        ensures
            final(self).wf(),
            final(self)@ == old(self)@.library_cleared(),
    {
        proof {
            reveal(AppView::library_cleared);
        }
        self.queue.clear();
        self.image_queue.clear();
        self.all_queue.clear();
        self.gallery_open = false;
        self.library_session = self.library_session + 1;
        self.stop_mpv_for_image_mode();
        self.sync_all_view_ui();
        self.rebuild_playlist_model();
    }

    /// Clears the queue of the mode; in the mode for all media, the whole library.
    pub fn clear_queue(&mut self)
        requires
            old(self).wf(),
            old(self)@.library_session < u64::MAX,
        ensures
            final(self).wf(),
            final(self)@ == old(self)@.queue_cleared(),
    {
        match self.mode {
            Mode::Video => self.clear_videos(),
            Mode::Image => self.clear_images(),
            Mode::All => self.clear_library(),
        }
    }

    /// Takes in that an import begins, and gives back the session that its batches belong to.
    pub fn begin_import(&mut self) -> (session: u64)
        requires
            old(self).wf(),
        ensures
            final(self).wf(),
            final(self)@ == old(self)@.import_begun(),
            session == old(self)@.library_session,
    {
        self.library_loading = true;
        if self.library_loading_message.as_str().is_empty() {
            self.library_loading_message = "Importing…".to_string();
        }
        let session = self.library_session;
        self.sync_loading_ui();
        session
    }

    /// Adds a batch of an import to the library, unless it belongs to an older session.
    pub fn apply_file_import_batch(&mut self, session: u64, batch: Vec<Candidate>)
        requires
            old(self).wf(),
            old(self)@.queue.last_id + batch.len() <= u64::MAX,
            old(self)@.image_queue.last_id + batch.len() <= u64::MAX,
            old(self)@.all_queue.last_id + batch.len() <= u64::MAX,
            old(self)@.gallery_generation < u64::MAX,
        ensures
            final(self).wf(),
            final(self)@ == old(self)@.batch_imported(session, candidate_views(batch@)),
    {
        assert(candidate_views(batch@).len() == batch.len());
        if session != self.library_session || batch.len() == 0 {
            return;
        }
        self.enqueue_paths(batch);
    }

    fn prime_hashes(&mut self, files: &Vec<ScannedFile>)
        requires
            old(self).wf(),
        ensures
            final(self).wf(),
            final(self)@ == old(self)@.hashes_primed(scanned_views(files@)),
            final(self)@.queue == old(self)@.queue,
            final(self)@.image_queue == old(self)@.image_queue,
            final(self)@.all_queue == old(self)@.all_queue,
            final(self)@.gallery_generation == old(self)@.gallery_generation,
    {
        let ghost views = scanned_views(files@);
        let ghost was = self@;
        let mut i: usize = 0;
        assert(views.take(0) =~= Seq::empty());
        while i < files.len()
            invariant
                i <= files.len(),
                views == scanned_views(files@),
                self.wf(),
                self@ == was.hashes_primed(views.take(i as int)),
                self@.queue == was.queue,
                self@.image_queue == was.image_queue,
                self@.all_queue == was.all_queue,
                self@.gallery_generation == was.gallery_generation,
            decreases files.len() - i,
        {
            assert(views.take(i + 1).drop_last() =~= views.take(i as int));
            assert(views.take(i + 1).last() == files@[i as int]@);
            match &files[i].content_hash {
                Some(hash) => {
                    self.prime_sprite_hash(&files[i].path, hash.as_str().to_string());
                },
                None => {},
            }
            i += 1;
        }
        assert(views.take(i as int) =~= views);
    }

    /// Adds a batch of a folder scan to the library, unless it belongs to an older session. The
    /// content hashes that the scan computed are remembered.
    pub fn apply_scan_batch(&mut self, session: u64, files: Vec<ScannedFile>)
        requires
            old(self).wf(),
            old(self)@.queue.last_id + files.len() <= u64::MAX,
            old(self)@.image_queue.last_id + files.len() <= u64::MAX,
            old(self)@.all_queue.last_id + files.len() <= u64::MAX,
            old(self)@.gallery_generation < u64::MAX,
        ensures
            final(self).wf(),
            final(self)@ == old(self)@.scan_applied(
                session,
                scanned_views(files@),
            ),
    {
        if session != self.library_session || files.len() == 0 {
            return;
        }
        self.prime_hashes(&files);
        let named = scanned_entries(&files);
        self.enqueue_paths(named);
    }
}

} // verus!
