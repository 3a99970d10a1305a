//! The grid of pictures.

use super::effect::Effect;
use super::playback::of_kind;
use super::state::{AppState, AppView, Grid, GridView, Mode};
use crate::library::ext::kind_of;
use crate::library::filter::path_views;
use crate::library::{media_kind, MediaKind};
use crate::path::MediaPath;
use crate::playlist::item::{CandidateView, ItemView};
use crate::playlist::laws::{enqueue_extends_queue, move_back_undoes_move, order_names_shown_items};
use crate::playlist::model::{indices, position, QueueView};
use crate::playlist::queue::find_position;
use vstd::prelude::*;

verus! {

/// How often rows whose picture could not be had are tried again.
pub const MAX_GALLERY_RETRY_PASSES: u8 = 3;

/// Whether opening the grid makes it anew in any case, or only if it is out of date.
#[derive(Debug, Clone, Copy, PartialEq, Eq, Structural)]
pub enum GalleryReload {
    IfStale,
    Force,
}

/// How far a row is from the row in focus.
pub open spec fn distance(row: int, focus: int) -> int {
    if row < focus {
        focus - row
    } else {
        row - focus
    }
}

/// The rows from `from` up to `to`, those near the row in focus first. Of the two ends of a run of
/// rows, the one farther away comes last, and the upper one if both are as far away.
pub open spec fn nearest_first(from: int, to: int, focus: int) -> Seq<usize>
    decreases to - from,
{
    if from >= to {
        Seq::empty()
    } else if distance(from, focus) <= distance(to - 1, focus) {
        nearest_first(from, to - 1, focus).push((to - 1) as usize)
    } else {
        nearest_first(from + 1, to, focus).push(from as usize)
    }
}

/// The rows come nearest first: each of them once, no row before one that is nearer, and of two
/// that are as far away the lower one first.
pub proof fn near_rows_come_first(from: int, to: int, focus: int)
    requires
        0 <= from <= to <= usize::MAX,
    ensures
        nearest_first(from, to, focus).len() == to - from,
        forall|row: usize| #[trigger]
            nearest_first(from, to, focus).contains(row) <==> from <= row < to,
        nearest_first(from, to, focus).no_duplicates(),
        forall|i: int, j: int|
            0 <= i < j < to - from ==> {
                let a = #[trigger] nearest_first(from, to, focus)[i];
                let b = #[trigger] nearest_first(from, to, focus)[j];
                distance(a as int, focus) < distance(b as int, focus) || (distance(a as int, focus)
                    == distance(b as int, focus) && a < b)
            },
    decreases to - from,
{
    if from < to {
        let (lo, hi, last) = if distance(from, focus) <= distance(to - 1, focus) {
            (from, to - 1, to - 1)
        } else {
            (from + 1, to, from)
        };
        near_rows_come_first(lo, hi, focus);
        let rest = nearest_first(lo, hi, focus);
        let all = nearest_first(from, to, focus);
        assert(all == rest.push(last as usize));
        assert forall|row: usize| #[trigger] all.contains(row) <==> from <= row < to by {
            if from <= row < to {
                if row == last {
                    assert(all[rest.len() as int] == row);
                } else {
                    assert(rest.contains(row));
                    let i = choose|i: int| 0 <= i < rest.len() && rest[i] == row;
                    assert(all[i] == row);
                }
            }
            if all.contains(row) {
                let i = choose|i: int| 0 <= i < all.len() && all[i] == row;
                if i < rest.len() {
                    assert(rest[i] == row);
                    assert(rest.contains(row));
                }
            }
        }
        assert forall|i: int, j: int| 0 <= i < j < to - from implies {
            let a = #[trigger] all[i];
            let b = #[trigger] all[j];
            distance(a as int, focus) < distance(b as int, focus) || (distance(a as int, focus)
                == distance(b as int, focus) && a < b)
        } by {
            if j < rest.len() {
                assert(rest[i] == all[i] && rest[j] == all[j]);
            } else {
                assert(rest[i] == all[i]);
                assert(rest.contains(rest[i]));
            }
        }
        assert(all.no_duplicates());
    } else {
        assert forall|row: usize| #[trigger]
            nearest_first(from, to, focus).contains(row) <==> from <= row < to by {}
    }
}

/// The rows that are flagged, from the first to the last.
pub open spec fn flagged(flags: Seq<bool>) -> Seq<usize>
    decreases flags.len(),
{
    if flags.len() == 0 {
        Seq::empty()
    } else if flags.last() {
        flagged(flags.drop_last()).push((flags.len() - 1) as usize)
    } else {
        flagged(flags.drop_last())
    }
}

/// The flagged rows are just those whose flag is set.
pub proof fn flagged_rows_are_flagged(flags: Seq<bool>)
    requires
        flags.len() <= usize::MAX,
    ensures
        forall|row: usize| #[trigger]
            flagged(flags).contains(row) <==> row < flags.len() && flags[row as int],
        flagged(flags).len() <= flags.len(),
    decreases flags.len(),
{
    if flags.len() > 0 {
        let init = flags.drop_last();
        let last = (flags.len() - 1) as usize;
        flagged_rows_are_flagged(init);
        assert forall|row: usize| #[trigger] flagged(flags).contains(row) <==> row < flags.len()
            && flags[row as int] by {
            if flags.last() {
                let rest = flagged(init);
                assert(flagged(flags) == rest.push(last));
                if row == last {
                    assert(flagged(flags)[rest.len() as int] == row);
                }
                if rest.contains(row) {
                    let i = choose|i: int| 0 <= i < rest.len() && rest[i] == row;
                    assert(flagged(flags)[i] == row);
                }
                if flagged(flags).contains(row) && row != last {
                    let i = choose|i: int|
                        0 <= i < flagged(flags).len() && flagged(flags)[i] == row;
                    assert(rest[i] == row);
                    assert(rest.contains(row));
                }
            }
            if row < last {
                assert(init[row as int] == flags[row as int]);
            }
        }
    }
}

/// Whether the items at the given places have the given paths.
#[verifier::opaque]
pub open spec fn paths_stand(
    paths: Seq<Seq<u8>>,
    places: Seq<usize>,
    items: Seq<ItemView>,
) -> bool {
    &&& paths.len() == places.len()
    &&& forall|k: int|
        0 <= k < places.len() ==> {
            let place = #[trigger] places[k];
            place < items.len() && items[place as int].path == paths[k]
        }
}

impl AppView {
    /// The items of the grid, in its order.
    pub open spec fn grid_order(self) -> Seq<usize> {
        self.active().current_order(self.search_query, self.shuffle_on)
    }

    /// The paths of the items of the grid.
    pub open spec fn grid_paths(self) -> Seq<Seq<u8>> {
        Seq::new(
            self.grid_order().len(),
            |k: int| self.active().items[self.grid_order()[k] as int].path,
        )
    }

    /// Whether the items of the grid are videos. In the mode for all media the path decides.
    pub open spec fn grid_flags(self) -> Seq<bool> {
        Seq::new(
            self.grid_order().len(),
            |k: int|
                match self.mode {
                    Mode::Video => true,
                    Mode::Image => false,
                    Mode::All => kind_of(self.grid_paths()[k]) == MediaKind::Video,
                },
        )
    }

    /// The row of the item on show; the first row if there is none.
    pub open spec fn thumb_focus(self) -> usize {
        match self.active().now_playing {
            Some(playing) => match position(self.gallery_order, playing) {
                Some(row) => row,
                None => 0,
            },
            None => 0,
        }
    }

    /// Whether the grid shows what it would show if it were made anew.
    pub open spec fn grid_is_current(self) -> bool {
        &&& self.gallery_order.len() > 0
        &&& self.grid.video.len() == self.gallery_order.len()
        &&& self.grid_order() == self.gallery_order
    }

    /// The state with the grid in place of the item on show.
    #[verifier::opaque]
    pub open spec fn grid_shown(self) -> AppView {
        let stops_show = self.slideshow_on && self.mode != Mode::Video;
        let stops_player = self.mode != Mode::All || self.all_current_is_video;
        let closed = AppView {
            gallery_open: false,
            slideshow_on: self.slideshow_on && !stops_show,
            ..self
        };
        let quiet = if stops_show {
            closed.with(Effect::SetSlideshowOn(false)).with(Effect::StopSlideshowTimer)
        } else {
            closed
        };
        let stopped = if stops_player {
            quiet.with(Effect::StopPlayer).with(Effect::SetPlaying(false))
        } else {
            quiet
        };
        stopped.with(Effect::SetGalleryOpen(false))
    }

    /// The state with the counts of pictures set for a grid that is to be made anew.
    #[verifier::opaque]
    pub open spec fn loading_primed(self) -> AppView {
        AppView {
            gallery_order: self.grid_order(),
            thumbs_pending: self.grid_order().len() as usize,
            thumbs_loaded: 0,
            thumbs_failed: 0,
            ..self
        }
    }

    /// The state with the grid to be made anew once it was painted.
    #[verifier::opaque]
    pub open spec fn reload_put_off(self) -> AppView {
        AppView { pending_gallery_reload: true, ..self.loading_primed().loading_synced() }
    }

    /// Whether opening the grid has it made anew.
    pub open spec fn needs_reload(self, reload: GalleryReload) -> bool {
        reload == GalleryReload::Force || !self.grid_is_current()
    }

    /// The state after the grid was opened.
    #[verifier::opaque]
    pub open spec fn grid_opened(self, reload: GalleryReload) -> AppView {
        let shown = self.grid_shown();
        if !shown.needs_reload(reload) {
            shown.loading_synced()
        } else {
            shown.reload_put_off()
        }
    }

    /// The state after the window went back from one item to the grid.
    pub open spec fn returned_to_gallery(self) -> AppView {
        if self.gallery_open {
            self.grid_opened(GalleryReload::IfStale)
        } else {
            self
        }
    }

    /// The state with a grid without rows.
    #[verifier::opaque]
    pub open spec fn grid_emptied(self) -> AppView {
        AppView {
            gallery_order: Seq::empty(),
            thumbs_pending: 0,
            thumbs_loaded: 0,
            thumbs_failed: 0,
            thumb_retry_pass: 0,
            grid: GridView { work: self.grid.work, ..GridView::empty() },
            pending_gallery_append: false,
            ..self
        }.with(Effect::ResetGrid)
    }

    /// The state with a row of the grid for each item, without pictures, all of which are begun.
    #[verifier::opaque]
    pub open spec fn grid_filled(self) -> AppView {
        let primed = self.loading_primed();
        AppView {
            gallery_generation: (self.gallery_generation + 1) as u64,
            thumb_retry_pass: 0,
            grid: GridView {
                video: self.grid_flags(),
                failed: Seq::new(self.grid_order().len(), |k: int| false),
                work: nearest_first(
                    0,
                    self.grid_order().len() as int,
                    primed.thumb_focus() as int,
                ),
                shown: self.grid_paths(),
            },
            pending_gallery_append: false,
            ..primed
        }.with(Effect::ResetGrid).with(
            Effect::StartThumbs { generation: (self.gallery_generation + 1) as u64 },
        )
    }

    /// The state after the grid was made anew.
    #[verifier::opaque]
    pub open spec fn grid_loaded(self) -> AppView {
        if self.grid_order().len() == 0 {
            self.grid_emptied()
        } else {
            self.grid_filled()
        }
    }

    /// The state after a making of the grid that was put off was made up for.
    pub open spec fn pending_reload_run(self) -> AppView {
        if self.pending_gallery_reload {
            AppView { pending_gallery_reload: false, ..self }.grid_loaded().loading_synced()
        } else {
            self
        }
    }

    /// The state after a making of the grid that was put off was made up for, unless pictures are
    /// still to come.
    pub open spec fn pending_reload_tried(self) -> AppView {
        if self.pending_gallery_reload && !self.gallery_busy() {
            self.pending_reload_run()
        } else {
            self
        }
    }

    /// Whether each row of the grid still shows the item that stands at its place in the queue of
    /// the mode.
    pub open spec fn rows_stand(self) -> bool {
        paths_stand(self.grid.shown, self.gallery_order, self.active().items)
    }

    /// Whether rows can be added to the grid, because what it shows is still the beginning of
    /// what it would show if it were made anew.
    pub open spec fn can_append(self) -> bool {
        &&& !self.gallery_open
        &&& !self.gallery_busy()
        &&& self.rows_stand()
        &&& self.gallery_order.len() > 0
        &&& self.grid_order().len() > self.gallery_order.len()
        &&& self.grid.video.len() == self.gallery_order.len()
        &&& self.grid_order().take(self.gallery_order.len() as int) == self.gallery_order
    }

    /// The state after rows were added to the grid.
    #[verifier::opaque]
    pub open spec fn appended(self) -> AppView {
        let from = self.gallery_order.len() as int;
        let total = self.grid_order().len() as int;
        let pending = self.thumbs_pending + (total - from);
        let grown = AppView {
            gallery_generation: (self.gallery_generation + 1) as u64,
            gallery_order: self.grid_order(),
            thumb_retry_pass: 0,
            thumbs_pending: if pending <= usize::MAX {
                pending as usize
            } else {
                usize::MAX
            },
            grid: GridView {
                video: self.grid.video + self.grid_flags().skip(from),
                failed: self.grid.failed + Seq::new((total - from) as nat, |k: int| false),
                shown: self.grid_paths(),
                ..self.grid
            },
            ..self
        };
        AppView {
            grid: GridView {
                work: nearest_first(from, total, grown.thumb_focus() as int),
                ..grown.grid
            },
            ..grown
        }.with(Effect::ExtendGrid { from: from as usize }).with(
            Effect::StartThumbs { generation: grown.gallery_generation },
        )
    }

    /// Whether items that were added have to wait, because pictures for the grid that they would
    /// be added to are still to come.
    pub open spec fn append_waits(self) -> bool {
        self.gallery_busy() && self.rows_stand() && self.gallery_order.len() > 0
    }

    /// The state after the grid was told of items that were added: it grows at its end where it
    /// can, later where pictures are still to come, and is made anew otherwise.
    #[verifier::opaque]
    pub open spec fn grid_extended(self) -> AppView {
        if self.can_append() {
            self.appended()
        } else if self.append_waits() {
            AppView { pending_gallery_append: true, ..self }
        } else {
            self.grid_opened(GalleryReload::Force)
        }
    }

    /// The state after items that had to wait were added to the grid, unless pictures are still to
    /// come. Where they cannot be added any more, the grid is made anew if it is on show and not
    /// current.
    pub open spec fn pending_append_tried(self) -> AppView {
        let settled = AppView { pending_gallery_append: false, ..self };
        if !self.pending_gallery_append || self.gallery_busy() {
            self
        } else if settled.can_append() {
            settled.appended().loading_synced()
        } else if !self.gallery_open && (!self.rows_stand() || !self.grid_is_current()) {
            settled.grid_opened(GalleryReload::Force)
        } else {
            settled
        }
    }

    /// What to do for each of several rows of the grid: the row, the path of its item, and whether
    /// that is a video. Rows beyond the items of the grid are left out.
    pub open spec fn thumb_jobs_of(self, rows: Seq<usize>) -> Seq<(usize, Seq<u8>, bool)>
        decreases rows.len(),
    {
        if rows.len() == 0 {
            Seq::empty()
        } else {
            let rest = self.thumb_jobs_of(rows.drop_last());
            let row = rows.last();
            if row < self.grid_order().len() {
                rest.push((row, self.grid_paths()[row as int], self.grid_flags()[row as int]))
            } else {
                rest
            }
        }
    }

    /// Whether a picture is for a row of the grid as it is now.
    pub open spec fn accepts_thumb(self, generation: u64, row: usize) -> bool {
        generation == self.gallery_generation && row < self.grid.video.len()
    }

    /// Whether rows without a picture are tried again once all pictures have come.
    pub open spec fn retries(self) -> bool {
        &&& flagged(self.grid.failed).len() > 0
        &&& self.thumb_retry_pass < MAX_GALLERY_RETRY_PASSES
        &&& self.grid_order().len() > 0
    }

    /// The state after rows without a picture were begun again.
    #[verifier::opaque]
    pub open spec fn retried(self) -> AppView {
        AppView {
            gallery_generation: (self.gallery_generation + 1) as u64,
            thumb_retry_pass: (self.thumb_retry_pass + 1) as u8,
            thumbs_pending: flagged(self.grid.failed).len() as usize,
            thumbs_loaded: 0,
            thumbs_failed: 0,
            grid: GridView {
                work: flagged(self.grid.failed),
                failed: Seq::new(self.grid.failed.len(), |k: int| false),
                ..self.grid
            },
            ..self
        }.with(Effect::ClearThumbFailures).with(
            Effect::StartThumbs { generation: (self.gallery_generation + 1) as u64 },
        )
    }

    /// The state after all pictures have come.
    #[verifier::opaque]
    pub open spec fn batch_finished(self) -> AppView {
        if self.retries() {
            self.retried().loading_synced()
        } else if flagged(self.grid.failed).len() > 0 && self.thumb_retry_pass
            < MAX_GALLERY_RETRY_PASSES {
            self.loading_synced()
        } else {
            AppView { thumb_retry_pass: 0, ..self }.loading_synced()
        }
    }

    /// The state with one more picture that came.
    pub open spec fn thumb_came(self, row: usize) -> AppView {
        AppView { thumbs_loaded: (self.thumbs_loaded + 1) as usize, ..self }.with(
            Effect::ShowThumb { row },
        )
    }

    /// The state with one more picture that could not be had.
    pub open spec fn thumb_missed(self, row: usize) -> AppView {
        AppView {
            thumbs_failed: (self.thumbs_failed + 1) as usize,
            grid: GridView { failed: self.grid.failed.update(row as int, true), ..self.grid },
            ..self
        }.with(Effect::MarkThumbFailed { row })
    }

    /// The state with one more picture counted.
    #[verifier::opaque]
    pub open spec fn thumb_counted(self, row: usize, loaded: bool) -> AppView {
        if loaded {
            self.thumb_came(row)
        } else {
            self.thumb_missed(row)
        }
    }

    /// The state after a picture came, or was found not to be had.
    pub open spec fn thumb_applied(self, generation: u64, row: usize, loaded: bool) -> AppView {
        if !self.accepts_thumb(generation, row) {
            self
        } else {
            let counted = self.thumb_counted(row, loaded);
            let done = counted.thumbs_loaded + counted.thumbs_failed;
            if done == counted.thumbs_pending {
                counted.batch_finished()
            } else if done % 4 == 0 {
                counted.loading_synced()
            } else {
                counted
            }
        }
    }
}

/// A picture for an older grid changes nothing.
pub proof fn late_thumbs_are_dropped(s: AppView, generation: u64, row: usize, loaded: bool)
    requires
        generation != s.gallery_generation,
    ensures
        s.thumb_applied(generation, row, loaded) == s,
{
}

/// Making the grid anew, adding to it and trying rows again leave every picture that was asked
/// for before without effect.
pub proof fn new_work_outdates_old(s: AppView, row: usize, loaded: bool)
    requires
        s.gallery_generation < u64::MAX,
        s.grid_order().len() > 0,
    ensures
        s.grid_loaded().thumb_applied(s.gallery_generation, row, loaded) == s.grid_loaded(),
        s.appended().thumb_applied(s.gallery_generation, row, loaded) == s.appended(),
        s.retried().thumb_applied(s.gallery_generation, row, loaded) == s.retried(),
{
    reveal(AppView::grid_loaded);
    reveal(AppView::grid_filled);
    reveal(AppView::appended);
    reveal(AppView::retried);
}

/// Rows are tried again a bounded number of times: every time uses up one of the passes.
pub proof fn retries_are_bounded(s: AppView)
    requires
        s.retries(),
        s.grid.failed.len() <= usize::MAX,
    ensures
        s.retried().thumb_retry_pass == s.thumb_retry_pass + 1,
        s.retried().thumb_retry_pass <= MAX_GALLERY_RETRY_PASSES,
        s.retried().gallery_busy(),
{
    reveal(AppView::retried);
    flagged_rows_are_flagged(s.grid.failed);
}

/// Right after it was made anew the grid is current, and asks for a picture for each of its rows.
pub proof fn loaded_grid_is_current(s: AppView)
    requires
        s.grid_order().len() > 0,
        s.grid_order().len() <= usize::MAX,
    ensures
        s.grid_loaded().grid_is_current(),
        forall|row: usize| #[trigger]
            s.grid_loaded().grid.work.contains(row) <==> row < s.grid_order().len(),
{
    reveal(AppView::grid_loaded);
    reveal(AppView::grid_filled);
    reveal(AppView::loading_primed);
    near_rows_come_first(
        0,
        s.grid_order().len() as int,
        s.loading_primed().thumb_focus() as int,
    );
}

/// Adding to the grid keeps the rows that are there and asks for pictures of the new ones alone.
pub proof fn append_keeps_rows(s: AppView)
    requires
        s.can_append(),
        s.grid_order().len() <= usize::MAX,
        s.counts_fit(),
    ensures
        s.appended().grid.video.take(s.grid.video.len() as int) == s.grid.video,
        s.appended().grid.failed.take(s.grid.failed.len() as int) == s.grid.failed,
        s.appended().gallery_order.take(s.gallery_order.len() as int) == s.gallery_order,
        s.appended().grid.video.len() == s.grid_order().len(),
        s.appended().grid.failed.len() == s.grid_order().len(),
        forall|row: usize| #[trigger]
            s.appended().grid.work.contains(row) <==> s.grid.video.len() <= row
                < s.grid_order().len(),
{
    reveal(AppView::appended);
    let from = s.gallery_order.len() as int;
    let total = s.grid_order().len() as int;
    let a = s.appended();
    assert(a.grid.video.take(s.grid.video.len() as int) =~= s.grid.video);
    assert(a.grid.failed.take(s.grid.failed.len() as int) =~= s.grid.failed);
    let pending = s.thumbs_pending + (total - from);
    let grown = AppView {
        gallery_generation: (s.gallery_generation + 1) as u64,
        gallery_order: s.grid_order(),
        thumb_retry_pass: 0,
        thumbs_pending: if pending <= usize::MAX {
            pending as usize
        } else {
            usize::MAX
        },
        grid: GridView {
            video: s.grid.video + s.grid_flags().skip(from),
            failed: s.grid.failed + Seq::new((total - from) as nat, |k: int| false),
            shown: s.grid_paths(),
            ..s.grid
        },
        ..s
    };
    near_rows_come_first(from, total, grown.thumb_focus() as int);
}

/// Whether two states differ in nothing that the grid and what can be added to it hang on, but for
/// the queue of the mode.
spec fn same_grid(a: AppView, b: AppView) -> bool {
    &&& a.mode == b.mode
    &&& a.grid == b.grid
    &&& a.gallery_order == b.gallery_order
    &&& a.gallery_open == b.gallery_open
    &&& a.thumbs_pending == b.thumbs_pending
    &&& a.thumbs_loaded == b.thumbs_loaded
    &&& a.thumbs_failed == b.thumbs_failed
    &&& a.search_query == b.search_query
    &&& a.shuffle_on == b.shuffle_on
}

/// Dropping an item at another place changes the queue and its list alone.
proof fn lemma_reordered(s: AppView, src: usize, dst: usize)
    requires
        src != dst,
    ensures
        same_grid(s.item_reordered(src, dst), s),
        s.item_reordered(src, dst).active() == s.active().moved(
            src,
            if dst > src {
                (dst - 1) as usize
            } else {
                dst
            },
        ),
{
    reveal(AppView::rebuilt);
}

proof fn lemma_moved_back(
    queue: QueueView,
    src: usize,
    to: usize,
    query: Seq<char>,
    shuffle_on: bool,
)
    requires
        queue.wf(),
        src < queue.items.len(),
        to < queue.items.len(),
        queue.now_playing matches Some(np) ==> np < queue.items.len(),
        shuffle_on ==> queue.play_order == indices(queue.items.len()),
    ensures
        queue.moved(src, to).moved(to, src).items == queue.items,
        queue.moved(src, to).moved(to, src).current_order(query, shuffle_on)
            == queue.current_order(query, shuffle_on),
{
    let back = queue.moved(src, to).moved(to, src);
    move_back_undoes_move(queue, src, to);
    lemma_kept(back, queue, indices(queue.items.len()), query);
}

proof fn lemma_moved_nowhere(queue: QueueView, src: usize, query: Seq<char>, shuffle_on: bool)
    requires
        src < queue.items.len(),
        shuffle_on ==> queue.play_order == indices(queue.items.len()),
    ensures
        queue.moved(src, src).items == queue.items,
        queue.moved(src, src).current_order(query, shuffle_on) == queue.current_order(
            query,
            shuffle_on,
        ),
{
    let same = queue.moved(src, src);
    assert(same.items =~= queue.items);
    lemma_kept(same, queue, indices(queue.items.len()), query);
}

proof fn lemma_kept(a: QueueView, b: QueueView, order: Seq<usize>, query: Seq<char>)
    requires
        a.items == b.items,
    ensures
        a.kept(order, query) == b.kept(order, query),
    decreases order.len(),
{
    if order.len() > 0 {
        lemma_kept(a, b, order.drop_last(), query);
    }
}

/// Dropping an item at another place and back where it was keeps the grid as it is, and it can be
/// added to just as before. Moving an item gives up the shuffled order, so this is said of a queue
/// that has none or does not play in it.
pub proof fn moving_back_keeps_append(s: AppView, src: usize, dst: usize)
    requires
        s.active().wf(),
        src < s.active().items.len(),
        dst <= s.active().items.len(),
        s.active().now_playing matches Some(np) ==> np < s.active().items.len(),
        s.shuffle_on ==> s.active().play_order == indices(s.active().items.len()),
    ensures
        ({
            let to: usize = if dst > src {
                (dst - 1) as usize
            } else {
                dst
            };
            let back: usize = if to < src {
                (src + 1) as usize
            } else {
                src
            };
            let after = s.item_reordered(src, dst).item_reordered(to, back);
            &&& after.active().items == s.active().items
            &&& after.grid == s.grid
            &&& after.grid_order() == s.grid_order()
            &&& after.rows_stand() == s.rows_stand()
            &&& after.can_append() == s.can_append()
            &&& after.append_waits() == s.append_waits()
        }),
{
    let to: usize = if dst > src {
        (dst - 1) as usize
    } else {
        dst
    };
    let back: usize = if to < src {
        (src + 1) as usize
    } else {
        src
    };
    if src != dst {
        lemma_reordered(s, src, dst);
        let there = s.item_reordered(src, dst);
        if to != back {
            lemma_reordered(there, to, back);
            lemma_moved_back(s.active(), src, to, s.search_query, s.shuffle_on);
        } else {
            lemma_moved_nowhere(s.active(), src, s.search_query, s.shuffle_on);
        }
    }
}

proof fn lemma_kept_prefix(
    less: QueueView,
    more: QueueView,
    count: nat,
    query: Seq<char>,
)
    requires
        less.items.len() <= more.items.len() <= usize::MAX,
        more.items.take(less.items.len() as int) == less.items,
        count <= more.items.len(),
    ensures
        count <= less.items.len() ==> more.kept(indices(count), query) == less.kept(
            indices(count),
            query,
        ),
        count >= less.items.len() ==> less.filtered(query).is_prefix_of(
            more.kept(indices(count), query),
        ),
    decreases count,
{
    if count > 0 {
        let rest = (count - 1) as nat;
        assert(indices(count).drop_last() =~= indices(rest));
        lemma_kept_prefix(less, more, rest, query);
        if count <= less.items.len() {
            assert(more.items[rest as int] == more.items.take(less.items.len() as int)[rest as int]);
        }
    }
}

/// A grid that shows what it should can be added to once more items were put into the queues of
/// the library: what it shows is still the beginning then. Where the order is shuffled, new items
/// need not come last, so this is said of an order that is not.
pub proof fn current_grid_can_grow(s: AppView, cs: Seq<CandidateView>)
    requires
        s.grid_is_current(),
        s.rows_stand(),
        !s.gallery_open,
        !s.gallery_busy(),
        !s.shuffle_on,
        s.queues_filled(cs).grid_order().len() > s.grid_order().len(),
        s.queues_filled(cs).active().items.len() <= usize::MAX,
    ensures
        s.queues_filled(cs).can_append(),
{
    lemma_filled(s, cs);
    let after = s.queues_filled(cs);
    let added = match s.mode {
        Mode::Video => of_kind(cs, true),
        Mode::Image => of_kind(cs, false),
        Mode::All => cs,
    };
    enqueue_extends_queue(s.active(), added);
    lemma_kept_prefix(s.active(), after.active(), after.active().items.len(), s.search_query);
    let (before, order) = (s.grid_order(), after.grid_order());
    assert(order.take(before.len() as int) =~= before);
    assert(after.rows_stand()) by {
        reveal(paths_stand);
        let (old_items, items) = (s.active().items, after.active().items);
        assert forall|k: int| 0 <= k < s.gallery_order.len() implies {
            let place = #[trigger] s.gallery_order[k];
            place < items.len() && items[place as int].path == s.grid.shown[k]
        } by {
            let place = s.gallery_order[k];
            assert(items.take(old_items.len() as int)[place as int] == items[place as int]);
        }
    }
}

/// Putting items into the queues changes those and the list alone.
proof fn lemma_filled(s: AppView, cs: Seq<CandidateView>)
    ensures
        same_grid(s.queues_filled(cs), s),
        s.queues_filled(cs).active() == s.active().enqueued(
            match s.mode {
                Mode::Video => of_kind(cs, true),
                Mode::Image => of_kind(cs, false),
                Mode::All => cs,
            },
        ),
{
    reveal(AppView::queues_filled);
    reveal(AppView::videos_enqueued);
    reveal(AppView::images_enqueued);
    reveal(AppView::rebuilt);
}

/// Items that are added do not make a grid start anew whose rows are still right: where no pictures
/// are to come, the rows stay and new ones follow; where pictures are to come, all that was asked
/// for stays as it is and the items wait.
pub proof fn added_items_keep_grid(s: AppView)
    ensures
        s.can_append() ==> s.grid_extended() == s.appended(),
        s.append_waits() ==> {
            let after = s.grid_extended();
            &&& after.pending_gallery_append
            &&& after.grid == s.grid
            &&& after.gallery_order == s.gallery_order
            &&& after.gallery_generation == s.gallery_generation
            &&& after.effects == s.effects
        },
{
    reveal(AppView::grid_extended);
}

/// Items that wait are added once no pictures are to come, and not before. From then on none wait.
pub proof fn waiting_items_are_added(s: AppView)
    requires
        s.pending_gallery_append,
    ensures
        s.gallery_busy() ==> s.pending_append_tried() == s,
        !s.gallery_busy() ==> !s.pending_append_tried().pending_gallery_append,
        s.can_append() ==> {
            let after = s.pending_append_tried();
            &&& after.gallery_order == s.grid_order()
            &&& after.grid == s.appended().grid
        },
{
    reveal(AppView::appended);
    reveal(AppView::loading_synced);
    reveal(AppView::grid_opened);
    reveal(AppView::grid_shown);
    reveal(AppView::reload_put_off);
    reveal(AppView::loading_primed);
}

/// The rows from `from` up to `to`, those near the row in focus first.
pub fn thumb_work_order(from: usize, to: usize, focus: usize) -> (order: Vec<usize>)
    requires
        from <= to,
    ensures
        order@ == nearest_first(from as int, to as int, focus as int),
{
    let mut lo: usize = from;
    let mut hi: usize = to;
    let mut far_first: Vec<usize> = Vec::new();
    assert(far_first@.reverse() =~= Seq::empty());
    assert(nearest_first(from as int, to as int, focus as int) =~= nearest_first(
        lo as int,
        hi as int,
        focus as int,
    ) + far_first@.reverse());
    while lo < hi
        invariant
            lo <= hi,
            nearest_first(from as int, to as int, focus as int) == nearest_first(
                lo as int,
                hi as int,
                focus as int,
            ) + far_first@.reverse(),
        decreases hi - lo,
    {
        let low: usize = if lo < focus {
            focus - lo
        } else {
            lo - focus
        };
        let high: usize = if hi - 1 < focus {
            focus - (hi - 1)
        } else {
            hi - 1 - focus
        };
        let ghost before = far_first@;
        let ghost (a, b) = (lo as int, hi as int);
        if low <= high {
            hi -= 1;
            far_first.push(hi);
        } else {
            far_first.push(lo);
            lo += 1;
        }
        proof {
            let last = far_first@.last();
            assert(nearest_first(a, b, focus as int) == nearest_first(
                lo as int,
                hi as int,
                focus as int,
            ).push(last));
            assert(far_first@.reverse() =~= seq![last] + before.reverse());
            assert(nearest_first(a, b, focus as int) + before.reverse() =~= nearest_first(
                lo as int,
                hi as int,
                focus as int,
            ) + far_first@.reverse());
        }
    }
    let mut order: Vec<usize> = Vec::new();
    let mut k: usize = far_first.len();
    while k > 0
        invariant
            k <= far_first.len(),
            order@ == far_first@.skip(k as int).reverse(),
        decreases k,
    {
        let ghost before = far_first@.skip(k as int);
        k -= 1;
        order.push(far_first[k]);
        proof {
            let now = far_first@.skip(k as int);
            assert(now =~= seq![far_first@[k as int]] + before);
            assert(order@ =~= now.reverse());
        }
    }
    assert(far_first@.skip(0) =~= far_first@);
    assert(nearest_first(lo as int, hi as int, focus as int) =~= Seq::empty());
    assert(order@ =~= nearest_first(from as int, to as int, focus as int));
    order
}

fn flagged_rows(flags: &[bool]) -> (rows: Vec<usize>)
    ensures
        rows@ == flagged(flags@),
{
    let mut rows: Vec<usize> = Vec::new();
    let mut i: usize = 0;
    assert(flags@.take(0) =~= Seq::empty());
    while i < flags.len()
        invariant
            i <= flags.len(),
            rows@ == flagged(flags@.take(i as int)),
        decreases flags.len() - i,
    {
        assert(flags@.take(i + 1).drop_last() =~= flags@.take(i as int));
        if flags[i] {
            rows.push(i);
        }
        i += 1;
    }
    assert(flags@.take(i as int) =~= flags@);
    rows
}

fn same_order(a: &[usize], b: &[usize]) -> (same: bool)
    ensures
        same == (a@ == b@),
{
    if a.len() != b.len() {
        return false;
    }
    let mut i: usize = 0;
    while i < a.len()
        invariant
            a.len() == b.len(),
            i <= a.len(),
            forall|k: int| 0 <= k < i ==> a@[k] == b@[k],
        decreases a.len() - i,
    {
        if a[i] != b[i] {
            return false;
        }
        i += 1;
    }
    assert(a@ =~= b@);
    true
}

fn starts_with_order(order: &[usize], start: &[usize]) -> (starts: bool)
    requires
        start.len() <= order.len(),
    ensures
        starts == (order@.take(start.len() as int) == start@),
{
    let mut i: usize = 0;
    while i < start.len()
        invariant
            start.len() <= order.len(),
            i <= start.len(),
            forall|k: int| 0 <= k < i ==> order@[k] == start@[k],
        decreases start.len() - i,
    {
        if order[i] != start[i] {
            assert(order@.take(start.len() as int)[i as int] != start@[i as int]);
            return false;
        }
        i += 1;
    }
    assert(order@.take(start.len() as int) =~= start@);
    true
}

fn all_clear(len: usize) -> (flags: Vec<bool>)
    ensures
        flags@ == Seq::new(len as nat, |k: int| false),
{
    let mut flags: Vec<bool> = Vec::new();
    while flags.len() < len
        invariant
            flags.len() <= len,
            forall|k: int| 0 <= k < flags.len() ==> !flags@[k],
        decreases len - flags.len(),
    {
        flags.push(false);
    }
    assert(flags@ =~= Seq::new(len as nat, |k: int| false));
    flags
}

impl AppState {
    /// The items of the grid in its order, with their paths and whether they are videos; `None`
    /// if there are none.
    pub fn gallery_source(&self) -> (source: Option<(Vec<usize>, Vec<MediaPath>, Vec<bool>)>)
        requires
            self.parts_wf(),
        ensures
            match source {
                Some((order, paths, is_video)) => {
                    &&& order@ == self@.grid_order()
                    &&& path_views(paths@) == self@.grid_paths()
                    &&& is_video@ == self@.grid_flags()
                    &&& order@.len() > 0
                },
                None => self@.grid_order().len() == 0,
            },
    {
        let queue = self.active_queue();
        let order = queue.current_order(self.search_query.as_str(), self.shuffle_on);
        let mut paths: Vec<MediaPath> = Vec::new();
        let mut is_video: Vec<bool> = Vec::new();
        proof {
            queue.wf_contents();
            order_names_shown_items(queue@, self@.search_query, self.shuffle_on);
        }
        let mut k: usize = 0;
        while k < order.len()
            invariant
                k <= order.len(),
                order@ == self@.grid_order(),
                queue@ == self@.active(),
                order@.len() == self@.grid_order().len(),
                paths.len() == k,
                is_video.len() == k,
                forall|j: int| 0 <= j < k ==> (#[trigger] paths@[j])@ == self@.grid_paths()[j],
                forall|j: int| 0 <= j < k ==> #[trigger] is_video@[j] == self@.grid_flags()[j],
                forall|x: usize| #[trigger]
                    order@.contains(x) ==> self@.active().shows(x, self@.search_query),
            decreases order.len() - k,
        {
            assert(order@.contains(order@[k as int]));
            match queue.item(order[k]) {
                Some(item) => {
                    let path = item.path.clone();
                    let video = match self.mode {
                        Mode::Video => true,
                        Mode::Image => false,
                        Mode::All => media_kind(&path) == MediaKind::Video,
                    };
                    assert(path@ == self@.grid_paths()[k as int]);
                    assert(video == self@.grid_flags()[k as int]);
                    paths.push(path);
                    is_video.push(video);
                },
                None => {
                    assert(false);
                },
            }
            k += 1;
        }
        assert(path_views(paths@) =~= self@.grid_paths());
        assert(is_video@ =~= self@.grid_flags());
        if paths.len() == 0 {
            None
        } else {
            Some((order, paths, is_video))
        }
    }

    fn current_gallery_order(&self) -> (order: Vec<usize>)
        requires
            self.parts_wf(),
        ensures
            order@ == self@.grid_order(),
    {
        self.active_queue().current_order(self.search_query.as_str(), self.shuffle_on)
    }

    fn gallery_grid_is_current(&self) -> (current: bool)
        requires
            self.parts_wf(),
        ensures
            current == self@.grid_is_current(),
    {
        if self.gallery_order.len() == 0 {
            return false;
        }
        if self.grid.video.len() != self.gallery_order.len() {
            return false;
        }
        same_order(self.current_gallery_order().as_slice(), self.gallery_order.as_slice())
    }

    /// The row of the item on show; the first row if there is none.
    pub fn thumb_focus_index(&self) -> (row: usize)
        requires
            self.parts_wf(),
        ensures
            row == self@.thumb_focus(),
    {
        match self.active_queue().now_playing() {
            Some(playing) => match find_position(self.gallery_order.as_slice(), playing) {
                Some(row) => row,
                None => 0,
            },
            None => 0,
        }
    }

    fn prepare_gallery_view(&mut self)
        requires
            old(self).parts_wf(),
        ensures
            final(self).parts_wf(),
            final(self)@ == old(self)@.grid_shown(),
            old(self).wf() ==> final(self).wf(),
    {
        proof {
            reveal(AppView::grid_shown);
        }
        self.gallery_open = false;
        if self.slideshow_on && (self.mode == Mode::Image || self.mode == Mode::All) {
            self.slideshow_on = false;
            self.ask_for(Effect::SetSlideshowOn(false));
            self.ask_for(Effect::StopSlideshowTimer);
        }
        if self.mode == Mode::Video || self.mode == Mode::Image || (self.mode == Mode::All
            && self.all_current_is_video) {
            self.ask_for(Effect::StopPlayer);
            self.ask_for(Effect::SetPlaying(false));
        }
        self.ask_for(Effect::SetGalleryOpen(false));
    }

    fn prime_gallery_loading_state(&mut self)
        requires
            old(self).parts_wf(),
        ensures
            final(self).parts_wf(),
            final(self)@ == old(self)@.loading_primed(),
            old(self).wf() ==> final(self).wf(),
    {
        proof {
            reveal(AppView::loading_primed);
        }
        let order = self.current_gallery_order();
        self.gallery_thumbs_pending = order.len();
        self.gallery_order = order;
        self.gallery_thumbs_loaded = 0;
        self.gallery_thumbs_failed = 0;
    }

    fn put_off_reload(&mut self)
        requires
            old(self).parts_wf(),
        ensures
            final(self).parts_wf(),
            final(self)@ == old(self)@.reload_put_off(),
            old(self).wf() ==> final(self).wf(),
    {
        proof {
            reveal(AppView::reload_put_off);
        }
        self.prime_gallery_loading_state();
        self.sync_loading_ui();
        self.pending_gallery_reload = true;
    }

    /// Shows the grid in place of the item on show. Says whether the grid is to be made anew.
    pub fn open_gallery_grid(&mut self, reload: GalleryReload) -> (reloads: bool)
        requires
            old(self).parts_wf(),
        ensures
            final(self).parts_wf(),
            final(self)@ == old(self)@.grid_opened(reload),
            reloads == old(self)@.grid_shown().needs_reload(reload),
            old(self).wf() ==> final(self).wf(),
    {
        proof {
            reveal(AppView::grid_opened);
        }
        self.prepare_gallery_view();
        let needs_reload = reload == GalleryReload::Force || !self.gallery_grid_is_current();
        if !needs_reload {
            self.sync_loading_ui();
            return false;
        }
        self.put_off_reload();
        true
    }

    /// Goes back from one item to the grid. Says whether the grid is to be made anew.
    pub fn return_to_gallery(&mut self) -> (reloads: bool)
        requires
            old(self).wf(),
        ensures
            final(self).wf(),
            final(self)@ == old(self)@.returned_to_gallery(),
            reloads == (old(self)@.gallery_open && old(self)@.grid_shown().needs_reload(
                GalleryReload::IfStale,
            )),
    {
        if !self.gallery_open {
            return false;
        }
        self.open_gallery_grid(GalleryReload::IfStale)
    }

    /// Goes back from one item to the grid, which is all that the window asks for.
    pub fn toggle_gallery(&mut self) -> (reloads: bool)
        requires
            old(self).wf(),
        ensures
            final(self).wf(),
            final(self)@ == old(self)@.returned_to_gallery(),
            reloads == (old(self)@.gallery_open && old(self)@.grid_shown().needs_reload(
                GalleryReload::IfStale,
            )),
    {
        self.return_to_gallery()
    }

    fn empty_grid(&mut self)
        requires
            old(self).parts_wf(),
        ensures
            final(self).parts_wf(),
            final(self)@ == old(self)@.grid_emptied(),
            old(self).wf() ==> final(self).wf(),
    {
        proof {
            reveal(AppView::grid_emptied);
        }
        self.gallery_order = Vec::new();
        self.gallery_thumbs_pending = 0;
        self.gallery_thumbs_loaded = 0;
        self.gallery_thumbs_failed = 0;
        self.gallery_thumb_retry_pass = 0;
        self.grid.video = Vec::new();
        self.grid.failed = Vec::new();
        self.grid.shown = Vec::new();
        assert(path_views(self.grid.shown@) =~= Seq::empty());
        self.pending_gallery_append = false;
        self.ask_for(Effect::ResetGrid);
    }

    fn fill_grid(&mut self, paths: Vec<MediaPath>, is_video: Vec<bool>)
        requires
            old(self).parts_wf(),
            old(self)@.gallery_generation < u64::MAX,
            path_views(paths@) == old(self)@.grid_paths(),
            is_video@ == old(self)@.grid_flags(),
        ensures
            final(self).parts_wf(),
            final(self)@ == old(self)@.grid_filled(),
            old(self).wf() ==> final(self).wf(),
    {
        proof {
            reveal(AppView::grid_filled);
        }
        let total = is_video.len();
        self.prime_gallery_loading_state();
        let focus = self.thumb_focus_index();
        proof {
            reveal(AppView::loading_primed);
        }
        self.gallery_generation = self.gallery_generation + 1;
        self.gallery_thumb_retry_pass = 0;
        self.grid = Grid {
            video: is_video,
            failed: all_clear(total),
            work: thumb_work_order(0, total, focus),
            shown: paths,
        };
        self.pending_gallery_append = false;
        self.ask_for(Effect::ResetGrid);
        self.ask_for(Effect::StartThumbs { generation: self.gallery_generation });
    }

    fn load_gallery_thumbnails(&mut self)
        requires
            old(self).parts_wf(),
            old(self)@.gallery_generation < u64::MAX,
        ensures
            final(self).parts_wf(),
            final(self)@ == old(self)@.grid_loaded(),
            old(self).wf() ==> final(self).wf(),
    {
        proof {
            reveal(AppView::grid_loaded);
        }
        match self.gallery_source() {
            None => self.empty_grid(),
            Some((_, paths, is_video)) => self.fill_grid(paths, is_video),
        }
    }

    /// Makes the grid anew if that was put off.
    pub fn run_pending_gallery_reload(&mut self)
        requires
            old(self).wf(),
            old(self)@.gallery_generation < u64::MAX,
        ensures
            final(self).wf(),
            final(self)@ == old(self)@.pending_reload_run(),
    {
        if !self.pending_gallery_reload {
            return;
        }
        self.pending_gallery_reload = false;
        self.load_gallery_thumbnails();
        self.sync_loading_ui();
    }

    /// Makes the grid anew if that was put off and no pictures are still to come.
    pub fn try_start_pending_gallery_reload(&mut self)
        requires
            old(self).wf(),
            old(self)@.gallery_generation < u64::MAX,
        ensures
            final(self).wf(),
            final(self)@ == old(self)@.pending_reload_tried(),
    {
        if self.pending_gallery_reload && !self.gallery_busy() {
            self.run_pending_gallery_reload();
        }
    }

    fn rows_stand(&self) -> (stand: bool)
        requires
            self.parts_wf(),
        ensures
            stand == self@.rows_stand(),
    {
        proof {
            reveal(paths_stand);
        }
        if self.grid.shown.len() != self.gallery_order.len() {
            return false;
        }
        let queue = self.active_queue();
        let mut k: usize = 0;
        while k < self.gallery_order.len()
            invariant
                k <= self.gallery_order.len(),
                queue@ == self@.active(),
                queue.wf(),
                self.grid.shown.len() == self.gallery_order.len(),
                forall|j: int|
                    0 <= j < k ==> {
                        let index = #[trigger] self.gallery_order@[j];
                        index < queue@.items.len() && queue@.items[index as int].path
                            == self.grid.shown@[j]@
                    },
            decreases self.gallery_order.len() - k,
        {
            proof {
                reveal(paths_stand);
            }
            assert(self@.grid.shown[k as int] == self.grid.shown@[k as int]@);
            match queue.item(self.gallery_order[k]) {
                Some(item) => {
                    if !item.path.same_as(&self.grid.shown[k]) {
                        return false;
                    }
                },
                None => {
                    return false;
                },
            }
            k += 1;
        }
        assert forall|j: int| 0 <= j < self@.gallery_order.len() implies {
            let index = #[trigger] self@.gallery_order[j];
            index < self@.active().items.len() && self@.active().items[index as int].path
                == self@.grid.shown[j]
        } by {
            assert(self.gallery_order@[j] == self@.gallery_order[j]);
        }
        true
    }

    /// Adds rows to the grid where what it shows is still the beginning of what it would show if
    /// it were made anew. Says whether it did.
    pub fn try_append_gallery_thumbnails(&mut self) -> (appended: bool)
        requires
            old(self).parts_wf(),
            old(self)@.gallery_generation < u64::MAX,
        ensures
            final(self).parts_wf(),
            old(self).wf() ==> final(self).wf(),
            appended == old(self)@.can_append(),
            final(self)@ == if appended {
                old(self)@.appended()
            } else {
                old(self)@
            },
    {
        proof {
            reveal(AppView::appended);
        }
        if self.gallery_open || self.gallery_busy() || !self.rows_stand() {
            return false;
        }
        match self.gallery_source() {
            None => false,
            Some((order, paths, is_video)) => {
                let from = self.gallery_order.len();
                let total = order.len();
                if from == 0 || total <= from || self.grid.video.len() != from {
                    return false;
                }
                if !starts_with_order(order.as_slice(), self.gallery_order.as_slice()) {
                    return false;
                }
                let ghost was = self@;
                self.gallery_generation = self.gallery_generation + 1;
                self.gallery_order = order;
                self.grid.shown = paths;
                self.gallery_thumb_retry_pass = 0;
                self.gallery_thumbs_pending = if total - from <= usize::MAX
                    - self.gallery_thumbs_pending {
                    self.gallery_thumbs_pending + (total - from)
                } else {
                    usize::MAX
                };
                let mut k: usize = from;
                let ghost video = self.grid.video@;
                let ghost failed = self.grid.failed@;
                let ghost step = *self;
                while k < total
                    invariant
                        from <= k <= total,
                        is_video.len() == total,
                        self.grid.video@ == video + is_video@.subrange(from as int, k as int),
                        self.grid.failed@ == failed + Seq::new((k - from) as nat, |j: int| false),
                        *self == (AppState {
                            grid: Grid {
                                video: self.grid.video,
                                failed: self.grid.failed,
                                ..step.grid
                            },
                            ..step
                        }),
                    decreases total - k,
                {
                    self.grid.video.push(is_video[k]);
                    self.grid.failed.push(false);
                    assert(is_video@.subrange(from as int, k + 1) =~= is_video@.subrange(
                        from as int,
                        k as int,
                    ).push(is_video@[k as int]));
                    k += 1;
                    assert(self.grid.video@ =~= video + is_video@.subrange(from as int, k as int));
                    assert(self.grid.failed@ =~= failed + Seq::new(
                        (k - from) as nat,
                        |j: int| false,
                    ));
                }
                assert(is_video@.subrange(from as int, total as int) =~= is_video@.skip(
                    from as int,
                ));
                let focus = self.thumb_focus_index();
                self.grid.work = thumb_work_order(from, total, focus);
                self.ask_for(Effect::ExtendGrid { from });
                self.ask_for(Effect::StartThumbs { generation: self.gallery_generation });
                assert(self@.grid.video =~= was.appended().grid.video);
                assert(self@.grid.failed =~= was.appended().grid.failed);
                true
            },
        }
    }

    /// Tells the grid of items that were added: it grows at its end where it can, later where
    /// pictures are still to come, and is made anew otherwise.
    pub fn extend_gallery_grid(&mut self)
        requires
            old(self).parts_wf(),
            old(self)@.gallery_generation < u64::MAX,
        ensures
            final(self).parts_wf(),
            final(self)@ == old(self)@.grid_extended(),
            old(self).wf() ==> final(self).wf(),
    {
        proof {
            reveal(AppView::grid_extended);
        }
        if self.try_append_gallery_thumbnails() {
            return;
        }
        if self.gallery_busy() && self.rows_stand() && self.gallery_order.len() > 0 {
            self.pending_gallery_append = true;
        } else {
            self.open_gallery_grid(GalleryReload::Force);
        }
    }

    /// Adds items that had to wait to the grid, once no pictures are still to come.
    pub fn try_start_pending_gallery_append(&mut self)
        requires
            old(self).wf(),
            old(self)@.gallery_generation < u64::MAX,
        ensures
            final(self).wf(),
            final(self)@ == old(self)@.pending_append_tried(),
    {
        if !self.pending_gallery_append || self.gallery_busy() {
            return;
        }
        self.pending_gallery_append = false;
        if self.try_append_gallery_thumbnails() {
            self.sync_loading_ui();
        } else if !self.gallery_open && (!self.rows_stand() || !self.gallery_grid_is_current()) {
            self.open_gallery_grid(GalleryReload::Force);
        }
    }

    /// What to do for the rows of the grid whose pictures are to be made, in the order in which
    /// they are begun: the row, the path of its item, and whether that is a video. Rows beyond
    /// the items of the grid are left out.
    pub fn thumb_jobs(&self) -> (jobs: Vec<(usize, MediaPath, bool)>)
        requires
            self.parts_wf(),
        ensures
            jobs@.map_values(|job: (usize, MediaPath, bool)| (job.0, job.1@, job.2))
                == self@.thumb_jobs_of(self@.grid.work),
    {
        let mut jobs: Vec<(usize, MediaPath, bool)> = Vec::new();
        let (paths, is_video) = match self.gallery_source() {
            Some((_, paths, is_video)) => (paths, is_video),
            None => (Vec::new(), Vec::new()),
        };
        let ghost view = |job: (usize, MediaPath, bool)| (job.0, job.1@, job.2);
        assert(paths.len() == self@.grid_paths().len()) by {
            assert(path_views(paths@) =~= self@.grid_paths());
        }
        assert(is_video@ =~= self@.grid_flags());
        assert forall|k: int| 0 <= k < paths.len() implies (#[trigger] paths@[k])@
            == self@.grid_paths()[k] by {
            assert(path_views(paths@)[k] == paths@[k]@);
        }
        let mut i: usize = 0;
        assert(self.grid.work@.take(0) =~= Seq::empty());
        assert(jobs@.map_values(view) =~= Seq::empty());
        while i < self.grid.work.len()
            invariant
                i <= self.grid.work.len(),
                view == (|job: (usize, MediaPath, bool)| (job.0, job.1@, job.2)),
                paths.len() == self@.grid_paths().len(),
                is_video.len() == paths.len(),
                is_video@ == self@.grid_flags(),
                forall|k: int|
                    0 <= k < paths.len() ==> (#[trigger] paths@[k])@ == self@.grid_paths()[k],
                jobs@.map_values(view) == self@.thumb_jobs_of(self.grid.work@.take(i as int)),
            decreases self.grid.work.len() - i,
        {
            let row = self.grid.work[i];
            assert(self.grid.work@.take(i + 1).drop_last() =~= self.grid.work@.take(i as int));
            if row < paths.len() {
                let ghost before = jobs@;
                jobs.push((row, paths[row].clone(), is_video[row]));
                assert(jobs@.map_values(view) =~= before.map_values(view).push(view(jobs@.last())));
            }
            i += 1;
        }
        assert(self.grid.work@.take(i as int) =~= self.grid.work@);
        jobs
    }

    /// Whether a picture is for a row of the grid as it is now.
    pub fn accepts_thumb(&self, generation: u64, row: usize) -> (accepts: bool)
        ensures
            accepts == self@.accepts_thumb(generation, row),
    {
        generation == self.gallery_generation && row < self.grid.video.len()
    }

    fn retry_failed_gallery_thumbnails(&mut self, failed: Vec<usize>)
        requires
            old(self).parts_wf(),
            old(self)@.gallery_generation < u64::MAX,
            old(self)@.thumb_retry_pass < MAX_GALLERY_RETRY_PASSES,
            failed@ == flagged(old(self)@.grid.failed),
        ensures
            final(self).parts_wf(),
            final(self)@ == old(self)@.retried(),
            old(self).wf() ==> final(self).wf(),
    {
        proof {
            reveal(AppView::retried);
        }
        self.gallery_generation = self.gallery_generation + 1;
        self.gallery_thumb_retry_pass = self.gallery_thumb_retry_pass + 1;
        self.gallery_thumbs_pending = failed.len();
        self.gallery_thumbs_loaded = 0;
        self.gallery_thumbs_failed = 0;
        self.grid.work = failed;
        self.grid.failed = all_clear(self.grid.failed.len());
        self.ask_for(Effect::ClearThumbFailures);
        self.ask_for(Effect::StartThumbs { generation: self.gallery_generation });
    }

    fn finish_gallery_batch(&mut self)
        requires
            old(self).parts_wf(),
            old(self)@.gallery_generation < u64::MAX,
        ensures
            final(self).parts_wf(),
            final(self)@ == old(self)@.batch_finished(),
            old(self).wf() ==> final(self).wf(),
    {
        proof {
            reveal(AppView::batch_finished);
        }
        let failed = flagged_rows(self.grid.failed.as_slice());
        if failed.len() > 0 && self.gallery_thumb_retry_pass < MAX_GALLERY_RETRY_PASSES {
            if self.current_gallery_order().len() > 0 {
                self.retry_failed_gallery_thumbnails(failed);
            }
            self.sync_loading_ui();
            return;
        }
        self.gallery_thumb_retry_pass = 0;
        self.sync_loading_ui();
    }

    fn count_loaded(&mut self, row: usize)
        requires
            old(self).parts_wf(),
            old(self)@.thumbs_loaded + old(self)@.thumbs_failed < usize::MAX,
        ensures
            final(self).parts_wf(),
            final(self)@ == old(self)@.thumb_came(row),
            old(self).wf() ==> final(self).wf(),
    {
        self.gallery_thumbs_loaded = self.gallery_thumbs_loaded + 1;
        self.ask_for(Effect::ShowThumb { row });
    }

    fn count_failed(&mut self, row: usize)
        requires
            old(self).parts_wf(),
            row < old(self)@.grid.video.len(),
            old(self)@.thumbs_loaded + old(self)@.thumbs_failed < usize::MAX,
        ensures
            final(self).parts_wf(),
            final(self)@ == old(self)@.thumb_missed(row),
            old(self).wf() ==> final(self).wf(),
    {
        self.grid.failed.set(row, true);
        self.gallery_thumbs_failed = self.gallery_thumbs_failed + 1;
        self.ask_for(Effect::MarkThumbFailed { row });
    }

    fn count_thumb(&mut self, row: usize, loaded: bool)
        requires
            old(self).parts_wf(),
            row < old(self)@.grid.video.len(),
            old(self)@.thumbs_loaded + old(self)@.thumbs_failed < usize::MAX,
        ensures
            final(self).parts_wf(),
            final(self)@ == old(self)@.thumb_counted(row, loaded),
            final(self)@.gallery_generation == old(self)@.gallery_generation,
            old(self).wf() ==> final(self).wf(),
    {
        proof {
            reveal(AppView::thumb_counted);
        }
        if loaded {
            self.count_loaded(row);
        } else {
            self.count_failed(row);
        }
    }

    /// Takes in that the picture for a row of the grid came (`loaded`), or could not be had. A
    /// picture for an older grid is dropped. Once all have come, rows without a picture are tried
    /// again a few times.
    pub fn apply_gallery_thumb(&mut self, generation: u64, row: usize, loaded: bool)
        requires
            old(self).wf(),
            old(self)@.gallery_generation < u64::MAX,
            old(self)@.thumbs_loaded + old(self)@.thumbs_failed < usize::MAX,
        ensures
            final(self).wf(),
            final(self)@ == old(self)@.thumb_applied(generation, row, loaded),
    {
        if !self.accepts_thumb(generation, row) {
            return;
        }
        self.count_thumb(row, loaded);
        let done = self.gallery_thumbs_loaded + self.gallery_thumbs_failed;
        if done == self.gallery_thumbs_pending {
            self.finish_gallery_batch();
        } else if done % 4 == 0 {
            self.sync_loading_ui();
        }
    }
}

} // verus!
