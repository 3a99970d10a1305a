//! What the grid shows, which pictures are asked for, and what becomes of those that come.

use super::effect::Effect;
use super::gallery::{
    flagged, flagged_rows_are_flagged, near_rows_come_first, nearest_first, paths_stand,
    GalleryReload,
};
use super::screen::{group_told, lemma_same_effects, screen, Notes, Page, Player, Screen, Switches};
use super::showing::{group_parts, is_loading};
use super::state::{AppView, GridView, Mode};
use crate::library::ext::is_video;
use vstd::prelude::*;

verus! {

/// The items that the grid should show: those that play in the mode, in the order in which they do.
pub open spec fn items_due(s: AppView) -> Seq<usize> {
    s.queue_of(s.mode).current_order(s.search_query, s.shuffle_on)
}

/// Whether the grid shows just the items that it should.
pub open spec fn grid_up_to_date(s: AppView) -> bool {
    s.gallery_order.len() > 0 && s.grid.video.len() == s.gallery_order.len() && s.gallery_order
        == items_due(s)
}

#[verifier::rlimit(40)]
pub broadcast proof fn told_grid_shown(s: AppView, before: Screen)
    ensures
        #[trigger] screen(s.grid_shown(), before) == (Screen {
            page: Page { gallery_open: false, ..screen(s, before).page },
            player: if s.mode is All && !s.all_current_is_video {
                screen(s, before).player
            } else {
                Player { loaded: None, runs: false, playing: false, ..screen(s, before).player }
            },
            switches: if s.slideshow_on && s.mode !is Video {
                Switches { slideshow: false, timer: false, ..screen(s, before).switches }
            } else {
                screen(s, before).switches
            },
            ..screen(s, before)
        }),
{
    broadcast use group_told;

    reveal(AppView::grid_shown);
    lemma_same_effects(
        AppView {
            gallery_open: false,
            slideshow_on: s.slideshow_on && !(s.slideshow_on && s.mode != Mode::Video),
            ..s
        },
        s,
        before,
    );
}

pub broadcast proof fn kept_grid_shown(s: AppView)
    ensures
        #[trigger] s.grid_shown() == (AppView {
            gallery_open: false,
            slideshow_on: s.slideshow_on && s.mode is Video,
            effects: s.grid_shown().effects,
            ..s
        }),
{
    reveal(AppView::grid_shown);
}

/// What putting the grid on show does.
pub broadcast group group_grid {
    told_grid_shown,
    kept_grid_shown,
}

/// Going to the grid takes the item off show: what plays stops, and a slideshow ends. The grid is
/// made anew, later, where it has to be in any case or does not show just what it should; from
/// then on a picture is due for each of its items, and none has come.
#[verifier::rlimit(40)]
pub proof fn opening_the_grid(s: AppView, reload: GalleryReload, before: Screen)
    ensures
        ({
            let after = s.grid_opened(reload);
            let w = screen(s, before);
            let anew = reload is Force || !grid_up_to_date(s);
            &&& after == (AppView {
                gallery_open: false,
                slideshow_on: s.slideshow_on && s.mode is Video,
                gallery_order: if anew {
                    items_due(s)
                } else {
                    s.gallery_order
                },
                thumbs_pending: if anew {
                    items_due(s).len() as usize
                } else {
                    s.thumbs_pending
                },
                thumbs_loaded: if anew {
                    0
                } else {
                    s.thumbs_loaded
                },
                thumbs_failed: if anew {
                    0
                } else {
                    s.thumbs_failed
                },
                pending_gallery_reload: anew || s.pending_gallery_reload,
                library_loading: after.library_loading,
                library_loading_message: after.library_loading_message,
                effects: after.effects,
                ..s
            })
            &&& after.library_loading == is_loading(
                AppView { library_loading: s.library_loading, ..after },
            )
            &&& screen(after, before) == (Screen {
                page: Page { gallery_open: false, ..w.page },
                player: if s.mode is All && !s.all_current_is_video {
                    w.player
                } else {
                    Player { loaded: None, runs: false, playing: false, ..w.player }
                },
                switches: if s.slideshow_on && s.mode !is Video {
                    Switches { slideshow: false, timer: false, ..w.switches }
                } else {
                    w.switches
                },
                notes: Notes {
                    loading: after.library_loading,
                    gallery_loading: after.library_loading,
                    adding: None,
                    ..w.notes
                },
                ..w
            })
        }),
{
    broadcast use {group_grid, group_parts};

    reveal(AppView::grid_opened);
    reveal(AppView::reload_put_off);
    reveal(AppView::loading_primed);
    let shown = s.grid_shown();
    let primed = shown.loading_primed();
    lemma_same_effects(primed, shown, before);
    lemma_same_effects(
        AppView { pending_gallery_reload: true, ..primed.loading_synced() },
        primed.loading_synced(),
        before,
    );
}

/// Going back from an item to the grid opens the grid, keeping it where it is up to date; from the
/// grid there is nothing to go back to.
pub proof fn going_back_opens_the_grid(s: AppView)
    ensures
        s.gallery_open ==> s.returned_to_gallery() == s.grid_opened(GalleryReload::IfStale),
        !s.gallery_open ==> s.returned_to_gallery() == s,
{
}

/// Whether a row of the grid is shown to be a video.
pub open spec fn row_plays(s: AppView, item: usize) -> bool {
    s.mode is Video || (s.mode is All && is_video(s.all_queue.items[item as int].path))
}

/// Making the grid anew gives it one row for each item that it should show, in that order: each
/// row knows the path of its item and whether that is a video, and none counts as failed. A
/// picture is asked for once for each row, those near the item on show first. Pictures asked for
/// before are not waited for any longer.
#[verifier::rlimit(40)]
pub proof fn grid_is_made_of_items_due(s: AppView)
    requires
        s.gallery_generation < u64::MAX,
        0 < items_due(s).len() <= usize::MAX,
    ensures
        ({
            let after = s.grid_loaded();
            &&& after == (AppView {
                gallery_order: items_due(s),
                gallery_generation: (s.gallery_generation + 1) as u64,
                grid: after.grid,
                thumbs_pending: items_due(s).len() as usize,
                thumbs_loaded: 0,
                thumbs_failed: 0,
                thumb_retry_pass: 0,
                pending_gallery_append: false,
                effects: s.effects.push(Effect::ResetGrid).push(
                    Effect::StartThumbs { generation: (s.gallery_generation + 1) as u64 },
                ),
                ..s
            })
            &&& after.grid.video.len() == items_due(s).len()
            &&& after.grid.failed.len() == items_due(s).len()
            &&& after.grid.shown.len() == items_due(s).len()
            &&& forall|row: int|
                0 <= row < items_due(s).len() ==> {
                    &&& #[trigger] after.grid.video[row] == row_plays(s, items_due(s)[row])
                    &&& !after.grid.failed[row]
                    &&& after.grid.shown[row] == s.queue_of(
                        s.mode,
                    ).items[items_due(s)[row] as int].path
                }
            &&& after.grid.work.no_duplicates()
            &&& forall|row: usize| #[trigger]
                after.grid.work.contains(row) <==> row < items_due(s).len()
        }),
{
    reveal(AppView::grid_loaded);
    reveal(AppView::grid_filled);
    reveal(AppView::loading_primed);
    near_rows_come_first(
        0,
        items_due(s).len() as int,
        s.loading_primed().thumb_focus() as int,
    );
    let after = s.grid_loaded();
    assert forall|row: int| 0 <= row < items_due(s).len() implies {
        &&& #[trigger] after.grid.video[row] == row_plays(s, items_due(s)[row])
        &&& !after.grid.failed[row]
        &&& after.grid.shown[row] == s.queue_of(s.mode).items[items_due(s)[row] as int].path
    } by {
        assert(s.grid_paths()[row] == s.active().items[s.grid_order()[row] as int].path);
    }
}

/// The row whose picture is asked for first is that of the item on show, and the farther a row is
/// from it the later its picture is asked for.
#[verifier::rlimit(40)]
pub proof fn pictures_near_the_item_come_first(s: AppView, focus: int, a: int, b: int)
    requires
        0 < items_due(s).len() <= usize::MAX,
        0 <= focus < items_due(s).len(),
        s.queue_of(s.mode).now_playing == Some(items_due(s)[focus]),
        forall|k: int| 0 <= k < focus ==> #[trigger] items_due(s)[k] != items_due(s)[focus],
        0 <= a < b < items_due(s).len(),
    ensures
        s.grid_loaded().grid.work[0] == focus,
        ({
            let near = s.grid_loaded().grid.work[a] - focus;
            let far = s.grid_loaded().grid.work[b] - focus;
            (if near < 0 {
                -near
            } else {
                near
            }) <= (if far < 0 {
                -far
            } else {
                far
            })
        }),
{
    reveal(AppView::grid_loaded);
    reveal(AppView::grid_filled);
    reveal(AppView::loading_primed);
    let order = items_due(s);
    order.index_of_first_ensures(order[focus]);
    assert(order.contains(order[focus]));
    let at = order.index_of_first(order[focus]).unwrap();
    if at < focus {
        assert(order[at] != order[focus]);
    }
    assert(s.loading_primed().thumb_focus() == focus);
    let work = nearest_first(0, order.len() as int, focus);
    near_rows_come_first(0, order.len() as int, focus);
    assert(s.grid_loaded().grid.work == work);
    assert(work.contains(focus as usize));
    let i = work.index_of(focus as usize);
    if i > 0 {
        assert(work[0] != work[i]);
    }
}

/// Without an item on show in the grid, pictures are asked for from the first row on.
#[verifier::rlimit(40)]
pub proof fn pictures_begin_with_the_first_row(s: AppView)
    requires
        0 < items_due(s).len() <= usize::MAX,
        s.queue_of(s.mode).now_playing matches Some(item) ==> !items_due(s).contains(item),
    ensures
        forall|k: int|
            0 <= k < items_due(s).len() ==> #[trigger] s.grid_loaded().grid.work[k] == k,
{
    reveal(AppView::grid_loaded);
    reveal(AppView::grid_filled);
    reveal(AppView::loading_primed);
    let order = items_due(s);
    if let Some(item) = s.queue_of(s.mode).now_playing {
        order.index_of_first_ensures(item);
    }
    assert(s.loading_primed().thumb_focus() == 0);
    lemma_nearest_to_first(order.len() as int);
}

proof fn lemma_nearest_to_first(len: int)
    requires
        0 <= len <= usize::MAX,
    ensures
        nearest_first(0, len, 0).len() == len,
        forall|k: int| 0 <= k < len ==> #[trigger] nearest_first(0, len, 0)[k] == k,
    decreases len,
{
    if len > 0 {
        lemma_nearest_to_first(len - 1);
    }
}

/// A grid for which there is no item has no rows and waits for no picture.
pub proof fn grid_without_items_is_empty(s: AppView)
    requires
        items_due(s).len() == 0,
    ensures
        ({
            let after = s.grid_loaded();
            &&& after == (AppView {
                gallery_order: Seq::empty(),
                grid: after.grid,
                thumbs_pending: 0,
                thumbs_loaded: 0,
                thumbs_failed: 0,
                thumb_retry_pass: 0,
                pending_gallery_append: false,
                effects: s.effects.push(Effect::ResetGrid),
                ..s
            })
            &&& after.grid.video.len() == 0
            &&& after.grid.failed.len() == 0
            &&& after.grid.shown.len() == 0
            &&& after.grid.work == s.grid.work
        }),
{
    reveal(AppView::grid_loaded);
    reveal(AppView::grid_emptied);
}

/// A making of the grid that was put off is made up for once, and at once unless pictures are
/// still to come.
#[verifier::rlimit(40)]
pub proof fn putting_off_is_made_up_for(s: AppView)
    ensures
        s.pending_gallery_reload ==> s.pending_reload_run() == (AppView {
            pending_gallery_reload: false,
            ..s
        }).grid_loaded().loading_synced(),
        !s.pending_gallery_reload ==> s.pending_reload_run() == s,
        s.thumbs_loaded + s.thumbs_failed >= s.thumbs_pending ==> s.pending_reload_tried()
            == s.pending_reload_run(),
        s.thumbs_loaded + s.thumbs_failed < s.thumbs_pending ==> s.pending_reload_tried() == s,
        !s.pending_reload_run().pending_gallery_reload,
{
    broadcast use group_parts;

    reveal(AppView::grid_loaded);
    reveal(AppView::grid_emptied);
    reveal(AppView::grid_filled);
    reveal(AppView::loading_primed);
}

/// Whether each row of the grid still shows the item that stands at its place.
pub open spec fn rows_still_right(s: AppView) -> bool {
    s.grid.shown.len() == s.gallery_order.len() && forall|row: int|
        0 <= row < s.gallery_order.len() ==> (#[trigger] s.gallery_order[row]) < s.queue_of(
            s.mode,
        ).items.len() && s.queue_of(s.mode).items[s.gallery_order[row] as int].path
            == s.grid.shown[row]
}

/// Whether all pictures that are due have come or were found not to be had.
pub open spec fn pictures_all_in(s: AppView) -> bool {
    s.thumbs_loaded + s.thumbs_failed >= s.thumbs_pending
}

/// Rows can be added just where the grid is on show with all its pictures in, every row still
/// shows its item, and what it shows is the beginning, and not all, of what it should show.
pub proof fn growing_needs_right_rows(s: AppView)
    ensures
        s.can_append() <==> {
            &&& !s.gallery_open
            &&& pictures_all_in(s)
            &&& rows_still_right(s)
            &&& s.grid.video.len() == s.gallery_order.len()
            &&& 0 < s.gallery_order.len() < items_due(s).len()
            &&& forall|row: int|
                0 <= row < s.gallery_order.len() ==> #[trigger] s.gallery_order[row] == items_due(
                    s,
                )[row]
        },
        s.append_waits() <==> !pictures_all_in(s) && rows_still_right(s) && s.gallery_order.len()
            > 0,
        s.rows_stand() <==> rows_still_right(s),
{
    reveal(paths_stand);
    let n = s.gallery_order.len() as int;
    let items = s.queue_of(s.mode).items;
    if paths_stand(s.grid.shown, s.gallery_order, items) {
        assert forall|row: int| 0 <= row < n implies (#[trigger] s.gallery_order[row])
            < items.len() && items[s.gallery_order[row] as int].path == s.grid.shown[row] by {}
    }
    if n < items_due(s).len() {
        let start = items_due(s).take(n);
        if forall|row: int|
            0 <= row < n ==> #[trigger] s.gallery_order[row] == items_due(s)[row] {
            assert(start =~= s.gallery_order);
        }
        if start == s.gallery_order {
            assert forall|row: int| 0 <= row < n implies #[trigger] s.gallery_order[row]
                == items_due(s)[row] by {
                assert(start[row] == s.gallery_order[row]);
            }
        }
    }
}

/// Adding rows keeps those that are there, pictures and all, and gives the new items rows behind
/// them. Pictures are asked for once for each of the new rows, and for no other.
pub proof fn grid_grows_at_its_end(s: AppView)
    requires
        s.can_append(),
        s.counts_fit(),
        s.gallery_generation < u64::MAX,
        items_due(s).len() <= usize::MAX,
        s.thumbs_pending + items_due(s).len() <= usize::MAX,
    ensures
        ({
            let after = s.appended();
            let from = s.gallery_order.len() as int;
            &&& after == (AppView {
                gallery_order: items_due(s),
                gallery_generation: (s.gallery_generation + 1) as u64,
                grid: after.grid,
                thumbs_pending: (s.thumbs_pending + items_due(s).len() - from) as usize,
                thumb_retry_pass: 0,
                effects: s.effects.push(Effect::ExtendGrid { from: from as usize }).push(
                    Effect::StartThumbs { generation: (s.gallery_generation + 1) as u64 },
                ),
                ..s
            })
            &&& after.grid.video.len() == items_due(s).len()
            &&& after.grid.failed.len() == items_due(s).len()
            &&& after.grid.shown.len() == items_due(s).len()
            &&& forall|row: int|
                0 <= row < items_due(s).len() ==> {
                    &&& #[trigger] after.grid.video[row] == if row < from {
                        s.grid.video[row]
                    } else {
                        row_plays(s, items_due(s)[row])
                    }
                    &&& after.grid.failed[row] == (row < from && s.grid.failed[row])
                    &&& after.grid.shown[row] == s.queue_of(
                        s.mode,
                    ).items[items_due(s)[row] as int].path
                }
            &&& after.grid.work.no_duplicates()
            &&& forall|row: usize| #[trigger]
                after.grid.work.contains(row) <==> from <= row < items_due(s).len()
        }),
{
    reveal(AppView::appended);
    growing_needs_right_rows(s);
    let from = s.gallery_order.len() as int;
    let total = items_due(s).len() as int;
    let after = s.appended();
    let grown = AppView {
        gallery_generation: (s.gallery_generation + 1) as u64,
        gallery_order: s.grid_order(),
        thumb_retry_pass: 0,
        thumbs_pending: (s.thumbs_pending + (total - from)) as usize,
        grid: GridView {
            video: s.grid.video + s.grid_flags().skip(from),
            failed: s.grid.failed + Seq::new((total - from) as nat, |k: int| false),
            shown: s.grid_paths(),
            ..s.grid
        },
        ..s
    };
    near_rows_come_first(from, total, grown.thumb_focus() as int);
    assert(after.grid.work == nearest_first(from, total, grown.thumb_focus() as int));
    assert forall|row: int| 0 <= row < total implies {
        &&& #[trigger] after.grid.video[row] == if row < from {
            s.grid.video[row]
        } else {
            row_plays(s, items_due(s)[row])
        }
        &&& after.grid.failed[row] == (row < from && s.grid.failed[row])
        &&& after.grid.shown[row] == s.queue_of(s.mode).items[items_due(s)[row] as int].path
    } by {
        assert(s.grid_paths()[row] == s.active().items[s.grid_order()[row] as int].path);
        if row >= from {
            assert(s.grid_flags().skip(from)[row - from] == s.grid_flags()[row]);
        }
    }
}

/// Items that were added make the grid grow where it can, wait where pictures for rows that are
/// still right have to come first, and have it made anew otherwise.
pub proof fn added_items_reach_the_grid(s: AppView)
    ensures
        s.can_append() ==> s.grid_extended() == s.appended(),
        !pictures_all_in(s) && rows_still_right(s) && s.gallery_order.len() > 0
            ==> s.grid_extended() == (AppView { pending_gallery_append: true, ..s }),
        !s.can_append() && (pictures_all_in(s) || !rows_still_right(s) || s.gallery_order.len()
            == 0) ==> s.grid_extended() == s.grid_opened(GalleryReload::Force),
{
    reveal(AppView::grid_extended);
    growing_needs_right_rows(s);
}

/// Items that wait for pictures go on waiting while those are to come. Then the grid grows where
/// it can; where it cannot and is on show without being right, it is made anew.
pub proof fn waiting_items_reach_the_grid(s: AppView)
    ensures
        ({
            let settled = AppView { pending_gallery_append: false, ..s };
            let after = s.pending_append_tried();
            &&& !s.pending_gallery_append || !pictures_all_in(s) ==> after == s
            &&& s.pending_gallery_append && pictures_all_in(s) ==> {
                &&& settled.can_append() ==> after == settled.appended().loading_synced()
                &&& !settled.can_append() && !s.gallery_open && !(rows_still_right(s)
                    && grid_up_to_date(s)) ==> after == settled.grid_opened(GalleryReload::Force)
                &&& s.gallery_open || (rows_still_right(s) && grid_up_to_date(s)) ==> after
                    == settled
            }
        }),
{
    growing_needs_right_rows(s);
    growing_needs_right_rows(AppView { pending_gallery_append: false, ..s });
}

/// What is to be done for rows of the grid: for each of them that there is, its row, the path of
/// its item and whether that is a video, in the order of the rows.
pub proof fn jobs_tell_rows_and_paths(s: AppView, rows: Seq<usize>)
    ensures
        s.thumb_jobs_of(rows) == rows.filter(
            |row: usize| row < items_due(s).len(),
        ).map_values(
            |row: usize|
                (
                    row,
                    s.queue_of(s.mode).items[items_due(s)[row as int] as int].path,
                    row_plays(s, items_due(s)[row as int]),
                ),
        ),
    decreases rows.len(),
{
    reveal(Seq::filter);
    let there = |row: usize| row < items_due(s).len();
    let job = |row: usize|
        (
            row,
            s.queue_of(s.mode).items[items_due(s)[row as int] as int].path,
            row_plays(s, items_due(s)[row as int]),
        );
    if rows.len() > 0 {
        jobs_tell_rows_and_paths(s, rows.drop_last());
        let rest = rows.drop_last().filter(there);
        let row = rows.last();
        if there(row) {
            assert(s.grid_paths()[row as int] == s.active().items[s.grid_order()[row as int]
                as int].path);
            assert(rest.push(row).map_values(job) =~= rest.map_values(job).push(job(row)));
        }
    } else {
        assert(s.thumb_jobs_of(rows) =~= rows.filter(there).map_values(job));
    }
}

/// The flagged rows stand in their order, each of them once.
pub proof fn flagged_rows_are_in_order(flags: Seq<bool>)
    requires
        flags.len() <= usize::MAX,
    ensures
        forall|row: usize| #[trigger]
            flagged(flags).contains(row) <==> row < flags.len() && flags[row as int],
        forall|a: int, b: int|
            0 <= a < b < flagged(flags).len() ==> #[trigger] flagged(flags)[a]
                < #[trigger] flagged(flags)[b],
        forall|a: int| 0 <= a < flagged(flags).len() ==> #[trigger] flagged(flags)[a] < flags.len(),
    decreases flags.len(),
{
    flagged_rows_are_flagged(flags);
    if flags.len() > 0 {
        let init = flags.drop_last();
        let rest = flagged(init);
        flagged_rows_are_in_order(init);
        assert forall|a: int| 0 <= a < rest.len() implies #[trigger] flagged(flags)[a]
            == rest[a] && rest[a] < init.len() by {}
    }
}

/// A picture for the grid as it is now is counted: as one that came, and shown in its row, or as
/// one that could not be had, and its row marked. Any other picture changes nothing.
pub proof fn pictures_are_counted(s: AppView, generation: u64, row: usize, loaded: bool)
    requires
        s.counts_fit(),
        s.thumbs_loaded + s.thumbs_failed < usize::MAX,
    ensures
        generation != s.gallery_generation || row >= s.grid.video.len() ==> s.thumb_applied(
            generation,
            row,
            loaded,
        ) == s,
        generation == s.gallery_generation && row < s.grid.video.len() ==> {
            let counted = s.thumb_counted(row, loaded);
            let done = s.thumbs_loaded + s.thumbs_failed + 1;
            &&& loaded ==> counted == (AppView {
                thumbs_loaded: (s.thumbs_loaded + 1) as usize,
                effects: s.effects.push(Effect::ShowThumb { row }),
                ..s
            })
            &&& !loaded ==> {
                &&& counted == (AppView {
                    thumbs_failed: (s.thumbs_failed + 1) as usize,
                    grid: counted.grid,
                    effects: s.effects.push(Effect::MarkThumbFailed { row }),
                    ..s
                })
                &&& counted.grid == (GridView { failed: counted.grid.failed, ..s.grid })
                &&& counted.grid.failed.len() == s.grid.failed.len()
                &&& forall|k: int|
                    0 <= k < s.grid.failed.len() ==> #[trigger] counted.grid.failed[k] == (k == row
                        || s.grid.failed[k])
            }
            &&& s.thumb_applied(generation, row, loaded) == if done == s.thumbs_pending {
                counted.batch_finished()
            } else if done % 4 == 0 {
                counted.loading_synced()
            } else {
                counted
            }
        },
{
    reveal(AppView::thumb_counted);
}

/// Once all pictures have come, the rows without one are tried again, up to three times: they are
/// counted anew, none of them as failed, and pictures are asked for from each of them, in their
/// order, and from no other row. After that the grid is left as it is.
pub proof fn failed_rows_are_tried_again(s: AppView)
    requires
        s.gallery_generation < u64::MAX,
        s.grid.failed.len() <= usize::MAX,
    ensures
        ({
            let after = s.batch_finished();
            let failed = exists|row: int| 0 <= row < s.grid.failed.len() && s.grid.failed[row];
            &&& failed && s.thumb_retry_pass < 3 && items_due(s).len() > 0 ==> {
                &&& after == s.retried().loading_synced()
                &&& s.retried() == (AppView {
                    gallery_generation: (s.gallery_generation + 1) as u64,
                    thumb_retry_pass: (s.thumb_retry_pass + 1) as u8,
                    thumbs_pending: s.retried().grid.work.len() as usize,
                    thumbs_loaded: 0,
                    thumbs_failed: 0,
                    grid: s.retried().grid,
                    effects: s.effects.push(Effect::ClearThumbFailures).push(
                        Effect::StartThumbs { generation: (s.gallery_generation + 1) as u64 },
                    ),
                    ..s
                })
                &&& s.retried().grid == (GridView {
                    work: s.retried().grid.work,
                    failed: s.retried().grid.failed,
                    ..s.grid
                })
                &&& s.retried().grid.failed.len() == s.grid.failed.len()
                &&& forall|row: int|
                    0 <= row < s.grid.failed.len() ==> !#[trigger] s.retried().grid.failed[row]
                &&& forall|row: usize| #[trigger]
                    s.retried().grid.work.contains(row) <==> row < s.grid.failed.len()
                        && s.grid.failed[row as int]
                &&& forall|a: int, b: int|
                    0 <= a < b < s.retried().grid.work.len() ==> #[trigger] s.retried().grid.work[a]
                        < #[trigger] s.retried().grid.work[b]
            }
            &&& failed && s.thumb_retry_pass < 3 && items_due(s).len() == 0 ==> after
                == s.loading_synced()
            &&& !failed || s.thumb_retry_pass >= 3 ==> after == (AppView {
                thumb_retry_pass: 0,
                ..s
            }).loading_synced()
        }),
{
    reveal(AppView::batch_finished);
    reveal(AppView::retried);
    let rows = flagged(s.grid.failed);
    flagged_rows_are_in_order(s.grid.failed);
    if rows.len() > 0 {
        assert(rows.contains(rows[0]));
        assert(s.grid.failed[rows[0] as int]);
    }
    if exists|row: int| 0 <= row < s.grid.failed.len() && s.grid.failed[row] {
        let row = choose|row: int| 0 <= row < s.grid.failed.len() && s.grid.failed[row];
        assert(rows.contains(row as usize));
    }
}

/// What the grid is made of: for each item that it should show, its path and whether it is a
/// video.
pub proof fn grid_is_made_of_paths_and_kinds(s: AppView)
    ensures
        s.grid_order() == items_due(s),
        s.grid_paths().len() == items_due(s).len(),
        s.grid_flags().len() == items_due(s).len(),
        forall|row: int|
            0 <= row < items_due(s).len() ==> #[trigger] s.grid_paths()[row] == s.queue_of(
                s.mode,
            ).items[items_due(s)[row] as int].path,
        forall|row: int|
            0 <= row < items_due(s).len() ==> #[trigger] s.grid_flags()[row] == row_plays(
                s,
                items_due(s)[row],
            ),
        s.grid_is_current() <==> grid_up_to_date(s),
        s.needs_reload(GalleryReload::Force),
        s.needs_reload(GalleryReload::IfStale) <==> !grid_up_to_date(s),
        s.gallery_busy() <==> !pictures_all_in(s),
{
    assert forall|row: int| 0 <= row < items_due(s).len() implies #[trigger] s.grid_flags()[row]
        == row_plays(s, items_due(s)[row]) by {
        assert(s.grid_paths()[row] == s.active().items[s.grid_order()[row] as int].path);
    }
}

/// The row in focus is the first one of the item on show, and the first of all where no row is.
pub proof fn focus_is_the_row_of_the_item(s: AppView, row: int)
    ensures
        0 <= row < s.gallery_order.len() <= usize::MAX && s.queue_of(s.mode).now_playing == Some(
            s.gallery_order[row],
        ) && (forall|k: int|
            0 <= k < row ==> #[trigger] s.gallery_order[k] != s.gallery_order[row])
            ==> s.thumb_focus() == row,
        (s.queue_of(s.mode).now_playing matches Some(item) ==> !s.gallery_order.contains(item))
            ==> s.thumb_focus() == 0,
{
    if let Some(item) = s.queue_of(s.mode).now_playing {
        s.gallery_order.index_of_first_ensures(item);
        if 0 <= row < s.gallery_order.len() && item == s.gallery_order[row] {
            assert(s.gallery_order.contains(s.gallery_order[row]));
            let at = s.gallery_order.index_of_first(item).unwrap();
            assert(s.gallery_order[at] == item);
        }
    }
}

/// Of rows that are added, too, those near the item on show have their pictures asked for first.
pub proof fn added_pictures_near_the_item_come_first(s: AppView, focus: int, a: int, b: int)
    requires
        s.can_append(),
        items_due(s).len() <= usize::MAX,
        0 <= focus < items_due(s).len(),
        s.queue_of(s.mode).now_playing == Some(items_due(s)[focus]),
        forall|k: int| 0 <= k < focus ==> #[trigger] items_due(s)[k] != items_due(s)[focus],
        0 <= a < b < items_due(s).len() - s.gallery_order.len(),
    ensures
        ({
            let near = s.appended().grid.work[a] - focus;
            let far = s.appended().grid.work[b] - focus;
            (if near < 0 {
                -near
            } else {
                near
            }) <= (if far < 0 {
                -far
            } else {
                far
            })
        }),
{
    reveal(AppView::appended);
    let order = items_due(s);
    let from = s.gallery_order.len() as int;
    order.index_of_first_ensures(order[focus]);
    assert(order.contains(order[focus]));
    let at = order.index_of_first(order[focus]).unwrap();
    if at < focus {
        assert(order[at] != order[focus]);
    }
    let work = nearest_first(from, order.len() as int, focus);
    near_rows_come_first(from, order.len() as int, focus);
    assert(s.appended().grid.work == work);
}

} // verus!
