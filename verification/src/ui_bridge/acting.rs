//! What buttons, clicks, the end of a video and the slideshow lead to: which item is on show
//! then, and what the player and the switches do.

use super::effect::Effect;
use super::screen::{group_told, lemma_same_effects, screen, Notes, Player, Screen, Switches};
use super::showing::{
    nothing_else_is_shown, played_video_is_on_screen, presented_item_is_on_screen, rows_begun,
    shown_image_is_on_screen, group_parts,
};
use super::state::{AppView, Mode};
use crate::library::ext::is_video;
use crate::playlist::behaviour::{steps_from_outside_the_order, steps_go_to_neighbours};
use crate::playlist::laws::order_names_shown_items;
use crate::playlist::model::QueueView;
use crate::text::lowercase;
use vstd::prelude::*;

verus! {

/// Whether an item of the mode that the window is in is played rather than looked at.
pub open spec fn plays(s: AppView, index: usize) -> bool {
    s.mode is Video || (s.mode is All && is_video(s.all_queue.items[index as int].path))
}

/// Whether an item of the mode that the window is in is on show: it has the window to itself, and
/// is in the player, which runs, or in the viewer, with the player silent.
#[verifier::opaque]
pub open spec fn on_show(s: AppView, w: Screen, index: usize) -> bool {
    &&& s.queue_of(s.mode).now_playing == Some(index)
    &&& s.gallery_open
    &&& w.page.gallery_open
    &&& s.mode is All ==> s.all_current_is_video == plays(s, index) && w.page.current_is_video
        == plays(s, index)
    &&& plays(s, index) ==> w.player.loaded == Some((s.mode, index)) && w.player.runs
        && w.player.playing && w.notes.preview
    &&& !plays(s, index) ==> w.viewer.picture == Some((s.mode, index)) && w.viewer.animated
        && !w.viewer.zoomed && !w.player.runs && !w.player.playing
    &&& rows_begun(s)
}

/// Whether two states differ in nothing but what is on show in the mode that the window is in.
#[verifier::opaque]
pub open spec fn only_shown_differs(a: AppView, b: AppView) -> bool {
    &&& b == (AppView {
        queue: if a.mode is Video {
            QueueView { now_playing: b.queue.now_playing, ..a.queue }
        } else {
            a.queue
        },
        image_queue: if a.mode is Image {
            QueueView { now_playing: b.image_queue.now_playing, ..a.image_queue }
        } else {
            a.image_queue
        },
        all_queue: if a.mode is All {
            QueueView { now_playing: b.all_queue.now_playing, ..a.all_queue }
        } else {
            a.all_queue
        },
        all_current_is_video: b.all_current_is_video,
        gallery_open: b.gallery_open,
        rebuild: b.rebuild,
        effects: b.effects,
        ..a
    })
}

/// Asking for an item of the queue of the mode puts that item on show, and changes nothing else.
#[verifier::rlimit(40)]
pub proof fn item_asked_for_is_shown(s: AppView, index: usize, before: Screen)
    requires
        index < s.queue_of(s.mode).items.len(),
    ensures
        on_show(s.shown(index), screen(s.shown(index), before), index),
        only_shown_differs(s, s.shown(index)),
        screen(s.shown(index), before).switches == screen(s, before).switches,
        screen(s.shown(index), before).notes.planned == screen(s, before).notes.planned,
        s.shown(index).mode == s.mode,
{
    reveal(on_show);
    reveal(only_shown_differs);
    match s.mode {
        Mode::Video => played_video_is_on_screen(s, index, before),
        Mode::Image => shown_image_is_on_screen(s, index, before),
        Mode::All => presented_item_is_on_screen(s, index, before),
    }
}

proof fn lemma_planned(s: AppView, index: usize, before: Screen)
    ensures
        s.mode !is Image && index < s.queue_of(s.mode).items.len() && is_video(
            s.queue_of(s.mode).items[index as int].path,
        ) ==> screen(s.sprite_scheduled(index), before) == (Screen {
            notes: Notes { planned: Some(index), ..screen(s, before).notes },
            ..screen(s, before)
        }) && s.sprite_scheduled(index) == (AppView {
            effects: s.sprite_scheduled(index).effects,
            ..s
        }),
        !(s.mode !is Image && index < s.queue_of(s.mode).items.len() && is_video(
            s.queue_of(s.mode).items[index as int].path,
        )) ==> s.sprite_scheduled(index) == s,
{
    broadcast use group_told;

}

/// The preview of an item is planned exactly if the item is a video, in a mode that plays videos.
/// Nothing else changes.
pub proof fn previews_are_planned_for_videos(s: AppView, index: usize, before: Screen)
    ensures
        s.mode !is Image && index < s.queue_of(s.mode).items.len() && is_video(
            s.queue_of(s.mode).items[index as int].path,
        ) ==> screen(s.sprite_scheduled(index), before) == (Screen {
            notes: Notes { planned: Some(index), ..screen(s, before).notes },
            ..screen(s, before)
        }) && s.sprite_scheduled(index) == (AppView {
            effects: s.sprite_scheduled(index).effects,
            ..s
        }),
        s.mode is Image || index >= s.queue_of(s.mode).items.len() || !is_video(
            s.queue_of(s.mode).items[index as int].path,
        ) ==> s.sprite_scheduled(index) == s,
{
    lemma_planned(s, index, before);
}

/// A click on an item of the list puts that item on show, and plans its preview if it is a video.
#[verifier::rlimit(40)]
pub proof fn click_shows_the_item(s: AppView, index: usize, before: Screen)
    requires
        index < s.queue_of(s.mode).items.len(),
    ensures
        ({
            let after = s.item_clicked(index);
            let w = screen(after, before);
            &&& on_show(after, w, index)
            &&& only_shown_differs(s, after)
            &&& w.switches == screen(s, before).switches
            &&& w.notes.planned == if s.mode !is Image && is_video(
                s.queue_of(s.mode).items[index as int].path,
            ) {
                Some(index)
            } else {
                screen(s, before).notes.planned
            }
        }),
{
    item_asked_for_is_shown(s, index, before);
    let shown = s.shown(index);
    lemma_planned(shown, index, before);
    reveal(on_show);
    reveal(only_shown_differs);
}

/// A click on a picture of the grid does what a click on the item behind its row does; a click
/// beyond the rows does nothing.
pub proof fn grid_click_shows_the_row(s: AppView, row: usize)
    ensures
        forall|item: usize|
            row < s.gallery_order.len() && #[trigger] s.gallery_order[row as int] == item
                ==> s.gallery_item_clicked(row) == s.item_clicked(item),
        row >= s.gallery_order.len() ==> s.gallery_item_clicked(row) == s,
{
}

/// Where a step from place `p` of an order of play leads: to the next place, or the one before;
/// at the ends to the other end if looping, and otherwise nowhere.
pub open spec fn step_to(p: int, len: int, forward: bool, loop_on: bool) -> Option<int> {
    if forward {
        if p + 1 < len {
            Some(p + 1)
        } else if loop_on {
            Some(0int)
        } else {
            None
        }
    } else {
        if p > 0 {
            Some(p - 1)
        } else if loop_on && len > 1 {
            Some(len - 1)
        } else {
            None
        }
    }
}

proof fn lemma_neighbour(s: AppView, mode: Mode, delta: i32, p: int)
    requires
        s.queue_of(mode).wf(),
        0 <= p < s.queue_of(mode).current_order(s.search_query, s.shuffle_on).len(),
        s.queue_of(mode).now_playing == Some(
            s.queue_of(mode).current_order(s.search_query, s.shuffle_on)[p],
        ),
    ensures
        ({
            let order = s.queue_of(mode).current_order(s.search_query, s.shuffle_on);
            &&& s.neighbour(mode, delta) == match step_to(
                p,
                order.len() as int,
                delta >= 0,
                s.loop_on,
            ) {
                Some(t) => Some(order[t]),
                None => None,
            }
            &&& forall|k: int|
                0 <= k < order.len() ==> #[trigger] order[k] < s.queue_of(mode).items.len()
        }),
{
    let queue = s.queue_of(mode);
    let order = queue.current_order(s.search_query, s.shuffle_on);
    steps_go_to_neighbours(queue, s.search_query, s.shuffle_on, s.loop_on, p);
    order_names_shown_items(queue, s.search_query, s.shuffle_on);
    assert forall|k: int| 0 <= k < order.len() implies #[trigger] order[k] < queue.items.len() by {
        assert(order.contains(order[k]));
    }
}

/// The buttons for the next and the previous item, in the modes that play videos: the neighbour
/// of the item on show in the order of play is on show then, with its preview planned if it is a
/// video. At the ends looping decides whether there is one. Without one nothing changes.
pub proof fn step_shows_the_neighbour(s: AppView, delta: i32, p: int, before: Screen)
    requires
        s.mode is Video || s.mode is All,
        s.queue_of(s.mode).wf(),
        0 <= p < s.queue_of(s.mode).current_order(s.search_query, s.shuffle_on).len(),
        s.queue_of(s.mode).now_playing == Some(
            s.queue_of(s.mode).current_order(s.search_query, s.shuffle_on)[p],
        ),
    ensures
        ({
            let order = s.queue_of(s.mode).current_order(s.search_query, s.shuffle_on);
            let after = s.stepped(delta);
            match step_to(p, order.len() as int, delta >= 0, s.loop_on) {
                Some(t) => {
                    &&& on_show(after, screen(after, before), order[t])
                    &&& only_shown_differs(s, after)
                    &&& screen(after, before).switches == screen(s, before).switches
                    &&& is_video(s.queue_of(s.mode).items[order[t] as int].path) ==> screen(
                        after,
                        before,
                    ).notes.planned == Some(order[t])
                },
                None => after == s,
            }
        }),
{
    let order = s.queue_of(s.mode).current_order(s.search_query, s.shuffle_on);
    lemma_neighbour(s, s.mode, delta, p);
    if let Some(t) = step_to(p, order.len() as int, delta >= 0, s.loop_on) {
        click_shows_the_item(s, order[t], before);
    }
}

/// Going on, or back, among images and among all media without the buttons for playing does the
/// same, but plans no preview.
pub proof fn navigating_shows_the_neighbour(s: AppView, delta: i32, p: int, before: Screen)
    requires
        s.mode is Image || s.mode is All,
        s.queue_of(s.mode).wf(),
        0 <= p < s.queue_of(s.mode).current_order(s.search_query, s.shuffle_on).len(),
        s.queue_of(s.mode).now_playing == Some(
            s.queue_of(s.mode).current_order(s.search_query, s.shuffle_on)[p],
        ),
    ensures
        ({
            let order = s.queue_of(s.mode).current_order(s.search_query, s.shuffle_on);
            let after = if s.mode is Image {
                s.image_navigated(delta)
            } else {
                s.all_navigated(delta)
            };
            match step_to(p, order.len() as int, delta >= 0, s.loop_on) {
                Some(t) => {
                    &&& on_show(after, screen(after, before), order[t])
                    &&& only_shown_differs(s, after)
                    &&& screen(after, before).switches == screen(s, before).switches
                    &&& screen(after, before).notes.planned == screen(s, before).notes.planned
                },
                None => after == s,
            }
        }),
{
    let order = s.queue_of(s.mode).current_order(s.search_query, s.shuffle_on);
    lemma_neighbour(s, s.mode, delta, p);
    if let Some(t) = step_to(p, order.len() as int, delta >= 0, s.loop_on) {
        item_asked_for_is_shown(s, order[t], before);
    }
}

/// With nothing of the order of play on show, the button for the next item begins with the first
/// one, and the button for the previous one does nothing unless looping.
pub proof fn step_from_nowhere(s: AppView, before: Screen)
    requires
        s.mode is Video || s.mode is All,
        s.queue_of(s.mode).wf(),
        s.queue_of(s.mode).current_order(s.search_query, s.shuffle_on).len() >= 2,
        s.queue_of(s.mode).now_playing is None,
    ensures
        ({
            let order = s.queue_of(s.mode).current_order(s.search_query, s.shuffle_on);
            &&& on_show(s.stepped(1), screen(s.stepped(1), before), order[0])
            &&& !s.loop_on ==> s.stepped(-1i32) == s
        }),
{
    let queue = s.queue_of(s.mode);
    let order = queue.current_order(s.search_query, s.shuffle_on);
    steps_from_outside_the_order(queue, s.search_query, s.shuffle_on, s.loop_on);
    order_names_shown_items(queue, s.search_query, s.shuffle_on);
    assert(order.contains(order[0]));
    click_shows_the_item(s, order[0], before);
}

/// When a video came to its end the next item is on show, as after the button for it. What was no
/// video on show has no end: nothing changes then, nor where there is no next item.
#[verifier::rlimit(40)]
pub proof fn end_of_video_leads_on(s: AppView, p: int, before: Screen)
    requires
        s.queue_of(s.mode).wf(),
        0 <= p < s.queue_of(s.mode).current_order(s.search_query, s.shuffle_on).len(),
        s.queue_of(s.mode).now_playing == Some(
            s.queue_of(s.mode).current_order(s.search_query, s.shuffle_on)[p],
        ),
    ensures
        ({
            let order = s.queue_of(s.mode).current_order(s.search_query, s.shuffle_on);
            let after = s.video_ended();
            let w = screen(after, before);
            &&& s.mode is Image || (s.mode is All && !s.all_current_is_video) ==> after == s
            &&& s.mode is Video || (s.mode is All && s.all_current_is_video) ==> match step_to(
                p,
                order.len() as int,
                true,
                s.loop_on,
            ) {
                Some(t) => {
                    let video = is_video(s.queue_of(s.mode).items[order[t] as int].path);
                    &&& on_show(after, w, order[t])
                    &&& only_shown_differs(s, after)
                    &&& video ==> w.notes.planned == Some(order[t])
                    &&& w.switches == (Switches {
                        timer: screen(s, before).switches.timer || (s.mode is All && !video
                            && s.slideshow_on),
                        ..screen(s, before).switches
                    })
                },
                None => after == s,
            }
        }),
{
    broadcast use group_told;

    let order = s.queue_of(s.mode).current_order(s.search_query, s.shuffle_on);
    lemma_neighbour(s, s.mode, 1, p);
    if s.mode is Video || (s.mode is All && s.all_current_is_video) {
        if let Some(t) = step_to(p, order.len() as int, true, s.loop_on) {
            item_asked_for_is_shown(s, order[t], before);
            let shown = s.shown(order[t]);
            lemma_planned(shown, order[t], before);
            reveal(on_show);
            reveal(only_shown_differs);
        }
    }
}

/// What follows when a video came to its end is told as it happens: the item that plays next if
/// it is a video, and that the timer starts over if an image comes up while the slideshow is on.
#[verifier::rlimit(40)]
pub proof fn end_of_video_is_told(s: AppView, p: int, before: Screen)
    requires
        s.queue_of(s.mode).wf(),
        0 <= p < s.queue_of(s.mode).current_order(s.search_query, s.shuffle_on).len(),
        s.queue_of(s.mode).now_playing == Some(
            s.queue_of(s.mode).current_order(s.search_query, s.shuffle_on)[p],
        ),
    ensures
        ({
            let order = s.queue_of(s.mode).current_order(s.search_query, s.shuffle_on);
            let outcome = s.eof_outcome();
            &&& s.mode is Image || (s.mode is All && !s.all_current_is_video)
                ==> outcome.video_index is None && !outcome.restart_slideshow_timer
            &&& s.mode is Video || (s.mode is All && s.all_current_is_video) ==> match step_to(
                p,
                order.len() as int,
                true,
                s.loop_on,
            ) {
                Some(t) => {
                    let plays = s.mode is Video || is_video(
                        s.all_queue.items[order[t] as int].path,
                    );
                    &&& outcome.video_index == if plays {
                        Some(order[t])
                    } else {
                        None
                    }
                    &&& outcome.restart_slideshow_timer == (!plays && s.slideshow_on)
                },
                None => outcome.video_index is None && !outcome.restart_slideshow_timer,
            }
        }),
{
    let order = s.queue_of(s.mode).current_order(s.search_query, s.shuffle_on);
    lemma_neighbour(s, s.mode, 1, p);
    if s.mode is All && s.all_current_is_video {
        if let Some(t) = step_to(p, order.len() as int, true, s.loop_on) {
            item_asked_for_is_shown(s, order[t], before);
            reveal(on_show);
            reveal(only_shown_differs);
        }
    }
}

/// Once the player is ready, the first video is played where none is on show and there is one.
pub proof fn ready_player_plays_first_video(s: AppView, before: Screen)
    ensures
        s.queue.now_playing is Some || s.queue.items.len() == 0 ==> s.player_ready() == s,
        s.mode is Video && s.queue.now_playing is None && s.queue.items.len() > 0 ==> on_show(
            s.player_ready(),
            screen(s.player_ready(), before),
            0,
        ) && only_shown_differs(s, s.player_ready()),
        s.mode !is Video && s.queue.now_playing is None && s.queue.items.len() > 0
            ==> s.player_ready() == s.sprite_scheduled(0),
{
    nothing_else_is_shown(s, 0);
    if s.mode is Video && s.queue.items.len() > 0 {
        click_shows_the_item(s, 0, before);
    }
}

/// The slideshow's button does nothing in the mode for videos. Elsewhere it turns the slideshow on
/// or off, and shows that. Turned on, it puts the first item on show where none is.
#[verifier::rlimit(40)]
pub proof fn slideshow_button_switches(s: AppView, before: Screen)
    ensures
        s.mode is Video ==> s.slideshow_toggled() == s,
        s.mode !is Video ==> {
            let after = s.slideshow_toggled();
            let w = screen(after, before);
            &&& after.slideshow_on == !s.slideshow_on
            &&& w.switches == (Switches {
                slideshow: !s.slideshow_on,
                ..screen(s, before).switches
            })
            &&& !s.slideshow_on && s.queue_of(s.mode).now_playing is None && s.queue_of(
                s.mode,
            ).items.len() > 0 ==> on_show(after, w, 0) && only_shown_differs(
                AppView { slideshow_on: true, ..s },
                after,
            )
            &&& s.slideshow_on || s.queue_of(s.mode).now_playing is Some || s.queue_of(
                s.mode,
            ).items.len() == 0 ==> after == (AppView {
                slideshow_on: !s.slideshow_on,
                effects: after.effects,
                ..s
            }) && w == (Screen { switches: w.switches, ..screen(s, before) })
        },
{
    broadcast use group_told;

    if s.mode !is Video {
        let flipped = AppView { slideshow_on: !s.slideshow_on, ..s };
        let switched = flipped.with(Effect::SetSlideshowOn(!s.slideshow_on));
        lemma_same_effects(flipped, s, before);
        if s.queue_of(s.mode).items.len() > 0 {
            item_asked_for_is_shown(switched, 0, before);
            reveal(only_shown_differs);
        }
    }
}

/// The slideshow's timer runs just while the slideshow is on, and among all media just while an
/// image has the window to itself.
pub proof fn timer_runs_for_images(s: AppView, before: Screen)
    ensures
        screen(s.timer_set(), before) == (Screen {
            switches: Switches {
                timer: s.slideshow_on && (s.mode is All ==> s.gallery_open
                    && !s.all_current_is_video),
                ..screen(s, before).switches
            },
            ..screen(s, before)
        }),
        s.timer_set() == (AppView { effects: s.timer_set().effects, ..s }),
{
    broadcast use group_told;

}

/// When the slideshow's timer goes off, the next item is on show. A video among all media stops
/// the timer. Where there is no next item the slideshow ends, and what is on show stays.
#[verifier::rlimit(40)]
pub proof fn slideshow_goes_on(s: AppView, p: int, before: Screen)
    requires
        s.mode is Image || s.mode is All,
        s.queue_of(s.mode).wf(),
        0 <= p < s.queue_of(s.mode).current_order(s.search_query, s.shuffle_on).len(),
        s.queue_of(s.mode).now_playing == Some(
            s.queue_of(s.mode).current_order(s.search_query, s.shuffle_on)[p],
        ),
    ensures
        !s.slideshow_on ==> s.slideshow_ticked() == s,
        s.slideshow_on ==> {
            let order = s.queue_of(s.mode).current_order(s.search_query, s.shuffle_on);
            let after = s.slideshow_ticked();
            let w = screen(after, before);
            match step_to(p, order.len() as int, true, s.loop_on) {
                Some(t) => {
                    let video = s.mode is All && is_video(s.all_queue.items[order[t] as int].path);
                    &&& on_show(after, w, order[t])
                    &&& only_shown_differs(s, after)
                    &&& w.switches == (Switches {
                        timer: screen(s, before).switches.timer && !video,
                        ..screen(s, before).switches
                    })
                },
                None => {
                    &&& after == (AppView { slideshow_on: false, effects: after.effects, ..s })
                    &&& w == (Screen {
                        switches: Switches {
                            slideshow: false,
                            timer: false,
                            ..screen(s, before).switches
                        },
                        ..screen(s, before)
                    })
                },
            }
        },
{
    broadcast use group_told;

    let order = s.queue_of(s.mode).current_order(s.search_query, s.shuffle_on);
    lemma_neighbour(s, s.mode, 1, p);
    reveal(AppView::all_slideshow_ticked);
    reveal(AppView::image_slideshow_ticked);
    match step_to(p, order.len() as int, true, s.loop_on) {
        Some(t) => {
            item_asked_for_is_shown(s, order[t], before);
            reveal(on_show);
            reveal(only_shown_differs);
        },
        None => {
            lemma_same_effects(AppView { slideshow_on: false, ..s }, s, before);
        },
    }
}

/// Typing into the search field changes the search, to what was typed in lowercase, and begins
/// the list anew. Nothing else changes.
pub proof fn search_changes_the_list_alone(s: AppView, text: Seq<char>, before: Screen)
    ensures
        ({
            let after = s.search_changed(text);
            &&& after == (AppView {
                search_query: lowercase(text),
                rebuild: after.rebuild,
                effects: after.effects,
                ..s
            })
            &&& rows_begun(after)
            &&& screen(after, before) == (Screen {
                notes: Notes {
                    rows_deferred: after.rebuild is Some,
                    ..screen(s, before).notes
                },
                ..screen(s, before)
            })
        }),
{
    broadcast use group_parts;

    lemma_same_effects(AppView { search_query: lowercase(text), ..s }, s, before);
}

/// The button for looping turns looping on or off, and shows that. Nothing else changes.
pub proof fn loop_button_switches(s: AppView, before: Screen)
    ensures
        s.loop_toggled() == (AppView {
            loop_on: !s.loop_on,
            effects: s.loop_toggled().effects,
            ..s
        }),
        screen(s.loop_toggled(), before) == (Screen {
            switches: Switches { looping: !s.loop_on, ..screen(s, before).switches },
            ..screen(s, before)
        }),
{
    broadcast use group_told;

    lemma_same_effects(AppView { loop_on: !s.loop_on, ..s }, s, before);
}

/// The button for the mode leads from videos to images and from anywhere else to videos.
pub proof fn mode_button_leads_to_the_other(s: AppView)
    ensures
        s.mode is Video ==> s.other_mode() is Image,
        s.mode is Image ==> s.other_mode() is Video,
        s.mode is All ==> s.other_mode() is Video,
{
}

/// Whether the slideshow's timer should run is asked in one way for all media and in another for
/// images.
pub proof fn timer_is_wanted_for_images(s: AppView)
    ensures
        s.wants_timer() <==> s.mode is All && s.slideshow_on && s.gallery_open
            && !s.all_current_is_video,
        s.mode is All ==> s.timer_wanted() == s.wants_timer(),
        s.mode !is All ==> s.timer_wanted() == s.slideshow_on,
{
}

/// Ending the slideshow turns it off and stops its timer, and shows that. Nothing else changes.
pub proof fn ended_slideshow_is_off(s: AppView, before: Screen)
    ensures
        s.slideshow_ended() == (AppView {
            slideshow_on: false,
            effects: s.slideshow_ended().effects,
            ..s
        }),
        screen(s.slideshow_ended(), before) == (Screen {
            switches: Switches { slideshow: false, timer: false, ..screen(s, before).switches },
            ..screen(s, before)
        }),
{
    broadcast use group_told;

    lemma_same_effects(AppView { slideshow_on: false, ..s }, s, before);
}

/// Stopping the player takes its video away, and shows that nothing plays. Nothing else changes.
pub proof fn stopped_player_is_empty(s: AppView, before: Screen)
    ensures
        s.stopped() == (AppView { effects: s.stopped().effects, ..s }),
        screen(s.stopped(), before) == (Screen {
            player: Player {
                loaded: None,
                runs: false,
                playing: false,
                ..screen(s, before).player
            },
            ..screen(s, before)
        }),
{
    broadcast use group_told;

}

/// Bringing a view up to date is bringing up to date the view of that mode.
pub proof fn each_mode_has_its_view(s: AppView)
    ensures
        s.view_synced(Mode::Video) == s.video_synced(),
        s.view_synced(Mode::Image) == s.image_synced(),
        s.view_synced(Mode::All) == s.all_synced(),
{
}

/// The item that comes next in a mode, or before, is the one that its queue names, with the search,
/// the shuffle switch and the loop switch as they are.
pub proof fn neighbours_are_those_of_the_queue(s: AppView, mode: Mode, delta: i32)
    ensures
        delta < 0 ==> s.neighbour(mode, delta) == s.queue_of(mode).prev(
            s.search_query,
            s.shuffle_on,
            s.loop_on,
        ),
        delta >= 0 ==> s.neighbour(mode, delta) == s.queue_of(mode).next(
            s.search_query,
            s.shuffle_on,
            s.loop_on,
        ),
        s.queue_of(Mode::Video) == s.queue,
        s.queue_of(Mode::Image) == s.image_queue,
        s.queue_of(Mode::All) == s.all_queue,
        s.active() == s.queue_of(s.mode),
{
}

/// Wherever a step leads, the item that it leads to is on show. Without one nothing changes, and
/// the buttons for playing do nothing among images.
#[verifier::rlimit(40)]
pub proof fn step_shows_where_it_leads(s: AppView, delta: i32, before: Screen)
    ensures
        s.mode is Image ==> s.stepped(delta) == s,
        s.mode !is Image ==> match s.neighbour(s.mode, delta) {
            Some(index) => index < s.queue_of(s.mode).items.len() ==> on_show(
                s.stepped(delta),
                screen(s.stepped(delta), before),
                index,
            ) && only_shown_differs(s, s.stepped(delta)),
            None => s.stepped(delta) == s,
        },
        s.mode is Image ==> match s.neighbour(Mode::Image, delta) {
            Some(index) => index < s.image_queue.items.len() ==> on_show(
                s.image_navigated(delta),
                screen(s.image_navigated(delta), before),
                index,
            ) && only_shown_differs(s, s.image_navigated(delta)),
            None => s.image_navigated(delta) == s,
        },
        s.mode is All ==> match s.neighbour(Mode::All, delta) {
            Some(index) => index < s.all_queue.items.len() ==> on_show(
                s.all_navigated(delta),
                screen(s.all_navigated(delta), before),
                index,
            ) && only_shown_differs(s, s.all_navigated(delta)),
            None => s.all_navigated(delta) == s,
        },
{
    match s.mode {
        Mode::Image => {
            if let Some(index) = s.neighbour(Mode::Video, delta) {
                nothing_else_is_shown(s, index);
                lemma_planned(s, index, before);
            }
            if let Some(index) = s.neighbour(Mode::Image, delta) {
                if index < s.image_queue.items.len() {
                    item_asked_for_is_shown(s, index, before);
                }
            }
        },
        _ => {
            if let Some(index) = s.neighbour(s.mode, delta) {
                if index < s.queue_of(s.mode).items.len() {
                    click_shows_the_item(s, index, before);
                    item_asked_for_is_shown(s, index, before);
                }
            }
        },
    }
}

/// The slideshow goes on from wherever it is: the item that comes next is on show when its timer
/// goes off, even where nothing was on show, and it ends where none comes next.
#[verifier::rlimit(40)]
pub proof fn slideshow_goes_on_from_anywhere(s: AppView, before: Screen)
    requires
        s.mode is Image || s.mode is All,
        s.slideshow_on,
    ensures
        match s.queue_of(s.mode).next(s.search_query, s.shuffle_on, s.loop_on) {
            Some(index) => index < s.queue_of(s.mode).items.len() ==> on_show(
                s.slideshow_ticked(),
                screen(s.slideshow_ticked(), before),
                index,
            ) && only_shown_differs(s, s.slideshow_ticked()),
            None => s.slideshow_ticked() == s.slideshow_ended(),
        },
{
    broadcast use group_told;

    reveal(AppView::all_slideshow_ticked);
    reveal(AppView::image_slideshow_ticked);
    if let Some(index) = s.neighbour(s.mode, 1) {
        if index < s.queue_of(s.mode).items.len() {
            item_asked_for_is_shown(s, index, before);
            reveal(on_show);
            reveal(only_shown_differs);
        }
    }
}

} // verus!
