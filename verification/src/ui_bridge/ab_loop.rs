//! Looping a segment of a video, and seeking.

use super::effect::Effect;
use super::state::{AbLoopState, AppState, AppView};
use vstd::prelude::*;

verus! {

impl AbLoopState {
    /// Whether a point is being picked.
    pub open spec fn is_picking(self) -> bool {
        self is PickingA || self is PickingB
    }

    /// The point at which the segment begins, where it is picked.
    pub open spec fn start(self) -> Option<u64> {
        match self {
            AbLoopState::PickingB { a } => Some(a),
            AbLoopState::Active { a, .. } => Some(a),
            _ => None,
        }
    }

    /// The point at which the segment ends, where it is picked.
    pub open spec fn end(self) -> Option<u64> {
        match self {
            AbLoopState::Active { b, .. } => Some(b),
            _ => None,
        }
    }
}

/// How the loop of a segment is shown.
#[derive(Debug, Clone, Copy, PartialEq, Eq, Structural)]
pub struct AbLoopView {
    /// The point at which the segment begins, where it is picked.
    pub a: Option<u64>,
    /// The point at which the segment ends, where it is picked.
    pub b: Option<u64>,
    pub picking: bool,
    pub active: bool,
}

impl AppView {
    /// The state after the button for looping was pressed: it starts picking a segment, or
    /// forgets the one that is picked.
    pub open spec fn ab_loop_toggled(self) -> AppView {
        if self.ab_loop is Off {
            AppView { ab_loop: AbLoopState::PickingA, ..self }.with(Effect::ShowAbLoop)
        } else {
            AppView { ab_loop: AbLoopState::Off, ..self }.with(Effect::ClearLoopPoints).with(
                Effect::ShowAbLoop,
            )
        }
    }

    /// The state with the start of a segment picked.
    pub open spec fn segment_started(self, t: u64) -> AppView {
        AppView { ab_loop: AbLoopState::PickingB { a: t }, ..self }.with(
            Effect::SetLoopStart(t),
        ).with(Effect::ShowAbLoop)
    }

    /// The state with the end of a segment picked, which is then looped.
    pub open spec fn segment_ended(self, a: u64, t: u64) -> AppView {
        AppView { ab_loop: AbLoopState::Active { a, b: t }, ..self }.with(
            Effect::SetLoopEnd(t),
        ).with(Effect::SeekExact(a)).with(Effect::ShowAbLoop)
    }

    /// The state after a click on the progress bar at the time `t`: it picks a point while one is
    /// asked for, and is a seek otherwise. An end that is not after the start is not taken.
    pub open spec fn progress_clicked(self, t: u64) -> AppView {
        match self.ab_loop {
            AbLoopState::PickingA => self.segment_started(t),
            AbLoopState::PickingB { a } => if t <= a {
                self
            } else {
                self.segment_ended(a, t)
            },
            _ => self.with(Effect::SeekExact(t)),
        }
    }

    /// The state after a drag that waits was looked at. While the player is seeking it goes on
    /// waiting; while a point is being picked, or nothing is loaded, it is dropped.
    pub open spec fn scrub_applied(self, seeking: bool, loaded: bool) -> AppView {
        match self.pending_scrub {
            Some(ratio) => if seeking {
                self
            } else if self.ab_loop.is_picking() || !loaded {
                AppView { pending_scrub: None, ..self }
            } else {
                AppView { pending_scrub: None, ..self }.with(Effect::SeekToRatio(ratio))
            },
            None => self,
        }
    }
}

/// Pressing the button twice leads back to no loop, from wherever it is pressed.
pub proof fn loop_button_leads_back(s: AppView)
    ensures
        s.ab_loop is Off ==> s.ab_loop_toggled().ab_loop_toggled().ab_loop is Off,
        s.ab_loop !is Off ==> s.ab_loop_toggled().ab_loop is Off,
{
}

/// Two clicks after the button loop the segment between them if the second is later. One that is
/// not later is not taken, and the next one may still be.
pub proof fn two_clicks_pick_segment(s: AppView, first: u64, second: u64)
    requires
        s.ab_loop is Off,
    ensures
        first < second ==> s.ab_loop_toggled().progress_clicked(first).progress_clicked(
            second,
        ).ab_loop == (AbLoopState::Active { a: first, b: second }),
        second <= first ==> s.ab_loop_toggled().progress_clicked(first).progress_clicked(second)
            == s.ab_loop_toggled().progress_clicked(first),
{
}

/// No click makes a segment that ends before it begins.
pub proof fn loop_stays_ordered(s: AppView, t: u64)
    requires
        s.loop_ordered(),
    ensures
        s.progress_clicked(t).loop_ordered(),
        s.ab_loop_toggled().loop_ordered(),
{
}

impl AppState {
    /// Starts picking a segment to loop, or forgets the one that is picked.
    pub fn toggle_ab_loop(&mut self)
        requires
            old(self).wf(),
        ensures
            final(self).wf(),
            final(self)@ == old(self)@.ab_loop_toggled(),
    {
        match self.ab_loop {
            AbLoopState::Off => {
                self.ab_loop = AbLoopState::PickingA;
            },
            _ => {
                self.ab_loop = AbLoopState::Off;
                self.effects.push(Effect::ClearLoopPoints);
            },
        }
        self.effects.push(Effect::ShowAbLoop);
    }

    fn start_segment(&mut self, t: u64)
        requires
            old(self).wf(),
        ensures
            final(self).wf(),
            final(self)@ == old(self)@.segment_started(t),
    {
        self.ab_loop = AbLoopState::PickingB { a: t };
        self.effects.push(Effect::SetLoopStart(t));
        self.effects.push(Effect::ShowAbLoop);
    }

    fn end_segment(&mut self, a: u64, t: u64)
        requires
            old(self).wf(),
            a < t,
        ensures
            final(self).wf(),
            final(self)@ == old(self)@.segment_ended(a, t),
    {
        self.ab_loop = AbLoopState::Active { a, b: t };
        self.effects.push(Effect::SetLoopEnd(t));
        self.effects.push(Effect::SeekExact(a));
        self.effects.push(Effect::ShowAbLoop);
    }

    /// Takes in a click on the progress bar, or the end of a drag there, at the time whose bits
    /// are `t`. Nothing happens as long as nothing is loaded.
    pub fn handle_progress_click(&mut self, loaded: bool, t: u64)
        requires
            old(self).wf(),
        ensures
            final(self).wf(),
            final(self)@ == if loaded {
                old(self)@.progress_clicked(t)
            } else {
                old(self)@
            },
    {
        if !loaded {
            return;
        }
        match self.ab_loop {
            AbLoopState::PickingA => self.start_segment(t),
            AbLoopState::PickingB { a } => {
                if a < t {
                    self.end_segment(a, t);
                }
            },
            _ => self.ask_for(Effect::SeekExact(t)),
        }
    }

    /// Takes in where a drag on the progress bar is, and goes there if the player is free.
    pub fn queue_scrub_ratio(&mut self, ratio: u32, seeking: bool, loaded: bool)
        requires
            old(self).wf(),
        ensures
            final(self).wf(),
            final(self)@ == (AppView { pending_scrub: Some(ratio), ..old(self)@ }).scrub_applied(
                seeking,
                loaded,
            ),
    {
        self.pending_scrub = Some(ratio);
        self.apply_pending_scrub(seeking, loaded);
    }

    /// Goes to where a drag on the progress bar was last, if the player is free.
    pub fn apply_pending_scrub(&mut self, seeking: bool, loaded: bool)
        requires
            old(self).wf(),
        ensures
            final(self).wf(),
            final(self)@ == old(self)@.scrub_applied(seeking, loaded),
    {
        match self.pending_scrub {
            Some(ratio) => {
                if seeking {
                    return;
                }
                self.pending_scrub = None;
                match self.ab_loop {
                    AbLoopState::PickingA => {},
                    AbLoopState::PickingB { .. } => {},
                    _ => {
                        if loaded {
                            self.effects.push(Effect::SeekToRatio(ratio));
                        }
                    },
                }
            },
            None => {},
        }
    }

    /// How the loop of a segment is shown.
    pub fn ab_loop_view(&self) -> (view: AbLoopView)
        ensures
            view == (AbLoopView {
                a: self@.ab_loop.start(),
                b: self@.ab_loop.end(),
                picking: self@.ab_loop.is_picking(),
                active: self@.ab_loop is Active,
            }),
    {
        match self.ab_loop {
            AbLoopState::Off => AbLoopView { a: None, b: None, picking: false, active: false },
            AbLoopState::PickingA => AbLoopView { a: None, b: None, picking: true, active: false },
            AbLoopState::PickingB { a } => AbLoopView {
                a: Some(a),
                b: None,
                picking: true,
                active: false,
            },
            AbLoopState::Active { a, b } => AbLoopView {
                a: Some(a),
                b: Some(b),
                picking: false,
                active: true,
            },
        }
    }
}

} // verus!
