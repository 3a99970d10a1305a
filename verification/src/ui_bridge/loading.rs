//! Filling the list bit by bit, and saying how far loading is.

use super::effect::Effect;
use super::state::{AppState, AppView, Mode};
use crate::text::{decimal, push_decimal};
use vstd::prelude::*;

verus! {

/// Up to this many rows the list is filled at once.
pub const PLAYLIST_SYNC_THRESHOLD: usize = 80;

/// How many rows of a longer list are filled at a time.
pub const PLAYLIST_REBUILD_CHUNK: usize = 120;

/// A list that is being filled bit by bit.
#[derive(Debug)]
pub struct PlaylistRebuildJob {
    pub filtered: Vec<usize>,
    pub now_playing: Option<usize>,
    pub show_sprite_status: bool,
    pub next_index: usize,
    /// Whether a first pass leaves out what has to be read from disk, for a second one to add.
    pub defer_sprite_status: bool,
    pub sprite_pass: bool,
}

/// What [`PlaylistRebuildJob`] holds.
pub struct JobView {
    pub filtered: Seq<usize>,
    pub now_playing: Option<usize>,
    pub show_sprite_status: bool,
    pub next_index: usize,
    pub defer_sprite_status: bool,
    pub sprite_pass: bool,
}

impl View for PlaylistRebuildJob {
    type V = JobView;

    open spec fn view(&self) -> JobView {
        JobView {
            filtered: self.filtered@,
            now_playing: self.now_playing,
            show_sprite_status: self.show_sprite_status,
            next_index: self.next_index,
            defer_sprite_status: self.defer_sprite_status,
            sprite_pass: self.sprite_pass,
        }
    }
}

impl JobView {
    /// Whether the pass under way leaves out what has to be read from disk.
    pub open spec fn deferred(self) -> bool {
        self.defer_sprite_status && !self.sprite_pass
    }

    /// Up to where the next bit of the list goes.
    pub open spec fn chunk_end(self) -> int {
        if self.next_index + PLAYLIST_REBUILD_CHUNK < self.filtered.len() {
            self.next_index + PLAYLIST_REBUILD_CHUNK
        } else {
            self.filtered.len() as int
        }
    }

    /// The job after the next bit, or `None` when that was the last of the last pass.
    pub open spec fn advanced(self) -> Option<JobView> {
        if self.chunk_end() < self.filtered.len() {
            Some(JobView { next_index: self.chunk_end() as usize, ..self })
        } else if self.deferred() {
            Some(JobView { next_index: 0, sprite_pass: true, ..self })
        } else {
            None
        }
    }
}

impl AppView {
    /// Whether the list is being filled.
    pub open spec fn playlist_busy(self) -> bool {
        self.rebuild is Some
    }

    /// Whether pictures of the grid are still to come.
    pub open spec fn gallery_busy(self) -> bool {
        self.thumbs_pending > 0 && self.thumbs_loaded + self.thumbs_failed < self.thumbs_pending
    }

    /// Whether anything is loading.
    pub open spec fn loading(self) -> bool {
        self.library_loading || self.playlist_busy() || self.gallery_busy()
    }

    /// The state after the window was told how far loading is.
    #[verifier::opaque]
    pub open spec fn loading_synced(self) -> AppView {
        AppView {
            library_loading: self.loading(),
            library_loading_message: if !self.loading() {
                Seq::empty()
            } else if self.library_loading_message.len() == 0 {
                "Loading library…"@
            } else {
                self.library_loading_message
            },
            ..self
        }.with(
            Effect::ShowLoading {
                loading: self.loading(),
                gallery_loading: self.loading() && !self.gallery_open,
            },
        )
    }

    /// The part of the loading text that is on the list.
    pub open spec fn rows_text(self) -> Seq<char> {
        match self.rebuild {
            Some(job) => (if job.sprite_pass {
                "previews"@
            } else {
                "items"@
            }) + " "@ + decimal(job.next_index as nat) + "/"@ + decimal(job.filtered.len()),
            None => Seq::empty(),
        }
    }

    /// The part of the loading text that is on the grid.
    pub open spec fn thumbs_text(self) -> Seq<char> {
        let done = "thumbs "@ + decimal((self.thumbs_loaded + self.thumbs_failed) as nat) + "/"@
            + decimal(self.thumbs_pending as nat);
        if self.thumbs_failed > 0 {
            done + " ("@ + decimal(self.thumbs_failed as nat) + " failed)"@
        } else {
            done
        }
    }

    /// The text that goes with loading; none when nothing is loading.
    pub open spec fn loading_text(self) -> Seq<char> {
        let rows = self.rebuild is Some;
        let thumbs = self.thumbs_pending > 0;
        if !self.loading() {
            Seq::empty()
        } else if rows && thumbs {
            "Loading library… ("@ + self.rows_text() + ", "@ + self.thumbs_text() + ")"@
        } else if rows {
            "Loading library… ("@ + self.rows_text() + ")"@
        } else if thumbs {
            "Loading library… ("@ + self.thumbs_text() + ")"@
        } else if self.library_loading_message.len() == 0 {
            "Loading library…"@
        } else {
            self.library_loading_message
        }
    }

    /// The state after the list was begun anew: at once where it is short, bit by bit otherwise.
    #[verifier::opaque]
    pub open spec fn rebuilt(self) -> AppView {
        let shown = self.active().filtered(self.search_query);
        if shown.len() <= PLAYLIST_SYNC_THRESHOLD {
            AppView { rebuild: None, ..self }.with(Effect::FillRows { deferred: false })
        } else {
            AppView {
                rebuild: Some(
                    JobView {
                        filtered: shown,
                        now_playing: self.active().now_playing,
                        show_sprite_status: self.mode == Mode::Video,
                        next_index: 0,
                        defer_sprite_status: true,
                        sprite_pass: false,
                    },
                ),
                ..self
            }.with(Effect::FillRows { deferred: true })
        }
    }

    /// The state after one more bit of the list was filled.
    pub open spec fn rebuild_ticked(self) -> AppView {
        match self.rebuild {
            Some(job) => AppView { rebuild: job.advanced(), ..self }.with(
                Effect::FillRowRange {
                    from: job.next_index,
                    to: job.chunk_end() as usize,
                    deferred: job.deferred(),
                },
            ).loading_synced(),
            None => self,
        }
    }

    /// The state after the end of an import was looked for.
    pub open spec fn import_finished(self) -> AppView {
        if !self.library_loading || self.playlist_busy() || self.gallery_busy() {
            self
        } else {
            AppView {
                library_loading: false,
                library_loading_message: Seq::empty(),
                ..self
            }.loading_synced()
        }
    }
}

/// Beginning the list anew makes it current, whatever it was before.
pub proof fn rebuilding_makes_rows_current(s: AppView)
    ensures
        s.rebuilt().rows_current(),
{
    reveal(AppView::rebuilt);
}

/// Telling how far loading is changes nothing of the list.
pub proof fn loading_keeps_rows_current(s: AppView)
    requires
        s.rows_current(),
    ensures
        s.loading_synced().rows_current(),
        s.rebuild_ticked().rows_current(),
        s.import_finished().rows_current(),
{
    reveal(AppView::loading_synced);
}

/// How many more bits it takes until the list is filled.
pub open spec fn bits_left(job: Option<JobView>) -> int {
    match job {
        Some(job) => {
            let total = job.filtered.len();
            (if job.deferred() {
                total + 1
            } else {
                0
            }) + (total - job.next_index) + 1
        },
        None => 0,
    }
}

/// Filling bit by bit comes to an end: every bit leaves less to do.
pub proof fn filling_ends(job: JobView)
    requires
        job.next_index <= job.filtered.len() <= usize::MAX,
    ensures
        bits_left(job.advanced()) < bits_left(Some(job)),
        job.advanced() matches Some(next) ==> next.next_index <= next.filtered.len(),
        bits_left(job.advanced()) >= 0,
{
}

impl PlaylistRebuildJob {
    /// Whether the pass under way leaves out what has to be read from disk.
    pub fn deferred(&self) -> (deferred: bool)
        ensures
            deferred == self@.deferred(),
    {
        self.defer_sprite_status && !self.sprite_pass
    }

    /// Up to where the next bit of the list goes.
    pub fn chunk_end(&self) -> (end: usize)
        requires
            self@.next_index <= self@.filtered.len(),
        ensures
            end == self@.chunk_end(),
    {
        let total = self.filtered.len();
        if total - self.next_index <= PLAYLIST_REBUILD_CHUNK {
            total
        } else {
            self.next_index + PLAYLIST_REBUILD_CHUNK
        }
    }

    /// The job after the next bit, or `None` when that was the last of the last pass.
    pub fn advanced(self) -> (next: Option<PlaylistRebuildJob>)
        requires
            self@.next_index <= self@.filtered.len(),
        ensures
            match next {
                Some(job) => self@.advanced() == Some(job@),
                None => self@.advanced() is None,
            },
    {
        let end = self.chunk_end();
        if end < self.filtered.len() {
            Some(PlaylistRebuildJob { next_index: end, ..self })
        } else if self.deferred() {
            Some(PlaylistRebuildJob { next_index: 0, sprite_pass: true, ..self })
        } else {
            None
        }
    }
}

impl AppState {
    /// Whether the list is being filled.
    pub fn playlist_busy(&self) -> (busy: bool)
        ensures
            busy == self@.playlist_busy(),
    {
        self.pending_playlist_rebuild.is_some()
    }

    /// Whether pictures of the grid are still to come.
    pub fn gallery_busy(&self) -> (busy: bool)
        requires
            self@.counts_fit(),
        ensures
            busy == self@.gallery_busy(),
    {
        self.gallery_thumbs_pending > 0 && self.gallery_thumbs_loaded + self.gallery_thumbs_failed
            < self.gallery_thumbs_pending
    }

    /// Tells the window how far loading is.
    pub fn sync_loading_ui(&mut self)
        requires
            old(self).parts_wf(),
        ensures
            final(self).parts_wf(),
            final(self)@ == old(self)@.loading_synced(),
            old(self).wf() ==> final(self).wf(),
    {
        proof {
            reveal(AppView::loading_synced);
        }
        let loading = self.library_loading || self.playlist_busy() || self.gallery_busy();
        self.library_loading = loading;
        if !loading {
            self.library_loading_message = String::new();
        } else if self.library_loading_message.as_str().is_empty() {
            self.library_loading_message = "Loading library…".to_string();
        }
        self.effects.push(
            Effect::ShowLoading { loading, gallery_loading: loading && !self.gallery_open },
        );
        assert(self@.library_loading_message =~= old(self)@.loading_synced().library_loading_message);
    }

    fn push_rows_text(&self, text: &mut String)
        requires
            self.parts_wf(),
        ensures
            final(text)@ == old(text)@ + self@.rows_text(),
    {
        match &self.pending_playlist_rebuild {
            Some(job) => {
                if job.sprite_pass {
                    text.push_str("previews");
                } else {
                    text.push_str("items");
                }
                text.push_str(" ");
                push_decimal(text, job.next_index as u64);
                text.push_str("/");
                push_decimal(text, job.filtered.len() as u64);
            },
            None => {},
        }
        assert(text@ =~= old(text)@ + self@.rows_text());
    }

    fn push_thumbs_text(&self, text: &mut String)
        requires
            self.parts_wf(),
        ensures
            final(text)@ == old(text)@ + self@.thumbs_text(),
    {
        text.push_str("thumbs ");
        push_decimal(text, (self.gallery_thumbs_loaded + self.gallery_thumbs_failed) as u64);
        text.push_str("/");
        push_decimal(text, self.gallery_thumbs_pending as u64);
        if self.gallery_thumbs_failed > 0 {
            text.push_str(" (");
            push_decimal(text, self.gallery_thumbs_failed as u64);
            text.push_str(" failed)");
        }
        assert(text@ =~= old(text)@ + self@.thumbs_text());
    }

    /// The text that goes with loading; none when nothing is loading.
    pub fn loading_text(&self) -> (text: String)
        requires
            self.parts_wf(),
        ensures
            text@ == self@.loading_text(),
    {
        let rows = self.playlist_busy();
        let thumbs = self.gallery_thumbs_pending > 0;
        let mut text = String::new();
        if !(self.library_loading || rows || self.gallery_busy()) {
            assert(text@ =~= self@.loading_text());
            return text;
        }
        if !rows && !thumbs {
            if self.library_loading_message.as_str().is_empty() {
                text.push_str("Loading library…");
            } else {
                text.push_str(self.library_loading_message.as_str());
            }
            assert(text@ =~= self@.loading_text());
            return text;
        }
        text.push_str("Loading library… (");
        if rows {
            self.push_rows_text(&mut text);
        }
        if rows && thumbs {
            text.push_str(", ");
        }
        if thumbs {
            self.push_thumbs_text(&mut text);
        }
        text.push_str(")");
        assert(text@ =~= self@.loading_text());
        text
    }

    /// The items that the list shows, the one that plays, and whether rows show how far the
    /// preview is.
    pub fn playlist_view(&self) -> (view: (Vec<usize>, Option<usize>, bool))
        requires
            self.parts_wf(),
        ensures
            view.0@ == self@.active().filtered(self@.search_query),
            view.1 == self@.active().now_playing,
            view.2 == (self.mode == Mode::Video),
    {
        let queue = self.active_queue();
        (
            queue.filtered_indices(self.search_query.as_str()),
            queue.now_playing(),
            self.mode == Mode::Video,
        )
    }

    /// Begins to fill the list anew: at once where it is short, bit by bit otherwise.
    pub fn schedule_playlist_rebuild(&mut self)
        requires
            old(self).parts_wf(),
        ensures
            final(self).wf(),
            final(self)@ == old(self)@.rebuilt(),
    {
        proof {
            reveal(AppView::rebuilt);
        }
        let (filtered, now_playing, show_sprite_status) = self.playlist_view();
        if filtered.len() <= PLAYLIST_SYNC_THRESHOLD {
            self.pending_playlist_rebuild = None;
            self.effects.push(Effect::FillRows { deferred: false });
        } else {
            self.pending_playlist_rebuild = Some(
                PlaylistRebuildJob {
                    filtered,
                    now_playing,
                    show_sprite_status,
                    next_index: 0,
                    defer_sprite_status: true,
                    sprite_pass: false,
                },
            );
            self.effects.push(Effect::FillRows { deferred: true });
        }
    }

    /// Begins to fill the list anew.
    pub fn rebuild_playlist_model(&mut self)
        requires
            old(self).parts_wf(),
        ensures
            final(self).wf(),
            final(self)@ == old(self)@.rebuilt(),
    {
        self.schedule_playlist_rebuild();
    }

    /// Fills one more bit of the list, where it is being filled. Says whether nothing is left to
    /// fill.
    pub fn tick_playlist_rebuild(&mut self) -> (idle: bool)
        requires
            old(self).wf(),
        ensures
            final(self).wf(),
            final(self)@ == old(self)@.rebuild_ticked(),
            idle == (final(self)@.rebuild is None),
    {
        let mut slot: Option<PlaylistRebuildJob> = None;
        std::mem::swap(&mut slot, &mut self.pending_playlist_rebuild);
        match slot {
            None => {},
            Some(job) => {
                let from = job.next_index;
                let to = job.chunk_end();
                let deferred = job.deferred();
                self.pending_playlist_rebuild = job.advanced();
                self.effects.push(Effect::FillRowRange { from, to, deferred });
                self.sync_loading_ui();
            },
        }
        !self.playlist_busy()
    }

    /// Ends the loading of an import once the list and the grid have nothing left to do.
    pub fn try_finish_import_session(&mut self)
        requires
            old(self).wf(),
        ensures
            final(self).wf(),
            final(self)@ == old(self)@.import_finished(),
    {
        if !self.library_loading {
            return;
        }
        if self.playlist_busy() || self.gallery_busy() {
            return;
        }
        self.library_loading = false;
        self.library_loading_message = String::new();
        assert(self@.library_loading_message =~= Seq::empty());
        self.sync_loading_ui();
    }
}

} // verus!
