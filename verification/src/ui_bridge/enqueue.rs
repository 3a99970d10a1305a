//! Adding media to the library.

use super::effect::Effect;
use super::laws::mode_is_set;
use super::playback::of_kind;
use super::state::{AppState, AppView, Mode};
use crate::library::is_video_file;
use crate::playlist::item::{candidate_view, candidate_views, Candidate, CandidateView};
use crate::text::{decimal, push_decimal};
use vstd::prelude::*;

verus! {

/// The text that goes with adding items.
pub open spec fn adding_text_of(count: nat) -> Seq<char> {
    "Adding "@ + decimal(count) + " items…"@
}

/// The text that goes with adding items.
pub fn adding_text(count: usize) -> (text: String)
    ensures
        text@ == adding_text_of(count as nat),
{
    let mut text = String::new();
    text.push_str("Adding ");
    push_decimal(&mut text, count as u64);
    text.push_str(" items…");
    assert(text@ =~= adding_text_of(count as nat));
    text
}

/// Copies candidates.
fn copy_candidates(cs: &Vec<Candidate>) -> (copy: Vec<Candidate>)
    ensures
        candidate_views(copy@) == candidate_views(cs@),
        copy.len() == cs.len(),
{
    let mut copy: Vec<Candidate> = Vec::new();
    let mut i: usize = 0;
    while i < cs.len()
        invariant
            i <= cs.len(),
            copy.len() == i,
            forall|k: int| 0 <= k < i ==> candidate_view(#[trigger] copy@[k]) == candidate_view(cs@[k]),
        decreases cs.len() - i,
    {
        copy.push((cs[i].0.as_str().to_string(), cs[i].1.clone(), cs[i].2));
        i += 1;
    }
    assert(candidate_views(copy@) =~= candidate_views(cs@));
    copy
}

/// Parts candidates that are videos from those that are not.
fn part_by_kind(cs: Vec<Candidate>) -> (parts: (Vec<Candidate>, Vec<Candidate>))
    ensures
        candidate_views(parts.0@) == of_kind(candidate_views(cs@), true),
        candidate_views(parts.1@) == of_kind(candidate_views(cs@), false),
        parts.0.len() + parts.1.len() == cs.len(),
{
    let ghost all = cs@;
    let ghost views = candidate_views(cs@);
    let mut videos: Vec<Candidate> = Vec::new();
    let mut images: Vec<Candidate> = Vec::new();
    assert(views.take(0) =~= Seq::empty());
    assert(candidate_views(videos@) =~= Seq::empty());
    for c in it: cs
        invariant
            all == it.seq(),
            views == candidate_views(all),
            candidate_views(videos@) == of_kind(views.take(it.index()), true),
            candidate_views(images@) == of_kind(views.take(it.index()), false),
            videos.len() + images.len() == it.index(),
    {
        let ghost i = it.index();
        assert(views.take(i + 1).drop_last() =~= views.take(i));
        assert(views.take(i + 1).last() == candidate_view(c));
        let ghost (v, m) = (videos@, images@);
        if is_video_file(&c.1) {
            videos.push(c);
            assert(candidate_views(videos@) =~= candidate_views(v).push(candidate_view(c)));
        } else {
            images.push(c);
            assert(candidate_views(images@) =~= candidate_views(m).push(candidate_view(c)));
        }
    }
    assert(views.take(all.len() as int) =~= views);
    (videos, images)
}

/// The mode that goes with files: that of videos or of images where all of them are of one kind,
/// that of all media where both are among them, and none where there is no file.
pub open spec fn mode_for(cs: Seq<CandidateView>) -> Option<Mode> {
    let videos = of_kind(cs, true).len() > 0;
    let images = of_kind(cs, false).len() > 0;
    if videos && images {
        Some(Mode::All)
    } else if videos {
        Some(Mode::Video)
    } else if images {
        Some(Mode::Image)
    } else {
        None
    }
}

impl AppView {
    /// The mode after files were added.
    pub open spec fn mode_after(self, cs: Seq<CandidateView>) -> Mode {
        match mode_for(cs) {
            Some(mode) => mode,
            None => self.mode,
        }
    }

    /// The state after candidates were put into the queue of one mode; its list is begun anew if
    /// it is on show.
    #[verifier::opaque]
    pub open spec fn videos_enqueued(self, cs: Seq<CandidateView>) -> AppView {
        let more = AppView { queue: self.queue.enqueued(cs), ..self };
        if self.mode == Mode::Video {
            more.rebuilt()
        } else {
            more
        }
    }

    /// The state after candidates were put into the queue of images; its list is begun anew if it
    /// is on show.
    #[verifier::opaque]
    pub open spec fn images_enqueued(self, cs: Seq<CandidateView>) -> AppView {
        let more = AppView { image_queue: self.image_queue.enqueued(cs), ..self };
        if self.mode == Mode::Image {
            more.rebuilt()
        } else {
            more
        }
    }

    /// The state after an import was shown in the mode that it led to: a single item plays, several
    /// are shown as a grid.
    #[verifier::opaque]
    pub open spec fn import_shown(self) -> AppView {
        if self.all_queue.items.len() == 0 {
            self
        } else if self.active().items.len() == 1 {
            self.shown(0).import_told()
        } else {
            self.grid_extended().import_told()
        }
    }

    /// The state after the window was told of an import.
    #[verifier::opaque]
    pub open spec fn import_told(self) -> AppView {
        self.view_synced(self.mode).rebuilt().loading_synced()
    }

    /// The state after the window was told how many items are being added.
    #[verifier::opaque]
    pub open spec fn adding_told(self, count: nat) -> AppView {
        if count > 0 {
            AppView { library_loading: true, ..self }.with(Effect::ShowAdding(count as usize))
        } else {
            self
        }
    }

    /// The state after candidates were put into the queues.
    #[verifier::opaque]
    pub open spec fn queues_filled(self, cs: Seq<CandidateView>) -> AppView {
        AppView { all_queue: self.all_queue.enqueued(cs), ..self }.videos_enqueued(
            of_kind(cs, true),
        ).images_enqueued(of_kind(cs, false))
    }

    /// The state after candidates were added to the library, which switches to the mode that goes
    /// with them.
    pub open spec fn paths_enqueued(self, cs: Seq<CandidateView>) -> AppView {
        AppView {
            library_loading: false,
            ..self.adding_told(cs.len()).queues_filled(cs).mode_set(
                self.mode_after(cs),
                false,
            ).import_shown()
        }.loading_synced()
    }
}

impl AppState {
    fn enqueue_video_paths(&mut self, named: Vec<Candidate>)
        requires
            old(self).parts_wf(),
            old(self)@.queue.last_id + named.len() <= u64::MAX,
        ensures
            final(self).parts_wf(),
            final(self)@ == old(self)@.videos_enqueued(candidate_views(named@)),
            final(self)@.image_queue == old(self)@.image_queue,
            final(self)@.all_queue == old(self)@.all_queue,
            final(self)@.mode == old(self)@.mode,
            final(self)@.gallery_generation == old(self)@.gallery_generation,
            old(self).wf() && named.len() == 0 ==> final(self).wf(),
            old(self)@.mode == Mode::All ==> final(self)@ == (AppView {
                queue: final(self)@.queue,
                ..old(self)@
            }),
    {
        proof {
            reveal(AppView::videos_enqueued);
            reveal(AppView::rebuilt);
        }
        self.queue.enqueue(named);
        if self.mode == Mode::Video {
            self.rebuild_playlist_model();
        }
    }

    fn enqueue_image_paths(&mut self, named: Vec<Candidate>)
        requires
            old(self).parts_wf(),
            old(self)@.image_queue.last_id + named.len() <= u64::MAX,
        ensures
            final(self).parts_wf(),
            final(self)@ == old(self)@.images_enqueued(candidate_views(named@)),
            final(self)@.all_queue == old(self)@.all_queue,
            final(self)@.mode == old(self)@.mode,
            final(self)@.gallery_generation == old(self)@.gallery_generation,
            old(self).wf() && named.len() == 0 ==> final(self).wf(),
            old(self)@.mode == Mode::All ==> final(self)@ == (AppView {
                image_queue: final(self)@.image_queue,
                ..old(self)@
            }),
    {
        proof {
            reveal(AppView::images_enqueued);
            reveal(AppView::rebuilt);
        }
        self.image_queue.enqueue(named);
        if self.mode == Mode::Image {
            self.rebuild_playlist_model();
        }
    }

    fn fill_queues(&mut self, named: Vec<Candidate>) -> (mode: Option<Mode>)
        requires
            old(self).parts_wf(),
            old(self)@.queue.last_id + named.len() <= u64::MAX,
            old(self)@.image_queue.last_id + named.len() <= u64::MAX,
            old(self)@.all_queue.last_id + named.len() <= u64::MAX,
        ensures
            final(self).parts_wf(),
            final(self)@ == old(self)@.queues_filled(candidate_views(named@)),
            final(self)@.mode == old(self)@.mode,
            final(self)@.gallery_generation == old(self)@.gallery_generation,
            mode == mode_for(candidate_views(named@)),
            named.len() > 0 ==> final(self)@.all_queue.items.len() > 0,
            named.len() == 0 && old(self).wf() ==> final(self).wf(),
    {
        proof {
            reveal(AppView::queues_filled);
        }
        assert(candidate_views(named@).len() == named.len());
        self.all_queue.enqueue(copy_candidates(&named));
        let (videos, images) = part_by_kind(named);
        assert(candidate_views(videos@).len() == videos.len());
        assert(candidate_views(images@).len() == images.len());
        let mode = if videos.len() > 0 && images.len() > 0 {
            Some(Mode::All)
        } else if videos.len() > 0 {
            Some(Mode::Video)
        } else if images.len() > 0 {
            Some(Mode::Image)
        } else {
            None
        };
        self.enqueue_video_paths(videos);
        self.enqueue_image_paths(images);
        mode
    }

    fn tell_import(&mut self)
        requires
            old(self).parts_wf(),
        ensures
            final(self).wf(),
            final(self)@ == old(self)@.import_told(),
    {
        proof {
            reveal(AppView::import_told);
        }
        self.sync_active_view_ui();
        self.schedule_playlist_rebuild();
        self.sync_loading_ui();
    }

    fn finish_import(&mut self)
        requires
            old(self).parts_wf(),
            old(self)@.gallery_generation < u64::MAX,
        ensures
            final(self).parts_wf(),
            final(self)@ == old(self)@.import_shown(),
            old(self).wf() || old(self)@.all_queue.items.len() > 0 ==> final(self).wf(),
    {
        proof {
            reveal(AppView::import_shown);
        }
        if self.all_queue.is_empty() {
            return;
        }
        if self.active_queue().len() == 1 {
            self.show(0);
        } else {
            self.extend_gallery_grid();
        }
        self.tell_import();
    }

    fn tell_adding(&mut self, count: usize)
        requires
            old(self).parts_wf(),
        ensures
            final(self).parts_wf(),
            final(self)@ == old(self)@.adding_told(count as nat),
            final(self)@ == (AppView {
                library_loading: final(self)@.library_loading,
                effects: final(self)@.effects,
                ..old(self)@
            }),
    {
        proof {
            reveal(AppView::adding_told);
        }
        if count > 0 {
            self.library_loading = true;
            self.effects.push(Effect::ShowAdding(count));
        }
    }

    /// Adds files to the library: each to the queue of all media, and to that of its kind. Files
    /// that are there already are not added again. The window switches to the mode that goes with
    /// the files.
    pub fn enqueue_paths(&mut self, named: Vec<Candidate>)
        requires
            old(self).wf(),
            old(self)@.queue.last_id + named.len() <= u64::MAX,
            old(self)@.image_queue.last_id + named.len() <= u64::MAX,
            old(self)@.all_queue.last_id + named.len() <= u64::MAX,
            old(self)@.gallery_generation < u64::MAX,
        ensures
            final(self).wf(),
            final(self)@ == old(self)@.paths_enqueued(candidate_views(named@)),
    {
        assert(candidate_views(named@).len() == named.len());
        self.tell_adding(named.len());
        let mode = match self.fill_queues(named) {
            Some(mode) => mode,
            None => self.mode,
        };
        proof {
            mode_is_set(self@, mode, false);
        }
        self.set_mode(mode, false);
        self.finish_import();
        self.library_loading = false;
        self.sync_loading_ui();
    }
}

} // verus!
