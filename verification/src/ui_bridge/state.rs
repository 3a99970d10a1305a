//! What the program knows while it runs.

use super::effect::Effect;
use super::loading::{JobView, PlaylistRebuildJob};
use crate::library::filter::path_views;
use crate::path::MediaPath;
use crate::playlist::model::QueueView;
use crate::playlist::Queue;
use crate::table::{PathTable, TextTable};
use vstd::prelude::*;

verus! {

/// How far the preview of a video is.
#[derive(Debug, Clone, Copy, PartialEq, Eq, Structural)]
pub enum SpriteStatus {
    NotStarted,
    InProgress,
    Done,
}

/// How far the choice of a segment to loop is. Times are the bits of a number of seconds that is
/// not negative; such bits are in the same order as the numbers.
#[derive(Debug, Clone, Copy, PartialEq, Eq, Structural)]
pub enum AbLoopState {
    Off,
    PickingA,
    PickingB { a: u64 },
    Active { a: u64, b: u64 },
}

/// Which media the window shows.
#[derive(Debug, Clone, Copy, PartialEq, Eq, Structural)]
pub enum Mode {
    Video,
    Image,
    All,
}

/// The rows of the grid.
#[derive(Debug)]
pub struct Grid {
    /// For each row, whether it is a video.
    pub video: Vec<bool>,
    /// For each row, whether its picture could not be had.
    pub failed: Vec<bool>,
    /// The rows whose pictures are being made, in the order in which they are begun.
    pub work: Vec<usize>,
    /// For each row, the path of the item that it shows.
    pub shown: Vec<MediaPath>,
}

/// What [`Grid`] holds.
pub struct GridView {
    pub video: Seq<bool>,
    pub failed: Seq<bool>,
    pub work: Seq<usize>,
    pub shown: Seq<Seq<u8>>,
}

impl View for Grid {
    type V = GridView;

    open spec fn view(&self) -> GridView {
        GridView {
            video: self.video@,
            failed: self.failed@,
            work: self.work@,
            shown: path_views(self.shown@),
        }
    }
}

impl GridView {
    /// A grid without rows.
    pub open spec fn empty() -> GridView {
        GridView {
            video: Seq::empty(),
            failed: Seq::empty(),
            work: Seq::empty(),
            shown: Seq::empty(),
        }
    }
}

/// What the program knows while it runs.
#[derive(Debug)]
pub struct AppState {
    pub queue: Queue,
    pub image_queue: Queue,
    pub all_queue: Queue,
    pub mode: Mode,
    /// In the mode for all media: whether the item on show is a video.
    pub all_current_is_video: bool,
    /// Whether one item is on show (true) or the grid (false).
    pub gallery_open: bool,
    /// The queue indices behind the rows of the grid, as they were when the grid was made.
    pub gallery_order: Vec<usize>,
    /// Counts the makings of the grid, so that late pictures for an older one can be told.
    pub gallery_generation: u64,
    /// The rows of the grid.
    pub grid: Grid,
    pub slideshow_on: bool,
    /// One switch for all queues, each of which has a shuffle order of its own.
    pub shuffle_on: bool,
    /// One switch for all queues.
    pub loop_on: bool,
    pub search_query: String,
    pub ab_loop: AbLoopState,
    /// The share of the whole that a drag asks for, by its bits, until it is seeked to.
    pub pending_scrub: Option<u32>,
    /// The content hash of a path, once it was computed.
    pub sprite_hash: PathTable<String>,
    /// How far the preview for a content hash is. One that is done is not looked for on disk again.
    pub sprite_status: TextTable<SpriteStatus>,
    /// The list while it is filled bit by bit.
    pub pending_playlist_rebuild: Option<PlaylistRebuildJob>,
    pub library_loading: bool,
    pub library_loading_message: String,
    pub gallery_thumbs_pending: usize,
    pub gallery_thumbs_loaded: usize,
    pub gallery_thumbs_failed: usize,
    /// How often the rows without a picture were tried again.
    pub gallery_thumb_retry_pass: u8,
    /// Whether the grid is to be made anew once it was painted.
    pub pending_gallery_reload: bool,
    /// Whether items are to be added to the grid once no pictures are still to come.
    pub pending_gallery_append: bool,
    /// Counts the clearings, so that late batches for an older one can be told.
    pub library_session: u64,
    /// What the window and the player are still to do, first things first.
    pub effects: Vec<Effect>,
}

/// The content hashes of a table as text.
#[verifier::opaque]
pub open spec fn hash_texts(hashes: Map<Seq<u16>, String>) -> Map<Seq<u16>, Seq<char>> {
    hashes.map_values(|hash: String| hash@)
}

/// What [`AppState`] holds.
pub struct AppView {
    pub queue: QueueView,
    pub image_queue: QueueView,
    pub all_queue: QueueView,
    pub mode: Mode,
    pub all_current_is_video: bool,
    pub gallery_open: bool,
    pub gallery_order: Seq<usize>,
    pub gallery_generation: u64,
    pub grid: GridView,
    pub slideshow_on: bool,
    pub shuffle_on: bool,
    pub loop_on: bool,
    pub search_query: Seq<char>,
    pub ab_loop: AbLoopState,
    pub pending_scrub: Option<u32>,
    pub sprite_hash: Map<Seq<u16>, Seq<char>>,
    pub sprite_status: Map<Seq<char>, SpriteStatus>,
    pub rebuild: Option<JobView>,
    pub library_loading: bool,
    pub library_loading_message: Seq<char>,
    pub thumbs_pending: usize,
    pub thumbs_loaded: usize,
    pub thumbs_failed: usize,
    pub thumb_retry_pass: u8,
    pub pending_gallery_reload: bool,
    pub pending_gallery_append: bool,
    pub library_session: u64,
    pub effects: Seq<Effect>,
}

impl View for AppState {
    type V = AppView;

    open spec fn view(&self) -> AppView {
        AppView {
            queue: self.queue@,
            image_queue: self.image_queue@,
            all_queue: self.all_queue@,
            mode: self.mode,
            all_current_is_video: self.all_current_is_video,
            gallery_open: self.gallery_open,
            gallery_order: self.gallery_order@,
            gallery_generation: self.gallery_generation,
            grid: self.grid@,
            slideshow_on: self.slideshow_on,
            shuffle_on: self.shuffle_on,
            loop_on: self.loop_on,
            search_query: self.search_query@,
            ab_loop: self.ab_loop,
            pending_scrub: self.pending_scrub,
            sprite_hash: hash_texts(self.sprite_hash@),
            sprite_status: self.sprite_status@,
            rebuild: match self.pending_playlist_rebuild {
                Some(job) => Some(job@),
                None => None,
            },
            library_loading: self.library_loading,
            library_loading_message: self.library_loading_message@,
            thumbs_pending: self.gallery_thumbs_pending,
            thumbs_loaded: self.gallery_thumbs_loaded,
            thumbs_failed: self.gallery_thumbs_failed,
            thumb_retry_pass: self.gallery_thumb_retry_pass,
            pending_gallery_reload: self.pending_gallery_reload,
            pending_gallery_append: self.pending_gallery_append,
            library_session: self.library_session,
            effects: self.effects@,
        }
    }
}

impl AppView {
    /// The state when the program starts.
    pub open spec fn initial() -> AppView {
        AppView {
            queue: QueueView::empty(),
            image_queue: QueueView::empty(),
            all_queue: QueueView::empty(),
            mode: Mode::All,
            all_current_is_video: false,
            gallery_open: false,
            gallery_order: Seq::empty(),
            gallery_generation: 0,
            grid: GridView::empty(),
            slideshow_on: false,
            shuffle_on: false,
            loop_on: false,
            search_query: Seq::empty(),
            ab_loop: AbLoopState::Off,
            pending_scrub: None,
            sprite_hash: Map::empty(),
            sprite_status: Map::empty(),
            rebuild: None,
            library_loading: false,
            library_loading_message: Seq::empty(),
            thumbs_pending: 0,
            thumbs_loaded: 0,
            thumbs_failed: 0,
            thumb_retry_pass: 0,
            pending_gallery_reload: false,
            pending_gallery_append: false,
            library_session: 0,
            effects: Seq::empty(),
        }
    }

    /// The state with one more thing to do.
    pub open spec fn with(self, effect: Effect) -> AppView {
        AppView { effects: self.effects.push(effect), ..self }
    }

    /// The queue of a mode.
    pub open spec fn queue_of(self, mode: Mode) -> QueueView {
        match mode {
            Mode::Video => self.queue,
            Mode::Image => self.image_queue,
            Mode::All => self.all_queue,
        }
    }

    /// The queue of the mode that the window is in.
    pub open spec fn active(self) -> QueueView {
        self.queue_of(self.mode)
    }

    /// Whether the counts fit: the grid has the two flags of each row, and the pictures that came
    /// can be counted.
    pub open spec fn counts_fit(self) -> bool {
        &&& self.grid.video.len() == self.grid.failed.len()
        &&& self.thumbs_loaded + self.thumbs_failed <= usize::MAX
        &&& self.rebuild matches Some(job) ==> job.next_index <= job.filtered.len()
    }

    /// Whether a segment that loops ends after it begins.
    pub open spec fn loop_ordered(self) -> bool {
        self.ab_loop matches AbLoopState::Active { a, b } ==> a < b
    }

    /// Whether a filling of the list that is under way is for the list as it is now.
    pub open spec fn rows_current(self) -> bool {
        self.rebuild matches Some(job) ==> {
            &&& job.filtered == self.active().filtered(self.search_query)
            &&& job.now_playing == self.active().now_playing
            &&& job.show_sprite_status == (self.mode == Mode::Video)
        }
    }
}

impl AppState {
    /// Whether each part of the state is as it should be.
    pub open spec fn parts_wf(self) -> bool {
        &&& self.queue.wf()
        &&& self.image_queue.wf()
        &&& self.all_queue.wf()
        &&& self.sprite_hash.wf()
        &&& self.sprite_status.wf()
        &&& self@.counts_fit()
        &&& self@.loop_ordered()
    }

    /// What holds of the state between any two events: each part is as it should be, and a filling
    /// of the list that is under way is for the list as it is now.
    pub open spec fn wf(self) -> bool {
        self.parts_wf() && self@.rows_current()
    }

    /// The state when the program starts.
    pub fn new() -> (state: Self)
        ensures
            state.wf(),
            state@ == AppView::initial(),
    {
        let state = AppState {
            queue: Queue::new(),
            image_queue: Queue::new(),
            all_queue: Queue::new(),
            mode: Mode::All,
            all_current_is_video: false,
            gallery_open: false,
            gallery_order: Vec::new(),
            gallery_generation: 0,
            grid: Grid {
                video: Vec::new(),
                failed: Vec::new(),
                work: Vec::new(),
                shown: Vec::new(),
            },
            slideshow_on: false,
            shuffle_on: false,
            loop_on: false,
            search_query: String::new(),
            ab_loop: AbLoopState::Off,
            pending_scrub: None,
            sprite_hash: PathTable::new(),
            sprite_status: TextTable::new(),
            pending_playlist_rebuild: None,
            library_loading: false,
            library_loading_message: String::new(),
            gallery_thumbs_pending: 0,
            gallery_thumbs_loaded: 0,
            gallery_thumbs_failed: 0,
            gallery_thumb_retry_pass: 0,
            pending_gallery_reload: false,
            pending_gallery_append: false,
            library_session: 0,
            effects: Vec::new(),
        };
        proof {
            reveal(hash_texts);
        }
        assert(state@.sprite_hash =~= AppView::initial().sprite_hash);
        assert(state@.grid.shown =~= AppView::initial().grid.shown);
        assert(state@.search_query =~= AppView::initial().search_query);
        assert(state@.library_loading_message =~= AppView::initial().library_loading_message);
        state
    }

    /// The queue of the mode that the window is in.
    pub fn active_queue(&self) -> (queue: &Queue)
        requires
            self.parts_wf(),
        ensures
            queue@ == self@.active(),
            queue.wf(),
    {
        match self.mode {
            Mode::Video => &self.queue,
            Mode::Image => &self.image_queue,
            Mode::All => &self.all_queue,
        }
    }

    /// Asks the window or the player for one more thing.
    pub fn ask_for(&mut self, effect: Effect)
        requires
            old(self).parts_wf(),
        ensures
            final(self).parts_wf(),
            final(self)@ == old(self)@.with(effect),
            old(self).wf() ==> final(self).wf(),
    {
        self.effects.push(effect);
    }

    /// Hands out what the window and the player are to do, and forgets it.
    pub fn take_effects(&mut self) -> (effects: Vec<Effect>)
        requires
            old(self).wf(),
        ensures
            final(self).wf(),
            effects@ == old(self)@.effects,
            final(self)@ == (AppView { effects: Seq::empty(), ..old(self)@ }),
    {
        let mut effects: Vec<Effect> = Vec::new();
        std::mem::swap(&mut effects, &mut self.effects);
        effects
    }
}

} // verus!
