//! Previews of videos: which are there, which are being made, and where they are shown.

use super::effect::Effect;
use super::state::{hash_texts, AppState, AppView, Mode, SpriteStatus};
use crate::library::ext::is_video;
use crate::library::is_video_file;
use crate::library::scan::opt_text;
use crate::path::MediaPath;
use crate::path_key::path_key;
use crate::playlist::shuffle::random_upto;
use crate::text::str_eq;
use crate::thumbnails::sprite::SpriteMeta;
use vstd::prelude::*;

verus! {

/// What the preview of the progress bar is to show.
#[derive(Debug, Clone, Copy, PartialEq, Eq, Structural)]
pub enum Preview {
    /// No preview.
    Clear,
    /// That the preview is being made.
    Loading,
    /// The preview that was made.
    Sheet,
}

/// What to do once the wait before making a preview is over.
#[derive(Debug, Clone, Copy, PartialEq, Eq, Structural)]
pub enum SpriteStart {
    /// Nothing more.
    Skip,
    /// Make the preview.
    Generate,
}

impl AppView {
    /// The state with a content hash remembered for a path.
    pub open spec fn hash_known(self, path: Seq<u8>, hash: Seq<char>) -> AppView {
        AppView { sprite_hash: self.sprite_hash.insert(path_key(path), hash), ..self }
    }

    /// The state with a content hash remembered for a path that had none.
    pub open spec fn hash_primed(self, path: Seq<u8>, hash: Seq<char>) -> AppView {
        if self.sprite_hash.contains_key(path_key(path)) {
            self
        } else {
            self.hash_known(path, hash)
        }
    }

    /// The content hash that is remembered for a path.
    pub open spec fn known_hash(self, path: Seq<u8>) -> Option<Seq<char>> {
        if self.sprite_hash.contains_key(path_key(path)) {
            Some(self.sprite_hash[path_key(path)])
        } else {
            None
        }
    }

    /// How far the preview for a content hash is known to be.
    pub open spec fn known_status(self, hash: Seq<char>) -> SpriteStatus {
        if self.sprite_status.contains_key(hash) {
            self.sprite_status[hash]
        } else {
            SpriteStatus::NotStarted
        }
    }

    /// The state with how far the preview for a content hash is.
    pub open spec fn status_set(self, hash: Seq<char>, status: SpriteStatus) -> AppView {
        AppView { sprite_status: self.sprite_status.insert(hash, status), ..self }
    }

    /// How far the preview for a content hash is, given whether it lies on disk.
    pub open spec fn status_of(self, hash: Seq<char>, on_disk: bool) -> SpriteStatus {
        if self.known_status(hash) == SpriteStatus::Done || on_disk {
            SpriteStatus::Done
        } else {
            self.known_status(hash)
        }
    }

    /// The item on show if it is a video: never in the mode for images.
    pub open spec fn current_video_index(self) -> Option<usize> {
        match self.mode {
            Mode::Video => if self.queue.now_playing matches Some(i) && i < self.queue.items.len() {
                self.queue.now_playing
            } else {
                None
            },
            Mode::All => if self.all_current_is_video && (self.all_queue.now_playing matches Some(
                i,
            ) && i < self.all_queue.items.len()) {
                self.all_queue.now_playing
            } else {
                None
            },
            Mode::Image => None,
        }
    }

    /// The path of the item on show if it is a video.
    pub open spec fn current_video_path(self) -> Option<Seq<u8>> {
        match self.current_video_index() {
            Some(index) => Some(self.active().items[index as int].path),
            None => None,
        }
    }

    /// The item on show outside the mode for images.
    pub open spec fn now_playing_index(self) -> Option<usize> {
        match self.mode {
            Mode::Video => self.queue.now_playing,
            Mode::All => self.all_queue.now_playing,
            Mode::Image => None,
        }
    }

    /// The path of an item that can have a preview: a video, outside the mode for images.
    pub open spec fn previewable(self, index: usize) -> Option<Seq<u8>> {
        if self.mode != Mode::Image && index < self.active().items.len() && is_video(
            self.active().items[index as int].path,
        ) {
            Some(self.active().items[index as int].path)
        } else {
            None
        }
    }

    /// The state after the preview of an item was planned, if it can have one.
    pub open spec fn sprite_scheduled(self, index: usize) -> AppView {
        if self.previewable(index) is Some {
            self.with(Effect::ScheduleSprite(index))
        } else {
            self
        }
    }

    /// Whether a preview is begun once the wait for the item is over: it is still the one on
    /// show, its hash is known, and the preview is neither there nor being made.
    pub open spec fn begins_sprite(
        self,
        index: usize,
        status: SpriteStatus,
        hash: Option<Seq<char>>,
    ) -> bool {
        self.now_playing_index() == Some(index) && status == SpriteStatus::NotStarted
            && hash is Some
    }

    /// The path of the video whose preview the progress bar shows.
    pub open spec fn preview_source(self) -> Option<Seq<u8>> {
        match self.current_video_path() {
            Some(path) => if is_video(path) {
                Some(path)
            } else {
                None
            },
            None => None,
        }
    }

    /// What the preview of the progress bar shows, given how far the preview of the video on show
    /// is and whether its sheet could be had.
    pub open spec fn progress_preview(self, status: SpriteStatus, loaded: bool) -> Preview {
        if self.preview_source() is None {
            Preview::Clear
        } else {
            match status {
                SpriteStatus::Done => if loaded {
                    Preview::Sheet
                } else {
                    Preview::Clear
                },
                SpriteStatus::InProgress => Preview::Loading,
                SpriteStatus::NotStarted => Preview::Clear,
            }
        }
    }

    /// Whether the list shows the preview of an item: the item can have one, the preview is done,
    /// and its sheet could be had.
    pub open spec fn shows_list_preview(
        self,
        index: usize,
        status: SpriteStatus,
        sheet: Option<SpriteMeta>,
    ) -> bool {
        self.previewable(index) is Some && status == SpriteStatus::Done && sheet is Some
    }

    /// The state after the pointer came to an item of the list. Where the item has no preview to
    /// show, the one on show is taken away.
    pub open spec fn list_preview_shown(
        self,
        index: usize,
        status: SpriteStatus,
        sheet: Option<SpriteMeta>,
    ) -> AppView {
        if self.shows_list_preview(index, status, sheet) {
            self
        } else {
            self.with(Effect::HideListPreview)
        }
    }

    /// The state after the wait before making the preview of an item was over.
    pub open spec fn sprite_timer_fired(
        self,
        index: usize,
        status: SpriteStatus,
        hash: Option<Seq<char>>,
    ) -> AppView {
        if self.now_playing_index() != Some(index) {
            self
        } else {
            match status {
                SpriteStatus::Done => self.with(Effect::SyncSpritePreview),
                SpriteStatus::InProgress => self.with(Effect::ShowSpriteLoading),
                SpriteStatus::NotStarted => match hash {
                    Some(h) => self.status_set(h, SpriteStatus::InProgress).with(
                        Effect::ShowSpriteLoading,
                    ),
                    None => self,
                },
            }
        }
    }

    /// The state after a preview was made, or could not be made. One that could not be made may
    /// be tried again.
    pub open spec fn sprite_result_applied(
        self,
        hash: Seq<char>,
        ok: bool,
        current: Option<Seq<char>>,
    ) -> AppView {
        if ok {
            let done = self.status_set(hash, SpriteStatus::Done);
            if current == Some(hash) {
                done.with(Effect::SyncSpritePreview)
            } else {
                done
            }
        } else {
            self.status_set(hash, SpriteStatus::NotStarted).with(Effect::HideSpriteLoading)
        }
    }
}

/// A preview that is known to be done stays done, whatever lies on disk later.
pub proof fn done_stays_done(s: AppView, hash: Seq<char>, on_disk: bool)
    requires
        s.known_status(hash) == SpriteStatus::Done,
    ensures
        s.status_of(hash, on_disk) == SpriteStatus::Done,
{
}

/// A preview that could not be made is begun again the next time its item has been on show long
/// enough.
pub proof fn failed_sprite_is_retried(
    s: AppView,
    hash: Seq<char>,
    current: Option<Seq<char>>,
    index: usize,
)
    requires
        s.now_playing_index() == Some(index),
    ensures
        ({
            let after = s.sprite_result_applied(hash, false, current);
            after.begins_sprite(index, after.status_of(hash, false), Some(hash))
        }),
{
}

/// While a preview is being made it is not begun a second time.
pub proof fn sprite_is_begun_once(s: AppView, hash: Seq<char>, index: usize)
    requires
        s.begins_sprite(index, SpriteStatus::NotStarted, Some(hash)),
    ensures
        ({
            let after = s.sprite_timer_fired(index, SpriteStatus::NotStarted, Some(hash));
            !after.begins_sprite(index, after.status_of(hash, false), Some(hash))
        }),
{
}

/// The column and the row of a frame in a sheet with so many columns.
pub open spec fn frame_place(frame: u32, columns: u32) -> (u32, u32) {
    (frame % columns, frame / columns)
}

/// Whether a cell is that of one of the frames of a sheet; of the first one where there is none.
pub open spec fn is_cell_of(cell: (u32, u32), frame_count: u32, columns: u32) -> bool {
    exists|frame: u32|
        (frame < frame_count || frame_count == 0 && frame == 0) && cell == #[trigger] frame_place(
            frame,
            columns,
        )
}

/// The column and the row of a frame in a sheet with so many columns.
pub fn frame_cell(frame: u32, columns: u32) -> (cell: (u32, u32))
    requires
        columns > 0,
    ensures
        cell == frame_place(frame, columns),
{
    (frame % columns, frame / columns)
}

/// A frame of a sheet, left to chance; the first one where there is none.
pub fn pick_frame(frame_count: u32) -> (frame: u32)
    ensures
        frame_count > 0 ==> frame < frame_count,
        frame_count == 0 ==> frame == 0,
{
    if frame_count > 0 {
        random_upto((frame_count - 1) as usize) as u32
    } else {
        0
    }
}

/// The path as bytes, where there is one.
pub open spec fn opt_path(path: Option<MediaPath>) -> Option<Seq<u8>> {
    match path {
        Some(p) => Some(p@),
        None => None,
    }
}

impl AppState {
    fn insert_hash(&mut self, path: &MediaPath, hash: String)
        requires
            old(self).wf(),
        ensures
            final(self).wf(),
            final(self)@ == old(self)@.hash_known(path@, hash@),
    {
        proof {
            reveal(hash_texts);
        }
        self.sprite_hash.insert(path, hash);
        assert(self@.sprite_hash =~= old(self)@.hash_known(path@, hash@).sprite_hash);
    }

    /// The content hash that is remembered for a path.
    pub fn known_hash(&self, path: &MediaPath) -> (hash: Option<String>)
        requires
            self.parts_wf(),
        ensures
            opt_text(hash) == self@.known_hash(path@),
    {
        proof {
            reveal(hash_texts);
        }
        match self.sprite_hash.get(path) {
            Some(hash) => Some(hash.as_str().to_string()),
            None => None,
        }
    }

    /// Remembers a content hash that was computed elsewhere, unless one is remembered.
    pub fn prime_sprite_hash(&mut self, path: &MediaPath, hash: String)
        requires
            old(self).wf(),
        ensures
            final(self).wf(),
            final(self)@ == old(self)@.hash_primed(path@, hash@),
    {
        if self.known_hash(path).is_none() {
            self.insert_hash(path, hash);
        }
    }

    /// The content hash of a path: the one that is remembered, or else the one that was computed
    /// for it, which is then remembered. `None` where none could be computed.
    pub fn sprite_hash_for(&mut self, path: &MediaPath, computed: Option<String>) -> (hash: Option<
        String,
    >)
        requires
            old(self).wf(),
        ensures
            final(self).wf(),
            opt_text(hash) == (match old(self)@.known_hash(path@) {
                Some(known) => Some(known),
                None => opt_text(computed),
            }),
            final(self)@ == match computed {
                Some(c) => old(self)@.hash_primed(path@, c@),
                None => old(self)@,
            },
    {
        match self.known_hash(path) {
            Some(hash) => Some(hash),
            None => match computed {
                Some(hash) => {
                    self.insert_hash(path, hash.as_str().to_string());
                    Some(hash)
                },
                None => None,
            },
        }
    }

    /// How far the preview for a content hash is, given whether it lies on disk. Without a hash
    /// it is not begun.
    pub fn sprite_status_for(&mut self, hash: Option<&str>, on_disk: bool) -> (status:
        SpriteStatus)
        requires
            old(self).wf(),
        ensures
            final(self).wf(),
            match hash {
                Some(h) => {
                    &&& status == old(self)@.status_of(h@, on_disk)
                    &&& final(self)@ == if on_disk && old(self)@.known_status(h@)
                        != SpriteStatus::Done {
                        old(self)@.status_set(h@, SpriteStatus::Done)
                    } else {
                        old(self)@
                    }
                },
                None => status == SpriteStatus::NotStarted && final(self)@ == old(self)@,
            },
    {
        match hash {
            None => SpriteStatus::NotStarted,
            Some(h) => {
                let known = match self.sprite_status.get(h) {
                    Some(status) => *status,
                    None => SpriteStatus::NotStarted,
                };
                if known == SpriteStatus::Done {
                    return SpriteStatus::Done;
                }
                if on_disk {
                    self.sprite_status.insert(h.to_string(), SpriteStatus::Done);
                    return SpriteStatus::Done;
                }
                known
            },
        }
    }

    /// The path of the item on show if it is a video.
    pub fn current_video_path(&self) -> (path: Option<MediaPath>)
        requires
            self.parts_wf(),
        ensures
            opt_path(path) == self@.current_video_path(),
    {
        let queue = match self.mode {
            Mode::Video => &self.queue,
            Mode::All => {
                if !self.all_current_is_video {
                    return None;
                }
                &self.all_queue
            },
            Mode::Image => {
                return None;
            },
        };
        match queue.now_playing() {
            Some(index) => match queue.item(index) {
                Some(item) => Some(item.path.clone()),
                None => None,
            },
            None => None,
        }
    }

    /// The item on show outside the mode for images.
    pub fn now_playing_index(&self) -> (index: Option<usize>)
        ensures
            index == self@.now_playing_index(),
    {
        match self.mode {
            Mode::Video => self.queue.now_playing(),
            Mode::All => self.all_queue.now_playing(),
            Mode::Image => None,
        }
    }

    /// The path of the video whose preview the progress bar shows.
    pub fn preview_source(&self) -> (path: Option<MediaPath>)
        requires
            self.parts_wf(),
        ensures
            opt_path(path) == self@.preview_source(),
    {
        match self.current_video_path() {
            Some(path) => if is_video_file(&path) {
                Some(path)
            } else {
                None
            },
            None => None,
        }
    }

    /// The path of an item that can have a preview.
    pub fn previewable(&self, index: usize) -> (path: Option<MediaPath>)
        requires
            self.parts_wf(),
        ensures
            opt_path(path) == self@.previewable(index),
    {
        if self.mode == Mode::Image {
            return None;
        }
        match self.active_queue().item(index) {
            Some(item) => if is_video_file(&item.path) {
                Some(item.path.clone())
            } else {
                None
            },
            None => None,
        }
    }

    /// Takes away the preview of the progress bar.
    pub fn clear_sprite_preview(&mut self)
        requires
            old(self).wf(),
        ensures
            final(self).wf(),
            final(self)@ == old(self)@.with(Effect::ClearSpritePreview),
    {
        self.effects.push(Effect::ClearSpritePreview);
    }

    /// Takes away the preview of the list.
    pub fn hide_list_sprite_preview(&mut self)
        requires
            old(self).wf(),
        ensures
            final(self).wf(),
            final(self)@ == old(self)@.with(Effect::HideListPreview),
    {
        self.effects.push(Effect::HideListPreview);
    }

    /// What the preview of the progress bar is to show, given how far the preview of the video on
    /// show is and whether its sheet could be had.
    pub fn sync_sprite_preview(&self, status: SpriteStatus, loaded: bool) -> (preview: Preview)
        requires
            self.parts_wf(),
        ensures
            preview == self@.progress_preview(status, loaded),
    {
        if self.preview_source().is_none() {
            return Preview::Clear;
        }
        match status {
            SpriteStatus::Done => if loaded {
                Preview::Sheet
            } else {
                Preview::Clear
            },
            SpriteStatus::InProgress => Preview::Loading,
            SpriteStatus::NotStarted => Preview::Clear,
        }
    }

    /// Takes in that the pointer came to an item of the list, and says which cell of the sheet of
    /// its preview the list is to show, given the frame to show. `status` is how far the preview of
    /// the item is, `sheet` what is known of its sheet where that could be had.
    pub fn list_preview_cell(
        &mut self,
        index: usize,
        status: SpriteStatus,
        sheet: Option<SpriteMeta>,
        frame: u32,
    ) -> (cell: Option<(u32, u32)>)
        requires
            old(self).wf(),
            sheet matches Some(meta) ==> meta.columns > 0,
        ensures
            final(self).wf(),
            final(self)@ == old(self)@.list_preview_shown(index, status, sheet),
            cell == (if old(self)@.shows_list_preview(index, status, sheet) {
                Some(frame_place(frame, sheet->0.columns))
            } else {
                None
            }),
    {
        match sheet {
            Some(meta) => {
                if self.previewable(index).is_some() && status == SpriteStatus::Done {
                    return Some(frame_cell(frame, meta.columns));
                }
            },
            None => {},
        }
        self.effects.push(Effect::HideListPreview);
        None
    }

    /// Takes in that the pointer came to an item of the list, and says which cell of the sheet of
    /// its preview the list is to show: that of a frame left to chance.
    pub fn show_list_sprite_preview(
        &mut self,
        index: usize,
        status: SpriteStatus,
        sheet: Option<SpriteMeta>,
    ) -> (cell: Option<(u32, u32)>)
        requires
            old(self).wf(),
            sheet matches Some(meta) ==> meta.columns > 0,
        ensures
            final(self).wf(),
            final(self)@ == old(self)@.list_preview_shown(index, status, sheet),
            match cell {
                Some(place) => old(self)@.shows_list_preview(index, status, sheet)
                    && is_cell_of(place, sheet->0.frame_count, sheet->0.columns),
                None => !old(self)@.shows_list_preview(index, status, sheet),
            },
    {
        let frame = match sheet {
            Some(meta) => pick_frame(meta.frame_count),
            None => 0,
        };
        self.list_preview_cell(index, status, sheet, frame)
    }

    /// Plans to make the preview of an item, if it can have one.
    pub fn schedule_sprite_generation(&mut self, index: usize)
        requires
            old(self).wf(),
        ensures
            final(self).wf(),
            final(self)@ == old(self)@.sprite_scheduled(index),
    {
        if self.previewable(index).is_some() {
            self.effects.push(Effect::ScheduleSprite(index));
        }
    }

    fn set_status(&mut self, hash: String, status: SpriteStatus, effect: Effect)
        requires
            old(self).wf(),
        ensures
            final(self).wf(),
            final(self)@ == old(self)@.status_set(hash@, status).with(effect),
    {
        self.sprite_status.insert(hash, status);
        self.effects.push(effect);
    }

    /// Takes in that the wait before making the preview of an item is over, and says whether to
    /// make it.
    pub fn sprite_timer_fired(
        &mut self,
        index: usize,
        status: SpriteStatus,
        hash: Option<String>,
    ) -> (start: SpriteStart)
        requires
            old(self).wf(),
        ensures
            final(self).wf(),
            final(self)@ == old(self)@.sprite_timer_fired(index, status, opt_text(hash)),
            start == (if old(self)@.begins_sprite(index, status, opt_text(hash)) {
                SpriteStart::Generate
            } else {
                SpriteStart::Skip
            }),
    {
        match self.now_playing_index() {
            Some(playing) => {
                if playing != index {
                    return SpriteStart::Skip;
                }
            },
            None => {
                return SpriteStart::Skip;
            },
        }
        match status {
            SpriteStatus::Done => {
                self.ask_for(Effect::SyncSpritePreview);
                SpriteStart::Skip
            },
            SpriteStatus::InProgress => {
                self.ask_for(Effect::ShowSpriteLoading);
                SpriteStart::Skip
            },
            SpriteStatus::NotStarted => match hash {
                Some(hash) => {
                    self.set_status(hash, SpriteStatus::InProgress, Effect::ShowSpriteLoading);
                    SpriteStart::Generate
                },
                None => SpriteStart::Skip,
            },
        }
    }

    /// Takes in that a preview was made (`ok`), or could not be made. `current` is the content
    /// hash of the video on show, where there is one. Gives back how far the preview is now.
    pub fn apply_sprite_result(&mut self, hash: String, ok: bool, current: Option<String>) -> (status:
        SpriteStatus)
        requires
            old(self).wf(),
        ensures
            final(self).wf(),
            final(self)@ == old(self)@.sprite_result_applied(hash@, ok, opt_text(current)),
            status == (if ok {
                SpriteStatus::Done
            } else {
                SpriteStatus::NotStarted
            }),
    {
        if ok {
            let on_show = match current {
                Some(current) => str_eq(current.as_str(), hash.as_str()),
                None => false,
            };
            if on_show {
                self.set_status(hash, SpriteStatus::Done, Effect::SyncSpritePreview);
            } else {
                self.sprite_status.insert(hash, SpriteStatus::Done);
            }
            SpriteStatus::Done
        } else {
            self.set_status(hash, SpriteStatus::NotStarted, Effect::HideSpriteLoading);
            SpriteStatus::NotStarted
        }
    }
}

} // verus!
