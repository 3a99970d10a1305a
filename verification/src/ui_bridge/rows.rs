//! The rows of the list.

use super::format::{format_file_size, size_text};
use super::state::{AppState, AppView, Mode, SpriteStatus};
use crate::library::ext::kind_of;
use crate::library::{media_kind, MediaKind};
use crate::path::MediaPath;
use crate::playlist::laws::order_names_shown_items;
use crate::text::str_eq;
use vstd::prelude::*;

verus! {

/// One row of the list.
#[derive(Debug)]
pub struct PlaylistRow {
    pub queue_index: usize,
    pub name: String,
    pub playing: bool,
    /// A sign for how far the preview is.
    pub sprite_status: String,
    pub file_size_text: String,
    pub is_video: bool,
}

/// What [`PlaylistRow`] holds.
pub struct RowView {
    pub queue_index: usize,
    pub name: Seq<char>,
    pub playing: bool,
    pub sprite_status: Seq<char>,
    pub file_size_text: Seq<char>,
    pub is_video: bool,
}

impl View for PlaylistRow {
    type V = RowView;

    open spec fn view(&self) -> RowView {
        RowView {
            queue_index: self.queue_index,
            name: self.name@,
            playing: self.playing,
            sprite_status: self.sprite_status@,
            file_size_text: self.file_size_text@,
            is_video: self.is_video,
        }
    }
}

/// The sign for how far a preview is.
pub open spec fn status_glyph(status: SpriteStatus) -> Seq<char> {
    match status {
        SpriteStatus::NotStarted => "-"@,
        SpriteStatus::InProgress => "⏳"@,
        SpriteStatus::Done => "✓"@,
    }
}

/// The sign for how far a preview is.
pub fn sprite_status_glyph(status: SpriteStatus) -> (glyph: &'static str)
    ensures
        glyph@ == status_glyph(status),
{
    match status {
        SpriteStatus::NotStarted => "-",
        SpriteStatus::InProgress => "⏳",
        SpriteStatus::Done => "✓",
    }
}

impl AppView {
    /// Whether the row of an item shows how far its preview is: all rows do in the mode for
    /// videos, those of videos in the mode for all media, none in the mode for images.
    pub open spec fn row_shows_status(self, index: usize) -> bool {
        self.mode == Mode::Video || (self.mode == Mode::All && kind_of(
            self.active().items[index as int].path,
        ) == MediaKind::Video)
    }

    /// The row of an item. A deferred one has the sign of a preview that is not begun.
    pub open spec fn row_of(self, index: usize, deferred: bool, status: SpriteStatus) -> RowView {
        let item = self.active().items[index as int];
        RowView {
            queue_index: index,
            name: item.name,
            playing: self.active().now_playing == Some(index),
            sprite_status: if deferred {
                "-"@
            } else if self.row_shows_status(index) {
                status_glyph(status)
            } else {
                Seq::empty()
            },
            file_size_text: match item.size_bytes {
                Some(bytes) => size_text(bytes as nat),
                None => Seq::empty(),
            },
            is_video: kind_of(item.path) == MediaKind::Video,
        }
    }

    /// The rows for the items `shown`: all of them, or those that show how far the preview is.
    pub open spec fn rows_among(self, shown: Seq<usize>, with_status: bool) -> Seq<usize>
        decreases shown.len(),
    {
        if shown.len() == 0 {
            Seq::empty()
        } else {
            let rest = self.rows_among(shown.drop_last(), with_status);
            if !with_status || self.row_shows_status(shown.last()) {
                rest.push((shown.len() - 1) as usize)
            } else {
                rest
            }
        }
    }
}

/// The rows whose content hash is `hash`, in their order.
pub open spec fn rows_with_hash(rows: Seq<usize>, hashes: Seq<Option<String>>, hash: Seq<char>) -> Seq<
    usize,
>
    decreases rows.len(),
{
    if rows.len() == 0 {
        Seq::empty()
    } else {
        let rest = rows_with_hash(rows.drop_last(), hashes.take(rows.len() - 1), hash);
        if hashes[rows.len() - 1] matches Some(h) && h@ == hash {
            rest.push(rows.last())
        } else {
            rest
        }
    }
}

/// The rows whose content hash is `hash`, given the content hash of each, where it is known.
pub fn matching_rows(rows: &Vec<usize>, hashes: &Vec<Option<String>>, hash: &str) -> (matching: Vec<
    usize,
>)
    requires
        rows.len() == hashes.len(),
    ensures
        matching@ == rows_with_hash(rows@, hashes@, hash@),
{
    let mut matching: Vec<usize> = Vec::new();
    let mut i: usize = 0;
    assert(rows@.take(0) =~= Seq::empty());
    while i < rows.len()
        invariant
            i <= rows.len(),
            rows.len() == hashes.len(),
            matching@ == rows_with_hash(rows@.take(i as int), hashes@.take(i as int), hash@),
        decreases rows.len() - i,
    {
        proof {
            let r = rows@.take(i + 1);
            let h = hashes@.take(i + 1);
            assert(r.drop_last() =~= rows@.take(i as int));
            assert(h.take(r.len() - 1) =~= hashes@.take(i as int));
        }
        let same = match &hashes[i] {
            Some(h) => str_eq(h.as_str(), hash),
            None => false,
        };
        if same {
            matching.push(rows[i]);
        }
        i += 1;
    }
    assert(rows@.take(i as int) =~= rows@);
    assert(hashes@.take(i as int) =~= hashes@);
    matching
}

impl AppState {
    /// Whether the row of an item shows how far its preview is.
    pub fn row_shows_status(&self, index: usize) -> (shows: bool)
        requires
            self.parts_wf(),
            index < self@.active().items.len(),
        ensures
            shows == self@.row_shows_status(index),
    {
        match self.active_queue().item(index) {
            Some(item) => self.mode == Mode::Video || (self.mode == Mode::All && media_kind(
                &item.path,
            ) == MediaKind::Video),
            None => false,
        }
    }

    /// The row of an item, given how far its preview is.
    pub fn playlist_row(&self, index: usize, deferred: bool, status: SpriteStatus) -> (row:
        PlaylistRow)
        requires
            self.parts_wf(),
            index < self@.active().items.len(),
        ensures
            row@ == self@.row_of(index, deferred, status),
    {
        let glyph = if deferred {
            "-"
        } else if self.row_shows_status(index) {
            sprite_status_glyph(status)
        } else {
            ""
        };
        proof {
            reveal_strlit("");
            assert(""@ =~= Seq::empty());
        }
        let queue = self.active_queue();
        let playing = match queue.now_playing() {
            Some(now) => now == index,
            None => false,
        };
        let (name, size, video) = match queue.item(index) {
            Some(item) => (
                item.name.as_str().to_string(),
                item.size_bytes,
                media_kind(&item.path) == MediaKind::Video,
            ),
            None => (String::new(), None, false),
        };
        let file_size_text = match size {
            Some(bytes) => format_file_size(bytes),
            None => String::new(),
        };
        let row = PlaylistRow {
            queue_index: index,
            name,
            playing,
            sprite_status: glyph.to_string(),
            file_size_text,
            is_video: video,
        };
        assert(row@.file_size_text =~= self@.row_of(index, deferred, status).file_size_text);
        row
    }

    /// The rows of the list, or those of them that show how far the preview is, with the paths of
    /// their items.
    pub fn listed_rows(&self, with_status: bool) -> (listed: (Vec<usize>, Vec<MediaPath>))
        requires
            self.parts_wf(),
        ensures
            listed.0@ == self@.rows_among(
                self@.active().filtered(self@.search_query),
                with_status,
            ),
            listed.0.len() == listed.1.len(),
            forall|k: int|
                0 <= k < listed.0.len() ==> (#[trigger] listed.1@[k])@
                    == self@.active().items[self@.active().filtered(
                    self@.search_query,
                )[listed.0@[k] as int] as int].path,
    {
        let queue = self.active_queue();
        let shown = queue.filtered_indices(self.search_query.as_str());
        proof {
            queue.wf_contents();
            order_names_shown_items(queue@, self@.search_query, false);
            assert(queue@.current_order(self@.search_query, false) == shown@);
        }
        let mut rows: Vec<usize> = Vec::new();
        let mut paths: Vec<MediaPath> = Vec::new();
        let mut i: usize = 0;
        assert(shown@.take(0) =~= Seq::empty());
        while i < shown.len()
            invariant
                i <= shown.len(),
                self.parts_wf(),
                queue@ == self@.active(),
                shown@ == self@.active().filtered(self@.search_query),
                rows@ == self@.rows_among(shown@.take(i as int), with_status),
                rows.len() == paths.len(),
                forall|k: int|
                    0 <= k < rows.len() ==> (#[trigger] paths@[k])@
                        == self@.active().items[shown@[rows@[k] as int] as int].path,
                forall|x: usize| #[trigger]
                    shown@.contains(x) ==> self@.active().shows(x, self@.search_query),
            decreases shown.len() - i,
        {
            assert(shown@.contains(shown@[i as int]));
            assert(shown@.take(i + 1).drop_last() =~= shown@.take(i as int));
            let index = shown[i];
            if !with_status || self.row_shows_status(index) {
                match queue.item(index) {
                    Some(item) => {
                        rows.push(i);
                        paths.push(item.path.clone());
                    },
                    None => {
                        assert(false);
                    },
                }
            }
            i += 1;
        }
        assert(shown@.take(i as int) =~= shown@);
        (rows, paths)
    }
}

/// How many decoded pictures of rows are kept at most.
pub const POSTER_IMAGE_CACHE_MAX: usize = 512;

/// Decoded pictures of rows, by the content hash of their item, so that a picture need not be read
/// again whenever the list is filled anew.
#[derive(Debug)]
pub struct PosterImageCache<T> {
    entries: Vec<(String, T)>,
}

impl<T> View for PosterImageCache<T> {
    type V = Seq<(Seq<char>, T)>;

    closed spec fn view(&self) -> Seq<(Seq<char>, T)> {
        self.entries@.map_values(|e: (String, T)| (e.0@, e.1))
    }
}

/// Whether one of the entries is for the content hash.
pub open spec fn has_poster<T>(entries: Seq<(Seq<char>, T)>, hash: Seq<char>) -> bool {
    exists|i: int| 0 <= i < entries.len() && (#[trigger] entries[i]).0 == hash
}

/// Whether no content hash has two entries, and there are not too many.
pub open spec fn posters_wf<T>(entries: Seq<(Seq<char>, T)>) -> bool {
    &&& entries.len() <= POSTER_IMAGE_CACHE_MAX
    &&& forall|i: int, j: int|
        0 <= i < j < entries.len() ==> (#[trigger] entries[i]).0 != (#[trigger] entries[j]).0
}

impl<T> PosterImageCache<T> {
    /// An empty cache.
    pub fn new() -> (cache: Self)
        ensures
            cache@ == Seq::<(Seq<char>, T)>::empty(),
            posters_wf(cache@),
    {
        let cache = PosterImageCache { entries: Vec::new() };
        assert(cache@ =~= Seq::<(Seq<char>, T)>::empty());
        cache
    }

    /// The picture that is kept for a content hash.
    pub fn get(&self, hash: &str) -> (image: Option<&T>)
        ensures
            match image {
                Some(image) => exists|i: int|
                    0 <= i < self@.len() && (#[trigger] self@[i]) == (hash@, *image),
                None => !has_poster(self@, hash@),
            },
    {
        let mut i: usize = 0;
        while i < self.entries.len()
            invariant
                i <= self.entries.len(),
                forall|k: int| 0 <= k < i ==> (#[trigger] self@[k]).0 != hash@,
            decreases self.entries.len() - i,
        {
            if str_eq(self.entries[i].0.as_str(), hash) {
                assert(self@[i as int] == (hash@, self.entries@[i as int].1));
                return Some(&self.entries[i].1);
            }
            assert(self@[i as int].0 == self.entries@[i as int].0@);
            i += 1;
        }
        None
    }

    /// Keeps a picture for a content hash that has none. The oldest picture makes room where the
    /// cache is full.
    pub fn insert(&mut self, hash: String, image: T)
        requires
            posters_wf(old(self)@),
            !has_poster(old(self)@, hash@),
        ensures
            posters_wf(final(self)@),
            final(self)@ == (if old(self)@.len() >= POSTER_IMAGE_CACHE_MAX {
                old(self)@.drop_first()
            } else {
                old(self)@
            }).push((hash@, image)),
    {
        if self.entries.len() >= POSTER_IMAGE_CACHE_MAX {
            self.entries.remove(0);
        }
        self.entries.push((hash, image));
        proof {
            let kept = if old(self)@.len() >= POSTER_IMAGE_CACHE_MAX {
                old(self)@.drop_first()
            } else {
                old(self)@
            };
            assert(self@ =~= kept.push((hash@, image)));
        }
    }
}

} // verus!
