//! Previews of videos: sheets of small frames.

use super::frame::{ExtractError, ExtractErrorView, RawFrame};
use super::picture::{encode_rgba, put_tile, rgba_jpeg, tiled, tiled_byte};
use crate::text::str_eq;
use vstd::prelude::*;

verus! {

/// The width of a small frame in pixels.
pub const THUMB_W: u32 = 160;

/// The height of a small frame in pixels.
pub const THUMB_H: u32 = 90;

/// How many small frames stand side by side.
pub const COLUMNS: u32 = 10;

/// How many small frames a sheet has at most.
pub const MAX_FRAMES: u32 = 600;

/// How many frames are extracted at the same time.
pub const CONCURRENCY: u32 = 8;

/// The width of a sheet in pixels.
pub const SHEET_W: u32 = 1600;

/// The quality of sheets.
pub const SHEET_QUALITY: u8 = 80;

/// Why a preview could not be made.
#[derive(Debug)]
pub enum SpriteError {
    Extract(ExtractError),
    Io(String),
    Image(String),
    Json(String),
}

/// What [`SpriteError`] holds.
pub enum SpriteErrorView {
    Extract(ExtractErrorView),
    Io(Seq<char>),
    Image(Seq<char>),
    Json(Seq<char>),
}

impl View for SpriteError {
    type V = SpriteErrorView;

    open spec fn view(&self) -> SpriteErrorView {
        match *self {
            SpriteError::Extract(e) => SpriteErrorView::Extract(e@),
            SpriteError::Io(e) => SpriteErrorView::Io(e@),
            SpriteError::Image(e) => SpriteErrorView::Image(e@),
            SpriteError::Json(e) => SpriteErrorView::Json(e@),
        }
    }
}

impl SpriteError {
    /// The error as text.
    pub fn text(&self) -> (text: String)
        ensures
            text@ == match self@ {
                SpriteErrorView::Extract(e) => e.text(),
                SpriteErrorView::Io(e) => e,
                SpriteErrorView::Image(e) => e,
                SpriteErrorView::Json(e) => e,
            },
    {
        match self {
            SpriteError::Extract(e) => e.text(),
            SpriteError::Io(e) => e.as_str().to_string(),
            SpriteError::Image(e) => e.as_str().to_string(),
            SpriteError::Json(e) => e.as_str().to_string(),
        }
    }
}

/// What is to be known of a sheet.
#[derive(Debug, Clone, Copy, PartialEq, Eq, Structural)]
pub struct SpriteMeta {
    /// The time between two frames in seconds, by its bits.
    pub interval_bits: u64,
    pub frame_count: u32,
    pub columns: u32,
    pub rows: u32,
    pub thumb_width: u32,
    pub thumb_height: u32,
}

/// How many frames a sheet has if there would be `frames` at the interval: at least one, and not
/// too many.
pub open spec fn sheet_frames(frames: nat) -> nat {
    if frames < 1 {
        1
    } else if frames > MAX_FRAMES {
        MAX_FRAMES as nat
    } else {
        frames
    }
}

/// How many rows so many frames take up.
pub open spec fn sheet_rows(frame_count: nat) -> nat {
    (frame_count + COLUMNS - 1) as nat / COLUMNS as nat
}

/// A sheet of `rows` rows with nothing on it.
pub open spec fn blank_sheet(rows: nat) -> Seq<u8> {
    Seq::new(rows * 90 * 1600 * 4, |k: int| 0u8)
}

/// A sheet with frames put on it, one after the other, each in its column and row.
pub open spec fn sheet_with(frames: Seq<Seq<u8>>, rows: nat) -> Seq<u8>
    decreases frames.len(),
{
    if frames.len() == 0 {
        blank_sheet(rows)
    } else {
        let i = frames.len() - 1;
        tiled(
            sheet_with(frames.drop_last(), rows),
            1600,
            frames.last(),
            160,
            90,
            (i % 10) * 160,
            (i / 10) * 90,
        )
    }
}

/// Where in a sheet a byte of a frame lies: byte `c` of the pixel in column `x` and row `y` of
/// frame `i`.
pub open spec fn sheet_offset(i: int, x: int, y: int, c: int) -> int {
    ((i / 10 * 90 + y) * 1600 + (i % 10 * 160 + x)) * 4 + c
}

proof fn lemma_offset(i: int, x: int, y: int, c: int)
    requires
        0 <= i,
        0 <= x < 160,
        0 <= y < 90,
        0 <= c < 4,
    ensures
        sheet_offset(i, x, y, c) >= 0,
        sheet_offset(i, x, y, c) / 4 % 1600 == i % 10 * 160 + x,
        sheet_offset(i, x, y, c) / 4 / 1600 == i / 10 * 90 + y,
        sheet_offset(i, x, y, c) % 4 == c,
{
    let row = i / 10 * 90 + y;
    let col = i % 10 * 160 + x;
    let pixel = row * 1600 + col;
    assert(sheet_offset(i, x, y, c) == pixel * 4 + c);
    assert(0 <= col < 1600);
    assert(0 <= row);
    assert(pixel >= 0);
    assert((pixel * 4 + c) / 4 == pixel);
    assert(pixel % 1600 == col);
    assert(pixel / 1600 == row);
}

proof fn lemma_sheet_len(frames: Seq<Seq<u8>>, rows: nat)
    ensures
        sheet_with(frames, rows).len() == rows * 90 * 1600 * 4,
    decreases frames.len(),
{
    if frames.len() > 0 {
        lemma_sheet_len(frames.drop_last(), rows);
    }
}

/// A sheet shows every frame that was put on it, unchanged, in the column and row that its number
/// tells; places for which there is no frame are blank.
pub proof fn sheet_shows_frames(frames: Seq<Seq<u8>>, rows: nat, i: int, x: int, y: int, c: int)
    requires
        frames.len() <= rows * 10,
        0 <= i < rows * 10,
        0 <= x < 160,
        0 <= y < 90,
        0 <= c < 4,
    ensures
        0 <= sheet_offset(i, x, y, c) < sheet_with(frames, rows).len(),
        sheet_with(frames, rows)[sheet_offset(i, x, y, c)] == if i < frames.len() {
            frames[i][(y * 160 + x) * 4 + c]
        } else {
            0
        },
    decreases frames.len(),
{
    let k = sheet_offset(i, x, y, c);
    lemma_offset(i, x, y, c);
    lemma_sheet_len(frames, rows);
    assert(i / 10 < rows);
    assert(k < rows * 90 * 1600 * 4);
    if frames.len() > 0 {
        let j = frames.len() - 1;
        let rest = frames.drop_last();
        lemma_sheet_len(rest, rows);
        sheet_shows_frames(rest, rows, i, x, y, c);
        let col = i % 10 * 160 + x;
        let row = i / 10 * 90 + y;
        let left = j % 10 * 160;
        let top = j / 10 * 90;
        assert(sheet_with(frames, rows)[k] == tiled_byte(
            sheet_with(rest, rows),
            1600,
            frames.last(),
            160,
            90,
            left,
            top,
            k,
        ));
        if i == j {
            assert(row - top == y && col - left == x);
        } else {
            assert(!(left <= col < left + 160 && top <= row < top + 90));
            if i < j {
                assert(rest[i] == frames[i]);
            }
        }
    }
}

/// A sheet has room for its frames, and no row too many.
pub proof fn rows_hold_frames(frame_count: nat)
    requires
        frame_count >= 1,
    ensures
        (sheet_rows(frame_count) - 1) * 10 < frame_count <= sheet_rows(frame_count) * 10,
{
}

/// The frames of a batch that came before the first one that could not be had.
pub open spec fn frames_before_error(results: Seq<Result<RawFrame, ExtractError>>) -> Seq<Seq<u8>>
    decreases results.len(),
{
    if results.len() == 0 {
        Seq::empty()
    } else {
        match results.first() {
            Ok(frame) => seq![frame.rgba@] + frames_before_error(results.drop_first()),
            Err(_) => Seq::empty(),
        }
    }
}

/// The error of the first frame of a batch that could not be had.
pub open spec fn first_error(results: Seq<Result<RawFrame, ExtractError>>) -> Option<
    ExtractErrorView,
>
    decreases results.len(),
{
    if results.len() == 0 {
        None
    } else {
        match results.first() {
            Ok(_) => first_error(results.drop_first()),
            Err(e) => Some(e@),
        }
    }
}

/// Whether every frame of a batch that could be had is a small frame.
pub open spec fn small_frames(results: Seq<Result<RawFrame, ExtractError>>) -> bool {
    forall|k: int|
        0 <= k < results.len() ==> (#[trigger] results[k] matches Ok(frame) ==> frame@.wf()
            && frame@.width == THUMB_W && frame@.height == THUMB_H)
}

/// A sheet while frames are put on it.
pub struct SpriteSheet {
    pixels: Vec<u8>,
    frame_count: u32,
    rows: u32,
    placed: u32,
    frames: Ghost<Seq<Seq<u8>>>,
}

/// What [`SpriteSheet`] holds: how many frames it is for, and those that were put on it.
pub struct SheetView {
    pub frame_count: nat,
    pub frames: Seq<Seq<u8>>,
}

impl View for SpriteSheet {
    type V = SheetView;

    closed spec fn view(&self) -> SheetView {
        SheetView { frame_count: self.frame_count as nat, frames: self.frames@ }
    }
}

impl SpriteSheet {
    /// Whether the pixels are those of the frames that were put on the sheet.
    pub closed spec fn wf(&self) -> bool {
        &&& 1 <= self.frame_count <= MAX_FRAMES
        &&& self.rows == sheet_rows(self.frame_count as nat)
        &&& self.placed == self.frames@.len()
        &&& self.placed <= self.frame_count
        &&& self.pixels@ == sheet_with(self.frames@, self.rows as nat)
    }

    /// A sheet is for at least one frame and not for too many.
    pub proof fn wf_bounds(&self)
        requires
            self.wf(),
        ensures
            1 <= self@.frame_count <= MAX_FRAMES,
            self@.frames.len() <= self@.frame_count,
    {
    }

    /// A blank sheet, given how many frames there would be at the interval.
    pub fn new(frames: u32) -> (sheet: SpriteSheet)
        ensures
            sheet.wf(),
            sheet@ == (SheetView {
                frame_count: sheet_frames(frames as nat),
                frames: Seq::empty(),
            }),
    {
        let frame_count: u32 = if frames < 1 {
            1
        } else if frames > MAX_FRAMES {
            MAX_FRAMES
        } else {
            frames
        };
        let rows: u32 = (frame_count + COLUMNS - 1) / COLUMNS;
        let len: usize = rows as usize * 90 * 1600 * 4;
        let mut pixels: Vec<u8> = Vec::new();
        while pixels.len() < len
            invariant
                pixels.len() <= len,
                forall|k: int| 0 <= k < pixels.len() ==> pixels@[k] == 0,
            decreases len - pixels.len(),
        {
            pixels.push(0);
        }
        assert(pixels@ =~= blank_sheet(rows as nat));
        SpriteSheet { pixels, frame_count, rows, placed: 0, frames: Ghost(Seq::empty()) }
    }

    /// The numbers of the frames to extract next, from the first up to but without the second;
    /// `None` when the sheet is complete.
    pub fn next_batch(&self) -> (batch: Option<(u32, u32)>)
        requires
            self.wf(),
        ensures
            batch == (if self@.frames.len() < self@.frame_count {
                Some(
                    (
                        self@.frames.len() as u32,
                        if self@.frames.len() + CONCURRENCY < self@.frame_count {
                            (self@.frames.len() + CONCURRENCY) as u32
                        } else {
                            self@.frame_count as u32
                        },
                    ),
                )
            } else {
                None
            }),
    {
        if self.placed >= self.frame_count {
            return None;
        }
        let end: u32 = if self.placed + CONCURRENCY < self.frame_count {
            self.placed + CONCURRENCY
        } else {
            self.frame_count
        };
        Some((self.placed, end))
    }

    /// Puts the next frame on the sheet.
    pub fn place(&mut self, frame: &RawFrame)
        requires
            old(self).wf(),
            old(self)@.frames.len() < old(self)@.frame_count,
            frame@.wf(),
            frame@.width == THUMB_W,
            frame@.height == THUMB_H,
        ensures
            final(self).wf(),
            final(self)@ == (SheetView {
                frames: old(self)@.frames.push(frame.rgba@),
                ..old(self)@
            }),
    {
        let col: u32 = self.placed % COLUMNS;
        let row: u32 = self.placed / COLUMNS;
        let mut pixels: Vec<u8> = Vec::new();
        std::mem::swap(&mut pixels, &mut self.pixels);
        proof {
            lemma_sheet_len(self.frames@, self.rows as nat);
            assert(row < self.rows);
            assert(row * 90 + 90 <= self.rows * 90);
            assert(frame.rgba@.len() == 160 * 90 * 4);
        }
        let height: u32 = self.rows * THUMB_H;
        assert(pixels@.len() == SHEET_W * height * 4);
        self.pixels = put_tile(
            pixels,
            (SHEET_W, height),
            frame.rgba.as_slice(),
            (THUMB_W, THUMB_H),
            col * THUMB_W,
            row * THUMB_H,
        );
        self.placed = self.placed + 1;
        proof {
            let before = self.frames@;
            self.frames@ = before.push(frame.rgba@);
            assert(self.frames@.drop_last() =~= before);
        }
    }

    /// Puts the frames of a batch on the sheet, in their order. The first one that could not be
    /// had ends it.
    pub fn add_batch(&mut self, results: Vec<Result<RawFrame, ExtractError>>) -> (added: Result<
        (),
        SpriteError,
    >)
        requires
            old(self).wf(),
            old(self)@.frames.len() + results.len() <= old(self)@.frame_count,
            small_frames(results@),
        ensures
            final(self).wf(),
            final(self)@ == (SheetView {
                frames: old(self)@.frames + frames_before_error(results@),
                ..old(self)@
            }),
            match added {
                Ok(_) => first_error(results@) is None,
                Err(e) => first_error(results@) matches Some(cause) && e@
                    == SpriteErrorView::Extract(cause),
            },
    {
        let ghost all = results@;
        let ghost was = self@;
        assert(all.skip(0) =~= all);
        assert(was.frames + Seq::<Seq<u8>>::empty() =~= was.frames);
        for result in it: results
            invariant
                all == it.seq(),
                was == old(self)@,
                small_frames(all),
                self.wf(),
                self@.frame_count == was.frame_count,
                self@.frames.len() == was.frames.len() + it.index(),
                was.frames.len() + all.len() <= was.frame_count,
                was.frames + frames_before_error(all) == self@.frames + frames_before_error(
                    all.skip(it.index()),
                ),
                first_error(all) == first_error(all.skip(it.index())),
        {
            let ghost i = it.index();
            let ghost before = self@.frames;
            assert(all.skip(i).first() == all[i]);
            assert(all.skip(i).drop_first() =~= all.skip(i + 1));
            match result {
                Ok(frame) => {
                    self.place(&frame);
                    assert(before + (seq![frame.rgba@] + frames_before_error(all.skip(i + 1)))
                        =~= before.push(frame.rgba@) + frames_before_error(all.skip(i + 1)));
                },
                Err(e) => {
                    assert(self@.frames + Seq::<Seq<u8>>::empty() =~= self@.frames);
                    return Err(SpriteError::Extract(e));
                },
            }
        }
        proof {
            assert(all.skip(all.len() as int) =~= Seq::empty());
            assert(self@.frames + Seq::<Seq<u8>>::empty() =~= self@.frames);
        }
        Ok(())
    }

    /// What is to be known of the sheet, given the bits of the time between two frames.
    pub fn meta(&self, interval_bits: u64) -> (meta: SpriteMeta)
        requires
            self.wf(),
        ensures
            meta == (SpriteMeta {
                interval_bits,
                frame_count: self@.frame_count as u32,
                columns: COLUMNS,
                rows: sheet_rows(self@.frame_count) as u32,
                thumb_width: THUMB_W,
                thumb_height: THUMB_H,
            }),
    {
        SpriteMeta {
            interval_bits,
            frame_count: self.frame_count,
            columns: COLUMNS,
            rows: self.rows,
            thumb_width: THUMB_W,
            thumb_height: THUMB_H,
        }
    }

    /// The file of the sheet.
    pub fn encode(self) -> (file: Result<Vec<u8>, SpriteError>)
        requires
            self.wf(),
        ensures
            match file {
                Ok(bytes) => rgba_jpeg(
                    sheet_with(self@.frames, sheet_rows(self@.frame_count)),
                    SHEET_W,
                    (sheet_rows(self@.frame_count) * 90) as u32,
                    SHEET_QUALITY,
                ) == Ok::<Seq<u8>, Seq<char>>(bytes@) && bytes@.len() > 0,
                Err(_) => false,
            },
    {
        proof {
            lemma_sheet_len(self.frames@, self.rows as nat);
        }
        let height: u32 = self.rows * THUMB_H;
        assert(self.pixels@.len() == SHEET_W * height * 4);
        match encode_rgba(self.pixels, SHEET_W, height, SHEET_QUALITY) {
            Ok(bytes) => Ok(bytes),
            Err(message) => Err(SpriteError::Image(message)),
        }
    }
}

/// How many decoded sheets are kept at most.
pub const SPRITE_MEMORY_CACHE_MAX: usize = 6;

/// Decoded sheets, by content hash, the one used last at the end.
#[derive(Debug)]
pub struct SpriteMemoryCache<T> {
    entries: Vec<(String, T)>,
}

impl<T> View for SpriteMemoryCache<T> {
    type V = Seq<(Seq<char>, T)>;

    closed spec fn view(&self) -> Seq<(Seq<char>, T)> {
        self.entries@.map_values(|e: (String, T)| (e.0@, e.1))
    }
}

/// Where the entry for a content hash is, from `from` on.
pub open spec fn entry_at<T>(entries: Seq<(Seq<char>, T)>, hash: Seq<char>, from: int) -> Option<int>
    decreases entries.len() - from,
{
    if from >= entries.len() {
        None
    } else if entries[from].0 == hash {
        Some(from)
    } else {
        entry_at(entries, hash, from + 1)
    }
}

/// The entries after a sheet was put in: one for the same content hash makes room, and otherwise
/// the one whose last use is longest ago if there are too many.
pub open spec fn entries_with<T>(entries: Seq<(Seq<char>, T)>, hash: Seq<char>, sheet: T) -> Seq<
    (Seq<char>, T),
> {
    let kept = match entry_at(entries, hash, 0) {
        Some(i) => entries.remove(i),
        None => if entries.len() >= SPRITE_MEMORY_CACHE_MAX {
            entries.drop_first()
        } else {
            entries
        },
    };
    kept.push((hash, sheet))
}

/// Whether no content hash has two entries, and there are not too many.
pub open spec fn sheets_wf<T>(entries: Seq<(Seq<char>, T)>) -> bool {
    &&& entries.len() <= SPRITE_MEMORY_CACHE_MAX
    &&& forall|i: int, j: int|
        0 <= i < j < entries.len() ==> (#[trigger] entries[i]).0 != (#[trigger] entries[j]).0
}

proof fn lemma_entry_at<T>(entries: Seq<(Seq<char>, T)>, hash: Seq<char>, from: int)
    requires
        0 <= from <= entries.len(),
    ensures
        match entry_at(entries, hash, from) {
            Some(i) => from <= i < entries.len() && entries[i].0 == hash && forall|k: int|
                from <= k < i ==> (#[trigger] entries[k]).0 != hash,
            None => forall|k: int| from <= k < entries.len() ==> (#[trigger] entries[k]).0 != hash,
        },
    decreases entries.len() - from,
{
    if from < entries.len() && entries[from].0 != hash {
        lemma_entry_at(entries, hash, from + 1);
    }
}

/// A sheet that was just put in is found, and putting it in pushes out at most the sheet whose last
/// use is longest ago.
pub proof fn new_sheet_is_kept<T>(entries: Seq<(Seq<char>, T)>, hash: Seq<char>, sheet: T)
    requires
        sheets_wf(entries),
    ensures
        sheets_wf(entries_with(entries, hash, sheet)),
        entries_with(entries, hash, sheet).last() == (hash, sheet),
        forall|i: int|
            1 <= i < entries.len() && (#[trigger] entries[i]).0 != hash ==> entries_with(
                entries,
                hash,
                sheet,
            ).contains(entries[i]),
{
    lemma_entry_at(entries, hash, 0);
    let after = entries_with(entries, hash, sheet);
    assert forall|i: int|
        1 <= i < entries.len() && (#[trigger] entries[i]).0 != hash implies after.contains(
        entries[i],
    ) by {
        match entry_at(entries, hash, 0) {
            Some(at) => {
                if i < at {
                    assert(after[i] == entries[i]);
                } else {
                    assert(after[i - 1] == entries[i]);
                }
            },
            None => {
                if entries.len() >= SPRITE_MEMORY_CACHE_MAX {
                    assert(after[i - 1] == entries[i]);
                } else {
                    assert(after[i] == entries[i]);
                }
            },
        }
    }
}

impl<T> SpriteMemoryCache<T> {
    /// An empty cache.
    pub fn new() -> (cache: Self)
        ensures
            cache@ == Seq::<(Seq<char>, T)>::empty(),
            sheets_wf(cache@),
    {
        let cache = SpriteMemoryCache { entries: Vec::new() };
        assert(cache@ =~= Seq::<(Seq<char>, T)>::empty());
        cache
    }

    fn find(&self, hash: &str) -> (at: Option<usize>)
        ensures
            match at {
                Some(i) => i < self@.len() && entry_at(self@, hash@, 0) == Some(i as int),
                None => entry_at(self@, hash@, 0) is None,
            },
    {
        let mut i: usize = 0;
        while i < self.entries.len()
            invariant
                i <= self.entries.len(),
                entry_at(self@, hash@, 0) == entry_at(self@, hash@, i as int),
            decreases self.entries.len() - i,
        {
            assert(self@[i as int].0 == self.entries@[i as int].0@);
            if str_eq(self.entries[i].0.as_str(), hash) {
                return Some(i);
            }
            i += 1;
        }
        None
    }

    /// The sheet for a content hash, which counts as used.
    pub fn get(&mut self, hash: &str) -> (sheet: Option<&T>)
        requires
            sheets_wf(old(self)@),
        ensures
            match entry_at(old(self)@, hash@, 0) {
                Some(i) => {
                    &&& sheet == Some(&old(self)@[i].1)
                    &&& final(self)@ == old(self)@.remove(i).push(old(self)@[i])
                    &&& sheets_wf(final(self)@)
                },
                None => sheet is None && final(self)@ == old(self)@,
            },
    {
        match self.find(hash) {
            Some(i) => {
                proof {
                    lemma_entry_at(self@, hash@, 0);
                }
                let entry = self.entries.remove(i);
                self.entries.push(entry);
                assert(self@ =~= old(self)@.remove(i as int).push(old(self)@[i as int]));
                Some(&self.entries[self.entries.len() - 1].1)
            },
            None => None,
        }
    }

    /// Puts a sheet in.
    pub fn insert(&mut self, hash: String, sheet: T)
        requires
            sheets_wf(old(self)@),
        ensures
            sheets_wf(final(self)@),
            final(self)@ == entries_with(old(self)@, hash@, sheet),
    {
        proof {
            new_sheet_is_kept(self@, hash@, sheet);
        }
        match self.find(hash.as_str()) {
            Some(i) => {
                self.entries.remove(i);
            },
            None => {
                if self.entries.len() >= SPRITE_MEMORY_CACHE_MAX {
                    self.entries.remove(0);
                }
            },
        }
        self.entries.push((hash, sheet));
        assert(self@ =~= entries_with(old(self)@, hash@, sheet));
    }
}

} // verus!
