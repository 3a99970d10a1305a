//! Making previews.

use super::frame::{ExtractError, ExtractErrorView, RawFrame};
use super::picture::rgba_jpeg;
use super::sprite::{
    first_error, frames_before_error, sheet_frames, sheet_rows, sheet_with, small_frames,
    SpriteError, SpriteErrorView, SpriteMeta, SpriteSheet, COLUMNS, CONCURRENCY, SHEET_QUALITY,
    SHEET_W, THUMB_H, THUMB_W,
};
use vstd::prelude::*;

verus! {

/// What is to be done next for a preview.
#[derive(Debug, Clone, Copy, PartialEq, Eq, Structural)]
pub enum SpriteStage {
    /// See whether the preview is there.
    CheckCached,
    /// See whether the video is marked as one that cannot be read.
    CheckInvalid,
    /// Ask the player for the length of the video.
    Probe,
    /// Mark the video as one that cannot be read.
    MarkInvalid,
    /// Have the player hand out the next frames.
    Extract,
    /// Write the sheet.
    WriteSheet,
    /// Write what is to be known of the sheet.
    WriteMeta,
    /// Nothing more: the preview is there.
    Ready,
    /// Nothing more: there is no preview.
    Failed,
}

/// The making of a preview.
pub struct SpriteJob {
    stage: SpriteStage,
    sheet: Option<SpriteSheet>,
    interval_bits: u64,
    meta: Option<SpriteMeta>,
    file: Vec<u8>,
    error: Option<SpriteError>,
}

/// What [`SpriteJob`] holds.
pub struct SpriteJobView {
    pub stage: SpriteStage,
    /// How many frames the sheet is for.
    pub frame_count: nat,
    /// The frames that are on the sheet.
    pub frames: Seq<Seq<u8>>,
    /// The time between two frames in seconds, by its bits.
    pub interval_bits: u64,
    /// The file of the sheet, once it is made.
    pub file: Seq<u8>,
    /// Why there is no preview.
    pub error: Option<SpriteErrorView>,
}

impl SpriteJobView {
    /// The beginning.
    pub open spec fn initial() -> SpriteJobView {
        SpriteJobView {
            stage: SpriteStage::CheckCached,
            frame_count: 0,
            frames: Seq::empty(),
            interval_bits: 0,
            file: Seq::empty(),
            error: None,
        }
    }

    /// Whether the sheet is still to be made.
    pub open spec fn sheet_is_to_come(self) -> bool {
        match self.stage {
            SpriteStage::CheckCached => true,
            SpriteStage::CheckInvalid => true,
            SpriteStage::Probe => true,
            SpriteStage::MarkInvalid => true,
            SpriteStage::Extract => true,
            _ => false,
        }
    }

    /// The job given up.
    pub open spec fn failed(self, error: SpriteErrorView) -> SpriteJobView {
        SpriteJobView { stage: SpriteStage::Failed, error: Some(error), ..self }
    }

    /// What is to be known of the sheet.
    pub open spec fn meta(self) -> SpriteMeta {
        SpriteMeta {
            interval_bits: self.interval_bits,
            frame_count: self.frame_count as u32,
            columns: COLUMNS,
            rows: sheet_rows(self.frame_count) as u32,
            thumb_width: THUMB_W,
            thumb_height: THUMB_H,
        }
    }

    /// The file of the sheet with all frames on it.
    pub open spec fn sheet_file(self) -> Result<Seq<u8>, Seq<char>> {
        rgba_jpeg(
            sheet_with(self.frames, sheet_rows(self.frame_count)),
            SHEET_W,
            (sheet_rows(self.frame_count) * 90) as u32,
            SHEET_QUALITY,
        )
    }

    /// The job after it was seen whether the preview is there.
    pub open spec fn after_cached(self, cached: bool) -> SpriteJobView {
        SpriteJobView {
            stage: if cached {
                SpriteStage::Ready
            } else {
                SpriteStage::CheckInvalid
            },
            ..self
        }
    }

    /// The job after it was seen whether the video is marked as one that cannot be read.
    pub open spec fn after_invalid(self, marked: bool) -> SpriteJobView {
        if marked {
            self.failed(SpriteErrorView::Extract(ExtractErrorView::Mpv("unreadable media"@)))
        } else {
            SpriteJobView { stage: SpriteStage::Probe, ..self }
        }
    }

    /// The job after the player told the length of the video.
    pub open spec fn after_probe(self, frames: nat, interval_bits: u64) -> SpriteJobView {
        SpriteJobView {
            stage: SpriteStage::Extract,
            frame_count: sheet_frames(frames),
            interval_bits,
            ..self
        }
    }

    /// The job after the player could not read the video.
    pub open spec fn after_failed_probe(self, error: ExtractErrorView) -> SpriteJobView {
        SpriteJobView {
            stage: SpriteStage::MarkInvalid,
            error: Some(SpriteErrorView::Extract(error)),
            ..self
        }
    }
}

/// A video that is marked as one that cannot be read is not read again, and one that the player
/// cannot read is marked before the preview is given up.
pub proof fn broken_video_is_not_read_again(job: SpriteJobView, error: ExtractErrorView)
    ensures
        job.after_invalid(true).stage == SpriteStage::Failed,
        job.after_failed_probe(error).stage == SpriteStage::MarkInvalid,
        job.after_failed_probe(error).error == Some(SpriteErrorView::Extract(error)),
{
}

/// A preview that is there is not made again.
pub proof fn preview_is_made_once(job: SpriteJobView)
    ensures
        job.after_cached(true).stage == SpriteStage::Ready,
        job.after_cached(false).stage != SpriteStage::Ready,
{
}

impl View for SpriteJob {
    type V = SpriteJobView;

    closed spec fn view(&self) -> SpriteJobView {
        SpriteJobView {
            stage: self.stage,
            frame_count: match (self.sheet, self.meta) {
                (Some(sheet), _) => sheet@.frame_count,
                (None, Some(meta)) => meta.frame_count as nat,
                (None, None) => 0,
            },
            frames: match self.sheet {
                Some(sheet) => sheet@.frames,
                None => Seq::empty(),
            },
            interval_bits: self.interval_bits,
            file: self.file@,
            error: match self.error {
                Some(e) => Some(e@),
                None => None,
            },
        }
    }
}

impl SpriteJob {
    /// Whether there is a sheet while frames are extracted, and something to be known of it once
    /// it was made.
    pub closed spec fn wf(&self) -> bool {
        &&& self.stage == SpriteStage::Extract ==> self.sheet is Some
        &&& self.stage != SpriteStage::Extract ==> self.sheet is None
        &&& self.sheet matches Some(sheet) ==> sheet.wf() && sheet@.frames.len()
            < sheet@.frame_count
        &&& self.stage == SpriteStage::WriteSheet || self.stage == SpriteStage::WriteMeta ==> {
            &&& self.meta matches Some(meta) && meta == self@.meta()
        }
        &&& self@.sheet_is_to_come() ==> self.meta is None
    }

    /// The beginning.
    pub fn new() -> (job: SpriteJob)
        ensures
            job.wf(),
            job@ == SpriteJobView::initial(),
    {
        let job = SpriteJob {
            stage: SpriteStage::CheckCached,
            sheet: None,
            interval_bits: 0,
            meta: None,
            file: Vec::new(),
            error: None,
        };
        assert(job@.file =~= Seq::empty());
        job
    }

    /// What is to be done next.
    pub fn stage(&self) -> (stage: SpriteStage)
        ensures
            stage == self@.stage,
    {
        self.stage
    }

    /// Why there is no preview.
    pub fn error(&self) -> (error: Option<&SpriteError>)
        ensures
            match error {
                Some(e) => self@.error == Some(e@),
                None => self@.error is None,
            },
    {
        match &self.error {
            Some(e) => Some(e),
            None => None,
        }
    }

    /// Takes in whether the preview is there.
    pub fn cached(&mut self, cached: bool)
        requires
            old(self).wf(),
            old(self)@.stage == SpriteStage::CheckCached,
        ensures
            final(self).wf(),
            final(self)@ == old(self)@.after_cached(cached),
    {
        self.stage = if cached {
            SpriteStage::Ready
        } else {
            SpriteStage::CheckInvalid
        };
    }

    /// Takes in whether the video is marked as one that cannot be read.
    pub fn known_invalid(&mut self, marked: bool)
        requires
            old(self).wf(),
            old(self)@.stage == SpriteStage::CheckInvalid,
        ensures
            final(self).wf(),
            final(self)@ == old(self)@.after_invalid(marked),
    {
        if marked {
            self.stage = SpriteStage::Failed;
            self.error = Some(
                SpriteError::Extract(ExtractError::Mpv("unreadable media".to_string())),
            );
        } else {
            self.stage = SpriteStage::Probe;
        }
    }

    /// Takes in what the player says of the length of the video: how many frames there would be at
    /// the interval, and the bits of the interval.
    pub fn probed(&mut self, probe: Result<(u32, u64), ExtractError>)
        requires
            old(self).wf(),
            old(self)@.stage == SpriteStage::Probe,
        ensures
            final(self).wf(),
            final(self)@ == match probe {
                Ok((frames, interval_bits)) => old(self)@.after_probe(
                    frames as nat,
                    interval_bits,
                ),
                Err(e) => old(self)@.after_failed_probe(e@),
            },
    {
        match probe {
            Ok((frames, interval_bits)) => {
                self.sheet = Some(SpriteSheet::new(frames));
                self.interval_bits = interval_bits;
                self.stage = SpriteStage::Extract;
            },
            Err(e) => {
                self.error = Some(SpriteError::Extract(e));
                self.stage = SpriteStage::MarkInvalid;
            },
        }
    }

    /// Takes in that the video was marked as one that cannot be read.
    pub fn marked_invalid(&mut self)
        requires
            old(self).wf(),
            old(self)@.stage == SpriteStage::MarkInvalid,
        ensures
            final(self).wf(),
            final(self)@ == (SpriteJobView { stage: SpriteStage::Failed, ..old(self)@ }),
    {
        self.stage = SpriteStage::Failed;
    }

    /// The numbers of the frames to extract next, from the first up to but without the second.
    pub fn next_batch(&self) -> (batch: (u32, u32))
        requires
            self.wf(),
            self@.stage == SpriteStage::Extract,
        ensures
            batch.0 == self@.frames.len(),
            batch.1 == if self@.frames.len() + CONCURRENCY < self@.frame_count {
                (self@.frames.len() + CONCURRENCY) as nat
            } else {
                self@.frame_count
            },
            batch.0 < batch.1,
    {
        match &self.sheet {
            Some(sheet) => {
                proof {
                    sheet.wf_bounds();
                }
                match sheet.next_batch() {
                    Some(batch) => batch,
                    None => (0, 0),
                }
            },
            None => (0, 0),
        }
    }

    /// Takes in the next frames. Once all are there, the file of the sheet is made.
    pub fn batch_extracted(&mut self, results: Vec<Result<RawFrame, ExtractError>>)
        requires
            old(self).wf(),
            old(self)@.stage == SpriteStage::Extract,
            old(self)@.frames.len() + results.len() <= old(self)@.frame_count,
            small_frames(results@),
        ensures
            final(self).wf(),
            match first_error(results@) {
                Some(cause) => final(self)@ == (SpriteJobView {
                    frame_count: 0,
                    frames: Seq::empty(),
                    ..old(self)@
                }).failed(SpriteErrorView::Extract(cause)),
                None => {
                    let more = SpriteJobView {
                        frames: old(self)@.frames + frames_before_error(results@),
                        ..old(self)@
                    };
                    if more.frames.len() < more.frame_count {
                        final(self)@ == more
                    } else {
                        &&& final(self)@.stage == SpriteStage::WriteSheet
                        &&& more.sheet_file() == Ok::<Seq<u8>, Seq<char>>(final(self)@.file)
                        &&& final(self)@.meta() == more.meta()
                        &&& final(self)@.error == old(self)@.error
                    }
                },
            },
    {
        let mut slot: Option<SpriteSheet> = None;
        std::mem::swap(&mut slot, &mut self.sheet);
        match slot {
            None => {
                assert(false);
            },
            Some(mut sheet) => {
                proof {
                    sheet.wf_bounds();
                }
                match sheet.add_batch(results) {
                    Err(e) => {
                        self.error = Some(e);
                        self.stage = SpriteStage::Failed;
                    },
                    Ok(_) => {
                        if sheet.next_batch().is_some() {
                            self.sheet = Some(sheet);
                            return;
                        }
                        proof {
                            sheet.wf_bounds();
                        }
                        let meta = sheet.meta(self.interval_bits);
                        match sheet.encode() {
                            Ok(file) => {
                                self.file = file;
                                self.meta = Some(meta);
                                self.stage = SpriteStage::WriteSheet;
                            },
                            Err(e) => {
                                self.error = Some(e);
                                self.stage = SpriteStage::Failed;
                            },
                        }
                    },
                }
            },
        }
    }

    /// The file of the sheet.
    pub fn file(&self) -> (file: &Vec<u8>)
        ensures
            file@ == self@.file,
    {
        &self.file
    }

    /// What is to be known of the sheet, from when it was made.
    pub fn meta(&self) -> (meta: Option<SpriteMeta>)
        requires
            self.wf(),
        ensures
            self@.stage == SpriteStage::WriteSheet || self@.stage == SpriteStage::WriteMeta ==> meta
                == Some(self@.meta()),
            self@.sheet_is_to_come() ==> meta is None,
    {
        self.meta
    }

    /// Takes in whether the sheet was written.
    pub fn sheet_written(&mut self, written: Result<(), String>)
        requires
            old(self).wf(),
            old(self)@.stage == SpriteStage::WriteSheet,
        ensures
            final(self).wf(),
            final(self)@ == match written {
                Ok(_) => SpriteJobView { stage: SpriteStage::WriteMeta, ..old(self)@ },
                Err(message) => old(self)@.failed(SpriteErrorView::Io(message@)),
            },
    {
        match written {
            Ok(_) => {
                self.stage = SpriteStage::WriteMeta;
            },
            Err(message) => {
                self.error = Some(SpriteError::Io(message));
                self.stage = SpriteStage::Failed;
            },
        }
    }

    /// Takes in whether what is to be known of the sheet was written.
    pub fn meta_written(&mut self, written: Result<(), SpriteError>)
        requires
            old(self).wf(),
            old(self)@.stage == SpriteStage::WriteMeta,
        ensures
            final(self).wf(),
            final(self)@ == match written {
                Ok(_) => SpriteJobView { stage: SpriteStage::Ready, ..old(self)@ },
                Err(e) => old(self)@.failed(e@),
            },
    {
        match written {
            Ok(_) => {
                self.stage = SpriteStage::Ready;
            },
            Err(e) => {
                self.error = Some(e);
                self.stage = SpriteStage::Failed;
            },
        }
    }
}

} // verus!
