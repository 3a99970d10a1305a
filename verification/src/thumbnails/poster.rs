//! Making posters.

use super::cache::POSTER_SIZE;
use super::frame::RawFrame;
use super::picture::{
    decodes_to, drop_alpha, encode_poster, image_poster, opt_bytes, picture_poster_of, poster_of,
    without_alpha,
};
use vstd::prelude::*;

verus! {

/// What is to be done next for a poster.
#[derive(Debug, Clone, Copy, PartialEq, Eq, Structural)]
pub enum PosterStage {
    /// See whether the poster is there.
    CheckCached,
    /// See whether the video is marked as one that cannot be read.
    CheckInvalid,
    /// See whether the player can read the video.
    Probe,
    /// Mark the video as one that cannot be read.
    MarkInvalid,
    /// Have the player hand out a frame of the video.
    Extract,
    /// Read the file of the image.
    ReadFile,
    /// Write the poster.
    Write,
    /// Wait until the poster can be read.
    WaitVisible,
    /// Nothing more: the poster is there.
    Ready,
    /// Nothing more: there is no poster.
    Failed,
}

/// What is to be done after something was done for a poster. `yes` is what was found, or whether
/// it worked.
pub open spec fn stage_after(is_video: bool, stage: PosterStage, yes: bool) -> PosterStage {
    match stage {
        PosterStage::CheckCached => if yes {
            PosterStage::Ready
        } else if is_video {
            PosterStage::CheckInvalid
        } else {
            PosterStage::ReadFile
        },
        PosterStage::CheckInvalid => if yes {
            PosterStage::Failed
        } else {
            PosterStage::Probe
        },
        PosterStage::Probe => if yes {
            PosterStage::Extract
        } else {
            PosterStage::MarkInvalid
        },
        PosterStage::MarkInvalid => PosterStage::Failed,
        PosterStage::Extract => if yes {
            PosterStage::Write
        } else {
            PosterStage::Failed
        },
        PosterStage::ReadFile => if yes {
            PosterStage::Write
        } else {
            PosterStage::Failed
        },
        PosterStage::Write => if yes {
            PosterStage::WaitVisible
        } else {
            PosterStage::Failed
        },
        PosterStage::WaitVisible => if yes {
            PosterStage::Ready
        } else {
            PosterStage::Failed
        },
        PosterStage::Ready => PosterStage::Ready,
        PosterStage::Failed => PosterStage::Failed,
    }
}

/// How many things may still have to be done, at most.
pub open spec fn stages_left(stage: PosterStage) -> nat {
    match stage {
        PosterStage::CheckCached => 6,
        PosterStage::CheckInvalid => 5,
        PosterStage::Probe => 4,
        PosterStage::MarkInvalid => 1,
        PosterStage::Extract => 3,
        PosterStage::ReadFile => 3,
        PosterStage::Write => 2,
        PosterStage::WaitVisible => 1,
        PosterStage::Ready => 0,
        PosterStage::Failed => 0,
    }
}

/// Making a poster comes to an end: whatever is found, there is less to do afterwards.
pub proof fn poster_ends(is_video: bool, stage: PosterStage, yes: bool)
    requires
        stage != PosterStage::Ready,
        stage != PosterStage::Failed,
    ensures
        stages_left(stage_after(is_video, stage, yes)) < stages_left(stage),
{
}

/// A video that is marked as one that cannot be read is not read again, and one that the player
/// cannot read is marked before the poster is given up.
pub proof fn broken_video_is_probed_once()
    ensures
        stage_after(true, PosterStage::CheckInvalid, true) == PosterStage::Failed,
        stage_after(true, PosterStage::Probe, false) == PosterStage::MarkInvalid,
        stage_after(true, PosterStage::MarkInvalid, true) == PosterStage::Failed,
        stage_after(true, PosterStage::MarkInvalid, false) == PosterStage::Failed,
{
}

/// A poster counts as there only if it was there before, or was seen after it was written. Images
/// are never probed.
pub proof fn poster_is_seen_before_use(is_video: bool, stage: PosterStage, yes: bool)
    requires
        stage != PosterStage::Ready,
    ensures
        stage_after(is_video, stage, yes) == PosterStage::Ready ==> yes && (stage
            == PosterStage::CheckCached || stage == PosterStage::WaitVisible),
        !is_video && stage != PosterStage::CheckInvalid ==> stage_after(is_video, stage, yes)
            != PosterStage::Probe,
{
}

/// The file of a poster of a frame of a video.
pub fn frame_poster(frame: &RawFrame) -> (file: Option<Vec<u8>>)
    requires
        frame@.wf(),
        frame@.width == POSTER_SIZE,
        frame@.height == POSTER_SIZE,
    ensures
        opt_bytes(file) == poster_of(without_alpha(frame@.rgba)),
        file is Some,
{
    let rgb = drop_alpha(frame.rgba.as_slice());
    assert(frame@.rgba.len() == 65536);
    encode_poster(rgb)
}

/// The making of a poster.
#[derive(Debug)]
pub struct PosterJob {
    pub is_video: bool,
    pub stage: PosterStage,
    /// The file of the poster, once it is made.
    pub file: Vec<u8>,
}

impl PosterJob {
    /// The beginning.
    pub fn new(is_video: bool) -> (job: PosterJob)
        ensures
            job.is_video == is_video,
            job.stage == PosterStage::CheckCached,
            job.file@ == Seq::<u8>::empty(),
    {
        PosterJob { is_video, stage: PosterStage::CheckCached, file: Vec::new() }
    }

    /// Takes in what was found, or whether it worked.
    pub fn report(&mut self, yes: bool)
        ensures
            final(self).stage == stage_after(old(self).is_video, old(self).stage, yes),
            final(self).is_video == old(self).is_video,
            final(self).file == old(self).file,
    {
        self.stage = match self.stage {
            PosterStage::CheckCached => if yes {
                PosterStage::Ready
            } else if self.is_video {
                PosterStage::CheckInvalid
            } else {
                PosterStage::ReadFile
            },
            PosterStage::CheckInvalid => if yes {
                PosterStage::Failed
            } else {
                PosterStage::Probe
            },
            PosterStage::Probe => if yes {
                PosterStage::Extract
            } else {
                PosterStage::MarkInvalid
            },
            PosterStage::MarkInvalid => PosterStage::Failed,
            PosterStage::Extract => if yes {
                PosterStage::Write
            } else {
                PosterStage::Failed
            },
            PosterStage::ReadFile => if yes {
                PosterStage::Write
            } else {
                PosterStage::Failed
            },
            PosterStage::Write => if yes {
                PosterStage::WaitVisible
            } else {
                PosterStage::Failed
            },
            PosterStage::WaitVisible => if yes {
                PosterStage::Ready
            } else {
                PosterStage::Failed
            },
            PosterStage::Ready => PosterStage::Ready,
            PosterStage::Failed => PosterStage::Failed,
        };
    }

    /// Takes in the frame that the player handed out, if it did, and makes the poster of it.
    pub fn frame_extracted(&mut self, frame: Option<&RawFrame>)
        requires
            old(self).stage == PosterStage::Extract,
            frame matches Some(f) ==> f@.wf() && f@.width == POSTER_SIZE && f@.height
                == POSTER_SIZE,
        ensures
            final(self).is_video == old(self).is_video,
            match frame {
                Some(f) => final(self).stage == PosterStage::Write && Some(final(self).file@)
                    == poster_of(without_alpha(f@.rgba)),
                None => final(self).stage == PosterStage::Failed && final(self).file
                    == old(self).file,
            },
    {
        match frame {
            Some(f) => match frame_poster(f) {
                Some(file) => {
                    self.file = file;
                    self.stage = PosterStage::Write;
                },
                None => {
                    self.stage = PosterStage::Failed;
                },
            },
            None => {
                self.stage = PosterStage::Failed;
            },
        }
    }

    /// Takes in the file of the poster of the image, if there is one.
    pub fn poster_made(&mut self, poster: Option<Vec<u8>>)
        requires
            old(self).stage == PosterStage::ReadFile,
        ensures
            final(self).is_video == old(self).is_video,
            match poster {
                Some(file) => final(self).stage == PosterStage::Write && final(self).file == file,
                None => final(self).stage == PosterStage::Failed && final(self).file
                    == old(self).file,
            },
    {
        match poster {
            Some(file) => {
                self.file = file;
                self.stage = PosterStage::Write;
            },
            None => {
                self.stage = PosterStage::Failed;
            },
        }
    }

    /// Takes in what the file of the image holds, if it could be read, and makes the poster of it.
    /// `ext` is the extension of the file's name.
    pub fn file_read(&mut self, data: Option<&[u8]>, ext: &str)
        requires
            old(self).stage == PosterStage::ReadFile,
        ensures
            final(self).is_video == old(self).is_video,
            match data {
                Some(bytes) => exists|picture: Option<image::DynamicImage>| #[trigger]
                    decodes_to(bytes@, ext@, picture) && match picture_poster_of(picture) {
                        Some(file) => final(self).stage == PosterStage::Write && final(self).file@
                            == file,
                        None => final(self).stage == PosterStage::Failed && final(self).file
                            == old(self).file,
                    },
                None => final(self).stage == PosterStage::Failed && final(self).file
                    == old(self).file,
            },
    {
        match data {
            Some(bytes) => {
                let poster = image_poster(bytes, ext);
                self.poster_made(poster);
            },
            None => self.poster_made(None),
        }
    }
}

/// What to do while waiting for something that may take a moment.
#[derive(Debug, Clone, Copy, PartialEq, Eq, Structural)]
pub enum PollStep {
    /// It is there.
    Found,
    /// It did not come in time.
    GiveUp,
    /// Look again after so many milliseconds.
    LookAgain(u64),
}

/// How long to wait for a poster that was written, in milliseconds.
pub const POSTER_TIMEOUT_MS: u64 = 200;

/// What to do while waiting for a poster: what is there is taken even after the time is up.
pub fn ensure_poster_visible(ready: bool, waited_ms: u64) -> (step: PollStep)
    ensures
        step == (if ready {
            PollStep::Found
        } else if waited_ms >= POSTER_TIMEOUT_MS {
            PollStep::GiveUp
        } else {
            PollStep::LookAgain(5)
        }),
{
    if ready {
        PollStep::Found
    } else if waited_ms >= POSTER_TIMEOUT_MS {
        PollStep::GiveUp
    } else {
        PollStep::LookAgain(5)
    }
}

/// How often the making of a poster is tried.
pub const GENERATION_RETRIES: usize = 2;

/// What to do after the making of a poster was tried, the attempts being counted from zero.
pub fn generation_step(attempt: usize, ready: bool) -> (step: PollStep)
    ensures
        step == (if ready {
            PollStep::Found
        } else if attempt + 1 < GENERATION_RETRIES {
            PollStep::LookAgain(30)
        } else {
            PollStep::GiveUp
        }),
{
    if ready {
        PollStep::Found
    } else if attempt < GENERATION_RETRIES - 1 {
        PollStep::LookAgain(30)
    } else {
        PollStep::GiveUp
    }
}

/// How often a poster is loaded at most when `asked` attempts are asked for.
pub open spec fn load_attempts(asked: int) -> int {
    if asked < 1 {
        1
    } else if asked > 4 {
        4
    } else {
        asked
    }
}

/// What to do after a poster was tried to load, the attempts being counted from zero.
pub fn load_step(attempt: usize, asked: usize, loaded: bool) -> (step: PollStep)
    ensures
        step == (if loaded {
            PollStep::Found
        } else if attempt + 1 < load_attempts(asked as int) {
            PollStep::LookAgain(2)
        } else {
            PollStep::GiveUp
        }),
{
    let attempts: usize = if asked < 1 {
        1
    } else if asked > 4 {
        4
    } else {
        asked
    };
    if loaded {
        PollStep::Found
    } else if attempt < attempts - 1 {
        PollStep::LookAgain(2)
    } else {
        PollStep::GiveUp
    }
}

} // verus!
