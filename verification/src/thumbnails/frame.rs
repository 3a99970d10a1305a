//! Frames of videos, and waiting for the player to hand them out.

use crate::text::{decimal, push_decimal};
use vstd::prelude::*;

verus! {

/// Why a frame, or the length of a video, could not be had.
#[derive(Debug)]
pub enum ExtractError {
    /// The player reports an error.
    Mpv(String),
    /// The player takes too long.
    Timeout,
    /// A file could not be read.
    Io(String),
    /// A frame has another number of bytes than its size calls for.
    UnexpectedSize { expected: usize, got: usize },
}

/// What [`ExtractError`] holds.
pub enum ExtractErrorView {
    Mpv(Seq<char>),
    Timeout,
    Io(Seq<char>),
    UnexpectedSize { expected: usize, got: usize },
}

impl View for ExtractError {
    type V = ExtractErrorView;

    open spec fn view(&self) -> ExtractErrorView {
        match *self {
            ExtractError::Mpv(e) => ExtractErrorView::Mpv(e@),
            ExtractError::Timeout => ExtractErrorView::Timeout,
            ExtractError::Io(e) => ExtractErrorView::Io(e@),
            ExtractError::UnexpectedSize { expected, got } => ExtractErrorView::UnexpectedSize {
                expected,
                got,
            },
        }
    }
}

impl ExtractErrorView {
    /// The error as text.
    pub open spec fn text(self) -> Seq<char> {
        match self {
            ExtractErrorView::Mpv(e) => "mpv error: "@ + e,
            ExtractErrorView::Timeout => "timed out waiting for frame extraction"@,
            ExtractErrorView::Io(e) => "io error: "@ + e,
            ExtractErrorView::UnexpectedSize { expected, got } => "raw frame size mismatch: expected "@
                + decimal(expected as nat) + " bytes, got "@ + decimal(got as nat),
        }
    }
}

impl ExtractError {
    /// The error as text.
    pub fn text(&self) -> (text: String)
        ensures
            text@ == self@.text(),
    {
        let mut text = String::new();
        match self {
            ExtractError::Mpv(e) => {
                text.push_str("mpv error: ");
                text.push_str(e.as_str());
            },
            ExtractError::Timeout => {
                text.push_str("timed out waiting for frame extraction");
            },
            ExtractError::Io(e) => {
                text.push_str("io error: ");
                text.push_str(e.as_str());
            },
            ExtractError::UnexpectedSize { expected, got } => {
                text.push_str("raw frame size mismatch: expected ");
                push_decimal(&mut text, *expected as u64);
                text.push_str(" bytes, got ");
                push_decimal(&mut text, *got as u64);
            },
        }
        assert(text@ =~= self@.text());
        text
    }
}

/// One frame of a video: four bytes for each of its pixels, row by row.
#[derive(Debug)]
pub struct RawFrame {
    pub width: u32,
    pub height: u32,
    pub rgba: Vec<u8>,
}

/// What [`RawFrame`] holds.
pub struct FrameView {
    pub width: u32,
    pub height: u32,
    pub rgba: Seq<u8>,
}

impl View for RawFrame {
    type V = FrameView;

    open spec fn view(&self) -> FrameView {
        FrameView { width: self.width, height: self.height, rgba: self.rgba@ }
    }
}

impl FrameView {
    /// Whether the frame has the bytes that its size calls for.
    pub open spec fn wf(self) -> bool {
        self.rgba.len() == self.width * self.height * 4
    }
}

/// Takes bytes as a frame of the given size, if there are as many as it calls for.
pub fn frame_from_bytes(width: u32, height: u32, bytes: Vec<u8>) -> (frame: Result<
    RawFrame,
    ExtractError,
>)
    requires
        width * height * 4 <= usize::MAX,
    ensures
        match frame {
            Ok(f) => {
                &&& bytes@.len() == width * height * 4
                &&& f@ == (FrameView { width, height, rgba: bytes@ })
                &&& f@.wf()
            },
            Err(e) => {
                &&& bytes@.len() != width * height * 4
                &&& e@ == (ExtractErrorView::UnexpectedSize {
                    expected: (width * height * 4) as usize,
                    got: bytes@.len() as usize,
                })
            },
        },
{
    assert(width * height <= width * height * 4) by (nonlinear_arith)
        requires
            width >= 0,
            height >= 0,
    ;
    let expected: usize = (width as usize) * (height as usize) * 4;
    if bytes.len() != expected {
        return Err(ExtractError::UnexpectedSize { expected, got: bytes.len() });
    }
    Ok(RawFrame { width, height, rgba: bytes })
}

/// How the player is to scale and pad a frame to a size.
pub open spec fn frame_filter_of(width: nat, height: nat) -> Seq<char> {
    let size = decimal(width) + ":"@ + decimal(height);
    "scale="@ + size + ":force_original_aspect_ratio=decrease,pad="@ + size
        + ":(ow-iw)/2:(oh-ih)/2:color=black,format=rgba"@
}

/// How the player is to scale and pad a frame to a size, keeping its proportions.
pub fn frame_filter(width: u32, height: u32) -> (filter: String)
    ensures
        filter@ == frame_filter_of(width as nat, height as nat),
{
    let mut filter = String::new();
    filter.push_str("scale=");
    push_decimal(&mut filter, width as u64);
    filter.push_str(":");
    push_decimal(&mut filter, height as u64);
    filter.push_str(":force_original_aspect_ratio=decrease,pad=");
    push_decimal(&mut filter, width as u64);
    filter.push_str(":");
    push_decimal(&mut filter, height as u64);
    filter.push_str(":(ow-iw)/2:(oh-ih)/2:color=black,format=rgba");
    assert(filter@ =~= frame_filter_of(width as nat, height as nat));
    filter
}

/// The name of the file into which the player writes a frame, by the number of the process and the
/// bits of the time of the frame.
pub fn frame_file_name(process: u32, time_bits: u64) -> (name: String)
    ensures
        name@ == "flick-frame-"@ + decimal(process as nat) + "-"@ + decimal(time_bits as nat)
            + ".raw"@,
{
    let mut name = String::new();
    name.push_str("flick-frame-");
    push_decimal(&mut name, process as u64);
    name.push_str("-");
    push_decimal(&mut name, time_bits);
    name.push_str(".raw");
    assert(name@ =~= "flick-frame-"@ + decimal(process as nat) + "-"@ + decimal(time_bits as nat)
        + ".raw"@);
    name
}

/// What happens while waiting for the player.
#[derive(Debug)]
pub enum PlayerEvent {
    /// The time for waiting is over.
    Overdue,
    /// The file is loaded.
    FileLoaded,
    /// The file came to its end.
    EndFile,
    /// The player has shut down.
    Shutdown,
    /// The player reports an error.
    Error(String),
    /// Something else, or nothing for a while.
    Other,
}

/// What to do next while waiting for the player.
#[derive(Debug)]
pub enum WaitStep {
    /// Go on waiting.
    Wait,
    /// Ask the player to quit, and go on waiting.
    Quit,
    /// What was waited for is there.
    Ready,
    /// Give up.
    Fail(ExtractError),
}

/// Waiting for the player to write a frame. The frame is complete only once the player has shut
/// down, which it is asked to do once, when the file has come to its end.
#[derive(Debug, Clone, Copy, PartialEq, Eq, Structural)]
pub struct FrameWait {
    pub quit_sent: bool,
}

impl FrameWait {
    /// The beginning of the wait.
    pub fn new() -> (wait: FrameWait)
        ensures
            !wait.quit_sent,
    {
        FrameWait { quit_sent: false }
    }

    /// Takes in what happened, and says what to do next.
    pub fn step(&mut self, event: PlayerEvent) -> (step: WaitStep)
        ensures
            final(self).quit_sent == (old(self).quit_sent || event is EndFile),
            match event {
                PlayerEvent::Overdue => step matches WaitStep::Fail(e) && e@
                    == ExtractErrorView::Timeout,
                PlayerEvent::Error(message) => step matches WaitStep::Fail(e) && e@
                    == ExtractErrorView::Mpv(message@),
                PlayerEvent::Shutdown => step is Ready,
                PlayerEvent::EndFile => if old(self).quit_sent {
                    step is Wait
                } else {
                    step is Quit
                },
                _ => step is Wait,
            },
    {
        match event {
            PlayerEvent::Overdue => WaitStep::Fail(ExtractError::Timeout),
            PlayerEvent::Error(message) => WaitStep::Fail(ExtractError::Mpv(message)),
            PlayerEvent::Shutdown => WaitStep::Ready,
            PlayerEvent::EndFile => {
                if self.quit_sent {
                    return WaitStep::Wait;
                }
                self.quit_sent = true;
                WaitStep::Quit
            },
            PlayerEvent::FileLoaded => WaitStep::Wait,
            PlayerEvent::Other => WaitStep::Wait,
        }
    }
}

/// Waiting for the player to load a file, whose length it knows then. A file that comes to its end
/// without having been loaded ends the wait too.
pub fn probe_step(event: PlayerEvent) -> (step: WaitStep)
    ensures
        match event {
            PlayerEvent::Overdue => step matches WaitStep::Fail(e) && e@
                == ExtractErrorView::Timeout,
            PlayerEvent::Error(message) => step matches WaitStep::Fail(e) && e@
                == ExtractErrorView::Mpv(message@),
            PlayerEvent::FileLoaded => step is Ready,
            PlayerEvent::EndFile => step is Ready,
            _ => step is Wait,
        },
{
    match event {
        PlayerEvent::Overdue => WaitStep::Fail(ExtractError::Timeout),
        PlayerEvent::Error(message) => WaitStep::Fail(ExtractError::Mpv(message)),
        PlayerEvent::FileLoaded => WaitStep::Ready,
        PlayerEvent::EndFile => WaitStep::Ready,
        PlayerEvent::Shutdown => WaitStep::Wait,
        PlayerEvent::Other => WaitStep::Wait,
    }
}

} // verus!
