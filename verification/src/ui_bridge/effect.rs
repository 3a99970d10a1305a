//! What the window and the player are told to do.

use super::state::Mode;
use vstd::prelude::*;

verus! {

/// One thing for the window or the player to do. Items are named by the mode whose queue holds
/// them and by their index there.
#[derive(Debug, Clone, Copy, PartialEq, Eq, Structural)]
pub enum Effect {
    /// Stop the player.
    StopPlayer,
    /// Pause the player and, where that works, show that nothing plays.
    PausePlayer,
    /// Load a video into the player in place of what is there, and let it run.
    LoadVideo { mode: Mode, index: usize },
    /// Show whether something plays.
    SetPlaying(bool),
    /// Show an image, and animate it if it is an animated one.
    ShowPicture { mode: Mode, index: usize },
    /// Forget the animation of the image on show.
    DropAnimation,
    /// Set zoom and rotation of the image view back.
    ResetPictureView,
    /// Show one item (true) or the grid (false).
    SetGalleryOpen(bool),
    /// In the mode for all media: show whether the item on show is a video.
    SetCurrentIsVideo(bool),
    /// Show whether the queue of a mode has items.
    SetHasItems { mode: Mode, has: bool },
    /// Show the place of the item on show in the order of play of a mode.
    ShowPosition { mode: Mode, position: usize, total: usize },
    /// Show that a mode has no item on show.
    ClearPosition(Mode),
    /// Switch the window to a mode.
    SetViewMode(Mode),
    /// Show whether the slideshow is on.
    SetSlideshowOn(bool),
    /// Start the slideshow's timer over.
    StartSlideshowTimer,
    /// Stop the slideshow's timer.
    StopSlideshowTimer,
    /// Show whether shuffle is on.
    SetShuffleOn(bool),
    /// Show whether looping is on.
    SetLoopOn(bool),
    /// Take away the preview of the progress bar.
    ClearSpritePreview,
    /// Bring the preview of the progress bar in line with the video on show.
    SyncSpritePreview,
    /// Show that the preview of the progress bar is being made.
    ShowSpriteLoading,
    /// Show that the preview of the progress bar is no longer being made.
    HideSpriteLoading,
    /// Take away the preview of the list.
    HideListPreview,
    /// Plan to make the preview of an item.
    ScheduleSprite(usize),
    /// Fill the list anew, one row for each item that the search shows; when deferred, without
    /// what has to be read from disk.
    FillRows { deferred: bool },
    /// Fill the rows from `from` up to `to` of the list.
    FillRowRange { from: usize, to: usize, deferred: bool },
    /// Show whether the library and the grid are loading, with the text that goes with it.
    ShowLoading { loading: bool, gallery_loading: bool },
    /// Show that items are being added, with their number.
    ShowAdding(usize),
    /// Make all rows of the grid anew, without pictures.
    ResetGrid,
    /// Add rows without pictures to the grid, behind those that are there.
    ExtendGrid { from: usize },
    /// Show that the picture of a row of the grid could not be had.
    MarkThumbFailed { row: usize },
    /// Show no row of the grid as one whose picture could not be had.
    ClearThumbFailures,
    /// Make the pictures of the rows of the grid that are to be made.
    StartThumbs { generation: u64 },
    /// Put the picture that came for a row of the grid there, and into the list.
    ShowThumb { row: usize },
    /// Let the player loop from a point, given by the bits of its time in seconds.
    SetLoopStart(u64),
    /// Let the player loop up to a point, given by the bits of its time in seconds.
    SetLoopEnd(u64),
    /// Let the player forget both loop points.
    ClearLoopPoints,
    /// Go to an exact time, given by its bits in seconds.
    SeekExact(u64),
    /// Go to an exact share of the whole, given by its bits.
    SeekToRatio(u32),
    /// Show the loop points.
    ShowAbLoop,
}

} // verus!
