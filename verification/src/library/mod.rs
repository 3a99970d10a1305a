//! What counts as media, and collecting it from folders.

pub mod batch;
pub mod ext;
pub mod filter;
pub mod laws;
pub mod magic;
pub mod scan;

pub use ext::{is_image_file, is_video_file, media_kind, MediaKind};
pub use filter::filter_valid_media;
pub use scan::ScannedFile;
