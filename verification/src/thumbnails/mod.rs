//! Posters and previews: what they are made of, and where they are kept.

pub mod cache;
pub mod frame;
pub mod hash;
pub mod laws;
pub mod picture;
pub mod poster;
pub mod sprite;
pub mod sprite_job;

pub use hash::{hash_video_file, ContentHashCache, FileSample, FileStamp};
