//! What the window shows and how it answers to its user.

pub mod ab_loop;
pub mod acting;
pub mod adding;
pub mod changing;
pub mod controls;
pub mod effect;
pub mod enqueue;
pub mod format;
pub mod gallery;
pub mod gif;
pub mod grid_laws;
pub mod laws;
pub mod loading;
pub mod playback;
pub mod preview_laws;
pub mod rows;
pub mod screen;
pub mod showing;
pub mod sprite_preview;
pub mod state;

pub use effect::Effect;
pub use format::{basename, format_file_size, format_time};
pub use gallery::GalleryReload;
pub use loading::PlaylistRebuildJob;
pub use state::{AbLoopState, AppState, Mode, SpriteStatus};
