//! Flick: the logic of a desktop player for mixed video and image libraries.

pub mod file_manager;
pub mod import;
pub mod library;
pub mod path;
pub mod path_key;
pub mod path_laws;
pub mod playlist;
pub mod table;
pub mod text;
pub mod text_laws;
pub mod thumbnails;
pub mod ui_bridge;
