//! Queues of media: their items, their order of play and what plays next.

pub mod behaviour;
pub mod item;
pub mod laws;
pub mod model;
pub mod queue;
pub mod shuffle;

pub use item::{Candidate, MediaItem};
pub use model::RemoveOutcome;
pub use queue::Queue;
