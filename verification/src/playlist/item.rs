//! One entry of a queue.

use crate::path::MediaPath;
use vstd::prelude::*;

verus! {

/// A video or an image in a queue.
#[derive(Debug)]
pub struct MediaItem {
    pub id: u64,
    pub name: String,
    pub path: MediaPath,
    /// The name in lowercase, kept so that a search need not lowercase every name again.
    pub name_lower: String,
    /// The size of the file in bytes, or `None` if it could not be told.
    pub size_bytes: Option<u64>,
}

/// What a queue entry holds.
pub struct ItemView {
    pub id: u64,
    pub name: Seq<char>,
    pub path: Seq<u8>,
    pub name_lower: Seq<char>,
    pub size_bytes: Option<u64>,
}

impl View for MediaItem {
    type V = ItemView;

    open spec fn view(&self) -> ItemView {
        ItemView {
            id: self.id,
            name: self.name@,
            path: self.path@,
            name_lower: self.name_lower@,
            size_bytes: self.size_bytes,
        }
    }
}

/// A file offered to a queue: its name, its path and its size where known.
pub type Candidate = (String, MediaPath, Option<u64>);

/// What a candidate holds.
pub struct CandidateView {
    pub name: Seq<char>,
    pub path: Seq<u8>,
    pub size_bytes: Option<u64>,
}

/// The contents of one candidate.
pub open spec fn candidate_view(c: Candidate) -> CandidateView {
    CandidateView { name: c.0@, path: c.1@, size_bytes: c.2 }
}

/// The contents of several candidates.
pub open spec fn candidate_views(cs: Seq<Candidate>) -> Seq<CandidateView> {
    cs.map_values(|c: Candidate| candidate_view(c))
}

} // verus!
