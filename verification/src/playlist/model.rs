//! What a queue is and what its operations mean.

use super::item::{CandidateView, ItemView};
use crate::path_key::path_key;
use crate::text::{ascii_lowered, contains_text, lowercase};
use vstd::prelude::*;
use vstd::utf8::is_ascii_chars;

verus! {

/// What the caller should do after removing an item.
#[derive(Debug, Clone, Copy, PartialEq, Eq, Structural)]
pub enum RemoveOutcome {
    QueueEmpty,
    /// The removed item was the one playing; the caller should load this index instead.
    NowPlayingChanged(usize),
    NoPlaybackChange,
}

/// Whether `lower` is the lowercase form of `text`.
pub open spec fn is_lowercase_of(lower: Seq<char>, text: Seq<char>) -> bool {
    &&& lower == lowercase(text)
    &&& is_ascii_chars(text) ==> lower == ascii_lowered(text)
}

/// The contents of a queue.
pub struct QueueView {
    pub items: Seq<ItemView>,
    /// The shuffle order. Items added since it was made are not in it.
    pub play_order: Seq<usize>,
    pub now_playing: Option<usize>,
    /// The id that was given out last.
    pub last_id: u64,
}

/// The numbers from zero up to `n`, in order.
pub open spec fn indices(n: nat) -> Seq<usize> {
    Seq::new(n, |i: int| i as usize)
}

/// The place at which `x` first occurs in `order`.
pub open spec fn position(order: Seq<usize>, x: usize) -> Option<usize> {
    match order.index_of_first(x) {
        Some(i) => Some(i as usize),
        None => None,
    }
}

/// An order after item `index` left the queue: its entry is gone, and the entries behind it have
/// moved up by one.
pub open spec fn order_without(order: Seq<usize>, index: usize) -> Seq<usize>
    decreases order.len(),
{
    if order.len() == 0 {
        Seq::empty()
    } else {
        let rest = order_without(order.drop_last(), index);
        let x = order.last();
        if x == index {
            rest
        } else if x > index {
            rest.push((x - 1) as usize)
        } else {
            rest.push(x)
        }
    }
}

/// An order with the first entry `x` moved to the front.
pub open spec fn moved_to_front(order: Seq<usize>, x: usize) -> Seq<usize> {
    match order.index_of_first(x) {
        Some(i) => seq![x] + order.remove(i),
        None => order,
    }
}

impl QueueView {
    /// A queue without items.
    pub open spec fn empty() -> QueueView {
        QueueView {
            items: Seq::empty(),
            play_order: Seq::empty(),
            now_playing: None,
            last_id: 0,
        }
    }

    /// What holds of every queue: no two items have the same path or the same id, every lowercase
    /// name belongs to its name, and the shuffle order names items, each at most once.
    pub open spec fn wf(self) -> bool {
        &&& forall|i: int, j: int|
            0 <= i < j < self.items.len() ==> path_key(#[trigger] self.items[i].path) != path_key(
                #[trigger] self.items[j].path,
            )
        &&& forall|i: int, j: int|
            0 <= i < j < self.items.len() ==> #[trigger] self.items[i].id
                != #[trigger] self.items[j].id
        &&& forall|i: int|
            0 <= i < self.items.len() ==> {
                &&& #[trigger] self.items[i].id <= self.last_id
                &&& is_lowercase_of(self.items[i].name_lower, self.items[i].name)
            }
        &&& self.play_order.no_duplicates()
        &&& forall|k: int|
            0 <= k < self.play_order.len() ==> #[trigger] self.play_order[k] < self.items.len()
        &&& self.items.len() <= usize::MAX
        &&& self.play_order.len() <= usize::MAX
    }

    /// Whether an item with the path `path` is in the queue.
    pub open spec fn has_path(self, path: Seq<u8>) -> bool {
        exists|i: int|
            0 <= i < self.items.len() && path_key(#[trigger] self.items[i].path) == path_key(path)
    }

    /// The item that has the path `path`.
    pub open spec fn path_index(self, path: Seq<u8>) -> usize {
        choose|i: usize|
            i < self.items.len() && path_key(#[trigger] self.items[i as int].path) == path_key(path)
    }

    /// The queue after one file was offered to it.
    pub open spec fn offered(self, c: CandidateView) -> QueueView {
        if self.has_path(c.path) {
            self
        } else {
            QueueView {
                items: self.items.push(
                    ItemView {
                        id: (self.last_id + 1) as u64,
                        name: c.name,
                        path: c.path,
                        name_lower: lowercase(c.name),
                        size_bytes: c.size_bytes,
                    },
                ),
                last_id: (self.last_id + 1) as u64,
                ..self
            }
        }
    }

    /// The queue after several files were offered to it, one after the other.
    pub open spec fn enqueued(self, cs: Seq<CandidateView>) -> QueueView
        decreases cs.len(),
    {
        if cs.len() == 0 {
            self
        } else {
            self.enqueued(cs.drop_last()).offered(cs.last())
        }
    }

    /// Whether `index` is an item that the search shows.
    pub open spec fn shows(self, index: usize, query: Seq<char>) -> bool {
        index < self.items.len() && (query.len() == 0 || contains_text(
            self.items[index as int].name_lower,
            lowercase(query),
        ))
    }

    /// The entries of `order` that the search shows.
    pub open spec fn kept(self, order: Seq<usize>, query: Seq<char>) -> Seq<usize>
        decreases order.len(),
    {
        if order.len() == 0 {
            Seq::empty()
        } else {
            let rest = self.kept(order.drop_last(), query);
            if self.shows(order.last(), query) {
                rest.push(order.last())
            } else {
                rest
            }
        }
    }

    /// The items that the search shows, in queue order.
    pub open spec fn filtered(self, query: Seq<char>) -> Seq<usize> {
        self.kept(indices(self.items.len()), query)
    }

    /// The items that the search shows, in the order in which they play.
    pub open spec fn current_order(self, query: Seq<char>, shuffle_on: bool) -> Seq<usize> {
        let shuffled = self.kept(self.play_order, query);
        if shuffle_on && self.play_order.len() >= 2 && shuffled.len() > 0 {
            shuffled
        } else {
            self.filtered(query)
        }
    }

    /// The item at place `idx` of the order of play, or `idx` itself where the order is shorter.
    pub open spec fn in_order(self, idx: usize, query: Seq<char>, shuffle_on: bool) -> usize {
        let order = self.current_order(query, shuffle_on);
        if idx < order.len() {
            order[idx as int]
        } else {
            idx
        }
    }

    /// The place of the playing item in the order of play.
    pub open spec fn place(self, query: Seq<char>, shuffle_on: bool) -> Option<usize> {
        match self.now_playing {
            Some(np) => position(self.current_order(query, shuffle_on), np),
            None => None,
        }
    }

    /// The item to play next.
    pub open spec fn next(self, query: Seq<char>, shuffle_on: bool, loop_on: bool) -> Option<
        usize,
    > {
        let order = self.current_order(query, shuffle_on);
        let to = match self.place(query, shuffle_on) {
            Some(p) => p + 1,
            None => 0,
        };
        if order.len() < 2 {
            if loop_on && order.len() == 1 {
                Some(order[0])
            } else {
                None
            }
        } else if to < order.len() {
            Some(order[to])
        } else if loop_on {
            Some(order[0])
        } else {
            None
        }
    }

    /// The item to go back to. Where nothing in the order is playing, looping goes to the last
    /// but one.
    pub open spec fn prev(self, query: Seq<char>, shuffle_on: bool, loop_on: bool) -> Option<
        usize,
    > {
        let order = self.current_order(query, shuffle_on);
        if order.len() < 2 {
            None
        } else {
            match self.place(query, shuffle_on) {
                Some(p) => if p > 0 {
                    Some(order[p - 1])
                } else if loop_on {
                    Some(order.last())
                } else {
                    None
                },
                None => if loop_on {
                    Some(order[order.len() - 2])
                } else {
                    None
                },
            }
        }
    }

    /// The queue after the item at `index` was taken out.
    pub open spec fn removed(self, index: usize) -> QueueView {
        QueueView {
            items: self.items.remove(index as int),
            play_order: order_without(self.play_order, index),
            now_playing: if self.items.len() == 1 {
                None
            } else {
                match self.now_playing {
                    Some(np) => if np == index && index == self.items.len() - 1 {
                        Some((index - 1) as usize)
                    } else if np > index {
                        Some((np - 1) as usize)
                    } else {
                        Some(np)
                    },
                    None => None,
                }
            },
            ..self
        }
    }

    /// The queue after the item with the path `path`, if there is one, was taken out.
    pub open spec fn removed_path(self, path: Seq<u8>) -> QueueView {
        if self.has_path(path) {
            self.removed(self.path_index(path))
        } else {
            self
        }
    }

    /// What the caller should do after the item at `index` was taken out.
    pub open spec fn remove_outcome(self, index: usize) -> RemoveOutcome {
        if self.items.len() == 1 {
            RemoveOutcome::QueueEmpty
        } else if self.now_playing == Some(index) {
            RemoveOutcome::NowPlayingChanged(self.removed(index).now_playing.unwrap())
        } else {
            RemoveOutcome::NoPlaybackChange
        }
    }

    /// The queue after every item was taken out. Ids that were given out are not given out again.
    pub open spec fn cleared(self) -> QueueView {
        QueueView { last_id: self.last_id, ..QueueView::empty() }
    }

    /// The queue after the item at `src` was moved to `dst`.
    pub open spec fn moved(self, src: usize, dst: usize) -> QueueView {
        QueueView {
            items: self.items.remove(src as int).insert(dst as int, self.items[src as int]),
            play_order: indices(self.items.len()),
            now_playing: match self.now_playing {
                Some(np) => if np == src {
                    Some(dst)
                } else if src < np && dst >= np {
                    Some((np - 1) as usize)
                } else if src > np && dst <= np {
                    Some((np + 1) as usize)
                } else {
                    Some(np)
                },
                None => None,
            },
            ..self
        }
    }

    /// The queue with a new shuffle order.
    pub open spec fn with_order(self, order: Seq<usize>) -> QueueView {
        QueueView { play_order: order, ..self }
    }

    /// The queue with a new shuffle order, playing the first item that the search shows in it.
    pub open spec fn jumped_to_first(self, order: Seq<usize>, query: Seq<char>) -> QueueView {
        let ordered = self.with_order(order);
        let shown = ordered.current_order(query, true);
        if shown.len() == 0 {
            ordered
        } else {
            QueueView { now_playing: Some(shown[0]), ..ordered }
        }
    }

    /// The queue with a new shuffle order in which the playing item comes first, as long as the
    /// search shows it.
    pub open spec fn kept_current_first(self, order: Seq<usize>, query: Seq<char>) -> QueueView {
        let ordered = self.with_order(order);
        match self.now_playing {
            Some(now) => if ordered.current_order(query, true).contains(now) {
                self.with_order(moved_to_front(order, now))
            } else {
                ordered
            },
            None => ordered,
        }
    }

    /// Whether `order` is an order of all the items.
    pub open spec fn is_full_order(self, order: Seq<usize>) -> bool {
        order.to_multiset() == indices(self.items.len()).to_multiset()
    }
}

} // verus!
