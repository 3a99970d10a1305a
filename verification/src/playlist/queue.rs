//! A playlist: the video queue, the image queue or the queue of all media.

use super::item::{candidate_view, candidate_views, Candidate, CandidateView, MediaItem};
use super::laws::{full_order_is_permutation, indices_are_distinct, moved_to_front_keeps_entries, order_without_stays_valid};
use super::model::{indices, is_lowercase_of, moved_to_front, order_without, position, QueueView, RemoveOutcome};
use super::shuffle::{draw_picks, fisher_yates_with, shuffled, valid_picks};
use crate::path::MediaPath;
use crate::path_key::{path_key, same_key};
use crate::text::{lowercase, str_contains, to_lowercase};
use vstd::prelude::*;

verus! {

/// One playlist. Shuffle, loop and search are shared by all playlists and therefore handed in.
#[derive(Debug)]
pub struct Queue {
    items: Vec<MediaItem>,
    /// The keys of the items' paths, by which a path is found again.
    keys: Vec<Vec<u16>>,
    play_order: Vec<usize>,
    now_playing: Option<usize>,
    next_id: u64,
}

impl View for Queue {
    type V = QueueView;

    closed spec fn view(&self) -> QueueView {
        QueueView {
            items: self.items@.map_values(|it: MediaItem| it@),
            play_order: self.play_order@,
            now_playing: self.now_playing,
            last_id: self.next_id,
        }
    }
}

/// The place at which `x` first occurs in `order`.
pub fn find_position(order: &[usize], x: usize) -> (place: Option<usize>)
    ensures
        place == position(order@, x),
        place matches Some(p) ==> p < order@.len() && order@[p as int] == x,
        place is None ==> !order@.contains(x),
{
    proof {
        order@.index_of_first_ensures(x);
    }
    let mut i: usize = 0;
    while i < order.len()
        invariant
            i <= order.len(),
            forall|k: int| 0 <= k < i ==> order@[k] != x,
        decreases order.len() - i,
    {
        if order[i] == x {
            proof {
                order@.index_of_first_ensures(x);
                assert(order@.contains(x));
            }
            return Some(i);
        }
        i += 1;
    }
    None
}

/// The numbers from zero up to `n`, in order.
pub fn index_vec(n: usize) -> (order: Vec<usize>)
    ensures
        order@ == indices(n as nat),
{
    let mut order: Vec<usize> = Vec::new();
    let mut i: usize = 0;
    while i < n
        invariant
            i <= n,
            order@ == indices(i as nat),
        decreases n - i,
    {
        order.push(i);
        i += 1;
        assert(order@ =~= indices(i as nat));
    }
    order
}

impl Default for Queue {
    fn default() -> (queue: Self)
        ensures
            queue.wf(),
            queue@ == QueueView::empty(),
    {
        Queue::new()
    }
}

impl Queue {
    /// What holds of every queue.
    pub closed spec fn wf(&self) -> bool {
        &&& self@.wf()
        &&& self.keys.len() == self.items.len()
        &&& forall|i: int|
            0 <= i < self.items.len() ==> #[trigger] self.keys@[i]@ == path_key(self.items@[i].path@)
    }

    /// The contents of a well-formed queue keep to the rules for queues.
    pub proof fn wf_contents(&self)
        requires
            self.wf(),
        ensures
            self@.wf(),
    {
    }

    /// A queue without items.
    pub fn new() -> (queue: Self)
        ensures
            queue.wf(),
            queue@ == QueueView::empty(),
    {
        let queue = Queue {
            items: Vec::new(),
            keys: Vec::new(),
            play_order: Vec::new(),
            now_playing: None,
            next_id: 0,
        };
        assert(queue@.items =~= Seq::empty());
        queue
    }

    /// How many items there are.
    pub fn len(&self) -> (len: usize)
        ensures
            len == self@.items.len(),
    {
        self.items.len()
    }

    /// Whether there is no item.
    pub fn is_empty(&self) -> (empty: bool)
        ensures
            empty == (self@.items.len() == 0),
    {
        self.items.len() == 0
    }

    /// The item at `index`.
    pub fn item(&self, index: usize) -> (item: Option<&MediaItem>)
        ensures
            match item {
                Some(it) => index < self@.items.len() && it@ == self@.items[index as int],
                None => index >= self@.items.len(),
            },
    {
        if index < self.items.len() {
            Some(&self.items[index])
        } else {
            None
        }
    }

    /// The index of the item that is playing.
    pub fn now_playing(&self) -> (index: Option<usize>)
        ensures
            index == self@.now_playing,
    {
        self.now_playing
    }

    /// The id that was given out last.
    pub fn last_id(&self) -> (id: u64)
        ensures
            id == self@.last_id,
    {
        self.next_id
    }

    /// Says which item is playing.
    pub fn set_now_playing(&mut self, index: Option<usize>)
        requires
            old(self).wf(),
        ensures
            final(self).wf(),
            final(self)@ == (QueueView { now_playing: index, ..old(self)@ }),
    {
        self.now_playing = index;
    }

    /// Whether an item with the path `path` is in the queue.
    fn has_key(&self, key: &[u16]) -> (found: bool)
        requires
            self.wf(),
        ensures
            found == exists|i: int|
                0 <= i < self@.items.len() && path_key(#[trigger] self@.items[i].path) == key@,
    {
        let mut i: usize = 0;
        while i < self.keys.len()
            invariant
                self.wf(),
                i <= self.keys.len(),
                forall|k: int| 0 <= k < i ==> path_key(#[trigger] self@.items[k].path) != key@,
            decreases self.keys.len() - i,
        {
            assert(self.keys@[i as int]@ == path_key(self@.items[i as int].path));
            if same_key(&self.keys[i], key) {
                return true;
            }
            i += 1;
        }
        false
    }

    /// Adds one file unless an item with its path is there.
    fn offer(&mut self, name: String, path: MediaPath, size_bytes: Option<u64>)
        requires
            old(self).wf(),
            old(self)@.last_id < u64::MAX,
        ensures
            final(self).wf(),
            final(self)@ == old(self)@.offered(
                CandidateView { name: name@, path: path@, size_bytes },
            ),
    {
        let key = path.key();
        if self.has_key(&key) {
            return;
        }
        let name_lower = to_lowercase(name.as_str());
        self.next_id = self.next_id + 1;
        let ghost before = self.items@;
        self.items.push(MediaItem { id: self.next_id, name, path, name_lower, size_bytes });
        self.keys.push(key);
        proof {
            let c = CandidateView { name: name@, path: path@, size_bytes };
            assert(self@.items =~= old(self)@.offered(c).items);
            assert(self.items.len() <= usize::MAX);
            assert forall|i: int| 0 <= i < self.items.len() implies #[trigger] self.keys@[i]@
                == path_key(self.items@[i].path@) by {
                if i < before.len() {
                    assert(old(self).keys@[i]@ == path_key(before[i].path@));
                }
            }
            assert forall|i: int, j: int| 0 <= i < j < self@.items.len() implies path_key(
                #[trigger] self@.items[i].path,
            ) != path_key(#[trigger] self@.items[j].path) by {
                assert(self@.items[i] == old(self)@.items[i]);
                if j < before.len() {
                    assert(self@.items[j] == old(self)@.items[j]);
                }
            }
            assert forall|i: int, j: int| 0 <= i < j < self@.items.len() implies #[trigger] self@.items[i].id
                != #[trigger] self@.items[j].id by {
                assert(self@.items[i] == old(self)@.items[i]);
                if j < before.len() {
                    assert(self@.items[j] == old(self)@.items[j]);
                }
            }
            assert forall|i: int| 0 <= i < self@.items.len() implies {
                &&& #[trigger] self@.items[i].id <= self@.last_id
                &&& is_lowercase_of(self@.items[i].name_lower, self@.items[i].name)
            } by {
                if i < before.len() {
                    assert(self@.items[i] == old(self)@.items[i]);
                }
            }
        }
    }

    /// Adds the files that are not there yet; two paths with the same components are the same
    /// path. Gives back the indices of the items that were added.
    pub fn enqueue(&mut self, candidates: Vec<Candidate>) -> (added: Vec<usize>)
        requires
            old(self).wf(),
            old(self)@.last_id + candidates.len() <= u64::MAX,
        ensures
            final(self).wf(),
            final(self)@ == old(self)@.enqueued(candidate_views(candidates@)),
            added@ == Seq::new(
                (final(self)@.items.len() - old(self)@.items.len()) as nat,
                |k: int| (old(self)@.items.len() + k) as usize,
            ),
    {
        let ghost views = candidate_views(candidates@);
        let mut added: Vec<usize> = Vec::new();
        assert(views.take(0) =~= Seq::empty());
        for candidate in it: candidates
            invariant
                self.wf(),
                views == candidate_views(it.seq()),
                self@ == old(self)@.enqueued(views.take(it.index())),
                old(self)@.last_id <= self@.last_id <= old(self)@.last_id + it.index(),
                old(self)@.last_id + it.seq().len() <= u64::MAX,
                old(self)@.items.len() <= self@.items.len(),
                added@ == Seq::new(
                    (self@.items.len() - old(self)@.items.len()) as nat,
                    |k: int| (old(self)@.items.len() + k) as usize,
                ),
        {
            let before = self.items.len();
            let (name, path, size_bytes) = candidate;
            self.offer(name, path, size_bytes);
            proof {
                let i = it.index();
                assert(views[i] == candidate_view(it.seq()[i]));
                assert(views.take(i + 1).drop_last() =~= views.take(i));
                assert(views.take(i + 1).last() == views[i]);
            }
            if self.items.len() > before {
                added.push(before);
            }
            assert(added@ =~= Seq::new(
                (self@.items.len() - old(self)@.items.len()) as nat,
                |k: int| (old(self)@.items.len() + k) as usize,
            ));
        }
        assert(views.take(views.len() as int) =~= views);
        added
    }

    /// Takes the item at `index` out.
    pub fn remove_at(&mut self, index: usize) -> (outcome: RemoveOutcome)
        requires
            old(self).wf(),
            index < old(self)@.items.len(),
        ensures
            final(self).wf(),
            final(self)@ == old(self)@.removed(index),
            outcome == old(self)@.remove_outcome(index),
    {
        let ghost was = *self;
        let removed = self.items.remove(index);
        let removed_key = self.keys.remove(index);

        let mut order: Vec<usize> = Vec::new();
        let mut k: usize = 0;
        assert(was.play_order@.take(0) =~= Seq::empty());
        while k < self.play_order.len()
            invariant
                k <= self.play_order.len(),
                self.play_order == was.play_order,
                order@ == order_without(was.play_order@.take(k as int), index),
            decreases self.play_order.len() - k,
        {
            let x = self.play_order[k];
            assert(was.play_order@.take(k + 1).drop_last() =~= was.play_order@.take(k as int));
            if x > index {
                order.push(x - 1);
            } else if x < index {
                order.push(x);
            }
            k += 1;
        }
        assert(was.play_order@.take(k as int) =~= was.play_order@);
        self.play_order = order;

        let outcome = if self.items.len() == 0 {
            self.now_playing = None;
            RemoveOutcome::QueueEmpty
        } else {
            match self.now_playing {
                Some(np) => {
                    if np == index {
                        let last = self.items.len() - 1;
                        let next = if index < last {
                            index
                        } else {
                            last
                        };
                        self.now_playing = Some(next);
                        RemoveOutcome::NowPlayingChanged(next)
                    } else {
                        if np > index {
                            self.now_playing = Some(np - 1);
                        }
                        RemoveOutcome::NoPlaybackChange
                    }
                },
                None => RemoveOutcome::NoPlaybackChange,
            }
        };
        proof {
            assert(self@.items =~= was@.items.remove(index as int));
            order_without_stays_valid(was.play_order@, index, was@.items.len());
            self.lemma_removed_wf(was, index as int);
        }
        outcome
    }

    proof fn lemma_removed_wf(&self, was: Queue, index: int)
        requires
            was.wf(),
            0 <= index < was.items.len(),
            self.items@ == was.items@.remove(index),
            self.keys@ == was.keys@.remove(index),
            self.next_id == was.next_id,
            self.play_order@.no_duplicates(),
            forall|k: int|
                0 <= k < self.play_order@.len() ==> #[trigger] self.play_order@[k]
                    < was.items.len() - 1,
        ensures
            self.wf(),
    {
        assert(self@.items =~= was@.items.remove(index));
        assert(self.play_order.len() <= usize::MAX);
        assert forall|i: int| 0 <= i < self.items.len() implies #[trigger] self.keys@[i]@
            == path_key(self.items@[i].path@) by {
            let j = if i < index {
                i
            } else {
                i + 1
            };
            assert(was.keys@[j]@ == path_key(was.items@[j].path@));
        }
        assert forall|i: int, j: int| 0 <= i < j < self@.items.len() implies path_key(
            #[trigger] self@.items[i].path,
        ) != path_key(#[trigger] self@.items[j].path) && self@.items[i].id != self@.items[j].id by {
            let a = if i < index {
                i
            } else {
                i + 1
            };
            let b = if j < index {
                j
            } else {
                j + 1
            };
            assert(self@.items[i] == was@.items[a]);
            assert(self@.items[j] == was@.items[b]);
        }
        assert forall|i: int| 0 <= i < self@.items.len() implies {
            &&& #[trigger] self@.items[i].id <= self@.last_id
            &&& is_lowercase_of(self@.items[i].name_lower, self@.items[i].name)
        } by {
            let a = if i < index {
                i
            } else {
                i + 1
            };
            assert(self@.items[i] == was@.items[a]);
            assert(was@.items[a].id <= was@.last_id);
        }
    }

    /// Takes out the item with the path `path`, if there is one.
    pub fn remove_by_path(&mut self, path: &MediaPath) -> (outcome: Option<RemoveOutcome>)
        requires
            old(self).wf(),
        ensures
            final(self).wf(),
            final(self)@ == old(self)@.removed_path(path@),
            outcome == (if old(self)@.has_path(path@) {
                Some(old(self)@.remove_outcome(old(self)@.path_index(path@)))
            } else {
                None
            }),
    {
        let key = path.key();
        let mut i: usize = 0;
        while i < self.keys.len()
            invariant
                *self == *old(self),
                self.wf(),
                key@ == path_key(path@),
                i <= self.keys.len(),
                forall|k: int| 0 <= k < i ==> path_key(#[trigger] self@.items[k].path) != key@,
            decreases self.keys.len() - i,
        {
            assert(self.keys@[i as int]@ == path_key(self@.items[i as int].path));
            if same_key(&self.keys[i], &key) {
                assert(self@.has_path(path@));
                assert(self@.path_index(path@) == i);
                return Some(self.remove_at(i));
            }
            i += 1;
        }
        None
    }

    /// Takes every item out.
    pub fn clear(&mut self)
        requires
            old(self).wf(),
        ensures
            final(self).wf(),
            final(self)@ == old(self)@.cleared(),
    {
        self.items.clear();
        self.keys.clear();
        self.play_order.clear();
        self.now_playing = None;
        assert(self@.items =~= Seq::empty());
    }

    /// Sets the shuffle order back to the order of the queue.
    pub fn reset_play_order(&mut self)
        requires
            old(self).wf(),
        ensures
            final(self).wf(),
            final(self)@ == old(self)@.with_order(indices(old(self)@.items.len())),
    {
        self.play_order = index_vec(self.items.len());
        proof {
            indices_are_distinct(self@.items.len());
        }
    }

    /// Moves the item at `src` so that it stands at `dst` once it has left its old place. The
    /// shuffle order is set back to the order of the queue.
    pub fn move_item(&mut self, src: usize, dst: usize)
        requires
            old(self).wf(),
            src < old(self)@.items.len(),
            dst < old(self)@.items.len(),
        ensures
            final(self).wf(),
            final(self)@ == old(self)@.moved(src, dst),
    {
        let ghost was = *self;
        let item = self.items.remove(src);
        self.items.insert(dst, item);
        let key = self.keys.remove(src);
        self.keys.insert(dst, key);

        self.now_playing = match self.now_playing {
            Some(np) => if np == src {
                Some(dst)
            } else if src < np && dst >= np {
                Some(np - 1)
            } else if src > np && dst <= np {
                Some(np + 1)
            } else {
                Some(np)
            },
            None => None,
        };

        self.play_order = index_vec(self.items.len());
        proof {
            indices_are_distinct(self@.items.len());
            assert(self@.items =~= was@.moved(src, dst).items);
            self.lemma_moved_wf(was, src as int, dst as int);
        }
    }

    proof fn lemma_moved_wf(&self, was: Queue, src: int, dst: int)
        requires
            was.wf(),
            0 <= src < was.items.len(),
            0 <= dst < was.items.len(),
            self.items@ == was.items@.remove(src).insert(dst, was.items@[src]),
            self.keys@ == was.keys@.remove(src).insert(dst, was.keys@[src]),
            self.next_id == was.next_id,
            self.play_order@.no_duplicates(),
            forall|k: int|
                0 <= k < self.play_order@.len() ==> #[trigger] self.play_order@[k]
                    < was.items.len(),
        ensures
            self.wf(),
    {
        let from = |i: int|
            if i == dst {
                src
            } else {
                let r = if i < dst {
                    i
                } else {
                    i - 1
                };
                if r < src {
                    r
                } else {
                    r + 1
                }
            };
        assert forall|i: int| 0 <= i < self.items.len() implies {
            &&& 0 <= #[trigger] from(i) < was.items.len()
            &&& self.items@[i] == was.items@[from(i)]
            &&& self.keys@[i] == was.keys@[from(i)]
        } by {}
        assert forall|i: int| 0 <= i < self.items.len() implies #[trigger] self.keys@[i]@
            == path_key(self.items@[i].path@) by {
            assert(was.keys@[from(i)]@ == path_key(was.items@[from(i)].path@));
        }
        assert forall|i: int, j: int| 0 <= i < j < self@.items.len() implies path_key(
            #[trigger] self@.items[i].path,
        ) != path_key(#[trigger] self@.items[j].path) && self@.items[i].id != self@.items[j].id by {
            assert(from(i) != from(j));
            assert(self@.items[i] == was@.items[from(i)]);
            assert(self@.items[j] == was@.items[from(j)]);
        }
        assert forall|i: int| 0 <= i < self@.items.len() implies {
            &&& #[trigger] self@.items[i].id <= self@.last_id
            &&& is_lowercase_of(self@.items[i].name_lower, self@.items[i].name)
        } by {
            assert(self@.items[i] == was@.items[from(i)]);
            assert(was@.items[from(i)].id <= was@.last_id);
        }
        assert forall|i: int, j: int| 0 <= i < j < self@.items.len() implies #[trigger] self@.items[i].id
            != #[trigger] self@.items[j].id by {
            assert(path_key(self@.items[i].path) != path_key(self@.items[j].path));
        }
        assert(self.play_order.len() <= usize::MAX);
    }

    /// Whether the search for `query`, already in lowercase as `lower`, shows the item.
    fn shows(&self, index: usize, query: &str, lower: &str) -> (shown: bool)
        requires
            lower@ == lowercase(query@),
        ensures
            shown == self@.shows(index, query@),
    {
        index < self.items.len() && (query.is_empty() || str_contains(
            self.items[index].name_lower.as_str(),
            lower,
        ))
    }

    /// The entries of `order` that the search shows.
    fn keep_shown(&self, order: &[usize], query: &str) -> (kept: Vec<usize>)
        ensures
            kept@ == self@.kept(order@, query@),
            is_lowercase_of(lowercase(query@), query@),
    {
        let lower = to_lowercase(query);
        let mut kept: Vec<usize> = Vec::new();
        let mut k: usize = 0;
        assert(order@.take(0) =~= Seq::empty());
        while k < order.len()
            invariant
                k <= order.len(),
                is_lowercase_of(lower@, query@),
                kept@ == self@.kept(order@.take(k as int), query@),
            decreases order.len() - k,
        {
            assert(order@.take(k + 1).drop_last() =~= order@.take(k as int));
            if self.shows(order[k], query, lower.as_str()) {
                kept.push(order[k]);
            }
            k += 1;
        }
        assert(order@.take(k as int) =~= order@);
        kept
    }

    /// The items whose name holds `search_query`, upper and lower case being one; all items if it
    /// is empty.
    pub fn filtered_indices(&self, search_query: &str) -> (shown: Vec<usize>)
        ensures
            shown@ == self@.filtered(search_query@),
            is_lowercase_of(lowercase(search_query@), search_query@),
    {
        let all = index_vec(self.items.len());
        self.keep_shown(&all, search_query)
    }

    /// The items that the search shows, in shuffle order when shuffle is on. Where the shuffle
    /// order has fewer than two entries, or none that the search shows, they come in queue order.
    pub fn current_order(&self, search_query: &str, shuffle_on: bool) -> (order: Vec<usize>)
        ensures
            order@ == self@.current_order(search_query@, shuffle_on),
    {
        if shuffle_on && self.play_order.len() >= 2 {
            let result = self.keep_shown(&self.play_order, search_query);
            if result.len() > 0 {
                return result;
            }
        }
        self.filtered_indices(search_query)
    }

    /// The item at place `idx` of the order of play, or `idx` itself where the order is shorter.
    pub fn play_index_in_order(&self, idx: usize, search_query: &str, shuffle_on: bool) -> (index:
        usize)
        ensures
            index == self@.in_order(idx, search_query@, shuffle_on),
    {
        let order = self.current_order(search_query, shuffle_on);
        if idx < order.len() {
            order[idx]
        } else {
            idx
        }
    }

    /// The place of item `index` in the order of play.
    pub fn index_of_in_order(&self, index: usize, search_query: &str, shuffle_on: bool) -> (place:
        Option<usize>)
        ensures
            place == position(self@.current_order(search_query@, shuffle_on), index),
    {
        let order = self.current_order(search_query, shuffle_on);
        find_position(&order, index)
    }

    /// The item to play next.
    pub fn playable_next(&self, search_query: &str, shuffle_on: bool, loop_on: bool) -> (index:
        Option<usize>)
        ensures
            index == self@.next(search_query@, shuffle_on, loop_on),
    {
        let order = self.current_order(search_query, shuffle_on);
        if order.len() < 2 {
            return if loop_on && order.len() == 1 {
                Some(order[0])
            } else {
                None
            };
        }
        let place = match self.now_playing {
            Some(np) => find_position(&order, np),
            None => None,
        };
        let to: usize = match place {
            Some(p) => p + 1,
            None => 0,
        };
        if to < order.len() {
            Some(order[to])
        } else if loop_on {
            Some(order[0])
        } else {
            None
        }
    }

    /// The item to go back to.
    pub fn playable_prev(&self, search_query: &str, shuffle_on: bool, loop_on: bool) -> (index:
        Option<usize>)
        ensures
            index == self@.prev(search_query@, shuffle_on, loop_on),
    {
        let order = self.current_order(search_query, shuffle_on);
        if order.len() < 2 {
            return None;
        }
        let place = match self.now_playing {
            Some(np) => find_position(&order, np),
            None => None,
        };
        match place {
            Some(p) => if p > 0 {
                Some(order[p - 1])
            } else if loop_on {
                Some(order[order.len() - 1])
            } else {
                None
            },
            None => if loop_on {
                Some(order[order.len() - 2])
            } else {
                None
            },
        }
    }

    /// A fresh shuffle order for all items, left to chance.
    pub fn draw_order(&self) -> (order: Vec<usize>)
        ensures
            exists|picks: Seq<usize>|
                valid_picks(picks, self@.items.len() as int) && order@ == #[trigger] shuffled(
                    indices(self@.items.len()),
                    picks,
                ),
            self@.is_full_order(order@),
    {
        let mut order = index_vec(self.items.len());
        let picks = draw_picks(self.items.len());
        fisher_yates_with(&mut order, &picks);
        assert(order@ == shuffled(indices(self@.items.len()), picks@));
        order
    }

    /// Takes `order` as the shuffle order and jumps to the first item that the search shows in it.
    /// Gives back that item.
    pub fn jump_to_first_of(&mut self, order: Vec<usize>, search_query: &str) -> (index: Option<
        usize,
    >)
        requires
            old(self).wf(),
            old(self)@.is_full_order(order@),
        ensures
            final(self).wf(),
            final(self)@ == old(self)@.jumped_to_first(order@, search_query@),
            index == (if old(self)@.with_order(order@).current_order(search_query@, true).len()
                == 0 {
                None
            } else {
                final(self)@.now_playing
            }),
    {
        proof {
            full_order_is_permutation(self@, order@);
            assert forall|k: int| 0 <= k < order@.len() implies #[trigger] order@[k]
                < self@.items.len() by {
                assert(order@.contains(order@[k]));
            }
        }
        self.play_order = order;
        let shown = self.current_order(search_query, true);
        if shown.len() == 0 {
            return None;
        }
        self.now_playing = Some(shown[0]);
        self.now_playing
    }

    /// Shuffles afresh and jumps to the first item that the search shows in the new order. Which
    /// order comes up is left to chance.
    pub fn reshuffle_jump_to_first(&mut self, search_query: &str) -> (index: Option<usize>)
        requires
            old(self).wf(),
        ensures
            final(self).wf(),
            exists|picks: Seq<usize>|
                {
                    let order = #[trigger] shuffled(indices(old(self)@.items.len()), picks);
                    &&& valid_picks(picks, old(self)@.items.len() as int)
                    &&& final(self)@ == old(self)@.jumped_to_first(order, search_query@)
                    &&& index == (if old(self)@.with_order(order).current_order(
                        search_query@,
                        true,
                    ).len() == 0 {
                        None
                    } else {
                        final(self)@.now_playing
                    })
                },
    {
        let order = self.draw_order();
        self.jump_to_first_of(order, search_query)
    }

    /// Takes `order` as the shuffle order, with the playing item moved to its front as long as
    /// the search shows it. What is playing stays as it is.
    pub fn keep_current_first_of(&mut self, order: Vec<usize>, search_query: &str)
        requires
            old(self).wf(),
            old(self)@.is_full_order(order@),
        ensures
            final(self).wf(),
            final(self)@ == old(self)@.kept_current_first(order@, search_query@),
    {
        let ghost fresh = order@;
        proof {
            self.lemma_full_order_wf(order@);
        }
        self.play_order = order;
        if let Some(now) = self.now_playing {
            let active = self.current_order(search_query, true);
            if find_position(&active, now).is_some() {
                proof {
                    active@.index_of_first_ensures(now);
                    moved_to_front_keeps_entries(fresh, now);
                    old(self).lemma_full_order_wf(moved_to_front(fresh, now));
                    fresh.index_of_first_ensures(now);
                }
                if let Some(pos) = find_position(&self.play_order, now) {
                    if pos > 0 {
                        let entry = self.play_order.remove(pos);
                        self.play_order.insert(0, entry);
                    }
                    assert(self.play_order@ =~= moved_to_front(fresh, now));
                }
            } else {
                assert(!active@.contains(now));
            }
        }
        assert(self.play_order.len() <= usize::MAX);
    }

    proof fn lemma_full_order_wf(&self, order: Seq<usize>)
        requires
            self.wf(),
            self@.is_full_order(order),
        ensures
            order.no_duplicates(),
            forall|k: int| 0 <= k < order.len() ==> #[trigger] order[k] < self@.items.len(),
    {
        full_order_is_permutation(self@, order);
        assert forall|k: int| 0 <= k < order.len() implies #[trigger] order[k]
            < self@.items.len() by {
            assert(order.contains(order[k]));
        }
    }

    /// Shuffles afresh, but keeps the playing item first. Which order comes up is left to chance.
    pub fn reshuffle_keep_current_first(&mut self, search_query: &str)
        requires
            old(self).wf(),
        ensures
            final(self).wf(),
            exists|picks: Seq<usize>|
                {
                    let order = #[trigger] shuffled(indices(old(self)@.items.len()), picks);
                    &&& valid_picks(picks, old(self)@.items.len() as int)
                    &&& final(self)@ == old(self)@.kept_current_first(order, search_query@)
                },
    {
        let order = self.draw_order();
        self.keep_current_first_of(order, search_query);
    }
}

} // verus!
