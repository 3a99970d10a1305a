//! What holds of queues as a whole.

use super::item::CandidateView;
use super::model::{indices, moved_to_front, order_without, QueueView};
use crate::path_key::path_key;
use vstd::prelude::*;

verus! {

/// The first `n` numbers hold each of them once.
pub proof fn indices_are_distinct(n: nat)
    requires
        n <= usize::MAX,
    ensures
        indices(n).no_duplicates(),
        forall|x: usize| indices(n).contains(x) <==> x < n,
{
    assert forall|x: usize| x < n implies indices(n).contains(x) by {
        assert(indices(n)[x as int] == x);
    }
}

/// An order of all the items names each of them once.
pub proof fn full_order_is_permutation(view: QueueView, order: Seq<usize>)
    requires
        view.is_full_order(order),
        view.items.len() <= usize::MAX,
    ensures
        order.len() == view.items.len(),
        order.no_duplicates(),
        forall|x: usize| order.contains(x) <==> x < view.items.len(),
{
    broadcast use vstd::seq_lib::group_to_multiset_ensures;

    let all = indices(view.items.len());
    indices_are_distinct(view.items.len());
    all.lemma_multiset_has_no_duplicates();
    assert(order.to_multiset().len() == order.len());
    assert(all.to_multiset().len() == all.len());
    order.lemma_multiset_has_no_duplicates_conv();
    assert forall|x: usize| order.contains(x) <==> x < view.items.len() by {
        assert(order.contains(x) <==> order.to_multiset().count(x) > 0);
        assert(all.contains(x) <==> all.to_multiset().count(x) > 0);
    }
}

/// Taking an item out of the order leaves an order of the items that stay.
pub proof fn order_without_stays_valid(order: Seq<usize>, index: usize, len: nat)
    requires
        order.no_duplicates(),
        forall|k: int| 0 <= k < order.len() ==> #[trigger] order[k] < len,
        index < len,
    ensures
        order_without(order, index).no_duplicates(),
        forall|k: int|
            0 <= k < order_without(order, index).len() ==> #[trigger] order_without(
                order,
                index,
            )[k] < len - 1,
        forall|y: usize| #[trigger]
            order_without(order, index).contains(y) <==> {
                ||| y < index && order.contains(y)
                ||| y >= index && y < usize::MAX && order.contains((y + 1) as usize)
            },
    decreases order.len(),
{
    let out = order_without(order, index);
    if order.len() > 0 {
        let init = order.drop_last();
        let x = order.last();
        assert forall|k: int| 0 <= k < init.len() implies #[trigger] init[k] < len by {
            assert(init[k] == order[k]);
        }
        assert(init.no_duplicates());
        order_without_stays_valid(init, index, len);
        let rest = order_without(init, index);
        assert forall|y: usize| order.contains(y) <==> (init.contains(y) || y == x) by {
            if order.contains(y) && y != x {
                let k = order.index_of(y);
                assert(init[k] == y);
            }
            if init.contains(y) {
                let k = init.index_of(y);
                assert(order[k] == y);
            }
            if y == x {
                assert(order[order.len() - 1] == y);
            }
        }
        assert(!init.contains(x)) by {
            if init.contains(x) {
                let k = init.index_of(x);
                assert(order[k] == order[order.len() - 1]);
            }
        }
        if x == index {
            assert forall|y: usize| #[trigger] out.contains(y) <==> {
                ||| y < index && order.contains(y)
                ||| y >= index && y < usize::MAX && order.contains((y + 1) as usize)
            } by {
                assert(out.contains(y) == rest.contains(y));
            }
        } else {
            let z: usize = if x > index {
                (x - 1) as usize
            } else {
                x
            };
            assert(out == rest.push(z));
            assert(!rest.contains(z));
            assert forall|y: usize| #[trigger] out.contains(y) <==> {
                ||| y < index && order.contains(y)
                ||| y >= index && y < usize::MAX && order.contains((y + 1) as usize)
            } by {
                if out.contains(y) && y != z {
                    let k = out.index_of(y);
                    assert(rest[k] == y);
                }
                if rest.contains(y) {
                    let k = rest.index_of(y);
                    assert(out[k] == y);
                }
                if y == z {
                    assert(out[out.len() - 1] == y);
                }
                assert(out.contains(y) <==> rest.contains(y) || y == z);
            }
            assert forall|k: int, l: int|
                0 <= k < out.len() && 0 <= l < out.len() && k != l implies out[k] != out[l] by {
                if k == out.len() - 1 {
                    assert(rest.contains(rest[l]));
                } else if l == out.len() - 1 {
                    assert(rest.contains(rest[k]));
                }
            }
        }
    }
}

/// Moving an entry to the front keeps the entries.
pub proof fn moved_to_front_keeps_entries(order: Seq<usize>, x: usize)
    ensures
        moved_to_front(order, x).to_multiset() == order.to_multiset(),
        order.contains(x) ==> moved_to_front(order, x).len() > 0 && moved_to_front(order, x)[0]
            == x,
{
    broadcast use vstd::seq_lib::group_to_multiset_ensures;

    order.index_of_first_ensures(x);
    match order.index_of_first(x) {
        Some(i) => {
            vstd::seq_lib::to_multiset_remove(order, i);
            assert(seq![x] + order.remove(i) =~= order.remove(i).insert(0, x));
            vstd::seq_lib::to_multiset_insert(order.remove(i), 0, x);
            assert(order.to_multiset().count(x) > 0);
            assert(moved_to_front(order, x).to_multiset() =~= order.to_multiset());
        },
        None => {},
    }
}

/// A search keeps exactly the entries that it shows, and adds none twice.
pub proof fn search_keeps_what_it_shows(view: QueueView, order: Seq<usize>, query: Seq<char>)
    ensures
        forall|x: usize| #[trigger]
            view.kept(order, query).contains(x) <==> order.contains(x) && view.shows(x, query),
        order.no_duplicates() ==> view.kept(order, query).no_duplicates(),
        view.kept(order, query).len() <= order.len(),
    decreases order.len(),
{
    let kept = view.kept(order, query);
    if order.len() > 0 {
        let init = order.drop_last();
        let x = order.last();
        let rest = view.kept(init, query);
        search_keeps_what_it_shows(view, init, query);
        assert forall|y: usize| order.contains(y) <==> (init.contains(y) || y == x) by {
            if order.contains(y) && y != x {
                let k = order.index_of(y);
                assert(init[k] == y);
            }
            if init.contains(y) {
                let k = init.index_of(y);
                assert(order[k] == y);
            }
            if y == x {
                assert(order[order.len() - 1] == y);
            }
        }
        if view.shows(x, query) {
            assert forall|y: usize| #[trigger] kept.contains(y) <==> order.contains(y)
                && view.shows(y, query) by {
                if kept.contains(y) && y != x {
                    let k = kept.index_of(y);
                    assert(rest[k] == y);
                }
                if rest.contains(y) {
                    let k = rest.index_of(y);
                    assert(kept[k] == y);
                }
                if y == x {
                    assert(kept[kept.len() - 1] == y);
                }
                assert(kept.contains(y) <==> rest.contains(y) || y == x);
            }
            if order.no_duplicates() {
                assert(!init.contains(x)) by {
                    if init.contains(x) {
                        let k = init.index_of(x);
                        assert(order[k] == order[order.len() - 1]);
                    }
                }
                assert(!rest.contains(x));
                assert forall|k: int, l: int|
                    0 <= k < kept.len() && 0 <= l < kept.len() && k != l implies kept[k]
                    != kept[l] by {
                    if k == kept.len() - 1 {
                        assert(rest.contains(rest[l]));
                    } else if l == kept.len() - 1 {
                        assert(rest.contains(rest[k]));
                    }
                }
            }
        } else {
            assert forall|y: usize| #[trigger] kept.contains(y) <==> order.contains(y)
                && view.shows(y, query) by {
                assert(kept.contains(y) == rest.contains(y));
            }
        }
    }
}

proof fn lemma_kept_of_prefixed(view: QueueView, x: usize, order: Seq<usize>, query: Seq<char>)
    requires
        view.shows(x, query),
    ensures
        view.kept(seq![x] + order, query) == seq![x] + view.kept(order, query),
    decreases order.len(),
{
    let all = seq![x] + order;
    if order.len() == 0 {
        assert(all =~= seq![x]);
        reveal_with_fuel(QueueView::kept, 2);
        assert(seq![x].drop_last() =~= Seq::empty());
        assert(view.kept(all, query) =~= seq![x] + view.kept(order, query));
    } else {
        lemma_kept_of_prefixed(view, x, order.drop_last(), query);
        assert(all.drop_last() =~= seq![x] + order.drop_last());
        assert(view.kept(all, query) =~= seq![x] + view.kept(order, query));
    }
}

proof fn lemma_kept_of_filtered_is_shown(view: QueueView, query: Seq<char>)
    requires
        view.wf(),
    ensures
        forall|x: usize| #[trigger] view.filtered(query).contains(x) <==> view.shows(x, query),
        view.filtered(query).no_duplicates(),
{
    indices_are_distinct(view.items.len());
    search_keeps_what_it_shows(view, indices(view.items.len()), query);
}

/// The order of play names items that the search shows, each at most once. In queue order it
/// names all of them.
pub proof fn order_names_shown_items(view: QueueView, query: Seq<char>, shuffle_on: bool)
    requires
        view.wf(),
    ensures
        view.current_order(query, shuffle_on).no_duplicates(),
        forall|x: usize| #[trigger]
            view.current_order(query, shuffle_on).contains(x) ==> view.shows(x, query),
        forall|x: usize| #[trigger]
            view.current_order(query, false).contains(x) <==> view.shows(x, query),
{
    lemma_kept_of_filtered_is_shown(view, query);
    search_keeps_what_it_shows(view, view.play_order, query);
}

/// While the shuffle order names every item, shuffling changes the order of play and nothing
/// else: the same items come up.
pub proof fn shuffle_plays_the_same_items(view: QueueView, query: Seq<char>)
    requires
        view.wf(),
        view.is_full_order(view.play_order),
    ensures
        forall|x: usize| #[trigger]
            view.current_order(query, true).contains(x) <==> view.shows(x, query),
        view.current_order(query, true).len() == view.filtered(query).len(),
{
    lemma_kept_of_filtered_is_shown(view, query);
    full_order_is_permutation(view, view.play_order);
    search_keeps_what_it_shows(view, view.play_order, query);
    let a = view.current_order(query, true);
    let b = view.filtered(query);
    assert forall|x: usize| #[trigger] a.contains(x) <==> view.shows(x, query) by {
        assert(view.kept(view.play_order, query).contains(x) <==> view.shows(x, query));
        assert(b.contains(x) <==> view.shows(x, query));
    }
    order_names_shown_items(view, query, true);
    a.unique_seq_to_set();
    b.unique_seq_to_set();
    assert(a.to_set() =~= b.to_set()) by {
        assert forall|x: usize| a.to_set().contains(x) <==> b.to_set().contains(x) by {
            assert(a.contains(x) <==> b.contains(x));
        }
    }
}

/// With the shuffle order set back to queue order, shuffle on or off makes no difference.
pub proof fn reset_order_is_queue_order(view: QueueView, query: Seq<char>)
    ensures
        view.with_order(indices(view.items.len())).current_order(query, true) == view.filtered(
            query,
        ),
        view.with_order(indices(view.items.len())).current_order(query, false) == view.filtered(
            query,
        ),
{
    let reset = view.with_order(indices(view.items.len()));
    lemma_kept_depends_on_items(view, reset, indices(view.items.len()), query);
}

proof fn lemma_kept_depends_on_items(
    a: QueueView,
    b: QueueView,
    order: Seq<usize>,
    query: Seq<char>,
)
    requires
        a.items == b.items,
    ensures
        a.kept(order, query) == b.kept(order, query),
    decreases order.len(),
{
    if order.len() > 0 {
        lemma_kept_depends_on_items(a, b, order.drop_last(), query);
    }
}

/// What plays does not change the order of play.
pub proof fn playing_does_not_change_order(
    view: QueueView,
    playing: Option<usize>,
    query: Seq<char>,
    shuffle_on: bool,
)
    ensures
        (QueueView { now_playing: playing, ..view }).current_order(query, shuffle_on)
            == view.current_order(query, shuffle_on),
{
    let other = QueueView { now_playing: playing, ..view };
    lemma_kept_depends_on_items(other, view, view.play_order, query);
    lemma_kept_depends_on_items(other, view, indices(view.items.len()), query);
}

/// Going forward or back leads to an item that the search shows.
pub proof fn steps_lead_to_shown_items(
    view: QueueView,
    query: Seq<char>,
    shuffle_on: bool,
    loop_on: bool,
)
    requires
        view.wf(),
    ensures
        view.next(query, shuffle_on, loop_on) matches Some(x) ==> view.shows(x, query),
        view.prev(query, shuffle_on, loop_on) matches Some(x) ==> view.shows(x, query),
{
    let order = view.current_order(query, shuffle_on);
    order_names_shown_items(view, query, shuffle_on);
    assert forall|k: int| 0 <= k < order.len() implies view.shows(#[trigger] order[k], query) by {
        assert(order.contains(order[k]));
    }
    lemma_place(view, query, shuffle_on);
}

proof fn lemma_place(view: QueueView, query: Seq<char>, shuffle_on: bool)
    requires
        view.wf(),
    ensures
        view.place(query, shuffle_on) matches Some(p) ==> {
            &&& p < view.current_order(query, shuffle_on).len()
            &&& Some(view.current_order(query, shuffle_on)[p as int]) == view.now_playing
        },
{
    let order = view.current_order(query, shuffle_on);
    search_keeps_what_it_shows(view, view.play_order, query);
    search_keeps_what_it_shows(view, indices(view.items.len()), query);
    if let Some(np) = view.now_playing {
        order.index_of_first_ensures(np);
    }
}

/// While looping, stepping forward and then back, or back and then forward, returns to the item
/// that was playing.
pub proof fn looping_steps_undo_each_other(view: QueueView, query: Seq<char>, shuffle_on: bool)
    requires
        view.wf(),
        view.place(query, shuffle_on) is Some,
        view.current_order(query, shuffle_on).len() >= 2,
    ensures
        (QueueView { now_playing: view.next(query, shuffle_on, true), ..view }).prev(
            query,
            shuffle_on,
            true,
        ) == view.now_playing,
        (QueueView { now_playing: view.prev(query, shuffle_on, true), ..view }).next(
            query,
            shuffle_on,
            true,
        ) == view.now_playing,
{
    let order = view.current_order(query, shuffle_on);
    order_names_shown_items(view, query, shuffle_on);
    lemma_place(view, query, shuffle_on);
    let on = QueueView { now_playing: view.next(query, shuffle_on, true), ..view };
    let back = QueueView { now_playing: view.prev(query, shuffle_on, true), ..view };
    playing_does_not_change_order(view, on.now_playing, query, shuffle_on);
    playing_does_not_change_order(view, back.now_playing, query, shuffle_on);
    order.index_of_first_ensures(on.now_playing.unwrap());
    order.index_of_first_ensures(back.now_playing.unwrap());
    lemma_place(on, query, shuffle_on);
    lemma_place(back, query, shuffle_on);
}

/// Offering files leaves the items that are there, their order of play and what is playing as
/// they were, and afterwards the path of every offered file is in the queue.
pub proof fn enqueue_extends_queue(view: QueueView, cs: Seq<CandidateView>)
    ensures
        view.enqueued(cs).items.len() >= view.items.len(),
        view.enqueued(cs).items.take(view.items.len() as int) == view.items,
        view.enqueued(cs).play_order == view.play_order,
        view.enqueued(cs).now_playing == view.now_playing,
        forall|k: int| 0 <= k < cs.len() ==> view.enqueued(cs).has_path(#[trigger] cs[k].path),
    decreases cs.len(),
{
    let all = view.enqueued(cs);
    if cs.len() == 0 {
        assert(all.items.take(view.items.len() as int) =~= view.items);
    } else {
        let some = view.enqueued(cs.drop_last());
        enqueue_extends_queue(view, cs.drop_last());
        assert(all == some.offered(cs.last()));
        assert(all.items.take(view.items.len() as int) =~= some.items.take(
            view.items.len() as int,
        ));
        assert forall|i: int| 0 <= i < some.items.len() implies all.items[i] == some.items[i] by {}
        assert forall|k: int| 0 <= k < cs.len() implies all.has_path(#[trigger] cs[k].path) by {
            if k < cs.len() - 1 {
                assert(cs.drop_last()[k] == cs[k]);
                assert(some.has_path(cs[k].path));
                let i = choose|i: int|
                    0 <= i < some.items.len() && path_key(#[trigger] some.items[i].path)
                        == path_key(cs[k].path);
                assert(path_key(all.items[i].path) == path_key(cs[k].path));
            } else if !some.has_path(cs[k].path) {
                assert(path_key(all.items[all.items.len() - 1].path) == path_key(cs[k].path));
            }
        }
    }
}

/// Offering files whose paths are all in the queue changes nothing.
pub proof fn enqueue_of_known_paths_changes_nothing(view: QueueView, cs: Seq<CandidateView>)
    requires
        forall|k: int| 0 <= k < cs.len() ==> view.has_path(#[trigger] cs[k].path),
    ensures
        view.enqueued(cs) == view,
    decreases cs.len(),
{
    if cs.len() > 0 {
        assert forall|k: int| 0 <= k < cs.drop_last().len() implies view.has_path(
            #[trigger] cs.drop_last()[k].path,
        ) by {
            assert(cs[k] == cs.drop_last()[k]);
        }
        enqueue_of_known_paths_changes_nothing(view, cs.drop_last());
        assert(view.has_path(cs[cs.len() - 1].path));
    }
}

/// Offering the same files a second time changes nothing.
pub proof fn enqueue_twice_is_enqueue_once(view: QueueView, cs: Seq<CandidateView>)
    ensures
        view.enqueued(cs).enqueued(cs) == view.enqueued(cs),
{
    enqueue_extends_queue(view, cs);
    enqueue_of_known_paths_changes_nothing(view.enqueued(cs), cs);
}

/// Moving an item does not change which item is playing.
pub proof fn move_keeps_playing_item(view: QueueView, src: usize, dst: usize)
    requires
        view.wf(),
        src < view.items.len(),
        dst < view.items.len(),
        view.now_playing matches Some(np) && np < view.items.len(),
    ensures
        view.moved(src, dst).now_playing matches Some(np) && np < view.items.len()
            && view.moved(src, dst).items[np as int]
            == view.items[view.now_playing.unwrap() as int],
{
}

/// Moving an item and then moving it back restores the items and what is playing.
pub proof fn move_back_undoes_move(view: QueueView, src: usize, dst: usize)
    requires
        view.wf(),
        src < view.items.len(),
        dst < view.items.len(),
        view.now_playing matches Some(np) ==> np < view.items.len(),
    ensures
        view.moved(src, dst).moved(dst, src).items == view.items,
        view.moved(src, dst).moved(dst, src).now_playing == view.now_playing,
{
    assert(view.moved(src, dst).moved(dst, src).items =~= view.items);
}

/// Taking out an item that is not playing does not change which item is playing.
pub proof fn remove_keeps_playing_item(view: QueueView, index: usize)
    requires
        view.wf(),
        index < view.items.len(),
        view.now_playing matches Some(np) && np < view.items.len() && np != index,
    ensures
        view.removed(index).now_playing matches Some(np) && np < view.removed(index).items.len()
            && view.removed(index).items[np as int]
            == view.items[view.now_playing.unwrap() as int],
{
}

/// After an item was taken out, its path is no longer in the queue, and offering it again adds
/// it at the end.
pub proof fn removed_path_can_return(view: QueueView, index: usize, c: CandidateView)
    requires
        view.wf(),
        index < view.items.len(),
        path_key(c.path) == path_key(view.items[index as int].path),
    ensures
        !view.removed(index).has_path(c.path),
        view.removed(index).offered(c).items.len() == view.items.len(),
        view.removed(index).offered(c).items.last().path == c.path,
{
    let left = view.removed(index);
    assert forall|i: int| 0 <= i < left.items.len() implies path_key(#[trigger] left.items[i].path)
        != path_key(c.path) by {
        if i < index {
            assert(left.items[i] == view.items[i]);
        } else {
            assert(left.items[i] == view.items[i + 1]);
        }
    }
}

/// A shuffle that keeps the playing item first does so: as long as the search shows it, it is the
/// first item of the new order of play. It goes on playing.
pub proof fn kept_current_item_comes_first(view: QueueView, order: Seq<usize>, query: Seq<char>)
    requires
        view.wf(),
        view.is_full_order(order),
        view.now_playing matches Some(np) && view.shows(np, query),
    ensures
        view.kept_current_first(order, query).now_playing == view.now_playing,
        view.kept_current_first(order, query).current_order(query, true).len() > 0,
        view.kept_current_first(order, query).current_order(query, true)[0]
            == view.now_playing.unwrap(),
{
    let now = view.now_playing.unwrap();
    let ordered = view.with_order(order);
    let out = view.kept_current_first(order, query);
    full_order_is_permutation(view, order);
    shuffle_plays_the_same_items_of(view, order, query);
    moved_to_front_keeps_entries(order, now);
    order.index_of_first_ensures(now);
    let i = order.index_of_first(now).unwrap();
    let rest = order.remove(i);
    lemma_kept_of_prefixed(out, now, rest, query);
    if view.items.len() == 1 {
        let all = indices(1);
        assert(now == 0);
        assert(all =~= seq![0usize]);
        reveal_with_fuel(QueueView::kept, 2);
        assert(all.drop_last() =~= Seq::empty());
        assert(out.filtered(query) =~= seq![0usize]);
    }
}

proof fn shuffle_plays_the_same_items_of(view: QueueView, order: Seq<usize>, query: Seq<char>)
    requires
        view.wf(),
        view.is_full_order(order),
    ensures
        forall|x: usize| #[trigger]
            view.with_order(order).current_order(query, true).contains(x) <==> view.shows(x, query),
{
    let ordered = view.with_order(order);
    full_order_is_permutation(view, order);
    assert forall|k: int| 0 <= k < order.len() implies #[trigger] order[k] < view.items.len() by {
        assert(order.contains(order[k]));
    }
    shuffle_plays_the_same_items(ordered, query);
    assert forall|x: usize| #[trigger] ordered.current_order(query, true).contains(x)
        <==> view.shows(x, query) by {
        assert(ordered.shows(x, query) == view.shows(x, query));
    }
}

/// A shuffle that jumps to the first item lands on an item that the search shows, whenever it
/// shows any.
pub proof fn jump_lands_on_shown_item(view: QueueView, order: Seq<usize>, query: Seq<char>)
    requires
        view.wf(),
        view.is_full_order(order),
        exists|x: usize| view.shows(x, query),
    ensures
        view.with_order(order).current_order(query, true).len() > 0,
        view.jumped_to_first(order, query).now_playing matches Some(np) && view.shows(np, query),
{
    let shown = view.with_order(order).current_order(query, true);
    shuffle_plays_the_same_items_of(view, order, query);
    let x = choose|x: usize| view.shows(x, query);
    assert(shown.contains(x));
    assert(shown.contains(shown[0]));
}

} // verus!
