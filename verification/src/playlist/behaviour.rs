//! What searching, stepping, adding, removing and moving do, told by the names, the places and
//! the neighbours of the items alone.

use super::item::{candidate_views, Candidate, CandidateView, ItemView};
use super::laws::{
    full_order_is_permutation, indices_are_distinct, playing_does_not_change_order,
    search_keeps_what_it_shows,
};
use super::model::{
    indices, moved_to_front, order_without, position, QueueView, RemoveOutcome,
};
use crate::path_key::path_key;
use crate::text::{contains_text, lowercase};
use vstd::prelude::*;

verus! {

/// Whether a name holds a query somewhere in it, capitals aside. The empty query is in every name.
pub open spec fn name_holds(name: Seq<char>, query: Seq<char>) -> bool {
    query.len() == 0 || exists|before: Seq<char>, behind: Seq<char>|
        lowercase(name) == #[trigger] (before + lowercase(query) + behind)
}

/// Whether `index` is an item whose name holds the query.
pub open spec fn is_found(items: Seq<ItemView>, index: usize, query: Seq<char>) -> bool {
    index < items.len() && name_holds(items[index as int].name, query)
}

/// A text contains another exactly if it is that text with something, or nothing, on either side.
pub proof fn contained_text_has_two_sides(text: Seq<char>, part: Seq<char>)
    ensures
        contains_text(text, part) <==> exists|before: Seq<char>, behind: Seq<char>|
            text == #[trigger] (before + part + behind),
{
    if contains_text(text, part) {
        let i = choose|i: int|
            0 <= i <= text.len() - part.len() && #[trigger] text.subrange(i, i + part.len())
                == part;
        let before = text.take(i);
        let behind = text.skip(i + part.len());
        assert(text =~= before + part + behind);
    }
    if exists|before: Seq<char>, behind: Seq<char>| text == #[trigger] (before + part + behind) {
        let (before, behind) = choose|before: Seq<char>, behind: Seq<char>|
            text == #[trigger] (before + part + behind);
        let i = before.len() as int;
        assert(text.subrange(i, i + part.len()) =~= part);
    }
}

proof fn lemma_shows(view: QueueView, index: usize, query: Seq<char>)
    requires
        view.wf(),
    ensures
        view.shows(index, query) <==> is_found(view.items, index, query),
{
    if index < view.items.len() {
        let item = view.items[index as int];
        assert(item.id <= view.last_id);
        contained_text_has_two_sides(lowercase(item.name), lowercase(query));
    }
}

proof fn lemma_kept_is_filter(view: QueueView, order: Seq<usize>, query: Seq<char>)
    requires
        view.wf(),
    ensures
        view.kept(order, query) == order.filter(|x: usize| is_found(view.items, x, query)),
    decreases order.len(),
{
    reveal(Seq::filter);
    if order.len() > 0 {
        lemma_kept_is_filter(view, order.drop_last(), query);
        lemma_shows(view, order.last(), query);
    } else {
        assert(order =~= Seq::empty());
    }
}

proof fn lemma_kept_of_rising(view: QueueView, order: Seq<usize>, query: Seq<char>)
    requires
        forall|a: int, b: int| 0 <= a < b < order.len() ==> order[a] < order[b],
    ensures
        forall|a: int, b: int|
            0 <= a < b < view.kept(order, query).len() ==> view.kept(order, query)[a] < view.kept(
                order,
                query,
            )[b],
    decreases order.len(),
{
    if order.len() > 0 {
        let init = order.drop_last();
        lemma_kept_of_rising(view, init, query);
        search_keeps_what_it_shows(view, init, query);
        let rest = view.kept(init, query);
        assert forall|a: int| 0 <= a < rest.len() implies #[trigger] rest[a] < order.last() by {
            assert(rest.contains(rest[a]));
            let k = init.index_of(rest[a]);
            assert(order[k] == rest[a]);
        }
    }
}

/// A search finds the items whose name, in lowercase, is the query, in lowercase, with any text
/// before it and any text behind it: all of them and no others, in queue order.
pub proof fn search_finds_what_is_in_names(view: QueueView, query: Seq<char>)
    requires
        view.wf(),
    ensures
        forall|i: usize| #[trigger]
            view.filtered(query).contains(i) <==> i < view.items.len() && (query.len() == 0
                || exists|before: Seq<char>, behind: Seq<char>|
                lowercase(view.items[i as int].name) == #[trigger] (before + lowercase(query)
                    + behind)),
        forall|a: int, b: int|
            0 <= a < b < view.filtered(query).len() ==> #[trigger] view.filtered(query)[a]
                < #[trigger] view.filtered(query)[b],
        query.len() == 0 ==> view.filtered(query).len() == view.items.len(),
{
    let all = indices(view.items.len());
    indices_are_distinct(view.items.len());
    search_keeps_what_it_shows(view, all, query);
    lemma_kept_of_rising(view, all, query);
    assert forall|i: usize| #[trigger] view.filtered(query).contains(i) <==> is_found(
        view.items,
        i,
        query,
    ) by {
        lemma_shows(view, i, query);
    }
    if query.len() == 0 {
        lemma_kept_all(view, all, query);
    }
}

proof fn lemma_kept_all(view: QueueView, order: Seq<usize>, query: Seq<char>)
    requires
        query.len() == 0,
        forall|k: int| 0 <= k < order.len() ==> #[trigger] order[k] < view.items.len(),
    ensures
        view.kept(order, query) == order,
    decreases order.len(),
{
    if order.len() > 0 {
        let init = order.drop_last();
        assert forall|k: int| 0 <= k < init.len() implies #[trigger] init[k] < view.items.len() by {
            assert(init[k] == order[k]);
        }
        lemma_kept_all(view, init, query);
        assert(order[order.len() - 1] < view.items.len());
        assert(order =~= init.push(order.last()));
    } else {
        assert(order =~= Seq::empty());
    }
}

/// With shuffle on, what plays is what the search finds of the shuffle order, in the order in
/// which it stands there. With shuffle off, and where the shuffle order has fewer than two
/// entries or none that is found, the items found play in queue order.
pub proof fn order_of_play_follows_shuffle(view: QueueView, query: Seq<char>)
    requires
        view.wf(),
    ensures
        view.current_order(query, false) == view.filtered(query),
        view.play_order.len() < 2 ==> view.current_order(query, true) == view.filtered(query),
        (forall|k: int|
            0 <= k < view.play_order.len() ==> !is_found(
                view.items,
                #[trigger] view.play_order[k],
                query,
            )) ==> view.current_order(query, true) == view.filtered(query),
        view.play_order.len() >= 2 && (exists|k: int|
            0 <= k < view.play_order.len() && is_found(
                view.items,
                #[trigger] view.play_order[k],
                query,
            )) ==> view.current_order(query, true) == view.play_order.filter(
            |x: usize| is_found(view.items, x, query),
        ),
{
    let shuffled = view.kept(view.play_order, query);
    lemma_kept_is_filter(view, view.play_order, query);
    search_keeps_what_it_shows(view, view.play_order, query);
    assert forall|k: int| 0 <= k < view.play_order.len() && is_found(
        view.items,
        #[trigger] view.play_order[k],
        query,
    ) implies shuffled.len() > 0 by {
        lemma_shows(view, view.play_order[k], query);
        assert(view.play_order.contains(view.play_order[k]));
        assert(shuffled.contains(view.play_order[k]));
    }
    if shuffled.len() > 0 {
        let x = shuffled[0];
        assert(shuffled.contains(x));
        lemma_shows(view, x, query);
        let k = view.play_order.index_of(x);
        assert(is_found(view.items, view.play_order[k], query));
    }
}

/// The place of an entry is where it first stands.
pub proof fn place_is_where_entry_stands(order: Seq<usize>, x: usize)
    requires
        order.len() <= usize::MAX,
    ensures
        match position(order, x) {
            Some(p) => p < order.len() && order[p as int] == x && forall|k: int|
                0 <= k < p ==> #[trigger] order[k] != x,
            None => forall|k: int| 0 <= k < order.len() ==> #[trigger] order[k] != x,
        },
{
    order.index_of_first_ensures(x);
    if order.index_of_first(x) is None {
        assert forall|k: int| 0 <= k < order.len() implies #[trigger] order[k] != x by {
            if order[k] == x {
                assert(order.contains(x));
            }
        }
    }
}

proof fn lemma_order_fits(view: QueueView, query: Seq<char>, shuffle_on: bool)
    requires
        view.wf(),
    ensures
        view.current_order(query, shuffle_on).no_duplicates(),
        view.current_order(query, shuffle_on).len() <= usize::MAX,
{
    indices_are_distinct(view.items.len());
    search_keeps_what_it_shows(view, view.play_order, query);
    search_keeps_what_it_shows(view, indices(view.items.len()), query);
}

/// Stepping forward goes from the place of the playing item to the next place of the order of
/// play, and stepping back to the one before, whether looping or not. Looping matters at the two
/// ends alone: past the last item it goes to the first, and before the first to the last, where
/// otherwise there is no step.
pub proof fn steps_go_to_neighbours(
    view: QueueView,
    query: Seq<char>,
    shuffle_on: bool,
    loop_on: bool,
    p: int,
)
    requires
        view.wf(),
        0 <= p < view.current_order(query, shuffle_on).len(),
        view.now_playing == Some(view.current_order(query, shuffle_on)[p]),
    ensures
        p + 1 < view.current_order(query, shuffle_on).len() ==> view.next(
            query,
            shuffle_on,
            loop_on,
        ) == Some(view.current_order(query, shuffle_on)[p + 1]),
        p + 1 == view.current_order(query, shuffle_on).len() ==> view.next(
            query,
            shuffle_on,
            loop_on,
        ) == if loop_on {
            Some(view.current_order(query, shuffle_on)[0])
        } else {
            None
        },
        p > 0 ==> view.prev(query, shuffle_on, loop_on) == Some(
            view.current_order(query, shuffle_on)[p - 1],
        ),
        p == 0 && view.current_order(query, shuffle_on).len() > 1 ==> view.prev(
            query,
            shuffle_on,
            loop_on,
        ) == if loop_on {
            Some(view.current_order(query, shuffle_on).last())
        } else {
            None
        },
        view.current_order(query, shuffle_on).len() == 1 ==> view.prev(query, shuffle_on, loop_on)
            is None,
{
    let order = view.current_order(query, shuffle_on);
    lemma_order_fits(view, query, shuffle_on);
    place_is_where_entry_stands(order, order[p]);
}

/// Where nothing of the order of play is playing, stepping forward begins at its first item.
/// Stepping back goes nowhere, or while looping to the last item but one. Without anything to
/// play there is no step.
pub proof fn steps_from_outside_the_order(
    view: QueueView,
    query: Seq<char>,
    shuffle_on: bool,
    loop_on: bool,
)
    requires
        view.wf(),
        view.now_playing matches Some(np) ==> !view.current_order(query, shuffle_on).contains(np),
    ensures
        view.current_order(query, shuffle_on).len() == 0 ==> view.next(query, shuffle_on, loop_on)
            is None && view.prev(query, shuffle_on, loop_on) is None,
        view.current_order(query, shuffle_on).len() == 1 ==> view.next(query, shuffle_on, loop_on)
            == (if loop_on {
            Some(view.current_order(query, shuffle_on)[0])
        } else {
            None
        }) && view.prev(query, shuffle_on, loop_on) is None,
        view.current_order(query, shuffle_on).len() >= 2 ==> {
            &&& view.next(query, shuffle_on, loop_on) == Some(
                view.current_order(query, shuffle_on)[0],
            )
            &&& view.prev(query, shuffle_on, loop_on) == if loop_on {
                Some(
                    view.current_order(query, shuffle_on)[view.current_order(
                        query,
                        shuffle_on,
                    ).len() - 2],
                )
            } else {
                None
            }
        },
{
    let order = view.current_order(query, shuffle_on);
    lemma_order_fits(view, query, shuffle_on);
    if let Some(np) = view.now_playing {
        place_is_where_entry_stands(order, np);
        if let Some(p) = position(order, np) {
            assert(order.contains(order[p as int]));
        }
    }
}

/// The queue after `n` steps forward without looping.
pub open spec fn stepped_forward(
    view: QueueView,
    query: Seq<char>,
    shuffle_on: bool,
    n: nat,
) -> QueueView
    decreases n,
{
    if n == 0 {
        view
    } else {
        let before = stepped_forward(view, query, shuffle_on, (n - 1) as nat);
        QueueView { now_playing: before.next(query, shuffle_on, false), ..before }
    }
}

/// Stepping forward from the first item of the order of play goes through it entry by entry, and
/// after the last there is no further step.
pub proof fn steps_go_through_the_order(
    view: QueueView,
    query: Seq<char>,
    shuffle_on: bool,
    n: nat,
)
    requires
        view.wf(),
        n < view.current_order(query, shuffle_on).len(),
        view.now_playing == Some(view.current_order(query, shuffle_on)[0]),
    ensures
        stepped_forward(view, query, shuffle_on, n).now_playing == Some(
            view.current_order(query, shuffle_on)[n as int],
        ),
        n + 1 == view.current_order(query, shuffle_on).len() ==> stepped_forward(
            view,
            query,
            shuffle_on,
            n,
        ).next(query, shuffle_on, false) is None,
    decreases n,
{
    let order = view.current_order(query, shuffle_on);
    if n > 0 {
        steps_go_through_the_order(view, query, shuffle_on, (n - 1) as nat);
        let before = stepped_forward(view, query, shuffle_on, (n - 1) as nat);
        lemma_stepping_keeps_queue(view, query, shuffle_on, (n - 1) as nat);
        playing_does_not_change_order(view, before.now_playing, query, shuffle_on);
        assert(before == QueueView { now_playing: before.now_playing, ..view });
        steps_go_to_neighbours(before, query, shuffle_on, false, n - 1);
    }
    let after = stepped_forward(view, query, shuffle_on, n);
    lemma_stepping_keeps_queue(view, query, shuffle_on, n);
    playing_does_not_change_order(view, after.now_playing, query, shuffle_on);
    assert(after == QueueView { now_playing: after.now_playing, ..view });
    steps_go_to_neighbours(after, query, shuffle_on, false, n as int);
}

proof fn lemma_stepping_keeps_queue(
    view: QueueView,
    query: Seq<char>,
    shuffle_on: bool,
    n: nat,
)
    ensures
        stepped_forward(view, query, shuffle_on, n).items == view.items,
        stepped_forward(view, query, shuffle_on, n).play_order == view.play_order,
        stepped_forward(view, query, shuffle_on, n).last_id == view.last_id,
    decreases n,
{
    if n > 0 {
        lemma_stepping_keeps_queue(view, query, shuffle_on, (n - 1) as nat);
    }
}

/// A place in the list on screen names the item that stands there in the order of play, and where
/// the list is shorter the item of that index.
pub proof fn rows_name_items_in_order(
    view: QueueView,
    idx: usize,
    query: Seq<char>,
    shuffle_on: bool,
)
    ensures
        idx < view.current_order(query, shuffle_on).len() ==> view.in_order(idx, query, shuffle_on)
            == view.current_order(query, shuffle_on)[idx as int],
        idx >= view.current_order(query, shuffle_on).len() ==> view.in_order(
            idx,
            query,
            shuffle_on,
        ) == idx,
{
}

proof fn lemma_order_without_is_filter(order: Seq<usize>, index: usize)
    ensures
        order_without(order, index) == order.filter(|x: usize| x != index).map_values(
            |x: usize|
                if x > index {
                    (x - 1) as usize
                } else {
                    x
                },
        ),
    decreases order.len(),
{
    reveal(Seq::filter);
    let renamed = |x: usize|
        if x > index {
            (x - 1) as usize
        } else {
            x
        };
    let stay = |x: usize| x != index;
    if order.len() > 0 {
        lemma_order_without_is_filter(order.drop_last(), index);
        let rest = order.drop_last().filter(stay);
        assert(rest.push(order.last()).map_values(renamed) =~= rest.map_values(renamed).push(
            renamed(order.last()),
        ));
        assert(order_without(order, index) =~= order.filter(stay).map_values(renamed));
    } else {
        assert(order_without(order, index) =~= order.filter(stay).map_values(renamed));
    }
}

/// Where the items that are left stand in the shuffle order after an item was taken out: the
/// entries before the removed one keep their places, those behind it move up by one place, and
/// none passes another.
pub proof fn removal_keeps_the_shuffle_order(view: QueueView, index: usize)
    requires
        view.wf(),
        index < view.items.len(),
    ensures
        !view.play_order.contains(index) ==> view.removed(index).play_order.len()
            == view.play_order.len() && forall|k: int|
            0 <= k < view.play_order.len() ==> (#[trigger] view.removed(index).play_order[k]) as int
                == if view.play_order[k] > index {
                view.play_order[k] - 1
            } else {
                view.play_order[k] as int
            },
        forall|gone: int|
            0 <= gone < view.play_order.len() && #[trigger] view.play_order[gone] == index ==> {
                &&& view.removed(index).play_order.len() == view.play_order.len() - 1
                &&& forall|k: int|
                    0 <= k < view.play_order.len() - 1 ==> (#[trigger] view.removed(
                        index,
                    ).play_order[k]) as int == {
                        let entry = view.play_order[if k < gone {
                            k
                        } else {
                            k + 1
                        }];
                        if entry > index {
                            entry - 1
                        } else {
                            entry as int
                        }
                    }
            },
{
    let order = view.play_order;
    lemma_order_without_is_filter(order, index);
    let stay = |x: usize| x != index;
    if !order.contains(index) {
        lemma_filter_of_all(order, index);
    }
    assert forall|gone: int| 0 <= gone < order.len() && #[trigger] order[gone]
        == index implies order.filter(stay) == order.remove(gone) by {
        lemma_filter_of_all_but_one(order, index, gone);
    }
}

proof fn lemma_filter_of_all(order: Seq<usize>, index: usize)
    requires
        !order.contains(index),
    ensures
        order.filter(|x: usize| x != index) == order,
    decreases order.len(),
{
    reveal(Seq::filter);
    if order.len() > 0 {
        let init = order.drop_last();
        assert(!init.contains(index)) by {
            if init.contains(index) {
                let k = init.index_of(index);
                assert(order[k] == index);
            }
        }
        lemma_filter_of_all(init, index);
        assert(order[order.len() - 1] != index);
        assert(order =~= init.push(order.last()));
    }
}

proof fn lemma_filter_of_all_but_one(order: Seq<usize>, index: usize, gone: int)
    requires
        order.no_duplicates(),
        0 <= gone < order.len(),
        order[gone] == index,
    ensures
        order.filter(|x: usize| x != index) == order.remove(gone),
    decreases order.len(),
{
    reveal(Seq::filter);
    let init = order.drop_last();
    if gone == order.len() - 1 {
        assert(!init.contains(index)) by {
            if init.contains(index) {
                let k = init.index_of(index);
                assert(order[k] == order[gone]);
            }
        }
        lemma_filter_of_all(init, index);
        assert(order.remove(gone) =~= init);
    } else {
        assert(init.no_duplicates());
        lemma_filter_of_all_but_one(init, index, gone);
        assert(order[order.len() - 1] != index);
        assert(order.remove(gone) =~= init.remove(gone).push(order.last()));
    }
}

/// Two items that are left stand in the shuffle order as they stood before: the one that came up
/// first still does.
pub proof fn removal_lets_no_entry_pass_another(view: QueueView, index: usize, a: int, b: int)
    requires
        view.wf(),
        index < view.items.len(),
        0 <= a < b < view.play_order.len(),
        view.play_order[a] != index,
        view.play_order[b] != index,
    ensures
        exists|c: int, d: int|
            0 <= c < d < view.removed(index).play_order.len() && view.removed(
                index,
            ).items[#[trigger] view.removed(index).play_order[c] as int]
                == view.items[view.play_order[a] as int] && view.removed(
                index,
            ).items[#[trigger] view.removed(index).play_order[d] as int]
                == view.items[view.play_order[b] as int],
{
    let after = view.removed(index);
    removal_keeps_the_shuffle_order(view, index);
    if view.play_order.contains(index) {
        let gone = view.play_order.index_of(index);
        assert(view.play_order[gone] == index);
        let c = if a < gone {
            a
        } else {
            a - 1
        };
        let d = if b < gone {
            b
        } else {
            b - 1
        };
        assert(after.items[after.play_order[c] as int] == view.items[view.play_order[a] as int]);
        assert(after.items[after.play_order[d] as int] == view.items[view.play_order[b] as int]);
    } else {
        assert(after.items[after.play_order[a] as int] == view.items[view.play_order[a] as int]);
        assert(after.items[after.play_order[b] as int] == view.items[view.play_order[b] as int]);
    }
}

/// Taking out an item leaves the others in their order. What was playing goes on playing; where
/// that was the item taken out, the one behind it takes over, or the new last one where it was
/// the last. The caller is told which of these it is.
pub proof fn removal_takes_out_one_item(view: QueueView, index: usize)
    requires
        view.wf(),
        index < view.items.len(),
        view.now_playing matches Some(np) ==> np < view.items.len(),
    ensures
        view.removed(index).items.len() == view.items.len() - 1,
        forall|k: int| 0 <= k < index ==> #[trigger] view.removed(index).items[k] == view.items[k],
        forall|k: int|
            index <= k < view.items.len() - 1 ==> #[trigger] view.removed(index).items[k]
                == view.items[k + 1],
        view.removed(index).last_id == view.last_id,
        view.items.len() == 1 ==> view.removed(index).now_playing is None && view.remove_outcome(
            index,
        ) is QueueEmpty,
        view.now_playing is None ==> view.removed(index).now_playing is None,
        view.items.len() > 1 ==> (view.now_playing matches Some(np) ==> {
            &&& view.removed(index).now_playing matches Some(after) && {
                &&& np < index ==> after == np
                &&& np > index ==> after == np - 1
                &&& np == index && index < view.items.len() - 1 ==> after == index
                &&& np == index && index == view.items.len() - 1 ==> after == index - 1
                &&& np == index ==> view.remove_outcome(index) == RemoveOutcome::NowPlayingChanged(
                    after,
                )
            }
            &&& np != index ==> view.remove_outcome(index) is NoPlaybackChange
        }),
        view.items.len() > 1 && view.now_playing is None ==> view.remove_outcome(index)
            is NoPlaybackChange,
{
}

/// Taking out a path takes out the item that has it, whichever index that is, and nothing where
/// no item has it.
pub proof fn removal_by_path_finds_the_item(view: QueueView, path: Seq<u8>)
    requires
        view.wf(),
    ensures
        forall|i: usize|
            i < view.items.len() && path_key(#[trigger] view.items[i as int].path) == path_key(path)
                ==> view.removed_path(path) == view.removed(i),
        (forall|i: int|
            0 <= i < view.items.len() ==> path_key(#[trigger] view.items[i].path) != path_key(path))
            ==> view.removed_path(path) == view,
{
    assert forall|i: usize|
        i < view.items.len() && path_key(#[trigger] view.items[i as int].path) == path_key(
            path,
        ) implies view.removed_path(path) == view.removed(i) by {
        assert(view.has_path(path));
        let j = view.path_index(path);
        assert(i == j) by {
            if i < j {
                assert(path_key(view.items[i as int].path) != path_key(view.items[j as int].path));
            } else if j < i {
                assert(path_key(view.items[j as int].path) != path_key(view.items[i as int].path));
            }
        }
    }
}

/// Clearing a queue leaves nothing in it, and ids go on from where they were.
pub proof fn clearing_leaves_nothing(view: QueueView)
    ensures
        view.cleared().items.len() == 0,
        view.cleared().play_order.len() == 0,
        view.cleared().now_playing is None,
        view.cleared().last_id == view.last_id,
        QueueView::empty().items.len() == 0,
        QueueView::empty().play_order.len() == 0,
        QueueView::empty().now_playing is None,
        QueueView::empty().last_id == 0,
{
}

/// The moved item stands where it was moved to, the others keep their order, the item that was
/// playing is still playing, and the shuffle order is queue order again.
pub proof fn moving_puts_item_where_asked(view: QueueView, src: usize, dst: usize)
    requires
        view.wf(),
        src < view.items.len(),
        dst < view.items.len(),
        view.now_playing matches Some(np) ==> np < view.items.len(),
    ensures
        view.moved(src, dst).items.len() == view.items.len(),
        view.moved(src, dst).items[dst as int] == view.items[src as int],
        view.moved(src, dst).items.remove(dst as int) == view.items.remove(src as int),
        view.moved(src, dst).play_order.len() == view.items.len(),
        forall|k: int|
            0 <= k < view.items.len() ==> #[trigger] view.moved(src, dst).play_order[k] == k,
        view.now_playing is None ==> view.moved(src, dst).now_playing is None,
        view.now_playing matches Some(np) ==> view.moved(src, dst).now_playing matches Some(after)
            && after < view.items.len() && view.moved(src, dst).items[after as int]
            == view.items[np as int],
        view.moved(src, dst).last_id == view.last_id,
{
    assert(view.moved(src, dst).items.remove(dst as int) =~= view.items.remove(src as int));
}

/// A file whose path is in the queue is not added. Any other goes to the end, under its own name,
/// path and size and under the next id, and nothing else changes.
pub proof fn adding_appends_new_paths(view: QueueView, c: CandidateView)
    requires
        view.last_id < u64::MAX,
    ensures
        (exists|i: int|
            0 <= i < view.items.len() && path_key(#[trigger] view.items[i].path) == path_key(
                c.path,
            )) ==> view.offered(c) == view,
        (forall|i: int|
            0 <= i < view.items.len() ==> path_key(#[trigger] view.items[i].path) != path_key(
                c.path,
            )) ==> {
            &&& view.offered(c).items.len() == view.items.len() + 1
            &&& view.offered(c).items.drop_last() == view.items
            &&& view.offered(c).items.last().name == c.name
            &&& view.offered(c).items.last().name_lower == lowercase(c.name)
            &&& view.offered(c).items.last().path == c.path
            &&& view.offered(c).items.last().size_bytes == c.size_bytes
            &&& view.offered(c).items.last().id == view.last_id + 1
            &&& view.offered(c).last_id == view.last_id + 1
            &&& view.offered(c).play_order == view.play_order
            &&& view.offered(c).now_playing == view.now_playing
        },
{
    assert(view.items.push(view.offered(c).items.last()).drop_last() =~= view.items);
}

/// Files are added one after the other: adding one row of files and then another is adding both
/// rows together, and adding none changes nothing.
pub proof fn files_are_added_in_turn(
    view: QueueView,
    first: Seq<CandidateView>,
    second: Seq<CandidateView>,
    c: CandidateView,
)
    ensures
        view.enqueued(Seq::empty()) == view,
        view.enqueued(seq![c]) == view.offered(c),
        view.enqueued(first + second) == view.enqueued(first).enqueued(second),
    decreases second.len(),
{
    reveal_with_fuel(QueueView::enqueued, 2);
    assert(seq![c].drop_last() =~= Seq::empty());
    if second.len() == 0 {
        assert(first + second =~= first);
    } else {
        files_are_added_in_turn(view, first, second.drop_last(), c);
        assert((first + second).drop_last() =~= first + second.drop_last());
    }
}

/// An order with an entry moved to the front begins with it, and the other entries follow in
/// their order.
pub proof fn moving_to_front_keeps_the_rest_in_order(order: Seq<usize>, x: usize)
    ensures
        !order.contains(x) ==> moved_to_front(order, x) == order,
        order.contains(x) ==> {
            &&& moved_to_front(order, x).len() == order.len()
            &&& moved_to_front(order, x)[0] == x
            &&& exists|i: int|
                0 <= i < order.len() && #[trigger] order[i] == x && (forall|k: int|
                    0 <= k < i ==> #[trigger] order[k] != x) && moved_to_front(order, x).skip(1)
                    == order.remove(i)
        },
{
    order.index_of_first_ensures(x);
    if let Some(i) = order.index_of_first(x) {
        assert(order[i] == x);
        assert(moved_to_front(order, x).skip(1) =~= order.remove(i));
    }
}

/// A shuffle that jumps to the first item takes on the new order and plays the first of its
/// entries that the search finds.
pub proof fn jump_goes_to_first_found(
    view: QueueView,
    order: Seq<usize>,
    query: Seq<char>,
    first: int,
)
    requires
        view.wf(),
        view.is_full_order(order),
        0 <= first < order.len(),
        is_found(view.items, order[first], query),
        forall|k: int| 0 <= k < first ==> !is_found(view.items, #[trigger] order[k], query),
    ensures
        view.jumped_to_first(order, query).now_playing == Some(order[first]),
        view.jumped_to_first(order, query).play_order == order,
        view.jumped_to_first(order, query).items == view.items,
        view.jumped_to_first(order, query).last_id == view.last_id,
{
    let ordered = view.with_order(order);
    full_order_is_permutation(view, order);
    assert(ordered.wf()) by {
        assert forall|k: int| 0 <= k < order.len() implies #[trigger] order[k]
            < view.items.len() by {
            assert(order.contains(order[k]));
        }
    }
    lemma_first_kept(ordered, order, query, first);
    if order.len() < 2 {
        assert(order.len() == 1);
        search_finds_what_is_in_names(ordered, query);
        assert(order.contains(order[0]));
        assert(order[0] == 0);
        assert(ordered.filtered(query).contains(0usize));
        let shown = ordered.filtered(query);
        assert(shown.contains(shown[0]));
    }
}

proof fn lemma_first_kept(view: QueueView, order: Seq<usize>, query: Seq<char>, first: int)
    requires
        view.wf(),
        0 <= first < order.len(),
        is_found(view.items, order[first], query),
        forall|k: int| 0 <= k < first ==> !is_found(view.items, #[trigger] order[k], query),
    ensures
        view.kept(order, query).len() > 0,
        view.kept(order, query)[0] == order[first],
    decreases order.len(),
{
    let init = order.drop_last();
    lemma_shows(view, order.last(), query);
    if first < order.len() - 1 {
        lemma_first_kept(view, init, query, first);
    } else {
        lemma_none_kept(view, init, query);
    }
}

proof fn lemma_none_kept(view: QueueView, order: Seq<usize>, query: Seq<char>)
    requires
        view.wf(),
        forall|k: int| 0 <= k < order.len() ==> !is_found(view.items, #[trigger] order[k], query),
    ensures
        view.kept(order, query).len() == 0,
    decreases order.len(),
{
    if order.len() > 0 {
        let init = order.drop_last();
        assert forall|k: int| 0 <= k < init.len() implies !is_found(
            view.items,
            #[trigger] init[k],
            query,
        ) by {
            assert(init[k] == order[k]);
        }
        lemma_none_kept(view, init, query);
        assert(!is_found(view.items, order[order.len() - 1], query));
        lemma_shows(view, order.last(), query);
    }
}

/// A shuffle that jumps takes on the new order and, where the search finds nothing, goes on
/// playing what it played.
pub proof fn jump_without_finds_keeps_playing(
    view: QueueView,
    order: Seq<usize>,
    query: Seq<char>,
)
    requires
        view.wf(),
        view.is_full_order(order),
        forall|i: usize| i < view.items.len() ==> !#[trigger] is_found(view.items, i, query),
    ensures
        view.jumped_to_first(order, query).now_playing == view.now_playing,
        view.jumped_to_first(order, query).play_order == order,
        view.jumped_to_first(order, query).items == view.items,
{
    let ordered = view.with_order(order);
    full_order_is_permutation(view, order);
    assert(ordered.wf()) by {
        assert forall|k: int| 0 <= k < order.len() implies #[trigger] order[k]
            < view.items.len() by {
            assert(order.contains(order[k]));
        }
    }
    lemma_none_kept(ordered, order, query);
    lemma_none_kept(ordered, indices(view.items.len()), query);
}

/// A shuffle that keeps the playing item plays on. The playing item comes first in the shuffle
/// order as long as the search finds it, and the other entries follow as they were drawn;
/// otherwise the order is the one that was drawn.
pub proof fn keeping_current_puts_it_first(view: QueueView, order: Seq<usize>, query: Seq<char>)
    requires
        view.wf(),
        view.is_full_order(order),
    ensures
        view.kept_current_first(order, query).items == view.items,
        view.kept_current_first(order, query).now_playing == view.now_playing,
        view.kept_current_first(order, query).last_id == view.last_id,
        forall|i: int|
            0 <= i < order.len() && view.now_playing == Some(#[trigger] order[i]) && is_found(
                view.items,
                order[i],
                query,
            ) ==> view.kept_current_first(order, query).play_order == seq![order[i]]
                + order.remove(i),
        (view.now_playing matches Some(np) ==> !is_found(view.items, np, query))
            ==> view.kept_current_first(order, query).play_order == order,
{
    let ordered = view.with_order(order);
    full_order_is_permutation(view, order);
    assert(ordered.wf()) by {
        assert forall|k: int| 0 <= k < order.len() implies #[trigger] order[k]
            < view.items.len() by {
            assert(order.contains(order[k]));
        }
    }
    search_finds_what_is_in_names(ordered, query);
    search_keeps_what_it_shows(ordered, order, query);
    if let Some(np) = view.now_playing {
        lemma_shows(ordered, np, query);
        order.index_of_first_ensures(np);
        if is_found(view.items, np, query) {
            assert(ordered.kept(order, query).contains(np));
            assert(ordered.filtered(query).contains(np));
        }
    }
}

/// A new shuffle order changes the shuffle order alone.
pub proof fn new_order_changes_nothing_else(view: QueueView, order: Seq<usize>)
    ensures
        view.with_order(order).play_order == order,
        view.with_order(order).items == view.items,
        view.with_order(order).now_playing == view.now_playing,
        view.with_order(order).last_id == view.last_id,
        forall|k: int|
            0 <= k < view.items.len() <= usize::MAX ==> #[trigger] indices(view.items.len())[k]
                == k,
        indices(view.items.len()).len() == view.items.len(),
{
}

/// What several files that are offered hold is what each of them holds, in their order.
pub proof fn offered_files_stand_in_order(cs: Seq<Candidate>, k: int)
    requires
        0 <= k < cs.len(),
    ensures
        candidate_views(cs).len() == cs.len(),
        candidate_views(cs)[k].name == cs[k].0@,
        candidate_views(cs)[k].path == cs[k].1.bytes@,
        candidate_views(cs)[k].size_bytes == cs[k].2,
{
}

} // verus!
