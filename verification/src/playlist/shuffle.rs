//! Shuffling an order in place.

use rand::RngExt;
use vstd::prelude::*;

verus! {

/// Draws a number by calling `random_range` on rand's thread-local generator. Which number comes
/// is left to chance; it lies between zero and `max`, both included.
#[verifier::external_body]
pub(crate) fn random_upto(max: usize) -> (drawn: usize)
    ensures
        drawn <= max,
{
    rand::rng().random_range(0..=max)
}

/// An order with the entries at `i` and `j` exchanged.
pub open spec fn swapped(order: Seq<usize>, i: int, j: int) -> Seq<usize> {
    order.update(i, order[j]).update(j, order[i])
}

/// Whether `picks` holds one draw for each place from the last down to the second, each draw
/// being a place no later than the one it is for.
pub open spec fn valid_picks(picks: Seq<usize>, len: int) -> bool {
    &&& picks.len() == if len > 1 {
        len - 1
    } else {
        0
    }
    &&& forall|k: int| 0 <= k < picks.len() ==> #[trigger] picks[k] <= len - 1 - k
}

/// What is left of a shuffle when places above `i` are settled: place `i` is exchanged with the
/// place drawn for it, then the places below follow.
pub open spec fn shuffled_from(order: Seq<usize>, picks: Seq<usize>, i: int) -> Seq<usize>
    decreases i,
{
    if i <= 0 {
        order
    } else {
        shuffled_from(swapped(order, i, picks[order.len() - 1 - i] as int), picks, i - 1)
    }
}

/// An order after a Fisher-Yates shuffle with the given draws.
pub open spec fn shuffled(order: Seq<usize>, picks: Seq<usize>) -> Seq<usize> {
    shuffled_from(order, picks, order.len() - 1)
}

proof fn lemma_swapped_keeps_entries(order: Seq<usize>, i: int, j: int)
    requires
        0 <= i < order.len(),
        0 <= j < order.len(),
    ensures
        swapped(order, i, j).len() == order.len(),
        swapped(order, i, j).to_multiset() == order.to_multiset(),
{
    broadcast use vstd::seq_lib::group_to_multiset_ensures;

    let once = order.update(i, order[j]);
    assert(once.to_multiset() =~= order.to_multiset().remove(order[i]).insert(order[j])) by {
        vstd::seq_lib::to_multiset_update(order, i, order[j]);
    }
    assert(once.update(j, order[i]).to_multiset() =~= once.to_multiset().remove(once[j]).insert(
        order[i],
    )) by {
        vstd::seq_lib::to_multiset_update(once, j, order[i]);
    }
    assert(order.to_multiset().count(order[i]) > 0);
    assert(swapped(order, i, j).to_multiset() =~= order.to_multiset());
}

proof fn lemma_shuffled_from_keeps_entries(order: Seq<usize>, picks: Seq<usize>, i: int)
    requires
        i < order.len(),
        valid_picks(picks, order.len() as int),
    ensures
        shuffled_from(order, picks, i).len() == order.len(),
        shuffled_from(order, picks, i).to_multiset() == order.to_multiset(),
    decreases i,
{
    if i > 0 {
        let j = picks[order.len() - 1 - i] as int;
        lemma_swapped_keeps_entries(order, i, j);
        lemma_shuffled_from_keeps_entries(swapped(order, i, j), picks, i - 1);
    }
}

/// A shuffle keeps every entry, as often as it was there.
pub proof fn shuffle_keeps_entries(order: Seq<usize>, picks: Seq<usize>)
    requires
        valid_picks(picks, order.len() as int),
    ensures
        shuffled(order, picks).len() == order.len(),
        shuffled(order, picks).to_multiset() == order.to_multiset(),
{
    lemma_shuffled_from_keeps_entries(order, picks, order.len() - 1);
}

/// The draws with which a shuffle that has settled the places above `i` leads to `target`.
spec fn draws_for(order: Seq<usize>, target: Seq<usize>, i: int) -> Seq<usize>
    decreases i,
{
    if i <= 0 {
        Seq::empty()
    } else {
        let j = order.index_of(target[i]);
        seq![j as usize] + draws_for(swapped(order, i, j), target, i - 1)
    }
}

proof fn lemma_same_entries(a: Seq<usize>, b: Seq<usize>, x: usize)
    requires
        a.to_multiset() == b.to_multiset(),
        a.contains(x),
    ensures
        b.contains(x),
{
    broadcast use vstd::seq_lib::group_to_multiset_ensures;

    assert(a.to_multiset().count(x) > 0);
}

proof fn lemma_swapped_distinct(order: Seq<usize>, i: int, j: int)
    requires
        order.no_duplicates(),
        0 <= i < order.len(),
        0 <= j < order.len(),
    ensures
        swapped(order, i, j).no_duplicates(),
{
}

proof fn lemma_draws_lead_to(order: Seq<usize>, target: Seq<usize>, picks: Seq<usize>, i: int)
    requires
        order.len() == target.len() <= usize::MAX,
        -1 <= i < order.len(),
        order.no_duplicates(),
        target.no_duplicates(),
        order.to_multiset() == target.to_multiset(),
        forall|k: int| i < k < order.len() ==> order[k] == target[k],
        i >= 1 ==> picks.len() == order.len() - 1 && picks.skip(order.len() - 1 - i) == draws_for(
            order,
            target,
            i,
        ),
    ensures
        shuffled_from(order, picks, i) == target,
        draws_for(order, target, i).len() == if i > 0 {
            i
        } else {
            0
        },
        forall|k: int|
            0 <= k < draws_for(order, target, i).len() ==> #[trigger] draws_for(
                order,
                target,
                i,
            )[k] <= i - k,
    decreases i,
{
    if i <= 0 {
        if order.len() > 0 {
            assert(target.contains(target[0]));
            lemma_same_entries(target, order, target[0]);
            let k = choose|k: int| 0 <= k < order.len() && order[k] == target[0];
            if k > 0 {
                assert(order[k] == target[k]);
            }
        }
        assert(order =~= target);
    } else {
        assert(target.contains(target[i]));
        lemma_same_entries(target, order, target[i]);
        let j = order.index_of(target[i]);
        assert(order[j] == target[i]);
        if j > i {
            assert(order[j] == target[j]);
        }
        let next = swapped(order, i, j);
        lemma_swapped_keeps_entries(order, i, j);
        lemma_swapped_distinct(order, i, j);
        let n = order.len();
        let here = draws_for(order, target, i);
        let rest = draws_for(next, target, i - 1);
        assert(here == seq![j as usize] + rest);
        assert(picks.skip(n - 1 - i)[0] == picks[n - 1 - i]);
        assert(picks[n - 1 - i] == j);
        assert(picks.skip(n - i) =~= picks.skip(n - 1 - i).skip(1));
        assert(here.skip(1) =~= rest);
        lemma_draws_lead_to(next, target, picks, i - 1);
        assert forall|k: int| 0 <= k < here.len() implies #[trigger] here[k] <= i - k by {
            if k > 0 {
                assert(here[k] == rest[k - 1]);
            }
        }
    }
}

/// A shuffle can lead to every order of the entries: for each there are draws that make it.
pub proof fn every_order_can_come_up(order: Seq<usize>, target: Seq<usize>)
    requires
        order.len() <= usize::MAX,
        order.no_duplicates(),
        order.to_multiset() == target.to_multiset(),
    ensures
        exists|picks: Seq<usize>|
            valid_picks(picks, order.len() as int) && #[trigger] shuffled(order, picks) == target,
{
    broadcast use vstd::seq_lib::group_to_multiset_ensures;

    order.lemma_multiset_has_no_duplicates();
    assert(order.to_multiset().len() == order.len());
    assert(target.to_multiset().len() == target.len());
    target.lemma_multiset_has_no_duplicates_conv();
    let picks = draws_for(order, target, order.len() - 1);
    let n = order.len() as int;
    if n > 1 {
        lemma_draws_len(order, target, n - 1);
        assert(picks.skip(0) =~= picks);
    }
    lemma_draws_lead_to(order, target, picks, n - 1);
    assert(valid_picks(picks, n));
    assert(shuffled(order, picks) == target);
}

proof fn lemma_draws_len(order: Seq<usize>, target: Seq<usize>, i: int)
    requires
        i >= 0,
    ensures
        draws_for(order, target, i).len() == i,
    decreases i,
{
    if i > 0 {
        lemma_draws_len(swapped(order, i, order.index_of(target[i])), target, i - 1);
    }
}

proof fn lemma_settled(order: Seq<usize>, picks: Seq<usize>, i: int, k: int)
    requires
        i < order.len(),
        valid_picks(picks, order.len() as int),
        i < k < order.len(),
    ensures
        shuffled_from(order, picks, i)[k] == order[k],
    decreases i,
{
    if i > 0 {
        let j = picks[order.len() - 1 - i] as int;
        lemma_settled(swapped(order, i, j), picks, i - 1, k);
    }
}

proof fn lemma_draws_are_told(order: Seq<usize>, a: Seq<usize>, b: Seq<usize>, i: int)
    requires
        order.no_duplicates(),
        i < order.len(),
        valid_picks(a, order.len() as int),
        valid_picks(b, order.len() as int),
        shuffled_from(order, a, i) == shuffled_from(order, b, i),
    ensures
        forall|k: int| order.len() - 1 - i <= k < a.len() ==> a[k] == b[k],
    decreases i,
{
    if i > 0 {
        let n = order.len();
        let p = a[n - 1 - i] as int;
        let q = b[n - 1 - i] as int;
        lemma_settled(swapped(order, i, p), a, i - 1, i);
        lemma_settled(swapped(order, i, q), b, i - 1, i);
        assert(swapped(order, i, p)[i] == order[p]);
        assert(swapped(order, i, q)[i] == order[q]);
        assert(p == q);
        lemma_swapped_distinct(order, i, p);
        lemma_draws_are_told(swapped(order, i, p), a, b, i - 1);
    }
}

/// Different draws lead to different orders. As there are draws for every order, each order comes
/// up for just one choice of draws.
pub proof fn draws_and_orders_correspond(order: Seq<usize>, a: Seq<usize>, b: Seq<usize>)
    requires
        order.no_duplicates(),
        valid_picks(a, order.len() as int),
        valid_picks(b, order.len() as int),
        shuffled(order, a) == shuffled(order, b),
    ensures
        a == b,
{
    lemma_draws_are_told(order, a, b, order.len() - 1);
    assert(a =~= b);
}

/// Shuffles `order` with draws that are already made.
pub fn fisher_yates_with(order: &mut Vec<usize>, picks: &[usize])
    requires
        valid_picks(picks@, old(order)@.len() as int),
    ensures
        final(order)@ == shuffled(old(order)@, picks@),
        final(order)@.to_multiset() == old(order)@.to_multiset(),
{
    proof {
        shuffle_keeps_entries(order@, picks@);
    }
    let mut i: usize = order.len();
    if i > 0 {
        i -= 1;
    }
    let ghost goal = shuffled(order@, picks@);
    let len = order.len();
    assert(shuffled_from(order@, picks@, i as int) == goal);
    while i > 0
        invariant
            len == order.len(),
            i < len || i == 0,
            valid_picks(picks@, len as int),
            shuffled_from(order@, picks@, i as int) == goal,
        decreases i,
    {
        let j = picks[len - 1 - i];
        let a = order[i];
        let b = order[j];
        order.set(i, b);
        order.set(j, a);
        i -= 1;
    }
}

/// Draws the picks for a shuffle of `len` entries.
pub fn draw_picks(len: usize) -> (picks: Vec<usize>)
    ensures
        valid_picks(picks@, len as int),
{
    let mut picks: Vec<usize> = Vec::new();
    let mut i: usize = len;
    while i > 1
        invariant
            i <= len,
            picks.len() == if len > 1 {
                len - i
            } else {
                0
            },
            i >= 1 || len == 0,
            forall|k: int| 0 <= k < picks.len() ==> #[trigger] picks[k] <= len - 1 - k,
        decreases i,
    {
        i -= 1;
        picks.push(random_upto(i));
    }
    picks
}

/// Shuffles `order` in place.
pub fn fisher_yates(order: &mut Vec<usize>)
    ensures
        exists|picks: Seq<usize>|
            valid_picks(picks, old(order)@.len() as int) && final(order)@ == #[trigger] shuffled(
                old(order)@,
                picks,
            ),
        final(order)@.to_multiset() == old(order)@.to_multiset(),
{
    let picks = draw_picks(order.len());
    fisher_yates_with(order, &picks);
}

} // verus!
