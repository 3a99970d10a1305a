//! Handing entries on in batches.

use vstd::prelude::*;

verus! {

/// How many entries make a full batch.
pub const BATCH_SIZE: usize = 50;

/// Entries that wait until there are enough for a batch.
#[derive(Debug)]
pub struct Batcher<T> {
    pending: Vec<T>,
}

impl<T> View for Batcher<T> {
    type V = Seq<T>;

    closed spec fn view(&self) -> Seq<T> {
        self.pending@
    }
}

impl<T> Batcher<T> {
    /// Fewer entries wait than make a batch.
    pub open spec fn wf(&self) -> bool {
        self@.len() < BATCH_SIZE
    }

    /// Nothing waits.
    pub fn new() -> (batcher: Self)
        ensures
            batcher.wf(),
            batcher@ == Seq::<T>::empty(),
    {
        Batcher { pending: Vec::new() }
    }

    /// Adds an entry. Gives back the batch that this entry has made full.
    pub fn push(&mut self, entry: T) -> (batch: Option<Vec<T>>)
        requires
            old(self).wf(),
        ensures
            final(self).wf(),
            match batch {
                Some(b) => {
                    &&& b@ == old(self)@.push(entry)
                    &&& b@.len() == BATCH_SIZE
                    &&& final(self)@ == Seq::<T>::empty()
                },
                None => final(self)@ == old(self)@.push(entry),
            },
            batch is Some <==> old(self)@.len() + 1 == BATCH_SIZE,
    {
        self.pending.push(entry);
        if self.pending.len() >= BATCH_SIZE {
            let mut batch: Vec<T> = Vec::new();
            std::mem::swap(&mut batch, &mut self.pending);
            Some(batch)
        } else {
            None
        }
    }

    /// Gives back what still waits, if anything does.
    pub fn finish(self) -> (batch: Option<Vec<T>>)
        ensures
            match batch {
                Some(b) => b@ == self@ && b@.len() > 0,
                None => self@.len() == 0,
            },
    {
        if self.pending.len() > 0 {
            Some(self.pending)
        } else {
            None
        }
    }
}

/// The full batches that a row of entries makes, in order.
pub open spec fn full_batches<T>(entries: Seq<T>) -> Seq<Seq<T>> {
    Seq::new(
        entries.len() / BATCH_SIZE as nat,
        |k: int| entries.subrange(k * BATCH_SIZE, (k + 1) * BATCH_SIZE),
    )
}

/// What waits after a row of entries was added.
pub open spec fn waiting<T>(entries: Seq<T>) -> Seq<T> {
    entries.skip((entries.len() / BATCH_SIZE as nat) * BATCH_SIZE as int)
}

/// Adding one more entry either makes it wait or hands on a batch that ends with it. Nothing is
/// lost, repeated or put out of order: the batches handed on so far and what waits make up the
/// entries that were added.
pub proof fn batches_make_up_entries<T>(entries: Seq<T>, entry: T)
    ensures
        waiting(entries).len() < BATCH_SIZE,
        waiting(entries).len() + 1 < BATCH_SIZE ==> {
            &&& waiting(entries.push(entry)) == waiting(entries).push(entry)
            &&& full_batches(entries.push(entry)) == full_batches(entries)
        },
        waiting(entries).len() + 1 == BATCH_SIZE ==> {
            &&& waiting(entries.push(entry)) == Seq::<T>::empty()
            &&& full_batches(entries.push(entry)) == full_batches(entries).push(
                waiting(entries).push(entry),
            )
        },
        full_batches(entries).flatten() + waiting(entries) == entries,
{
    let n = entries.len() / BATCH_SIZE as nat;
    let more = entries.push(entry);
    assert(n * BATCH_SIZE <= entries.len() < n * BATCH_SIZE + BATCH_SIZE);
    if waiting(entries).len() + 1 < BATCH_SIZE {
        assert(more.len() / BATCH_SIZE as nat == n);
        assert(waiting(more) =~= waiting(entries).push(entry));
        assert forall|k: int| 0 <= k < n implies full_batches(more)[k] == full_batches(
            entries,
        )[k] by {
            assert((k + 1) * BATCH_SIZE <= n * BATCH_SIZE);
            assert(more.subrange(k * BATCH_SIZE, (k + 1) * BATCH_SIZE) =~= entries.subrange(
                k * BATCH_SIZE,
                (k + 1) * BATCH_SIZE,
            ));
        }
        assert(full_batches(more) =~= full_batches(entries));
    } else {
        assert(more.len() / BATCH_SIZE as nat == n + 1);
        assert(waiting(more) =~= Seq::empty());
        assert forall|k: int| 0 <= k < n implies full_batches(more)[k] == full_batches(
            entries,
        )[k] by {
            assert((k + 1) * BATCH_SIZE <= n * BATCH_SIZE);
            assert(more.subrange(k * BATCH_SIZE, (k + 1) * BATCH_SIZE) =~= entries.subrange(
                k * BATCH_SIZE,
                (k + 1) * BATCH_SIZE,
            ));
        }
        assert(full_batches(more)[n as int] =~= waiting(entries).push(entry));
        assert(full_batches(more) =~= full_batches(entries).push(waiting(entries).push(entry)));
    }
    lemma_flattened_batches(entries, n as int);
    assert(full_batches(entries).take(n as int) =~= full_batches(entries));
    assert(full_batches(entries).flatten() + waiting(entries) =~= entries);
}

proof fn lemma_flattened_batches<T>(entries: Seq<T>, n: int)
    requires
        0 <= n <= entries.len() / BATCH_SIZE as nat,
    ensures
        full_batches(entries).take(n).flatten() == entries.take(n * BATCH_SIZE),
    decreases n,
{
    let batches = full_batches(entries);
    if n == 0 {
        assert(batches.take(0).flatten() =~= Seq::empty());
        assert(entries.take(0) =~= Seq::empty());
    } else {
        lemma_flattened_batches(entries, n - 1);
        assert(batches.take(n) =~= batches.take(n - 1).push(batches[n - 1]));
        batches.take(n - 1).lemma_flatten_push(batches[n - 1]);
        assert((n - 1) * BATCH_SIZE + BATCH_SIZE == n * BATCH_SIZE);
        assert(entries.take(n * BATCH_SIZE) =~= entries.take((n - 1) * BATCH_SIZE)
            + entries.subrange((n - 1) * BATCH_SIZE, n * BATCH_SIZE));
    }
}

} // verus!
