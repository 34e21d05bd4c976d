//! Bounded FIFO buffer backing every history ring and rolling window:
//! insertion evicts the oldest entry once the configured capacity is
//! reached, so the buffer always holds the most recent entries.

use std::collections::VecDeque;
use vstd::prelude::*;

verus! {

/// One bounded insertion step: append the new entry, dropping the
/// oldest first when the buffer already stands at capacity.
pub open spec fn ring_push<T>(s: Seq<T>, x: T, cap: nat) -> Seq<T> {
    if s.len() < cap {
        s.push(x)
    } else {
        s.drop_first().push(x)
    }
}

/// Repeated bounded insertion of a whole sequence, oldest first.
pub open spec fn ring_fold<T>(init: Seq<T>, xs: Seq<T>, cap: nat) -> Seq<T>
    decreases xs.len(),
{
    if xs.len() == 0 {
        init
    } else {
        ring_fold(ring_push(init, xs.first(), cap), xs.drop_first(), cap)
    }
}

/// However many entries are inserted, a bounded buffer never exceeds its
/// capacity and holds exactly the most recently inserted entries: the
/// result of folding any insertion sequence is the longest suffix of all
/// entries ever present that fits the capacity.
pub proof fn lemma_ring_fold_is_recent_suffix<T>(init: Seq<T>, xs: Seq<T>, cap: nat)
    requires
        cap >= 1,
        init.len() <= cap,
    ensures
        ring_fold(init, xs, cap).len() <= cap,
        ring_fold(init, xs, cap) == (init + xs).skip(
            if init.len() + xs.len() <= cap {
                0
            } else {
                init.len() + xs.len() - cap
            },
        ),
    decreases xs.len(),
{
    let all = init + xs;
    if xs.len() == 0 {
        assert(all =~= init);
        assert(all.skip(0) =~= all);
    } else {
        let x = xs.first();
        let rest = xs.drop_first();
        let init2 = ring_push(init, x, cap);
        lemma_ring_fold_is_recent_suffix(init2, rest, cap);
        let all2 = init2 + rest;
        if init.len() < cap {
            assert(all2 =~= all);
        } else {
            assert(init.len() == cap);
            assert(all2 =~= all.skip(1));
            let keep2 = if init2.len() + rest.len() <= cap {
                0
            } else {
                init2.len() + rest.len() - cap
            };
            let keep = if init.len() + xs.len() <= cap {
                0
            } else {
                init.len() + xs.len() - cap
            };
            assert(all.skip(1).skip(keep2 as int) =~= all.skip(keep as int));
        }
    }
}

/// Fixed-capacity FIFO ring: the oldest entry leaves first, and the
/// buffer never grows past the capacity it was created with.
pub struct BoundedRing<T> {
    items: VecDeque<T>,
    cap: usize,
}

impl<T> View for BoundedRing<T> {
    type V = Seq<T>;

    closed spec fn view(&self) -> Seq<T> {
        self.items@
    }
}

impl<T> BoundedRing<T> {
    /// The capacity the ring was created with.
    pub closed spec fn cap(&self) -> nat {
        self.cap as nat
    }

    /// A valid ring: at most `cap` entries, and a positive capacity.
    pub open spec fn wf(&self) -> bool {
        self@.len() <= self.cap() && self.cap() >= 1
    }

    /// Create an empty ring of the given capacity.
    pub fn new(cap: usize) -> (r: Self)
        requires
            cap >= 1,
        ensures
            r.wf(),
            r@ == Seq::<T>::empty(),
            r.cap() == cap,
    {
        BoundedRing { items: VecDeque::new(), cap }
    }

    /// Number of entries currently held.
    pub fn len(&self) -> (r: usize)
        ensures
            r == self@.len(),
    {
        self.items.len()
    }

    /// The capacity the ring was created with.
    pub fn capacity(&self) -> (r: usize)
        ensures
            r == self.cap(),
    {
        self.cap
    }

    /// Append one entry, evicting the oldest if the ring is full.
    pub fn push(&mut self, item: T)
        requires
            old(self).wf(),
        ensures
            final(self).wf(),
            final(self).cap() == old(self).cap(),
            final(self)@ == ring_push(old(self)@, item, old(self).cap()),
    {
        if self.items.len() >= self.cap {
            self.items.pop_front();
        }
        self.items.push_back(item);
    }

    /// Entry at position `i`, oldest first.
    pub fn get(&self, i: usize) -> (r: &T)
        requires
            i < self@.len(),
        ensures
            *r == self@[i as int],
    {
        &self.items[i]
    }
}

} // verus!
