//! Fixed-capacity sliding windows of samples, one per tracked metric
//! series, feeding the visualization layer.

use core::ops::Index;
use std::collections::VecDeque;
use vstd::prelude::*;

verus! {

/// Number of samples each metric series retains.
pub const HISTORY_LEN: usize = 60;

/// A fixed-capacity sliding window: the newest sample sits at the tail,
/// and pushing into a full window evicts the oldest sample. Windows are
/// created pre-filled, so their length equals their capacity from the
/// start and stays there.
pub struct HistoryBuffer<T> {
    items: VecDeque<T>,
    capacity: usize,
}

impl<T> View for HistoryBuffer<T> {
    type V = Seq<T>;

    closed spec fn view(&self) -> Seq<T> {
        self.items@
    }
}

impl<T: Copy> HistoryBuffer<T> {
    /// The fixed capacity this window was created with.
    pub closed spec fn capacity(&self) -> nat {
        self.capacity as nat
    }

    /// A window is well formed when it holds exactly as many samples as
    /// its capacity.
    pub open spec fn wf(&self) -> bool {
        self@.len() == self.capacity()
    }

    /// Create a window holding `capacity` copies of `fill`.
    pub fn new_filled(capacity: usize, fill: T) -> (r: Self)
        ensures
            r.capacity() == capacity,
            r.wf(),
            r@ =~= Seq::new(capacity as nat, |i: int| fill),
    {
        let mut items: VecDeque<T> = VecDeque::new();
        let mut i: usize = 0;
        while i < capacity
            invariant
                i <= capacity,
                items@ =~= Seq::new(i as nat, |j: int| fill),
            decreases capacity - i,
        {
            items.push_back(fill);
            i = i + 1;
        }
        HistoryBuffer { items, capacity }
    }

    pub fn len(&self) -> (n: usize)
        ensures
            n == self@.len(),
    {
        self.items.len()
    }

    pub fn get(&self, i: usize) -> (v: T)
        requires
            i < self@.len(),
        ensures
            v == self@[i as int],
    {
        *self.items.index(i)
    }

    /// Append `v` as the newest sample; if the window is full, the
    /// oldest sample is evicted first, so a full window keeps its
    /// length — equal to its capacity — across every push.
    pub fn push(&mut self, v: T)
        ensures
            final(self).capacity() == old(self).capacity(),
            old(self)@.len() < old(self).capacity() ==> final(self)@ == old(self)@.push(v),
            old(self)@.len() == old(self).capacity() && old(self).capacity() > 0
                ==> final(self)@ == old(self)@.drop_first().push(v),
            old(self).wf() ==> final(self).wf(),
    {
        if self.items.len() >= self.capacity {
            let _evicted = self.items.pop_front();
        }
        if self.items.len() < self.capacity {
            self.items.push_back(v);
        }
    }

    /// The stored samples, oldest first.
    pub fn to_vec(&self) -> (v: Vec<T>)
        ensures
            v@ == self@,
    {
        let mut v: Vec<T> = Vec::new();
        let mut i: usize = 0;
        while i < self.items.len()
            invariant
                i <= self.items@.len(),
                v@ =~= self.items@.subrange(0, i as int),
            decreases self.items@.len() - i,
        {
            v.push(*self.items.index(i));
            i = i + 1;
        }
        proof {
            assert(v@ =~= self@);
        }
        v
    }
}

} // verus!
