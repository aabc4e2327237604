//! Bounded feedback history: an ordered ring of the most recent scalar
//! samples reported by a control loop. The ring holds at most `capacity`
//! samples; once full, a push evicts exactly the oldest sample.

use vstd::prelude::*;

use std::collections::VecDeque;

verus! {

/// Mathematical model of one push on a bounded history.
pub open spec fn spec_ring_push<T>(s: Seq<T>, capacity: nat, x: T) -> Seq<T> {
    if s.len() < capacity {
        s.push(x)
    } else {
        s.subrange(1, s.len() as int).push(x)
    }
}

/// Mathematical model of a whole sequence of pushes.
pub open spec fn spec_ring_push_all<T>(s: Seq<T>, capacity: nat, xs: Seq<T>) -> Seq<T>
    decreases xs.len(),
{
    if xs.len() == 0 {
        s
    } else {
        spec_ring_push_all(spec_ring_push(s, capacity, xs[0]), capacity, xs.drop_first())
    }
}

/// The bounded FIFO ring of feedback samples.
pub struct FeedbackHistory<T> {
    samples: VecDeque<T>,
    capacity: usize,
}

impl<T> View for FeedbackHistory<T> {
    type V = Seq<T>;

    closed spec fn view(&self) -> Seq<T> {
        self.samples@
    }
}

impl<T> FeedbackHistory<T> {
    /// The fixed capacity the history was created with.
    pub closed spec fn spec_capacity(&self) -> usize {
        self.capacity
    }

    /// Well-formed: the ring holds a positive capacity and never more
    /// samples than that.
    pub closed spec fn wf(&self) -> bool {
        self.capacity >= 1 && self@.len() <= self.capacity
    }

    /// What well-formedness guarantees about the visible dimensions.
    pub proof fn lemma_wf(&self)
        requires
            self.wf(),
        ensures
            self.spec_capacity() >= 1,
            self@.len() <= self.spec_capacity(),
    {
    }

    /// An empty history with the given capacity.
    pub fn new(capacity: usize) -> (r: Self)
        requires
            capacity >= 1,
        ensures
            r.wf(),
            r@ == Seq::<T>::empty(),
            r.spec_capacity() == capacity,
    {
        FeedbackHistory { samples: VecDeque::new(), capacity }
    }

    pub fn len(&self) -> (n: usize)
        ensures
            n == self@.len(),
    {
        self.samples.len()
    }

    pub fn capacity(&self) -> (c: usize)
        ensures
            c == self.spec_capacity(),
    {
        self.capacity
    }

    pub fn get(&self, i: usize) -> (x: &T)
        requires
            i < self@.len(),
        ensures
            *x == self@[i as int],
    {
        &self.samples[i]
    }

    /// Appends a sample; once the ring is full, the oldest sample leaves.
    pub fn push(&mut self, x: T)
        requires
            old(self).wf(),
        ensures
            final(self).wf(),
            final(self).spec_capacity() == old(self).spec_capacity(),
            final(self)@ == spec_ring_push(old(self)@, old(self).spec_capacity() as nat, x),
    {
        if self.samples.len() == self.capacity {
            self.samples.pop_front();
        }
        self.samples.push_back(x);
    }
}

/// A full history keeps every later sample, in order, and drops only the
/// oldest; the new sample enters at the back.
pub proof fn lemma_ring_push_evicts_oldest<T>(s: Seq<T>, capacity: nat, x: T)
    requires
        s.len() == capacity,
        capacity >= 1,
    ensures
        spec_ring_push(s, capacity, x).len() == capacity,
        forall|i: int| 0 <= i < capacity - 1 ==> spec_ring_push(s, capacity, x)[i] == s[i + 1],
        spec_ring_push(s, capacity, x)[capacity - 1] == x,
{
}

/// However many samples are pushed, the history never exceeds its capacity.
pub proof fn lemma_ring_never_exceeds_capacity<T>(s: Seq<T>, capacity: nat, xs: Seq<T>)
    requires
        capacity >= 1,
        s.len() <= capacity,
    ensures
        spec_ring_push_all(s, capacity, xs).len() <= capacity,
    decreases xs.len(),
{
    if xs.len() > 0 {
        lemma_ring_never_exceeds_capacity(spec_ring_push(s, capacity, xs[0]), capacity, xs.drop_first());
    }
}

} // verus!
