//! The writer's mailbox: a bounded FIFO command queue with any number of
//! producers and exactly one consumer. Best-effort producers use
//! `try_send`, which silently drops when the queue is full; must-deliver
//! producers wait for room and then use `send`. The consumer takes commands
//! strictly in arrival order, which is what makes the single-writer
//! discipline a total order on outbound frames.

use vstd::prelude::*;

use std::collections::VecDeque;

verus! {

/// The bounded FIFO command queue.
pub struct Mailbox<T> {
    queue: VecDeque<T>,
    capacity: usize,
}

impl<T> View for Mailbox<T> {
    type V = Seq<T>;

    closed spec fn view(&self) -> Seq<T> {
        self.queue@
    }
}

impl<T> Mailbox<T> {
    /// The fixed capacity the mailbox was created with.
    pub closed spec fn spec_capacity(&self) -> usize {
        self.capacity
    }

    /// Well-formed: never more queued commands than the capacity admits.
    pub closed spec fn wf(&self) -> bool {
        self.capacity >= 1 && self@.len() <= self.capacity
    }

    pub fn new(capacity: usize) -> (r: Self)
        requires
            capacity >= 1,
        ensures
            r.wf(),
            r@ == Seq::<T>::empty(),
            r.spec_capacity() == capacity,
    {
        Mailbox { queue: VecDeque::new(), capacity }
    }

    pub fn len(&self) -> (n: usize)
        ensures
            n == self@.len(),
    {
        self.queue.len()
    }

    pub fn is_empty(&self) -> (b: bool)
        ensures
            b == (self@.len() == 0),
    {
        self.queue.len() == 0
    }

    pub fn capacity(&self) -> (c: usize)
        ensures
            c == self.spec_capacity(),
    {
        self.capacity
    }

    /// Best-effort enqueue: accepted exactly when there is room; a full
    /// queue drops the command and reports so.
    pub fn try_send(&mut self, x: T) -> (accepted: bool)
        requires
            old(self).wf(),
        ensures
            final(self).wf(),
            final(self).spec_capacity() == old(self).spec_capacity(),
            accepted == (old(self)@.len() < old(self).spec_capacity()),
            final(self)@ == if accepted {
                old(self)@.push(x)
            } else {
                old(self)@
            },
    {
        if self.queue.len() < self.capacity {
            self.queue.push_back(x);
            true
        } else {
            false
        }
    }

    /// Must-deliver enqueue; the caller waits until there is room.
    pub fn send(&mut self, x: T)
        requires
            old(self).wf(),
            old(self)@.len() < old(self).spec_capacity(),
        ensures
            final(self).wf(),
            final(self).spec_capacity() == old(self).spec_capacity(),
            final(self)@ == old(self)@.push(x),
    {
        self.queue.push_back(x);
    }

    /// The single consumer takes the oldest command.
    pub fn recv(&mut self) -> (r: Option<T>)
        requires
            old(self).wf(),
        ensures
            final(self).wf(),
            final(self).spec_capacity() == old(self).spec_capacity(),
            match r {
                Some(x) => old(self)@.len() > 0 && x == old(self)@[0] && final(self)@ == old(self)@.drop_first(),
                None => old(self)@.len() == 0 && final(self)@ == old(self)@,
            },
    {
        self.queue.pop_front()
    }
}

} // verus!
