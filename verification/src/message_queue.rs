//! A FIFO of messages with a nominal capacity.
//!
//! The queue itself never refuses a push; the capacity is the bound that the
//! kernel's admission control enforces before a message is ever enqueued.

use std::collections::VecDeque;
use vstd::prelude::*;

verus! {

pub struct MessageQueue<M> {
    queue: VecDeque<M>,
    capacity: usize,
}

impl<M> View for MessageQueue<M> {
    type V = Seq<M>;

    closed spec fn view(&self) -> Seq<M> {
        self.queue@
    }
}

impl<M> MessageQueue<M> {
    /// The nominal capacity the queue was created with.
    pub closed spec fn spec_capacity(&self) -> usize {
        self.capacity
    }

    /// Creates an empty queue whose nominal capacity is `n`.
    pub fn with_capacity(n: usize) -> (q: Self)
        ensures
            q@ == Seq::<M>::empty(),
            q.spec_capacity() == n,
    {
        Self { queue: VecDeque::with_capacity(n), capacity: n }
    }

    pub fn capacity(&self) -> (r: usize)
        ensures
            r == self.spec_capacity(),
    {
        self.capacity
    }

    /// The number of messages currently held.
    pub fn size(&self) -> (r: usize)
        ensures
            r == self@.len(),
    {
        self.queue.len()
    }

    /// Appends `message` at the back of the queue.
    pub fn push(&mut self, message: M)
        ensures
            final(self)@ == old(self)@.push(message),
            final(self).spec_capacity() == old(self).spec_capacity(),
    {
        self.queue.push_back(message);
    }

    /// Removes and returns the oldest message, or `None` when empty.
    pub fn pop(&mut self) -> (r: Option<M>)
        ensures
            final(self).spec_capacity() == old(self).spec_capacity(),
            old(self)@.len() == 0 ==> r is None && final(self)@ == old(self)@,
            old(self)@.len() > 0 ==> r == Some(old(self)@[0]) && final(self)@ == old(self)@.drop_first(),
    {
        self.queue.pop_front()
    }
}

} // verus!
