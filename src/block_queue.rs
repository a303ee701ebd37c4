use vstd::prelude::*;

use std::collections::VecDeque;

verus! {

/// A first-in first-out queue that consumers may wait on; waiting itself is
/// left to the caller, which pops once the queue holds an item.
pub struct BlockQueue<T> {
    queue: VecDeque<T>,
}

impl<T> View for BlockQueue<T> {
    type V = Seq<T>;

    closed spec fn view(&self) -> Seq<T> {
        self.queue@
    }
}

impl<T> BlockQueue<T> {
    pub fn with_capacity(capacity: usize) -> (r: BlockQueue<T>)
        ensures
            r@ == Seq::<T>::empty(),
    {
        BlockQueue { queue: VecDeque::with_capacity(capacity) }
    }

    pub fn push(&mut self, value: T)
        ensures
            final(self)@ == old(self)@.push(value),
    {
        self.queue.push_back(value);
    }

    /// Takes the oldest item; the queue must hold one.
    pub fn pop(&mut self) -> (r: T)
        requires
            old(self)@.len() > 0,
        ensures
            r == old(self)@[0],
            final(self)@ == old(self)@.drop_first(),
    {
        self.queue.pop_front().unwrap()
    }

    /// Takes the oldest item, if any.
    pub fn try_pop(&mut self) -> (r: Option<T>)
        ensures
            old(self)@.len() == 0 ==> r is None && final(self)@ == old(self)@,
            old(self)@.len() > 0 ==> r == Some(old(self)@[0]) && final(self)@ == old(self)@.drop_first(),
    {
        self.queue.pop_front()
    }

    pub fn len(&self) -> (r: usize)
        ensures
            r == self@.len(),
    {
        self.queue.len()
    }
}

} // verus!
