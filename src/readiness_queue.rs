use vstd::prelude::*;

use std::collections::VecDeque;

verus! {

/// What a dequeue found.
#[derive(Copy, Clone, Debug, PartialEq, Eq, Structural)]
pub enum Dequeue {
    /// The node at the front, now removed.
    Data(usize),
    /// Nothing to take: the queue is empty, or its front is the `until` node.
    Empty,
}

/// The queue of registration nodes that have readiness to report, in the
/// order in which they were queued.
///
/// Besides the nodes, the queue knows whether the consumer has announced that
/// it is about to block (the sleep marker is at the head): the first push
/// after that must wake the consumer.
pub struct ReadinessQueue {
    list: VecDeque<usize>,
    sleeping: bool,
}

impl View for ReadinessQueue {
    type V = Seq<usize>;

    closed spec fn view(&self) -> Seq<usize> {
        self.list@
    }
}

impl ReadinessQueue {
    /// Whether the sleep marker is at the head.
    pub closed spec fn is_sleeping(&self) -> bool {
        self.sleeping
    }

    pub fn new() -> (r: ReadinessQueue)
        ensures
            r@ == Seq::<usize>::empty(),
            !r.is_sleeping(),
    {
        ReadinessQueue { list: VecDeque::new(), sleeping: false }
    }

    pub fn len(&self) -> (r: usize)
        ensures
            r == self@.len(),
    {
        self.list.len()
    }

    /// Links a node at the head. Returns whether the sleep marker was the
    /// head, in which case the consumer must be woken.
    pub fn enqueue_node(&mut self, node: usize) -> (r: bool)
        ensures
            final(self)@ == old(self)@.push(node),
            r == old(self).is_sleeping(),
            !final(self).is_sleeping(),
    {
        self.list.push_back(node);
        let was_sleeping = self.sleeping;
        self.sleeping = false;
        was_sleeping
    }

    /// Takes the node at the tail, unless the queue is empty or that node is
    /// `until`.
    pub fn dequeue_node(&mut self, until: Option<usize>) -> (r: Dequeue)
        ensures
            old(self)@.len() == 0 || until == Some(old(self)@[0]) ==> r == Dequeue::Empty
                && final(self)@ == old(self)@,
            old(self)@.len() > 0 && until != Some(old(self)@[0]) ==> r == Dequeue::Data(
                old(self)@[0],
            ) && final(self)@ == old(self)@.drop_first(),
            final(self).is_sleeping() == old(self).is_sleeping(),
    {
        if self.list.len() == 0 {
            return Dequeue::Empty;
        }
        let front = self.list[0];
        match until {
            Some(u) => {
                if u == front {
                    return Dequeue::Empty;
                }
            },
            None => {},
        }
        let _ = self.list.pop_front();
        Dequeue::Data(front)
    }

    /// Announces that the consumer is about to block. Returns true, with the
    /// sleep marker at the head, iff the queue is empty; otherwise the
    /// consumer must not block.
    pub fn prepare_for_sleep(&mut self) -> (r: bool)
        ensures
            r == (old(self)@.len() == 0),
            final(self)@ == old(self)@,
            final(self).is_sleeping() == (old(self).is_sleeping() || r),
    {
        if self.list.len() == 0 {
            self.sleeping = true;
            true
        } else {
            false
        }
    }
}

} // verus!
