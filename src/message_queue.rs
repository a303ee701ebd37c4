use vstd::prelude::*;

use std::collections::VecDeque;

use crate::epoll_opt::EpollOpt;
use crate::poll::{args_valid, token_at, Poll, PollError, Registration, SetReadiness, AWAKEN};
use crate::ready::{Ready, READABLE, WRITABLE};
use crate::token::Token;

verus! {

/// A first-in first-out queue of messages that a `Poll` can watch: the
/// first message makes it readable, and `try_pop` keeps the readiness in step
/// with what is left.
pub struct MessagesQueue<T> {
    queue: VecDeque<T>,
    registration: Registration,
    set_readiness: SetReadiness,
}

impl<T> View for MessagesQueue<T> {
    type V = Seq<T>;

    closed spec fn view(&self) -> Seq<T> {
        self.queue@
    }
}

impl<T> MessagesQueue<T> {
    /// Both halves of the registration name one node.
    pub closed spec fn wf(&self) -> bool {
        &&& self.set_readiness.node_spec() == self.registration.node_spec()
        &&& self.set_readiness.poll_id_spec() == self.registration.poll_id_spec()
    }

    pub closed spec fn node_spec(&self) -> usize {
        self.registration.node_spec()
    }

    pub closed spec fn poll_id_spec(&self) -> usize {
        self.registration.poll_id_spec()
    }

    /// An empty queue whose registration node is created in `poll`.
    pub fn with_capacity(poll: &mut Poll, capacity: usize) -> (r: MessagesQueue<T>)
        requires
            old(poll).wf(),
        ensures
            final(poll).wf(),
            r.wf(),
            r@ == Seq::<T>::empty(),
            r.node_spec() == old(poll).nodes_view().len(),
            r.poll_id_spec() == old(poll).id_spec(),
            final(poll).nodes_view() == old(poll).nodes_view().push(crate::poll::fresh_node()),
            final(poll).queue_view() == old(poll).queue_view(),
            final(poll).id_spec() == old(poll).id_spec(),
    {
        let (registration, set_readiness) = Registration::new(poll);
        MessagesQueue { queue: VecDeque::with_capacity(capacity), registration, set_readiness }
    }

    /// Appends a message; the first one makes the queue readable. The
    /// message is kept even when the registration belongs to another poll,
    /// which is reported.
    pub fn push(&mut self, poll: &mut Poll, value: T) -> (r: Result<(), PollError>)
        requires
            old(self).wf(),
            old(poll).wf(),
        ensures
            final(self).wf(),
            final(poll).wf(),
            final(self)@ == old(self)@.push(value),
            final(self).node_spec() == old(self).node_spec(),
            final(self).poll_id_spec() == old(self).poll_id_spec(),
            r is Err <==> old(self)@.len() == 0 && !old(poll).owns(old(self).node_spec(), old(self).poll_id_spec()),
            old(self)@.len() == 0 && r is Ok ==> old(poll).signaled_by(final(poll), old(self).node_spec(), READABLE),
            old(self)@.len() != 0 || r is Err ==> *final(poll) == *old(poll),
    {
        self.queue.push_back(value);
        if self.queue.len() == 1 {
            self.set_readiness.set_readiness(poll, Ready::readable())?;
        }
        Ok(())
    }

    /// Takes the oldest message; the queue must hold one.
    pub fn pop(&mut self) -> (r: T)
        requires
            old(self)@.len() > 0,
        ensures
            r == old(self)@[0],
            final(self)@ == old(self)@.drop_first(),
            final(self).wf() == old(self).wf(),
            final(self).node_spec() == old(self).node_spec(),
            final(self).poll_id_spec() == old(self).poll_id_spec(),
    {
        self.queue.pop_front().unwrap()
    }

    /// Sets the readiness to what will be left (readable while more than one
    /// message is there, else empty), then takes the oldest message if any.
    /// A registration of another poll is refused and nothing is taken.
    pub fn try_pop(&mut self, poll: &mut Poll) -> (r: Result<Option<T>, PollError>)
        requires
            old(self).wf(),
            old(poll).wf(),
        ensures
            final(self).wf(),
            final(poll).wf(),
            final(self).node_spec() == old(self).node_spec(),
            final(self).poll_id_spec() == old(self).poll_id_spec(),
            r is Err <==> !old(poll).owns(old(self).node_spec(), old(self).poll_id_spec()),
            r is Err ==> *final(poll) == *old(poll) && final(self)@ == old(self)@,
            r is Ok ==> old(poll).signaled_by(
                final(poll),
                old(self).node_spec(),
                if old(self)@.len() <= 1 {
                    0
                } else {
                    READABLE
                },
            ),
            r matches Ok(v) ==> (old(self)@.len() == 0 ==> v is None && final(self)@ == old(self)@)
                && (old(self)@.len() > 0 ==> v == Some(old(self)@[0]) && final(self)@ == old(
                self,
            )@.drop_first()),
    {
        if self.queue.len() <= 1 {
            self.set_readiness.set_readiness(poll, Ready::empty())?;
        } else {
            self.set_readiness.set_readiness(poll, Ready::readable())?;
        }
        Ok(self.queue.pop_front())
    }

    /// Registers the queue with `poll`; a queue that holds messages is made
    /// readable at once.
    pub fn register(&self, poll: &mut Poll, token: Token, interest: Ready, opts: EpollOpt) -> (r:
        Result<(), PollError>)
        requires
            self.wf(),
            old(poll).wf(),
            interest.bits() < 16,
            opts.bits() < 16,
        ensures
            final(poll).wf(),
            r == Err::<(), PollError>(PollError::InvalidToken) <==> token.0 == AWAKEN,
            r == Err::<(), PollError>(PollError::InvalidInterest) <==> token.0 != AWAKEN && !(
            interest.has(READABLE) || interest.has(WRITABLE)),
            r == Err::<(), PollError>(PollError::AlreadyAssociated) <==> args_valid(token, interest)
                && !old(poll).owns(self.node_spec(), self.poll_id_spec()),
            r is Err ==> *final(poll) == *old(poll),
            r is Ok && self@.len() == 0 ==> old(poll).updated_by(final(poll), self.node_spec(), token, interest.bits(), opts.bits()),
            r is Ok && self@.len() > 0 ==> exists|mid: Poll| old(poll).updated_by(&mid, self.node_spec(), token, interest.bits(), opts.bits())
                && mid.wf() && #[trigger] mid.signaled_by(final(poll), self.node_spec(), READABLE),
    {
        poll.register(&self.registration, token, interest, opts)?;
        if self.queue.len() > 0 {
            let ghost mid = *poll;
            let _ = self.set_readiness.set_readiness(poll, Ready::readable());
            proof {
                assert(mid.signaled_by(poll, self.node_spec(), READABLE));
            }
        }
        Ok(())
    }

    /// Changes the token, interest or options of the queue's registration.
    pub fn reregister(&self, poll: &mut Poll, token: Token, interest: Ready, opts: EpollOpt) -> (r:
        Result<(), PollError>)
        requires
            old(poll).wf(),
            interest.bits() < 16,
            opts.bits() < 16,
        ensures
            final(poll).wf(),
            r == Err::<(), PollError>(PollError::InvalidToken) <==> token.0 == AWAKEN,
            r == Err::<(), PollError>(PollError::InvalidInterest) <==> token.0 != AWAKEN && !(
            interest.has(READABLE) || interest.has(WRITABLE)),
            r == Err::<(), PollError>(PollError::AlreadyAssociated) <==> args_valid(token, interest)
                && !old(poll).owns(self.node_spec(), self.poll_id_spec()),
            r is Err ==> *final(poll) == *old(poll),
            r is Ok ==> old(poll).updated_by(final(poll), self.node_spec(), token, interest.bits(), opts.bits()),
    {
        poll.reregister(&self.registration, token, interest, opts)
    }

    /// Stops the queue's registration from reporting.
    pub fn deregister(&self, poll: &mut Poll) -> (r: Result<(), PollError>)
        requires
            old(poll).wf(),
        ensures
            final(poll).wf(),
            r is Err <==> !old(poll).owns(self.node_spec(), self.poll_id_spec()),
            r is Err ==> *final(poll) == *old(poll),
            r is Ok ==> old(poll).updated_by(
                final(poll),
                self.node_spec(),
                token_at(old(poll).nodes_view()[self.node_spec() as int], old(poll).nodes_view()[self.node_spec() as int].state.write_pos),
                0,
                0,
            ),
    {
        poll.deregister(&self.registration)
    }
}

} // verus!
