use vstd::prelude::*;

use crate::epoll_opt::EpollOpt;
use crate::poll::{args_valid, Poll, PollError, Registration, SetReadiness, AWAKEN};
use crate::ready::{Ready, READABLE, WRITABLE};
use crate::token::Token;

verus! {

/// The readiness side of a channel: how many messages wait, how many
/// senders are left, and the registration that is readable while a message
/// waits (or once the last sender is gone).
pub struct ChannelCtl {
    pending: usize,
    senders: usize,
    registration: Registration,
    set_readiness: SetReadiness,
}

impl ChannelCtl {
    /// Both halves of the registration name one node.
    pub closed spec fn wf(&self) -> bool {
        &&& self.set_readiness.node_spec() == self.registration.node_spec()
        &&& self.set_readiness.poll_id_spec() == self.registration.poll_id_spec()
    }

    pub closed spec fn pending_spec(&self) -> nat {
        self.pending as nat
    }

    pub closed spec fn senders_spec(&self) -> nat {
        self.senders as nat
    }

    pub closed spec fn node_spec(&self) -> usize {
        self.registration.node_spec()
    }

    pub closed spec fn poll_id_spec(&self) -> usize {
        self.registration.poll_id_spec()
    }

    /// No message and one sender; the registration node is created in
    /// `poll`.
    pub fn ctl_pair(poll: &mut Poll) -> (r: ChannelCtl)
        requires
            old(poll).wf(),
        ensures
            final(poll).wf(),
            r.wf(),
            r.pending_spec() == 0,
            r.senders_spec() == 1,
            r.node_spec() == old(poll).nodes_view().len(),
            r.poll_id_spec() == old(poll).id_spec(),
            final(poll).nodes_view() == old(poll).nodes_view().push(crate::poll::fresh_node()),
            final(poll).queue_view() == old(poll).queue_view(),
            final(poll).id_spec() == old(poll).id_spec(),
    {
        let (registration, set_readiness) = Registration::new(poll);
        ChannelCtl { pending: 0, senders: 1, registration, set_readiness }
    }

    pub fn pending(&self) -> (r: usize)
        ensures
            r == self.pending_spec(),
    {
        self.pending
    }

    pub fn senders(&self) -> (r: usize)
        ensures
            r == self.senders_spec(),
    {
        self.senders
    }

    /// Counts a sent message; the first one makes the channel readable.
    pub fn inc(&mut self, poll: &mut Poll) -> (r: Result<(), PollError>)
        requires
            old(self).wf(),
            old(poll).wf(),
            old(self).pending_spec() < usize::MAX,
        ensures
            final(self).wf(),
            final(poll).wf(),
            final(self).pending_spec() == old(self).pending_spec() + 1,
            final(self).senders_spec() == old(self).senders_spec(),
            final(self).node_spec() == old(self).node_spec(),
            final(self).poll_id_spec() == old(self).poll_id_spec(),
            r is Err <==> old(self).pending_spec() == 0 && !old(poll).owns(old(self).node_spec(), old(self).poll_id_spec()),
            old(self).pending_spec() == 0 && r is Ok ==> old(poll).signaled_by(final(poll), old(self).node_spec(), READABLE),
            old(self).pending_spec() != 0 || r is Err ==> *final(poll) == *old(poll),
    {
        let cnt = self.pending;
        self.pending = cnt + 1;
        if cnt == 0 {
            self.set_readiness.set_readiness(poll, Ready::readable())?;
        }
        Ok(())
    }

    /// Counts a received message. When the last one goes, the readiness is
    /// cleared first, and set again if a message came in meanwhile.
    pub fn dec(&mut self, poll: &mut Poll) -> (r: Result<(), PollError>)
        requires
            old(self).wf(),
            old(poll).wf(),
            old(self).pending_spec() > 0,
        ensures
            final(self).wf(),
            final(poll).wf(),
            final(self).pending_spec() == old(self).pending_spec() - 1,
            final(self).senders_spec() == old(self).senders_spec(),
            final(self).node_spec() == old(self).node_spec(),
            final(self).poll_id_spec() == old(self).poll_id_spec(),
            r is Err <==> old(self).pending_spec() == 1 && !old(poll).owns(old(self).node_spec(), old(self).poll_id_spec()),
            old(self).pending_spec() == 1 && r is Ok ==> old(poll).signaled_by(final(poll), old(self).node_spec(), 0),
            old(self).pending_spec() != 1 || r is Err ==> *final(poll) == *old(poll),
    {
        let first = self.pending;
        let cleared = if first == 1 {
            self.set_readiness.set_readiness(poll, Ready::empty())
        } else {
            Ok(())
        };
        let second = self.pending;
        self.pending = second - 1;
        if first == 1 && second > 1 {
            self.set_readiness.set_readiness(poll, Ready::readable())?;
        }
        cleared
    }

    /// Counts one more sender.
    pub fn add_sender(&mut self)
        requires
            old(self).senders_spec() < usize::MAX,
        ensures
            final(self).senders_spec() == old(self).senders_spec() + 1,
            final(self).pending_spec() == old(self).pending_spec(),
            final(self).wf() == old(self).wf(),
            final(self).node_spec() == old(self).node_spec(),
            final(self).poll_id_spec() == old(self).poll_id_spec(),
    {
        self.senders = self.senders + 1;
    }

    /// Counts a sender gone. When the last one goes the channel counts one
    /// more pending entry, so that the receiver wakes and sees the
    /// disconnection.
    pub fn drop_sender(&mut self, poll: &mut Poll) -> (r: Result<(), PollError>)
        requires
            old(self).wf(),
            old(poll).wf(),
            old(self).senders_spec() > 0,
            old(self).pending_spec() < usize::MAX,
        ensures
            final(self).wf(),
            final(poll).wf(),
            final(self).senders_spec() == old(self).senders_spec() - 1,
            final(self).node_spec() == old(self).node_spec(),
            final(self).poll_id_spec() == old(self).poll_id_spec(),
            old(self).senders_spec() > 1 ==> final(self).pending_spec() == old(self).pending_spec()
                && *final(poll) == *old(poll) && r is Ok,
            old(self).senders_spec() == 1 ==> final(self).pending_spec() == old(self).pending_spec() + 1
                && (r is Err <==> old(self).pending_spec() == 0 && !old(poll).owns(old(self).node_spec(), old(self).poll_id_spec()))
                && (old(self).pending_spec() == 0 && r is Ok ==> old(poll).signaled_by(final(poll), old(self).node_spec(), READABLE))
                && (old(self).pending_spec() != 0 || r is Err ==> *final(poll) == *old(poll)),
    {
        let last = self.senders == 1;
        self.senders = self.senders - 1;
        if last {
            self.inc(poll)
        } else {
            Ok(())
        }
    }

    /// Registers the channel with `poll`; a channel with messages waiting is
    /// made readable at once.
    pub fn add(&self, poll: &mut Poll, token: Token, interest: Ready, opts: EpollOpt) -> (r: Result<
        (),
        PollError,
    >)
        requires
            self.wf(),
            old(poll).wf(),
            interest.bits() < 16,
            opts.bits() < 16,
        ensures
            final(poll).wf(),
            r == Err::<(), PollError>(PollError::InvalidToken) <==> token.0 == AWAKEN,
            r == Err::<(), PollError>(PollError::InvalidInterest) <==> token.0 != AWAKEN && !(
            interest.has(READABLE) || interest.has(WRITABLE)),
            r == Err::<(), PollError>(PollError::AlreadyAssociated) <==> args_valid(token, interest)
                && !old(poll).owns(self.node_spec(), self.poll_id_spec()),
            r is Err ==> *final(poll) == *old(poll),
            r is Ok && self.pending_spec() == 0 ==> old(poll).updated_by(final(poll), self.node_spec(), token, interest.bits(), opts.bits()),
            r is Ok && self.pending_spec() > 0 ==> exists|mid: Poll| old(poll).updated_by(&mid, self.node_spec(), token, interest.bits(), opts.bits())
                && mid.wf() && #[trigger] mid.signaled_by(final(poll), self.node_spec(), READABLE),
    {
        poll.register(&self.registration, token, interest, opts)?;
        if self.pending > 0 {
            let ghost mid = *poll;
            let _ = self.set_readiness.set_readiness(poll, Ready::readable());
            proof {
                assert(mid.signaled_by(poll, self.node_spec(), READABLE));
            }
        }
        Ok(())
    }

    /// Changes the token, interest or options of the channel's registration.
    pub fn modify(&self, poll: &mut Poll, token: Token, interest: Ready, opts: EpollOpt) -> (r:
        Result<(), PollError>)
        requires
            old(poll).wf(),
            interest.bits() < 16,
            opts.bits() < 16,
        ensures
            final(poll).wf(),
            r == Err::<(), PollError>(PollError::InvalidToken) <==> token.0 == AWAKEN,
            r == Err::<(), PollError>(PollError::InvalidInterest) <==> token.0 != AWAKEN && !(
            interest.has(READABLE) || interest.has(WRITABLE)),
            r == Err::<(), PollError>(PollError::AlreadyAssociated) <==> args_valid(token, interest)
                && !old(poll).owns(self.node_spec(), self.poll_id_spec()),
            r is Err ==> *final(poll) == *old(poll),
            r is Ok ==> old(poll).updated_by(final(poll), self.node_spec(), token, interest.bits(), opts.bits()),
    {
        poll.reregister(&self.registration, token, interest, opts)
    }

    /// Stops the channel's registration from reporting.
    pub fn delete(&self, poll: &mut Poll) -> (r: Result<(), PollError>)
        requires
            old(poll).wf(),
        ensures
            final(poll).wf(),
            r is Err <==> !old(poll).owns(self.node_spec(), self.poll_id_spec()),
            r is Err ==> *final(poll) == *old(poll),
            r is Ok ==> old(poll).updated_by(
                final(poll),
                self.node_spec(),
                crate::poll::token_at(old(poll).nodes_view()[self.node_spec() as int], old(poll).nodes_view()[self.node_spec() as int].state.write_pos),
                0,
                0,
            ),
    {
        poll.deregister(&self.registration)
    }
}

} // verus!
