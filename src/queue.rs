use vstd::prelude::*;

use concurrent_queue::ConcurrentQueue;

use crate::epoll_opt::EpollOpt;
use crate::poll::{args_valid, token_at, Poll, PollError, Registration, SetReadiness, AWAKEN};
use crate::ready::{Ready, READABLE, WRITABLE};
use crate::token::Token;

verus! {

#[verifier::external_type_specification]
#[verifier::external_body]
#[verifier::reject_recursive_types(T)]
pub struct ExConcurrentQueue<T>(ConcurrentQueue<T>);

/// The items a concurrent queue holds, front first.
pub uninterp spec fn cq_items(q: ConcurrentQueue<u64>) -> Seq<u64>;

/// The bound a concurrent queue was made with; none if it is unbounded.
pub uninterp spec fn cq_bound(q: ConcurrentQueue<u64>) -> Option<usize>;

/// Whether a concurrent queue has been closed.
pub uninterp spec fn cq_closed(q: ConcurrentQueue<u64>) -> bool;

/// Whether a concurrent queue holds as many items as its bound allows.
pub open spec fn cq_full(q: ConcurrentQueue<u64>) -> bool {
    match cq_bound(q) {
        Some(c) => cq_items(q).len() >= c,
        None => false,
    }
}

/// What a pop on an empty queue answers.
pub open spec fn empty_pop_error(closed: bool) -> PopError {
    if closed {
        PopError::Closed
    } else {
        PopError::Empty
    }
}

/// Why a push was refused; the item comes back.
#[derive(Copy, Clone, Debug, PartialEq, Eq, Structural)]
pub enum PushError {
    Full(u64),
    Closed(u64),
}

/// Why a pop found nothing.
#[derive(Copy, Clone, Debug, PartialEq, Eq, Structural)]
pub enum PopError {
    Empty,
    Closed,
}

/// Relies on `ConcurrentQueue::bounded`: an open, empty queue with room for
/// `cap` items; it panics when `cap` is zero.
#[verifier::external_body]
fn cq_new_bounded(cap: usize) -> (r: ConcurrentQueue<u64>)
    requires
        cap > 0,
    ensures
        cq_items(r) == Seq::<u64>::empty(),
        cq_bound(r) == Some(cap),
        !cq_closed(r),
{
    ConcurrentQueue::bounded(cap)
}

/// Relies on `ConcurrentQueue::unbounded`: an open, empty queue without a
/// bound.
#[verifier::external_body]
fn cq_new_unbounded() -> (r: ConcurrentQueue<u64>)
    ensures
        cq_items(r) == Seq::<u64>::empty(),
        cq_bound(r) == None::<usize>,
        !cq_closed(r),
{
    ConcurrentQueue::unbounded()
}

/// Relies on `ConcurrentQueue::push`: a closed queue refuses with `Closed`,
/// a full one with `Full`, and otherwise the item goes to the back.
#[verifier::external_body]
fn cq_push(q: &mut ConcurrentQueue<u64>, value: u64) -> (r: Result<(), PushError>)
    ensures
        cq_bound(*final(q)) == cq_bound(*old(q)),
        cq_closed(*final(q)) == cq_closed(*old(q)),
        cq_closed(*old(q)) ==> r is Err && r->Err_0 == PushError::Closed(value) && cq_items(
            *final(q),
        ) == cq_items(*old(q)),
        !cq_closed(*old(q)) && cq_full(*old(q)) ==> r is Err && r->Err_0 == PushError::Full(value) && cq_items(*final(q)) == cq_items(*old(q)),
        !cq_closed(*old(q)) && !cq_full(*old(q)) ==> r is Ok && cq_items(
            *final(q),
        ) == cq_items(*old(q)).push(value),
{
    match q.push(value) {
        Ok(()) => Ok(()),
        Err(concurrent_queue::PushError::Full(v)) => Err(PushError::Full(v)),
        Err(concurrent_queue::PushError::Closed(v)) => Err(PushError::Closed(v)),
    }
}

/// Relies on `ConcurrentQueue::pop`: the front item while there is one, even
/// once closed; then `Closed` or `Empty`.
#[verifier::external_body]
fn cq_pop(q: &mut ConcurrentQueue<u64>) -> (r: Result<u64, PopError>)
    ensures
        cq_bound(*final(q)) == cq_bound(*old(q)),
        cq_closed(*final(q)) == cq_closed(*old(q)),
        cq_items(*old(q)).len() > 0 ==> r is Ok && r->Ok_0 == cq_items(*old(q))[0] && cq_items(
            *final(q),
        ) == cq_items(*old(q)).drop_first(),
        cq_items(*old(q)).len() == 0 ==> cq_items(*final(q)) == cq_items(*old(q)) && r is Err && r->Err_0 == empty_pop_error(cq_closed(*old(q))),
{
    match q.pop() {
        Ok(v) => Ok(v),
        Err(concurrent_queue::PopError::Empty) => Err(PopError::Empty),
        Err(concurrent_queue::PopError::Closed) => Err(PopError::Closed),
    }
}

/// Relies on `ConcurrentQueue::len`: the number of items.
#[verifier::external_body]
fn cq_len(q: &ConcurrentQueue<u64>) -> (r: usize)
    ensures
        r == cq_items(*q).len(),
{
    q.len()
}

/// Relies on `ConcurrentQueue::is_empty`: whether it holds no item.
#[verifier::external_body]
fn cq_is_empty(q: &ConcurrentQueue<u64>) -> (r: bool)
    ensures
        r == (cq_items(*q).len() == 0),
{
    q.is_empty()
}

/// Relies on `ConcurrentQueue::is_full`: whether a bounded queue holds as
/// many items as its bound; an unbounded one never is.
#[verifier::external_body]
fn cq_is_full(q: &ConcurrentQueue<u64>) -> (r: bool)
    ensures
        r == cq_full(*q),
{
    q.is_full()
}

/// Relies on `ConcurrentQueue::capacity`: the bound, if any.
#[verifier::external_body]
fn cq_capacity(q: &ConcurrentQueue<u64>) -> (r: Option<usize>)
    ensures
        r == cq_bound(*q),
{
    q.capacity()
}

/// Relies on `ConcurrentQueue::close`: the queue is closed afterwards, and
/// the result says whether this call closed it.
#[verifier::external_body]
fn cq_close(q: &mut ConcurrentQueue<u64>) -> (r: bool)
    ensures
        cq_closed(*final(q)),
        r == !cq_closed(*old(q)),
        cq_items(*final(q)) == cq_items(*old(q)),
        cq_bound(*final(q)) == cq_bound(*old(q)),
{
    q.close()
}

/// Relies on `ConcurrentQueue::is_closed`: whether it has been closed.
#[verifier::external_body]
fn cq_is_closed(q: &ConcurrentQueue<u64>) -> (r: bool)
    ensures
        r == cq_closed(*q),
{
    q.is_closed()
}

/// A concurrent queue that a `Poll` can watch: readable while it holds
/// items. A pending counter follows the number of items; the readiness of
/// the queue's registration turns readable when it leaves zero and empty when
/// it comes back to zero.
pub struct Queue {
    queue: ConcurrentQueue<u64>,
    pending: usize,
    registration: Registration,
    waker: SetReadiness,
}

impl View for Queue {
    type V = Seq<u64>;

    closed spec fn view(&self) -> Seq<u64> {
        cq_items(self.queue)
    }
}

impl Queue {
    /// The counter matches the items, and both halves name one node.
    pub closed spec fn wf(&self) -> bool {
        &&& self.pending == cq_items(self.queue).len()
        &&& self.waker.node_spec() == self.registration.node_spec()
        &&& self.waker.poll_id_spec() == self.registration.poll_id_spec()
    }

    pub closed spec fn bound(&self) -> Option<usize> {
        cq_bound(self.queue)
    }

    pub closed spec fn closed(&self) -> bool {
        cq_closed(self.queue)
    }

    /// Whether the queue holds as many items as its bound allows.
    pub closed spec fn full(&self) -> bool {
        cq_full(self.queue)
    }

    pub closed spec fn node_spec(&self) -> usize {
        self.registration.node_spec()
    }

    pub closed spec fn poll_id_spec(&self) -> usize {
        self.registration.poll_id_spec()
    }

    fn with_queue(poll: &mut Poll, queue: ConcurrentQueue<u64>) -> (r: Queue)
        requires
            old(poll).wf(),
            cq_items(queue).len() == 0,
        ensures
            final(poll).wf(),
            r.wf(),
            r.queue == queue,
            r.node_spec() == old(poll).nodes_view().len(),
            r.poll_id_spec() == old(poll).id_spec(),
            final(poll).nodes_view() == old(poll).nodes_view().push(crate::poll::fresh_node()),
            final(poll).queue_view() == old(poll).queue_view(),
            final(poll).id_spec() == old(poll).id_spec(),
    {
        let (registration, waker) = Registration::new(poll);
        Queue { queue, pending: 0, registration, waker }
    }

    /// An empty, open queue with room for `cap` items.
    pub fn bounded(poll: &mut Poll, cap: usize) -> (r: Queue)
        requires
            old(poll).wf(),
            cap > 0,
        ensures
            final(poll).wf(),
            r.wf(),
            r@ == Seq::<u64>::empty(),
            r.bound() == Some(cap),
            !r.closed(),
            r.node_spec() == old(poll).nodes_view().len(),
            r.poll_id_spec() == old(poll).id_spec(),
            final(poll).nodes_view() == old(poll).nodes_view().push(crate::poll::fresh_node()),
            final(poll).queue_view() == old(poll).queue_view(),
            final(poll).id_spec() == old(poll).id_spec(),
    {
        let q = cq_new_bounded(cap);
        Queue::with_queue(poll, q)
    }

    /// An empty, open queue without a bound.
    pub fn unbounded(poll: &mut Poll) -> (r: Queue)
        requires
            old(poll).wf(),
        ensures
            final(poll).wf(),
            r.wf(),
            r@ == Seq::<u64>::empty(),
            r.bound() == None::<usize>,
            !r.closed(),
            r.node_spec() == old(poll).nodes_view().len(),
            r.poll_id_spec() == old(poll).id_spec(),
            final(poll).nodes_view() == old(poll).nodes_view().push(crate::poll::fresh_node()),
            final(poll).queue_view() == old(poll).queue_view(),
            final(poll).id_spec() == old(poll).id_spec(),
    {
        let q = cq_new_unbounded();
        Queue::with_queue(poll, q)
    }

    /// Appends `value`. A closed queue refuses it with `Closed`, a full one
    /// with `Full`. The first item of an empty queue sets the registration
    /// readable.
    pub fn push(&mut self, poll: &mut Poll, value: u64) -> (r: Result<(), PushError>)
        requires
            old(self).wf(),
            old(poll).wf(),
            old(self)@.len() < usize::MAX,
        ensures
            final(self).wf(),
            final(poll).wf(),
            final(self).node_spec() == old(self).node_spec(),
            final(self).poll_id_spec() == old(self).poll_id_spec(),
            final(self).bound() == old(self).bound(),
            final(self).closed() == old(self).closed(),
            old(self).closed() ==> r == Err::<(), PushError>(PushError::Closed(value)),
            !old(self).closed() && old(self).full() ==> r == Err::<(), PushError>(
                PushError::Full(value),
            ),
            r is Ok <==> !old(self).closed() && !old(self).full(),
            r is Ok ==> final(self)@ == old(self)@.push(value),
            r is Err ==> final(self)@ == old(self)@,
            r is Ok && old(self)@.len() == 0 && old(poll).owns(old(self).node_spec(), old(self).poll_id_spec())
                ==> old(poll).signaled_by(final(poll), old(self).node_spec(), READABLE),
            !(r is Ok && old(self)@.len() == 0 && old(poll).owns(old(self).node_spec(), old(self).poll_id_spec()))
                ==> *final(poll) == *old(poll),
    {
        let r = cq_push(&mut self.queue, value);
        if r.is_ok() {
            let cnt = self.pending;
            self.pending = cnt + 1;
            if cnt == 0 {
                let _ = self.waker.set_readiness(poll, Ready::readable());
            }
        }
        r
    }

    /// Takes the front item. Taking the last one clears the registration's
    /// readiness; an empty queue answers `Closed` once closed, else `Empty`.
    pub fn pop(&mut self, poll: &mut Poll) -> (r: Result<u64, PopError>)
        requires
            old(self).wf(),
            old(poll).wf(),
        ensures
            final(self).wf(),
            final(poll).wf(),
            final(self).node_spec() == old(self).node_spec(),
            final(self).poll_id_spec() == old(self).poll_id_spec(),
            final(self).bound() == old(self).bound(),
            final(self).closed() == old(self).closed(),
            old(self)@.len() > 0 ==> r == Ok::<u64, PopError>(old(self)@[0]) && final(self)@ == old(
                self,
            )@.drop_first(),
            old(self)@.len() == 0 ==> final(self)@ == old(self)@ && r == Err::<u64, PopError>(
                empty_pop_error(old(self).closed()),
            ),
            old(self)@.len() == 1 && old(poll).owns(old(self).node_spec(), old(self).poll_id_spec())
                ==> old(poll).signaled_by(final(poll), old(self).node_spec(), 0),
            !(old(self)@.len() == 1 && old(poll).owns(old(self).node_spec(), old(self).poll_id_spec()))
                ==> *final(poll) == *old(poll),
    {
        let r = cq_pop(&mut self.queue);
        if r.is_ok() {
            let first = self.pending;
            if first == 1 {
                let _ = self.waker.set_readiness(poll, Ready::empty());
            }
            let second = self.pending;
            self.pending = second - 1;
            if first == 1 && second > 1 {
                let _ = self.waker.set_readiness(poll, Ready::readable());
            }
        }
        r
    }

    /// How many items the counter says the queue holds.
    pub fn pending(&self) -> (r: usize)
        requires
            self.wf(),
        ensures
            r == self@.len(),
    {
        self.pending
    }

    pub fn is_empty(&self) -> (r: bool)
        ensures
            r == (self@.len() == 0),
    {
        cq_is_empty(&self.queue)
    }

    pub fn is_full(&self) -> (r: bool)
        ensures
            r == self.full(),
    {
        cq_is_full(&self.queue)
    }

    pub fn len(&self) -> (r: usize)
        ensures
            r == self@.len(),
    {
        cq_len(&self.queue)
    }

    pub fn capacity(&self) -> (r: Option<usize>)
        ensures
            r == self.bound(),
    {
        cq_capacity(&self.queue)
    }

    /// Closes the queue: pushes fail from now on, items already in it can
    /// still be taken. Returns whether this call closed it.
    pub fn close(&mut self) -> (r: bool)
        requires
            old(self).wf(),
        ensures
            final(self).wf(),
            final(self).closed(),
            r == !old(self).closed(),
            final(self)@ == old(self)@,
            final(self).bound() == old(self).bound(),
            final(self).node_spec() == old(self).node_spec(),
            final(self).poll_id_spec() == old(self).poll_id_spec(),
    {
        cq_close(&mut self.queue)
    }

    pub fn is_closed(&self) -> (r: bool)
        ensures
            r == self.closed(),
    {
        cq_is_closed(&self.queue)
    }

    /// Makes the queue readable whether or not it holds items.
    pub fn wake(&self, poll: &mut Poll) -> (r: Result<(), PollError>)
        requires
            self.wf(),
            old(poll).wf(),
        ensures
            final(poll).wf(),
            r is Err <==> !old(poll).owns(self.node_spec(), self.poll_id_spec()),
            r is Err ==> *final(poll) == *old(poll),
            r is Ok ==> old(poll).signaled_by(final(poll), self.node_spec(), READABLE),
    {
        self.waker.set_readiness(poll, Ready::readable())
    }

    /// Registers the queue with `poll`. A queue that already holds items is
    /// made readable at once, so that they are reported.
    pub fn add(&self, poll: &mut Poll, token: Token, interest: Ready, opts: EpollOpt) -> (r: Result<
        (),
        PollError,
    >)
        requires
            self.wf(),
            old(poll).wf(),
            interest.bits() < 16,
            opts.bits() < 16,
        ensures
            final(poll).wf(),
            r == Err::<(), PollError>(PollError::InvalidToken) <==> token.0 == AWAKEN,
            r == Err::<(), PollError>(PollError::InvalidInterest) <==> token.0 != AWAKEN && !(
            interest.has(READABLE) || interest.has(WRITABLE)),
            r == Err::<(), PollError>(PollError::AlreadyAssociated) <==> args_valid(token, interest)
                && !old(poll).owns(self.node_spec(), self.poll_id_spec()),
            r is Err ==> *final(poll) == *old(poll),
            r is Ok && self@.len() == 0 ==> old(poll).updated_by(final(poll), self.node_spec(), token, interest.bits(), opts.bits()),
            r is Ok && self@.len() > 0 ==> exists|mid: Poll| old(poll).updated_by(&mid, self.node_spec(), token, interest.bits(), opts.bits())
                && mid.wf() && #[trigger] mid.signaled_by(final(poll), self.node_spec(), READABLE),
    {
        poll.register(&self.registration, token, interest, opts)?;
        if self.pending > 0 {
            let ghost mid = *poll;
            let _ = self.waker.set_readiness(poll, Ready::readable());
            proof {
                assert(mid.signaled_by(poll, self.node_spec(), READABLE));
            }
        }
        Ok(())
    }

    /// Changes the token, interest or options of the queue's registration.
    pub fn modify(&self, poll: &mut Poll, token: Token, interest: Ready, opts: EpollOpt) -> (r:
        Result<(), PollError>)
        requires
            old(poll).wf(),
            interest.bits() < 16,
            opts.bits() < 16,
        ensures
            final(poll).wf(),
            r == Err::<(), PollError>(PollError::InvalidToken) <==> token.0 == AWAKEN,
            r == Err::<(), PollError>(PollError::InvalidInterest) <==> token.0 != AWAKEN && !(
            interest.has(READABLE) || interest.has(WRITABLE)),
            r == Err::<(), PollError>(PollError::AlreadyAssociated) <==> args_valid(token, interest)
                && !old(poll).owns(self.node_spec(), self.poll_id_spec()),
            r is Err ==> *final(poll) == *old(poll),
            r is Ok ==> old(poll).updated_by(final(poll), self.node_spec(), token, interest.bits(), opts.bits()),
    {
        poll.reregister(&self.registration, token, interest, opts)
    }

    /// Stops the queue's registration from reporting.
    pub fn delete(&self, poll: &mut Poll) -> (r: Result<(), PollError>)
        requires
            old(poll).wf(),
        ensures
            final(poll).wf(),
            r is Err <==> !old(poll).owns(self.node_spec(), self.poll_id_spec()),
            r is Err ==> *final(poll) == *old(poll),
            r is Ok ==> old(poll).updated_by(
                final(poll),
                self.node_spec(),
                token_at(old(poll).nodes_view()[self.node_spec() as int], old(poll).nodes_view()[self.node_spec() as int].state.write_pos),
                0,
                0,
            ),
    {
        poll.deregister(&self.registration)
    }
}

} // verus!
