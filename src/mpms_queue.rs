use vstd::prelude::*;

use crate::epoll_opt::EpollOpt;
use crate::poll::{Poll, PollError, Registration, SetReadiness};
use crate::ready::{Ready, READABLE};
use crate::token::Token;

verus! {

/// Whether `n` is a power of two.
pub open spec fn is_power_of_two(n: nat) -> bool
    decreases n,
{
    if n <= 1 {
        n == 1
    } else {
        n % 2 == 0 && is_power_of_two(n / 2)
    }
}

/// The value an occupied slot holds.
pub open spec fn item<T>(o: Option<T>) -> T {
    match o {
        Some(v) => v,
        None => arbitrary(),
    }
}

/// The contents of a ring of capacity `cap` that held `s`, after the items
/// of `xs` were pushed one by one: an item is kept while there is room, and
/// handed back otherwise.
pub open spec fn push_all<T>(s: Seq<T>, xs: Seq<T>, cap: nat) -> Seq<T>
    decreases xs.len(),
{
    if xs.len() == 0 {
        s
    } else {
        let before = push_all(s, xs.drop_last(), cap);
        if before.len() < cap {
            before.push(xs.last())
        } else {
            before
        }
    }
}

/// The items that `n` pops take from a ring that holds `s`, in order: each
/// pop takes the front item, while there is one.
pub open spec fn pops<T>(s: Seq<T>, n: nat) -> Seq<T>
    decreases n,
{
    if n == 0 || s.len() == 0 {
        Seq::<T>::empty()
    } else {
        seq![s[0]] + pops(s.drop_first(), (n - 1) as nat)
    }
}

proof fn lemma_pops_all<T>(s: Seq<T>)
    ensures
        pops(s, s.len()) == s,
    decreases s.len(),
{
    if s.len() > 0 {
        lemma_pops_all(s.drop_first());
        assert(seq![s[0]] + s.drop_first() =~= s);
    }
}

/// The ring is first-in first-out and bounded: pushing `capacity` items into
/// an empty ring keeps them all, in order, so that popping them gives them
/// back in the order they were pushed; one more push is handed back and
/// changes nothing.
pub proof fn fifo_round_trip<T>(xs: Seq<T>, extra: T, cap: nat)
    requires
        xs.len() == cap,
    ensures
        push_all(Seq::<T>::empty(), xs, cap) == xs,
        pops(push_all(Seq::<T>::empty(), xs, cap), cap) == xs,
        push_all(Seq::<T>::empty(), xs.push(extra), cap) == xs,
{
    lemma_push_all_fits(xs, cap);
    lemma_pops_all(xs);
    assert(xs.push(extra).drop_last() =~= xs);
}

proof fn lemma_push_one<T>(s: Seq<T>, v: T, cap: nat)
    ensures
        push_all(s, seq![v], cap) == if s.len() < cap {
            s.push(v)
        } else {
            s
        },
{
    assert(seq![v].drop_last() =~= Seq::<T>::empty());
    assert(push_all(s, Seq::<T>::empty(), cap) == s);
}

proof fn lemma_push_all_fits<T>(xs: Seq<T>, cap: nat)
    requires
        xs.len() <= cap,
    ensures
        push_all(Seq::<T>::empty(), xs, cap) == xs,
    decreases xs.len(),
{
    if xs.len() > 0 {
        lemma_push_all_fits(xs.drop_last(), cap);
        assert(xs.drop_last().push(xs.last()) =~= xs);
    }
}

/// One cell of the ring: its sequence number tells producers and consumers
/// whose turn it is.
pub struct Slot<T> {
    sequence: usize,
    value: Option<T>,
}

/// A bounded first-in first-out ring of slots with sequence numbers. The
/// capacity is a power of two; slot `pos % capacity` serves position `pos`.
///
/// A slot that waits for the producer of position `p` has sequence `p`; once
/// filled it has sequence `p + 1`, and once emptied `p + capacity`, the
/// position it serves on the next lap.
pub struct State<T> {
    buffer: Vec<Slot<T>>,
    mask: usize,
    enqueue_pos: usize,
    dequeue_pos: usize,
}

/// Distinct positions in a window of `cap` positions use distinct slots.
proof fn lemma_window_distinct(a: int, b: int, d: int, cap: int)
    requires
        cap > 0,
        d <= a < d + cap,
        d <= b < d + cap,
        a != b,
    ensures
        a % cap != b % cap,
{
    vstd::arithmetic::div_mod::lemma_fundamental_div_mod(a, cap);
    vstd::arithmetic::div_mod::lemma_fundamental_div_mod(b, cap);
    let qa = a / cap;
    let qb = b / cap;
    if a % cap == b % cap {
        assert(a - b == cap * (qa - qb)) by (nonlinear_arith)
            requires
                a == cap * qa + a % cap,
                b == cap * qb + b % cap,
                a % cap == b % cap,
        ;
        assert(false) by (nonlinear_arith)
            requires
                a - b == cap * (qa - qb),
                -cap < a - b < cap,
                a != b,
                cap > 0,
        ;
    }
}

proof fn lemma_mod_lap(d: int, cap: int)
    requires
        cap > 0,
    ensures
        (d + cap) % cap == d % cap,
{
    vstd::arithmetic::div_mod::lemma_mod_add_multiples_vanish(d, cap);
}

impl<T> View for State<T> {
    type V = Seq<T>;

    closed spec fn view(&self) -> Seq<T> {
        Seq::new(
            (self.enqueue_pos - self.dequeue_pos) as nat,
            |i: int| item(self.slot(self.dequeue_pos + i).value),
        )
    }
}

impl<T> State<T> {
    /// The slot that serves position `p`.
    pub closed spec fn slot(&self, p: int) -> Slot<T> {
        self.buffer@[p % (self.buffer@.len() as int)]
    }

    /// How many items the ring holds at most.
    pub closed spec fn capacity_spec(&self) -> nat {
        self.buffer@.len()
    }

    /// Whether the positions are used up: the ring has served so many items
    /// that the next position would no longer fit in a word.
    pub closed spec fn exhausted(&self) -> bool {
        self.enqueue_pos + self.buffer@.len() + 1 > usize::MAX
    }

    /// The slots of the positions from the consumer's to the producer's are
    /// filled, the others wait for their producer.
    pub closed spec fn wf(&self) -> bool {
        let cap = self.buffer@.len() as int;
        let d = self.dequeue_pos as int;
        let e = self.enqueue_pos as int;
        &&& cap >= 2
        &&& is_power_of_two(cap as nat)
        &&& self.mask == cap - 1
        &&& d <= e <= d + cap
        &&& e + cap <= usize::MAX
        &&& forall|p: int|
            d <= p < e ==> (#[trigger] self.slot(p)).sequence == p + 1 && self.slot(p).value is Some
        &&& forall|p: int|
            e <= p < d + cap ==> (#[trigger] self.slot(p)).sequence == p && self.slot(p).value is None
    }

    /// An empty ring whose capacity is the least power of two that is at
    /// least `capacity` and at least 2.
    pub fn with_capacity(capacity: usize) -> (r: State<T>)
        requires
            capacity <= usize::MAX / 4,
        ensures
            r.wf(),
            r@ == Seq::<T>::empty(),
            !r.exhausted(),
            is_power_of_two(r.capacity_spec()),
            r.capacity_spec() >= capacity,
            r.capacity_spec() >= 2,
            r.capacity_spec() == 2 || r.capacity_spec() < 2 * capacity,
    {
        let mut cap: usize = 2;
        proof {
            assert(is_power_of_two(1));
            assert(is_power_of_two(2));
        }
        while cap < capacity
            invariant
                2 <= cap,
                is_power_of_two(cap as nat),
                cap == 2 || cap < 2 * capacity,
                capacity <= usize::MAX / 4,
            decreases usize::MAX - cap,
        {
            proof {
                assert((2 * cap) as nat / 2 == cap as nat);
                assert(((2 * cap) as nat) % 2 == 0);
            }
            cap = cap * 2;
        }
        let mut buffer: Vec<Slot<T>> = Vec::new();
        let mut i: usize = 0;
        while i < cap
            invariant
                i <= cap,
                buffer@.len() == i,
                forall|j: int| 0 <= j < i ==> #[trigger] buffer@[j].sequence == j && buffer@[j].value is None,
            decreases cap - i,
        {
            buffer.push(Slot { sequence: i, value: None });
            i = i + 1;
        }
        let r = State { buffer, mask: cap - 1, enqueue_pos: 0, dequeue_pos: 0 };
        proof {
            assert forall|p: int| 0 <= p < 0 + cap implies (#[trigger] r.slot(p)).sequence == p
                && r.slot(p).value is None by {
                vstd::arithmetic::div_mod::lemma_small_mod(p as nat, cap as nat);
            }
            assert(r@ =~= Seq::<T>::empty());
        }
        r
    }

    pub fn capacity(&self) -> (r: usize)
        requires
            self.wf(),
        ensures
            r == self.capacity_spec(),
    {
        self.mask + 1
    }

    /// Appends `value`, or hands it back when the ring is full (or its
    /// positions are used up).
    pub fn push(&mut self, value: T) -> (r: Result<(), T>)
        requires
            old(self).wf(),
        ensures
            final(self).wf(),
            final(self).capacity_spec() == old(self).capacity_spec(),
            r is Ok <==> old(self)@.len() < old(self).capacity_spec() && !old(self).exhausted(),
            r is Ok ==> final(self)@ == old(self)@.push(value),
            r matches Err(v) ==> v == value && final(self)@ == old(self)@,
            final(self).exhausted() ==> old(self).exhausted() || r is Ok,
            !old(self).exhausted() ==> final(self)@ == push_all(old(self)@, seq![value], old(self).capacity_spec()),
    {
        proof {
            lemma_push_one(self@, value, self.capacity_spec());
        }
        let mask = self.mask;
        let pos = self.enqueue_pos;
        let cap = mask + 1;
        let idx = pos % cap;
        let ghost d = self.dequeue_pos as int;
        let ghost c = self.buffer@.len() as int;
        let seq = self.buffer[idx].sequence;
        if pos > usize::MAX - cap - 1 {
            return Err(value);
        }
        proof {
            assert(self.buffer@[idx as int] == self.slot(pos as int));
        }
        if seq == pos {
            let ghost before = *self;
            proof {
                if pos as int == d + c {
                    lemma_mod_lap(d, c);
                    assert(self.slot(d).sequence == d + 1);
                }
            }
            self.buffer.set(idx, Slot { sequence: pos + 1, value: Some(value) });
            self.enqueue_pos = pos + 1;
            proof {
                let e = pos as int;
                assert forall|p: int| d <= p < e + 1 implies (#[trigger] self.slot(p)).sequence == p + 1
                    && self.slot(p).value is Some by {
                    if p != e {
                        lemma_window_distinct(p, e, d, c);
                        assert(before.slot(p).sequence == p + 1);
                    }
                }
                assert forall|p: int| e + 1 <= p < d + c implies (#[trigger] self.slot(p)).sequence == p
                    && self.slot(p).value is None by {
                    lemma_window_distinct(p, e, d, c);
                    assert(before.slot(p).sequence == p);
                }
                assert forall|i: int| 0 <= i < before@.len() implies self@[i] == before@[i] by {
                    lemma_window_distinct(d + i, e, d, c);
                }
                assert(self@ =~= before@.push(value));
            }
            Ok(())
        } else {
            proof {
                if (pos as int) < d + c {
                    assert(self.slot(pos as int).sequence == pos);
                } else {
                    lemma_mod_lap(d, c);
                    assert(self.slot(d).sequence == d + 1);
                }
            }
            Err(value)
        }
    }

    /// Takes the oldest item, if there is one.
    pub fn pop(&mut self) -> (r: Option<T>)
        requires
            old(self).wf(),
        ensures
            final(self).wf(),
            final(self).capacity_spec() == old(self).capacity_spec(),
            old(self)@.len() == 0 ==> r is None && final(self)@ == old(self)@,
            old(self)@.len() > 0 ==> r == Some(old(self)@[0]) && final(self)@ == old(self)@.drop_first(),
            final(self).exhausted() == old(self).exhausted(),
    {
        let mask = self.mask;
        let pos = self.dequeue_pos;
        let cap = mask + 1;
        let idx = pos % cap;
        let ghost e = self.enqueue_pos as int;
        let ghost c = self.buffer@.len() as int;
        let ghost d = pos as int;
        let seq = self.buffer[idx].sequence;
        proof {
            assert(self.buffer@[idx as int] == self.slot(d));
        }
        if seq == pos + 1 {
            let ghost before = *self;
            proof {
                if d == e {
                    assert(self.slot(d).sequence == d);
                }
            }
            let mut slot = Slot { sequence: pos + cap, value: None };
            std::mem::swap(&mut self.buffer[idx], &mut slot);
            self.dequeue_pos = pos + 1;
            proof {
                assert forall|p: int| d + 1 <= p < e implies (#[trigger] self.slot(p)).sequence == p + 1
                    && self.slot(p).value is Some by {
                    lemma_window_distinct(p, d, d, c);
                    assert(before.slot(p).sequence == p + 1);
                }
                assert forall|p: int| e <= p < d + 1 + c implies (#[trigger] self.slot(p)).sequence == p
                    && self.slot(p).value is None by {
                    if p == d + c {
                        lemma_mod_lap(d, c);
                    } else {
                        lemma_window_distinct(p, d, d, c);
                        assert(before.slot(p).sequence == p);
                    }
                }
                assert forall|i: int| 0 <= i < self@.len() implies self@[i] == before@[i + 1] by {
                    lemma_window_distinct(d + 1 + i, d, d, c);
                }
                assert(self@ =~= before@.drop_first());
            }
            match slot.value {
                Some(v) => Some(v),
                None => {
                    proof {
                        assert(before.slot(d).value is Some);
                    }
                    None
                },
            }
        } else {
            proof {
                if d < e {
                    assert(self.slot(d).sequence == d + 1);
                }
                assert(self@ =~= Seq::<T>::empty());
            }
            None
        }
    }
}

/// A ring that a `Poll` can watch: it is readable while it holds items.
///
/// A pending counter follows the number of items; the readiness of the
/// queue's registration turns readable when the counter leaves zero and
/// empty when it comes back to zero.
pub struct Queue<T> {
    state: State<T>,
    pending: usize,
    registration: Registration,
    set_readiness: SetReadiness,
}

impl<T> View for Queue<T> {
    type V = Seq<T>;

    closed spec fn view(&self) -> Seq<T> {
        self.state@
    }
}

impl<T> Queue<T> {
    /// The ring is well formed and the counter matches its length.
    pub closed spec fn wf(&self) -> bool {
        &&& self.state.wf()
        &&& self.pending == self.state@.len()
        &&& self.set_readiness.node_spec() == self.registration.node_spec()
        &&& self.set_readiness.poll_id_spec() == self.registration.poll_id_spec()
    }

    pub closed spec fn capacity_spec(&self) -> nat {
        self.state.capacity_spec()
    }

    pub closed spec fn exhausted(&self) -> bool {
        self.state.exhausted()
    }

    /// The id of the queue's registration node.
    pub closed spec fn node_spec(&self) -> usize {
        self.registration.node_spec()
    }

    /// The poll the queue's registration node lives in.
    pub closed spec fn poll_id_spec(&self) -> usize {
        self.registration.poll_id_spec()
    }

    /// An empty queue with room for at least `capacity` items, whose
    /// registration node is created in `poll`.
    pub fn with_capacity(poll: &mut Poll, capacity: usize) -> (r: Queue<T>)
        requires
            old(poll).wf(),
            capacity <= usize::MAX / 4,
        ensures
            final(poll).wf(),
            r.wf(),
            r@ == Seq::<T>::empty(),
            !r.exhausted(),
            is_power_of_two(r.capacity_spec()),
            r.capacity_spec() >= capacity,
            r.capacity_spec() >= 2,
            r.capacity_spec() == 2 || r.capacity_spec() < 2 * capacity,
            r.node_spec() == old(poll).nodes_view().len(),
            r.poll_id_spec() == old(poll).id_spec(),
            final(poll).nodes_view() == old(poll).nodes_view().push(crate::poll::fresh_node()),
            final(poll).queue_view() == old(poll).queue_view(),
            final(poll).id_spec() == old(poll).id_spec(),
    {
        let (registration, set_readiness) = Registration::new(poll);
        Queue { state: State::with_capacity(capacity), pending: 0, registration, set_readiness }
    }

    /// Counts one more item; the first one makes the queue readable.
    fn inc(&mut self, poll: &mut Poll)
        requires
            old(poll).wf(),
            old(self).pending < usize::MAX,
            old(self).set_readiness.node_spec() == old(self).registration.node_spec(),
            old(self).set_readiness.poll_id_spec() == old(self).registration.poll_id_spec(),
        ensures
            final(poll).wf(),
            final(self).pending == old(self).pending + 1,
            final(self).state == old(self).state,
            final(self).registration == old(self).registration,
            final(self).set_readiness == old(self).set_readiness,
            old(self).pending == 0 && old(poll).owns(old(self).node_spec(), old(self).poll_id_spec())
                ==> old(poll).signaled_by(final(poll), old(self).node_spec(), READABLE),
            !(old(self).pending == 0 && old(poll).owns(old(self).node_spec(), old(self).poll_id_spec()))
                ==> *final(poll) == *old(poll),
    {
        let cnt = self.pending;
        self.pending = cnt + 1;
        if cnt == 0 {
            let _ = self.set_readiness.set_readiness(poll, Ready::readable());
        }
    }

    /// Counts one item less. When the last one goes, the readiness is
    /// cleared first, and set again if an item came in meanwhile.
    fn dec(&mut self, poll: &mut Poll)
        requires
            old(poll).wf(),
            old(self).pending > 0,
            old(self).set_readiness.node_spec() == old(self).registration.node_spec(),
            old(self).set_readiness.poll_id_spec() == old(self).registration.poll_id_spec(),
        ensures
            final(poll).wf(),
            final(self).pending == old(self).pending - 1,
            final(self).state == old(self).state,
            final(self).registration == old(self).registration,
            final(self).set_readiness == old(self).set_readiness,
            old(self).pending == 1 && old(poll).owns(old(self).node_spec(), old(self).poll_id_spec())
                ==> old(poll).signaled_by(final(poll), old(self).node_spec(), 0),
            !(old(self).pending == 1 && old(poll).owns(old(self).node_spec(), old(self).poll_id_spec()))
                ==> *final(poll) == *old(poll),
    {
        let first = self.pending;
        if first == 1 {
            let _ = self.set_readiness.set_readiness(poll, Ready::empty());
        }
        let second = self.pending;
        self.pending = second - 1;
        if first == 1 && second > 1 {
            let _ = self.set_readiness.set_readiness(poll, Ready::readable());
        }
    }

    /// Appends `value`, or hands it back when the queue is full. The first
    /// item of an empty queue sets the registration readable.
    pub fn push(&mut self, poll: &mut Poll, value: T) -> (r: Result<(), T>)
        requires
            old(self).wf(),
            old(poll).wf(),
        ensures
            final(self).wf(),
            final(poll).wf(),
            final(self).node_spec() == old(self).node_spec(),
            final(self).poll_id_spec() == old(self).poll_id_spec(),
            final(self).capacity_spec() == old(self).capacity_spec(),
            r is Ok <==> old(self)@.len() < old(self).capacity_spec() && !old(self).exhausted(),
            r is Ok ==> final(self)@ == old(self)@.push(value),
            r matches Err(v) ==> v == value && final(self)@ == old(self)@,
            r is Ok && old(self)@.len() == 0 && old(poll).owns(old(self).node_spec(), old(self).poll_id_spec())
                ==> old(poll).signaled_by(final(poll), old(self).node_spec(), READABLE),
            !(r is Ok && old(self)@.len() == 0 && old(poll).owns(old(self).node_spec(), old(self).poll_id_spec()))
                ==> *final(poll) == *old(poll),
    {
        match self.state.push(value) {
            Ok(()) => {
                self.inc(poll);
                Ok(())
            },
            Err(v) => Err(v),
        }
    }

    /// Takes the oldest item, if any. Taking the last one clears the
    /// registration's readiness.
    pub fn pop(&mut self, poll: &mut Poll) -> (r: Option<T>)
        requires
            old(self).wf(),
            old(poll).wf(),
        ensures
            final(self).wf(),
            final(poll).wf(),
            final(self).node_spec() == old(self).node_spec(),
            final(self).poll_id_spec() == old(self).poll_id_spec(),
            final(self).capacity_spec() == old(self).capacity_spec(),
            old(self)@.len() == 0 ==> r is None && final(self)@ == old(self)@,
            old(self)@.len() > 0 ==> r == Some(old(self)@[0]) && final(self)@ == old(self)@.drop_first(),
            old(self)@.len() == 1 && old(poll).owns(old(self).node_spec(), old(self).poll_id_spec())
                ==> old(poll).signaled_by(final(poll), old(self).node_spec(), 0),
            !(old(self)@.len() == 1 && old(poll).owns(old(self).node_spec(), old(self).poll_id_spec()))
                ==> *final(poll) == *old(poll),
    {
        match self.state.pop() {
            Some(v) => {
                self.dec(poll);
                Some(v)
            },
            None => None,
        }
    }

    /// How many items the queue holds, by its counter.
    pub fn pending(&self) -> (r: usize)
        requires
            self.wf(),
        ensures
            r == self@.len(),
    {
        self.pending
    }

    /// Registers the queue with `poll`. A queue that already holds items is
    /// made readable at once, so that they are reported.
    pub fn register(&self, poll: &mut Poll, token: Token, interest: Ready, opts: EpollOpt) -> (r:
        Result<(), PollError>)
        requires
            self.wf(),
            old(poll).wf(),
            interest.bits() < 16,
            opts.bits() < 16,
        ensures
            final(poll).wf(),
            r == Err::<(), PollError>(PollError::InvalidToken) <==> token.0 == crate::poll::AWAKEN,
            r == Err::<(), PollError>(PollError::InvalidInterest) <==> token.0 != crate::poll::AWAKEN
                && !(interest.has(READABLE) || interest.has(crate::ready::WRITABLE)),
            r == Err::<(), PollError>(PollError::AlreadyAssociated) <==> crate::poll::args_valid(token, interest)
                && !old(poll).owns(self.node_spec(), self.poll_id_spec()),
            r is Err ==> *final(poll) == *old(poll),
            r is Ok && self@.len() == 0 ==> old(poll).updated_by(final(poll), self.node_spec(), token, interest.bits(), opts.bits()),
            r is Ok && self@.len() > 0 ==> exists|mid: Poll| old(poll).updated_by(&mid, self.node_spec(), token, interest.bits(), opts.bits())
                && mid.wf() && #[trigger] mid.signaled_by(final(poll), self.node_spec(), READABLE),
    {
        poll.register(&self.registration, token, interest, opts)?;
        if self.pending > 0 {
            let ghost mid = *poll;
            let _ = self.set_readiness.set_readiness(poll, Ready::readable());
            proof {
                assert(mid.signaled_by(poll, self.node_spec(), READABLE));
            }
        }
        Ok(())
    }

    /// Changes the token, interest or options of the queue's registration.
    pub fn reregister(&self, poll: &mut Poll, token: Token, interest: Ready, opts: EpollOpt) -> (r:
        Result<(), PollError>)
        requires
            old(poll).wf(),
            interest.bits() < 16,
            opts.bits() < 16,
        ensures
            final(poll).wf(),
            r == Err::<(), PollError>(PollError::InvalidToken) <==> token.0 == crate::poll::AWAKEN,
            r == Err::<(), PollError>(PollError::InvalidInterest) <==> token.0 != crate::poll::AWAKEN
                && !(interest.has(READABLE) || interest.has(crate::ready::WRITABLE)),
            r == Err::<(), PollError>(PollError::AlreadyAssociated) <==> crate::poll::args_valid(token, interest)
                && !old(poll).owns(self.node_spec(), self.poll_id_spec()),
            r is Err ==> *final(poll) == *old(poll),
            r is Ok ==> old(poll).updated_by(final(poll), self.node_spec(), token, interest.bits(), opts.bits()),
    {
        poll.reregister(&self.registration, token, interest, opts)
    }

    /// Stops the queue's registration from reporting.
    pub fn deregister(&self, poll: &mut Poll) -> (r: Result<(), PollError>)
        requires
            old(poll).wf(),
        ensures
            final(poll).wf(),
            r is Err <==> !old(poll).owns(self.node_spec(), self.poll_id_spec()),
            r is Err ==> *final(poll) == *old(poll),
            r is Ok ==> old(poll).updated_by(
                final(poll),
                self.node_spec(),
                crate::poll::token_at(old(poll).nodes_view()[self.node_spec() as int], old(poll).nodes_view()[self.node_spec() as int].state.write_pos),
                0,
                0,
            ),
    {
        poll.deregister(&self.registration)
    }
}

} // verus!
