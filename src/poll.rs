use vstd::prelude::*;

use crate::epoll_opt::{EpollOpt, EDGE, ONESHOT};
use crate::event::{Event, Events};
use crate::readiness_queue::{Dequeue, ReadinessQueue};
use crate::ready::{Ready, READABLE, WRITABLE};
use crate::state::{next_slot, ReadinessState, StateView};
use crate::token::Token;

verus! {

/// The token reserved for the poll's own wakeups; callers may not use it.
pub const AWAKEN: usize = usize::MAX;

/// Why a registration call was refused. Nothing changes when one is returned.
#[derive(Copy, Clone, Debug, PartialEq, Eq, Structural)]
pub enum PollError {
    /// The reserved token was given.
    InvalidToken,
    /// The interest holds neither readable nor writable.
    InvalidInterest,
    /// The handle belongs to another `Poll`.
    AlreadyAssociated,
}

/// A registration node as plain values.
pub struct NodeView {
    pub state: StateView,
    pub token0: Token,
    pub token1: Token,
    pub token2: Token,
    pub bound: bool,
    pub ref_count: usize,
}

/// The token in slot `pos` of a node.
pub open spec fn token_at(n: NodeView, pos: usize) -> Token {
    if pos == 0 {
        n.token0
    } else if pos == 1 {
        n.token1
    } else {
        n.token2
    }
}

/// The readiness of a node that its interest selects.
pub open spec fn effective(s: StateView) -> usize {
    s.readiness & s.interest
}

/// A node after the poll thread has taken its readiness: edge-triggered nodes
/// leave the queue (and oneshot ones are disarmed once they report), other
/// nodes leave it only when they have nothing to report.
pub open spec fn processed(n: NodeView) -> NodeView {
    let s = n.state;
    let eff = effective(s);
    let edge = s.options & EDGE == EDGE;
    let oneshot = s.options & ONESHOT == ONESHOT;
    NodeView {
        state: StateView {
            queued: if edge {
                false
            } else {
                s.queued && eff != 0
            },
            interest: if edge && oneshot && eff != 0 {
                0
            } else {
                s.interest
            },
            read_pos: s.write_pos,
            ..s
        },
        ..n
    }
}

/// A node after the poll thread has let go of a dropped node.
pub open spec fn released(n: NodeView) -> NodeView {
    NodeView { ref_count: if n.ref_count > 0 { (n.ref_count - 1) as usize } else { 0 }, ..n }
}

/// What draining the readiness queue does: up to `k` nodes are taken from the
/// front, while the events hold fewer than `cap` entries. Each node reports
/// its effective readiness with its latest token, if that readiness is not
/// empty, and goes back to the queue if it stays queued.
pub open spec fn drain_model(
    nodes: Seq<NodeView>,
    q: Seq<usize>,
    k: nat,
    evs: Seq<(usize, Token)>,
    cap: nat,
) -> (Seq<NodeView>, Seq<usize>, Seq<(usize, Token)>)
    decreases k,
{
    if k == 0 || q.len() == 0 || evs.len() >= cap {
        (nodes, q, evs)
    } else {
        let id = q[0];
        let n = nodes[id as int];
        let rest = q.drop_first();
        if n.state.dropped {
            drain_model(nodes.update(id as int, released(n)), rest, (k - 1) as nat, evs, cap)
        } else {
            let m = processed(n);
            let eff = effective(n.state);
            let q2 = if m.state.queued {
                rest.push(id)
            } else {
                rest
            };
            let e2 = if eff != 0 {
                evs.push((eff, token_at(n, n.state.write_pos)))
            } else {
                evs
            };
            drain_model(nodes.update(id as int, m), q2, (k - 1) as nat, e2, cap)
        }
    }
}

/// A node after `set_readiness(ready)`: it is flagged queued if the new
/// readiness meets its interest.
pub open spec fn signaled(n: NodeView, ready: usize) -> NodeView {
    NodeView {
        state: StateView {
            readiness: ready,
            queued: n.state.queued || ready & n.state.interest != 0,
            ..n.state
        },
        ..n
    }
}

/// A node after an update to `token`, `interest` and `opts`: a changed token
/// is written to the free slot and published; the node is bound to the poll,
/// which then holds a reference to it.
pub open spec fn updated(n: NodeView, token: Token, interest: usize, opts: usize) -> NodeView {
    let s = n.state;
    let changed = token != token_at(n, s.write_pos);
    let pos = next_slot(s.read_pos, s.write_pos);
    NodeView {
        state: StateView {
            interest: interest,
            options: opts,
            write_pos: if changed {
                pos
            } else {
                s.write_pos
            },
            queued: s.queued || s.readiness & interest != 0,
            ..s
        },
        token0: if changed && pos == 0 {
            token
        } else {
            n.token0
        },
        token1: if changed && pos == 1 {
            token
        } else {
            n.token1
        },
        token2: if changed && pos == 2 {
            token
        } else {
            n.token2
        },
        bound: true,
        ref_count: if n.bound {
            n.ref_count
        } else {
            (n.ref_count + 1) as usize
        },
    }
}

/// A node once its `Registration` is dropped.
pub open spec fn dropped(n: NodeView) -> NodeView {
    NodeView {
        state: StateView { queued: true, dropped: true, ..n.state },
        ref_count: if n.ref_count > 0 {
            (n.ref_count - 1) as usize
        } else {
            0
        },
        ..n
    }
}

/// A fresh, unbound node: no readiness, no interest, two references.
pub open spec fn fresh_node() -> NodeView {
    NodeView {
        state: StateView {
            readiness: 0,
            interest: 0,
            options: 0,
            read_pos: 0,
            write_pos: 0,
            queued: false,
            dropped: false,
        },
        token0: Token(0),
        token1: Token(0),
        token2: Token(0),
        bound: false,
        ref_count: 2,
    }
}

/// Whether `token` and `interest` may be registered.
pub open spec fn args_valid(token: Token, interest: Ready) -> bool {
    token.0 != AWAKEN && (interest.has(READABLE) || interest.has(WRITABLE))
}

/// The selector's events that a cycle reports: those not of the reserved
/// token, in order, as many as `cap` allows.
pub open spec fn kernel_events(sel: Seq<Event>, cap: nat) -> Seq<Event>
    decreases sel.len(),
{
    if sel.len() == 0 {
        Seq::<Event>::empty()
    } else {
        let prev = kernel_events(sel.drop_last(), cap);
        if sel.last().token_spec().0 != AWAKEN && prev.len() < cap {
            prev.push(sel.last())
        } else {
            prev
        }
    }
}

/// The events as pairs of readiness bits and token.
pub open spec fn event_pairs(s: Seq<Event>) -> Seq<(usize, Token)> {
    s.map_values(|e: Event| (e.kind_spec().bits(), e.token_spec()))
}

proof fn lemma_push_unique(s: Seq<usize>, x: usize)
    requires
        s.no_duplicates(),
        !s.contains(x),
    ensures
        s.push(x).no_duplicates(),
{
    let t = s.push(x);
    assert forall|i: int, j: int| 0 <= i < t.len() && 0 <= j < t.len() && i != j implies t[i]
        != t[j] by {
        if i < s.len() && j < s.len() {
            assert(t[i] == s[i] && t[j] == s[j]);
        } else if i < s.len() {
            assert(t[i] == s[i]);
        } else if j < s.len() {
            assert(t[j] == s[j]);
        }
    }
}

/// The state shared by a `Registration` and its `SetReadiness`.
#[derive(Copy, Clone)]
pub struct ReadinessNode {
    state: ReadinessState,
    token0: Token,
    token1: Token,
    token2: Token,
    bound: bool,
    ref_count: usize,
}

impl View for ReadinessNode {
    type V = NodeView;

    closed spec fn view(&self) -> NodeView {
        NodeView {
            state: self.state@,
            token0: self.token0,
            token1: self.token1,
            token2: self.token2,
            bound: self.bound,
            ref_count: self.ref_count,
        }
    }
}

impl ReadinessNode {
    fn token(&self, pos: usize) -> (r: Token)
        ensures
            r == token_at(self@, pos),
    {
        if pos == 0 {
            self.token0
        } else if pos == 1 {
            self.token1
        } else {
            self.token2
        }
    }
}

/// The multiplexer's user-space half: the registration nodes, the readiness
/// queue that links those with readiness to report, and the wakeup signal
/// that tells a blocked poll thread to return.
pub struct Poll {
    id: usize,
    nodes: Vec<ReadinessNode>,
    queue: ReadinessQueue,
    wakeup: bool,
}

/// Half of a registration: the side that a `Poll` registers.
pub struct Registration {
    node: usize,
    poll_id: usize,
}

/// Half of a registration: the side that sets readiness, from any producer.
#[derive(Copy, Clone)]
pub struct SetReadiness {
    node: usize,
    poll_id: usize,
}

impl Registration {
    pub closed spec fn node_spec(&self) -> usize {
        self.node
    }

    pub closed spec fn poll_id_spec(&self) -> usize {
        self.poll_id
    }
}

impl SetReadiness {
    pub closed spec fn node_spec(&self) -> usize {
        self.node
    }

    pub closed spec fn poll_id_spec(&self) -> usize {
        self.poll_id
    }
}

/// Refuses the reserved token, and an interest with neither readable nor
/// writable.
pub fn validate_args(token: Token, interest: Ready) -> (r: Result<(), PollError>)
    ensures
        r == Err::<(), PollError>(PollError::InvalidToken) <==> token.0 == AWAKEN,
        r == Err::<(), PollError>(PollError::InvalidInterest) <==> token.0 != AWAKEN && !(
        interest.has(READABLE) || interest.has(WRITABLE)),
        r is Ok <==> args_valid(token, interest),
{
    if token.0 == AWAKEN {
        return Err(PollError::InvalidToken);
    }
    if !interest.is_readable() && !interest.is_writable() {
        return Err(PollError::InvalidInterest);
    }
    Ok(())
}

proof fn lemma_and_zero(x: usize)
    ensures
        x & 0 == 0,
        0 & x == 0,
{
    assert(x & 0 == 0 && 0 & x == 0) by (bit_vector);
}

impl Registration {
    /// A new registration node in `poll`, not yet registered: it has no
    /// interest, so readiness set on it is kept but not reported.
    pub fn new(poll: &mut Poll) -> (r: (Registration, SetReadiness))
        requires
            old(poll).wf(),
        ensures
            final(poll).wf(),
            r.0.node_spec() == old(poll).nodes_view().len(),
            r.1.node_spec() == r.0.node_spec(),
            r.0.poll_id_spec() == old(poll).id_spec(),
            r.1.poll_id_spec() == old(poll).id_spec(),
            final(poll).nodes_view() == old(poll).nodes_view().push(fresh_node()),
            final(poll).queue_view() == old(poll).queue_view(),
            final(poll).id_spec() == old(poll).id_spec(),
            final(poll).woken() == old(poll).woken(),
            final(poll).sleeping() == old(poll).sleeping(),
    {
        let id = poll.nodes.len();
        let node = ReadinessNode {
            state: ReadinessState::new(Ready::empty(), EpollOpt::empty()),
            token0: Token(0),
            token1: Token(0),
            token2: Token(0),
            bound: false,
            ref_count: 2,
        };
        let ghost before = *poll;
        poll.nodes.push(node);
        proof {
            assert(poll.nodes_view() =~= before.nodes_view().push(fresh_node()));
            let nodes = poll.nodes_view();
            let q = poll.queue_view();
            assert forall|k: int| 0 <= k < q.len() implies #[trigger] q[k] < nodes.len()
                && nodes[q[k] as int].bound && nodes[q[k] as int].state.queued by {
                assert(before.queue_view()[k] == q[k]);
            }
            assert forall|i: usize|
                i < nodes.len() && #[trigger] nodes[i as int].bound && !nodes[i as int].state.dropped
                    && nodes[i as int].state.queued implies q.contains(i) by {
                assert(before.nodes_view()[i as int].bound);
            }
            assert forall|i: int| 0 <= i < nodes.len() && !#[trigger] nodes[i].bound implies (
            nodes[i].state.queued ==> nodes[i].state.dropped) && nodes[i].state.interest == 0
                && nodes[i].ref_count <= 2 by {
                if i < before.nodes_view().len() {
                    assert(before.nodes_view()[i].bound == nodes[i].bound);
                }
            }
            assert forall|i: int| 0 <= i < nodes.len() implies #[trigger] nodes[i].state.read_pos < 3
                && nodes[i].state.write_pos < 3 && nodes[i].ref_count <= 3 by {
                if i < before.nodes_view().len() {
                    assert(before.nodes_view()[i].state.read_pos < 3);
                }
            }
        }
        (Registration { node: id, poll_id: poll.id }, SetReadiness { node: id, poll_id: poll.id })
    }

    /// A new registration node in `poll`, registered at once under `token`
    /// with `interest` and `opts`.
    pub fn new_prev(poll: &mut Poll, token: Token, interest: Ready, opts: EpollOpt) -> (r: (
        Registration,
        SetReadiness,
    ))
        requires
            old(poll).wf(),
            interest.bits() < 16,
            opts.bits() < 16,
        ensures
            final(poll).wf(),
            r.0.node_spec() == old(poll).nodes_view().len(),
            r.1.node_spec() == r.0.node_spec(),
            r.0.poll_id_spec() == old(poll).id_spec(),
            r.1.poll_id_spec() == old(poll).id_spec(),
            final(poll).id_spec() == old(poll).id_spec(),
            final(poll).nodes_view() == old(poll).nodes_view().push(
                updated(fresh_node(), token, interest.bits(), opts.bits()),
            ),
            final(poll).queue_view() == old(poll).queue_view(),
            final(poll).woken() == old(poll).woken(),
            final(poll).sleeping() == old(poll).sleeping(),
    {
        let (r, s) = Registration::new(poll);
        proof {
            lemma_and_zero(interest.bits());
            assert(poll.nodes_view()[r.node as int] == fresh_node());
        }
        poll.update(r.node, token, interest, opts);
        proof {
            assert(poll.nodes_view() =~= old(poll).nodes_view().push(
                updated(fresh_node(), token, interest.bits(), opts.bits()),
            ));
        }
        (r, s)
    }

    /// Drops the registration: the node is flagged dropped and, if it was not
    /// queued and is bound, linked into the queue so that the poll thread
    /// lets go of it. A handle of another poll changes nothing.
    pub fn release(self, poll: &mut Poll)
        requires
            old(poll).wf(),
        ensures
            final(poll).wf(),
            !old(poll).owns(self.node_spec(), self.poll_id_spec()) ==> *final(poll) == *old(poll),
            old(poll).owns(self.node_spec(), self.poll_id_spec()) ==> ({
                let n = old(poll).nodes_view()[self.node_spec() as int];
                old(poll).changed_to(final(poll), self.node_spec(), dropped(n), !n.state.queued && n.bound)
            }),
    {
        if self.poll_id != poll.id || self.node >= poll.nodes.len() {
            return;
        }
        let id = self.node;
        let ghost before = *poll;
        let mut node = poll.nodes[id];
        proof {
            assert(before.nodes_view()[id as int] == node@);
            let b = before.nodes_view()[id as int].bound;
            assert(before.nodes_view()[id as int].state.read_pos < 3);
        }
        let push_needed = node.state.flag_as_dropped();
        if node.ref_count > 0 {
            node.ref_count = node.ref_count - 1;
        }
        let push = push_needed && node.bound;
        poll.nodes.set(id, node);
        proof {
            before.lemma_view_update(id, node, poll);
        }
        if push {
            poll.enqueue_with_wakeup(id);
        }
        proof {
            let n = before.nodes_view()[id as int];
            if before.queue_view().contains(id) {
                let j = choose|j: int| 0 <= j < before.queue_view().len() && before.queue_view()[j] == id;
                assert(before.queue_view()[j] == id);
            }
            assert(node@ == dropped(n));
            before.lemma_change_wf(poll, id, node@, push);
        }
    }
}

impl SetReadiness {
    /// Sets the node's readiness. If it now meets the node's interest and the
    /// node was not queued, the node is linked into the queue (with a wakeup
    /// if the poll thread was about to block). On a dropped node nothing
    /// changes. A handle of another poll is refused.
    pub fn set_readiness(&self, poll: &mut Poll, ready: Ready) -> (r: Result<(), PollError>)
        requires
            old(poll).wf(),
            ready.bits() < 16,
        ensures
            final(poll).wf(),
            r is Err <==> !old(poll).owns(self.node_spec(), self.poll_id_spec()),
            r is Err ==> r == Err::<(), PollError>(PollError::AlreadyAssociated) && *final(poll) == *old(poll),
            r is Ok ==> old(poll).signaled_by(final(poll), self.node_spec(), ready.bits()),
    {
        if self.poll_id != poll.id || self.node >= poll.nodes.len() {
            return Err(PollError::AlreadyAssociated);
        }
        let id = self.node;
        let ghost before = *poll;
        let mut node = poll.nodes[id];
        proof {
            assert(before.nodes_view()[id as int] == node@);
            let b = before.nodes_view()[id as int].bound;
            assert(before.nodes_view()[id as int].state.read_pos < 3);
        }
        if node.state.is_dropped() {
            return Ok(());
        }
        let was_queued = node.state.is_queued();
        let mut next = node.state;
        next.set_readiness(ready);
        let eff = next.effective_readiness();
        if !eff.is_empty() {
            next.set_queued();
        }
        node.state = next;
        let push = !was_queued && next.is_queued();
        poll.nodes.set(id, node);
        proof {
            before.lemma_view_update(id, node, poll);
        }
        if push {
            poll.enqueue_with_wakeup(id);
        }
        proof {
            let n = before.nodes_view()[id as int];
            if !n.bound {
                lemma_and_zero(ready.bits());
            }
            if before.queue_view().contains(id) {
                let j = choose|j: int| 0 <= j < before.queue_view().len() && before.queue_view()[j] == id;
                assert(before.queue_view()[j] == id);
            }
            assert(node@ == signaled(n, ready.bits()));
            before.lemma_change_wf(poll, id, node@, push);
        }
        Ok(())
    }

    /// The readiness last set on the node.
    pub fn readiness(&self, poll: &Poll) -> (r: Result<Ready, PollError>)
        ensures
            r is Err <==> !poll.owns(self.node_spec(), self.poll_id_spec()),
            r is Err ==> r == Err::<Ready, PollError>(PollError::AlreadyAssociated),
            r matches Ok(rd) ==> rd.bits() == poll.nodes_view()[self.node_spec() as int].state.readiness,
    {
        if self.poll_id != poll.id || self.node >= poll.nodes.len() {
            return Err(PollError::AlreadyAssociated);
        }
        let node = &poll.nodes[self.node];
        proof {
            assert(poll.nodes_view()[self.node as int] == node@);
        }
        Ok(node.state.readiness())
    }
}

impl Poll {
    pub closed spec fn id_spec(&self) -> usize {
        self.id
    }

    /// The nodes, by id.
    pub closed spec fn nodes_view(&self) -> Seq<NodeView> {
        self.nodes@.map_values(|n: ReadinessNode| n@)
    }

    /// The ids of the queued nodes, front first.
    pub closed spec fn queue_view(&self) -> Seq<usize> {
        self.queue@
    }

    /// Whether the poll thread has announced that it is about to block.
    pub closed spec fn sleeping(&self) -> bool {
        self.queue.is_sleeping()
    }

    /// Whether a wakeup of the poll thread is pending.
    pub closed spec fn woken(&self) -> bool {
        self.wakeup
    }

    /// Whether a handle with these fields belongs to this poll.
    pub open spec fn owns(&self, node: usize, poll_id: usize) -> bool {
        poll_id == self.id_spec() && node < self.nodes_view().len()
    }

    /// The queue holds known, bound nodes whose queued flag is set, each at
    /// most once; a live bound node whose queued flag is set is in the queue;
    /// an unbound node is only flagged queued once dropped; token positions
    /// name one of the three slots.
    pub open spec fn wf(&self) -> bool {
        let nodes = self.nodes_view();
        let q = self.queue_view();
        &&& q.no_duplicates()
        &&& self.sleeping() ==> q.len() == 0
        &&& forall|k: int|
            0 <= k < q.len() ==> #[trigger] q[k] < nodes.len() && nodes[q[k] as int].bound
                && nodes[q[k] as int].state.queued
        &&& forall|i: usize|
            i < nodes.len() && #[trigger] nodes[i as int].bound && !nodes[i as int].state.dropped
                && nodes[i as int].state.queued ==> q.contains(i)
        &&& forall|i: int|
            0 <= i < nodes.len() && !#[trigger] nodes[i].bound ==> (nodes[i].state.queued
                ==> nodes[i].state.dropped) && nodes[i].state.interest == 0
                && nodes[i].ref_count <= 2
        &&& forall|i: int|
            0 <= i < nodes.len() ==> #[trigger] nodes[i].state.read_pos < 3
                && nodes[i].state.write_pos < 3 && nodes[i].ref_count <= 3
    }

    /// A poll with no registrations. `id` tells it apart from every other
    /// poll of the process.
    pub fn new(id: usize) -> (r: Poll)
        ensures
            r.wf(),
            r.id_spec() == id,
            r.nodes_view() == Seq::<NodeView>::empty(),
            r.queue_view() == Seq::<usize>::empty(),
            !r.sleeping(),
            !r.woken(),
    {
        let r = Poll { id, nodes: Vec::new(), queue: ReadinessQueue::new(), wakeup: false };
        assert(r.nodes_view() =~= Seq::<NodeView>::empty());
        r
    }

    /// `after` is this poll with node `id` replaced by `n`, and with `id`
    /// linked into the queue iff `push` (a pending wakeup then follows if the
    /// poll thread was about to block).
    pub open spec fn changed_to(&self, after: &Poll, id: usize, n: NodeView, push: bool) -> bool {
        &&& after.id_spec() == self.id_spec()
        &&& after.nodes_view() == self.nodes_view().update(id as int, n)
        &&& after.queue_view() == if push {
            self.queue_view().push(id)
        } else {
            self.queue_view()
        }
        &&& after.woken() == (self.woken() || push && self.sleeping())
        &&& after.sleeping() == (self.sleeping() && !push)
    }

    proof fn lemma_view_update(&self, id: usize, node: ReadinessNode, after: &Poll)
        requires
            id < self.nodes@.len(),
            after.nodes@ == self.nodes@.update(id as int, node),
        ensures
            after.nodes_view() == self.nodes_view().update(id as int, node@),
    {
        assert(after.nodes_view() =~= self.nodes_view().update(id as int, node@));
    }

    /// Replacing one node, and linking it at the back if it was not queued,
    /// keeps the poll well formed when the new node keeps the rules.
    proof fn lemma_change_wf(&self, after: &Poll, id: usize, m: NodeView, push: bool)
        requires
            self.wf(),
            id < self.nodes_view().len(),
            self.changed_to(after, id, m, push),
            m.state.read_pos < 3,
            m.state.write_pos < 3,
            m.ref_count <= 3,
            !m.bound ==> (m.state.queued ==> m.state.dropped) && m.state.interest == 0
                && m.ref_count <= 2,
            push ==> m.bound && m.state.queued && !self.queue_view().contains(id),
            !push ==> (self.queue_view().contains(id) ==> m.bound && m.state.queued),
            !push ==> (m.bound && !m.state.dropped && m.state.queued
                ==> self.queue_view().contains(id)),
        ensures
            after.wf(),
    {
        let nodes = after.nodes_view();
        let q = after.queue_view();
        let bn = self.nodes_view();
        let bq = self.queue_view();
        assert forall|k: int| 0 <= k < q.len() implies #[trigger] q[k] < nodes.len()
            && nodes[q[k] as int].bound && nodes[q[k] as int].state.queued by {
            if k < bq.len() {
                assert(bq[k] == q[k]);
                if q[k] == id {
                    assert(bq.contains(id));
                }
            }
        }
        assert forall|i: usize|
            i < nodes.len() && #[trigger] nodes[i as int].bound && !nodes[i as int].state.dropped
                && nodes[i as int].state.queued implies q.contains(i) by {
            if i != id {
                assert(bn[i as int].bound);
                let j = choose|j: int| 0 <= j < bq.len() && bq[j] == i;
                assert(q[j] == i);
            } else if !push {
                let j = choose|j: int| 0 <= j < bq.len() && bq[j] == i;
                assert(q[j] == i);
            } else {
                assert(q[q.len() - 1] == i);
            }
        }
        assert forall|i: int| 0 <= i < nodes.len() && !#[trigger] nodes[i].bound implies (
        nodes[i].state.queued ==> nodes[i].state.dropped) && nodes[i].state.interest == 0
            && nodes[i].ref_count <= 2 by {
            assert(bn[i].bound == nodes[i].bound || i == id);
        }
        assert forall|i: int| 0 <= i < nodes.len() implies #[trigger] nodes[i].state.read_pos < 3
            && nodes[i].state.write_pos < 3 && nodes[i].ref_count <= 3 by {
            assert(bn[i].state.read_pos < 3);
        }
        if push {
            lemma_push_unique(bq, id);
        }
    }

    /// Taking the front node, replacing it, and linking it back at the end
    /// iff `push`, keeps the poll well formed when the new node keeps the
    /// rules.
    proof fn lemma_pop_change_wf(&self, after: &Poll, m: NodeView, push: bool)
        requires
            self.wf(),
            self.queue_view().len() > 0,
            after.sleeping() == self.sleeping(),
            after.nodes_view() == self.nodes_view().update(self.queue_view()[0] as int, m),
            after.queue_view() == if push {
                self.queue_view().drop_first().push(self.queue_view()[0])
            } else {
                self.queue_view().drop_first()
            },
            m.bound,
            m.state.read_pos < 3,
            m.state.write_pos < 3,
            m.ref_count <= 3,
            push ==> m.state.queued,
            !push ==> m.state.dropped || !m.state.queued,
        ensures
            after.wf(),
    {
        let id = self.queue_view()[0];
        let nodes = after.nodes_view();
        let q = after.queue_view();
        let bn = self.nodes_view();
        let bq = self.queue_view();
        let rest = bq.drop_first();
        assert(!rest.contains(id)) by {
            if rest.contains(id) {
                let j = choose|j: int| 0 <= j < rest.len() && rest[j] == id;
                assert(bq[j + 1] == bq[0]);
            }
        }
        assert(rest.no_duplicates()) by {
            assert forall|i: int, j: int| 0 <= i < rest.len() && 0 <= j < rest.len() && i != j implies rest[i] != rest[j] by {
                assert(rest[i] == bq[i + 1] && rest[j] == bq[j + 1]);
            }
        }
        assert forall|k: int| 0 <= k < q.len() implies #[trigger] q[k] < nodes.len()
            && nodes[q[k] as int].bound && nodes[q[k] as int].state.queued by {
            if k < rest.len() {
                assert(q[k] == bq[k + 1]);
            }
        }
        assert forall|i: usize|
            i < nodes.len() && #[trigger] nodes[i as int].bound && !nodes[i as int].state.dropped
                && nodes[i as int].state.queued implies q.contains(i) by {
            if i != id {
                assert(bn[i as int].bound);
                let j = choose|j: int| 0 <= j < bq.len() && bq[j] == i;
                assert(bq[0] == id);
                assert(j != 0);
                assert(q[j - 1] == i);
            } else {
                assert(q[q.len() - 1] == i);
            }
        }
        assert forall|i: int| 0 <= i < nodes.len() && !#[trigger] nodes[i].bound implies (
        nodes[i].state.queued ==> nodes[i].state.dropped) && nodes[i].state.interest == 0
            && nodes[i].ref_count <= 2 by {
            assert(bn[i].bound == nodes[i].bound || i == id);
        }
        assert forall|i: int| 0 <= i < nodes.len() implies #[trigger] nodes[i].state.read_pos < 3
            && nodes[i].state.write_pos < 3 && nodes[i].ref_count <= 3 by {
            assert(bn[i].state.read_pos < 3);
        }
        if push {
            lemma_push_unique(rest, id);
        }
    }

    /// Moves readiness from the queued nodes into `events`, as
    /// `drain_model` states: each node that was queued when the call began
    /// is taken at most once, so nodes that go back to the queue wait for the
    /// next cycle.
    fn drain(&mut self, events: &mut Events)
        requires
            old(self).wf(),
            old(events).wf(),
        ensures
            final(self).wf(),
            final(events).wf(),
            final(events).cap_spec() == old(events).cap_spec(),
            ({
                let m = drain_model(
                    old(self).nodes_view(),
                    old(self).queue_view(),
                    old(self).queue_view().len(),
                    event_pairs(old(events)@),
                    old(events).cap_spec(),
                );
                &&& final(self).nodes_view() == m.0
                &&& final(self).queue_view() == m.1
                &&& event_pairs(final(events)@) == m.2
            }),
            final(self).id_spec() == old(self).id_spec(),
            final(self).woken() == old(self).woken(),
            final(self).sleeping() == old(self).sleeping(),
    {
        let ghost cap = events.cap_spec();
        let ghost init = drain_model(
            self.nodes_view(),
            self.queue_view(),
            self.queue_view().len(),
            event_pairs(events@),
            cap,
        );
        let ghost mut pending: nat = self.queue_view().len();
        let mut until: Option<usize> = None;
        loop
            invariant
                self.wf(),
                events.wf(),
                events.cap_spec() == cap,
                cap == old(events).cap_spec(),
                init == drain_model(
                    old(self).nodes_view(),
                    old(self).queue_view(),
                    old(self).queue_view().len(),
                    event_pairs(old(events)@),
                    old(events).cap_spec(),
                ),
                drain_model(self.nodes_view(), self.queue_view(), pending, event_pairs(events@), cap)
                    == init,
                until is None ==> self.queue_view().len() == pending,
                until matches Some(u) ==> pending < self.queue_view().len()
                    && self.queue_view()[pending as int] == u,
                self.id_spec() == old(self).id_spec(),
                self.woken() == old(self).woken(),
                self.sleeping() == old(self).sleeping(),
            ensures
                self.wf(),
                events.wf(),
                events.cap_spec() == cap,
                self.nodes_view() == init.0,
                self.queue_view() == init.1,
                event_pairs(events@) == init.2,
                self.id_spec() == old(self).id_spec(),
                self.woken() == old(self).woken(),
                self.sleeping() == old(self).sleeping(),
            decreases pending,
        {
            let ghost before = *self;
            let ghost bevents = events@;
            if events.len() >= events.capacity() {
                proof {
                    assert(event_pairs(events@).len() == events@.len());
                    assert(drain_model(self.nodes_view(), self.queue_view(), pending, event_pairs(events@), cap)
                        == (self.nodes_view(), self.queue_view(), event_pairs(events@)));
                }
                break;
            }
            let id = match self.queue.dequeue_node(until) {
                Dequeue::Empty => {
                    proof {
                        if before.queue_view().len() > 0 {
                            let q = before.queue_view();
                            assert(q[0] == q[pending as int]);
                        }
                        assert(self.nodes_view() == before.nodes_view());
                        assert(drain_model(self.nodes_view(), self.queue_view(), pending, event_pairs(events@), cap)
                            == (self.nodes_view(), self.queue_view(), event_pairs(events@)));
                    }
                    break;
                },
                Dequeue::Data(id) => id,
            };
            proof {
                let q = before.queue_view();
                if pending == 0 {
                    assert(q[0] == q[pending as int]);
                }
                assert(event_pairs(events@).len() == events@.len());
                assert(before.nodes_view()[id as int].bound);
                assert(before.nodes_view()[id as int].state.read_pos < 3);
            }
            let mut node = self.nodes[id];
            proof {
                assert(before.nodes_view()[id as int] == node@);
            }
            let st = node.state;
            if st.is_dropped() {
                if node.ref_count > 0 {
                    node.ref_count = node.ref_count - 1;
                }
                self.nodes.set(id, node);
                proof {
                    assert(self.nodes_view() =~= before.nodes_view().update(id as int, node@));
                    before.lemma_pop_change_wf(self, node@, false);
                }
            } else {
                let readiness = st.effective_readiness();
                let opt = st.poll_opt();
                let mut next = st;
                if opt.is_edge() {
                    next.set_dequeued();
                    if opt.is_oneshot() && !readiness.is_empty() {
                        next.disarm();
                    }
                } else if readiness.is_empty() {
                    next.set_dequeued();
                }
                next.update_token_read_pos();
                node.state = next;
                self.nodes.set(id, node);
                let requeue = next.is_queued();
                if requeue {
                    if until.is_none() {
                        until = Some(id);
                    }
                    let _ = self.queue.enqueue_node(id);
                }
                proof {
                    assert(self.nodes_view() =~= before.nodes_view().update(id as int, node@));
                    assert(node@ == processed(before.nodes_view()[id as int]));
                    before.lemma_pop_change_wf(self, node@, requeue);
                }
                if !readiness.is_empty() {
                    let token = node.token(next.token_read_pos());
                    events.push(Event::new(readiness, token));
                    proof {
                        assert(event_pairs(events@) =~= event_pairs(bevents).push(
                            (readiness.bits(), token),
                        ));
                    }
                }
            }
            proof {
                pending = (pending - 1) as nat;
            }
        }
    }

    /// Ends a cycle once the selector has returned `selected`: the buffer is
    /// refilled with the selector's events (but those of the reserved token,
    /// which only woke the poll thread), then with the readiness of the
    /// queued nodes, up to its capacity. Returns how many events it holds.
    pub fn complete(&mut self, events: &mut Events, selected: &Vec<Event>) -> (r: usize)
        requires
            old(self).wf(),
            old(events).wf(),
        ensures
            final(self).wf(),
            final(events).wf(),
            final(events).cap_spec() == old(events).cap_spec(),
            ({
                let m = drain_model(
                    old(self).nodes_view(),
                    old(self).queue_view(),
                    old(self).queue_view().len(),
                    event_pairs(kernel_events(selected@, old(events).cap_spec())),
                    old(events).cap_spec(),
                );
                &&& final(self).nodes_view() == m.0
                &&& final(self).queue_view() == m.1
                &&& event_pairs(final(events)@) == m.2
            }),
            r == final(events)@.len(),
            final(self).id_spec() == old(self).id_spec(),
            final(self).woken() == old(self).woken(),
            final(self).sleeping() == old(self).sleeping(),
    {
        events.clear();
        let ghost cap = events.cap_spec();
        let mut i: usize = 0;
        while i < selected.len()
            invariant
                i <= selected@.len(),
                events.wf(),
                events.cap_spec() == cap,
                events@ == kernel_events(selected@.take(i as int), cap),
            decreases selected@.len() - i,
        {
            let e = selected[i];
            proof {
                assert(selected@.take(i as int + 1).drop_last() =~= selected@.take(i as int));
            }
            if e.token().0 != AWAKEN && events.len() < events.capacity() {
                events.push(e);
            }
            i = i + 1;
        }
        proof {
            assert(selected@.take(i as int) =~= selected@);
        }
        self.drain(events);
        events.len()
    }

    /// One cycle without a selector: picks the selector timeout as
    /// `selector_timeout` does, then fills `events` from the queued nodes.
    /// Returns how many events it holds.
    pub fn poll(&mut self, events: &mut Events, timeout: Option<u64>) -> (r: usize)
        requires
            old(self).wf(),
            old(events).wf(),
        ensures
            final(self).wf(),
            final(events).wf(),
            final(events).cap_spec() == old(events).cap_spec(),
            ({
                let m = drain_model(
                    old(self).nodes_view(),
                    old(self).queue_view(),
                    old(self).queue_view().len(),
                    Seq::<(usize, Token)>::empty(),
                    old(events).cap_spec(),
                );
                &&& final(self).nodes_view() == m.0
                &&& final(self).queue_view() == m.1
                &&& event_pairs(final(events)@) == m.2
            }),
            r == final(events)@.len(),
            final(self).id_spec() == old(self).id_spec(),
            final(self).woken() == old(self).woken(),
            final(self).sleeping() == (old(self).sleeping() || timeout != Some(0u64)
                && old(self).queue_view().len() == 0),
    {
        let _ = self.selector_timeout(timeout);
        let none: Vec<Event> = Vec::new();
        proof {
            assert(kernel_events(none@, events.cap_spec()) == Seq::<Event>::empty());
            assert(event_pairs(Seq::<Event>::empty()) =~= Seq::<(usize, Token)>::empty());
        }
        self.complete(events, &none)
    }

    /// The timeout to hand the selector. A zero timeout is kept. Otherwise
    /// the poll announces that it is about to block: if no node is queued the
    /// timeout is kept and producers will wake the poll thread; if some are,
    /// the selector must not block and gets a zero timeout.
    pub fn selector_timeout(&mut self, timeout: Option<u64>) -> (r: Option<u64>)
        requires
            old(self).wf(),
        ensures
            final(self).wf(),
            final(self).id_spec() == old(self).id_spec(),
            final(self).nodes_view() == old(self).nodes_view(),
            final(self).queue_view() == old(self).queue_view(),
            final(self).woken() == old(self).woken(),
            timeout == Some(0u64) ==> r == timeout && final(self).sleeping() == old(self).sleeping(),
            timeout != Some(0u64) && old(self).queue_view().len() == 0 ==> r == timeout
                && final(self).sleeping(),
            timeout != Some(0u64) && old(self).queue_view().len() > 0 ==> r == Some(0u64)
                && final(self).sleeping() == old(self).sleeping(),
    {
        let zero = match timeout {
            Some(t) => t == 0,
            None => false,
        };
        if zero {
            return timeout;
        }
        let ghost before = *self;
        if self.queue.prepare_for_sleep() {
            proof {
                assert(self.nodes_view() == before.nodes_view());
            }
            timeout
        } else {
            proof {
                assert(self.nodes_view() == before.nodes_view());
            }
            Some(0)
        }
    }

    /// Changes node `id` by an update to `token`, `interest` and `opts`.
    fn update(&mut self, id: usize, token: Token, interest: Ready, opts: EpollOpt)
        requires
            old(self).wf(),
            id < old(self).nodes_view().len(),
            interest.bits() < 16,
            opts.bits() < 16,
        ensures
            final(self).wf(),
            ({
                let n = old(self).nodes_view()[id as int];
                if n.state.dropped {
                    *final(self) == *old(self)
                } else {
                    let m = updated(n, token, interest.bits(), opts.bits());
                    old(self).changed_to(final(self), id, m, !n.state.queued && m.state.queued)
                }
            }),
    {
        let ghost before = *self;
        let mut node = self.nodes[id];
        if node.state.is_dropped() {
            return;
        }
        proof {
            assert(self.nodes_view()[id as int] == node@);
            let b = self.nodes_view()[id as int].bound;
            assert(self.nodes_view()[id as int].state.read_pos < 3);
        }
        let was_queued = node.state.is_queued();
        if !node.bound {
            node.bound = true;
            node.ref_count = node.ref_count + 1;
        }
        let mut next = node.state;
        let wr = next.token_write_pos();
        let curr = node.token(wr);
        if token != curr {
            let pos = next.next_token_pos();
            if pos == 0 {
                node.token0 = token;
            } else if pos == 1 {
                node.token1 = token;
            } else {
                node.token2 = token;
            }
            next.set_token_write_pos(pos);
        }
        next.set_interest(interest);
        next.set_poll_opt(opts);
        let eff = next.effective_readiness();
        if !eff.is_empty() {
            next.set_queued();
        }
        node.state = next;
        let push = !was_queued && next.is_queued();
        self.nodes.set(id, node);
        proof {
            before.lemma_view_update(id, node, self);
        }
        if push {
            self.enqueue_with_wakeup(id);
        }
        proof {
            let n = before.nodes_view()[id as int];
            if !n.bound {
                assert(n.state.interest == 0);
                assert(!n.state.queued);
            }
            if before.queue_view().contains(id) {
                let j = choose|j: int| 0 <= j < before.queue_view().len() && before.queue_view()[j] == id;
                assert(before.queue_view()[j] == id);
            }
            before.lemma_change_wf(self, id, node@, push);
        }
    }

    /// Registers `handle` to report readiness under `token`, for the
    /// readiness in `interest`, with the options `opts`.
    pub fn register(&mut self, handle: &Registration, token: Token, interest: Ready, opts: EpollOpt) -> (r:
        Result<(), PollError>)
        requires
            old(self).wf(),
            interest.bits() < 16,
            opts.bits() < 16,
        ensures
            final(self).wf(),
            r == Err::<(), PollError>(PollError::InvalidToken) <==> token.0 == AWAKEN,
            r == Err::<(), PollError>(PollError::InvalidInterest) <==> token.0 != AWAKEN && !(
            interest.has(READABLE) || interest.has(WRITABLE)),
            r == Err::<(), PollError>(PollError::AlreadyAssociated) <==> args_valid(token, interest)
                && !old(self).owns(handle.node_spec(), handle.poll_id_spec()),
            r is Err ==> *final(self) == *old(self),
            r is Ok ==> old(self).updated_by(final(self), handle.node_spec(), token, interest.bits(), opts.bits()),
    {
        validate_args(token, interest)?;
        if handle.poll_id != self.id || handle.node >= self.nodes.len() {
            return Err(PollError::AlreadyAssociated);
        }
        self.update(handle.node, token, interest, opts);
        Ok(())
    }

    /// Changes the token, interest or options of a registered handle. The
    /// same rules as for `register` apply.
    pub fn reregister(&mut self, handle: &Registration, token: Token, interest: Ready, opts: EpollOpt) -> (r:
        Result<(), PollError>)
        requires
            old(self).wf(),
            interest.bits() < 16,
            opts.bits() < 16,
        ensures
            final(self).wf(),
            r == Err::<(), PollError>(PollError::InvalidToken) <==> token.0 == AWAKEN,
            r == Err::<(), PollError>(PollError::InvalidInterest) <==> token.0 != AWAKEN && !(
            interest.has(READABLE) || interest.has(WRITABLE)),
            r == Err::<(), PollError>(PollError::AlreadyAssociated) <==> args_valid(token, interest)
                && !old(self).owns(handle.node_spec(), handle.poll_id_spec()),
            r is Err ==> *final(self) == *old(self),
            r is Ok ==> old(self).updated_by(final(self), handle.node_spec(), token, interest.bits(), opts.bits()),
    {
        self.register(handle, token, interest, opts)
    }

    /// Stops `handle` from reporting: its interest and options become empty
    /// and its token stays.
    pub fn deregister(&mut self, handle: &Registration) -> (r: Result<(), PollError>)
        requires
            old(self).wf(),
        ensures
            final(self).wf(),
            r is Err <==> !old(self).owns(handle.node_spec(), handle.poll_id_spec()),
            r is Err ==> r == Err::<(), PollError>(PollError::AlreadyAssociated) && *final(self) == *old(self),
            r is Ok ==> old(self).updated_by(
                final(self),
                handle.node_spec(),
                token_at(old(self).nodes_view()[handle.node_spec() as int], old(self).nodes_view()[handle.node_spec() as int].state.write_pos),
                0,
                0,
            ),
    {
        if handle.poll_id != self.id || handle.node >= self.nodes.len() {
            return Err(PollError::AlreadyAssociated);
        }
        let node = self.nodes[handle.node];
        proof {
            assert(self.nodes_view()[handle.node as int] == node@);
            assert(self.nodes_view()[handle.node as int].state.read_pos < 3);
        }
        let token = node.token(node.state.token_write_pos());
        self.update(handle.node, token, Ready::empty(), EpollOpt::empty());
        Ok(())
    }

    /// `after` is this poll once node `id` has been updated to `token`,
    /// `interest` and `opts`; a dropped node is left as it is.
    pub open spec fn updated_by(&self, after: &Poll, id: usize, token: Token, interest: usize, opts: usize) -> bool {
        let n = self.nodes_view()[id as int];
        if n.state.dropped {
            *after == *self
        } else {
            let m = updated(n, token, interest, opts);
            self.changed_to(after, id, m, !n.state.queued && m.state.queued)
        }
    }

    /// `after` is this poll once node `id` has been given the readiness
    /// `ready`; a dropped node is left as it is.
    pub open spec fn signaled_by(&self, after: &Poll, id: usize, ready: usize) -> bool {
        let n = self.nodes_view()[id as int];
        if n.state.dropped {
            *after == *self
        } else {
            let m = signaled(n, ready);
            self.changed_to(after, id, m, !n.state.queued && m.state.queued)
        }
    }

    /// The number that tells this poll apart from the others of the process.
    pub fn id(&self) -> (r: usize)
        ensures
            r == self.id_spec(),
    {
        self.id
    }

    /// Takes the pending wakeup, if any: the caller then wakes the poll
    /// thread.
    pub fn take_wakeup(&mut self) -> (r: bool)
        requires
            old(self).wf(),
        ensures
            final(self).wf(),
            r == old(self).woken(),
            !final(self).woken(),
            final(self).id_spec() == old(self).id_spec(),
            final(self).nodes_view() == old(self).nodes_view(),
            final(self).queue_view() == old(self).queue_view(),
            final(self).sleeping() == old(self).sleeping(),
    {
        let r = self.wakeup;
        self.wakeup = false;
        proof {
            assert(self.nodes_view() == old(self).nodes_view());
            assert(self.queue_view() == old(self).queue_view());
        }
        r
    }

    /// Links a node into the queue; if the poll thread was about to block,
    /// a wakeup becomes pending.
    fn enqueue_with_wakeup(&mut self, id: usize)
        ensures
            final(self).queue_view() == old(self).queue_view().push(id),
            final(self).woken() == (old(self).woken() || old(self).sleeping()),
            !final(self).sleeping(),
            final(self).nodes_view() == old(self).nodes_view(),
            final(self).id_spec() == old(self).id_spec(),
    {
        let was_sleeping = self.queue.enqueue_node(id);
        if was_sleeping {
            self.wakeup = true;
        }
    }
}

} // verus!
