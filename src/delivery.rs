use vstd::prelude::*;

use crate::epoll_opt::{EDGE, ONESHOT};
use crate::poll::{
    drain_model, effective, processed, signaled, token_at, updated, NodeView, Poll,
};
use crate::token::Token;

verus! {

/// The queue of a drain: no id twice, each naming a node.
pub open spec fn queue_ok(nodes: Seq<NodeView>, q: Seq<usize>) -> bool {
    &&& q.no_duplicates()
    &&& forall|j: int| 0 <= j < q.len() ==> #[trigger] q[j] < nodes.len()
}

/// What a node reports when the poll thread takes it.
pub open spec fn report(n: NodeView) -> (usize, Token) {
    (effective(n.state), token_at(n, n.state.write_pos))
}

proof fn lemma_next_queue_ok(nodes: Seq<NodeView>, q: Seq<usize>, m: NodeView, push: bool)
    requires
        queue_ok(nodes, q),
        q.len() > 0,
    ensures
        queue_ok(
            nodes.update(q[0] as int, m),
            if push {
                q.drop_first().push(q[0])
            } else {
                q.drop_first()
            },
        ),
{
    let rest = q.drop_first();
    assert(rest.no_duplicates()) by {
        assert forall|i: int, j: int| 0 <= i < rest.len() && 0 <= j < rest.len() && i != j implies rest[i] != rest[j] by {
            assert(rest[i] == q[i + 1] && rest[j] == q[j + 1]);
        }
    }
    assert forall|j: int| 0 <= j < rest.len() implies #[trigger] rest[j] < nodes.len() by {
        assert(rest[j] == q[j + 1]);
    }
    if push {
        let t = rest.push(q[0]);
        assert forall|i: int, j: int| 0 <= i < t.len() && 0 <= j < t.len() && i != j implies t[i] != t[j] by {
            if i < rest.len() {
                assert(t[i] == q[i + 1]);
            }
            if j < rest.len() {
                assert(t[j] == q[j + 1]);
            }
        }
        assert forall|j: int| 0 <= j < t.len() implies #[trigger] t[j] < nodes.len() by {
            if j < rest.len() {
                assert(t[j] == rest[j]);
            }
        }
    }
}

/// A drain only appends events.
proof fn lemma_drain_prefix(
    nodes: Seq<NodeView>,
    q: Seq<usize>,
    k: nat,
    evs: Seq<(usize, Token)>,
    cap: nat,
)
    ensures
        evs.len() <= drain_model(nodes, q, k, evs, cap).2.len(),
        forall|i: int| 0 <= i < evs.len() ==> #[trigger] drain_model(nodes, q, k, evs, cap).2[i] == evs[i],
    decreases k,
{
    if k == 0 || q.len() == 0 || evs.len() >= cap {
    } else {
        let id = q[0];
        let n = nodes[id as int];
        let rest = q.drop_first();
        if n.state.dropped {
            lemma_drain_prefix(nodes.update(id as int, crate::poll::released(n)), rest, (k - 1) as nat, evs, cap);
        } else {
            let m = processed(n);
            let eff = effective(n.state);
            let q2 = if m.state.queued { rest.push(id) } else { rest };
            let e2 = if eff != 0 { evs.push((eff, token_at(n, n.state.write_pos))) } else { evs };
            lemma_drain_prefix(nodes.update(id as int, m), q2, (k - 1) as nat, e2, cap);
            assert forall|i: int| 0 <= i < evs.len() implies #[trigger] drain_model(nodes, q, k, evs, cap).2[i] == evs[i] by {
                assert(e2[i] == evs[i]);
            }
        }
    }
}

/// A node that a drain does not reach keeps its value, and its place in the
/// queue.
proof fn lemma_drain_frame(
    nodes: Seq<NodeView>,
    q: Seq<usize>,
    k: nat,
    evs: Seq<(usize, Token)>,
    cap: nat,
    x: usize,
)
    requires
        queue_ok(nodes, q),
        k <= q.len(),
        !q.take(k as int).contains(x),
        x < nodes.len(),
    ensures
        drain_model(nodes, q, k, evs, cap).0[x as int] == nodes[x as int],
        drain_model(nodes, q, k, evs, cap).0.len() == nodes.len(),
        q.contains(x) ==> drain_model(nodes, q, k, evs, cap).1.contains(x),
    decreases k,
{
    if k == 0 || q.len() == 0 || evs.len() >= cap {
    } else {
        let id = q[0];
        let n = nodes[id as int];
        let rest = q.drop_first();
        assert(q.take(k as int)[0] == id);
        assert(id != x);
        assert(rest.take(k - 1) =~= q.take(k as int).drop_first());
        assert(!rest.take(k - 1).contains(x)) by {
            let t = rest.take(k - 1);
            if t.contains(x) {
                let j = choose|j: int| 0 <= j < t.len() && t[j] == x;
                assert(q.take(k as int)[j + 1] == x);
            }
        }
        if q.contains(x) {
            let j = choose|j: int| 0 <= j < q.len() && q[j] == x;
            assert(j != 0);
            assert(rest[j - 1] == x);
        }
        if n.state.dropped {
            lemma_next_queue_ok(nodes, q, crate::poll::released(n), false);
            lemma_drain_frame(nodes.update(id as int, crate::poll::released(n)), rest, (k - 1) as nat, evs, cap, x);
        } else {
            let m = processed(n);
            let eff = effective(n.state);
            let q2 = if m.state.queued { rest.push(id) } else { rest };
            let e2 = if eff != 0 { evs.push((eff, token_at(n, n.state.write_pos))) } else { evs };
            lemma_next_queue_ok(nodes, q, m, m.state.queued);
            assert(q2.take(k - 1) =~= rest.take(k - 1));
            if q.contains(x) {
                let j = choose|j: int| 0 <= j < q.len() && q[j] == x;
                assert(q2[j - 1] == x);
            }
            lemma_drain_frame(nodes.update(id as int, m), q2, (k - 1) as nat, e2, cap, x);
        }
    }
}

/// A live node among the first `k` of the queue, with room for every event,
/// is taken once: it reports its readiness if any, is left as `processed`
/// says, and is back in the queue if it stays queued.
proof fn lemma_drain_node(
    nodes: Seq<NodeView>,
    q: Seq<usize>,
    k: nat,
    evs: Seq<(usize, Token)>,
    cap: nat,
    p: int,
)
    requires
        queue_ok(nodes, q),
        0 <= p < k,
        k <= q.len(),
        evs.len() + k <= cap,
        !nodes[q[p] as int].state.dropped,
    ensures
        ({
            let n = nodes[q[p] as int];
            let r = drain_model(nodes, q, k, evs, cap);
            &&& effective(n.state) != 0 ==> r.2.contains(report(n))
            &&& r.0[q[p] as int] == processed(n)
            &&& processed(n).state.queued ==> r.1.contains(q[p])
        }),
    decreases k,
{
    let id = q[0];
    let n = nodes[id as int];
    let rest = q.drop_first();
    let x = q[p];
    if p == 0 {
        let m = processed(n);
        let eff = effective(n.state);
        let q2 = if m.state.queued { rest.push(id) } else { rest };
        let e2 = if eff != 0 { evs.push((eff, token_at(n, n.state.write_pos))) } else { evs };
        let nodes2 = nodes.update(id as int, m);
        lemma_next_queue_ok(nodes, q, m, m.state.queued);
        assert(!rest.contains(id)) by {
            if rest.contains(id) {
                let j = choose|j: int| 0 <= j < rest.len() && rest[j] == id;
                assert(q[j + 1] == q[0]);
            }
        }
        assert(q2.take(k - 1) =~= rest.take(k - 1));
        assert(!q2.take(k - 1).contains(id)) by {
            let t = q2.take(k - 1);
            if t.contains(id) {
                let j = choose|j: int| 0 <= j < t.len() && t[j] == id;
                assert(rest[j] == id);
            }
        }
        if m.state.queued {
            assert(q2[q2.len() - 1] == id);
        }
        lemma_drain_frame(nodes2, q2, (k - 1) as nat, e2, cap, id);
        lemma_drain_prefix(nodes2, q2, (k - 1) as nat, e2, cap);
        if eff != 0 {
            let r = drain_model(nodes2, q2, (k - 1) as nat, e2, cap);
            assert(r.2[evs.len() as int] == e2[evs.len() as int]);
        }
    } else {
        assert(id != x);
        assert(rest[p - 1] == x);
        if n.state.dropped {
            let nodes2 = nodes.update(id as int, crate::poll::released(n));
            lemma_next_queue_ok(nodes, q, crate::poll::released(n), false);
            lemma_drain_node(nodes2, rest, (k - 1) as nat, evs, cap, p - 1);
        } else {
            let m = processed(n);
            let eff = effective(n.state);
            let q2 = if m.state.queued { rest.push(id) } else { rest };
            let e2 = if eff != 0 { evs.push((eff, token_at(n, n.state.write_pos))) } else { evs };
            let nodes2 = nodes.update(id as int, m);
            lemma_next_queue_ok(nodes, q, m, m.state.queued);
            assert(q2[p - 1] == x);
            lemma_drain_node(nodes2, q2, (k - 1) as nat, e2, cap, p - 1);
        }
    }
}

/// A node is never linked into the readiness queue twice: every operation of
/// a `Poll` keeps it well formed, and then the queue holds no id twice, and
/// a live, bound node is in it exactly when its queued flag is set.
pub proof fn queued_at_most_once(poll: &Poll, id: usize)
    requires
        poll.wf(),
        id < poll.nodes_view().len(),
    ensures
        poll.queue_view().no_duplicates(),
        poll.nodes_view()[id as int].bound && !poll.nodes_view()[id as int].state.dropped ==> (
        poll.queue_view().contains(id) <==> poll.nodes_view()[id as int].state.queued),
{
    let n = poll.nodes_view()[id as int];
    if n.bound && poll.queue_view().contains(id) {
        let j = choose|j: int| 0 <= j < poll.queue_view().len() && poll.queue_view()[j] == id;
        assert(poll.queue_view()[j] < poll.nodes_view().len());
    }
}

/// No readiness is lost: once readiness that meets a live node's interest
/// has been set, the node is queued, a poll thread that was about to block
/// has a wakeup pending, and the next cycle whose buffer has room for the
/// whole queue reports the node's readiness with its token.
pub proof fn no_lost_wakeup(before: &Poll, after: &Poll, id: usize, ready: usize, cap: nat)
    requires
        before.wf(),
        after.wf(),
        id < before.nodes_view().len(),
        before.signaled_by(after, id, ready),
        !before.nodes_view()[id as int].state.dropped,
        ready & before.nodes_view()[id as int].state.interest != 0,
        cap >= after.queue_view().len(),
    ensures
        after.queue_view().contains(id),
        before.sleeping() ==> after.woken(),
        drain_model(
            after.nodes_view(),
            after.queue_view(),
            after.queue_view().len(),
            Seq::<(usize, Token)>::empty(),
            cap,
        ).2.contains(report(after.nodes_view()[id as int])),
        report(after.nodes_view()[id as int]) == (
            ready & before.nodes_view()[id as int].state.interest,
            token_at(before.nodes_view()[id as int], before.nodes_view()[id as int].state.write_pos),
        ),
{
    let n = before.nodes_view()[id as int];
    let m = signaled(n, ready);
    assert(ready & 0 == 0) by (bit_vector);
    if !before.nodes_view()[id as int].bound {
        assert(n.state.interest == 0);
    }
    assert(n.bound);
    assert(after.nodes_view()[id as int] == m);
    if n.state.queued {
        assert(before.queue_view().contains(id));
    } else {
        assert(after.queue_view()[after.queue_view().len() - 1] == id);
    }
    if before.sleeping() {
        assert(!before.queue_view().contains(id));
    }
    let q = after.queue_view();
    let j = choose|j: int| 0 <= j < q.len() && q[j] == id;
    assert forall|i: int| 0 <= i < q.len() implies #[trigger] q[i] < after.nodes_view().len() by {
        assert(q[i] < after.nodes_view().len());
    }
    lemma_drain_node(after.nodes_view(), q, q.len(), Seq::<(usize, Token)>::empty(), cap, j);
}

/// An edge-triggered oneshot registration reports once: taking its readiness
/// disarms it, after which no readiness that is set queues it again, until
/// an update with an interest that meets its readiness re-arms it.
pub proof fn oneshot_delivers_once(
    n: NodeView,
    ready: usize,
    token: Token,
    interest: usize,
    opts: usize,
)
    requires
        n.state.options & EDGE == EDGE,
        n.state.options & ONESHOT == ONESHOT,
        effective(n.state) != 0,
    ensures
        processed(n).state.interest == 0,
        !processed(n).state.queued,
        effective(signaled(processed(n), ready).state) == 0,
        !signaled(processed(n), ready).state.queued,
        signaled(processed(n), ready).state.readiness & interest != 0 ==> updated(
            signaled(processed(n), ready),
            token,
            interest,
            opts,
        ).state.queued,
{
    assert(ready & 0 == 0) by (bit_vector);
}

/// A level-triggered registration whose readiness meets its interest is
/// reported by every cycle with room for the whole queue: it reports the
/// same readiness and token again, and stays queued as it was.
pub proof fn level_redelivers(nodes: Seq<NodeView>, q: Seq<usize>, cap: nat, p: int)
    requires
        queue_ok(nodes, q),
        0 <= p < q.len(),
        cap >= q.len(),
        !nodes[q[p] as int].state.dropped,
        nodes[q[p] as int].state.queued,
        nodes[q[p] as int].state.options & EDGE != EDGE,
        effective(nodes[q[p] as int].state) != 0,
    ensures
        ({
            let n = nodes[q[p] as int];
            let r = drain_model(nodes, q, q.len(), Seq::<(usize, Token)>::empty(), cap);
            &&& r.2.contains(report(n))
            &&& r.1.contains(q[p])
            &&& r.0[q[p] as int].state == (crate::state::StateView { read_pos: n.state.write_pos, ..n.state })
            &&& report(r.0[q[p] as int]) == report(n)
        }),
{
    lemma_drain_node(nodes, q, q.len(), Seq::<(usize, Token)>::empty(), cap, p);
}

} // verus!
