use vstd::prelude::*;

verus! {

/// What a thread that waits for the poll lock does next.
#[derive(Copy, Clone, Debug, PartialEq, Eq, Structural)]
pub enum LockStep {
    /// The lock is taken: run the cycle.
    Acquired,
    /// The lock is held and the caller asked not to wait: report no events.
    GiveUp,
    /// Wait on the condition variable, then step again with `counted` set.
    Wait,
    /// The waiter count cannot grow any further.
    Overflow,
}

/// The word that guards a poll cycle: its low bit says whether a thread runs
/// the cycle, the rest counts the threads waiting for it.
pub struct PollLock {
    state: usize,
}

proof fn lemma_low_bit(x: usize)
    ensures
        (x & 1 == 0) == (x % 2 == 0),
        x % 2 == 0 ==> (x | 1) == x + 1,
        x % 2 == 1 ==> (x & !1usize) == x - 1,
        x % 2 == 0 ==> (x & !1usize) == x,
{
    assert((x & 1 == 0) == (x % 2 == 0)) by (bit_vector);
    assert(x % 2 == 0 ==> (x | 1) == x + 1) by (bit_vector);
    assert(x % 2 == 1 ==> (x & !1usize) == x - 1) by (bit_vector);
    assert(x % 2 == 0 ==> (x & !1usize) == x) by (bit_vector);
}

impl PollLock {
    /// Whether a thread runs the cycle.
    pub closed spec fn locked(&self) -> bool {
        self.state % 2 == 1
    }

    /// How many threads wait for the cycle.
    pub closed spec fn waiters(&self) -> nat {
        (self.state / 2) as nat
    }

    /// Free, with no waiter.
    pub fn new() -> (r: PollLock)
        ensures
            !r.locked(),
            r.waiters() == 0,
    {
        PollLock { state: 0 }
    }

    /// The fast path: takes the lock iff it is free and nobody waits.
    pub fn try_lock(&mut self) -> (r: bool)
        ensures
            r == (!old(self).locked() && old(self).waiters() == 0),
            r ==> final(self).locked() && final(self).waiters() == 0,
            !r ==> *final(self) == *old(self),
    {
        if self.state == 0 {
            self.state = 1;
            true
        } else {
            false
        }
    }

    /// One turn of the slow path. `counted` says whether the caller is
    /// already counted among the waiters; `zero_timeout` whether it asked not
    /// to wait. A free lock is taken (and the caller leaves the waiters); a
    /// held one is given up on a zero timeout (and the caller leaves the
    /// waiters), else the caller is counted once and waits.
    pub fn slow_step(&mut self, counted: bool, zero_timeout: bool) -> (r: LockStep)
        requires
            counted ==> old(self).waiters() > 0,
        ensures
            !old(self).locked() ==> r == LockStep::Acquired && final(self).locked()
                && final(self).waiters() == old(self).waiters() - (if counted { 1int } else { 0 }),
            old(self).locked() && zero_timeout ==> r == LockStep::GiveUp && final(self).locked()
                && final(self).waiters() == old(self).waiters() - (if counted { 1int } else { 0 }),
            old(self).locked() && !zero_timeout && counted ==> r == LockStep::Wait && *final(self)
                == *old(self),
            old(self).locked() && !zero_timeout && !counted ==> (r == LockStep::Wait
                && final(self).locked() && final(self).waiters() == old(self).waiters() + 1) || (r
                == LockStep::Overflow && *final(self) == *old(self)),
    {
        let curr = self.state;
        proof {
            lemma_low_bit(curr);
        }
        if curr & 1 == 0 {
            let mut next = curr | 1;
            if counted {
                next = next - 2;
            }
            self.state = next;
            return LockStep::Acquired;
        }
        if zero_timeout {
            if counted {
                self.state = curr - 2;
            }
            return LockStep::GiveUp;
        }
        if !counted {
            if curr > usize::MAX - 2 {
                return LockStep::Overflow;
            }
            self.state = curr + 2;
        }
        LockStep::Wait
    }

    /// Ends the cycle: frees the lock. Returns whether threads wait, in
    /// which case one of them must be notified.
    pub fn unlock(&mut self) -> (r: bool)
        ensures
            !final(self).locked(),
            final(self).waiters() == old(self).waiters(),
            r == (old(self).waiters() > 0),
    {
        let prev = self.state;
        proof {
            lemma_low_bit(prev);
        }
        self.state = prev & !1usize;
        prev > 1
    }
}

} // verus!
