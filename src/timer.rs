use vstd::prelude::*;

use std::collections::VecDeque;

use crate::epoll_opt::EpollOpt;
use crate::poll::{args_valid, token_at, Poll, PollError, Registration, SetReadiness, AWAKEN};
use crate::ready::{Ready, READABLE, WRITABLE};
use crate::token::Token;

verus! {

/// How long the timer thread sleeps when no task is scheduled, in
/// nanoseconds.
pub const IDLE_SLEEP: u64 = 60_000_000_000;

/// When a task fires, in nanoseconds since the epoch, and the period after
/// which it fires again (zero for a task that fires once).
#[derive(Copy, Clone, Debug, PartialEq, Eq, Structural)]
pub struct Timespec {
    pub interval: u64,
    pub value: u64,
}

/// A scheduled task and what it carries.
#[derive(Copy, Clone, Debug, PartialEq, Eq, Structural)]
pub struct Task {
    pub data: u64,
    pub timespec: Timespec,
}

/// What the timer thread does next.
#[derive(Copy, Clone, Debug, PartialEq, Eq, Structural)]
pub enum TimerAction {
    /// A due task was moved to the fired queue; look again at once.
    Fired,
    /// Nothing is due: sleep this many nanoseconds, or until a task is
    /// inserted.
    Sleep(u64),
}

/// Whether `i` is the first of the tasks that fire earliest.
pub open spec fn first_earliest(s: Seq<Task>, i: int) -> bool {
    &&& 0 <= i < s.len()
    &&& forall|j: int| 0 <= j < s.len() ==> s[i].timespec.value <= #[trigger] s[j].timespec.value
    &&& forall|j: int| 0 <= j < i ==> s[i].timespec.value < #[trigger] s[j].timespec.value
}

/// A fired task scheduled once more, if it repeats and its next time fits.
pub open spec fn rearmed(t: Task) -> Option<Task> {
    if t.timespec.interval != 0 && t.timespec.value + t.timespec.interval <= u64::MAX {
        Some(
            Task {
                timespec: Timespec {
                    value: (t.timespec.value + t.timespec.interval) as u64,
                    ..t.timespec
                },
                ..t
            },
        )
    } else {
        None
    }
}

/// Tasks that fire at given times; fired tasks wait in a queue that a `Poll`
/// can watch, readable while fired tasks wait.
pub struct Timer {
    tasks: Vec<Task>,
    queue: VecDeque<Task>,
    registration: Registration,
    set_readiness: SetReadiness,
}

impl Timer {
    /// Both halves of the registration name one node.
    pub closed spec fn wf(&self) -> bool {
        &&& self.set_readiness.node_spec() == self.registration.node_spec()
        &&& self.set_readiness.poll_id_spec() == self.registration.poll_id_spec()
    }

    /// The scheduled tasks.
    pub closed spec fn tasks_view(&self) -> Seq<Task> {
        self.tasks@
    }

    /// The fired tasks, oldest first.
    pub closed spec fn fired_view(&self) -> Seq<Task> {
        self.queue@
    }

    pub closed spec fn node_spec(&self) -> usize {
        self.registration.node_spec()
    }

    pub closed spec fn poll_id_spec(&self) -> usize {
        self.registration.poll_id_spec()
    }

    /// A timer with no task, whose registration node is created in `poll`.
    pub fn new(poll: &mut Poll) -> (r: Timer)
        requires
            old(poll).wf(),
        ensures
            final(poll).wf(),
            r.wf(),
            r.tasks_view() == Seq::<Task>::empty(),
            r.fired_view() == Seq::<Task>::empty(),
            r.node_spec() == old(poll).nodes_view().len(),
            r.poll_id_spec() == old(poll).id_spec(),
            final(poll).nodes_view() == old(poll).nodes_view().push(crate::poll::fresh_node()),
            final(poll).queue_view() == old(poll).queue_view(),
            final(poll).id_spec() == old(poll).id_spec(),
    {
        let (registration, set_readiness) = Registration::new(poll);
        Timer { tasks: Vec::new(), queue: VecDeque::new(), registration, set_readiness }
    }

    /// Schedules a task.
    pub fn insert(&mut self, task: Task)
        ensures
            final(self).tasks_view() == old(self).tasks_view().push(task),
            final(self).fired_view() == old(self).fired_view(),
            final(self).wf() == old(self).wf(),
            final(self).node_spec() == old(self).node_spec(),
            final(self).poll_id_spec() == old(self).poll_id_spec(),
    {
        self.tasks.push(task);
    }

    /// Unschedules the first task that carries `token`, if any.
    pub fn remove(&mut self, token: u64)
        ensures
            final(self).fired_view() == old(self).fired_view(),
            final(self).wf() == old(self).wf(),
            final(self).node_spec() == old(self).node_spec(),
            final(self).poll_id_spec() == old(self).poll_id_spec(),
            (forall|j: int| 0 <= j < old(self).tasks_view().len() ==> #[trigger] old(self).tasks_view()[j].data != token)
                ==> final(self).tasks_view() == old(self).tasks_view(),
            (exists|j: int| 0 <= j < old(self).tasks_view().len() && #[trigger] old(self).tasks_view()[j].data == token)
                ==> exists|i: int| 0 <= i < old(self).tasks_view().len() && old(self).tasks_view()[i].data == token
                && (forall|j: int| 0 <= j < i ==> #[trigger] old(self).tasks_view()[j].data != token)
                && final(self).tasks_view() == old(self).tasks_view().remove(i),
    {
        let mut i: usize = 0;
        while i < self.tasks.len()
            invariant
                i <= self.tasks@.len(),
                self.tasks@ == old(self).tasks@,
                self.queue == old(self).queue,
                self.registration == old(self).registration,
                self.set_readiness == old(self).set_readiness,
                forall|j: int| 0 <= j < i ==> #[trigger] self.tasks@[j].data != token,
            decreases self.tasks@.len() - i,
        {
            if self.tasks[i].data == token {
                let _ = self.tasks.remove(i);
                return;
            }
            i = i + 1;
        }
    }

    /// The index of the first task that fires earliest.
    fn earliest(&self) -> (r: usize)
        requires
            self.tasks@.len() > 0,
        ensures
            first_earliest(self.tasks@, r as int),
    {
        let mut best: usize = 0;
        let mut i: usize = 1;
        while i < self.tasks.len()
            invariant
                1 <= i <= self.tasks@.len(),
                best < i,
                forall|j: int| 0 <= j < i ==> self.tasks@[best as int].timespec.value <= #[trigger] self.tasks@[j].timespec.value,
                forall|j: int| 0 <= j < best ==> self.tasks@[best as int].timespec.value < #[trigger] self.tasks@[j].timespec.value,
            decreases self.tasks@.len() - i,
        {
            if self.tasks[i].timespec.value < self.tasks[best].timespec.value {
                best = i;
            }
            i = i + 1;
        }
        best
    }

    /// One step of the timer thread at time `now`: the first task that fires
    /// earliest, if it is due, moves to the fired queue (a repeating one is
    /// scheduled again one period later) and the timer becomes readable;
    /// otherwise the thread sleeps until that task is due, or for
    /// `IDLE_SLEEP` when nothing is scheduled.
    pub fn tick(&mut self, poll: &mut Poll, now: u64) -> (r: TimerAction)
        requires
            old(self).wf(),
            old(poll).wf(),
        ensures
            final(self).wf(),
            final(poll).wf(),
            final(self).node_spec() == old(self).node_spec(),
            final(self).poll_id_spec() == old(self).poll_id_spec(),
            old(self).tasks_view().len() == 0 ==> r == TimerAction::Sleep(IDLE_SLEEP) && *final(self)
                == *old(self) && *final(poll) == *old(poll),
            old(self).tasks_view().len() > 0 ==> exists|i: int| #[trigger] first_earliest(old(self).tasks_view(), i) && ({
                let t = old(self).tasks_view()[i];
                &&& t.timespec.value > now ==> r == TimerAction::Sleep((t.timespec.value - now) as u64)
                    && *final(self) == *old(self) && *final(poll) == *old(poll)
                &&& t.timespec.value <= now ==> r == TimerAction::Fired
                    && final(self).fired_view() == old(self).fired_view().push(t)
                    && final(self).tasks_view() == (match rearmed(t) {
                        Some(n) => old(self).tasks_view().remove(i).push(n),
                        None => old(self).tasks_view().remove(i),
                    })
                    && (old(poll).owns(old(self).node_spec(), old(self).poll_id_spec()) ==> old(poll).signaled_by(final(poll), old(self).node_spec(), READABLE))
                    && (!old(poll).owns(old(self).node_spec(), old(self).poll_id_spec()) ==> *final(poll) == *old(poll))
            }),
    {
        if self.tasks.len() == 0 {
            return TimerAction::Sleep(IDLE_SLEEP);
        }
        let i = self.earliest();
        let t = self.tasks[i];
        if t.timespec.value > now {
            return TimerAction::Sleep(t.timespec.value - now);
        }
        let _ = self.tasks.remove(i);
        self.queue.push_back(t);
        if t.timespec.interval != 0 && t.timespec.value <= u64::MAX - t.timespec.interval {
            let next = Task {
                timespec: Timespec { value: t.timespec.value + t.timespec.interval, ..t.timespec },
                ..t
            };
            self.tasks.push(next);
        }
        let _ = self.set_readiness.set_readiness(poll, Ready::readable());
        TimerAction::Fired
    }

    /// Takes the oldest fired task; one must be waiting.
    pub fn pop(&mut self) -> (r: Task)
        requires
            old(self).fired_view().len() > 0,
        ensures
            r == old(self).fired_view()[0],
            final(self).fired_view() == old(self).fired_view().drop_first(),
            final(self).tasks_view() == old(self).tasks_view(),
            final(self).wf() == old(self).wf(),
            final(self).node_spec() == old(self).node_spec(),
            final(self).poll_id_spec() == old(self).poll_id_spec(),
    {
        self.queue.pop_front().unwrap()
    }

    /// Sets the readiness to what will be left (readable while more than one
    /// fired task waits, else empty), then takes the oldest fired task if
    /// any. A registration of another poll is refused and nothing is taken.
    pub fn try_pop(&mut self, poll: &mut Poll) -> (r: Result<Option<Task>, PollError>)
        requires
            old(self).wf(),
            old(poll).wf(),
        ensures
            final(self).wf(),
            final(poll).wf(),
            final(self).node_spec() == old(self).node_spec(),
            final(self).poll_id_spec() == old(self).poll_id_spec(),
            final(self).tasks_view() == old(self).tasks_view(),
            r is Err <==> !old(poll).owns(old(self).node_spec(), old(self).poll_id_spec()),
            r is Err ==> *final(poll) == *old(poll) && final(self).fired_view() == old(self).fired_view(),
            r is Ok ==> old(poll).signaled_by(
                final(poll),
                old(self).node_spec(),
                if old(self).fired_view().len() <= 1 {
                    0
                } else {
                    READABLE
                },
            ),
            r matches Ok(v) ==> (old(self).fired_view().len() == 0 ==> v is None && final(self).fired_view() == old(self).fired_view())
                && (old(self).fired_view().len() > 0 ==> v == Some(old(self).fired_view()[0]) && final(self).fired_view() == old(
                self,
            ).fired_view().drop_first()),
    {
        if self.queue.len() <= 1 {
            self.set_readiness.set_readiness(poll, Ready::empty())?;
        } else {
            self.set_readiness.set_readiness(poll, Ready::readable())?;
        }
        Ok(self.queue.pop_front())
    }

    /// Registers the timer with `poll`; a timer with fired tasks waiting is
    /// made readable at once.
    pub fn register(&self, poll: &mut Poll, token: Token, interest: Ready, opts: EpollOpt) -> (r:
        Result<(), PollError>)
        requires
            self.wf(),
            old(poll).wf(),
            interest.bits() < 16,
            opts.bits() < 16,
        ensures
            final(poll).wf(),
            r == Err::<(), PollError>(PollError::InvalidToken) <==> token.0 == AWAKEN,
            r == Err::<(), PollError>(PollError::InvalidInterest) <==> token.0 != AWAKEN && !(
            interest.has(READABLE) || interest.has(WRITABLE)),
            r == Err::<(), PollError>(PollError::AlreadyAssociated) <==> args_valid(token, interest)
                && !old(poll).owns(self.node_spec(), self.poll_id_spec()),
            r is Err ==> *final(poll) == *old(poll),
            r is Ok && self.fired_view().len() == 0 ==> old(poll).updated_by(final(poll), self.node_spec(), token, interest.bits(), opts.bits()),
            r is Ok && self.fired_view().len() > 0 ==> exists|mid: Poll| old(poll).updated_by(&mid, self.node_spec(), token, interest.bits(), opts.bits())
                && mid.wf() && #[trigger] mid.signaled_by(final(poll), self.node_spec(), READABLE),
    {
        poll.register(&self.registration, token, interest, opts)?;
        if self.queue.len() > 0 {
            let ghost mid = *poll;
            let _ = self.set_readiness.set_readiness(poll, Ready::readable());
            proof {
                assert(mid.signaled_by(poll, self.node_spec(), READABLE));
            }
        }
        Ok(())
    }

    /// Changes the token, interest or options of the timer's registration.
    pub fn reregister(&self, poll: &mut Poll, token: Token, interest: Ready, opts: EpollOpt) -> (r:
        Result<(), PollError>)
        requires
            old(poll).wf(),
            interest.bits() < 16,
            opts.bits() < 16,
        ensures
            final(poll).wf(),
            r == Err::<(), PollError>(PollError::InvalidToken) <==> token.0 == AWAKEN,
            r == Err::<(), PollError>(PollError::InvalidInterest) <==> token.0 != AWAKEN && !(
            interest.has(READABLE) || interest.has(WRITABLE)),
            r == Err::<(), PollError>(PollError::AlreadyAssociated) <==> args_valid(token, interest)
                && !old(poll).owns(self.node_spec(), self.poll_id_spec()),
            r is Err ==> *final(poll) == *old(poll),
            r is Ok ==> old(poll).updated_by(final(poll), self.node_spec(), token, interest.bits(), opts.bits()),
    {
        poll.reregister(&self.registration, token, interest, opts)
    }

    /// Stops the timer's registration from reporting.
    pub fn deregister(&self, poll: &mut Poll) -> (r: Result<(), PollError>)
        requires
            old(poll).wf(),
        ensures
            final(poll).wf(),
            r is Err <==> !old(poll).owns(self.node_spec(), self.poll_id_spec()),
            r is Err ==> *final(poll) == *old(poll),
            r is Ok ==> old(poll).updated_by(
                final(poll),
                self.node_spec(),
                token_at(old(poll).nodes_view()[self.node_spec() as int], old(poll).nodes_view()[self.node_spec() as int].state.write_pos),
                0,
                0,
            ),
    {
        poll.deregister(&self.registration)
    }
}

} // verus!
