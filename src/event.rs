use vstd::prelude::*;

use crate::ready::Ready;
use crate::token::Token;

verus! {

/// One readiness notification: the readiness that was observed and the token
/// of the registration it belongs to.
#[derive(Copy, Clone, Debug, PartialEq, Eq, Structural)]
pub struct Event {
    kind: Ready,
    token: Token,
}

impl Event {
    pub closed spec fn kind_spec(self) -> Ready {
        self.kind
    }

    pub closed spec fn token_spec(self) -> Token {
        self.token
    }

    pub fn new(readiness: Ready, token: Token) -> (r: Event)
        ensures
            r.kind_spec() == readiness,
            r.token_spec() == token,
    {
        Event { kind: readiness, token: token }
    }

    pub fn readiness(&self) -> (r: Ready)
        ensures
            r == self.kind_spec(),
    {
        self.kind
    }

    pub fn token(&self) -> (r: Token)
        ensures
            r == self.token_spec(),
    {
        self.token
    }
}

/// A bounded buffer that a poll cycle fills with events.
pub struct Events {
    inner: Vec<Event>,
    cap: usize,
}

impl View for Events {
    type V = Seq<Event>;

    closed spec fn view(&self) -> Seq<Event> {
        self.inner@
    }
}

impl Events {
    /// How many events the buffer can hold.
    pub closed spec fn cap_spec(&self) -> nat {
        self.cap as nat
    }

    /// The buffer never holds more events than its capacity.
    pub closed spec fn wf(&self) -> bool {
        self.inner@.len() <= self.cap
    }

    pub fn with_capacity(capacity: usize) -> (r: Events)
        ensures
            r.wf(),
            r@ == Seq::<Event>::empty(),
            r.cap_spec() == capacity,
    {
        Events { inner: Vec::new(), cap: capacity }
    }

    pub fn get(&self, idx: usize) -> (r: Option<Event>)
        ensures
            idx < self@.len() ==> r == Some(self@[idx as int]),
            idx >= self@.len() ==> r.is_none(),
    {
        if idx < self.inner.len() {
            Some(self.inner[idx])
        } else {
            None
        }
    }

    pub fn len(&self) -> (r: usize)
        ensures
            r == self@.len(),
    {
        self.inner.len()
    }

    pub fn capacity(&self) -> (r: usize)
        ensures
            r == self.cap_spec(),
    {
        self.cap
    }

    pub fn is_empty(&self) -> (r: bool)
        ensures
            r == (self@.len() == 0),
    {
        self.inner.len() == 0
    }

    /// The events, in the order in which they were reported.
    pub fn to_vec(&self) -> (r: Vec<Event>)
        ensures
            r@ == self@,
    {
        self.inner.clone()
    }

    /// Empties the buffer; its capacity stays.
    pub fn clear(&mut self)
        ensures
            final(self).wf(),
            final(self)@ == Seq::<Event>::empty(),
            final(self).cap_spec() == old(self).cap_spec(),
    {
        self.inner.clear();
    }

    /// Appends one event; the buffer must have room for it.
    pub fn push(&mut self, event: Event)
        requires
            old(self).wf(),
            old(self)@.len() < old(self).cap_spec(),
        ensures
            final(self).wf(),
            final(self)@ == old(self)@.push(event),
            final(self).cap_spec() == old(self).cap_spec(),
    {
        self.inner.push(event);
    }
}

} // verus!
