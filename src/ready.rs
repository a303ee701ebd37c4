use vstd::prelude::*;

verus! {

pub const READABLE: usize = 0b0001;

pub const WRITABLE: usize = 0b0010;

pub const ERROR: usize = 0b0100;

pub const HUP: usize = 0b1000;

pub const READY_ALL: usize = 0b1111;

/// A set of readiness flags: readable, writable, error and hang-up.
///
/// Only readable and writable are portable; error and hang-up are hints.
#[derive(Copy, Clone, Debug, PartialEq, Eq, Structural, PartialOrd, Ord, Hash)]
pub struct Ready(usize);

impl Ready {
    /// The raw bits of the set.
    pub closed spec fn bits(self) -> usize {
        self.0
    }

    /// Whether every flag of `other` is in `self`.
    pub open spec fn has(self, other: usize) -> bool {
        self.bits() & other == other
    }

    pub fn empty() -> (r: Ready)
        ensures
            r.bits() == 0,
    {
        Ready(0)
    }

    pub fn readable() -> (r: Ready)
        ensures
            r.bits() == READABLE,
    {
        Ready(READABLE)
    }

    pub fn writable() -> (r: Ready)
        ensures
            r.bits() == WRITABLE,
    {
        Ready(WRITABLE)
    }

    pub fn error() -> (r: Ready)
        ensures
            r.bits() == ERROR,
    {
        Ready(ERROR)
    }

    pub fn hup() -> (r: Ready)
        ensures
            r.bits() == HUP,
    {
        Ready(HUP)
    }

    pub fn is_empty(&self) -> (r: bool)
        ensures
            r == (self.bits() == 0),
    {
        self.0 == 0
    }

    pub fn contains(&self, other: Ready) -> (r: bool)
        ensures
            r == self.has(other.bits()),
    {
        self.0 & other.0 == other.0
    }

    pub fn is_readable(&self) -> (r: bool)
        ensures
            r == self.has(READABLE),
    {
        self.contains(Ready::readable())
    }

    pub fn is_writable(&self) -> (r: bool)
        ensures
            r == self.has(WRITABLE),
    {
        self.contains(Ready::writable())
    }

    pub fn is_error(&self) -> (r: bool)
        ensures
            r == self.has(ERROR),
    {
        self.contains(Ready(ERROR))
    }

    pub fn is_hup(&self) -> (r: bool)
        ensures
            r == self.has(HUP),
    {
        self.contains(Ready(HUP))
    }

    pub fn insert(&mut self, other: Ready)
        ensures
            final(self).bits() == old(self).bits() | other.bits(),
    {
        self.0 = self.0 | other.0;
    }

    pub fn remove(&mut self, other: Ready)
        ensures
            final(self).bits() == old(self).bits() & !other.bits(),
    {
        self.0 = self.0 & !other.0;
    }

    pub fn as_usize(&self) -> (r: usize)
        ensures
            r == self.bits(),
    {
        self.0
    }

    /// The union of two sets.
    pub fn bitor(self, other: Ready) -> (r: Ready)
        ensures
            r.bits() == self.bits() | other.bits(),
    {
        Ready(self.0 | other.0)
    }

    /// The flags that are in exactly one of the two sets.
    pub fn bitxor(self, other: Ready) -> (r: Ready)
        ensures
            r.bits() == self.bits() ^ other.bits(),
    {
        Ready(self.0 ^ other.0)
    }

    /// The intersection of two sets.
    pub fn bitand(self, other: Ready) -> (r: Ready)
        ensures
            r.bits() == self.bits() & other.bits(),
    {
        Ready(self.0 & other.0)
    }

    /// The flags of `self` that are not in `other`.
    pub fn sub(self, other: Ready) -> (r: Ready)
        ensures
            r.bits() == self.bits() & !other.bits(),
    {
        Ready(self.0 & !other.0)
    }

    /// The portable flags that are not in `self`.
    pub fn not(self) -> (r: Ready)
        ensures
            r.bits() == !self.bits() & READY_ALL,
    {
        Ready(!self.0 & READY_ALL)
    }
}

impl From<usize> for Ready {
    fn from(event: usize) -> (r: Ready)
        ensures
            r.bits() == event,
    {
        Ready(event)
    }
}

impl vstd::std_specs::convert::FromSpecImpl<usize> for Ready {
    open spec fn obeys_from_spec() -> bool {
        true
    }

    closed spec fn from_spec(event: usize) -> Ready {
        Ready(event)
    }
}

} // verus!
