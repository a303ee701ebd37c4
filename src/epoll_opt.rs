use vstd::prelude::*;

verus! {

pub const EDGE: usize = 0b0001;

pub const LEVEL: usize = 0b0010;

pub const ONESHOT: usize = 0b0100;

/// Registration options: edge-triggered, level-triggered and oneshot.
#[derive(Copy, Clone, Debug, PartialEq, Eq, Structural, PartialOrd, Ord, Hash)]
pub struct EpollOpt(usize);

/// The options given when a source is registered with a `Poll`.
pub type PollOpt = EpollOpt;

impl EpollOpt {
    /// The raw bits of the set.
    pub closed spec fn bits(self) -> usize {
        self.0
    }

    /// Whether every flag of `other` is in `self`.
    pub open spec fn has(self, other: usize) -> bool {
        self.bits() & other == other
    }

    pub fn empty() -> (r: EpollOpt)
        ensures
            r.bits() == 0,
    {
        EpollOpt(0)
    }

    pub fn edge() -> (r: EpollOpt)
        ensures
            r.bits() == EDGE,
    {
        EpollOpt(EDGE)
    }

    pub fn level() -> (r: EpollOpt)
        ensures
            r.bits() == LEVEL,
    {
        EpollOpt(LEVEL)
    }

    pub fn oneshot() -> (r: EpollOpt)
        ensures
            r.bits() == ONESHOT,
    {
        EpollOpt(ONESHOT)
    }

    pub fn is_edge(self) -> (r: bool)
        ensures
            r == self.has(EDGE),
    {
        self.contains(EpollOpt::edge())
    }

    pub fn is_level(self) -> (r: bool)
        ensures
            r == self.has(LEVEL),
    {
        self.contains(EpollOpt::level())
    }

    pub fn is_oneshot(self) -> (r: bool)
        ensures
            r == self.has(ONESHOT),
    {
        self.contains(EpollOpt::oneshot())
    }

    pub fn contains(self, other: EpollOpt) -> (r: bool)
        ensures
            r == self.has(other.bits()),
    {
        self.0 & other.0 == other.0
    }

    pub fn insert(&mut self, other: EpollOpt)
        ensures
            final(self).bits() == old(self).bits() | other.bits(),
    {
        self.0 = self.0 | other.0;
    }

    pub fn remove(&mut self, other: EpollOpt)
        ensures
            final(self).bits() == old(self).bits() & !other.bits(),
    {
        self.0 = self.0 & !other.0;
    }

    pub fn as_usize(self) -> (r: usize)
        ensures
            r == self.bits(),
    {
        self.0
    }

    /// The union of two sets.
    pub fn bitor(self, other: EpollOpt) -> (r: EpollOpt)
        ensures
            r.bits() == self.bits() | other.bits(),
    {
        EpollOpt(self.0 | other.0)
    }

    /// The flags that are in exactly one of the two sets.
    pub fn bitxor(self, other: EpollOpt) -> (r: EpollOpt)
        ensures
            r.bits() == self.bits() ^ other.bits(),
    {
        EpollOpt(self.0 ^ other.0)
    }

    /// The intersection of two sets.
    pub fn bitand(self, other: EpollOpt) -> (r: EpollOpt)
        ensures
            r.bits() == self.bits() & other.bits(),
    {
        EpollOpt(self.0 & other.0)
    }

    /// The flags of `self` that are not in `other`.
    pub fn sub(self, other: EpollOpt) -> (r: EpollOpt)
        ensures
            r.bits() == self.bits() & !other.bits(),
    {
        EpollOpt(self.0 & !other.0)
    }

    /// The complement of the set, over every bit of the word.
    pub fn not(self) -> (r: EpollOpt)
        ensures
            r.bits() == !self.bits(),
    {
        EpollOpt(!self.0)
    }
}

impl From<usize> for EpollOpt {
    fn from(opt: usize) -> (r: EpollOpt)
        ensures
            r.bits() == opt,
    {
        EpollOpt(opt)
    }
}

impl vstd::std_specs::convert::FromSpecImpl<usize> for EpollOpt {
    open spec fn obeys_from_spec() -> bool {
        true
    }

    closed spec fn from_spec(opt: usize) -> EpollOpt {
        EpollOpt(opt)
    }
}

} // verus!
