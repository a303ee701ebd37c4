use vstd::prelude::*;

use crate::epoll_opt::EpollOpt;
use crate::ready::Ready;

verus! {

/// The fields of a registration's state word, as plain values.
pub struct StateView {
    pub readiness: usize,
    pub interest: usize,
    pub options: usize,
    pub read_pos: usize,
    pub write_pos: usize,
    pub queued: bool,
    pub dropped: bool,
}

pub open spec fn readiness_of(w: usize) -> usize {
    w & 0xf
}

pub open spec fn interest_of(w: usize) -> usize {
    (w >> 4usize) & 0xf
}

pub open spec fn options_of(w: usize) -> usize {
    (w >> 8usize) & 0xf
}

pub open spec fn read_pos_of(w: usize) -> usize {
    (w >> 12usize) & 0x3
}

pub open spec fn write_pos_of(w: usize) -> usize {
    (w >> 14usize) & 0x3
}

pub open spec fn queued_of(w: usize) -> bool {
    (w >> 16usize) & 1 == 1
}

pub open spec fn dropped_of(w: usize) -> bool {
    (w >> 17usize) & 1 == 1
}

/// The token slot that is neither `rd` nor `wr`, the lowest if two are free.
pub open spec fn next_slot(rd: usize, wr: usize) -> usize {
    if rd != 0 && wr != 0 {
        0
    } else if rd != 1 && wr != 1 {
        1
    } else {
        2
    }
}

/// Every field of a state word.
pub open spec fn fields_of(w: usize) -> StateView {
    StateView {
        readiness: readiness_of(w),
        interest: interest_of(w),
        options: options_of(w),
        read_pos: read_pos_of(w),
        write_pos: write_pos_of(w),
        queued: queued_of(w),
        dropped: dropped_of(w),
    }
}

/// A registration's readiness, interest, options, token positions and
/// bookkeeping flags, packed in one machine word so that they change together.
#[derive(Copy, Clone, Debug, PartialEq, Eq, Structural)]
pub struct ReadinessState(usize);

proof fn lemma_put_readiness(w: usize, v: usize)
    requires
        v < 16,
    ensures
        fields_of((w & !0xfusize) | v) == (StateView { readiness: v, ..fields_of(w) }),
{
    assert(readiness_of((w & !0xfusize) | v) == v) by (bit_vector)
        requires
            v < 16,
    ;
    assert(interest_of((w & !0xfusize) | v) == interest_of(w) && options_of(
        (w & !0xfusize) | v,
    ) == options_of(w) && read_pos_of((w & !0xfusize) | v) == read_pos_of(w) && write_pos_of(
        (w & !0xfusize) | v,
    ) == write_pos_of(w) && queued_of((w & !0xfusize) | v) == queued_of(w) && dropped_of(
        (w & !0xfusize) | v,
    ) == dropped_of(w)) by (bit_vector)
        requires
            v < 16,
    ;
}

proof fn lemma_put_interest(w: usize, v: usize)
    requires
        v < 16,
    ensures
        fields_of((w & !0xf0usize) | (v << 4usize)) == (StateView { interest: v, ..fields_of(w) }),
{
    assert(readiness_of((w & !0xf0usize) | (v << 4usize)) == readiness_of(w) && interest_of(
        (w & !0xf0usize) | (v << 4usize),
    ) == v && options_of((w & !0xf0usize) | (v << 4usize)) == options_of(w) && read_pos_of(
        (w & !0xf0usize) | (v << 4usize),
    ) == read_pos_of(w) && write_pos_of((w & !0xf0usize) | (v << 4usize)) == write_pos_of(w)
        && queued_of((w & !0xf0usize) | (v << 4usize)) == queued_of(w) && dropped_of(
        (w & !0xf0usize) | (v << 4usize),
    ) == dropped_of(w)) by (bit_vector)
        requires
            v < 16,
    ;
}

proof fn lemma_put_options(w: usize, v: usize)
    requires
        v < 16,
    ensures
        fields_of((w & !0xf00usize) | (v << 8usize)) == (StateView { options: v, ..fields_of(w) }),
{
    assert(readiness_of((w & !0xf00usize) | (v << 8usize)) == readiness_of(w) && interest_of(
        (w & !0xf00usize) | (v << 8usize),
    ) == interest_of(w) && options_of((w & !0xf00usize) | (v << 8usize)) == v && read_pos_of(
        (w & !0xf00usize) | (v << 8usize),
    ) == read_pos_of(w) && write_pos_of((w & !0xf00usize) | (v << 8usize)) == write_pos_of(w)
        && queued_of((w & !0xf00usize) | (v << 8usize)) == queued_of(w) && dropped_of(
        (w & !0xf00usize) | (v << 8usize),
    ) == dropped_of(w)) by (bit_vector)
        requires
            v < 16,
    ;
}

proof fn lemma_put_read_pos(w: usize, v: usize)
    requires
        v < 4,
    ensures
        fields_of((w & !0x3000usize) | (v << 12usize)) == (StateView {
            read_pos: v,
            ..fields_of(w)
        }),
{
    assert(readiness_of((w & !0x3000usize) | (v << 12usize)) == readiness_of(w) && interest_of(
        (w & !0x3000usize) | (v << 12usize),
    ) == interest_of(w) && options_of((w & !0x3000usize) | (v << 12usize)) == options_of(w)
        && read_pos_of((w & !0x3000usize) | (v << 12usize)) == v && write_pos_of(
        (w & !0x3000usize) | (v << 12usize),
    ) == write_pos_of(w) && queued_of((w & !0x3000usize) | (v << 12usize)) == queued_of(w)
        && dropped_of((w & !0x3000usize) | (v << 12usize)) == dropped_of(w)) by (bit_vector)
        requires
            v < 4,
    ;
}

proof fn lemma_put_write_pos(w: usize, v: usize)
    requires
        v < 4,
    ensures
        fields_of((w & !0xc000usize) | (v << 14usize)) == (StateView {
            write_pos: v,
            ..fields_of(w)
        }),
{
    assert(readiness_of((w & !0xc000usize) | (v << 14usize)) == readiness_of(w) && interest_of(
        (w & !0xc000usize) | (v << 14usize),
    ) == interest_of(w) && options_of((w & !0xc000usize) | (v << 14usize)) == options_of(w)
        && read_pos_of((w & !0xc000usize) | (v << 14usize)) == read_pos_of(w) && write_pos_of(
        (w & !0xc000usize) | (v << 14usize),
    ) == v && queued_of((w & !0xc000usize) | (v << 14usize)) == queued_of(w) && dropped_of(
        (w & !0xc000usize) | (v << 14usize),
    ) == dropped_of(w)) by (bit_vector)
        requires
            v < 4,
    ;
}

proof fn lemma_set_queued(w: usize)
    ensures
        fields_of(w | 0x10000usize) == (StateView { queued: true, ..fields_of(w) }),
{
    assert(readiness_of(w | 0x10000usize) == readiness_of(w) && interest_of(w | 0x10000usize)
        == interest_of(w) && options_of(w | 0x10000usize) == options_of(w) && read_pos_of(
        w | 0x10000usize,
    ) == read_pos_of(w) && write_pos_of(w | 0x10000usize) == write_pos_of(w) && queued_of(
        w | 0x10000usize,
    ) && dropped_of(w | 0x10000usize) == dropped_of(w)) by (bit_vector);
}

proof fn lemma_clear_queued(w: usize)
    ensures
        fields_of(w & !0x10000usize) == (StateView { queued: false, ..fields_of(w) }),
{
    assert(readiness_of(w & !0x10000usize) == readiness_of(w) && interest_of(w & !0x10000usize)
        == interest_of(w) && options_of(w & !0x10000usize) == options_of(w) && read_pos_of(
        w & !0x10000usize,
    ) == read_pos_of(w) && write_pos_of(w & !0x10000usize) == write_pos_of(w) && !queued_of(
        w & !0x10000usize,
    ) && dropped_of(w & !0x10000usize) == dropped_of(w)) by (bit_vector);
}

proof fn lemma_set_dropped(w: usize)
    ensures
        fields_of(w | 0x30000usize) == (StateView {
            queued: true,
            dropped: true,
            ..fields_of(w)
        }),
{
    assert(readiness_of(w | 0x30000usize) == readiness_of(w) && interest_of(w | 0x30000usize)
        == interest_of(w) && options_of(w | 0x30000usize) == options_of(w) && read_pos_of(
        w | 0x30000usize,
    ) == read_pos_of(w) && write_pos_of(w | 0x30000usize) == write_pos_of(w) && queued_of(
        w | 0x30000usize,
    ) && dropped_of(w | 0x30000usize)) by (bit_vector);
}

proof fn lemma_field_bounds(w: usize)
    ensures
        readiness_of(w) < 16,
        interest_of(w) < 16,
        options_of(w) < 16,
        read_pos_of(w) < 4,
        write_pos_of(w) < 4,
{
    assert(readiness_of(w) < 16 && interest_of(w) < 16 && options_of(w) < 16 && read_pos_of(w)
        < 4 && write_pos_of(w) < 4) by (bit_vector);
}

impl View for ReadinessState {
    type V = StateView;

    closed spec fn view(&self) -> StateView {
        fields_of(self.0)
    }
}

impl ReadinessState {
    /// A state with the given readiness, interest and options, both token
    /// positions at the first slot, and neither queued nor dropped.
    pub fn new(interest: Ready, opt: EpollOpt) -> (r: ReadinessState)
        requires
            interest.bits() < 16,
            opt.bits() < 16,
        ensures
            r@ == (StateView {
                readiness: 0,
                interest: interest.bits(),
                options: opt.bits(),
                read_pos: 0,
                write_pos: 0,
                queued: false,
                dropped: false,
            }),
    {
        let mut s = ReadinessState(0);
        assert(fields_of(0usize) == (StateView {
            readiness: 0,
            interest: 0,
            options: 0,
            read_pos: 0,
            write_pos: 0,
            queued: false,
            dropped: false,
        })) by {
            assert(readiness_of(0usize) == 0 && interest_of(0usize) == 0 && options_of(0usize) == 0
                && read_pos_of(0usize) == 0 && write_pos_of(0usize) == 0 && !queued_of(0usize)
                && !dropped_of(0usize)) by (bit_vector);
        }
        s.set_interest(interest);
        s.set_poll_opt(opt);
        s
    }

    pub fn readiness(&self) -> (r: Ready)
        ensures
            r.bits() == self@.readiness,
    {
        Ready::from(self.0 & 0xf)
    }

    pub fn interest(&self) -> (r: Ready)
        ensures
            r.bits() == self@.interest,
    {
        Ready::from((self.0 >> 4) & 0xf)
    }

    /// The readiness that the registration is interested in.
    pub fn effective_readiness(&self) -> (r: Ready)
        ensures
            r.bits() == self@.readiness & self@.interest,
    {
        self.readiness().bitand(self.interest())
    }

    pub fn poll_opt(&self) -> (r: EpollOpt)
        ensures
            r.bits() == self@.options,
    {
        EpollOpt::from((self.0 >> 8) & 0xf)
    }

    pub fn token_read_pos(&self) -> (r: usize)
        ensures
            r == self@.read_pos,
    {
        (self.0 >> 12) & 0x3
    }

    pub fn token_write_pos(&self) -> (r: usize)
        ensures
            r == self@.write_pos,
    {
        (self.0 >> 14) & 0x3
    }

    pub fn is_queued(&self) -> (r: bool)
        ensures
            r == self@.queued,
    {
        (self.0 >> 16) & 1 == 1
    }

    pub fn is_dropped(&self) -> (r: bool)
        ensures
            r == self@.dropped,
    {
        (self.0 >> 17) & 1 == 1
    }

    pub fn set_readiness(&mut self, ready: Ready)
        requires
            ready.bits() < 16,
        ensures
            final(self)@ == (StateView { readiness: ready.bits(), ..old(self)@ }),
    {
        let w = self.0;
        let v = ready.as_usize();
        proof {
            lemma_put_readiness(w, v);
        }
        self.0 = (w & !0xf) | v;
    }

    pub fn set_interest(&mut self, interest: Ready)
        requires
            interest.bits() < 16,
        ensures
            final(self)@ == (StateView { interest: interest.bits(), ..old(self)@ }),
    {
        let w = self.0;
        let v = interest.as_usize();
        proof {
            lemma_put_interest(w, v);
        }
        self.0 = (w & !0xf0) | (v << 4);
    }

    pub fn set_poll_opt(&mut self, opt: EpollOpt)
        requires
            opt.bits() < 16,
        ensures
            final(self)@ == (StateView { options: opt.bits(), ..old(self)@ }),
    {
        let w = self.0;
        let v = opt.as_usize();
        proof {
            lemma_put_options(w, v);
        }
        self.0 = (w & !0xf00) | (v << 8);
    }

    /// Stops delivery until the next update: the interest becomes empty.
    pub fn disarm(&mut self)
        ensures
            final(self)@ == (StateView { interest: 0, ..old(self)@ }),
    {
        self.set_interest(Ready::empty());
    }

    pub fn set_token_write_pos(&mut self, pos: usize)
        requires
            pos < 3,
        ensures
            final(self)@ == (StateView { write_pos: pos, ..old(self)@ }),
    {
        let w = self.0;
        proof {
            lemma_put_write_pos(w, pos);
        }
        self.0 = (w & !0xc000) | (pos << 14);
    }

    /// The poll thread takes the latest published token slot as the one it
    /// reads.
    pub fn update_token_read_pos(&mut self)
        ensures
            final(self)@ == (StateView { read_pos: old(self)@.write_pos, ..old(self)@ }),
    {
        let w = self.0;
        let v = self.token_write_pos();
        proof {
            lemma_field_bounds(w);
            lemma_put_read_pos(w, v);
        }
        self.0 = (w & !0x3000) | (v << 12);
    }

    /// The slot that a writer may fill: neither the one being read nor the
    /// latest published one.
    pub fn next_token_pos(&self) -> (r: usize)
        requires
            self@.read_pos < 3,
            self@.write_pos < 3,
        ensures
            r == next_slot(self@.read_pos, self@.write_pos),
            r < 3,
            r != self@.read_pos,
            r != self@.write_pos,
    {
        let rd = self.token_read_pos();
        let wr = self.token_write_pos();
        if rd != 0 && wr != 0 {
            0
        } else if rd != 1 && wr != 1 {
            1
        } else {
            2
        }
    }

    pub fn set_queued(&mut self)
        ensures
            final(self)@ == (StateView { queued: true, ..old(self)@ }),
    {
        let w = self.0;
        proof {
            lemma_set_queued(w);
        }
        self.0 = w | 0x10000;
    }

    pub fn set_dequeued(&mut self)
        ensures
            final(self)@ == (StateView { queued: false, ..old(self)@ }),
    {
        let w = self.0;
        proof {
            lemma_clear_queued(w);
        }
        self.0 = w & !0x10000;
    }

    /// Marks the registration as gone; it is also marked queued, so that the
    /// poll thread sees it once more. Returns whether it was not queued
    /// before, in which case the caller must enqueue it.
    pub fn flag_as_dropped(&mut self) -> (r: bool)
        ensures
            final(self)@ == (StateView { queued: true, dropped: true, ..old(self)@ }),
            r == !old(self)@.queued,
    {
        let w = self.0;
        let was_queued = self.is_queued();
        proof {
            lemma_set_dropped(w);
        }
        self.0 = w | 0x30000;
        !was_queued
    }
}

} // verus!
