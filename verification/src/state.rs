//! The packed per-registration state word and its atomic holder.
//!
//! All state a registration needs besides its token slots is packed into one
//! word, from low to high bit:
//!
//! - 4 bits: current readiness
//! - 4 bits: interest
//! - 4 bits: poll options
//! - 2 bits: token slot currently read by the consumer
//! - 2 bits: token slot last written by `update`
//! - 1 bit:  queued flag, set while the node is on the readiness queue
//! - 1 bit:  dropped flag, set when the last `Registration` handle goes away

use vstd::prelude::*;
use crate::ready::PollOpt;
use crate::ready::Ready;

verus! {

pub const MASK_2: u32 = 3;

pub const MASK_4: u32 = 15;

pub const READINESS_SHIFT: u32 = 0;

pub const INTEREST_SHIFT: u32 = 4;

pub const POLL_OPT_SHIFT: u32 = 8;

pub const TOKEN_RD_SHIFT: u32 = 12;

pub const TOKEN_WR_SHIFT: u32 = 14;

pub const QUEUED_SHIFT: u32 = 16;

pub const DROPPED_SHIFT: u32 = 17;

pub const QUEUED_MASK: u32 = 1u32 << 16;

pub const DROPPED_MASK: u32 = 1u32 << 17;

/// The packed state word of one readiness node.
#[derive(Clone, Copy, PartialEq, Eq, Structural, Debug)]
pub struct ReadinessState {
    pub bits: u32,
}

impl ReadinessState {
    /// The readiness field, as the low four bits of the result.
    pub open spec fn readiness_bits(self) -> u32 {
        self.bits & 15
    }

    /// The interest field.
    pub open spec fn interest_bits(self) -> u32 {
        (self.bits >> 4) & 15
    }

    /// The poll-options field.
    pub open spec fn opt_bits(self) -> u32 {
        (self.bits >> 8) & 15
    }

    /// The token slot the consumer reads from.
    pub open spec fn read_pos(self) -> u32 {
        (self.bits >> 12) & 3
    }

    /// The token slot `update` last wrote to.
    pub open spec fn write_pos(self) -> u32 {
        (self.bits >> 14) & 3
    }

    /// The queued flag.
    pub open spec fn queued(self) -> bool {
        self.bits & 0x10000 != 0
    }

    /// The dropped flag.
    pub open spec fn dropped(self) -> bool {
        self.bits & 0x20000 != 0
    }

    /// Readiness restricted to interest.
    pub open spec fn effective_bits(self) -> u32 {
        self.readiness_bits() & self.interest_bits()
    }

    /// Only the eighteen low bits are in use, and each slot index names one
    /// of the three token slots.
    pub open spec fn wf(self) -> bool {
        &&& self.bits < 0x40000
        &&& self.read_pos() <= 2
        &&& self.write_pos() <= 2
    }

    /// A fresh state word: no readiness, the given interest and options,
    /// both token slots at zero, not queued, not dropped.
    pub fn new(interest: Ready, opt: PollOpt) -> (s: ReadinessState)
        requires
            interest.wf(),
            opt.wf(),
        ensures
            s.readiness_bits() == 0,
            s.interest_bits() == interest.0,
            s.opt_bits() == opt.0,
            s.read_pos() == 0,
            s.write_pos() == 0,
            !s.queued(),
            !s.dropped(),
            s.wf(),
    {
        let bits: u32 = ((interest.0 as u32) << 4) | ((opt.0 as u32) << 8);
        proof {
            lemma_new_bits(interest.0 as u32, opt.0 as u32);
        }
        ReadinessState { bits }
    }

    /// Extract the field selected by `mask` and `shift`.
    pub fn get(&self, mask: u32, shift: u32) -> (r: u32)
        requires
            shift < 32,
        ensures
            r == (self.bits >> shift) & mask,
    {
        (self.bits >> shift) & mask
    }

    /// Overwrite the field selected by `mask` and `shift` with `val`.
    pub fn set(&mut self, val: u32, mask: u32, shift: u32)
        requires
            shift < 32,
        ensures
            final(self).bits == (old(self).bits & !(mask << shift)) | (val << shift),
    {
        self.bits = (self.bits & !(mask << shift)) | (val << shift);
    }

    /// The current readiness.
    pub fn readiness(&self) -> (r: Ready)
        ensures
            r.0 == self.readiness_bits(),
            r.wf(),
    {
        let v = self.get(MASK_4, READINESS_SHIFT);
        proof {
            lemma_low_bound(self.bits);
        }
        Ready(v as u8)
    }

    /// Readiness restricted to interest.
    pub fn effective_readiness(&self) -> (r: Ready)
        ensures
            r.0 == self.effective_bits(),
            r.wf(),
    {
        proof {
            lemma_low_bound(self.bits);
            lemma_low_bound(self.bits >> 4);
            lemma_and_low4(self.bits & 15, (self.bits >> 4) & 15);
        }
        self.readiness().intersect(self.interest())
    }

    /// Replace the readiness field.
    pub fn set_readiness(&mut self, v: Ready)
        requires
            v.wf(),
        ensures
            final(self).readiness_bits() == v.0,
            final(self).interest_bits() == old(self).interest_bits(),
            final(self).opt_bits() == old(self).opt_bits(),
            final(self).read_pos() == old(self).read_pos(),
            final(self).write_pos() == old(self).write_pos(),
            final(self).queued() == old(self).queued(),
            final(self).dropped() == old(self).dropped(),
            old(self).wf() ==> final(self).wf(),
    {
        let ghost b = self.bits;
        self.set(v.0 as u32, MASK_4, READINESS_SHIFT);
        proof {
            lemma_set_readiness(b, v.0 as u32, self.bits);
        }
    }

    /// The current interest.
    pub fn interest(&self) -> (r: Ready)
        ensures
            r.0 == self.interest_bits(),
            r.wf(),
    {
        let v = self.get(MASK_4, INTEREST_SHIFT);
        proof {
            lemma_low_bound(self.bits >> 4);
        }
        Ready(v as u8)
    }

    /// Replace the interest field.
    pub fn set_interest(&mut self, v: Ready)
        requires
            v.wf(),
        ensures
            final(self).interest_bits() == v.0,
            final(self).readiness_bits() == old(self).readiness_bits(),
            final(self).opt_bits() == old(self).opt_bits(),
            final(self).read_pos() == old(self).read_pos(),
            final(self).write_pos() == old(self).write_pos(),
            final(self).queued() == old(self).queued(),
            final(self).dropped() == old(self).dropped(),
            old(self).wf() ==> final(self).wf(),
    {
        let ghost b = self.bits;
        self.set(v.0 as u32, MASK_4, INTEREST_SHIFT);
        proof {
            lemma_set_interest(b, v.0 as u32, self.bits);
        }
    }

    /// Clear the interest: no further events until a new `update`.
    pub fn disarm(&mut self)
        ensures
            final(self).interest_bits() == 0,
            final(self).readiness_bits() == old(self).readiness_bits(),
            final(self).opt_bits() == old(self).opt_bits(),
            final(self).read_pos() == old(self).read_pos(),
            final(self).write_pos() == old(self).write_pos(),
            final(self).queued() == old(self).queued(),
            final(self).dropped() == old(self).dropped(),
            old(self).wf() ==> final(self).wf(),
    {
        self.set_interest(Ready::none());
    }

    /// The current poll options.
    pub fn poll_opt(&self) -> (r: PollOpt)
        ensures
            r.0 == self.opt_bits(),
            r.wf(),
    {
        let v = self.get(MASK_4, POLL_OPT_SHIFT);
        proof {
            lemma_low_bound(self.bits >> 8);
        }
        PollOpt(v as u8)
    }

    /// Replace the poll-options field.
    pub fn set_poll_opt(&mut self, v: PollOpt)
        requires
            v.wf(),
        ensures
            final(self).opt_bits() == v.0,
            final(self).readiness_bits() == old(self).readiness_bits(),
            final(self).interest_bits() == old(self).interest_bits(),
            final(self).read_pos() == old(self).read_pos(),
            final(self).write_pos() == old(self).write_pos(),
            final(self).queued() == old(self).queued(),
            final(self).dropped() == old(self).dropped(),
            old(self).wf() ==> final(self).wf(),
    {
        let ghost b = self.bits;
        self.set(v.0 as u32, MASK_4, POLL_OPT_SHIFT);
        proof {
            lemma_set_poll_opt(b, v.0 as u32, self.bits);
        }
    }

    /// Whether the node is on the readiness queue.
    pub fn is_queued(&self) -> (b: bool)
        ensures
            b == self.queued(),
    {
        proof {
            let w = self.bits;
            assert((w & (1u32 << 16) == 1u32 << 16) == (w & 0x10000 != 0)) by (bit_vector);
        }
        self.bits & QUEUED_MASK == QUEUED_MASK
    }

    /// Raise the queued flag.  Dropped nodes are never queued.
    pub fn set_queued(&mut self)
        requires
            !old(self).dropped(),
        ensures
            final(self).queued(),
            final(self).readiness_bits() == old(self).readiness_bits(),
            final(self).interest_bits() == old(self).interest_bits(),
            final(self).opt_bits() == old(self).opt_bits(),
            final(self).read_pos() == old(self).read_pos(),
            final(self).write_pos() == old(self).write_pos(),
            final(self).dropped() == old(self).dropped(),
            old(self).wf() ==> final(self).wf(),
    {
        let ghost b = self.bits;
        self.bits = self.bits | QUEUED_MASK;
        proof {
            lemma_set_queued(b, self.bits);
        }
    }

    /// Clear the queued flag after the consumer dequeued the node.
    pub fn set_dequeued(&mut self)
        requires
            old(self).queued(),
        ensures
            !final(self).queued(),
            final(self).readiness_bits() == old(self).readiness_bits(),
            final(self).interest_bits() == old(self).interest_bits(),
            final(self).opt_bits() == old(self).opt_bits(),
            final(self).read_pos() == old(self).read_pos(),
            final(self).write_pos() == old(self).write_pos(),
            final(self).dropped() == old(self).dropped(),
            old(self).wf() ==> final(self).wf(),
    {
        let ghost b = self.bits;
        self.bits = self.bits & !QUEUED_MASK;
        proof {
            lemma_set_dequeued(b, self.bits);
        }
    }

    /// Whether the last `Registration` handle has been released.
    pub fn is_dropped(&self) -> (b: bool)
        ensures
            b == self.dropped(),
    {
        proof {
            let w = self.bits;
            assert((w & (1u32 << 17) == 1u32 << 17) == (w & 0x20000 != 0)) by (bit_vector);
        }
        self.bits & DROPPED_MASK == DROPPED_MASK
    }

    /// The token slot the consumer reads from.
    pub fn token_read_pos(&self) -> (r: u32)
        ensures
            r == self.read_pos(),
    {
        self.get(MASK_2, TOKEN_RD_SHIFT)
    }

    /// The token slot `update` last wrote to.
    pub fn token_write_pos(&self) -> (r: u32)
        ensures
            r == self.write_pos(),
    {
        self.get(MASK_2, TOKEN_WR_SHIFT)
    }

    /// The slot a new token may be written to: the one slot distinct from
    /// both the read and the write slot, so that neither side can observe a
    /// half-written token.  When the two coincide the successor slot is
    /// chosen.
    pub fn next_token_pos(&self) -> (r: u32)
        requires
            self.wf(),
        ensures
            r == next_slot(self.read_pos() as int, self.write_pos() as int),
            r <= 2,
            r != self.read_pos(),
            r != self.write_pos(),
    {
        let rd = self.token_read_pos();
        let wr = self.token_write_pos();

        match wr {
            0 => {
                match rd {
                    1 => 2,
                    2 => 1,
                    0 => 1,
                    _ => {
                        assert(false);
                        0
                    },
                }
            },
            1 => {
                match rd {
                    0 => 2,
                    2 => 0,
                    1 => 2,
                    _ => {
                        assert(false);
                        0
                    },
                }
            },
            2 => {
                match rd {
                    0 => 1,
                    1 => 0,
                    2 => 0,
                    _ => {
                        assert(false);
                        0
                    },
                }
            },
            _ => {
                assert(false);
                0
            },
        }
    }

    /// Replace the write slot index.
    pub fn set_token_write_pos(&mut self, val: u32)
        requires
            val <= 2,
        ensures
            final(self).write_pos() == val,
            final(self).readiness_bits() == old(self).readiness_bits(),
            final(self).interest_bits() == old(self).interest_bits(),
            final(self).opt_bits() == old(self).opt_bits(),
            final(self).read_pos() == old(self).read_pos(),
            final(self).queued() == old(self).queued(),
            final(self).dropped() == old(self).dropped(),
            old(self).wf() ==> final(self).wf(),
    {
        let ghost b = self.bits;
        self.set(val, MASK_2, TOKEN_WR_SHIFT);
        proof {
            lemma_set_write_pos(b, val, self.bits);
        }
    }

    /// Advance the read slot to the write slot, so that the consumer reads
    /// the most recently supplied token.
    pub fn update_token_read_pos(&mut self)
        ensures
            final(self).read_pos() == old(self).write_pos(),
            final(self).readiness_bits() == old(self).readiness_bits(),
            final(self).interest_bits() == old(self).interest_bits(),
            final(self).opt_bits() == old(self).opt_bits(),
            final(self).write_pos() == old(self).write_pos(),
            final(self).queued() == old(self).queued(),
            final(self).dropped() == old(self).dropped(),
            old(self).wf() ==> final(self).wf(),
    {
        let ghost b = self.bits;
        let val = self.token_write_pos();
        self.set(val, MASK_2, TOKEN_RD_SHIFT);
        proof {
            lemma_low_bound(b >> 14);
            lemma_set_read_pos(b, (b >> 14) & 3, self.bits);
        }
    }
}

/// The token slot `update` writes to next, given the read and write slot
/// indices: the unique slot distinct from both, or the write slot's
/// successor when they coincide.
pub open spec fn next_slot(rd: int, wr: int) -> int {
    if rd == wr {
        (wr + 1) % 3
    } else {
        3 - rd - wr
    }
}

/// A holder for the state word.  Concurrently this would be an atomic
/// integer mutated by compare-and-swap from many threads; in this
/// sequential model the compare-and-swap always observes the stored
/// value, and its contract records both outcomes all the same.
#[derive(Clone, Copy, PartialEq, Eq, Structural, Debug)]
pub struct AtomicState {
    pub inner: ReadinessState,
}

impl AtomicState {
    /// A fresh state holder, see `ReadinessState::new`.
    pub fn new(interest: Ready, opt: PollOpt) -> (s: AtomicState)
        requires
            interest.wf(),
            opt.wf(),
        ensures
            s.inner.readiness_bits() == 0,
            s.inner.interest_bits() == interest.0,
            s.inner.opt_bits() == opt.0,
            s.inner.read_pos() == 0,
            s.inner.write_pos() == 0,
            !s.inner.queued(),
            !s.inner.dropped(),
            s.inner.wf(),
    {
        AtomicState { inner: ReadinessState::new(interest, opt) }
    }

    /// Read the current state word.
    pub fn load(&self) -> (s: ReadinessState)
        ensures
            s == self.inner,
    {
        self.inner
    }

    /// Store `new` if the current word equals `current`; always return the
    /// word observed before the store.
    pub fn compare_and_swap(&mut self, current: ReadinessState, new: ReadinessState) -> (prev:
        ReadinessState)
        ensures
            prev == old(self).inner,
            old(self).inner == current ==> final(self).inner == new,
            old(self).inner != current ==> final(self).inner == old(self).inner,
    {
        let prev = self.inner;
        if prev == current {
            self.inner = new;
        }
        prev
    }

    /// Raise the dropped flag, leaving every other field alone.
    pub fn flag_as_dropped(&mut self)
        requires
            !old(self).inner.dropped(),
        ensures
            final(self).inner.dropped(),
            final(self).inner.readiness_bits() == old(self).inner.readiness_bits(),
            final(self).inner.interest_bits() == old(self).inner.interest_bits(),
            final(self).inner.opt_bits() == old(self).inner.opt_bits(),
            final(self).inner.read_pos() == old(self).inner.read_pos(),
            final(self).inner.write_pos() == old(self).inner.write_pos(),
            final(self).inner.queued() == old(self).inner.queued(),
            old(self).inner.wf() ==> final(self).inner.wf(),
    {
        let ghost b = self.inner.bits;
        self.inner.bits = self.inner.bits | DROPPED_MASK;
        proof {
            lemma_set_dropped(b, self.inner.bits);
        }
    }
}

/// Any value masked to four or two bits is small, and a shift by zero is
/// the identity.
proof fn lemma_low_bound(x: u32)
    by (bit_vector)
    ensures
        x & 15 < 16,
        x & 3 < 4,
        x >> 0 == x,
{
}

/// The intersection of two four-bit values stays within four bits and is
/// the same whether taken at eight or at thirty-two bits.
proof fn lemma_and_low4(x: u32, y: u32)
    by (bit_vector)
    requires
        x < 16,
        y < 16,
    ensures
        ((x as u8) & (y as u8)) == (x & y) as u8,
        x & y < 16,
{
}

/// Field decomposition of a fresh state word.
proof fn lemma_new_bits(i: u32, o: u32)
    by (bit_vector)
    requires
        i < 16,
        o < 16,
    ensures
        ((i << 4) | (o << 8)) & 15 == 0,
        (((i << 4) | (o << 8)) >> 4) & 15 == i,
        (((i << 4) | (o << 8)) >> 8) & 15 == o,
        (((i << 4) | (o << 8)) >> 12) & 3 == 0,
        (((i << 4) | (o << 8)) >> 14) & 3 == 0,
        ((i << 4) | (o << 8)) & 0x10000 == 0,
        ((i << 4) | (o << 8)) & 0x20000 == 0,
        ((i << 4) | (o << 8)) < 0x40000,
{
}

/// Writing the readiness field changes no other field.
proof fn lemma_set_readiness(b: u32, v: u32, nb: u32)
    by (bit_vector)
    requires
        v < 16,
        nb == (b & !(15u32 << 0)) | (v << 0),
    ensures
        nb & 15 == v,
        (nb >> 4) & 15 == (b >> 4) & 15,
        (nb >> 8) & 15 == (b >> 8) & 15,
        (nb >> 12) & 3 == (b >> 12) & 3,
        (nb >> 14) & 3 == (b >> 14) & 3,
        (nb & 0x10000 != 0) == (b & 0x10000 != 0),
        (nb & 0x20000 != 0) == (b & 0x20000 != 0),
        b < 0x40000 ==> nb < 0x40000,
{
}

/// Writing the interest field changes no other field.
proof fn lemma_set_interest(b: u32, v: u32, nb: u32)
    by (bit_vector)
    requires
        v < 16,
        nb == (b & !(15u32 << 4)) | (v << 4),
    ensures
        nb & 15 == b & 15,
        (nb >> 4) & 15 == v,
        (nb >> 8) & 15 == (b >> 8) & 15,
        (nb >> 12) & 3 == (b >> 12) & 3,
        (nb >> 14) & 3 == (b >> 14) & 3,
        (nb & 0x10000 != 0) == (b & 0x10000 != 0),
        (nb & 0x20000 != 0) == (b & 0x20000 != 0),
        b < 0x40000 ==> nb < 0x40000,
{
}

/// Writing the options field changes no other field.
proof fn lemma_set_poll_opt(b: u32, v: u32, nb: u32)
    by (bit_vector)
    requires
        v < 16,
        nb == (b & !(15u32 << 8)) | (v << 8),
    ensures
        nb & 15 == b & 15,
        (nb >> 4) & 15 == (b >> 4) & 15,
        (nb >> 8) & 15 == v,
        (nb >> 12) & 3 == (b >> 12) & 3,
        (nb >> 14) & 3 == (b >> 14) & 3,
        (nb & 0x10000 != 0) == (b & 0x10000 != 0),
        (nb & 0x20000 != 0) == (b & 0x20000 != 0),
        b < 0x40000 ==> nb < 0x40000,
{
}

/// Writing the read slot index changes no other field.
proof fn lemma_set_read_pos(b: u32, v: u32, nb: u32)
    by (bit_vector)
    requires
        v < 4,
        nb == (b & !(3u32 << 12)) | (v << 12),
    ensures
        nb & 15 == b & 15,
        (nb >> 4) & 15 == (b >> 4) & 15,
        (nb >> 8) & 15 == (b >> 8) & 15,
        (nb >> 12) & 3 == v,
        (nb >> 14) & 3 == (b >> 14) & 3,
        (nb & 0x10000 != 0) == (b & 0x10000 != 0),
        (nb & 0x20000 != 0) == (b & 0x20000 != 0),
        b < 0x40000 ==> nb < 0x40000,
{
}

/// Writing the write slot index changes no other field.
proof fn lemma_set_write_pos(b: u32, v: u32, nb: u32)
    by (bit_vector)
    requires
        v < 4,
        nb == (b & !(3u32 << 14)) | (v << 14),
    ensures
        nb & 15 == b & 15,
        (nb >> 4) & 15 == (b >> 4) & 15,
        (nb >> 8) & 15 == (b >> 8) & 15,
        (nb >> 12) & 3 == (b >> 12) & 3,
        (nb >> 14) & 3 == v,
        (nb & 0x10000 != 0) == (b & 0x10000 != 0),
        (nb & 0x20000 != 0) == (b & 0x20000 != 0),
        b < 0x40000 ==> nb < 0x40000,
{
}

/// Raising the queued bit changes no other field.
proof fn lemma_set_queued(b: u32, nb: u32)
    by (bit_vector)
    requires
        nb == b | (1u32 << 16),
    ensures
        nb & 15 == b & 15,
        (nb >> 4) & 15 == (b >> 4) & 15,
        (nb >> 8) & 15 == (b >> 8) & 15,
        (nb >> 12) & 3 == (b >> 12) & 3,
        (nb >> 14) & 3 == (b >> 14) & 3,
        nb & 0x10000 != 0,
        (nb & 0x20000 != 0) == (b & 0x20000 != 0),
        b < 0x40000 ==> nb < 0x40000,
{
}

/// Clearing the queued bit changes no other field.
proof fn lemma_set_dequeued(b: u32, nb: u32)
    by (bit_vector)
    requires
        nb == b & !(1u32 << 16),
    ensures
        nb & 15 == b & 15,
        (nb >> 4) & 15 == (b >> 4) & 15,
        (nb >> 8) & 15 == (b >> 8) & 15,
        (nb >> 12) & 3 == (b >> 12) & 3,
        (nb >> 14) & 3 == (b >> 14) & 3,
        nb & 0x10000 == 0,
        (nb & 0x20000 != 0) == (b & 0x20000 != 0),
        b < 0x40000 ==> nb < 0x40000,
{
}

/// Raising the dropped bit changes no other field.
proof fn lemma_set_dropped(b: u32, nb: u32)
    by (bit_vector)
    requires
        nb == b | (1u32 << 17),
    ensures
        nb & 15 == b & 15,
        (nb >> 4) & 15 == (b >> 4) & 15,
        (nb >> 8) & 15 == (b >> 8) & 15,
        (nb >> 12) & 3 == (b >> 12) & 3,
        (nb >> 14) & 3 == (b >> 14) & 3,
        (nb & 0x10000 != 0) == (b & 0x10000 != 0),
        nb & 0x20000 != 0,
        b < 0x40000 ==> nb < 0x40000,
{
}

} // verus!
