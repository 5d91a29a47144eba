//! Plain value types: tokens, readiness sets, poll options, events, errors.

use vstd::prelude::*;

verus! {

/// Token value reserved for the consumer's awakener.  User registrations
/// must never use it; `Poll::register` rejects it.
pub const AWAKEN: usize = usize::MAX;

/// An opaque identifier chosen by the caller to recognise a registration
/// in the events that `Poll::poll` delivers.
#[derive(Clone, Copy, PartialEq, Eq, Structural, Debug)]
pub struct Token(pub usize);

/// A small set of readiness kinds (readable, writable, ...), encoded in the
/// low four bits of a byte.
#[derive(Clone, Copy, PartialEq, Eq, Structural, Debug)]
pub struct Ready(pub u8);

impl Ready {
    /// A readiness set fits in four bits.
    pub open spec fn wf(self) -> bool {
        self.0 < 16
    }

    /// The empty readiness set.
    pub fn none() -> (r: Ready)
        ensures
            r.0 == 0,
            r.wf(),
    {
        Ready(0)
    }

    /// The set containing only readable.
    pub fn readable() -> (r: Ready)
        ensures
            r.0 == 1,
            r.wf(),
    {
        Ready(1)
    }

    /// The set containing only writable.
    pub fn writable() -> (r: Ready)
        ensures
            r.0 == 2,
            r.wf(),
    {
        Ready(2)
    }

    /// The set containing both readable and writable.
    pub fn all() -> (r: Ready)
        ensures
            r.0 == 3,
            r.wf(),
    {
        Ready(3)
    }

    /// Whether the set contains readable.
    pub fn is_readable(&self) -> (b: bool)
        ensures
            b == (self.0 & 1 != 0),
    {
        self.0 & 1 != 0
    }

    /// Whether the set contains writable.
    pub fn is_writable(&self) -> (b: bool)
        ensures
            b == (self.0 & 2 != 0),
    {
        self.0 & 2 != 0
    }

    /// Whether the set is non-empty.
    pub fn is_some(&self) -> (b: bool)
        ensures
            b == (self.0 != 0),
    {
        self.0 != 0
    }

    /// Whether the set is empty.
    pub fn is_none(&self) -> (b: bool)
        ensures
            b == (self.0 == 0),
    {
        self.0 == 0
    }

    /// The union of two readiness sets.
    pub fn union(self, other: Ready) -> (r: Ready)
        ensures
            r.0 == self.0 | other.0,
            self.wf() && other.wf() ==> r.wf(),
    {
        proof {
            lemma_low4_closed(self.0, other.0);
        }
        Ready(self.0 | other.0)
    }

    /// The intersection of two readiness sets.
    pub fn intersect(self, other: Ready) -> (r: Ready)
        ensures
            r.0 == self.0 & other.0,
            self.wf() ==> r.wf(),
            other.wf() ==> r.wf(),
    {
        proof {
            lemma_low4_closed(self.0, other.0);
        }
        Ready(self.0 & other.0)
    }

    /// Whether every kind in `other` is also in `self`.
    pub fn contains(self, other: Ready) -> (b: bool)
        ensures
            b == (self.0 & other.0 == other.0),
    {
        self.0 & other.0 == other.0
    }
}

/// Union and intersection stay within the four readiness bits.
proof fn lemma_low4_closed(a: u8, b: u8)
    by (bit_vector)
    ensures
        a < 16 && b < 16 ==> (a | b) < 16,
        a < 16 ==> (a & b) < 16,
        b < 16 ==> (a & b) < 16,
{
}

/// A small set of poll options, encoded in the low four bits of a byte.
/// `edge`, `level` and `oneshot` select the notification style.
#[derive(Clone, Copy, PartialEq, Eq, Structural, Debug)]
pub struct PollOpt(pub u8);

impl PollOpt {
    /// An options set fits in four bits.
    pub open spec fn wf(self) -> bool {
        self.0 < 16
    }

    /// No options.
    pub fn empty() -> (r: PollOpt)
        ensures
            r.0 == 0,
            r.wf(),
    {
        PollOpt(0)
    }

    /// Edge-triggered notifications.
    pub fn edge() -> (r: PollOpt)
        ensures
            r.0 == 1,
            r.wf(),
    {
        PollOpt(1)
    }

    /// Level-triggered notifications.
    pub fn level() -> (r: PollOpt)
        ensures
            r.0 == 2,
            r.wf(),
    {
        PollOpt(2)
    }

    /// Interest is cleared after the first delivered event.
    pub fn oneshot() -> (r: PollOpt)
        ensures
            r.0 == 4,
            r.wf(),
    {
        PollOpt(4)
    }

    /// Whether the edge option is set.
    pub fn is_edge(&self) -> (b: bool)
        ensures
            b == (self.0 & 1 != 0),
    {
        self.0 & 1 != 0
    }

    /// Whether the level option is set.
    pub fn is_level(&self) -> (b: bool)
        ensures
            b == (self.0 & 2 != 0),
    {
        self.0 & 2 != 0
    }

    /// Whether the oneshot option is set.
    pub fn is_oneshot(&self) -> (b: bool)
        ensures
            b == (self.0 & 4 != 0),
    {
        self.0 & 4 != 0
    }

    /// The union of two option sets.
    pub fn union(self, other: PollOpt) -> (r: PollOpt)
        ensures
            r.0 == self.0 | other.0,
            self.wf() && other.wf() ==> r.wf(),
    {
        proof {
            lemma_low4_closed(self.0, other.0);
        }
        PollOpt(self.0 | other.0)
    }
}

/// A readiness notification delivered by `Poll::poll`: the effective
/// readiness of a registration together with its current token.
#[derive(Clone, Copy, PartialEq, Eq, Structural, Debug)]
pub struct Event {
    pub kind: Ready,
    pub token: Token,
}

impl Event {
    /// Build an event from a readiness set and a token.
    pub fn new(kind: Ready, token: Token) -> (e: Event)
        ensures
            e.kind == kind,
            e.token == token,
    {
        Event { kind, token }
    }

    /// The readiness carried by the event.
    pub fn kind(&self) -> (r: Ready)
        ensures
            r == self.kind,
    {
        self.kind
    }

    /// The token carried by the event.
    pub fn token(&self) -> (t: Token)
        ensures
            t == self.token,
    {
        self.token
    }
}

/// The errors this library surfaces to callers.
#[derive(Clone, Copy, PartialEq, Eq, Structural, Debug)]
pub enum Error {
    /// A reserved token was used, or the interest was empty.
    InvalidArgs,
    /// `update` was invoked against a poll instance other than the one the
    /// registration was created with.
    InvalidPoll,
}

} // verus!
