//! The per-registration readiness node.
//!
//! One node is shared by a `Registration` handle, any number of
//! `SetReadiness` handles, and the consumer inside `Poll::poll`.  Everything
//! but the token slots lives in the packed state word; the three token
//! slots are rotated so that the consumer can read one slot while `update`
//! writes another.  The queue linkage (the `next` pointer of an intrusive
//! list) is held by the readiness queue itself, which stores the indices
//! of queued nodes in order.

use vstd::prelude::*;
use crate::ready::PollOpt;
use crate::ready::Ready;
use crate::ready::Token;
use crate::state::AtomicState;

verus! {

/// Shared record for one registration.  Nodes live in the slab owned by
/// the readiness queue and are identified by their index there; `gen` is a
/// creation stamp that stands in for the node's address, letting a handle
/// prove it talks about the poll instance that created it.
#[derive(Clone, Copy, PartialEq, Eq, Structural, Debug)]
pub struct ReadinessNode {
    /// Packed state word, the point of coordination for the node.
    pub state: AtomicState,
    /// First token slot; holds the registration token at creation.
    pub token_0: Token,
    /// Second token slot.
    pub token_1: Token,
    /// Third token slot.
    pub token_2: Token,
    /// Single-writer guard for `update`; false whenever no update is running.
    pub update_lock: bool,
    /// Number of outstanding `Registration` handles.
    pub num_registration: usize,
    /// Total strong references: handles plus the consumer's implicit one.
    /// The node is reclaimed when it reaches zero.
    pub ref_count: usize,
    /// Creation stamp, unique within one poll instance.
    pub gen: u64,
}

impl ReadinessNode {
    /// The token slot selected by `pos`.
    pub open spec fn spec_token(self, pos: int) -> Token {
        if pos == 0 {
            self.token_0
        } else if pos == 1 {
            self.token_1
        } else {
            self.token_2
        }
    }

    /// The token most recently supplied for this registration: the slot
    /// the state word's write position names.
    pub open spec fn current_token(self) -> Token {
        self.spec_token(self.state.inner.write_pos() as int)
    }

    /// The state word is well formed and no update is in progress.
    pub open spec fn wf(self) -> bool {
        &&& self.state.inner.wf()
        &&& !self.update_lock
    }

    /// A fresh node: three references (one `Registration`, one
    /// `SetReadiness`, one for the consumer), one registration handle, the
    /// registration token in slot zero and the remaining slots at a
    /// sentinel value.
    pub fn new(token: Token, interest: Ready, opt: PollOpt, gen: u64) -> (n: ReadinessNode)
        requires
            interest.wf(),
            opt.wf(),
        ensures
            n.state.inner.readiness_bits() == 0,
            n.state.inner.interest_bits() == interest.0,
            n.state.inner.opt_bits() == opt.0,
            n.state.inner.read_pos() == 0,
            n.state.inner.write_pos() == 0,
            !n.state.inner.queued(),
            !n.state.inner.dropped(),
            n.token_0 == token,
            n.token_1 == (Token(0)),
            n.token_2 == (Token(0)),
            !n.update_lock,
            n.num_registration == 1,
            n.ref_count == 3,
            n.gen == gen,
            n.wf(),
            n.current_token() == token,
    {
        ReadinessNode {
            state: AtomicState::new(interest, opt),
            token_0: token,
            token_1: Token(0),
            token_2: Token(0),
            update_lock: false,
            num_registration: 1,
            ref_count: 3,
            gen,
        }
    }
}

/// Read the token slot `pos` of a node.
pub fn token(node: &ReadinessNode, pos: u32) -> (t: Token)
    requires
        pos <= 2,
    ensures
        t == node.spec_token(pos as int),
{
    if pos == 0 {
        node.token_0
    } else if pos == 1 {
        node.token_1
    } else {
        node.token_2
    }
}

} // verus!
