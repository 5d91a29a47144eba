//! Producer-side handles: `Registration` and `SetReadiness`.
//!
//! `Registration::new` allocates one readiness node shared by the two
//! returned handles and the consumer.  `SetReadiness::set_readiness`
//! stores new readiness bits and, when that makes the node's effective
//! readiness non-empty for the first time, enqueues the node and wakes the
//! sleeping consumer.  `Registration::update` rotates a new token into a
//! free slot and replaces interest and options under the node's
//! single-writer update lock.  Handles are released explicitly; releasing
//! the last `Registration` flags the node as dropped so the consumer will
//! give up its implicit reference on the next dequeue.

use vstd::prelude::*;
use crate::node::ReadinessNode;
use crate::poll::Evented;
use crate::poll::Poll;
use crate::queue::is_fresh_node;
use crate::queue::QueueEntry;
use crate::ready::Error;
use crate::ready::PollOpt;
use crate::ready::Ready;
use crate::ready::Token;
use crate::state::next_slot;

verus! {

/// A reference count above this bound can only come from leaked handles;
/// a concurrent runner would abort there, and the verified operations
/// rule it out by precondition.
pub const MAX_REFCOUNT: usize = usize::MAX / 2;

/// Handle owned by the registering party; used to update or retire the
/// registration.
#[derive(Debug)]
pub struct Registration {
    /// Slab index of the shared node inside the poll instance.
    pub node: usize,
    /// Creation stamp of that node, standing in for its address.
    pub gen: u64,
}

/// Handle used to update readiness for an associated `Registration`.  It
/// may be cloned, so any number of producers can share one node.
#[derive(Debug)]
pub struct SetReadiness {
    /// Slab index of the shared node inside the poll instance.
    pub node: usize,
    /// Creation stamp of that node, standing in for its address.
    pub gen: u64,
}

/// Whether the node named by index and stamp is a live node of this poll
/// instance: the handle holds one of its references.
pub open spec fn handle_of(node: usize, gen: u64, poll: Poll) -> bool {
    &&& (node as int) < poll.readiness_queue.nodes@.len()
    &&& poll.readiness_queue.nodes@[node as int].gen == gen
    &&& poll.readiness_queue.nodes@[node as int].ref_count >= 1
}

/// What `set_readiness` does to the poll instance.  A dropped node is
/// left untouched.  Otherwise the node's readiness is replaced; if that
/// leaves effective readiness non-empty the queued flag is raised, and
/// the caller that raised it (and nobody else) enqueues the node, firing
/// the awakener exactly when the consumer had announced sleep.
pub open spec fn set_readiness_post(pre: Poll, post: Poll, node: int, ready: Ready) -> bool {
    let q0 = pre.readiness_queue;
    let q1 = post.readiness_queue;
    let n0 = q0.nodes@[node];
    let n1 = q1.nodes@[node];
    let s = n0.state.inner;
    let eff = (ready.0 as u32) & s.interest_bits();
    let newly = !s.queued() && eff != 0;
    if s.dropped() {
        post == pre
    } else {
        &&& q1.nodes@.len() == q0.nodes@.len()
        &&& q1.next_gen == q0.next_gen
        &&& forall|j: int| 0 <= j < q0.nodes@.len() && j != node ==> q1.nodes@[j] == q0.nodes@[j]
        &&& n1.state.inner.readiness_bits() == ready.0
        &&& n1.state.inner.interest_bits() == s.interest_bits()
        &&& n1.state.inner.opt_bits() == s.opt_bits()
        &&& n1.state.inner.read_pos() == s.read_pos()
        &&& n1.state.inner.write_pos() == s.write_pos()
        &&& !n1.state.inner.dropped()
        &&& n1.state.inner.queued() == (s.queued() || eff != 0)
        &&& n1.token_0 == n0.token_0
        &&& n1.token_1 == n0.token_1
        &&& n1.token_2 == n0.token_2
        &&& n1.update_lock == n0.update_lock
        &&& n1.num_registration == n0.num_registration
        &&& n1.ref_count == n0.ref_count
        &&& n1.gen == n0.gen
        &&& if newly {
            &&& q1.queue@ == q0.queue@.push(QueueEntry::Node(node as usize))
            &&& q1.awakener.pending == (q0.awakener.pending || q0.queue@.last()
                == QueueEntry::Sleep)
        } else {
            &&& q1.queue@ == q0.queue@
            &&& q1.awakener == q0.awakener
        }
    }
}

/// What `update` does to the poll instance when the handle is registered
/// with it.  The freshest token always ends up in the slot the write
/// position names; a changed token goes to the one slot neither side is
/// using.  Interest and options are replaced, and the node is enqueued
/// exactly as under `set_readiness` when the new effective readiness is
/// non-empty.
pub open spec fn update_post(
    pre: Poll,
    post: Poll,
    node: int,
    token: Token,
    interest: Ready,
    opt: PollOpt,
) -> bool {
    let q0 = pre.readiness_queue;
    let q1 = post.readiness_queue;
    let n0 = q0.nodes@[node];
    let n1 = q1.nodes@[node];
    let s = n0.state.inner;
    let rotate = token != n0.spec_token(s.write_pos() as int);
    let np = next_slot(s.read_pos() as int, s.write_pos() as int);
    let eff = s.readiness_bits() & (interest.0 as u32);
    let newly = !s.queued() && eff != 0;
    &&& q1.nodes@.len() == q0.nodes@.len()
    &&& q1.next_gen == q0.next_gen
    &&& forall|j: int| 0 <= j < q0.nodes@.len() && j != node ==> q1.nodes@[j] == q0.nodes@[j]
    &&& n1.state.inner.readiness_bits() == s.readiness_bits()
    &&& n1.state.inner.interest_bits() == interest.0
    &&& n1.state.inner.opt_bits() == opt.0
    &&& n1.state.inner.read_pos() == s.read_pos()
    &&& n1.state.inner.write_pos() == (if rotate {
        np
    } else {
        s.write_pos() as int
    })
    &&& !n1.state.inner.dropped()
    &&& n1.state.inner.queued() == (s.queued() || eff != 0)
    &&& (if rotate {
        &&& n1.spec_token(np) == token
        &&& forall|p: int| 0 <= p <= 2 && p != np ==> n1.spec_token(p) == n0.spec_token(p)
    } else {
        &&& n1.token_0 == n0.token_0
        &&& n1.token_1 == n0.token_1
        &&& n1.token_2 == n0.token_2
    })
    &&& n1.current_token() == token
    &&& !n1.update_lock
    &&& n1.num_registration == n0.num_registration
    &&& n1.ref_count == n0.ref_count
    &&& n1.gen == n0.gen
    &&& (if newly {
        &&& q1.queue@ == q0.queue@.push(QueueEntry::Node(node as usize))
        &&& q1.awakener.pending == (q0.awakener.pending || q0.queue@.last() == QueueEntry::Sleep)
    } else {
        &&& q1.queue@ == q0.queue@
        &&& q1.awakener == q0.awakener
    })
}

impl Registration {
    /// Whether this handle names a live node of `poll`.
    pub open spec fn is_handle_of(self, poll: Poll) -> bool {
        handle_of(self.node, self.gen, poll)
    }

    /// Whether this handle is a registration `poll` still carries: the
    /// node is live and keeps a registration count for it.
    pub open spec fn registered_with(self, poll: Poll) -> bool {
        &&& self.is_handle_of(poll)
        &&& poll.readiness_queue.nodes@[self.node as int].num_registration >= 1
    }

    /// Create a registration with the given poll instance.  Allocates the
    /// shared node and returns the two handles to it.
    pub fn new(poll: &mut Poll, token: Token, interest: Ready, opt: PollOpt) -> (r: (
        Registration,
        SetReadiness,
    ))
        requires
            old(poll).wf(),
            interest.wf(),
            opt.wf(),
            old(poll).readiness_queue.next_gen < u64::MAX,
        ensures
            final(poll).wf(),
            r.0.node == old(poll).readiness_queue.nodes@.len(),
            r.1.node == r.0.node,
            r.0.gen == old(poll).readiness_queue.next_gen,
            r.1.gen == r.0.gen,
            r.0.registered_with(*final(poll)),
            r.1.is_handle_of(*final(poll)),
            final(poll).readiness_queue.nodes@.len() == old(poll).readiness_queue.nodes@.len()
                + 1,
            forall|j: int|
                0 <= j < old(poll).readiness_queue.nodes@.len() ==> final(poll)
                    .readiness_queue.nodes@[j] == old(poll).readiness_queue.nodes@[j],
            is_fresh_node(
                final(poll).readiness_queue.nodes@[r.0.node as int],
                token,
                interest,
                opt,
                old(poll).readiness_queue.next_gen,
            ),
            final(poll).readiness_queue.queue == old(poll).readiness_queue.queue,
            final(poll).readiness_queue.awakener == old(poll).readiness_queue.awakener,
            final(poll).readiness_queue.next_gen == old(poll).readiness_queue.next_gen + 1,
    {
        let gen = poll.readiness_queue.next_gen;
        let i = poll.readiness_queue.new_node(token, interest, opt);
        (Registration { node: i, gen }, SetReadiness { node: i, gen })
    }

    /// Replace this registration's token, interest and options.
    ///
    /// Fails with `InvalidPoll` when the handle is not a registration of
    /// this poll instance.  The single-writer update lock is taken for
    /// the duration of the call; a contender that found it held would
    /// silently discard its update, which the documented contract allows,
    /// and a single caller never contends with itself.
    pub fn update(&self, poll: &mut Poll, token: Token, interest: Ready, opt: PollOpt) -> (r:
        Result<(), Error>)
        requires
            old(poll).wf(),
            interest.wf(),
            opt.wf(),
        ensures
            final(poll).wf(),
            !self.registered_with(*old(poll)) ==> r == Err::<(), Error>(Error::InvalidPoll)
                && *final(poll) == *old(poll),
            self.registered_with(*old(poll)) ==> r == Ok::<(), Error>(()) && update_post(
                *old(poll),
                *final(poll),
                self.node as int,
                token,
                interest,
                opt,
            ),
    {
        let i = self.node;

        // Ensure the handle names a registration of this poll instance.
        if !(i < poll.readiness_queue.nodes.len()) {
            return Err(Error::InvalidPoll);
        }
        let node = poll.readiness_queue.nodes[i];
        if node.gen != self.gen || node.ref_count == 0 || node.num_registration == 0 {
            return Err(Error::InvalidPoll);
        }

        // Acquire the update lock; a contended update would be discarded,
        // but a single caller never observes it taken.
        if node.update_lock {
            return Ok(());
        }
        let mut n2 = node;
        n2.update_lock = true;

        let state = n2.state.load();
        proof {
            // a node with a registration handle has not been dropped
            assert(!state.dropped());
            assert(state.wf());
        }

        // If the token changes, write it into the slot neither the
        // consumer nor the current write position is using.
        let curr_pos = state.token_write_pos();
        let curr_token = crate::node::token(&node, curr_pos);
        let mut next_pos = curr_pos;
        if token != curr_token {
            next_pos = state.next_token_pos();
            if next_pos == 0 {
                n2.token_0 = token;
            } else if next_pos == 1 {
                n2.token_1 = token;
            } else {
                n2.token_2 = token;
            }
        }

        let mut next = state;
        if token != curr_token {
            next.set_token_write_pos(next_pos);
        }
        next.set_interest(interest);
        next.set_poll_opt(opt);
        if next.effective_readiness().is_some() {
            next.set_queued();
        }
        n2.state.compare_and_swap(state, next);

        // Release the update lock, then enqueue if this call raised the
        // queued flag.
        n2.update_lock = false;
        poll.readiness_queue.nodes[i] = n2;

        proof {
            let rq = poll.readiness_queue;
            let rq0 = old(poll).readiness_queue;
            assert forall|k: int| 0 <= k < rq.queue@.len() implies rq.entry_wf(
                #[trigger] rq.queue@[k],
            ) by {
                assert(rq0.entry_wf(rq0.queue@[k]));
            }
            assert forall|j: int| j != i as int implies #[trigger] rq.wf_node_clause(j) by {
                if 0 <= j < rq.nodes@.len() && rq.nodes@[j].state.inner.queued() && !rq.nodes@[
                    j
                ].state.inner.dropped() && rq.nodes@[j].ref_count >= 1 {
                    assert(rq0.wf_node_clause(j));
                    assert(rq0.in_queue(j));
                    assert(rq.in_queue(j));
                }
            }
        }

        if !state.is_queued() && next.is_queued() {
            poll.readiness_queue.enqueue_node_with_wakeup(i);
        } else {
            proof {
                let rq = poll.readiness_queue;
                let rq0 = old(poll).readiness_queue;
                assert forall|j: int| #[trigger] rq.wf_node_clause(j) by {
                    if j == i as int {
                        if 0 <= j < rq.nodes@.len() && rq.nodes@[j].state.inner.queued()
                            && !rq.nodes@[j].state.inner.dropped() && rq.nodes@[j].ref_count
                            >= 1 {
                            assert(rq0.wf_node_clause(j));
                            assert(rq0.in_queue(j));
                            assert(rq.in_queue(j));
                        }
                    }
                }
            }
        }
        Ok(())
    }

    /// Disable the registration: no further events until a new `update`.
    pub fn deregister(&self, poll: &mut Poll) -> (r: Result<(), Error>)
        requires
            old(poll).wf(),
        ensures
            final(poll).wf(),
            !self.registered_with(*old(poll)) ==> r == Err::<(), Error>(Error::InvalidPoll)
                && *final(poll) == *old(poll),
            self.registered_with(*old(poll)) ==> r == Ok::<(), Error>(()) && update_post(
                *old(poll),
                *final(poll),
                self.node as int,
                Token(0),
                Ready(0),
                PollOpt(0),
            ),
    {
        self.update(poll, Token(0), Ready::none(), PollOpt::empty())
    }

    /// Give the registration handle back.  As the last one for its node,
    /// it flags the node as dropped — no further user-visible events —
    /// and in any case it releases the handle's reference.
    pub fn release(self, poll: &mut Poll)
        requires
            old(poll).wf(),
            self.is_handle_of(*old(poll)),
            old(poll).readiness_queue.nodes@[self.node as int].num_registration >= 1,
            old(poll).readiness_queue.in_queue(self.node as int) ==> old(poll)
                .readiness_queue.nodes@[self.node as int].ref_count >= 2,
        ensures
            final(poll).wf(),
            final(poll).readiness_queue.nodes@.len() == old(poll).readiness_queue.nodes@.len(),
            forall|j: int|
                0 <= j < old(poll).readiness_queue.nodes@.len() && j != self.node as int
                    ==> final(poll).readiness_queue.nodes@[j] == old(
                    poll,
                ).readiness_queue.nodes@[j],
            ({
                let n0 = old(poll).readiness_queue.nodes@[self.node as int];
                let n1 = final(poll).readiness_queue.nodes@[self.node as int];
                &&& n1.num_registration == n0.num_registration - 1
                &&& n1.ref_count == n0.ref_count - 1
                &&& n1.state.inner.dropped() == (n0.state.inner.dropped() || n0.num_registration
                    == 1)
                &&& n1.state.inner.queued() == n0.state.inner.queued()
                &&& n1.state.inner.readiness_bits() == n0.state.inner.readiness_bits()
                &&& n1.state.inner.interest_bits() == n0.state.inner.interest_bits()
                &&& n1.token_0 == n0.token_0
                &&& n1.token_1 == n0.token_1
                &&& n1.token_2 == n0.token_2
                &&& n1.gen == n0.gen
            }),
            final(poll).readiness_queue.queue == old(poll).readiness_queue.queue,
            final(poll).readiness_queue.awakener == old(poll).readiness_queue.awakener,
            final(poll).readiness_queue.next_gen == old(poll).readiness_queue.next_gen,
    {
        let i = self.node;
        let node = poll.readiness_queue.nodes[i];
        let mut n2 = node;
        n2.num_registration = node.num_registration - 1;
        if n2.num_registration == 0 {
            proof {
                // this was the last registration handle, so the dropped
                // flag cannot have been set yet
                assert(!node.state.inner.dropped());
            }
            n2.state.flag_as_dropped();
        }
        poll.readiness_queue.nodes[i] = n2;
        proof {
            let rq = poll.readiness_queue;
            let rq0 = old(poll).readiness_queue;
            assert forall|k: int| 0 <= k < rq.queue@.len() implies rq.entry_wf(
                #[trigger] rq.queue@[k],
            ) by {
                assert(rq0.entry_wf(rq0.queue@[k]));
            }
            assert forall|j: int| #[trigger] rq.wf_node_clause(j) by {
                if 0 <= j < rq.nodes@.len() && rq.nodes@[j].state.inner.queued() && !rq.nodes@[
                    j
                ].state.inner.dropped() && rq.nodes@[j].ref_count >= 1 {
                    assert(rq0.wf_node_clause(j));
                    assert(rq0.in_queue(j));
                    assert(rq.in_queue(j));
                }
            }
            assert(poll.readiness_queue.in_queue(i as int) == old(poll)
                .readiness_queue.in_queue(i as int));
        }
        poll.readiness_queue.release_node(i);
    }
}

impl Evented for Registration {
    /// Registering the user-space source is updating its node.
    fn register(&self, poll: &mut Poll, token: Token, interest: Ready, opts: PollOpt) -> (r:
        Result<(), Error>) {
        self.update(poll, token, interest, opts)
    }

    /// Re-registering is the same update.
    fn reregister(&self, poll: &mut Poll, token: Token, interest: Ready, opts: PollOpt) -> (r:
        Result<(), Error>) {
        self.update(poll, token, interest, opts)
    }

    /// Deregistering clears token, interest and options.
    fn deregister(&self, poll: &mut Poll) -> (r: Result<(), Error>) {
        self.update(poll, Token(0), Ready::none(), PollOpt::empty())
    }
}

impl SetReadiness {
    /// Whether this handle names a live node of `poll`.
    pub open spec fn is_handle_of(self, poll: Poll) -> bool {
        handle_of(self.node, self.gen, poll)
    }

    /// The registration's current readiness.
    pub fn readiness(&self, poll: &Poll) -> (r: Ready)
        requires
            poll.wf(),
            self.is_handle_of(*poll),
        ensures
            r.0 == poll.readiness_queue.nodes@[self.node as int].state.inner.readiness_bits(),
            r.wf(),
    {
        let node = poll.readiness_queue.nodes[self.node];
        let state = node.state.load();
        proof {
            assert(poll.readiness_queue.nodes@[self.node as int].wf());
        }
        state.readiness()
    }

    /// Replace the registration's readiness.
    ///
    /// When the new effective readiness is non-empty and the node was not
    /// already queued, this call enqueues the node and fires the awakener
    /// exactly when the consumer had announced it would sleep.  On a
    /// dropped node the call is a no-op: there is nobody left to notify.
    pub fn set_readiness(&self, poll: &mut Poll, ready: Ready) -> (r: Result<(), Error>)
        requires
            old(poll).wf(),
            self.is_handle_of(*old(poll)),
            ready.wf(),
        ensures
            final(poll).wf(),
            self.is_handle_of(*final(poll)),
            r == Ok::<(), Error>(()),
            set_readiness_post(*old(poll), *final(poll), self.node as int, ready),
    {
        let i = self.node;
        let node = poll.readiness_queue.nodes[i];
        let state = node.state.load();
        proof {
            assert(poll.readiness_queue.nodes@[i as int].wf());
        }

        if state.is_dropped() {
            // No more notifications for this registration.
            return Ok(());
        }

        let mut next = state;
        next.set_readiness(ready);
        if next.effective_readiness().is_some() {
            next.set_queued();
        }
        let mut n2 = node;
        n2.state.compare_and_swap(state, next);
        poll.readiness_queue.nodes[i] = n2;

        proof {
            let rq = poll.readiness_queue;
            let rq0 = old(poll).readiness_queue;
            assert forall|k: int| 0 <= k < rq.queue@.len() implies rq.entry_wf(
                #[trigger] rq.queue@[k],
            ) by {
                assert(rq0.entry_wf(rq0.queue@[k]));
            }
            assert forall|j: int| j != i as int implies #[trigger] rq.wf_node_clause(j) by {
                if 0 <= j < rq.nodes@.len() && rq.nodes@[j].state.inner.queued() && !rq.nodes@[
                    j
                ].state.inner.dropped() && rq.nodes@[j].ref_count >= 1 {
                    assert(rq0.wf_node_clause(j));
                    assert(rq0.in_queue(j));
                    assert(rq.in_queue(j));
                }
            }
        }

        if !state.is_queued() && next.is_queued() {
            // This call toggled the queued flag, so it owns the enqueue.
            poll.readiness_queue.enqueue_node_with_wakeup(i);
        } else {
            proof {
                let rq = poll.readiness_queue;
                let rq0 = old(poll).readiness_queue;
                assert forall|j: int| #[trigger] rq.wf_node_clause(j) by {
                    if j == i as int {
                        if 0 <= j < rq.nodes@.len() && rq.nodes@[j].state.inner.queued()
                            && !rq.nodes@[j].state.inner.dropped() && rq.nodes@[j].ref_count
                            >= 1 {
                            assert(rq0.wf_node_clause(j));
                            assert(rq0.in_queue(j));
                            assert(rq.in_queue(j));
                        }
                    }
                }
            }
        }
        Ok(())
    }

    /// A second `SetReadiness` handle to the same node, taking one more
    /// reference.
    pub fn clone_handle(&self, poll: &mut Poll) -> (r: SetReadiness)
        requires
            old(poll).wf(),
            self.is_handle_of(*old(poll)),
            old(poll).readiness_queue.nodes@[self.node as int].ref_count < MAX_REFCOUNT,
        ensures
            final(poll).wf(),
            r.node == self.node,
            r.gen == self.gen,
            r.is_handle_of(*final(poll)),
            self.is_handle_of(*final(poll)),
            final(poll).readiness_queue.nodes@ == old(poll).readiness_queue.nodes@.update(
                self.node as int,
                ReadinessNode {
                    ref_count: (old(poll).readiness_queue.nodes@[self.node as int].ref_count
                        + 1) as usize,
                    ..old(poll).readiness_queue.nodes@[self.node as int]
                },
            ),
            final(poll).readiness_queue.queue == old(poll).readiness_queue.queue,
            final(poll).readiness_queue.awakener == old(poll).readiness_queue.awakener,
            final(poll).readiness_queue.next_gen == old(poll).readiness_queue.next_gen,
    {
        let i = self.node;
        let node = poll.readiness_queue.nodes[i];
        let n2 = ReadinessNode { ref_count: node.ref_count + 1, ..node };
        poll.readiness_queue.nodes[i] = n2;
        proof {
            let rq = poll.readiness_queue;
            let rq0 = old(poll).readiness_queue;
            assert forall|k: int| 0 <= k < rq.queue@.len() implies rq.entry_wf(
                #[trigger] rq.queue@[k],
            ) by {
                assert(rq0.entry_wf(rq0.queue@[k]));
            }
            assert forall|j: int| #[trigger] rq.wf_node_clause(j) by {
                if 0 <= j < rq.nodes@.len() && rq.nodes@[j].state.inner.queued() && !rq.nodes@[
                    j
                ].state.inner.dropped() && rq.nodes@[j].ref_count >= 1 {
                    assert(rq0.wf_node_clause(j));
                    assert(rq0.in_queue(j));
                    assert(rq.in_queue(j));
                }
            }
        }
        SetReadiness { node: i, gen: self.gen }
    }

    /// Give this readiness handle back, releasing its reference.
    pub fn release(self, poll: &mut Poll)
        requires
            old(poll).wf(),
            self.is_handle_of(*old(poll)),
            old(poll).readiness_queue.in_queue(self.node as int) ==> old(poll)
                .readiness_queue.nodes@[self.node as int].ref_count >= 2,
        ensures
            final(poll).wf(),
            final(poll).readiness_queue.nodes@ == old(poll).readiness_queue.nodes@.update(
                self.node as int,
                ReadinessNode {
                    ref_count: (old(poll).readiness_queue.nodes@[self.node as int].ref_count
                        - 1) as usize,
                    ..old(poll).readiness_queue.nodes@[self.node as int]
                },
            ),
            final(poll).readiness_queue.queue == old(poll).readiness_queue.queue,
            final(poll).readiness_queue.awakener == old(poll).readiness_queue.awakener,
            final(poll).readiness_queue.next_gen == old(poll).readiness_queue.next_gen,
    {
        poll.readiness_queue.release_node(self.node);
    }
}

} // verus!
