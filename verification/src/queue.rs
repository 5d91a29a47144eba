//! The user-space readiness queue.
//!
//! A multi-producer, single-consumer queue of readiness nodes.  Producers
//! (`SetReadiness::set_readiness`, `Registration::update`) append a node
//! when they raise its queued flag; the consumer (`Poll::poll`) drains
//! nodes from the front into an event buffer.  Two markers thread through
//! the queue: an end marker that anchors the otherwise empty queue, and a
//! sleep marker the consumer installs before blocking, which tells
//! producers that the awakener must be fired.  The queue also owns the
//! slab of nodes: where an intrusive list would link heap records by
//! `next` pointers, the slab index here stands for a node's address.

use vstd::prelude::*;
use crate::events::Events;
use crate::node::token;
use crate::node::ReadinessNode;
use crate::ready::Event;
use crate::ready::PollOpt;
use crate::ready::Ready;
use crate::ready::Token;
use crate::state::ReadinessState;

verus! {

/// One position of the readiness queue: a marker or a node, named by its
/// slab index.
#[derive(Clone, Copy, PartialEq, Eq, Structural, Debug)]
pub enum QueueEntry {
    /// Structural anchor, present when the queue is effectively empty.
    End,
    /// Installed by the consumer just before it blocks.
    Sleep,
    /// A queued readiness node.
    Node(usize),
}

impl QueueEntry {
    /// Whether the entry is one of the two markers.
    pub open spec fn is_marker(self) -> bool {
        self == QueueEntry::End || self == QueueEntry::Sleep
    }

    /// Whether the entry is a data node.
    pub open spec fn is_node(self) -> bool {
        match self {
            QueueEntry::Node(_) => true,
            _ => false,
        }
    }

    /// The slab index of a node entry (markers yield zero).
    pub open spec fn node_idx(self) -> usize {
        match self {
            QueueEntry::Node(i) => i,
            _ => 0,
        }
    }
}

/// Result of one dequeue attempt.  `Inconsistent` reports a queue caught
/// between the two steps of a concurrent enqueue; with a single thread it
/// is never returned, and the consumer's drain treats it like `Empty`.
#[derive(Clone, Copy, PartialEq, Eq, Structural, Debug)]
pub enum Dequeue {
    /// A node, ready for processing.
    Data(usize),
    /// Nothing to process.
    Empty,
    /// A producer is mid-enqueue; retry after the next kernel call.
    Inconsistent,
}

impl Dequeue {
    /// The slab index of a dequeued node (other outcomes yield zero).
    pub open spec fn data_idx(self) -> usize {
        match self {
            Dequeue::Data(i) => i,
            _ => 0,
        }
    }
}

/// Stand-in for the wakeup primitive that unblocks the consumer from
/// another thread.  `pending` mirrors whether the wakeup handle has been
/// fired and not yet drained.
#[derive(Clone, Copy, PartialEq, Eq, Structural, Debug)]
pub struct Awakener {
    pub pending: bool,
}

impl Awakener {
    /// A fresh awakener with no wakeup pending.
    pub fn new() -> (a: Awakener)
        ensures
            !a.pending,
    {
        Awakener { pending: false }
    }

    /// Fire the awakener: the sleeping consumer will wake.
    pub fn wakeup(&mut self)
        ensures
            final(self).pending,
    {
        self.pending = true;
    }

    /// Drain the wakeup handle after the consumer woke.
    pub fn cleanup(&mut self)
        ensures
            !final(self).pending,
    {
        self.pending = false;
    }
}

/// The readiness queue: the node slab, the queue order, the awakener, and
/// the stamp counter for node identity.
#[derive(Debug)]
pub struct ReadinessQueue {
    /// All nodes this poll instance ever allocated, by index.
    pub nodes: Vec<ReadinessNode>,
    /// The queue, front (consumer side) first, producer end last.
    pub queue: Vec<QueueEntry>,
    /// The wakeup primitive producers fire when the consumer sleeps.
    pub awakener: Awakener,
    /// Next creation stamp; stamps tie handles to this instance's nodes.
    pub next_gen: u64,
}

/// Whether the sequence holds a node entry for slab index `i`.
pub open spec fn seq_has_node(q: Seq<QueueEntry>, i: int) -> bool {
    exists|k: int| 0 <= k < q.len() && (#[trigger] q[k]).is_node() && q[k].node_idx() == i
}

/// How many node entries the sequence holds.
pub open spec fn num_data(q: Seq<QueueEntry>) -> nat
    decreases q.len(),
{
    if q.len() == 0 {
        0
    } else {
        num_data(q.drop_first()) + if q[0].is_node() {
            1nat
        } else {
            0nat
        }
    }
}

/// The queued clauses carry over to a state with the same nodes whose
/// queue kept every node it held.
proof fn lemma_node_clauses(pre: ReadinessQueue, post: ReadinessQueue)
    requires
        forall|i: int| #[trigger] pre.wf_node_clause(i),
        post.nodes@ == pre.nodes@,
        forall|j: int| #[trigger] pre.in_queue(j) ==> post.in_queue(j),
    ensures
        forall|i: int| #[trigger] post.wf_node_clause(i),
{
    assert forall|i: int| #[trigger] post.wf_node_clause(i) by {
        if 0 <= i < post.nodes@.len() && post.nodes@[i].state.inner.queued() && !post.nodes@[
            i
        ].state.inner.dropped() && post.nodes@[i].ref_count >= 1 {
            assert(pre.wf_node_clause(i));
            assert(pre.in_queue(i));
        }
    }
}

/// Dropping a leading marker does not change which nodes the queue holds.
proof fn lemma_has_node_drop_marker(q: Seq<QueueEntry>)
    requires
        q.len() >= 1,
        q[0].is_marker(),
    ensures
        forall|j: int| #[trigger] seq_has_node(q.drop_first(), j) == seq_has_node(q, j),
{
    assert forall|j: int| #[trigger] seq_has_node(q.drop_first(), j) == seq_has_node(q, j) by {
        if seq_has_node(q, j) {
            let k = choose|k: int|
                0 <= k < q.len() && (#[trigger] q[k]).is_node() && q[k].node_idx() == j;
            assert(k >= 1);
            assert((q.drop_first()[k - 1]).is_node() && q.drop_first()[k - 1].node_idx() == j);
        }
        if seq_has_node(q.drop_first(), j) {
            let k = choose|k: int|
                0 <= k < q.drop_first().len() && (#[trigger] q.drop_first()[k]).is_node()
                    && q.drop_first()[k].node_idx() == j;
            assert((q[k + 1]).is_node() && q[k + 1].node_idx() == j);
        }
    }
}

/// Popping a front node removes exactly that node, provided entries are
/// pairwise distinct.
proof fn lemma_has_node_pop_data(q: Seq<QueueEntry>, i: usize)
    requires
        q.len() >= 1,
        q[0] == QueueEntry::Node(i),
        forall|k1: int, k2: int| 0 <= k1 < k2 < q.len() ==> #[trigger] q[k1] != #[trigger] q[k2],
    ensures
        seq_has_node(q, i as int),
        !seq_has_node(q.drop_first(), i as int),
        forall|j: int|
            j != i as int ==> #[trigger] seq_has_node(q.drop_first(), j) == seq_has_node(q, j),
{
    assert((q[0]).is_node() && q[0].node_idx() == i as int);
    if seq_has_node(q.drop_first(), i as int) {
        let k = choose|k: int|
            0 <= k < q.drop_first().len() && (#[trigger] q.drop_first()[k]).is_node()
                && q.drop_first()[k].node_idx() == i as int;
        assert(q[k + 1] == QueueEntry::Node(i));
        assert(q[0] != q[k + 1]);
        assert(false);
    }
    assert forall|j: int|
        j != i as int implies #[trigger] seq_has_node(q.drop_first(), j) == seq_has_node(
        q,
        j,
    ) by {
        if seq_has_node(q, j) {
            let k = choose|k: int|
                0 <= k < q.len() && (#[trigger] q[k]).is_node() && q[k].node_idx() == j;
            assert(k >= 1);
            assert((q.drop_first()[k - 1]).is_node() && q.drop_first()[k - 1].node_idx() == j);
        }
        if seq_has_node(q.drop_first(), j) {
            let k = choose|k: int|
                0 <= k < q.drop_first().len() && (#[trigger] q.drop_first()[k]).is_node()
                    && q.drop_first()[k].node_idx() == j;
            assert((q[k + 1]).is_node() && q[k + 1].node_idx() == j);
        }
    }
}

/// Appending a node adds exactly that node to the queue's contents.
proof fn lemma_has_node_push(q: Seq<QueueEntry>, i: usize)
    ensures
        seq_has_node(q.push(QueueEntry::Node(i)), i as int),
        forall|j: int|
            j != i as int ==> #[trigger] seq_has_node(q.push(QueueEntry::Node(i)), j)
                == seq_has_node(q, j),
{
    let q2 = q.push(QueueEntry::Node(i));
    assert((q2[q.len() as int]).is_node() && q2[q.len() as int].node_idx() == i as int);
    assert forall|j: int|
        j != i as int implies #[trigger] seq_has_node(q2, j) == seq_has_node(q, j) by {
        if seq_has_node(q, j) {
            let k = choose|k: int|
                0 <= k < q.len() && (#[trigger] q[k]).is_node() && q[k].node_idx() == j;
            assert((q2[k]).is_node() && q2[k].node_idx() == j);
        }
        if seq_has_node(q2, j) {
            let k = choose|k: int|
                0 <= k < q2.len() && (#[trigger] q2[k]).is_node() && q2[k].node_idx() == j;
            assert(k < q.len());
            assert((q[k]).is_node() && q[k].node_idx() == j);
        }
    }
}

/// Unfold one step of the node count.
proof fn lemma_num_data_first(q: Seq<QueueEntry>)
    requires
        q.len() >= 1,
    ensures
        num_data(q) == num_data(q.drop_first()) + if q[0].is_node() {
            1nat
        } else {
            0nat
        },
{
}

/// A queue holding one marker holds no nodes.
proof fn lemma_num_data_single_marker(q: Seq<QueueEntry>)
    requires
        q.len() == 1,
        q[0].is_marker(),
    ensures
        num_data(q) == 0,
        forall|j: int| !(#[trigger] seq_has_node(q, j)),
{
    assert(q.drop_first() =~= Seq::<QueueEntry>::empty());
    lemma_num_data_first(q);
    assert forall|j: int| !(#[trigger] seq_has_node(q, j)) by {
        if seq_has_node(q, j) {
            let k = choose|k: int|
                0 <= k < q.len() && (#[trigger] q[k]).is_node() && q[k].node_idx() == j;
            assert(false);
        }
    }
}

/// Dropping the front entry of a queue of two or more preserves the core
/// invariants.
proof fn lemma_wf_core_drop_first(pre: ReadinessQueue, post: ReadinessQueue)
    requires
        pre.wf_core(),
        pre.queue@.len() >= 2,
        post.nodes@ == pre.nodes@,
        post.next_gen == pre.next_gen,
        post.queue@ == pre.queue@.drop_first(),
    ensures
        post.wf_core(),
{
    let q0 = pre.queue@;
    let q = post.queue@;
    assert forall|k: int| 0 <= k < q.len() implies post.entry_wf(#[trigger] q[k]) by {
        assert(pre.entry_wf(q0[k + 1]));
        assert(q[k] == q0[k + 1]);
    }
    assert forall|k1: int, k2: int| 0 <= k1 < k2 < q.len() implies #[trigger] q[k1]
        != #[trigger] q[k2] by {
        assert(q0[k1 + 1] != q0[k2 + 1]);
        assert(q[k1] == q0[k1 + 1] && q[k2] == q0[k2 + 1]);
    }
    assert forall|k1: int, k2: int| 0 <= k1 < k2 < q.len() implies !((#[trigger] q[k1]).is_marker()
        && (#[trigger] q[k2]).is_marker()) by {
        assert(!(q0[k1 + 1].is_marker() && q0[k2 + 1].is_marker()));
        assert(q[k1] == q0[k1 + 1] && q[k2] == q0[k2 + 1]);
    }
    assert(q.last() == q0.last());
    assert forall|i: int| 0 <= i < post.nodes@.len() implies (#[trigger] post.nodes@[i]).wf() by {
        assert(pre.nodes@[i].wf());
    }
}

/// Whether entry `e` is the drain guard `until`.
pub open spec fn is_until(e: QueueEntry, until: Option<usize>) -> bool {
    match (e, until) {
        (QueueEntry::Node(i), Some(u)) => i == u,
        _ => false,
    }
}

/// What a freshly allocated registration node looks like: three
/// references (one `Registration`, one `SetReadiness`, one for the
/// consumer), one registration handle, no readiness yet, not queued, the
/// registration token in slot zero and the other slots at a sentinel.
pub open spec fn is_fresh_node(
    n: ReadinessNode,
    token: Token,
    interest: Ready,
    opt: PollOpt,
    gen: u64,
) -> bool {
    &&& n.state.inner.readiness_bits() == 0
    &&& n.state.inner.interest_bits() == interest.0
    &&& n.state.inner.opt_bits() == opt.0
    &&& n.state.inner.read_pos() == 0
    &&& n.state.inner.write_pos() == 0
    &&& !n.state.inner.queued()
    &&& !n.state.inner.dropped()
    &&& n.token_0 == token
    &&& n.token_1 == (Token(0))
    &&& n.token_2 == (Token(0))
    &&& !n.update_lock
    &&& n.num_registration == 1
    &&& n.ref_count == 3
    &&& n.gen == gen
    &&& n.current_token() == token
}

/// Whether a node, as it stood when the drain took it off the queue,
/// yields an event: it is not dropped and has effective readiness.
pub open spec fn node_emits(n: ReadinessNode) -> bool {
    &&& !n.state.inner.dropped()
    &&& n.state.inner.effective_bits() != 0
}

/// The event such a node yields: its effective readiness and the token in
/// the slot its write position names — the freshest token supplied.
pub open spec fn node_event(n: ReadinessNode) -> Event {
    Event {
        kind: Ready(n.state.inner.effective_bits() as u8),
        token: n.current_token(),
    }
}

/// How the drain settles the state word of a processed, not dropped node:
/// the read slot catches up with the write slot, an edge-triggered node is
/// taken off the queue (and a oneshot one with effective readiness is
/// disarmed), while a level-triggered node with effective readiness keeps
/// its queued flag for re-delivery.
pub open spec fn drain_settles(pre: ReadinessState, post: ReadinessState) -> bool {
    &&& post.readiness_bits() == pre.readiness_bits()
    &&& post.opt_bits() == pre.opt_bits()
    &&& post.write_pos() == pre.write_pos()
    &&& post.read_pos() == pre.write_pos()
    &&& post.dropped() == pre.dropped()
    &&& post.queued() == (pre.opt_bits() & 1 == 0 && pre.effective_bits() != 0)
    &&& post.interest_bits() == (if pre.opt_bits() & 1 != 0 && pre.opt_bits() & 4 != 0
        && pre.effective_bits() != 0 {
        0
    } else {
        pre.interest_bits()
    })
}

/// What one drain does to a processed node: a dropped node loses the
/// consumer's reference and nothing else; any other node keeps its tokens,
/// references and identity while its state word is settled.
pub open spec fn drain_node_transition(pre: ReadinessNode, post: ReadinessNode) -> bool {
    if pre.state.inner.dropped() {
        post == ReadinessNode { ref_count: (pre.ref_count - 1) as usize, ..pre }
    } else {
        &&& drain_settles(pre.state.inner, post.state.inner)
        &&& post.token_0 == pre.token_0
        &&& post.token_1 == pre.token_1
        &&& post.token_2 == pre.token_2
        &&& post.update_lock == pre.update_lock
        &&& post.num_registration == pre.num_registration
        &&& post.ref_count == pre.ref_count
        &&& post.gen == pre.gen
    }
}

/// Everything one drain guarantees, relating the queue before (`pre`) and
/// after (`post`), the event buffer contents before (`dst0`) and after
/// (`dst1`), and its capacity `cap`.  The witness `em` lists the emitting
/// nodes in emission order; `done` is the set of processed nodes.
///
/// Every emitted event reports the effective readiness and freshest token
/// its node had when dequeued; no node is emitted twice in one drain; and
/// unless the drain stopped for capacity, every node that was on the queue
/// has been processed.
pub open spec fn drain_post(
    pre_nodes: Seq<ReadinessNode>,
    pre_queue: Seq<QueueEntry>,
    post_nodes: Seq<ReadinessNode>,
    post_queue: Seq<QueueEntry>,
    dst0: Seq<Event>,
    dst1: Seq<Event>,
    cap: nat,
    em: Seq<int>,
    done: Set<int>,
) -> bool {
    &&& dst1.len() == dst0.len() + em.len()
    &&& dst1.len() <= cap
    &&& forall|k: int| 0 <= k < dst0.len() ==> dst1[k] == dst0[k]
    &&& forall|k: int| 0 <= k < em.len() ==> done.contains(#[trigger] em[k])
    &&& forall|k: int|
        0 <= k < em.len() ==> dst1[dst0.len() + k] == node_event(pre_nodes[#[trigger] em[k]])
    &&& em.no_duplicates()
    &&& forall|i: int|
        #[trigger] done.contains(i) ==> 0 <= i < pre_nodes.len() && seq_has_node(pre_queue, i)
    &&& forall|i: int|
        #[trigger] done.contains(i) && node_emits(pre_nodes[i]) ==> em.contains(i)
    &&& forall|i: int|
        0 <= i < pre_nodes.len() && !(#[trigger] done.contains(i)) ==> post_nodes[i]
            == pre_nodes[i]
    &&& forall|i: int|
        #[trigger] done.contains(i) ==> drain_node_transition(pre_nodes[i], post_nodes[i])
    &&& (dst1.len() < cap ==> forall|i: int|
        #[trigger] seq_has_node(pre_queue, i) ==> done.contains(i))
    &&& post_nodes.len() == pre_nodes.len()
    &&& forall|i: int| #[trigger] seq_has_node(post_queue, i) ==> seq_has_node(pre_queue, i)
}

impl ReadinessQueue {
    /// Whether node `i` currently sits in the queue.
    pub open spec fn in_queue(self, i: int) -> bool {
        seq_has_node(self.queue@, i)
    }

    /// What must hold of each queue position: a node entry names a live
    /// node whose queued flag is raised.
    pub open spec fn entry_wf(self, e: QueueEntry) -> bool {
        match e {
            QueueEntry::Node(j) => {
                &&& j < self.nodes@.len()
                &&& self.nodes@[j as int].ref_count >= 1
                &&& self.nodes@[j as int].state.inner.queued()
            },
            _ => true,
        }
    }

    /// The queued flag of a live, not dropped node is honest: when raised,
    /// the node is somewhere in the queue.
    pub open spec fn wf_node_clause(self, i: int) -> bool {
        0 <= i < self.nodes@.len() && self.nodes@[i].state.inner.queued()
            && !self.nodes@[i].state.inner.dropped() && self.nodes@[i].ref_count >= 1
            ==> self.in_queue(i)
    }

    /// Well-formedness of everything except the per-node queued clause.
    ///
    /// The queue is never structurally empty, holds at most one marker and
    /// each node at most once, and a marker at the producer end means the
    /// queue holds nothing else.  Every queued node is live with its queued
    /// flag raised.  Node stamps are unique and below the stamp counter, no
    /// node is mid-update, and a dropped node has no registration handle
    /// left.
    pub open spec fn wf_core(self) -> bool {
        let q = self.queue@;
        let ns = self.nodes@;
        &&& q.len() >= 1
        &&& forall|k: int| 0 <= k < q.len() ==> self.entry_wf(#[trigger] q[k])
        &&& forall|k1: int, k2: int|
            0 <= k1 < k2 < q.len() ==> #[trigger] q[k1] != #[trigger] q[k2]
        &&& forall|k1: int, k2: int|
            0 <= k1 < k2 < q.len() ==> !((#[trigger] q[k1]).is_marker() && (
            #[trigger] q[k2]).is_marker())
        &&& (q.last() == QueueEntry::End ==> q.len() == 1)
        &&& (q.last() == QueueEntry::Sleep ==> q.len() == 1)
        &&& forall|i: int| 0 <= i < ns.len() ==> (#[trigger] ns[i]).wf()
        &&& forall|i: int| 0 <= i < ns.len() ==> (#[trigger] ns[i]).gen < self.next_gen
        &&& forall|i1: int, i2: int|
            0 <= i1 < i2 < ns.len() ==> #[trigger] ns[i1].gen != #[trigger] ns[i2].gen
        &&& forall|i: int|
            0 <= i < ns.len() && (#[trigger] ns[i]).state.inner.dropped()
                ==> ns[i].num_registration == 0
    }

    /// Full well-formedness: the core plus the queued clause of every node.
    pub open spec fn wf(self) -> bool {
        &&& self.wf_core()
        &&& forall|i: int| #[trigger] self.wf_node_clause(i)
    }

    /// Well-formedness while node `x` is in flight: its queued flag may be
    /// raised while it is off the queue, between a dequeue and the state
    /// update that settles it, or between raising the flag and the enqueue.
    pub open spec fn wf_except(self, x: int) -> bool {
        &&& self.wf_core()
        &&& forall|i: int| i != x ==> #[trigger] self.wf_node_clause(i)
    }

    /// A fresh queue: no nodes, the end marker alone, nothing pending.
    pub fn new() -> (q: ReadinessQueue)
        ensures
            q.nodes@.len() == 0,
            q.queue@ =~= seq![QueueEntry::End],
            !q.awakener.pending,
            q.next_gen == 0,
            q.wf(),
    {
        let mut queue: Vec<QueueEntry> = Vec::new();
        queue.push(QueueEntry::End);
        let q = ReadinessQueue {
            nodes: Vec::new(),
            queue,
            awakener: Awakener::new(),
            next_gen: 0,
        };
        proof {
            assert(q.queue@ =~= seq![QueueEntry::End]);
        }
        q
    }

    /// Allocate a node for a new registration and hand back its index.
    /// The node starts with three references and is not queued.
    pub fn new_node(&mut self, token: Token, interest: Ready, opt: PollOpt) -> (i: usize)
        requires
            old(self).wf(),
            interest.wf(),
            opt.wf(),
            old(self).next_gen < u64::MAX,
        ensures
            i == old(self).nodes@.len(),
            final(self).nodes@.len() == old(self).nodes@.len() + 1,
            forall|j: int|
                0 <= j < old(self).nodes@.len() ==> final(self).nodes@[j] == old(self).nodes@[j],
            is_fresh_node(final(self).nodes@[i as int], token, interest, opt, old(self).next_gen),
            final(self).queue == old(self).queue,
            final(self).awakener == old(self).awakener,
            final(self).next_gen == old(self).next_gen + 1,
            final(self).wf(),
    {
        let i = self.nodes.len();
        let node = ReadinessNode::new(token, interest, opt, self.next_gen);
        self.nodes.push(node);
        self.next_gen = self.next_gen + 1;
        proof {
            let ns = self.nodes@;
            assert forall|j: int| #[trigger] self.wf_node_clause(j) by {
                if 0 <= j < ns.len() && ns[j].state.inner.queued() && !ns[j].state.inner.dropped()
                    && ns[j].ref_count >= 1 {
                    assert(j < ns.len() - 1);
                    assert(old(self).wf_node_clause(j));
                }
            }
            assert forall|k: int| 0 <= k < self.queue@.len() implies self.entry_wf(
                #[trigger] self.queue@[k],
            ) by {
                assert(old(self).entry_wf(old(self).queue@[k]));
            }
        }
        i
    }

    /// Append node `i` at the producer end of the queue.  The caller has
    /// just raised the node's queued flag, so the node is not yet in the
    /// queue.  Returns whether the consumer had announced it was asleep,
    /// in which case the caller must fire the awakener.
    pub fn enqueue_node(&mut self, i: usize) -> (was_sleeping: bool)
        requires
            old(self).wf_except(i as int),
            i < old(self).nodes@.len(),
            old(self).nodes@[i as int].ref_count >= 1,
            old(self).nodes@[i as int].state.inner.queued(),
            !old(self).in_queue(i as int),
        ensures
            final(self).queue@ == old(self).queue@.push(QueueEntry::Node(i)),
            final(self).nodes == old(self).nodes,
            final(self).awakener == old(self).awakener,
            final(self).next_gen == old(self).next_gen,
            was_sleeping == (old(self).queue@.last() == QueueEntry::Sleep),
            final(self).wf(),
    {
        let prev = self.queue[self.queue.len() - 1];
        self.queue.push(QueueEntry::Node(i));
        proof {
            let q = self.queue@;
            let q0 = old(self).queue@;
            assert forall|k: int| 0 <= k < q.len() implies self.entry_wf(#[trigger] q[k]) by {
                if k < q0.len() {
                    assert(old(self).entry_wf(q0[k]));
                    assert(q[k] == q0[k]);
                }
            }
            assert forall|k1: int, k2: int| 0 <= k1 < k2 < q.len() implies #[trigger] q[k1] != #[trigger] q[k2] by {
                if k2 == q0.len() {
                    if q[k1] == q[k2] {
                        assert(q0[k1].is_node() && q0[k1].node_idx() == i);
                        assert(old(self).in_queue(i as int));
                    }
                }
            }
            assert forall|j: int| #[trigger] self.wf_node_clause(j) by {
                if 0 <= j < self.nodes@.len() && self.nodes@[j].state.inner.queued()
                    && !self.nodes@[j].state.inner.dropped() && self.nodes@[j].ref_count >= 1 {
                    if j == i as int {
                        assert(q[q.len() - 1].is_node() && q[q.len() - 1].node_idx() == j);
                    } else {
                        assert(old(self).wf_node_clause(j));
                        let k = choose|k: int|
                            0 <= k < q0.len() && (#[trigger] q0[k]).is_node() && q0[k].node_idx()
                                == j;
                        assert(q[k].is_node() && q[k].node_idx() == j);
                    }
                }
            }
        }
        prev == QueueEntry::Sleep
    }

    /// Fire the awakener to unblock the sleeping consumer.
    pub fn wakeup(&mut self)
        ensures
            final(self).awakener.pending,
            final(self).nodes == old(self).nodes,
            final(self).queue == old(self).queue,
            final(self).next_gen == old(self).next_gen,
            old(self).wf() ==> final(self).wf(),
    {
        self.awakener.wakeup();
        proof {
            if old(self).wf() {
                lemma_node_clauses(*old(self), *self);
            }
        }
    }

    /// Append node `i`, and fire the awakener exactly when the enqueue
    /// observed the sleep marker at the producer end.
    pub fn enqueue_node_with_wakeup(&mut self, i: usize)
        requires
            old(self).wf_except(i as int),
            i < old(self).nodes@.len(),
            old(self).nodes@[i as int].ref_count >= 1,
            old(self).nodes@[i as int].state.inner.queued(),
            !old(self).in_queue(i as int),
        ensures
            final(self).queue@ == old(self).queue@.push(QueueEntry::Node(i)),
            final(self).nodes == old(self).nodes,
            final(self).next_gen == old(self).next_gen,
            final(self).awakener.pending == (old(self).awakener.pending || old(
                self,
            ).queue@.last() == QueueEntry::Sleep),
            final(self).wf(),
    {
        if self.enqueue_node(i) {
            self.wakeup();
        }
    }

    /// Take one node off the consumer end of the queue.
    ///
    /// A front marker is skipped (and leaves the queue); dequeuing the last
    /// remaining node re-installs the end marker so the queue is never
    /// structurally empty.  `until` is the guard against re-processing a
    /// node the drain itself re-queued: reaching it reports `Empty`.  With
    /// a single thread the queue is never caught mid-enqueue, so
    /// `Inconsistent` is never returned.
    pub fn dequeue_node(&mut self, until: Option<usize>) -> (d: Dequeue)
        requires
            old(self).wf(),
            match until {
                Some(u) => old(self).in_queue(u as int),
                None => true,
            },
        ensures
            final(self).nodes == old(self).nodes,
            final(self).awakener == old(self).awakener,
            final(self).next_gen == old(self).next_gen,
            !(d is Inconsistent),
            match until {
                Some(u) => final(self).in_queue(u as int),
                None => true,
            },
            d is Empty ==> final(self).wf(),
            d is Empty ==> ({
                &&& forall|j: int| #[trigger] final(self).in_queue(j) == old(self).in_queue(j)
                &&& (final(self).queue@ == old(self).queue@ || (old(self).queue@[0].is_marker()
                    && final(self).queue@ == old(self).queue@.drop_first()))
                &&& ((final(self).queue@.len() == 1 && final(self).queue@[0].is_marker())
                    || is_until(final(self).queue@[0], until))
                &&& num_data(final(self).queue@) == num_data(old(self).queue@)
            }),
            d is Data ==> ({
                let i = d.data_idx() as int;
                &&& i < old(self).nodes@.len()
                &&& old(self).nodes@[i].ref_count >= 1
                &&& old(self).nodes@[i].state.inner.queued()
                &&& old(self).in_queue(i)
                &&& !final(self).in_queue(i)
                &&& (match until {
                    Some(u) => i != u,
                    None => true,
                })
                &&& forall|j: int|
                    j != i ==> #[trigger] final(self).in_queue(j) == old(self).in_queue(j)
                &&& final(self).wf_except(i)
                &&& num_data(old(self).queue@) >= 1
                &&& num_data(final(self).queue@) == num_data(old(self).queue@) - 1
                &&& ({
                    let base = if old(self).queue@[0].is_marker() {
                        old(self).queue@.drop_first()
                    } else {
                        old(self).queue@
                    };
                    &&& base.len() >= 1
                    &&& base[0] == QueueEntry::Node(d.data_idx())
                    &&& (base.len() >= 2 ==> final(self).queue@ == base.drop_first())
                    &&& (base.len() == 1 ==> final(self).queue@ == seq![QueueEntry::End])
                })
            }),
    {
        let front = self.queue[0];
        if front == QueueEntry::End || front == QueueEntry::Sleep {
            if self.queue.len() == 1 {
                proof {
                    lemma_num_data_single_marker(self.queue@);
                }
                return Dequeue::Empty;
            }
            self.queue.remove(0);
            proof {
                assert(self.queue@ =~= old(self).queue@.drop_first());
                lemma_has_node_drop_marker(old(self).queue@);
                lemma_wf_core_drop_first(*old(self), *self);
                lemma_num_data_first(old(self).queue@);
                assert forall|j: int| #[trigger] self.in_queue(j) == old(self).in_queue(j) by {
                    assert(seq_has_node(old(self).queue@.drop_first(), j) == seq_has_node(
                        old(self).queue@,
                        j,
                    ));
                }
                assert forall|i: int| #[trigger] self.wf_node_clause(i) by {
                    if 0 <= i < self.nodes@.len() && self.nodes@[i].state.inner.queued()
                        && !self.nodes@[i].state.inner.dropped() && self.nodes@[i].ref_count
                        >= 1 {
                        assert(old(self).wf_node_clause(i));
                        assert(old(self).in_queue(i));
                        assert(self.in_queue(i) == old(self).in_queue(i));
                    }
                }
                assert(!(old(self).queue@[0].is_marker() && old(self).queue@[1].is_marker()));
                assert(!self.queue@[0].is_marker());
            }
        }
        proof {
            assert(self.wf());
            assert(!self.queue@[0].is_marker());
        }
        let ghost mid = *self;
        let front = self.queue[0];
        match front {
            QueueEntry::Node(i) => {
                let matches_until = match until {
                    Some(u) => i == u,
                    None => false,
                };
                if matches_until {
                    return Dequeue::Empty;
                }
                proof {
                    assert(self.entry_wf(self.queue@[0]));
                    assert(self.queue@[0].is_node() && self.queue@[0].node_idx() == i as int);
                    assert(self.in_queue(i as int));
                }
                if self.queue.len() >= 2 {
                    let ghost qm = self.queue@;
                    self.queue.remove(0);
                    proof {
                        assert(self.queue@ =~= qm.drop_first());
                        lemma_has_node_pop_data(qm, i);
                        lemma_num_data_first(qm);
                        lemma_wf_core_drop_first(mid, *self);
                        assert forall|i2: int| i2 != i as int implies #[trigger] self.wf_node_clause(
                            i2,
                        ) by {
                            if 0 <= i2 < self.nodes@.len() && self.nodes@[i2].state.inner.queued()
                                && !self.nodes@[i2].state.inner.dropped()
                                && self.nodes@[i2].ref_count >= 1 {
                                assert(mid.wf_node_clause(i2));
                                assert(mid.in_queue(i2));
                            }
                        }
                    }
                    Dequeue::Data(i)
                } else {
                    proof {
                        if until is Some {
                            let u = until->0;
                            assert(mid.in_queue(u as int));
                            let k = choose|k: int|
                                0 <= k < mid.queue@.len() && (#[trigger] mid.queue@[k]).is_node()
                                    && mid.queue@[k].node_idx() == u as int;
                            assert(k == 0);
                            assert(false);
                        }
                    }
                    let ghost qm = self.queue@;
                    self.queue.push(QueueEntry::End);
                    self.queue.remove(0);
                    proof {
                        assert(self.queue@ =~= seq![QueueEntry::End]);
                        lemma_num_data_single_marker(self.queue@);
                        lemma_num_data_first(qm);
                        assert(qm.drop_first() =~= Seq::<QueueEntry>::empty());
                        assert forall|j: int| j != i as int implies #[trigger] self.in_queue(j)
                            == mid.in_queue(j) by {
                            if mid.in_queue(j) {
                                let k = choose|k: int|
                                    0 <= k < qm.len() && (#[trigger] qm[k]).is_node()
                                        && qm[k].node_idx() == j;
                                assert(k == 0);
                                assert(false);
                            }
                        }
                        assert forall|i2: int| i2 != i as int implies #[trigger] self.wf_node_clause(
                            i2,
                        ) by {
                            if 0 <= i2 < self.nodes@.len() && self.nodes@[i2].state.inner.queued()
                                && !self.nodes@[i2].state.inner.dropped()
                                && self.nodes@[i2].ref_count >= 1 {
                                assert(mid.wf_node_clause(i2));
                                assert(mid.in_queue(i2));
                            }
                        }
                    }
                    Dequeue::Data(i)
                }
            },
            _ => {
                proof {
                    assert(false);
                }
                Dequeue::Empty
            },
        }
    }

    /// Drain queued nodes into `dst` until the buffer is full or nothing
    /// is left to deliver.
    ///
    /// Each dequeued node is settled as `drain_settles` describes; a
    /// dropped node instead has the consumer's reference released and is
    /// never emitted.  A level-triggered node with effective readiness is
    /// put back on the queue, and the first node so re-queued becomes the
    /// guard that stops this drain from spinning on its own re-enqueues.
    pub fn poll(&mut self, dst: &mut Events)
        requires
            old(self).wf(),
            old(dst).wf(),
        ensures
            final(self).wf(),
            final(self).awakener == old(self).awakener,
            final(self).next_gen == old(self).next_gen,
            final(dst).cap == old(dst).cap,
            final(dst).wf(),
            exists|em: Seq<int>, done: Set<int>|
                drain_post(
                    old(self).nodes@,
                    old(self).queue@,
                    final(self).nodes@,
                    final(self).queue@,
                    old(dst).inner@,
                    final(dst).inner@,
                    old(dst).cap as nat,
                    em,
                    done,
                ),
    {
        let ghost pre = *self;
        let ghost dst0 = dst.inner@;
        let ghost cap0 = dst.cap;
        let mut until: Option<usize> = None;
        let ghost mut em: Seq<int> = Seq::empty();
        let ghost mut done: Set<int> = Set::empty();
        let ghost mut upos: int = 0;

        loop
            invariant_except_break
                match until {
                    Some(u) => {
                        &&& done.contains(u as int)
                        &&& 0 <= upos < self.queue@.len()
                        &&& self.queue@[upos] == QueueEntry::Node(u)
                        &&& forall|k: int|
                            0 <= k < upos && (#[trigger] self.queue@[k]).is_node()
                                ==> !done.contains(self.queue@[k].node_idx() as int)
                        &&& forall|k: int|
                            upos <= k < self.queue@.len() && (#[trigger] self.queue@[k]).is_node()
                                ==> done.contains(self.queue@[k].node_idx() as int)
                    },
                    None => forall|i: int| #[trigger] done.contains(i) ==> !self.in_queue(i),
                },
            invariant
                pre.wf(),
                self.wf(),
                self.nodes@.len() == pre.nodes@.len(),
                self.awakener == pre.awakener,
                self.next_gen == pre.next_gen,
                dst.cap == cap0,
                dst.inner@.len() <= cap0,
                dst.inner@.len() == dst0.len() + em.len(),
                forall|k: int| 0 <= k < dst0.len() ==> dst.inner@[k] == dst0[k],
                forall|k: int| 0 <= k < em.len() ==> done.contains(#[trigger] em[k]),
                forall|k: int|
                    0 <= k < em.len() ==> dst.inner@[dst0.len() + k] == node_event(
                        pre.nodes@[#[trigger] em[k]],
                    ),
                em.no_duplicates(),
                forall|i: int|
                    #[trigger] done.contains(i) ==> 0 <= i < pre.nodes@.len() && pre.in_queue(i),
                forall|i: int|
                    #[trigger] done.contains(i) && node_emits(pre.nodes@[i]) ==> em.contains(i),
                forall|i: int|
                    0 <= i < pre.nodes@.len() && !(#[trigger] done.contains(i))
                        ==> self.nodes@[i] == pre.nodes@[i],
                forall|i: int|
                    #[trigger] done.contains(i) ==> drain_node_transition(
                        pre.nodes@[i],
                        self.nodes@[i],
                    ),
                forall|i: int| #[trigger] self.in_queue(i) ==> pre.in_queue(i),
                forall|i: int|
                    #[trigger] pre.in_queue(i) && !done.contains(i) ==> self.in_queue(i),
            ensures
                dst.inner@.len() == cap0 || (forall|i: int|
                    #[trigger] pre.in_queue(i) ==> done.contains(i)),
            decreases
                (if until is None {
                    1int
                } else {
                    0int
                }),
                (if until is None {
                    num_data(self.queue@) as int
                } else {
                    upos
                }),
        {
            if !(dst.len() < dst.capacity()) {
                break;
            }
            proof {
                if until is Some {
                    let u = until->0;
                    assert(self.queue@[upos].is_node() && self.queue@[upos].node_idx()
                        == u as int);
                    assert(self.in_queue(u as int));
                }
            }
            let ghost s0 = *self;
            let d = self.dequeue_node(until);
            match d {
                Dequeue::Data(i) => {
                    let ghost s1 = *self;
                    let ghost q0 = s0.queue@;
                    let ghost q1 = self.queue@;
                    let ghost m: int = if q0[0].is_marker() {
                        1int
                    } else {
                        0int
                    };
                    proof {
                        assert(q0[m] == QueueEntry::Node(i));
                        // the dequeued node had not been processed before
                        match until {
                            Some(u) => {
                                assert(i != u);
                                assert(q0[upos] == QueueEntry::Node(u));
                                assert(upos != m);
                                if upos < m {
                                    assert(upos == 0 && m == 1);
                                    assert(q0[0].is_marker());
                                    assert(false);
                                }
                                assert(upos > m);
                                if done.contains(i as int) {
                                    assert(q0[m].is_node() && q0[m].node_idx() == i as int);
                                    assert(false);
                                }
                            },
                            None => {
                                if done.contains(i as int) {
                                    assert(!s0.in_queue(i as int));
                                    assert(false);
                                }
                            },
                        }
                        assert(!done.contains(i as int));
                        assert(self.nodes@[i as int] == pre.nodes@[i as int]);
                        // how far the front of the queue moved
                        if until is Some {
                            let u = until->0;
                            let diff = q0.len() - q1.len();
                            assert(s0.in_queue(u as int));
                            assert(self.in_queue(u as int));
                            if q1 == seq![QueueEntry::End] {
                                let k = choose|k: int|
                                    0 <= k < q1.len() && (#[trigger] q1[k]).is_node()
                                        && q1[k].node_idx() == u as int;
                                assert(false);
                            }
                            let base = if q0[0].is_marker() {
                                q0.drop_first()
                            } else {
                                q0
                            };
                            assert(base.len() >= 2);
                            assert(q1 == base.drop_first());
                            assert(diff == m + 1);
                            assert forall|k: int| 0 <= k < q1.len() implies q1[k] == q0[
                                k + diff
                            ] by {}
                            assert(q1[upos - diff] == QueueEntry::Node(u));
                            let upos0 = upos;
                            upos = upos - diff;
                            // the guard invariant, shifted to the shorter queue
                            assert forall|k: int|
                                0 <= k < upos && (#[trigger] q1[k]).is_node() implies !done
                                .contains(q1[k].node_idx() as int) && q1[k].node_idx() != i by {
                                assert(q1[k] == q0[k + diff]);
                                assert(0 <= k + diff < upos0);
                                if q1[k].node_idx() == i {
                                    assert(q0[k + diff] == QueueEntry::Node(i));
                                    assert(q0[m] != q0[k + diff]);
                                    assert(false);
                                }
                            }
                            assert forall|k: int|
                                upos <= k < q1.len() && (#[trigger] q1[k]).is_node() implies done
                                .contains(q1[k].node_idx() as int) by {
                                assert(q1[k] == q0[k + diff]);
                                assert(upos0 <= k + diff < q0.len());
                            }
                        }
                    }
                    let node = self.nodes[i];
                    let state = node.state.load();
                    proof {
                        assert(state == pre.nodes@[i as int].state.inner);
                        assert(state.queued());
                        assert(pre.nodes@[i as int].wf());
                        assert(state.wf());
                    }
                    if state.is_dropped() {
                        proof {
                            assert(self.wf_node_clause(i as int));
                            assert forall|j: int| #[trigger] self.wf_node_clause(j) by {
                                if j != i as int {
                                    assert(self.wf_node_clause(j));
                                }
                            }
                        }
                        self.release_node(i);
                        proof {
                            done = done.insert(i as int);
                            assert(drain_node_transition(
                                pre.nodes@[i as int],
                                self.nodes@[i as int],
                            ));
                            assert(self.queue@ == q1);
                            assert forall|j: int| #[trigger] self.in_queue(j) implies pre.in_queue(
                                j,
                            ) by {
                                if j != i as int {
                                    assert(s1.in_queue(j) == s0.in_queue(j));
                                }
                            }
                            assert forall|j: int|
                                #[trigger] pre.in_queue(j) && !done.contains(j) implies self
                                .in_queue(j) by {
                                assert(j != i as int);
                                assert(s0.in_queue(j));
                                assert(s1.in_queue(j) == s0.in_queue(j));
                            }
                            match until {
                                Some(u) => {
                                    assert(self.queue@[upos] == QueueEntry::Node(u));
                                },
                                None => {
                                    assert forall|j: int| #[trigger] done.contains(j) implies !self
                                        .in_queue(j) by {
                                        if j == i as int {
                                            assert(!s1.in_queue(i as int));
                                        } else {
                                            assert(s1.in_queue(j) == s0.in_queue(j));
                                        }
                                    }
                                },
                            }
                        }
                        continue;
                    }
                    let readiness = state.effective_readiness();
                    let opt = state.poll_opt();
                    let mut next = state;
                    if opt.is_edge() {
                        next.set_dequeued();
                        if opt.is_oneshot() && readiness.is_some() {
                            next.disarm();
                        }
                    } else if readiness.is_none() {
                        next.set_dequeued();
                    }
                    next.update_token_read_pos();
                    let mut n2 = node;
                    n2.state.compare_and_swap(state, next);
                    self.nodes[i] = n2;
                    proof {
                        done = done.insert(i as int);
                        let ob = state.opt_bits();
                        let o8 = opt.0;
                        assert((o8 & 1 != 0) == (ob & 1 != 0) && (o8 & 4 != 0) == (ob & 4 != 0))
                            by (bit_vector)
                            requires
                                o8 == ob,
                                ob < 16,
                        ;
                        assert(drain_settles(state, next));
                        assert(drain_node_transition(pre.nodes@[i as int], self.nodes@[i as int]));
                        assert forall|j: int|
                            0 <= j < pre.nodes@.len() && !(#[trigger] done.contains(j))
                            implies self.nodes@[j] == pre.nodes@[j] by {
                            assert(j != i as int);
                        }
                        assert forall|j: int|
                            #[trigger] done.contains(j) implies drain_node_transition(
                            pre.nodes@[j],
                            self.nodes@[j],
                        ) by {
                            if j != i as int {
                                assert(done.remove(i as int).contains(j));
                            }
                        }
                        // the state update keeps everything else well formed
                        assert forall|j: int| j != i as int implies #[trigger] self.wf_node_clause(
                            j,
                        ) by {
                            if 0 <= j < self.nodes@.len() && self.nodes@[j].state.inner.queued()
                                && !self.nodes@[j].state.inner.dropped()
                                && self.nodes@[j].ref_count >= 1 {
                                assert(s0.wf_node_clause(j));
                                assert(s0.in_queue(j));
                                assert(s1.in_queue(j) == s0.in_queue(j));
                                assert(self.queue@ == q1);
                            }
                        }
                        assert forall|k: int| 0 <= k < self.queue@.len() implies self.entry_wf(
                            #[trigger] self.queue@[k],
                        ) by {
                            match self.queue@[k] {
                                QueueEntry::Node(j) => {
                                    if j == i {
                                        assert(self.in_queue(i as int));
                                        assert(false);
                                    }
                                },
                                _ => {},
                            }
                        }
                        assert(self.wf_except(i as int));
                    }
                    if next.is_queued() {
                        let ghost was_none = until is None;
                        if until.is_none() {
                            until = Some(i);
                        }
                        let ghost q_before = self.queue@;
                        self.enqueue_node(i);
                        proof {
                            lemma_has_node_push(q_before, i);
                            if was_none {
                                upos = q_before.len() as int;
                                assert forall|k: int|
                                    0 <= k < upos && (#[trigger] self.queue@[k]).is_node()
                                    implies !done.contains(
                                    self.queue@[k].node_idx() as int,
                                ) by {
                                    let j = self.queue@[k].node_idx() as int;
                                    assert(self.queue@[k] == q_before[k]);
                                    assert(seq_has_node(q_before, j));
                                    if done.contains(j) {
                                        if j == i as int {
                                            assert(!seq_has_node(q_before, i as int));
                                            assert(false);
                                        } else {
                                            assert(done.remove(i as int).contains(j));
                                            assert(!s0.in_queue(j));
                                            assert(s0.in_queue(j) == seq_has_node(q_before, j));
                                            assert(false);
                                        }
                                    }
                                }
                            } else {
                                assert(self.queue@[upos] == q_before[upos]);
                                assert forall|k: int|
                                    0 <= k < upos && (#[trigger] self.queue@[k]).is_node()
                                    implies !done.contains(
                                    self.queue@[k].node_idx() as int,
                                ) by {
                                    let j = self.queue@[k].node_idx() as int;
                                    assert(self.queue@[k] == q_before[k]);
                                    if j == i as int {
                                        assert(!seq_has_node(q_before, i as int));
                                        assert(false);
                                    }
                                    if done.contains(j) {
                                        assert(done.remove(i as int).contains(j));
                                    }
                                }
                                assert forall|k: int|
                                    upos <= k < self.queue@.len() && (
                                    #[trigger] self.queue@[k]).is_node() implies done.contains(
                                    self.queue@[k].node_idx() as int,
                                ) by {
                                    if k < q_before.len() {
                                        assert(self.queue@[k] == q_before[k]);
                                        if done.remove(i as int).contains(
                                            self.queue@[k].node_idx() as int,
                                        ) {
                                        }
                                    } else {
                                        assert(self.queue@[k] == QueueEntry::Node(i));
                                    }
                                }
                            }
                        }
                    }
                    proof {
                        // membership bookkeeping shared by both requeue outcomes
                        assert forall|j: int| #[trigger] self.in_queue(j) implies pre.in_queue(
                            j,
                        ) by {
                            if j == i as int {
                                assert(pre.in_queue(i as int));
                            } else {
                                assert(self.in_queue(j) == seq_has_node(q1, j));
                                assert(s1.in_queue(j) == s0.in_queue(j));
                                assert(s0.in_queue(j));
                            }
                        }
                        assert forall|j: int|
                            #[trigger] pre.in_queue(j) && !done.contains(j) implies self.in_queue(
                            j,
                        ) by {
                            assert(j != i as int);
                            assert(s0.in_queue(j));
                            assert(s1.in_queue(j) == s0.in_queue(j));
                            assert(self.in_queue(j) == seq_has_node(q1, j));
                        }
                    }
                    let ghost em0 = em;
                    if readiness.is_some() {
                        let n_now = self.nodes[i];
                        let t = token(&n_now, next.token_read_pos());
                        dst.push_event(Event::new(readiness, t));
                        proof {
                            assert(!em.contains(i as int)) by {
                                if em.contains(i as int) {
                                    let k = choose|k: int|
                                        0 <= k < em.len() && em[k] == i as int;
                                    assert(done.contains(em[k]));
                                    assert(false);
                                }
                            }
                            em = em.push(i as int);
                            assert(em[em.len() - 1] == i as int);
                            assert(t == pre.nodes@[i as int].current_token());
                            assert(dst.inner@[dst0.len() + em.len() - 1] == node_event(
                                pre.nodes@[i as int],
                            ));
                        }
                    }
                    proof {
                        assert forall|j: int|
                            #[trigger] done.contains(j) && node_emits(pre.nodes@[j]) implies em
                            .contains(j) by {
                            if j == i as int {
                                if readiness.0 == 0 {
                                    assert(readiness.0 == pre.nodes@[j].state.inner
                                        .effective_bits());
                                    assert(false);
                                } else {
                                    assert(em[em0.len() as int] == j);
                                }
                            } else {
                                assert(em0.contains(j));
                                let k0 = choose|k: int| 0 <= k < em0.len() && em0[k] == j;
                                assert(em[k0] == j);
                            }
                        }
                    }
                },
                _ => {
                    proof {
                        assert(d is Empty);
                        let q1 = self.queue@;
                        assert forall|j: int|
                            #[trigger] pre.in_queue(j) implies done.contains(j) by {
                            if !done.contains(j) {
                                assert(s0.in_queue(j));
                                assert(self.in_queue(j));
                                let k = choose|k: int|
                                    0 <= k < q1.len() && (#[trigger] q1[k]).is_node()
                                        && q1[k].node_idx() == j;
                                if q1.len() == 1 && q1[0].is_marker() {
                                    assert(false);
                                } else {
                                    assert(is_until(q1[0], until));
                                    let u = until->0;
                                    assert(q1[0] == QueueEntry::Node(u));
                                    // locate the guard in the queue before this dequeue
                                    if s0.queue@ == q1 {
                                        assert(s0.queue@[upos] == QueueEntry::Node(u));
                                        if upos != 0 {
                                            assert(s0.queue@[0] != s0.queue@[upos]);
                                            assert(false);
                                        }
                                        assert(k >= upos);
                                        assert(done.contains(j));
                                    } else {
                                        assert(s0.queue@[0].is_marker());
                                        assert(q1 == s0.queue@.drop_first());
                                        assert(s0.queue@[upos] == QueueEntry::Node(u));
                                        assert(s0.queue@[1] == q1[0]);
                                        if upos != 1 {
                                            if upos == 0 {
                                                assert(s0.queue@[0] == QueueEntry::Node(u));
                                                assert(false);
                                            } else {
                                                assert(s0.queue@[1] != s0.queue@[upos]);
                                                assert(false);
                                            }
                                        }
                                        assert(s0.queue@[k + 1].is_node() && s0.queue@[k
                                            + 1].node_idx() == j);
                                        assert(k + 1 >= upos);
                                        assert(done.contains(j));
                                    }
                                }
                            }
                        }
                    }
                    break;
                },
            }
        }
        proof {
            assert forall|j: int| #[trigger] seq_has_node(pre.queue@, j) implies pre.in_queue(
                j,
            ) by {}
            assert forall|j: int| #[trigger] seq_has_node(self.queue@, j) implies self.in_queue(
                j,
            ) by {}
            if dst.inner@.len() < cap0 {
                assert forall|j: int| #[trigger] seq_has_node(pre.queue@, j) implies done.contains(
                    j,
                ) by {
                    assert(pre.in_queue(j));
                }
            }
            assert forall|j: int|
                #[trigger] seq_has_node(self.queue@, j) implies seq_has_node(pre.queue@, j) by {
                assert(self.in_queue(j));
                assert(pre.in_queue(j));
            }
            assert forall|j: int|
                #[trigger] done.contains(j) implies 0 <= j < pre.nodes@.len() && seq_has_node(
                pre.queue@,
                j,
            ) by {
                assert(pre.in_queue(j));
            }
            assert(drain_post(
                pre.nodes@,
                pre.queue@,
                self.nodes@,
                self.queue@,
                dst0,
                dst.inner@,
                cap0 as nat,
                em,
                done,
            ));
        }
    }

    /// Install the sleep marker if the queue is effectively empty.  On
    /// success the consumer may block; producers that enqueue afterwards
    /// will see the marker and fire the awakener.  On failure the queue
    /// holds work and the consumer must not block.
    pub fn prepare_for_sleep(&mut self) -> (b: bool)
        requires
            old(self).wf(),
        ensures
            final(self).nodes == old(self).nodes,
            final(self).awakener == old(self).awakener,
            final(self).next_gen == old(self).next_gen,
            b == (old(self).queue@.last() == QueueEntry::End),
            b ==> final(self).queue@ =~= seq![QueueEntry::Sleep],
            !b ==> final(self).queue@ == old(self).queue@,
            final(self).wf(),
    {
        let last = self.queue[self.queue.len() - 1];
        if last == QueueEntry::End {
            self.queue.pop();
            self.queue.push(QueueEntry::Sleep);
            proof {
                assert(self.queue@ =~= seq![QueueEntry::Sleep]);
                assert forall|j: int| #[trigger] old(self).in_queue(j) implies self.in_queue(
                    j,
                ) by {
                    if old(self).in_queue(j) {
                        let k = choose|k: int|
                            0 <= k < old(self).queue@.len() && (#[trigger] old(
                                self,
                            ).queue@[k]).is_node() && old(self).queue@[k].node_idx() == j;
                        assert(old(self).queue@[k] == QueueEntry::End);
                        assert(false);
                    }
                }
                lemma_node_clauses(*old(self), *self);
            }
            true
        } else {
            proof {
                lemma_node_clauses(*old(self), *self);
            }
            false
        }
    }

    /// Swap the sleep marker back for the end marker after waking, if the
    /// queue is still otherwise empty.  Otherwise the marker is mid-queue
    /// and the drain will skip it like any non-data entry.
    pub fn try_remove_sleep_marker(&mut self)
        requires
            old(self).wf(),
        ensures
            final(self).nodes == old(self).nodes,
            final(self).awakener == old(self).awakener,
            final(self).next_gen == old(self).next_gen,
            old(self).queue@.last() == QueueEntry::Sleep ==> final(self).queue@ =~= seq![
                QueueEntry::End,
            ],
            old(self).queue@.last() != QueueEntry::Sleep ==> final(self).queue@ == old(
                self,
            ).queue@,
            final(self).wf(),
    {
        let last = self.queue[self.queue.len() - 1];
        if last == QueueEntry::Sleep {
            self.queue.pop();
            self.queue.push(QueueEntry::End);
            proof {
                assert(self.queue@ =~= seq![QueueEntry::End]);
                assert forall|j: int| #[trigger] old(self).in_queue(j) implies self.in_queue(
                    j,
                ) by {
                    if old(self).in_queue(j) {
                        let k = choose|k: int|
                            0 <= k < old(self).queue@.len() && (#[trigger] old(
                                self,
                            ).queue@[k]).is_node() && old(self).queue@[k].node_idx() == j;
                        assert(old(self).queue@[k] == QueueEntry::Sleep);
                        assert(false);
                    }
                }
                lemma_node_clauses(*old(self), *self);
            }
        } else {
            proof {
                lemma_node_clauses(*old(self), *self);
            }
        }
    }

    /// Drain the awakener after the consumer woke and observed it fired.
    pub fn awakener_cleanup(&mut self)
        ensures
            !final(self).awakener.pending,
            final(self).nodes == old(self).nodes,
            final(self).queue == old(self).queue,
            final(self).next_gen == old(self).next_gen,
            old(self).wf() ==> final(self).wf(),
    {
        self.awakener.cleanup();
        proof {
            if old(self).wf() {
                lemma_node_clauses(*old(self), *self);
            }
        }
    }

    /// Give up one reference to node `i`; the slot counts as reclaimed
    /// when the count reaches zero.  A queued node always keeps the
    /// consumer's reference, so release of a queued node leaves it live.
    pub fn release_node(&mut self, i: usize)
        requires
            old(self).wf(),
            i < old(self).nodes@.len(),
            old(self).nodes@[i as int].ref_count >= 1,
            old(self).in_queue(i as int) ==> old(self).nodes@[i as int].ref_count >= 2,
        ensures
            final(self).nodes@ == old(self).nodes@.update(
                i as int,
                ReadinessNode {
                    ref_count: (old(self).nodes@[i as int].ref_count - 1) as usize,
                    ..old(self).nodes@[i as int]
                },
            ),
            final(self).queue == old(self).queue,
            final(self).awakener == old(self).awakener,
            final(self).next_gen == old(self).next_gen,
            final(self).wf(),
    {
        let n = self.nodes[i];
        let n2 = ReadinessNode { ref_count: n.ref_count - 1, ..n };
        self.nodes[i] = n2;
        proof {
            let q = self.queue@;
            assert forall|k: int| 0 <= k < q.len() implies self.entry_wf(#[trigger] q[k]) by {
                assert(old(self).entry_wf(q[k]));
                match q[k] {
                    QueueEntry::Node(j) => {
                        if j == i {
                            assert(q[k].is_node() && q[k].node_idx() == i as int);
                            assert(old(self).in_queue(i as int));
                        }
                    },
                    _ => {},
                }
            }
            assert forall|j: int| #[trigger] self.wf_node_clause(j) by {
                if 0 <= j < self.nodes@.len() && self.nodes@[j].state.inner.queued()
                    && !self.nodes@[j].state.inner.dropped() && self.nodes@[j].ref_count >= 1 {
                    assert(old(self).wf_node_clause(j));
                }
            }
        }
    }
}

} // verus!
