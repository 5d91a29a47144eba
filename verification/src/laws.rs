//! Library-wide laws, stated and proved over the public specifications.
//!
//! Each proof function here records one property the readiness core
//! promises, in terms of the same predicates the operations' contracts
//! use: `drain_post` for what one drain delivered, `set_readiness_post`
//! for what one producer update did, and the structure invariant `wf`.

use vstd::prelude::*;
use crate::node::ReadinessNode;
use crate::poll::Poll;
use crate::queue::drain_post;
use crate::queue::node_emits;
use crate::queue::node_event;
use crate::queue::seq_has_node;
use crate::queue::QueueEntry;
use crate::queue::ReadinessQueue;
use crate::ready::Event;
use crate::ready::Ready;
use crate::registration::set_readiness_post;

verus! {

/// At most one queued.  A live, not dropped node has its queued flag
/// raised exactly when it is reachable from the queue, and the queue
/// holds every entry at most once.  (Concurrently a producer caught
/// between its two enqueue steps is excepted; a single thread leaves
/// none in flight.)
pub proof fn lemma_at_most_one_queued(q: ReadinessQueue, i: int)
    requires
        q.wf(),
        0 <= i < q.nodes@.len(),
        q.nodes@[i].ref_count >= 1,
        !q.nodes@[i].state.inner.dropped(),
    ensures
        q.nodes@[i].state.inner.queued() <==> q.in_queue(i),
        forall|k1: int, k2: int|
            0 <= k1 < k2 < q.queue@.len() ==> #[trigger] q.queue@[k1] != #[trigger] q.queue@[k2],
{
    if q.nodes@[i].state.inner.queued() {
        assert(q.wf_node_clause(i));
    }
    if q.in_queue(i) {
        let k = choose|k: int|
            0 <= k < q.queue@.len() && (#[trigger] q.queue@[k]).is_node()
                && q.queue@[k].node_idx() == i;
        assert(q.entry_wf(q.queue@[k]));
    }
}

/// No lost terminal readiness.  If a node sat on the queue with effective
/// readiness when a drain began, and the drain was not cut short by the
/// buffer's capacity, then the buffer contains that node's event — its
/// effective readiness and freshest token as they stood when the drain
/// settled it.
pub proof fn lemma_no_lost_terminal_readiness(
    pre_nodes: Seq<ReadinessNode>,
    pre_queue: Seq<QueueEntry>,
    post_nodes: Seq<ReadinessNode>,
    post_queue: Seq<QueueEntry>,
    dst: Seq<Event>,
    cap: nat,
    em: Seq<int>,
    done: Set<int>,
    i: int,
)
    requires
        drain_post(
            pre_nodes,
            pre_queue,
            post_nodes,
            post_queue,
            Seq::empty(),
            dst,
            cap,
            em,
            done,
        ),
        dst.len() < cap,
        0 <= i < pre_nodes.len(),
        seq_has_node(pre_queue, i),
        node_emits(pre_nodes[i]),
    ensures
        exists|k: int| 0 <= k < dst.len() && dst[k] == node_event(pre_nodes[i]),
{
    assert(done.contains(i));
    assert(em.contains(i));
    let k = choose|k: int| 0 <= k < em.len() && em[k] == i;
    assert(dst[0 + k] == node_event(pre_nodes[em[k]]));
    assert(0 <= k < dst.len() && dst[k] == node_event(pre_nodes[i]));
}

/// No lost terminal readiness, end to end.  A producer's last readiness
/// update whose effective readiness is non-empty leaves the node queued;
/// a following drain with room to spare delivers exactly that effective
/// readiness, with the node's freshest token.
pub proof fn lemma_terminal_readiness_delivered(
    pre: Poll,
    mid: Poll,
    post_nodes: Seq<ReadinessNode>,
    post_queue: Seq<QueueEntry>,
    dst: Seq<Event>,
    cap: nat,
    em: Seq<int>,
    done: Set<int>,
    i: int,
    ready: Ready,
)
    requires
        mid.wf(),
        0 <= i < pre.readiness_queue.nodes@.len(),
        pre.readiness_queue.nodes@[i].ref_count >= 1,
        !pre.readiness_queue.nodes@[i].state.inner.dropped(),
        set_readiness_post(pre, mid, i, ready),
        (ready.0 as u32) & pre.readiness_queue.nodes@[i].state.inner.interest_bits() != 0,
        drain_post(
            mid.readiness_queue.nodes@,
            mid.readiness_queue.queue@,
            post_nodes,
            post_queue,
            Seq::empty(),
            dst,
            cap,
            em,
            done,
        ),
        dst.len() < cap,
    ensures
        exists|k: int|
            0 <= k < dst.len() && dst[k] == (Event {
                kind: Ready(
                    ((ready.0 as u32)
                        & pre.readiness_queue.nodes@[i].state.inner.interest_bits()) as u8,
                ),
                token: mid.readiness_queue.nodes@[i].current_token(),
            }),
{
    let n1 = mid.readiness_queue.nodes@[i];
    assert(n1.state.inner.queued());
    assert(!n1.state.inner.dropped());
    assert(n1.ref_count >= 1);
    assert(mid.readiness_queue.wf_node_clause(i));
    assert(mid.readiness_queue.in_queue(i));
    assert(seq_has_node(mid.readiness_queue.queue@, i));
    assert(node_emits(n1));
    lemma_no_lost_terminal_readiness(
        mid.readiness_queue.nodes@,
        mid.readiness_queue.queue@,
        post_nodes,
        post_queue,
        dst,
        cap,
        em,
        done,
        i,
    );
    let k = choose|k: int| 0 <= k < dst.len() && dst[k] == node_event(n1);
    assert(dst[k] == Event {
        kind: Ready(n1.state.inner.effective_bits() as u8),
        token: n1.current_token(),
    });
}

/// Token freshness.  Every delivered event carries the token in the slot
/// named by its node's write position at the moment the drain settled the
/// node: the freshest token an update had published.  Stale tokens may be
/// lost but are never delivered.
pub proof fn lemma_token_freshness(
    pre_nodes: Seq<ReadinessNode>,
    pre_queue: Seq<QueueEntry>,
    post_nodes: Seq<ReadinessNode>,
    post_queue: Seq<QueueEntry>,
    dst: Seq<Event>,
    cap: nat,
    em: Seq<int>,
    done: Set<int>,
    k: int,
)
    requires
        drain_post(
            pre_nodes,
            pre_queue,
            post_nodes,
            post_queue,
            Seq::empty(),
            dst,
            cap,
            em,
            done,
        ),
        0 <= k < em.len(),
    ensures
        dst[k].token == pre_nodes[em[k]].current_token(),
        dst[k].token == pre_nodes[em[k]].spec_token(
            pre_nodes[em[k]].state.inner.write_pos() as int,
        ),
{
    assert(dst[0 + k] == node_event(pre_nodes[em[k]]));
}

/// Coalescing bound.  One drain delivers at most one event per node:
/// every event traces to a distinct node taken off the queue, however
/// many readiness updates preceded the drain.
pub proof fn lemma_coalescing_bound(
    pre_nodes: Seq<ReadinessNode>,
    pre_queue: Seq<QueueEntry>,
    post_nodes: Seq<ReadinessNode>,
    post_queue: Seq<QueueEntry>,
    dst: Seq<Event>,
    cap: nat,
    em: Seq<int>,
    done: Set<int>,
)
    requires
        drain_post(
            pre_nodes,
            pre_queue,
            post_nodes,
            post_queue,
            Seq::empty(),
            dst,
            cap,
            em,
            done,
        ),
    ensures
        em.no_duplicates(),
        dst.len() == em.len(),
        forall|k: int| 0 <= k < em.len() ==> #[trigger] dst[k] == node_event(pre_nodes[em[k]]),
{
    assert forall|k: int| 0 <= k < em.len() implies #[trigger] dst[k] == node_event(
        pre_nodes[em[k]],
    ) by {
        assert(dst[0 + k] == node_event(pre_nodes[em[k]]));
    }
}

/// No use after free, structurally.  Any node reachable from the queue
/// still holds at least the consumer's reference, so the drain never
/// reads a reclaimed slot; the last reference can only be given up once
/// the node is off the queue.
pub proof fn lemma_no_use_after_free(q: ReadinessQueue, k: int)
    requires
        q.wf(),
        0 <= k < q.queue@.len(),
        q.queue@[k].is_node(),
    ensures
        (q.queue@[k].node_idx() as int) < q.nodes@.len(),
        q.nodes@[q.queue@[k].node_idx() as int].ref_count >= 1,
{
    assert(q.entry_wf(q.queue@[k]));
}

/// Awakener necessity.  A producer whose enqueue observed the sleep
/// marker at the producer end fires the awakener before returning.
pub proof fn lemma_awakener_necessity(pre: Poll, post: Poll, node: int, ready: Ready)
    requires
        set_readiness_post(pre, post, node, ready),
        0 <= node < pre.readiness_queue.nodes@.len(),
        !pre.readiness_queue.nodes@[node].state.inner.dropped(),
        !pre.readiness_queue.nodes@[node].state.inner.queued(),
        (ready.0 as u32) & pre.readiness_queue.nodes@[node].state.inner.interest_bits() != 0,
        pre.readiness_queue.queue@.last() == QueueEntry::Sleep,
    ensures
        post.readiness_queue.awakener.pending,
{
}

} // verus!
