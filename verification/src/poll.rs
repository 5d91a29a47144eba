//! The consumer side: the `Poll` instance and its poll loop.
//!
//! `Poll::poll` is the single consumer of the readiness queue.  One call
//! prepares the sleep handshake when the caller is willing to block, lets
//! the kernel demultiplexer run (out of scope here; user-space events are
//! the subject), removes the sleep marker again, drains the awakener if it
//! fired, and finally drains the readiness queue into the caller's event
//! buffer.

use vstd::prelude::*;
use crate::events::Events;
use crate::queue::drain_post;
use crate::queue::QueueEntry;
use crate::queue::ReadinessQueue;
use crate::ready::Error;
use crate::ready::PollOpt;
use crate::ready::Ready;
use crate::ready::Token;
use crate::ready::AWAKEN;

verus! {

/// Polls for readiness events on registered sources.  Owns the user-space
/// readiness queue; the platform selector that mio pairs with it is an
/// external collaborator and out of scope.
#[derive(Debug)]
pub struct Poll {
    pub readiness_queue: ReadinessQueue,
}

/// The contract between `Poll` and anything registerable with it.  Kernel
/// sources implement it against a platform selector; user-space sources
/// implement it through their `Registration`.
pub trait Evented {
    /// Register the source for the first time.
    fn register(&self, poll: &mut Poll, token: Token, interest: Ready, opts: PollOpt) -> (r:
        Result<(), Error>)
        requires
            old(poll).wf(),
            interest.wf(),
            opts.wf(),
        ensures
            final(poll).wf(),
    ;

    /// Replace an existing registration's token, interest and options.
    fn reregister(&self, poll: &mut Poll, token: Token, interest: Ready, opts: PollOpt) -> (r:
        Result<(), Error>)
        requires
            old(poll).wf(),
            interest.wf(),
            opts.wf(),
        ensures
            final(poll).wf(),
    ;

    /// Remove the source's registration.
    fn deregister(&self, poll: &mut Poll) -> (r: Result<(), Error>)
        requires
            old(poll).wf(),
        ensures
            final(poll).wf(),
    ;
}

/// Reject the reserved awakener token and interest without readable or
/// writable.
pub fn validate_args(token: Token, interest: Ready) -> (r: Result<(), Error>)
    ensures
        r == (if token.0 == AWAKEN || (interest.0 & 1 == 0 && interest.0 & 2 == 0) {
            Err::<(), Error>(Error::InvalidArgs)
        } else {
            Ok::<(), Error>(())
        }),
{
    if token.0 == AWAKEN {
        return Err(Error::InvalidArgs);
    }
    if !interest.is_readable() && !interest.is_writable() {
        return Err(Error::InvalidArgs);
    }
    Ok(())
}

impl Poll {
    /// The poll instance is well formed when its readiness queue is.
    pub open spec fn wf(self) -> bool {
        self.readiness_queue.wf()
    }

    /// A new poll instance with an empty readiness queue.
    pub fn new() -> (p: Poll)
        ensures
            p.wf(),
            p.readiness_queue.nodes@.len() == 0,
            p.readiness_queue.queue@ == seq![QueueEntry::End],
            !p.readiness_queue.awakener.pending,
            p.readiness_queue.next_gen == 0,
    {
        Poll { readiness_queue: ReadinessQueue::new() }
    }

    /// Register an `Evented` source, after validating the arguments.
    pub fn register<E: Evented>(
        &mut self,
        io: &E,
        token: Token,
        interest: Ready,
        opts: PollOpt,
    ) -> (r: Result<(), Error>)
        requires
            old(self).wf(),
            interest.wf(),
            opts.wf(),
        ensures
            final(self).wf(),
            (token.0 == AWAKEN || (interest.0 & 1 == 0 && interest.0 & 2 == 0)) ==> (r == Err::<
                (),
                Error,
            >(Error::InvalidArgs) && *final(self) == *old(self)),
    {
        match validate_args(token, interest) {
            Err(e) => Err(e),
            Ok(()) => io.register(self, token, interest, opts),
        }
    }

    /// Re-register an `Evented` source, after validating the arguments.
    pub fn reregister<E: Evented>(
        &mut self,
        io: &E,
        token: Token,
        interest: Ready,
        opts: PollOpt,
    ) -> (r: Result<(), Error>)
        requires
            old(self).wf(),
            interest.wf(),
            opts.wf(),
        ensures
            final(self).wf(),
            (token.0 == AWAKEN || (interest.0 & 1 == 0 && interest.0 & 2 == 0)) ==> (r == Err::<
                (),
                Error,
            >(Error::InvalidArgs) && *final(self) == *old(self)),
    {
        match validate_args(token, interest) {
            Err(e) => Err(e),
            Ok(()) => io.reregister(self, token, interest, opts),
        }
    }

    /// Deregister an `Evented` source.
    pub fn deregister<E: Evented>(&mut self, io: &E) -> (r: Result<(), Error>)
        requires
            old(self).wf(),
        ensures
            final(self).wf(),
    {
        io.deregister(self)
    }

    /// Gather readiness events into `events`, which is cleared first.
    ///
    /// A blocking caller (any timeout but zero) first announces sleep
    /// through the sleep marker, so producers fire the awakener; the
    /// kernel demultiplexer would block here and is out of scope.  The
    /// call then undoes the handshake, drains the awakener if it fired,
    /// drains the readiness queue up to the buffer's capacity, and
    /// reports how many events were delivered.
    pub fn poll(&mut self, events: &mut Events, timeout: Option<u64>) -> (r: Result<usize, Error>)
        requires
            old(self).wf(),
            old(events).wf(),
        ensures
            final(self).wf(),
            final(self).readiness_queue.next_gen == old(self).readiness_queue.next_gen,
            !final(self).readiness_queue.awakener.pending,
            final(events).cap == old(events).cap,
            final(events).wf(),
            r == Ok::<usize, Error>(final(events).inner@.len() as usize),
            exists|em: Seq<int>, done: Set<int>|
                drain_post(
                    old(self).readiness_queue.nodes@,
                    old(self).readiness_queue.queue@,
                    final(self).readiness_queue.nodes@,
                    final(self).readiness_queue.queue@,
                    Seq::<crate::ready::Event>::empty(),
                    final(events).inner@,
                    old(events).cap as nat,
                    em,
                    done,
                ),
    {
        self.poll2(events, timeout)
    }

    /// The body of one poll call, entered by a single caller at a time.
    fn poll2(&mut self, events: &mut Events, timeout: Option<u64>) -> (r: Result<usize, Error>)
        requires
            old(self).wf(),
            old(events).wf(),
        ensures
            final(self).wf(),
            final(self).readiness_queue.next_gen == old(self).readiness_queue.next_gen,
            !final(self).readiness_queue.awakener.pending,
            final(events).cap == old(events).cap,
            final(events).wf(),
            r == Ok::<usize, Error>(final(events).inner@.len() as usize),
            exists|em: Seq<int>, done: Set<int>|
                drain_post(
                    old(self).readiness_queue.nodes@,
                    old(self).readiness_queue.queue@,
                    final(self).readiness_queue.nodes@,
                    final(self).readiness_queue.queue@,
                    Seq::<crate::ready::Event>::empty(),
                    final(events).inner@,
                    old(events).cap as nat,
                    em,
                    done,
                ),
    {
        // The event buffer is reset at the top of every call, as the
        // kernel demultiplexer does for its native events.
        events.clear();

        let timeout_is_zero = match timeout {
            Some(t) => t == 0,
            None => false,
        };

        // A caller that will not block needs no sleep handshake.
        let mut slept = false;
        if !timeout_is_zero {
            if self.readiness_queue.prepare_for_sleep() {
                // The consumer would now block in the kernel
                // demultiplexer; producers that enqueue meanwhile see the
                // sleep marker and fire the awakener.
                slept = true;
            }
        }

        // What the kernel demultiplexer would report: whether the
        // awakener's readiness woke the consumer.
        let awakener_fired = self.readiness_queue.awakener.pending;

        if slept {
            // Take the sleep marker back out, so producers stop paying
            // for awakener wakeups.
            self.readiness_queue.try_remove_sleep_marker();
        }

        if awakener_fired {
            self.readiness_queue.awakener_cleanup();
        } else {
            proof {
                assert(!self.readiness_queue.awakener.pending);
            }
        }

        proof {
            // The sleep marker round trip left the queue as it was.
            if slept {
                assert(old(self).readiness_queue.queue@ =~= seq![QueueEntry::End]);
                assert(self.readiness_queue.queue@ =~= old(self).readiness_queue.queue@);
            }
            assert(self.readiness_queue.queue@ == old(self).readiness_queue.queue@);
            assert(self.readiness_queue.nodes@ == old(self).readiness_queue.nodes@);
            assert(events.inner@ =~= Seq::<crate::ready::Event>::empty());
        }

        let ghost mid = self.readiness_queue;
        let ghost dstc = *events;
        self.readiness_queue.poll(events);

        proof {
            let (em, done) = choose|em: Seq<int>, done: Set<int>|
                drain_post(
                    mid.nodes@,
                    mid.queue@,
                    self.readiness_queue.nodes@,
                    self.readiness_queue.queue@,
                    dstc.inner@,
                    events.inner@,
                    dstc.cap as nat,
                    em,
                    done,
                );
            assert(drain_post(
                old(self).readiness_queue.nodes@,
                old(self).readiness_queue.queue@,
                self.readiness_queue.nodes@,
                self.readiness_queue.queue@,
                Seq::<crate::ready::Event>::empty(),
                events.inner@,
                old(events).cap as nat,
                em,
                done,
            ));
        }
        Ok(events.len())
    }
}

/// Marker check that a type can be sent across threads.
pub fn is_send<T: Send>() {
}

/// Marker check that a type can be shared across threads.
pub fn is_sync<T: Sync>() {
}

} // verus!
