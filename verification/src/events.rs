//! The buffer readiness events are drained into.

use vstd::prelude::*;
use crate::ready::Event;

verus! {

/// A bounded buffer of events, filled by `Poll::poll` and read back by the
/// caller.  The buffer is reused across calls; each call clears it first.
#[derive(Debug)]
pub struct Events {
    pub inner: Vec<Event>,
    pub cap: usize,
}

/// Walks an `Events` buffer from front to back.
pub struct EventsIter<'a> {
    pub inner: &'a Events,
    pub pos: usize,
}

impl Events {
    /// The buffer never holds more events than its capacity.
    pub open spec fn wf(self) -> bool {
        self.inner@.len() <= self.cap
    }

    /// An empty buffer able to hold up to `capacity` events per poll.
    pub fn with_capacity(capacity: usize) -> (e: Events)
        ensures
            e.inner@.len() == 0,
            e.cap == capacity,
            e.wf(),
    {
        Events { inner: Vec::new(), cap: capacity }
    }

    /// The `idx`-th event, or `None` past the end.
    pub fn get(&self, idx: usize) -> (r: Option<Event>)
        ensures
            idx < self.inner@.len() ==> r == Some(self.inner@[idx as int]),
            idx >= self.inner@.len() ==> r == None::<Event>,
    {
        if idx < self.inner.len() {
            Some(self.inner[idx])
        } else {
            None
        }
    }

    /// How many events the buffer holds.
    pub fn len(&self) -> (n: usize)
        ensures
            n == self.inner@.len(),
    {
        self.inner.len()
    }

    /// Whether the buffer holds no events.
    pub fn is_empty(&self) -> (b: bool)
        ensures
            b == (self.inner@.len() == 0),
    {
        self.inner.len() == 0
    }

    /// The capacity the buffer was created with.
    pub fn capacity(&self) -> (n: usize)
        ensures
            n == self.cap,
    {
        self.cap
    }

    /// Append one event; the caller keeps the buffer within capacity.
    pub fn push_event(&mut self, event: Event)
        requires
            old(self).inner@.len() < old(self).cap,
        ensures
            final(self).inner@ == old(self).inner@.push(event),
            final(self).cap == old(self).cap,
            final(self).wf(),
    {
        self.inner.push(event);
    }

    /// Drop all events, keeping the capacity.
    pub fn clear(&mut self)
        ensures
            final(self).inner@.len() == 0,
            final(self).cap == old(self).cap,
            final(self).wf(),
    {
        self.inner.clear();
    }

    /// An iterator over the buffered events.
    pub fn iter(&self) -> (it: EventsIter<'_>)
        ensures
            it.inner == self,
            it.pos == 0,
    {
        EventsIter { inner: self, pos: 0 }
    }
}

impl<'a> EventsIter<'a> {
    /// The next event, or `None` once the buffer is exhausted.
    pub fn next(&mut self) -> (r: Option<Event>)
        ensures
            final(self).inner == old(self).inner,
            old(self).pos < old(self).inner.inner@.len() ==> {
                &&& r == Some(old(self).inner.inner@[old(self).pos as int])
                &&& final(self).pos == old(self).pos + 1
            },
            old(self).pos >= old(self).inner.inner@.len() ==> {
                &&& r == None::<Event>
                &&& final(self).pos == old(self).pos
            },
    {
        let ret = self.inner.get(self.pos);
        if ret.is_some() {
            proof {
                vstd::std_specs::vec::axiom_spec_len(&self.inner.inner);
            }
            self.pos = self.pos + 1;
        }
        ret
    }
}

} // verus!
