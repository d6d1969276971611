//! The event queue: a bounded FIFO channel carrying change events from
//! the writer contexts to the single dispatch point. A send never
//! blocks: when the queue is full the event is dropped at the producer,
//! trading completeness of the notification stream for write-path
//! latency.

use vstd::prelude::*;
use crate::event::PreUpdateEvent;

verus! {

/// A bounded first-in/first-out queue of change events.
pub struct EventQueue {
    items: Vec<PreUpdateEvent>,
    capacity: usize,
}

impl EventQueue {
    /// The queued events, oldest first.
    pub closed spec fn contents(self) -> Seq<PreUpdateEvent> {
        self.items@
    }

    /// The fixed capacity the queue was created with.
    pub closed spec fn cap(self) -> nat {
        self.capacity as nat
    }

    /// The queue never holds more than its capacity.
    pub open spec fn wf(self) -> bool {
        self.contents().len() <= self.cap()
    }

    /// An empty queue of the given capacity.
    pub fn new(capacity: usize) -> (q: EventQueue)
        ensures
            q.wf(),
            q.cap() == capacity,
            q.contents() == Seq::<PreUpdateEvent>::empty(),
    {
        EventQueue { items: Vec::new(), capacity }
    }

    /// How many events are queued.
    pub fn len(&self) -> (n: usize)
        ensures
            n == self.contents().len(),
    {
        self.items.len()
    }

    /// Non-blocking send: the event is enqueued exactly when the queue
    /// has room, and dropped otherwise, leaving the queue unchanged.
    /// Either way the call returns; it never waits for the consumer.
    pub fn try_send(&mut self, e: PreUpdateEvent) -> (ok: bool)
        requires
            old(self).wf(),
        ensures
            final(self).wf(),
            final(self).cap() == old(self).cap(),
            ok == (old(self).contents().len() < old(self).cap()),
            ok ==> final(self).contents() == old(self).contents().push(e),
            !ok ==> final(self).contents() == old(self).contents(),
    {
        if self.items.len() < self.capacity {
            self.items.push(e);
            true
        } else {
            false
        }
    }

    /// Removes and returns the oldest event, `None` on an empty queue.
    pub fn recv(&mut self) -> (r: Option<PreUpdateEvent>)
        requires
            old(self).wf(),
        ensures
            final(self).wf(),
            final(self).cap() == old(self).cap(),
            old(self).contents().len() == 0 ==> r is None && final(self).contents() == old(self).contents(),
            old(self).contents().len() > 0 ==> r == Some(old(self).contents()[0])
                && final(self).contents() == old(self).contents().skip(1),
    {
        if self.items.len() == 0 {
            None
        } else {
            let e = self.items.remove(0);
            proof {
                assert(old(self).contents().remove(0) =~= old(self).contents().skip(1));
            }
            Some(e)
        }
    }
}

} // verus!
