//! The ingestion queue: a bounded FIFO of event envelopes, the bus's
//! backpressure point.
//!
//! Enqueueing fails on a closed queue and signals a full queue to the caller,
//! who waits and retries; nothing is ever dropped or overwritten. A closed
//! queue accepts no new envelopes but still hands out what it already holds,
//! so a consumer can drain it cleanly.

use vstd::prelude::*;

use crate::events::EventEnvelope;

verus! {

/// Why a publish did not enqueue: the bus was shut down, or the queue is at
/// capacity and the caller must wait before retrying.
#[derive(Clone, Copy, Debug, PartialEq, Eq, Structural)]
pub enum PublishError {
    QueueClosed,
    QueueFull,
}

/// A bounded FIFO queue of event envelopes.
pub struct EventQueue {
    items: Vec<EventEnvelope>,
    capacity: usize,
    closed: bool,
}

impl EventQueue {
    /// The queued envelopes, oldest first.
    pub closed spec fn contents(self) -> Seq<EventEnvelope> {
        self.items@
    }

    /// The fixed capacity the queue was created with.
    pub closed spec fn cap(self) -> nat {
        self.capacity as nat
    }

    /// Whether the queue has been closed to new envelopes.
    pub closed spec fn is_closed(self) -> bool {
        self.closed
    }

    /// The queue never holds more envelopes than its capacity.
    pub closed spec fn wf(self) -> bool {
        self.items@.len() <= self.capacity && self.capacity >= 1
    }

    /// Creates an open, empty queue of the given capacity.
    pub fn new(capacity: usize) -> (r: Self)
        requires
            capacity >= 1,
        ensures
            r.wf(),
            r.contents() == Seq::<EventEnvelope>::empty(),
            r.cap() == capacity,
            !r.is_closed(),
    {
        let r = EventQueue { items: Vec::new(), capacity, closed: false };
        proof {
            assert(r.contents() =~= Seq::<EventEnvelope>::empty());
        }
        r
    }

    /// Accepts an envelope at the back of the queue. Fails with `QueueClosed`
    /// after a shutdown and with `QueueFull` when the queue is at capacity;
    /// in both cases the queue is unchanged and the caller may retry a full
    /// queue once space frees up.
    pub fn try_enqueue(&mut self, envelope: EventEnvelope) -> (r: Result<(), PublishError>)
        requires
            old(self).wf(),
        ensures
            final(self).wf(),
            final(self).cap() == old(self).cap(),
            final(self).is_closed() == old(self).is_closed(),
            old(self).is_closed() ==> r == Result::<(), PublishError>::Err(
                PublishError::QueueClosed,
            ) && final(self).contents() == old(self).contents(),
            !old(self).is_closed() && old(self).contents().len() == old(self).cap() ==> r
                == Result::<(), PublishError>::Err(PublishError::QueueFull)
                && final(self).contents() == old(self).contents(),
            !old(self).is_closed() && old(self).contents().len() < old(self).cap() ==> r
                == Result::<(), PublishError>::Ok(())
                && final(self).contents() == old(self).contents().push(envelope),
    {
        if self.closed {
            return Result::Err(PublishError::QueueClosed);
        }
        if self.items.len() == self.capacity {
            return Result::Err(PublishError::QueueFull);
        }
        self.items.push(envelope);
        Result::Ok(())
    }

    /// Hands out the oldest queued envelope, if any; works after a close, so
    /// the consumer can drain what was already accepted.
    pub fn dequeue(&mut self) -> (r: Option<EventEnvelope>)
        requires
            old(self).wf(),
        ensures
            final(self).wf(),
            final(self).cap() == old(self).cap(),
            final(self).is_closed() == old(self).is_closed(),
            old(self).contents().len() == 0 ==> r is None
                && final(self).contents() == old(self).contents(),
            old(self).contents().len() > 0 ==> r == Option::Some(old(self).contents()[0])
                && final(self).contents() == old(self).contents().drop_first(),
    {
        if self.items.len() == 0 {
            return Option::None;
        }
        let e = self.items.remove(0);
        proof {
            assert(self.items@ =~= old(self).items@.drop_first());
        }
        Option::Some(e)
    }

    /// Closes the queue: later enqueues fail, queued envelopes remain
    /// drainable.
    pub fn close(&mut self)
        requires
            old(self).wf(),
        ensures
            final(self).wf(),
            final(self).cap() == old(self).cap(),
            final(self).is_closed(),
            final(self).contents() == old(self).contents(),
    {
        self.closed = true;
    }

    /// Whether the queue has been closed to new envelopes.
    pub fn is_shut_down(&self) -> (r: bool)
        ensures
            r == self.is_closed(),
    {
        self.closed
    }

    /// The number of envelopes waiting in the queue.
    pub fn len(&self) -> (r: usize)
        ensures
            r == self.contents().len(),
    {
        self.items.len()
    }
}

} // verus!
