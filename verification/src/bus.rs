//! The bus core: one ingestion queue, one subscription registry and one
//! metrics collector, with the decisions of the delivery pipeline.
//!
//! The core is a synchronous state machine. The runtime around it runs the
//! consuming loop: it pulls the next envelope, asks the core which handlers
//! the envelope must go to (which also counts the event as received), runs
//! the matching handlers concurrently under its fan-out deadline, and feeds
//! each handler's outcome and the overall completion or timeout back into
//! the core. Publishing never blocks here: a full queue is reported to the
//! caller, who waits and retries — that is the backpressure.

use vstd::prelude::*;

use crate::events::{event_type, spec_event_type, EventEnvelope, EventFilter, EventType};
use crate::metrics::{
    sat_add64, unchanged_but_failure, unchanged_but_processed, unchanged_but_received,
    unchanged_but_success, unchanged_but_timeout, EventBusMetrics,
};
use crate::queue::{EventQueue, PublishError};
use crate::registry::SubscriptionRegistry;
use crate::types::NimbusError;

verus! {

/// An in-memory publish/subscribe event bus for single-instance deployments.
pub struct InMemoryEventBus {
    queue: EventQueue,
    registry: SubscriptionRegistry,
    metrics: EventBusMetrics,
}

impl InMemoryEventBus {
    /// The ingestion queue.
    pub closed spec fn spec_queue(self) -> EventQueue {
        self.queue
    }

    /// The subscription registry.
    pub closed spec fn spec_registry(self) -> SubscriptionRegistry {
        self.registry
    }

    /// The metrics collector.
    pub closed spec fn spec_metrics(self) -> EventBusMetrics {
        self.metrics
    }

    /// All three components are internally consistent.
    pub closed spec fn wf(self) -> bool {
        self.queue.wf() && self.registry.wf() && self.metrics.wf()
    }

    /// Creates a bus with an empty registry, zeroed metrics, and an open
    /// queue holding up to `buffer_size` envelopes.
    pub fn new(buffer_size: usize) -> (r: Self)
        requires
            buffer_size >= 1,
        ensures
            r.wf(),
            r.spec_queue().contents() == Seq::<EventEnvelope>::empty(),
            r.spec_queue().cap() == buffer_size,
            !r.spec_queue().is_closed(),
            r.spec_registry().handler_map() == Map::<Seq<char>, EventFilter>::empty(),
            forall|t: EventType| r.spec_registry().index_set(t) == Set::<Seq<char>>::empty(),
            forall|t: EventType| r.spec_metrics().received_count(t) == 0,
            forall|t: EventType| r.spec_metrics().timeout_count(t) == 0,
            forall|t: EventType| r.spec_metrics().processed_count_of(t) == 0,
            forall|t: EventType| r.spec_metrics().processed_total_ms_of(t) == 0,
            forall|n: Seq<char>| r.spec_metrics().success_count(n) == 0,
            forall|n: Seq<char>| r.spec_metrics().failure_count(n) == 0,
    {
        InMemoryEventBus {
            queue: EventQueue::new(buffer_size),
            registry: SubscriptionRegistry::new(),
            metrics: EventBusMetrics::new(),
        }
    }

    /// Enqueues an envelope for delivery. Fails with `QueueClosed` after a
    /// shutdown; reports `QueueFull` at capacity so the caller can wait and
    /// retry. Never touches the registry or the metrics.
    pub fn publish(&mut self, envelope: EventEnvelope) -> (r: Result<(), PublishError>)
        requires
            old(self).wf(),
        ensures
            final(self).wf(),
            final(self).spec_registry() == old(self).spec_registry(),
            final(self).spec_metrics() == old(self).spec_metrics(),
            final(self).spec_queue().cap() == old(self).spec_queue().cap(),
            final(self).spec_queue().is_closed() == old(self).spec_queue().is_closed(),
            old(self).spec_queue().is_closed() ==> r == Result::<(), PublishError>::Err(
                PublishError::QueueClosed,
            ) && final(self).spec_queue().contents() == old(self).spec_queue().contents(),
            !old(self).spec_queue().is_closed() && old(self).spec_queue().contents().len() == old(self).spec_queue().cap() ==> r == Result::<(), PublishError>::Err(PublishError::QueueFull)
                && final(self).spec_queue().contents() == old(self).spec_queue().contents(),
            !old(self).spec_queue().is_closed() && old(self).spec_queue().contents().len() < old(self).spec_queue().cap() ==> r == Result::<(), PublishError>::Ok(())
                && final(self).spec_queue().contents() == old(self).spec_queue().contents().push(
                envelope,
            ),
    {
        self.queue.try_enqueue(envelope)
    }

    /// Pulls the oldest queued envelope, if any; still drains after a close.
    pub fn take_next(&mut self) -> (r: Option<EventEnvelope>)
        requires
            old(self).wf(),
        ensures
            final(self).wf(),
            final(self).spec_registry() == old(self).spec_registry(),
            final(self).spec_metrics() == old(self).spec_metrics(),
            final(self).spec_queue().cap() == old(self).spec_queue().cap(),
            final(self).spec_queue().is_closed() == old(self).spec_queue().is_closed(),
            old(self).spec_queue().contents().len() == 0 ==> r is None
                && final(self).spec_queue().contents() == old(self).spec_queue().contents(),
            old(self).spec_queue().contents().len() > 0 ==> r == Option::Some(
                old(self).spec_queue().contents()[0],
            ) && final(self).spec_queue().contents() == old(self).spec_queue().contents().drop_first(),
    {
        self.queue.dequeue()
    }

    /// Shuts the bus down: later publishes fail with `QueueClosed`; already
    /// accepted envelopes remain drainable.
    pub fn close(&mut self)
        requires
            old(self).wf(),
        ensures
            final(self).wf(),
            final(self).spec_registry() == old(self).spec_registry(),
            final(self).spec_metrics() == old(self).spec_metrics(),
            final(self).spec_queue().cap() == old(self).spec_queue().cap(),
            final(self).spec_queue().is_closed(),
            final(self).spec_queue().contents() == old(self).spec_queue().contents(),
    {
        self.queue.close()
    }

    /// Registers a handler's name and filter, overwriting any previous
    /// registration under the same name. Always succeeds.
    pub fn subscribe(&mut self, name: String, filter: EventFilter) -> (r: Result<(), NimbusError>)
        requires
            old(self).wf(),
        ensures
            final(self).wf(),
            r is Ok,
            final(self).spec_queue() == old(self).spec_queue(),
            final(self).spec_metrics() == old(self).spec_metrics(),
            final(self).spec_registry().handler_map() == old(self).spec_registry().handler_map().insert(name@, filter),
            forall|t: EventType|
                final(self).spec_registry().index_set(t) == (
                if crate::registry::filter_implies_type(filter, t) {
                    old(self).spec_registry().index_set(t).insert(name@)
                } else {
                    old(self).spec_registry().index_set(t)
                }),
    {
        self.registry.subscribe(name, filter);
        Result::Ok(())
    }

    /// Removes a handler registration and purges its name from every index
    /// bucket. Unsubscribing an unknown name is a no-op; both ways it
    /// succeeds.
    pub fn unsubscribe(&mut self, name: &str) -> (r: Result<(), NimbusError>)
        requires
            old(self).wf(),
        ensures
            final(self).wf(),
            r is Ok,
            final(self).spec_queue() == old(self).spec_queue(),
            final(self).spec_metrics() == old(self).spec_metrics(),
            final(self).spec_registry().handler_map() == old(self).spec_registry().handler_map().remove(name@),
            forall|t: EventType|
                final(self).spec_registry().index_set(t) == old(self).spec_registry().index_set(
                    t,
                ).remove(name@),
    {
        self.registry.unsubscribe(name);
        Result::Ok(())
    }

    /// The number of registered handlers.
    pub fn subscriber_count(&self) -> (r: usize)
        requires
            self.wf(),
        ensures
            r == self.spec_registry().handler_map().dom().len(),
    {
        self.registry.subscriber_count()
    }

    /// Starts the dispatch of one envelope: counts it as received for its
    /// event type and returns the names of exactly the handlers whose filter
    /// matches it, each name once. The runtime delivers to those handlers
    /// concurrently and reports back through `record_handler_outcome` and
    /// `dispatch_completed` or `dispatch_timed_out`.
    pub fn begin_dispatch(&mut self, envelope: &EventEnvelope) -> (r: Vec<String>)
        requires
            old(self).wf(),
        ensures
            final(self).wf(),
            final(self).spec_queue() == old(self).spec_queue(),
            final(self).spec_registry() == old(self).spec_registry(),
            final(self).spec_metrics().received_count(spec_event_type(envelope.event))
                == sat_add64(
                old(self).spec_metrics().received_count(spec_event_type(envelope.event)),
                1,
            ),
            forall|u: EventType|
                u != spec_event_type(envelope.event) ==> final(self).spec_metrics().received_count(
                    u,
                ) == old(self).spec_metrics().received_count(u),
            unchanged_but_received(old(self).spec_metrics(), final(self).spec_metrics()),
            forall|p: int, q: int| 0 <= p < q < r@.len() ==> r@[p]@ != r@[q]@,
            forall|p: int|
                0 <= p < r@.len() ==> old(self).spec_registry().matching_set(
                    envelope.event,
                ).contains(#[trigger] r@[p]@),
            forall|n: Seq<char>|
                #[trigger] old(self).spec_registry().matching_set(envelope.event).contains(n)
                    ==> crate::registry::has_string(r@, n),
    {
        let t = event_type(&envelope.event);
        self.metrics.event_received(t);
        self.registry.matching_handlers(envelope)
    }

    /// Records the outcome of one handler's delivery: a success or a failure
    /// count for that handler name, touching nothing else. One handler's
    /// failure can never reach another handler's series.
    pub fn record_handler_outcome(&mut self, name: &str, succeeded: bool)
        requires
            old(self).wf(),
        ensures
            final(self).wf(),
            final(self).spec_queue() == old(self).spec_queue(),
            final(self).spec_registry() == old(self).spec_registry(),
            succeeded ==> final(self).spec_metrics().success_count(name@) == sat_add64(
                old(self).spec_metrics().success_count(name@),
                1,
            ) && unchanged_but_success(old(self).spec_metrics(), final(self).spec_metrics()),
            !succeeded ==> final(self).spec_metrics().failure_count(name@) == sat_add64(
                old(self).spec_metrics().failure_count(name@),
                1,
            ) && unchanged_but_failure(old(self).spec_metrics(), final(self).spec_metrics()),
            forall|n: Seq<char>|
                n != name@ ==> final(self).spec_metrics().success_count(n) == old(self).spec_metrics().success_count(n) && final(self).spec_metrics().failure_count(n)
                    == old(self).spec_metrics().failure_count(n),
    {
        if succeeded {
            self.metrics.handler_success(name);
        } else {
            self.metrics.handler_failure(name);
        }
    }

    /// Records that an envelope's whole fan-out finished before the deadline,
    /// with the time the fan-out-and-wait span took.
    pub fn dispatch_completed(&mut self, t: EventType, duration_ms: u64)
        requires
            old(self).wf(),
        ensures
            final(self).wf(),
            final(self).spec_queue() == old(self).spec_queue(),
            final(self).spec_registry() == old(self).spec_registry(),
            final(self).spec_metrics().processed_count_of(t) == sat_add64(
                old(self).spec_metrics().processed_count_of(t),
                1,
            ),
            final(self).spec_metrics().processed_total_ms_of(t) == sat_add64(
                old(self).spec_metrics().processed_total_ms_of(t),
                duration_ms,
            ),
            forall|u: EventType|
                u != t ==> final(self).spec_metrics().processed_count_of(u) == old(self).spec_metrics().processed_count_of(u) && final(self).spec_metrics().processed_total_ms_of(u) == old(self).spec_metrics().processed_total_ms_of(u),
            unchanged_but_processed(old(self).spec_metrics(), final(self).spec_metrics()),
    {
        self.metrics.event_processed(t, duration_ms);
    }

    /// Records that an envelope's fan-out hit the shared deadline: a timeout
    /// count instead of a duration sample. The handlers still running are not
    /// cancelled and their later outcomes are not recorded.
    pub fn dispatch_timed_out(&mut self, t: EventType)
        requires
            old(self).wf(),
        ensures
            final(self).wf(),
            final(self).spec_queue() == old(self).spec_queue(),
            final(self).spec_registry() == old(self).spec_registry(),
            final(self).spec_metrics().timeout_count(t) == sat_add64(
                old(self).spec_metrics().timeout_count(t),
                1,
            ),
            forall|u: EventType|
                u != t ==> final(self).spec_metrics().timeout_count(u) == old(self).spec_metrics().timeout_count(u),
            unchanged_but_timeout(old(self).spec_metrics(), final(self).spec_metrics()),
    {
        self.metrics.event_timeout(t);
    }

    /// Whether the bus has been shut down: later publishes will fail.
    pub fn is_shut_down(&self) -> (r: bool)
        ensures
            r == self.spec_queue().is_closed(),
    {
        self.queue.is_shut_down()
    }

    /// Read access to the metrics collector.
    pub fn metrics(&self) -> (r: &EventBusMetrics)
        ensures
            *r == self.spec_metrics(),
    {
        &self.metrics
    }
}

} // verus!
