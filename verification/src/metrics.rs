//! Metrics for the event bus: counts of received and timed-out events per
//! event type, per-handler success and failure counts, and the processing
//! duration series per event type (as a sample count and a running total).
//!
//! The collector is passive: recording never influences dispatch. Counters
//! saturate rather than wrap at the top of their range. Exporting these
//! series to a scrape endpoint is the surrounding runtime's business.

use vstd::prelude::*;

use crate::events::EventType;
use crate::registry::{spec_type_slot, type_slot, EVENT_TYPE_COUNT};

verus! {

/// `a + b`, capped at the top of the `u64` range.
pub open spec fn sat_add64(a: u64, b: u64) -> u64 {
    if a + b > u64::MAX {
        u64::MAX
    } else {
        (a + b) as u64
    }
}

/// Adds without overflow, saturating at `u64::MAX`.
fn saturating_add64(a: u64, b: u64) -> (r: u64)
    ensures
        r == sat_add64(a, b),
{
    if a > u64::MAX - b {
        u64::MAX
    } else {
        a + b
    }
}

/// One labeled counter: a handler name and its count.
struct CounterEntry {
    name: String,
    count: u64,
}

/// Whether some entry in `s` carries the label `n`.
spec fn has_label(s: Seq<CounterEntry>, n: Seq<char>) -> bool {
    exists|i: int| 0 <= i < s.len() && #[trigger] s[i].name@ == n
}

/// Whether the entries of `s` carry pairwise distinct labels.
spec fn labels_unique(s: Seq<CounterEntry>) -> bool {
    forall|i: int, j: int| 0 <= i < j < s.len() ==> s[i].name@ != s[j].name@
}

/// The count the entry sequence assigns to label `n`; absent labels count
/// zero.
spec fn counters_value(s: Seq<CounterEntry>, n: Seq<char>) -> u64
    decreases s.len(),
{
    if s.len() == 0 {
        0
    } else if s.last().name@ == n {
        s.last().count
    } else {
        counters_value(s.drop_last(), n)
    }
}

proof fn lemma_labels_unique_drop_last(s: Seq<CounterEntry>)
    requires
        labels_unique(s),
        s.len() > 0,
    ensures
        labels_unique(s.drop_last()),
{
    assert(forall|p: int, q: int|
        0 <= p < q < s.drop_last().len() ==> s.drop_last()[p].name@ == s[p].name@
            && s.drop_last()[q].name@ == s[q].name@);
}

proof fn lemma_counters_value_at(s: Seq<CounterEntry>, i: int)
    requires
        labels_unique(s),
        0 <= i < s.len(),
    ensures
        counters_value(s, s[i].name@) == s[i].count,
    decreases s.len(),
{
    if i == s.len() - 1 {
    } else {
        lemma_labels_unique_drop_last(s);
        lemma_counters_value_at(s.drop_last(), i);
        assert(s.drop_last()[i].name@ == s[i].name@);
        assert(s[i].name@ != s.last().name@);
    }
}

proof fn lemma_counters_value_absent(s: Seq<CounterEntry>, n: Seq<char>)
    requires
        !has_label(s, n),
    ensures
        counters_value(s, n) == 0,
    decreases s.len(),
{
    if s.len() > 0 {
        assert(s[s.len() - 1].name@ != n);
        assert(!has_label(s.drop_last(), n)) by {
            if has_label(s.drop_last(), n) {
                let j = choose|j: int|
                    0 <= j < s.drop_last().len() && #[trigger] s.drop_last()[j].name@ == n;
                assert(s[j].name@ == n);
            }
        }
        lemma_counters_value_absent(s.drop_last(), n);
    }
}

proof fn lemma_counters_remove_at(s: Seq<CounterEntry>, i: int)
    requires
        labels_unique(s),
        0 <= i < s.len(),
    ensures
        labels_unique(s.remove(i)),
        !has_label(s.remove(i), s[i].name@),
        forall|n: Seq<char>|
            n != s[i].name@ ==> counters_value(s.remove(i), n) == counters_value(s, n),
    decreases s.len(),
{
    assert forall|p: int, q: int|
        0 <= p < q < s.remove(i).len() implies s.remove(i)[p].name@ != s.remove(i)[q].name@ by {
        if q < i {
            assert(s[p].name@ != s[q].name@);
        } else if p < i {
            assert(s[p].name@ != s[q + 1].name@);
        } else {
            assert(s[p + 1].name@ != s[q + 1].name@);
        }
    }
    assert(!has_label(s.remove(i), s[i].name@)) by {
        if has_label(s.remove(i), s[i].name@) {
            let j = choose|j: int|
                0 <= j < s.remove(i).len() && #[trigger] s.remove(i)[j].name@ == s[i].name@;
            if j < i {
                assert(s[j].name@ == s[i].name@);
            } else {
                assert(s[j + 1].name@ == s[i].name@);
            }
        }
    }
    assert forall|n: Seq<char>|
        n != s[i].name@ implies counters_value(s.remove(i), n) == counters_value(s, n) by {
        lemma_counters_remove_value(s, i, n);
    }
}

proof fn lemma_counters_remove_value(s: Seq<CounterEntry>, i: int, n: Seq<char>)
    requires
        labels_unique(s),
        0 <= i < s.len(),
        n != s[i].name@,
    ensures
        counters_value(s.remove(i), n) == counters_value(s, n),
    decreases s.len(),
{
    if i == s.len() - 1 {
        assert(s.remove(i) =~= s.drop_last());
    } else {
        lemma_labels_unique_drop_last(s);
        lemma_counters_remove_value(s.drop_last(), i, n);
        assert(s.remove(i).drop_last() =~= s.drop_last().remove(i));
        assert(s.remove(i).last() == s.last());
    }
}

/// Counters labeled by handler name; a name never counted reads zero.
pub struct HandlerCounters {
    entries: Vec<CounterEntry>,
}

impl HandlerCounters {
    /// The count recorded under label `n`.
    pub closed spec fn count_of(self, n: Seq<char>) -> u64 {
        counters_value(self.entries@, n)
    }

    /// Labels are pairwise distinct.
    pub closed spec fn wf(self) -> bool {
        labels_unique(self.entries@)
    }

    /// Creates an empty counter table.
    pub fn new() -> (r: Self)
        ensures
            r.wf(),
            forall|n: Seq<char>| r.count_of(n) == 0,
    {
        let r = HandlerCounters { entries: Vec::new() };
        proof {
            assert forall|n: Seq<char>| r.count_of(n) == 0 by {
                lemma_counters_value_absent(r.entries@, n);
            }
        }
        r
    }

    /// Adds one to the count under `name`, saturating at the top of the
    /// range; every other label's count is untouched.
    pub fn increment(&mut self, name: &str)
        requires
            old(self).wf(),
        ensures
            final(self).wf(),
            final(self).count_of(name@) == sat_add64(old(self).count_of(name@), 1),
            forall|n: Seq<char>|
                n != name@ ==> final(self).count_of(n) == old(self).count_of(n),
    {
        let ghost orig = self.entries@;
        let mut i: usize = 0;
        while i < self.entries.len()
            invariant
                orig == old(self).entries@,
                self.entries@ == orig,
                labels_unique(orig),
                i <= orig.len(),
                forall|k: int| 0 <= k < i ==> orig[k].name@ != name@,
            decreases orig.len() - i,
        {
            if crate::glob::str_eq(self.entries[i].name.as_str(), name) {
                proof {
                    lemma_counters_value_at(orig, i as int);
                    lemma_counters_remove_at(orig, i as int);
                }
                let entry = self.entries.remove(i);
                let bumped = saturating_add64(entry.count, 1);
                let ghost removed = self.entries@;
                self.entries.push(CounterEntry { name: entry.name, count: bumped });
                proof {
                    assert(self.entries@.drop_last() =~= removed);
                    assert(self.entries@.last().name@ == name@);
                    assert(self.entries@.last().count == bumped);
                    assert forall|p: int, q: int|
                        0 <= p < q < self.entries@.len() implies self.entries@[p].name@
                        != self.entries@[q].name@ by {
                        if q == self.entries@.len() - 1 {
                            assert(removed[p].name@ == self.entries@[p].name@);
                        }
                    }
                    assert forall|n: Seq<char>|
                        n != name@ implies final(self).count_of(n) == old(self).count_of(n) by {
                        assert(counters_value(self.entries@, n) == counters_value(removed, n));
                    }
                }
                return ;
            }
            i += 1;
        }
        proof {
            assert(!has_label(orig, name@));
            lemma_counters_value_absent(orig, name@);
        }
        let ghost pre = self.entries@;
        self.entries.push(CounterEntry { name: name.to_owned(), count: 1 });
        proof {
            assert(self.entries@.drop_last() =~= pre);
            assert(self.entries@.last().name@ == name@);
            assert forall|p: int, q: int|
                0 <= p < q < self.entries@.len() implies self.entries@[p].name@
                != self.entries@[q].name@ by {
                if q == self.entries@.len() - 1 {
                    assert(pre[p].name@ == self.entries@[p].name@);
                }
            }
        }
    }

    /// Reads the count recorded under `name`.
    pub fn get(&self, name: &str) -> (r: u64)
        requires
            self.wf(),
        ensures
            r == self.count_of(name@),
    {
        let mut i: usize = 0;
        while i < self.entries.len()
            invariant
                self.wf(),
                i <= self.entries@.len(),
                forall|k: int| 0 <= k < i ==> self.entries@[k].name@ != name@,
            decreases self.entries@.len() - i,
        {
            if crate::glob::str_eq(self.entries[i].name.as_str(), name) {
                proof {
                    lemma_counters_value_at(self.entries@, i as int);
                }
                return self.entries[i].count;
            }
            i += 1;
        }
        proof {
            lemma_counters_value_absent(self.entries@, name@);
        }
        0
    }
}

/// The event bus metrics collector.
pub struct EventBusMetrics {
    events_received: Vec<u64>,
    events_timeout: Vec<u64>,
    processed_count: Vec<u64>,
    processed_total_ms: Vec<u64>,
    handler_success: HandlerCounters,
    handler_failure: HandlerCounters,
}

impl EventBusMetrics {
    /// How many events of type `t` the bus has received.
    pub closed spec fn received_count(self, t: EventType) -> u64 {
        self.events_received@[spec_type_slot(t)]
    }

    /// How many fan-outs for events of type `t` hit the shared deadline.
    pub closed spec fn timeout_count(self, t: EventType) -> u64 {
        self.events_timeout@[spec_type_slot(t)]
    }

    /// How many duration samples were recorded for events of type `t`.
    pub closed spec fn processed_count_of(self, t: EventType) -> u64 {
        self.processed_count@[spec_type_slot(t)]
    }

    /// The sum of the recorded processing durations for type `t`, in
    /// milliseconds.
    pub closed spec fn processed_total_ms_of(self, t: EventType) -> u64 {
        self.processed_total_ms@[spec_type_slot(t)]
    }

    /// How many deliveries to the handler named `n` succeeded.
    pub closed spec fn success_count(self, n: Seq<char>) -> u64 {
        self.handler_success.count_of(n)
    }

    /// How many deliveries to the handler named `n` failed.
    pub closed spec fn failure_count(self, n: Seq<char>) -> u64 {
        self.handler_failure.count_of(n)
    }

    /// The per-type series each hold one slot per event type; the per-handler
    /// tables are duplicate free.
    pub closed spec fn wf(self) -> bool {
        &&& self.events_received@.len() == EVENT_TYPE_COUNT
        &&& self.events_timeout@.len() == EVENT_TYPE_COUNT
        &&& self.processed_count@.len() == EVENT_TYPE_COUNT
        &&& self.processed_total_ms@.len() == EVENT_TYPE_COUNT
        &&& self.handler_success.wf()
        &&& self.handler_failure.wf()
    }

    /// Creates a collector with every series at zero.
    pub fn new() -> (r: Self)
        ensures
            r.wf(),
            forall|t: EventType| r.received_count(t) == 0,
            forall|t: EventType| r.timeout_count(t) == 0,
            forall|t: EventType| r.processed_count_of(t) == 0,
            forall|t: EventType| r.processed_total_ms_of(t) == 0,
            forall|n: Seq<char>| r.success_count(n) == 0,
            forall|n: Seq<char>| r.failure_count(n) == 0,
    {
        EventBusMetrics {
            events_received: zero_slots(),
            events_timeout: zero_slots(),
            processed_count: zero_slots(),
            processed_total_ms: zero_slots(),
            handler_success: HandlerCounters::new(),
            handler_failure: HandlerCounters::new(),
        }
    }

    /// Counts one received event of type `t`.
    pub fn event_received(&mut self, t: EventType)
        requires
            old(self).wf(),
        ensures
            final(self).wf(),
            final(self).received_count(t) == sat_add64(old(self).received_count(t), 1),
            forall|u: EventType|
                u != t ==> final(self).received_count(u) == old(self).received_count(u),
            unchanged_but_received(*old(self), *final(self)),
    {
        let b = type_slot(t);
        let bumped = saturating_add64(self.events_received[b], 1);
        self.events_received[b] = bumped;
        proof {
            assert forall|u: EventType|
                u != t implies final(self).received_count(u) == old(self).received_count(u) by {
                assert(spec_type_slot(u) != spec_type_slot(t));
            }
        }
    }

    /// Counts one fan-out for type `t` that hit the shared deadline. The
    /// timeout path records no duration sample.
    pub fn event_timeout(&mut self, t: EventType)
        requires
            old(self).wf(),
        ensures
            final(self).wf(),
            final(self).timeout_count(t) == sat_add64(old(self).timeout_count(t), 1),
            forall|u: EventType|
                u != t ==> final(self).timeout_count(u) == old(self).timeout_count(u),
            unchanged_but_timeout(*old(self), *final(self)),
    {
        let b = type_slot(t);
        let bumped = saturating_add64(self.events_timeout[b], 1);
        self.events_timeout[b] = bumped;
        proof {
            assert forall|u: EventType|
                u != t implies final(self).timeout_count(u) == old(self).timeout_count(u) by {
                assert(spec_type_slot(u) != spec_type_slot(t));
            }
        }
    }

    /// Records one completed fan-out for type `t`: one more duration sample,
    /// covering the whole fan-out-and-wait span in milliseconds.
    pub fn event_processed(&mut self, t: EventType, duration_ms: u64)
        requires
            old(self).wf(),
        ensures
            final(self).wf(),
            final(self).processed_count_of(t) == sat_add64(old(self).processed_count_of(t), 1),
            final(self).processed_total_ms_of(t) == sat_add64(
                old(self).processed_total_ms_of(t),
                duration_ms,
            ),
            forall|u: EventType|
                u != t ==> final(self).processed_count_of(u) == old(self).processed_count_of(u)
                    && final(self).processed_total_ms_of(u) == old(self).processed_total_ms_of(u),
            unchanged_but_processed(*old(self), *final(self)),
    {
        let b = type_slot(t);
        let bumped = saturating_add64(self.processed_count[b], 1);
        self.processed_count[b] = bumped;
        let total = saturating_add64(self.processed_total_ms[b], duration_ms);
        self.processed_total_ms[b] = total;
        proof {
            assert forall|u: EventType|
                u != t implies final(self).processed_count_of(u) == old(self).processed_count_of(
                u,
            ) && final(self).processed_total_ms_of(u) == old(self).processed_total_ms_of(u) by {
                assert(spec_type_slot(u) != spec_type_slot(t));
            }
        }
    }

    /// Counts one successful delivery to the handler named `name`.
    pub fn handler_success(&mut self, name: &str)
        requires
            old(self).wf(),
        ensures
            final(self).wf(),
            final(self).success_count(name@) == sat_add64(old(self).success_count(name@), 1),
            forall|n: Seq<char>|
                n != name@ ==> final(self).success_count(n) == old(self).success_count(n),
            unchanged_but_success(*old(self), *final(self)),
    {
        self.handler_success.increment(name);
    }

    /// Counts one failed delivery to the handler named `name`; failures of
    /// one handler never touch any other series.
    pub fn handler_failure(&mut self, name: &str)
        requires
            old(self).wf(),
        ensures
            final(self).wf(),
            final(self).failure_count(name@) == sat_add64(old(self).failure_count(name@), 1),
            forall|n: Seq<char>|
                n != name@ ==> final(self).failure_count(n) == old(self).failure_count(n),
            unchanged_but_failure(*old(self), *final(self)),
    {
        self.handler_failure.increment(name);
    }

    /// Reads how many events of type `t` were received.
    pub fn get_received(&self, t: EventType) -> (r: u64)
        requires
            self.wf(),
        ensures
            r == self.received_count(t),
    {
        self.events_received[type_slot(t)]
    }

    /// Reads how many fan-outs of type `t` timed out.
    pub fn get_timeouts(&self, t: EventType) -> (r: u64)
        requires
            self.wf(),
        ensures
            r == self.timeout_count(t),
    {
        self.events_timeout[type_slot(t)]
    }

    /// Reads how many duration samples type `t` has.
    pub fn get_processed(&self, t: EventType) -> (r: u64)
        requires
            self.wf(),
        ensures
            r == self.processed_count_of(t),
    {
        self.processed_count[type_slot(t)]
    }

    /// Reads the total recorded processing time for type `t`, in
    /// milliseconds.
    pub fn get_processed_total_ms(&self, t: EventType) -> (r: u64)
        requires
            self.wf(),
        ensures
            r == self.processed_total_ms_of(t),
    {
        self.processed_total_ms[type_slot(t)]
    }

    /// Reads the success count of the handler named `name`.
    pub fn get_successes(&self, name: &str) -> (r: u64)
        requires
            self.wf(),
        ensures
            r == self.success_count(name@),
    {
        self.handler_success.get(name)
    }

    /// Reads the failure count of the handler named `name`.
    pub fn get_failures(&self, name: &str) -> (r: u64)
        requires
            self.wf(),
        ensures
            r == self.failure_count(name@),
    {
        self.handler_failure.get(name)
    }
}

/// All series except the received counts agree between `a` and `b`.
pub open spec fn unchanged_but_received(a: EventBusMetrics, b: EventBusMetrics) -> bool {
    &&& forall|t: EventType| b.timeout_count(t) == a.timeout_count(t)
    &&& forall|t: EventType| b.processed_count_of(t) == a.processed_count_of(t)
    &&& forall|t: EventType| b.processed_total_ms_of(t) == a.processed_total_ms_of(t)
    &&& forall|n: Seq<char>| b.success_count(n) == a.success_count(n)
    &&& forall|n: Seq<char>| b.failure_count(n) == a.failure_count(n)
}

/// All series except the timeout counts agree between `a` and `b`.
pub open spec fn unchanged_but_timeout(a: EventBusMetrics, b: EventBusMetrics) -> bool {
    &&& forall|t: EventType| b.received_count(t) == a.received_count(t)
    &&& forall|t: EventType| b.processed_count_of(t) == a.processed_count_of(t)
    &&& forall|t: EventType| b.processed_total_ms_of(t) == a.processed_total_ms_of(t)
    &&& forall|n: Seq<char>| b.success_count(n) == a.success_count(n)
    &&& forall|n: Seq<char>| b.failure_count(n) == a.failure_count(n)
}

/// All series except the duration series agree between `a` and `b`.
pub open spec fn unchanged_but_processed(a: EventBusMetrics, b: EventBusMetrics) -> bool {
    &&& forall|t: EventType| b.received_count(t) == a.received_count(t)
    &&& forall|t: EventType| b.timeout_count(t) == a.timeout_count(t)
    &&& forall|n: Seq<char>| b.success_count(n) == a.success_count(n)
    &&& forall|n: Seq<char>| b.failure_count(n) == a.failure_count(n)
}

/// All series except the success counts agree between `a` and `b`.
pub open spec fn unchanged_but_success(a: EventBusMetrics, b: EventBusMetrics) -> bool {
    &&& forall|t: EventType| b.received_count(t) == a.received_count(t)
    &&& forall|t: EventType| b.timeout_count(t) == a.timeout_count(t)
    &&& forall|t: EventType| b.processed_count_of(t) == a.processed_count_of(t)
    &&& forall|t: EventType| b.processed_total_ms_of(t) == a.processed_total_ms_of(t)
    &&& forall|n: Seq<char>| b.failure_count(n) == a.failure_count(n)
}

/// All series except the failure counts agree between `a` and `b`.
pub open spec fn unchanged_but_failure(a: EventBusMetrics, b: EventBusMetrics) -> bool {
    &&& forall|t: EventType| b.received_count(t) == a.received_count(t)
    &&& forall|t: EventType| b.timeout_count(t) == a.timeout_count(t)
    &&& forall|t: EventType| b.processed_count_of(t) == a.processed_count_of(t)
    &&& forall|t: EventType| b.processed_total_ms_of(t) == a.processed_total_ms_of(t)
    &&& forall|n: Seq<char>| b.success_count(n) == a.success_count(n)
}

/// One zeroed slot per event type.
fn zero_slots() -> (r: Vec<u64>)
    ensures
        r@.len() == EVENT_TYPE_COUNT,
        forall|k: int| 0 <= k < EVENT_TYPE_COUNT ==> r@[k] == 0,
{
    let mut v: Vec<u64> = Vec::new();
    let mut b: usize = 0;
    while b < EVENT_TYPE_COUNT
        invariant
            b <= EVENT_TYPE_COUNT,
            v@.len() == b,
            forall|k: int| 0 <= k < b ==> v@[k] == 0,
        decreases EVENT_TYPE_COUNT - b,
    {
        v.push(0);
        b += 1;
    }
    v
}

} // verus!
