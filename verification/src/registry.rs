//! The subscription registry: maps handler names to their filters and keeps
//! a secondary index from each coarse event type to the names interested in
//! it, so dispatch can look up candidates without scanning every handler.
//!
//! Model: the name-to-filter association is a `Map<Seq<char>, EventFilter>`
//! with last-write-wins on re-registration, and each index bucket is a
//! `Set<Seq<char>>` of names. Names are unique in the primary store and in
//! every bucket, every indexed name is registered, and every registered name
//! is indexed under every event type its filter implies.

use vstd::prelude::*;
use vstd::seq_lib::*;

use crate::events::{Event, EventEnvelope, EventFilter, EventType};
use crate::filter::{matches_filter, spec_matches_filter, type_dimension_ok};

verus! {

broadcast use vstd::set::group_set_axioms, vstd::map::group_map_axioms;

/// The number of `EventType` variants, and of buckets in the index.
pub const EVENT_TYPE_COUNT: usize = 6;

/// The index bucket an event type is filed under.
pub open spec fn spec_type_slot(t: EventType) -> int {
    match t {
        EventType::Push => 0,
        EventType::PullRequest => 1,
        EventType::Tag => 2,
        EventType::Repository => 3,
        EventType::Review => 4,
        EventType::CiRun => 5,
    }
}

/// The event type filed under an index bucket; inverse of `spec_type_slot`
/// on buckets below `EVENT_TYPE_COUNT`.
pub open spec fn spec_slot_type(b: int) -> EventType {
    if b == 0 {
        EventType::Push
    } else if b == 1 {
        EventType::PullRequest
    } else if b == 2 {
        EventType::Tag
    } else if b == 3 {
        EventType::Repository
    } else if b == 4 {
        EventType::Review
    } else {
        EventType::CiRun
    }
}

/// Maps an event type to its index bucket.
pub fn type_slot(t: EventType) -> (r: usize)
    ensures
        r == spec_type_slot(t),
{
    match t {
        EventType::Push => 0,
        EventType::PullRequest => 1,
        EventType::Tag => 2,
        EventType::Repository => 3,
        EventType::Review => 4,
        EventType::CiRun => 5,
    }
}

/// Maps an index bucket to its event type.
fn slot_type(b: usize) -> (r: EventType)
    requires
        b < EVENT_TYPE_COUNT,
    ensures
        r == spec_slot_type(b as int),
        spec_type_slot(r) == b,
{
    if b == 0 {
        EventType::Push
    } else if b == 1 {
        EventType::PullRequest
    } else if b == 2 {
        EventType::Tag
    } else if b == 3 {
        EventType::Repository
    } else if b == 4 {
        EventType::Review
    } else {
        EventType::CiRun
    }
}

/// One registered handler: its unique name and the filter it was registered
/// with. The filter is captured once at subscription time.
pub struct HandlerEntry {
    pub name: String,
    pub filter: EventFilter,
}

/// Whether a filter subscribes its handler to events of type `t`: an empty
/// type set means every type.
pub open spec fn filter_implies_type(f: EventFilter, t: EventType) -> bool {
    f.event_types@.len() == 0 || f.event_types@.contains(t)
}

/// Whether some entry in `s` carries the name `n`.
pub open spec fn has_name(s: Seq<HandlerEntry>, n: Seq<char>) -> bool {
    exists|i: int| 0 <= i < s.len() && #[trigger] s[i].name@ == n
}

/// Whether the entries of `s` carry pairwise distinct names.
pub open spec fn names_unique(s: Seq<HandlerEntry>) -> bool {
    forall|i: int, j: int| 0 <= i < j < s.len() ==> s[i].name@ != s[j].name@
}

/// Whether the strings of `s` are pairwise distinct.
pub open spec fn strings_unique(s: Seq<String>) -> bool {
    forall|i: int, j: int| 0 <= i < j < s.len() ==> s[i]@ != s[j]@
}

/// Whether some string in `s` reads `n`.
pub open spec fn has_string(s: Seq<String>, n: Seq<char>) -> bool {
    exists|i: int| 0 <= i < s.len() && #[trigger] s[i]@ == n
}

/// The set of names the strings of `s` spell.
pub open spec fn names_set(s: Seq<String>) -> Set<Seq<char>> {
    Set::new(|n: Seq<char>| has_string(s, n))
}

/// The name-to-filter association the entry sequence denotes, later entries
/// winning on duplicate names.
pub open spec fn entries_map(s: Seq<HandlerEntry>) -> Map<Seq<char>, EventFilter>
    decreases s.len(),
{
    if s.len() == 0 {
        Map::empty()
    } else {
        entries_map(s.drop_last()).insert(s.last().name@, s.last().filter)
    }
}

proof fn lemma_entries_map_dom(s: Seq<HandlerEntry>, n: Seq<char>)
    ensures
        entries_map(s).dom().contains(n) <==> has_name(s, n),
    decreases s.len(),
{
    if s.len() > 0 {
        lemma_entries_map_dom(s.drop_last(), n);
        if s.last().name@ == n {
            assert(s[s.len() - 1].name@ == n);
        } else {
            if has_name(s, n) {
                let i = choose|i: int| 0 <= i < s.len() && #[trigger] s[i].name@ == n;
                assert(s.drop_last()[i].name@ == n);
            }
            if has_name(s.drop_last(), n) {
                let i = choose|i: int|
                    0 <= i < s.drop_last().len() && #[trigger] s.drop_last()[i].name@ == n;
                assert(s[i].name@ == n);
            }
        }
    }
}

proof fn lemma_entries_map_value(s: Seq<HandlerEntry>, i: int)
    requires
        names_unique(s),
        0 <= i < s.len(),
    ensures
        entries_map(s).dom().contains(s[i].name@),
        entries_map(s)[s[i].name@] == s[i].filter,
    decreases s.len(),
{
    if i == s.len() - 1 {
        lemma_entries_map_dom(s, s[i].name@);
    } else {
        assert(names_unique(s.drop_last())) by {
            assert(forall|p: int, q: int|
                0 <= p < q < s.drop_last().len() ==> s.drop_last()[p].name@ == s[p].name@
                    && s.drop_last()[q].name@ == s[q].name@);
        }
        lemma_entries_map_value(s.drop_last(), i);
        assert(s.drop_last()[i].name@ == s[i].name@);
        assert(s[i].name@ != s.last().name@);
    }
}

proof fn lemma_entries_map_remove_at(s: Seq<HandlerEntry>, i: int)
    requires
        names_unique(s),
        0 <= i < s.len(),
    ensures
        entries_map(s.remove(i)) =~= entries_map(s).remove(s[i].name@),
    decreases s.len(),
{
    let n = s[i].name@;
    if i == s.len() - 1 {
        assert(s.remove(i) =~= s.drop_last());
        lemma_entries_map_dom(s.drop_last(), n);
        assert(!has_name(s.drop_last(), n)) by {
            if has_name(s.drop_last(), n) {
                let j = choose|j: int|
                    0 <= j < s.drop_last().len() && #[trigger] s.drop_last()[j].name@ == n;
                assert(s[j].name@ == s[i].name@);
            }
        }
        assert(entries_map(s.remove(i)) =~= entries_map(s).remove(n));
    } else {
        let sd = s.drop_last();
        assert(names_unique(sd)) by {
            assert(forall|p: int, q: int|
                0 <= p < q < sd.len() ==> sd[p].name@ == s[p].name@ && sd[q].name@ == s[q].name@);
        }
        assert(sd[i].name@ == n);
        lemma_entries_map_remove_at(sd, i);
        assert(s.remove(i).drop_last() =~= sd.remove(i));
        assert(s.remove(i).last() == s.last());
        assert(s.last().name@ != n);
        assert(entries_map(s.remove(i)) =~= entries_map(sd.remove(i)).insert(
            s.last().name@,
            s.last().filter,
        ));
        assert(entries_map(sd).remove(n).insert(s.last().name@, s.last().filter)
            =~= entries_map(sd).insert(s.last().name@, s.last().filter).remove(n));
    }
}

proof fn lemma_entries_map_len(s: Seq<HandlerEntry>)
    requires
        names_unique(s),
    ensures
        entries_map(s).dom().finite(),
        entries_map(s).dom().len() == s.len(),
    decreases s.len(),
{
    if s.len() > 0 {
        let sd = s.drop_last();
        assert(names_unique(sd)) by {
            assert(forall|p: int, q: int|
                0 <= p < q < sd.len() ==> sd[p].name@ == s[p].name@ && sd[q].name@ == s[q].name@);
        }
        lemma_entries_map_len(sd);
        lemma_entries_map_dom(sd, s.last().name@);
        assert(!has_name(sd, s.last().name@)) by {
            if has_name(sd, s.last().name@) {
                let j = choose|j: int|
                    0 <= j < sd.len() && #[trigger] sd[j].name@ == s.last().name@;
                assert(s[j].name@ == s[s.len() - 1].name@);
            }
        }
    }
}

proof fn lemma_has_name_remove_at(s: Seq<HandlerEntry>, i: int)
    requires
        names_unique(s),
        0 <= i < s.len(),
    ensures
        forall|n: Seq<char>| has_name(s.remove(i), n) <==> (has_name(s, n) && n != s[i].name@),
{
    assert forall|n: Seq<char>|
        has_name(s.remove(i), n) <==> (has_name(s, n) && n != s[i].name@) by {
        if has_name(s.remove(i), n) {
            let j = choose|j: int| 0 <= j < s.remove(i).len() && #[trigger] s.remove(i)[j].name@ == n;
            if j < i {
                assert(s[j].name@ == n);
            } else {
                assert(s[j + 1].name@ == n);
            }
        }
        if has_name(s, n) && n != s[i].name@ {
            let j = choose|j: int| 0 <= j < s.len() && #[trigger] s[j].name@ == n;
            if j < i {
                assert(s.remove(i)[j].name@ == n);
            } else {
                assert(s.remove(i)[j - 1].name@ == n);
            }
        }
    }
}

proof fn lemma_names_unique_remove_at(s: Seq<HandlerEntry>, i: int)
    requires
        names_unique(s),
        0 <= i < s.len(),
    ensures
        names_unique(s.remove(i)),
{
    assert forall|p: int, q: int|
        0 <= p < q < s.remove(i).len() implies s.remove(i)[p].name@ != s.remove(i)[q].name@ by {
        if q < i {
            assert(s[p].name@ != s[q].name@);
        } else if p < i {
            assert(s[p].name@ != s[q + 1].name@);
        } else {
            assert(s[p + 1].name@ != s[q + 1].name@);
        }
    }
}

/// Removes at most one occurrence of `name` from a duplicate-free bucket.
fn remove_string(bucket: &mut Vec<String>, name: &str)
    requires
        strings_unique(old(bucket)@),
    ensures
        strings_unique(final(bucket)@),
        names_set(final(bucket)@) == names_set(old(bucket)@).remove(name@),
        forall|j: int|
            0 <= j < final(bucket)@.len() ==> has_string(old(bucket)@, #[trigger] final(bucket)@[j]@)
                && final(bucket)@[j]@ != name@,
{
    let ghost orig = bucket@;
    let mut i: usize = 0;
    while i < bucket.len()
        invariant
            orig == old(bucket)@,
            bucket@ == orig,
            strings_unique(orig),
            i <= orig.len(),
            forall|k: int| 0 <= k < i ==> orig[k]@ != name@,
        decreases orig.len() - i,
    {
        if crate::glob::str_eq(bucket[i].as_str(), name) {
            bucket.remove(i);
            proof {
                assert forall|n: Seq<char>|
                    names_set(bucket@).contains(n) == names_set(orig).remove(name@).contains(
                    n,
                ) by {
                    if has_string(bucket@, n) {
                        let j = choose|j: int|
                            0 <= j < bucket@.len() && #[trigger] bucket@[j]@ == n;
                        if j < i {
                            assert(orig[j]@ == n);
                            assert(orig[j]@ != name@);
                        } else {
                            assert(orig[j + 1]@ == n);
                            assert(orig[i as int]@ != orig[j + 1]@);
                        }
                        assert(has_string(orig, n) && n != name@);
                    }
                    if has_string(orig, n) && n != name@ {
                        let j = choose|j: int| 0 <= j < orig.len() && #[trigger] orig[j]@ == n;
                        if j < i {
                            assert(bucket@[j]@ == n);
                        } else {
                            assert(bucket@[j - 1]@ == n);
                        }
                        assert(has_string(bucket@, n));
                    }
                }
                assert(names_set(bucket@) =~= names_set(orig).remove(name@));
                assert forall|j: int|
                    0 <= j < bucket@.len() implies has_string(orig, #[trigger] bucket@[j]@)
                    && bucket@[j]@ != name@ by {
                    if j < i {
                        assert(orig[j]@ == bucket@[j]@);
                    } else {
                        assert(orig[j + 1]@ == bucket@[j]@);
                        assert(orig[i as int]@ != orig[j + 1]@);
                    }
                }
                assert forall|p: int, q: int|
                    0 <= p < q < bucket@.len() implies bucket@[p]@ != bucket@[q]@ by {
                    if q < i {
                        assert(orig[p]@ != orig[q]@);
                    } else if p < i {
                        assert(orig[p]@ != orig[q + 1]@);
                    } else {
                        assert(orig[p + 1]@ != orig[q + 1]@);
                    }
                }
            }
            return ;
        }
        i += 1;
    }
    proof {
        assert(!has_string(orig, name@));
        assert forall|n: Seq<char>|
            names_set(bucket@).contains(n) == names_set(orig).remove(name@).contains(n) by {
            if has_string(orig, n) && n == name@ {
                assert(false);
            }
        }
        assert(names_set(bucket@) =~= names_set(orig).remove(name@));
        assert forall|j: int|
            0 <= j < bucket@.len() implies has_string(orig, #[trigger] bucket@[j]@) && bucket@[j]@
            != name@ by {
            assert(orig[j]@ == bucket@[j]@);
        }
    }
}

/// Adds `name` to a duplicate-free bucket unless it is already present.
fn add_string(bucket: &mut Vec<String>, name: &String)
    requires
        strings_unique(old(bucket)@),
    ensures
        strings_unique(final(bucket)@),
        names_set(final(bucket)@) == names_set(old(bucket)@).insert(name@),
        forall|j: int|
            0 <= j < final(bucket)@.len() ==> has_string(old(bucket)@, #[trigger] final(bucket)@[j]@)
                || final(bucket)@[j]@ == name@,
{
    let ghost orig = bucket@;
    let mut i: usize = 0;
    while i < bucket.len()
        invariant
            orig == old(bucket)@,
            bucket@ == orig,
            strings_unique(orig),
            i <= orig.len(),
            forall|k: int| 0 <= k < i ==> orig[k]@ != name@,
        decreases orig.len() - i,
    {
        if crate::glob::str_eq(bucket[i].as_str(), name.as_str()) {
            proof {
                assert(has_string(orig, name@));
                assert forall|n: Seq<char>|
                    names_set(bucket@).contains(n) == names_set(orig).insert(name@).contains(
                    n,
                ) by {
                }
                assert(names_set(bucket@) =~= names_set(orig).insert(name@));
                assert forall|j: int|
                    0 <= j < bucket@.len() implies has_string(orig, #[trigger] bucket@[j]@)
                    || bucket@[j]@ == name@ by {
                    assert(orig[j]@ == bucket@[j]@);
                }
            }
            return ;
        }
        i += 1;
    }
    bucket.push(name.clone());
    proof {
        assert forall|n: Seq<char>|
            names_set(bucket@).contains(n) == names_set(orig).insert(name@).contains(n) by {
            if has_string(bucket@, n) {
                let j = choose|j: int| 0 <= j < bucket@.len() && #[trigger] bucket@[j]@ == n;
                if j < orig.len() {
                    assert(orig[j]@ == n);
                    assert(has_string(orig, n));
                } else {
                    assert(n == name@);
                }
            }
            if has_string(orig, n) {
                let j = choose|j: int| 0 <= j < orig.len() && #[trigger] orig[j]@ == n;
                assert(bucket@[j]@ == n);
                assert(has_string(bucket@, n));
            }
            if n == name@ {
                assert(bucket@[bucket@.len() - 1]@ == n);
                assert(has_string(bucket@, n));
            }
        }
        assert(names_set(bucket@) =~= names_set(orig).insert(name@));
        assert forall|j: int|
            0 <= j < bucket@.len() implies has_string(orig, #[trigger] bucket@[j]@) || bucket@[j]@
            == name@ by {
            if j < orig.len() {
                assert(orig[j]@ == bucket@[j]@);
            }
        }
        assert forall|p: int, q: int|
            0 <= p < q < bucket@.len() implies bucket@[p]@ != bucket@[q]@ by {
            if q < orig.len() {
                assert(orig[p]@ != orig[q]@);
            } else {
                assert(orig[p]@ != name@);
            }
        }
    }
}

/// Whether a filter subscribes its handler to events of type `t`.
fn filter_implies(f: &EventFilter, t: EventType) -> (r: bool)
    ensures
        r == filter_implies_type(*f, t),
{
    if f.event_types.len() == 0 {
        return true;
    }
    let mut i: usize = 0;
    while i < f.event_types.len()
        invariant
            i <= f.event_types@.len(),
            forall|k: int| 0 <= k < i ==> f.event_types@[k] != t,
        decreases f.event_types@.len() - i,
    {
        if f.event_types[i] == t {
            return true;
        }
        i += 1;
    }
    false
}

/// The concurrent-safe store of handler registrations and the type index.
pub struct SubscriptionRegistry {
    entries: Vec<HandlerEntry>,
    index: Vec<Vec<String>>,
}

impl SubscriptionRegistry {
    /// The name-to-filter association this registry holds.
    pub closed spec fn handler_map(self) -> Map<Seq<char>, EventFilter> {
        entries_map(self.entries@)
    }

    /// The names indexed under event type `t`.
    pub closed spec fn index_set(self, t: EventType) -> Set<Seq<char>> {
        names_set(self.index@[spec_type_slot(t)]@)
    }

    /// Internal consistency: names are unique, every bucket is duplicate
    /// free, every indexed name is registered, and every registered name is
    /// indexed under every event type its filter implies.
    pub closed spec fn wf(self) -> bool {
        &&& self.index@.len() == EVENT_TYPE_COUNT
        &&& names_unique(self.entries@)
        &&& forall|b: int| 0 <= b < EVENT_TYPE_COUNT ==> strings_unique(#[trigger] self.index@[b]@)
        &&& forall|b: int, j: int|
            0 <= b < EVENT_TYPE_COUNT && 0 <= j < self.index@[b]@.len() ==> has_name(
                self.entries@,
                #[trigger] self.index@[b]@[j]@,
            )
        &&& forall|i: int, t: EventType|
            #![trigger self.entries@[i].name@, spec_type_slot(t)]
            0 <= i < self.entries@.len() && filter_implies_type(self.entries@[i].filter, t)
                ==> has_string(self.index@[spec_type_slot(t)]@, self.entries@[i].name@)
    }

    /// Creates an empty registry.
    pub fn new() -> (r: Self)
        ensures
            r.wf(),
            r.handler_map() == Map::<Seq<char>, EventFilter>::empty(),
            forall|t: EventType| r.index_set(t) == Set::<Seq<char>>::empty(),
    {
        let mut index: Vec<Vec<String>> = Vec::new();
        let mut b: usize = 0;
        while b < EVENT_TYPE_COUNT
            invariant
                b <= EVENT_TYPE_COUNT,
                index@.len() == b,
                forall|k: int| 0 <= k < b ==> #[trigger] index@[k]@.len() == 0,
            decreases EVENT_TYPE_COUNT - b,
        {
            index.push(Vec::new());
            b += 1;
        }
        let r = SubscriptionRegistry { entries: Vec::new(), index };
        proof {
            assert(r.handler_map() =~= Map::<Seq<char>, EventFilter>::empty());
            assert forall|t: EventType| r.index_set(t) =~= Set::<Seq<char>>::empty() by {
                assert(forall|n: Seq<char>| !has_string(r.index@[spec_type_slot(t)]@, n));
            }
        }
        r
    }

    /// Finds the entry registered under `name`, if any.
    fn find_entry(&self, name: &str) -> (r: Option<usize>)
        ensures
            match r {
                Option::Some(i) => i < self.entries@.len() && self.entries@[i as int].name@
                    == name@,
                Option::None => !has_name(self.entries@, name@),
            },
    {
        let mut i: usize = 0;
        while i < self.entries.len()
            invariant
                i <= self.entries@.len(),
                forall|k: int| 0 <= k < i ==> self.entries@[k].name@ != name@,
            decreases self.entries@.len() - i,
        {
            if crate::glob::str_eq(self.entries[i].name.as_str(), name) {
                return Option::Some(i);
            }
            i += 1;
        }
        Option::None
    }

    /// Registers `name` with `filter`, overwriting any previous registration
    /// under the same name (last write wins, no uniqueness error), and
    /// indexes the name under every event type the filter implies: all six
    /// when the filter's type set is empty. Always succeeds.
    pub fn subscribe(&mut self, name: String, filter: EventFilter)
        requires
            old(self).wf(),
        ensures
            final(self).wf(),
            final(self).handler_map() == old(self).handler_map().insert(name@, filter),
            forall|t: EventType|
                final(self).index_set(t) == (if filter_implies_type(filter, t) {
                    old(self).index_set(t).insert(name@)
                } else {
                    old(self).index_set(t)
                }),
    {
        let ghost orig = *self;
        // Drop any existing registration under this name.
        let found = self.find_entry(name.as_str());
        match found {
            Option::Some(i) => {
                proof {
                    lemma_entries_map_remove_at(self.entries@, i as int);
                    lemma_has_name_remove_at(self.entries@, i as int);
                    lemma_names_unique_remove_at(self.entries@, i as int);
                }
                self.entries.remove(i);
            },
            Option::None => {
                proof {
                    lemma_entries_map_dom(self.entries@, name@);
                    assert(entries_map(self.entries@).remove(name@) =~= entries_map(
                        self.entries@,
                    ));
                }
            },
        }
        let ghost mid = *self;
        proof {
            assert(names_unique(mid.entries@));
            assert(!has_name(mid.entries@, name@));
            assert(entries_map(mid.entries@) =~= entries_map(orig.entries@).remove(name@));
            assert(mid.index@ == orig.index@);
        }
        // Index the name under every implied event type.
        let mut b: usize = 0;
        while b < EVENT_TYPE_COUNT
            invariant
                self.entries@ == mid.entries@,
                self.index@.len() == EVENT_TYPE_COUNT,
                orig.wf(),
                mid.index@ == orig.index@,
                b <= EVENT_TYPE_COUNT,
                forall|k: int|
                    0 <= k < b ==> names_set(#[trigger] self.index@[k]@) == (
                    if filter_implies_type(filter, spec_slot_type(k)) {
                        names_set(orig.index@[k]@).insert(name@)
                    } else {
                        names_set(orig.index@[k]@)
                    }),
                forall|k: int| b <= k < EVENT_TYPE_COUNT ==> self.index@[k] == orig.index@[k],
                forall|k: int|
                    0 <= k < EVENT_TYPE_COUNT ==> strings_unique(#[trigger] self.index@[k]@),
                forall|k: int, j: int|
                    0 <= k < EVENT_TYPE_COUNT && 0 <= j < self.index@[k]@.len() ==> has_string(
                        orig.index@[k]@,
                        #[trigger] self.index@[k]@[j]@,
                    ) || self.index@[k]@[j]@ == name@,
            decreases EVENT_TYPE_COUNT - b,
        {
            let t = slot_type(b);
            if filter_implies(&filter, t) {
                add_string(&mut self.index[b], &name);
            } else {
                proof {
                    assert(self.index@[b as int] == orig.index@[b as int]);
                }
            }
            b += 1;
        }
        // Record the registration itself.
        let ghost pre_push = self.entries@;
        self.entries.push(HandlerEntry { name, filter });
        proof {
            assert(self.entries@.drop_last() =~= pre_push);
            assert(self.entries@.last().name@ == name@);
            assert(self.entries@.last().filter == filter);
            assert(entries_map(self.entries@) =~= entries_map(pre_push).insert(name@, filter));
            assert(final(self).handler_map() =~= old(self).handler_map().insert(name@, filter));
            // Unique names: the pushed name was absent.
            assert forall|p: int, q: int|
                0 <= p < q < self.entries@.len() implies self.entries@[p].name@
                != self.entries@[q].name@ by {
                if q == self.entries@.len() - 1 {
                    assert(mid.entries@[p].name@ == self.entries@[p].name@);
                }
            }
            // Every indexed name is registered.
            assert forall|k: int, j: int|
                0 <= k < EVENT_TYPE_COUNT && 0 <= j < self.index@[k]@.len() implies has_name(
                self.entries@,
                #[trigger] self.index@[k]@[j]@,
            ) by {
                let e = self.index@[k]@[j]@;
                if e == name@ {
                    assert(self.entries@[self.entries@.len() - 1].name@ == e);
                } else {
                    assert(has_string(orig.index@[k]@, e));
                    let w = choose|w: int|
                        0 <= w < orig.index@[k]@.len() && #[trigger] orig.index@[k]@[w]@ == e;
                    assert(has_name(orig.entries@, e));
                    assert(has_name(mid.entries@, e)) by {
                        if found is Some {
                            lemma_has_name_remove_at(orig.entries@, found->0 as int);
                        }
                    }
                    let v = choose|v: int|
                        0 <= v < mid.entries@.len() && #[trigger] mid.entries@[v].name@ == e;
                    assert(self.entries@[v].name@ == e);
                }
            }
            // Every registered name is indexed under every implied type.
            assert forall|i: int, t: EventType|
                #![trigger self.entries@[i].name@, spec_type_slot(t)]
                0 <= i < self.entries@.len() && filter_implies_type(self.entries@[i].filter, t)
                    implies has_string(
                self.index@[spec_type_slot(t)]@,
                self.entries@[i].name@,
            ) by {
                let bslot = spec_type_slot(t);
                assert(spec_slot_type(bslot) == t);
                assert(names_set(self.index@[bslot]@) == (if filter_implies_type(filter, t) {
                    names_set(orig.index@[bslot]@).insert(name@)
                } else {
                    names_set(orig.index@[bslot]@)
                }));
                if i == self.entries@.len() - 1 {
                    assert(names_set(self.index@[bslot]@).contains(name@));
                } else {
                    let en = self.entries@[i].name@;
                    assert(mid.entries@[i] == self.entries@[i]);
                    if found is Some {
                        let fi = found->0 as int;
                        if i < fi {
                            assert(orig.entries@[i] == mid.entries@[i]);
                        } else {
                            assert(orig.entries@[i + 1] == mid.entries@[i]);
                        }
                    } else {
                        assert(orig.entries@[i] == mid.entries@[i]);
                    }
                    assert(has_string(orig.index@[bslot]@, en));
                    assert(names_set(orig.index@[bslot]@).contains(en));
                    assert(names_set(self.index@[bslot]@).contains(en));
                    assert(has_string(self.index@[bslot]@, en));
                }
            }
            // The per-type index sets.
            assert forall|t: EventType|
                final(self).index_set(t) == (if filter_implies_type(filter, t) {
                    old(self).index_set(t).insert(name@)
                } else {
                    old(self).index_set(t)
                }) by {
                let bslot = spec_type_slot(t);
                assert(spec_slot_type(bslot) == t);
            }
        }
    }

    /// Removes the registration under `name`, if any, and purges the name
    /// from every event type's index bucket. Unsubscribing an unknown name
    /// is a no-op, not an error.
    pub fn unsubscribe(&mut self, name: &str)
        requires
            old(self).wf(),
        ensures
            final(self).wf(),
            final(self).handler_map() == old(self).handler_map().remove(name@),
            forall|t: EventType| final(self).index_set(t) == old(self).index_set(t).remove(name@),
    {
        let ghost orig = *self;
        let found = self.find_entry(name);
        match found {
            Option::Some(i) => {
                proof {
                    lemma_entries_map_remove_at(self.entries@, i as int);
                    lemma_has_name_remove_at(self.entries@, i as int);
                    lemma_names_unique_remove_at(self.entries@, i as int);
                }
                self.entries.remove(i);
            },
            Option::None => {
                proof {
                    lemma_entries_map_dom(self.entries@, name@);
                    assert(entries_map(self.entries@).remove(name@) =~= entries_map(
                        self.entries@,
                    ));
                }
            },
        }
        let ghost mid = *self;
        proof {
            assert(names_unique(mid.entries@));
            assert(!has_name(mid.entries@, name@));
            assert(entries_map(mid.entries@) =~= entries_map(orig.entries@).remove(name@));
        }
        let mut b: usize = 0;
        while b < EVENT_TYPE_COUNT
            invariant
                self.entries@ == mid.entries@,
                self.index@.len() == EVENT_TYPE_COUNT,
                orig.wf(),
                mid.index@ == orig.index@,
                b <= EVENT_TYPE_COUNT,
                forall|k: int|
                    0 <= k < b ==> names_set(#[trigger] self.index@[k]@) == names_set(
                        orig.index@[k]@,
                    ).remove(name@),
                forall|k: int| b <= k < EVENT_TYPE_COUNT ==> self.index@[k] == orig.index@[k],
                forall|k: int|
                    0 <= k < EVENT_TYPE_COUNT ==> strings_unique(#[trigger] self.index@[k]@),
                forall|k: int, j: int|
                    0 <= k < b && 0 <= j < self.index@[k]@.len() ==> has_string(
                        orig.index@[k]@,
                        #[trigger] self.index@[k]@[j]@,
                    ) && self.index@[k]@[j]@ != name@,
            decreases EVENT_TYPE_COUNT - b,
        {
            remove_string(&mut self.index[b], name);
            b += 1;
        }
        proof {
            // Every indexed name is still registered.
            assert forall|k: int, j: int|
                0 <= k < EVENT_TYPE_COUNT && 0 <= j < self.index@[k]@.len() implies has_name(
                self.entries@,
                #[trigger] self.index@[k]@[j]@,
            ) by {
                let e = self.index@[k]@[j]@;
                assert(has_string(orig.index@[k]@, e));
                assert(has_name(orig.entries@, e));
                if found is Some {
                    lemma_has_name_remove_at(orig.entries@, found->0 as int);
                }
            }
            // Every registered name is still indexed under implied types.
            assert forall|i: int, t: EventType|
                #![trigger self.entries@[i].name@, spec_type_slot(t)]
                0 <= i < self.entries@.len() && filter_implies_type(self.entries@[i].filter, t)
                    implies has_string(
                self.index@[spec_type_slot(t)]@,
                self.entries@[i].name@,
            ) by {
                let bslot = spec_type_slot(t);
                let en = self.entries@[i].name@;
                if found is Some {
                    let fi = found->0 as int;
                    if i < fi {
                        assert(orig.entries@[i] == mid.entries@[i]);
                    } else {
                        assert(orig.entries@[i + 1] == mid.entries@[i]);
                    }
                } else {
                    assert(orig.entries@[i] == mid.entries@[i]);
                }
                assert(has_string(orig.index@[bslot]@, en));
                assert(en != name@);
                assert(names_set(orig.index@[bslot]@).contains(en));
                assert(names_set(self.index@[bslot]@).contains(en));
                assert(has_string(self.index@[bslot]@, en));
            }
            assert forall|t: EventType|
                final(self).index_set(t) == old(self).index_set(t).remove(name@) by {
                let bslot = spec_type_slot(t);
                assert(names_set(self.index@[bslot]@) == names_set(orig.index@[bslot]@).remove(
                    name@,
                ));
            }
        }
    }

    /// The number of registered handlers: entries in the primary store, not
    /// the sum across index buckets.
    pub fn subscriber_count(&self) -> (r: usize)
        requires
            self.wf(),
        ensures
            r == self.handler_map().dom().len(),
    {
        proof {
            lemma_entries_map_len(self.entries@);
        }
        self.entries.len()
    }

    /// The filter registered under `name`, if any.
    fn get_filter(&self, name: &str) -> (r: Option<&EventFilter>)
        requires
            self.wf(),
        ensures
            match r {
                Option::Some(f) => self.handler_map().dom().contains(name@) && *f
                    == self.handler_map()[name@],
                Option::None => !self.handler_map().dom().contains(name@),
            },
    {
        let found = self.find_entry(name);
        match found {
            Option::Some(i) => {
                proof {
                    lemma_entries_map_value(self.entries@, i as int);
                }
                Option::Some(&self.entries[i].filter)
            },
            Option::None => {
                proof {
                    lemma_entries_map_dom(self.entries@, name@);
                }
                Option::None
            },
        }
    }

    /// The names of the registered handlers whose filter accepts `e`.
    pub open spec fn matching_set(self, e: Event) -> Set<Seq<char>> {
        self.handler_map().dom().filter(
            |n: Seq<char>| spec_matches_filter(self.handler_map()[n], e),
        )
    }

    /// The handlers an envelope must be delivered to: exactly the registered
    /// names whose filter matches at dispatch time, each exactly once.
    pub fn matching_handlers(&self, envelope: &EventEnvelope) -> (r: Vec<String>)
        requires
            self.wf(),
        ensures
            forall|p: int, q: int| 0 <= p < q < r@.len() ==> r@[p]@ != r@[q]@,
            forall|p: int|
                0 <= p < r@.len() ==> self.matching_set(envelope.event).contains(
                    #[trigger] r@[p]@,
                ),
            forall|n: Seq<char>|
                #[trigger] self.matching_set(envelope.event).contains(n) ==> has_string(r@, n),
    {
        let t = crate::events::event_type(&envelope.event);
        let b = type_slot(t);
        let ghost bucket = self.index@[b as int]@;
        let blen = self.index[b].len();
        let mut r: Vec<String> = Vec::new();
        let mut j: usize = 0;
        while j < blen
            invariant
                self.wf(),
                t == crate::events::spec_event_type(envelope.event),
                b == spec_type_slot(t),
                b < EVENT_TYPE_COUNT,
                bucket == self.index@[b as int]@,
                blen == bucket.len(),
                j <= blen,
                forall|p: int, q: int| 0 <= p < q < r@.len() ==> r@[p]@ != r@[q]@,
                forall|p: int|
                    0 <= p < r@.len() ==> exists|w: int|
                        0 <= w < j && bucket[w]@ == #[trigger] r@[p]@,
                forall|p: int|
                    0 <= p < r@.len() ==> self.matching_set(envelope.event).contains(
                        #[trigger] r@[p]@,
                    ),
                forall|w: int|
                    0 <= w < j && self.matching_set(envelope.event).contains(
                        #[trigger] bucket[w]@,
                    ) ==> has_string(r@, bucket[w]@),
            decreases blen - j,
        {
            let name_ref = &self.index[b][j];
            let ghost prev = r@;
            match self.get_filter(name_ref.as_str()) {
                Option::Some(f) => {
                    if matches_filter(f, envelope) {
                        r.push(name_ref.clone());
                        proof {
                            assert(r@[r@.len() - 1]@ == bucket[j as int]@);
                            assert(strings_unique(bucket));
                            assert forall|p: int|
                                0 <= p < prev.len() implies prev[p]@ != bucket[j as int]@ by {
                                let w = choose|w: int|
                                    0 <= w < j && bucket[w]@ == #[trigger] prev[p]@;
                                assert(bucket[w]@ != bucket[j as int]@);
                            }
                            assert forall|p: int|
                                0 <= p < r@.len() implies exists|w: int|
                                0 <= w < j + 1 && bucket[w]@ == #[trigger] r@[p]@ by {
                                if p < prev.len() {
                                    assert(r@[p] == prev[p]);
                                    let w = choose|w: int|
                                        0 <= w < j && bucket[w]@ == #[trigger] prev[p]@;
                                    assert(bucket[w]@ == r@[p]@);
                                } else {
                                    assert(bucket[j as int]@ == r@[p]@);
                                }
                            }
                        }
                    } else {
                        proof {
                            assert(!self.matching_set(envelope.event).contains(
                                bucket[j as int]@,
                            ));
                        }
                    }
                },
                Option::None => {
                    proof {
                        assert(has_name(self.entries@, bucket[j as int]@));
                        lemma_entries_map_dom(self.entries@, bucket[j as int]@);
                    }
                },
            }
            proof {
                assert forall|w: int|
                    0 <= w < j + 1 && self.matching_set(envelope.event).contains(
                        #[trigger] bucket[w]@,
                    ) implies has_string(r@, bucket[w]@) by {
                    if w < j {
                        assert(has_string(prev, bucket[w]@));
                        let v = choose|v: int|
                            0 <= v < prev.len() && #[trigger] prev[v]@ == bucket[w]@;
                        assert(r@[v]@ == bucket[w]@);
                    } else {
                        assert(r@[r@.len() - 1]@ == bucket[w]@);
                    }
                }
            }
            j += 1;
        }
        proof {
            // Completeness: every matching registered name was in the bucket.
            assert forall|n: Seq<char>|
                #[trigger] self.matching_set(envelope.event).contains(n) implies has_string(
                r@,
                n,
            ) by {
                assert(self.handler_map().dom().contains(n));
                lemma_entries_map_dom(self.entries@, n);
                let i = choose|i: int| 0 <= i < self.entries@.len() && #[trigger] self.entries@[i].name@ == n;
                lemma_entries_map_value(self.entries@, i);
                assert(spec_matches_filter(self.handler_map()[n], envelope.event));
                assert(filter_implies_type(self.entries@[i].filter, t)) by {
                    assert(type_dimension_ok(self.entries@[i].filter, envelope.event));
                }
                assert(has_string(self.index@[spec_type_slot(t)]@, n));
                let w = choose|w: int| 0 <= w < bucket.len() && #[trigger] bucket[w]@ == n;
                assert(self.matching_set(envelope.event).contains(bucket[w]@));
            }
        }
        r
    }

    /// A handler registered under `n` with a filter restricted to exactly the
    /// event type `t`, and no repository or branch predicates, is matched by
    /// an event precisely when the event classifies to `t`.
    pub proof fn lemma_type_restricted_dispatch(self, e: Event, n: Seq<char>, t: EventType)
        requires
            self.handler_map().dom().contains(n),
            self.handler_map()[n].event_types@ =~= seq![t],
            self.handler_map()[n].repositories@.len() == 0,
            self.handler_map()[n].branches@.len() == 0,
        ensures
            self.matching_set(e).contains(n) <==> crate::events::spec_event_type(e) == t,
    {
        crate::filter::lemma_type_restricted_filter(self.handler_map()[n], e, t);
    }

    /// Every indexed name is registered: no index bucket references a name
    /// absent from the primary handler store.
    pub proof fn lemma_index_names_registered(self, t: EventType, n: Seq<char>)
        requires
            self.wf(),
            self.index_set(t).contains(n),
        ensures
            self.handler_map().dom().contains(n),
    {
        let bucket = self.index@[spec_type_slot(t)]@;
        let j = choose|j: int| 0 <= j < bucket.len() && #[trigger] bucket[j]@ == n;
        lemma_entries_map_dom(self.entries@, n);
    }

    /// Every registered name is indexed under every event type its filter
    /// implies: all six types when the filter's type set is empty.
    pub proof fn lemma_implied_type_indexed(self, n: Seq<char>, t: EventType)
        requires
            self.wf(),
            self.handler_map().dom().contains(n),
            filter_implies_type(self.handler_map()[n], t),
        ensures
            self.index_set(t).contains(n),
    {
        lemma_entries_map_dom(self.entries@, n);
        let i = choose|i: int| 0 <= i < self.entries@.len() && #[trigger] self.entries@[i].name@ == n;
        lemma_entries_map_value(self.entries@, i);
        assert(has_string(self.index@[spec_type_slot(t)]@, n));
    }

    /// A name that is not registered is never matched: once unsubscribed, no
    /// later publish selects it for delivery.
    pub proof fn lemma_unregistered_never_matched(self, e: Event, n: Seq<char>)
        requires
            !self.handler_map().dom().contains(n),
        ensures
            !self.matching_set(e).contains(n),
    {
    }

    /// The registry holds finitely many names.
    pub proof fn lemma_handler_map_finite(self)
        requires
            self.wf(),
        ensures
            self.handler_map().dom().finite(),
    {
        lemma_entries_map_len(self.entries@);
    }
}

/// Unsubscribing a name twice has no effect the second time: two registries
/// reached by removing the same name once and twice are indistinguishable,
/// in their handler maps and in every index bucket.
pub proof fn lemma_unsubscribe_idempotent(
    a: SubscriptionRegistry,
    b: SubscriptionRegistry,
    c: SubscriptionRegistry,
    name: Seq<char>,
)
    requires
        b.handler_map() == a.handler_map().remove(name),
        forall|t: EventType| #[trigger] b.index_set(t) == a.index_set(t).remove(name),
        c.handler_map() == b.handler_map().remove(name),
        forall|t: EventType| #[trigger] c.index_set(t) == b.index_set(t).remove(name),
    ensures
        c.handler_map() == b.handler_map(),
        forall|t: EventType| #[trigger] c.index_set(t) == b.index_set(t),
{
    assert(a.handler_map().remove(name).remove(name) =~= a.handler_map().remove(name));
    assert forall|t: EventType| #[trigger] c.index_set(t) == b.index_set(t) by {
        assert(a.index_set(t).remove(name).remove(name) =~= a.index_set(t).remove(name));
    }
}

/// Removing a name shrinks the set of registered names by exactly one when
/// the name was registered, and not at all otherwise.
pub proof fn lemma_unsubscribe_count(a: SubscriptionRegistry, name: Seq<char>)
    requires
        a.wf(),
    ensures
        a.handler_map().remove(name).dom().len() == if a.handler_map().dom().contains(name) {
            a.handler_map().dom().len() - 1
        } else {
            a.handler_map().dom().len() as int
        },
{
    a.lemma_handler_map_finite();
    assert(a.handler_map().remove(name).dom() =~= a.handler_map().dom().remove(name));
}

} // verus!

