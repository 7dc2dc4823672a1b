//! The filter matcher: a pure predicate deciding whether an event envelope
//! satisfies a subscription's event-type, repository and branch criteria.
//!
//! The three dimensions are checked conjunctively; an empty dimension is
//! "don't care". A repository filter skips events that carry no repository,
//! and a branch filter skips events that carry no branch.

use vstd::prelude::*;

use crate::events::{
    spec_event_type, spec_extract_branch, spec_extract_repository, event_type, extract_branch,
    extract_repository, Event, EventEnvelope, EventFilter, EventType,
};
use crate::glob::{glob_match, spec_glob_match};

verus! {

/// Whether the filter's event-type dimension accepts the event.
pub open spec fn type_dimension_ok(f: EventFilter, e: Event) -> bool {
    f.event_types@.len() == 0 || f.event_types@.contains(spec_event_type(e))
}

/// Whether the filter's repository dimension accepts the event. An event
/// without a repository passes any repository filter.
pub open spec fn repository_dimension_ok(f: EventFilter, e: Event) -> bool {
    f.repositories@.len() == 0 || match spec_extract_repository(e) {
        Option::None => true,
        Option::Some(repo) => exists|i: int|
            0 <= i < f.repositories@.len() && #[trigger] f.repositories@[i]@ == repo,
    }
}

/// Whether the filter's branch dimension accepts the event. An event without
/// a branch passes any branch filter; otherwise the branch must satisfy at
/// least one glob pattern.
pub open spec fn branch_dimension_ok(f: EventFilter, e: Event) -> bool {
    f.branches@.len() == 0 || match spec_extract_branch(e) {
        Option::None => true,
        Option::Some(branch) => exists|i: int|
            0 <= i < f.branches@.len() && spec_glob_match(#[trigger] f.branches@[i]@, branch),
    }
}

/// Whether an event satisfies a filter: all three dimensions must accept it.
pub open spec fn spec_matches_filter(f: EventFilter, e: Event) -> bool {
    &&& type_dimension_ok(f, e)
    &&& repository_dimension_ok(f, e)
    &&& branch_dimension_ok(f, e)
}

/// Decides whether an envelope's event satisfies a handler's filter.
pub fn matches_filter(filter: &EventFilter, envelope: &EventEnvelope) -> (r: bool)
    ensures
        r == spec_matches_filter(*filter, envelope.event),
{
    // Event-type dimension.
    if filter.event_types.len() > 0 {
        let t = event_type(&envelope.event);
        let mut found = false;
        let mut i: usize = 0;
        while i < filter.event_types.len()
            invariant
                i <= filter.event_types@.len(),
                t == spec_event_type(envelope.event),
                found == exists|k: int| 0 <= k < i && filter.event_types@[k] == t,
            decreases filter.event_types@.len() - i,
        {
            if filter.event_types[i] == t {
                found = true;
            }
            i += 1;
        }
        if !found {
            return false;
        }
    }
    // Repository dimension.
    if filter.repositories.len() > 0 {
        let repo = extract_repository(&envelope.event);
        match repo {
            Option::Some(repo) => {
                let mut found = false;
                let mut i: usize = 0;
                while i < filter.repositories.len()
                    invariant
                        i <= filter.repositories@.len(),
                        found == exists|k: int|
                            0 <= k < i && #[trigger] filter.repositories@[k]@ == repo@,
                    decreases filter.repositories@.len() - i,
                {
                    if filter.repositories[i] == repo {
                        found = true;
                    }
                    i += 1;
                }
                if !found {
                    return false;
                }
            },
            Option::None => {},
        }
    }
    // Branch dimension.
    if filter.branches.len() > 0 {
        let branch = extract_branch(&envelope.event);
        match branch {
            Option::Some(branch) => {
                let mut found = false;
                let mut i: usize = 0;
                while i < filter.branches.len()
                    invariant
                        i <= filter.branches@.len(),
                        found == exists|k: int|
                            0 <= k < i && spec_glob_match(
                                #[trigger] filter.branches@[k]@,
                                branch@,
                            ),
                    decreases filter.branches@.len() - i,
                {
                    if glob_match(filter.branches[i].as_str(), branch.as_str()) {
                        found = true;
                    }
                    i += 1;
                }
                if !found {
                    return false;
                }
            },
            Option::None => {},
        }
    }
    true
}

/// No-predicate filters always match: a filter whose three dimensions are
/// all empty accepts every envelope's event.
pub proof fn lemma_empty_filter_matches(f: EventFilter, e: Event)
    requires
        f.event_types@.len() == 0,
        f.repositories@.len() == 0,
        f.branches@.len() == 0,
    ensures
        spec_matches_filter(f, e),
{
}

/// A filter restricted to exactly one event type, with no repository or
/// branch predicates, matches an event precisely when the event classifies
/// to that type.
pub proof fn lemma_type_restricted_filter(f: EventFilter, e: Event, t: EventType)
    requires
        f.event_types@ =~= seq![t],
        f.repositories@.len() == 0,
        f.branches@.len() == 0,
    ensures
        spec_matches_filter(f, e) <==> spec_event_type(e) == t,
{
    if spec_event_type(e) == t {
        assert(f.event_types@[0] == t);
    }
}

} // verus!
