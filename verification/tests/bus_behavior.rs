//! End-to-end behavior of the bus core: subscribe, publish, dispatch,
//! failure isolation, and unsubscribe, driven synchronously the way the
//! runtime's consuming loop drives it.

use std::collections::HashMap;
use std::collections::HashSet;

use nimbus_events::bus::InMemoryEventBus;
use nimbus_events::events::{
    event_type, Event, EventEnvelope, EventFilter, EventMetadata, EventPriority, EventType,
};
use nimbus_events::queue::PublishError;

fn metadata() -> EventMetadata {
    EventMetadata { target_plugins: vec![], priority: EventPriority::Normal, persistent: false }
}

fn envelope(id: u128, event: Event) -> EventEnvelope {
    EventEnvelope { id, timestamp: 0, event, metadata: metadata() }
}

fn push_event(repository: &str, branch: &str, pusher: &str) -> Event {
    Event::Push {
        repository: repository.to_string(),
        branch: branch.to_string(),
        commits: vec![],
        pusher: pusher.to_string(),
    }
}

/// Runs the consuming loop to exhaustion: for each queued envelope, asks the
/// bus which handlers match, counts each invocation, and reports an outcome
/// per handler (a failure for handlers listed in `failing`).
fn drain(
    bus: &mut InMemoryEventBus,
    counts: &mut HashMap<String, usize>,
    failing: &HashSet<String>,
) {
    while let Some(env) = bus.take_next() {
        let t = event_type(&env.event);
        let names = bus.begin_dispatch(&env);
        for name in &names {
            *counts.entry(name.clone()).or_insert(0) += 1;
            bus.record_handler_outcome(name, !failing.contains(name));
        }
        bus.dispatch_completed(t, 1);
    }
}

fn no_failures() -> HashSet<String> {
    HashSet::new()
}

#[test]
fn test_basic_publish_subscribe() {
    let mut bus = InMemoryEventBus::new(100);
    bus.subscribe(
        "test_handler".to_string(),
        EventFilter { event_types: vec![EventType::Push], repositories: vec![], branches: vec![] },
    )
    .unwrap();

    bus.publish(envelope(1, push_event("test-repo", "main", "test-user"))).unwrap();

    let mut counts = HashMap::new();
    drain(&mut bus, &mut counts, &no_failures());
    assert_eq!(counts.get("test_handler").copied().unwrap_or(0), 1);
}

#[test]
fn test_multiple_subscribers() {
    let mut bus = InMemoryEventBus::new(100);
    bus.subscribe(
        "handler1".to_string(),
        EventFilter { event_types: vec![EventType::Push], repositories: vec![], branches: vec![] },
    )
    .unwrap();
    bus.subscribe(
        "handler2".to_string(),
        EventFilter { event_types: vec![EventType::Push], repositories: vec![], branches: vec![] },
    )
    .unwrap();

    bus.publish(envelope(1, push_event("test-repo", "main", "test-user"))).unwrap();

    let mut counts = HashMap::new();
    drain(&mut bus, &mut counts, &no_failures());
    assert_eq!(counts.get("handler1").copied().unwrap_or(0), 1);
    assert_eq!(counts.get("handler2").copied().unwrap_or(0), 1);
}

#[test]
fn test_event_filtering() {
    let mut bus = InMemoryEventBus::new(100);
    bus.subscribe(
        "push_handler".to_string(),
        EventFilter { event_types: vec![EventType::Push], repositories: vec![], branches: vec![] },
    )
    .unwrap();
    bus.subscribe(
        "pr_handler".to_string(),
        EventFilter {
            event_types: vec![EventType::PullRequest],
            repositories: vec![],
            branches: vec![],
        },
    )
    .unwrap();

    bus.publish(envelope(1, push_event("test-repo", "main", "test-user"))).unwrap();
    bus.publish(envelope(
        2,
        Event::PullRequestOpened {
            id: 200,
            repository: "test-repo".to_string(),
            from_branch: "feature".to_string(),
            to_branch: "main".to_string(),
            title: "Test PR".to_string(),
            author: "test-user".to_string(),
        },
    ))
    .unwrap();

    let mut counts = HashMap::new();
    drain(&mut bus, &mut counts, &no_failures());
    assert_eq!(counts.get("push_handler").copied().unwrap_or(0), 1);
    assert_eq!(counts.get("pr_handler").copied().unwrap_or(0), 1);
}

#[test]
fn test_repository_filtering() {
    let mut bus = InMemoryEventBus::new(100);
    bus.subscribe(
        "repo_handler".to_string(),
        EventFilter {
            event_types: vec![],
            repositories: vec!["important-repo".to_string()],
            branches: vec![],
        },
    )
    .unwrap();

    bus.publish(envelope(1, push_event("important-repo", "main", "user"))).unwrap();
    bus.publish(envelope(2, push_event("other-repo", "main", "user"))).unwrap();

    let mut counts = HashMap::new();
    drain(&mut bus, &mut counts, &no_failures());
    assert_eq!(counts.get("repo_handler").copied().unwrap_or(0), 1);
}

#[test]
fn test_branch_filtering() {
    let mut bus = InMemoryEventBus::new(100);
    bus.subscribe(
        "branch_handler".to_string(),
        EventFilter { event_types: vec![], repositories: vec![], branches: vec!["main".to_string()] },
    )
    .unwrap();

    bus.publish(envelope(1, push_event("repo", "main", "user"))).unwrap();
    bus.publish(envelope(2, push_event("repo", "feature", "user"))).unwrap();

    let mut counts = HashMap::new();
    drain(&mut bus, &mut counts, &no_failures());
    assert_eq!(counts.get("branch_handler").copied().unwrap_or(0), 1);
}

#[test]
fn test_glob_branch_filtering() {
    let mut bus = InMemoryEventBus::new(100);
    bus.subscribe(
        "glob_handler".to_string(),
        EventFilter {
            event_types: vec![],
            repositories: vec![],
            branches: vec!["feature/*".to_string()],
        },
    )
    .unwrap();

    let mut id: u128 = 100;
    for branch in ["feature/auth", "feature/ui", "feature/api"] {
        bus.publish(envelope(id, push_event("repo", branch, "user"))).unwrap();
        id += 1;
    }
    bus.publish(envelope(200, push_event("repo", "main", "user"))).unwrap();

    let mut counts = HashMap::new();
    drain(&mut bus, &mut counts, &no_failures());
    assert_eq!(counts.get("glob_handler").copied().unwrap_or(0), 3);
}

#[test]
fn test_handler_failure_doesnt_affect_others() {
    let mut bus = InMemoryEventBus::new(100);
    bus.subscribe(
        "good".to_string(),
        EventFilter { event_types: vec![], repositories: vec![], branches: vec![] },
    )
    .unwrap();
    bus.subscribe(
        "bad".to_string(),
        EventFilter { event_types: vec![], repositories: vec![], branches: vec![] },
    )
    .unwrap();

    bus.publish(envelope(1, push_event("repo", "main", "user"))).unwrap();

    let mut counts = HashMap::new();
    let failing: HashSet<String> = ["bad".to_string()].into_iter().collect();
    drain(&mut bus, &mut counts, &failing);

    // The failing handler was invoked but its failure never reached the
    // other handler's invocation or its metrics.
    assert_eq!(counts.get("good").copied().unwrap_or(0), 1);
    assert_eq!(bus.metrics().get_successes("good"), 1);
    assert_eq!(bus.metrics().get_failures("bad"), 1);
    assert_eq!(bus.metrics().get_failures("good"), 0);
    assert_eq!(bus.metrics().get_successes("bad"), 0);
}

#[test]
fn test_unsubscribe() {
    let mut bus = InMemoryEventBus::new(100);
    bus.subscribe(
        "test".to_string(),
        EventFilter { event_types: vec![], repositories: vec![], branches: vec![] },
    )
    .unwrap();

    bus.publish(envelope(1, push_event("repo", "main", "user"))).unwrap();
    let mut counts = HashMap::new();
    drain(&mut bus, &mut counts, &no_failures());
    assert_eq!(counts.get("test").copied().unwrap_or(0), 1);

    bus.unsubscribe("test").unwrap();

    bus.publish(envelope(2, push_event("repo", "main", "user"))).unwrap();
    drain(&mut bus, &mut counts, &no_failures());
    assert_eq!(counts.get("test").copied().unwrap_or(0), 1);
}

#[test]
fn unsubscribe_is_idempotent() {
    let mut bus = InMemoryEventBus::new(4);
    bus.subscribe(
        "solo".to_string(),
        EventFilter { event_types: vec![], repositories: vec![], branches: vec![] },
    )
    .unwrap();
    assert_eq!(bus.subscriber_count(), 1);

    bus.unsubscribe("solo").unwrap();
    assert_eq!(bus.subscriber_count(), 0);
    // The second removal is safe and changes nothing.
    bus.unsubscribe("solo").unwrap();
    assert_eq!(bus.subscriber_count(), 0);

    // A never-registered name is a no-op too.
    bus.unsubscribe("phantom").unwrap();
    assert_eq!(bus.subscriber_count(), 0);
}

#[test]
fn unsubscribe_decrements_count_known_name_only() {
    let mut bus = InMemoryEventBus::new(4);
    let all = EventFilter { event_types: vec![], repositories: vec![], branches: vec![] };
    bus.subscribe("a".to_string(), all.clone()).unwrap();
    bus.subscribe("b".to_string(), all).unwrap();
    assert_eq!(bus.subscriber_count(), 2);

    bus.unsubscribe("missing").unwrap();
    assert_eq!(bus.subscriber_count(), 2);

    bus.unsubscribe("a").unwrap();
    assert_eq!(bus.subscriber_count(), 1);
}

#[test]
fn resubscribe_overwrites_name() {
    let mut bus = InMemoryEventBus::new(4);
    bus.subscribe(
        "dup".to_string(),
        EventFilter { event_types: vec![EventType::Push], repositories: vec![], branches: vec![] },
    )
    .unwrap();
    bus.subscribe(
        "dup".to_string(),
        EventFilter { event_types: vec![EventType::Tag], repositories: vec![], branches: vec![] },
    )
    .unwrap();
    // Last write wins: one registration, matching tags and not pushes.
    assert_eq!(bus.subscriber_count(), 1);

    bus.publish(envelope(1, push_event("repo", "main", "user"))).unwrap();
    bus.publish(envelope(
        2,
        Event::TagCreated {
            repository: "repo".to_string(),
            tag: "v1".to_string(),
            target: "abc".to_string(),
            tagger: "user".to_string(),
        },
    ))
    .unwrap();

    let mut counts = HashMap::new();
    drain(&mut bus, &mut counts, &no_failures());
    assert_eq!(counts.get("dup").copied().unwrap_or(0), 1);
}

#[test]
fn empty_filter_matches_every_event() {
    let mut bus = InMemoryEventBus::new(8);
    bus.subscribe(
        "everything".to_string(),
        EventFilter { event_types: vec![], repositories: vec![], branches: vec![] },
    )
    .unwrap();

    bus.publish(envelope(1, push_event("r", "b", "u"))).unwrap();
    bus.publish(envelope(
        2,
        Event::ReviewRequested {
            pull_request_id: 7,
            repository: "r".to_string(),
            reviewer: "rev".to_string(),
            plugin: "p".to_string(),
        },
    ))
    .unwrap();
    bus.publish(envelope(3, Event::RepositoryDeleted { repository: "r".to_string() })).unwrap();

    let mut counts = HashMap::new();
    drain(&mut bus, &mut counts, &no_failures());
    assert_eq!(counts.get("everything").copied().unwrap_or(0), 3);
}

#[test]
fn type_restricted_handler_counts_exactly_matching_publishes() {
    let mut bus = InMemoryEventBus::new(8);
    bus.subscribe(
        "ci_only".to_string(),
        EventFilter { event_types: vec![EventType::CiRun], repositories: vec![], branches: vec![] },
    )
    .unwrap();

    bus.publish(envelope(
        1,
        Event::CiRunStarted {
            id: 5,
            repository: "r".to_string(),
            branch: "main".to_string(),
            plugin: "ci".to_string(),
        },
    ))
    .unwrap();
    bus.publish(envelope(2, push_event("r", "main", "u"))).unwrap();
    bus.publish(envelope(
        3,
        Event::CiRunStarted {
            id: 6,
            repository: "r".to_string(),
            branch: "dev".to_string(),
            plugin: "ci".to_string(),
        },
    ))
    .unwrap();

    let mut counts = HashMap::new();
    drain(&mut bus, &mut counts, &no_failures());
    assert_eq!(counts.get("ci_only").copied().unwrap_or(0), 2);
}

#[test]
fn publish_after_close_fails_and_queue_drains() {
    let mut bus = InMemoryEventBus::new(4);
    bus.publish(envelope(1, push_event("r", "main", "u"))).unwrap();
    bus.close();

    let err = bus.publish(envelope(2, push_event("r", "main", "u")));
    assert_eq!(err, Err(PublishError::QueueClosed));

    // What was accepted before the close is still delivered.
    let drained = bus.take_next();
    assert!(drained.is_some());
    assert_eq!(drained.unwrap().id, 1);
    assert!(bus.take_next().is_none());
}

#[test]
fn full_queue_reports_backpressure() {
    let mut bus = InMemoryEventBus::new(1);
    bus.publish(envelope(1, push_event("r", "main", "u"))).unwrap();
    let err = bus.publish(envelope(2, push_event("r", "main", "u")));
    assert_eq!(err, Err(PublishError::QueueFull));

    // Draining frees space; a retry then succeeds, nothing was dropped.
    assert_eq!(bus.take_next().unwrap().id, 1);
    bus.publish(envelope(2, push_event("r", "main", "u"))).unwrap();
    assert_eq!(bus.take_next().unwrap().id, 2);
}

#[test]
fn envelopes_dispatch_in_publish_order() {
    let mut bus = InMemoryEventBus::new(8);
    for id in 1..=4u128 {
        bus.publish(envelope(id, push_event("r", "main", "u"))).unwrap();
    }
    let mut seen = vec![];
    while let Some(env) = bus.take_next() {
        seen.push(env.id);
    }
    assert_eq!(seen, vec![1, 2, 3, 4]);
}

#[test]
fn metrics_record_received_processed_and_timeouts() {
    let mut bus = InMemoryEventBus::new(8);
    bus.subscribe(
        "slow".to_string(),
        EventFilter { event_types: vec![], repositories: vec![], branches: vec![] },
    )
    .unwrap();

    bus.publish(envelope(1, push_event("r", "main", "u"))).unwrap();
    bus.publish(envelope(
        2,
        Event::TagCreated {
            repository: "r".to_string(),
            tag: "v1".to_string(),
            target: "abc".to_string(),
            tagger: "u".to_string(),
        },
    ))
    .unwrap();

    // First envelope completes in 25 ms; the second hits the deadline.
    let env1 = bus.take_next().unwrap();
    let t1 = event_type(&env1.event);
    let names1 = bus.begin_dispatch(&env1);
    for name in &names1 {
        bus.record_handler_outcome(name, true);
    }
    bus.dispatch_completed(t1, 25);

    let env2 = bus.take_next().unwrap();
    let t2 = event_type(&env2.event);
    let _names2 = bus.begin_dispatch(&env2);
    bus.dispatch_timed_out(t2);

    assert_eq!(bus.metrics().get_received(EventType::Push), 1);
    assert_eq!(bus.metrics().get_received(EventType::Tag), 1);
    assert_eq!(bus.metrics().get_received(EventType::Review), 0);
    assert_eq!(bus.metrics().get_processed(EventType::Push), 1);
    assert_eq!(bus.metrics().get_processed_total_ms(EventType::Push), 25);
    assert_eq!(bus.metrics().get_timeouts(EventType::Tag), 1);
    // The timeout path records no duration sample.
    assert_eq!(bus.metrics().get_processed(EventType::Tag), 0);
    assert_eq!(bus.metrics().get_successes("slow"), 1);
}
