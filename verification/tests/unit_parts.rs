//! Unit tests for the bus's parts: glob matching, event classification and
//! extraction, the filter predicate, API key helpers, and error messages.

use nimbus_events::auth::{generate_api_key, mask_token};
use nimbus_events::events::{
    event_type, extract_branch, extract_repository, Event, EventEnvelope, EventFilter,
    EventMetadata, EventPriority, EventType,
};
use nimbus_events::filter::matches_filter;
use nimbus_events::glob::glob_match;
use nimbus_events::types::{NimbusError, Repository};

fn sample_envelope(event: Event) -> EventEnvelope {
    EventEnvelope {
        id: 42,
        timestamp: 1_700_000_000,
        event,
        metadata: EventMetadata {
            target_plugins: vec![],
            priority: EventPriority::Normal,
            persistent: false,
        },
    }
}

fn sample_push(repository: &str, branch: &str) -> Event {
    Event::Push {
        repository: repository.to_string(),
        branch: branch.to_string(),
        commits: vec![],
        pusher: "someone".to_string(),
    }
}

#[test]
fn glob_star_matches_everything() {
    assert!(glob_match("*", ""));
    assert!(glob_match("*", "main"));
    assert!(glob_match("*", "feature/anything/at/all"));
    // A wrapped pattern with an empty inner text contains-matches anything.
    assert!(glob_match("**", "anything"));
    assert!(glob_match("**", ""));
}

#[test]
fn glob_prefix_suffix_containment_and_exact() {
    // Trailing star: prefix.
    assert!(glob_match("feature/*", "feature/auth"));
    assert!(glob_match("feature/*", "feature/"));
    assert!(!glob_match("feature/*", "main"));
    assert!(!glob_match("feature/*", "feat"));

    // Leading star: suffix.
    assert!(glob_match("*-stable", "v2-stable"));
    assert!(!glob_match("*-stable", "stable-v2"));

    // Wrapped: substring containment.
    assert!(glob_match("*fix*", "hotfix/login"));
    assert!(glob_match("*fix*", "fix"));
    assert!(!glob_match("*fix*", "feature"));

    // No star: exact equality only.
    assert!(glob_match("main", "main"));
    assert!(!glob_match("main", "main2"));
    assert!(!glob_match("main", "mai"));
    assert!(!glob_match("", "x"));
    assert!(glob_match("", ""));
}

#[test]
fn classification_covers_every_variant_group() {
    assert_eq!(event_type(&sample_push("r", "b")), EventType::Push);
    assert_eq!(
        event_type(&Event::PullRequestMerged {
            id: 1,
            repository: "r".to_string(),
            merge_commit: "abc".to_string(),
        }),
        EventType::PullRequest
    );
    assert_eq!(
        event_type(&Event::PullRequestClosed { id: 1, repository: "r".to_string() }),
        EventType::PullRequest
    );
    assert_eq!(
        event_type(&Event::TagCreated {
            repository: "r".to_string(),
            tag: "v1".to_string(),
            target: "abc".to_string(),
            tagger: "u".to_string(),
        }),
        EventType::Tag
    );
    assert_eq!(
        event_type(&Event::RepositoryDeleted { repository: "r".to_string() }),
        EventType::Repository
    );
    assert_eq!(
        event_type(&Event::ReviewSubmitted {
            pull_request_id: 1,
            repository: "r".to_string(),
            reviewer: "rev".to_string(),
            status: nimbus_events::events::ReviewStatus::Approved,
            plugin: "p".to_string(),
        }),
        EventType::Review
    );
    assert_eq!(
        event_type(&Event::CiRunCompleted {
            id: 1,
            repository: "r".to_string(),
            status: nimbus_events::events::CiStatus::Success,
            plugin: "p".to_string(),
        }),
        EventType::CiRun
    );
    // The AI analysis variants have no dedicated class and fall back to Push.
    assert_eq!(
        event_type(&Event::AiAnalysisRequested {
            id: 1,
            repository: "r".to_string(),
            context: nimbus_events::events::AnalysisContext::Repository,
            plugin: "p".to_string(),
        }),
        EventType::Push
    );
}

#[test]
fn repository_extraction_uses_embedded_name_for_created() {
    let created = Event::RepositoryCreated {
        repository: Repository {
            id: 9,
            name: "embedded-name".to_string(),
            description: None,
            is_private: false,
            default_branch: "main".to_string(),
            collaborator_permissions: vec![],
        },
    };
    assert_eq!(extract_repository(&created), Some("embedded-name".to_string()));
    assert_eq!(extract_repository(&sample_push("flat-name", "b")), Some("flat-name".to_string()));
}

#[test]
fn branch_extraction_only_where_a_branch_exists() {
    assert_eq!(extract_branch(&sample_push("r", "topic")), Some("topic".to_string()));
    assert_eq!(
        extract_branch(&Event::CiRunStarted {
            id: 1,
            repository: "r".to_string(),
            branch: "ci-branch".to_string(),
            plugin: "p".to_string(),
        }),
        Some("ci-branch".to_string())
    );
    assert_eq!(
        extract_branch(&Event::PullRequestOpened {
            id: 1,
            repository: "r".to_string(),
            from_branch: "source".to_string(),
            to_branch: "main".to_string(),
            title: "t".to_string(),
            author: "a".to_string(),
        }),
        Some("source".to_string())
    );
    assert_eq!(extract_branch(&Event::RepositoryDeleted { repository: "r".to_string() }), None);
}

#[test]
fn empty_filter_always_matches() {
    let filter = EventFilter { event_types: vec![], repositories: vec![], branches: vec![] };
    assert!(matches_filter(&filter, &sample_envelope(sample_push("any", "any"))));
    assert!(matches_filter(
        &filter,
        &sample_envelope(Event::RepositoryDeleted { repository: "gone".to_string() })
    ));
}

#[test]
fn repository_filter_skips_events_without_a_repository_field_match() {
    let filter = EventFilter {
        event_types: vec![],
        repositories: vec!["only-this".to_string()],
        branches: vec![],
    };
    assert!(matches_filter(&filter, &sample_envelope(sample_push("only-this", "b"))));
    assert!(!matches_filter(&filter, &sample_envelope(sample_push("another", "b"))));
}

#[test]
fn branch_filter_skips_events_without_a_branch() {
    let filter = EventFilter {
        event_types: vec![],
        repositories: vec![],
        branches: vec!["main".to_string()],
    };
    // A push to another branch is rejected...
    assert!(!matches_filter(&filter, &sample_envelope(sample_push("r", "dev"))));
    // ...but an event that carries no branch at all passes a branch filter.
    assert!(matches_filter(
        &filter,
        &sample_envelope(Event::RepositoryDeleted { repository: "r".to_string() })
    ));
}

#[test]
fn conjunctive_filter_needs_every_dimension() {
    let filter = EventFilter {
        event_types: vec![EventType::Push],
        repositories: vec!["repo-a".to_string()],
        branches: vec!["release/*".to_string()],
    };
    assert!(matches_filter(&filter, &sample_envelope(sample_push("repo-a", "release/1.0"))));
    assert!(!matches_filter(&filter, &sample_envelope(sample_push("repo-b", "release/1.0"))));
    assert!(!matches_filter(&filter, &sample_envelope(sample_push("repo-a", "hotfix/1.0"))));
    assert!(!matches_filter(
        &filter,
        &sample_envelope(Event::TagCreated {
            repository: "repo-a".to_string(),
            tag: "v1".to_string(),
            target: "abc".to_string(),
            tagger: "u".to_string(),
        })
    ));
}

#[test]
fn api_keys_carry_prefix_and_hex_body() {
    let key = generate_api_key();
    assert_eq!(key.len(), 37);
    assert!(key.starts_with("nmbs_"));
    assert!(key[5..].chars().all(|c| c.is_ascii_hexdigit() && !c.is_ascii_uppercase()));
}

#[test]
fn token_masking_keeps_at_most_eight_characters() {
    assert_eq!(mask_token("abcdefghijklmnop"), "abcdefgh...");
    assert_eq!(mask_token("abc"), "abc...");
    assert_eq!(mask_token(""), "...");
    assert_eq!(mask_token("exactly8"), "exactly8...");
}

#[test]
fn error_messages_name_their_cause() {
    assert_eq!(
        NimbusError::RepositoryNotFound("repo-x".to_string()).message(),
        "Repository not found: repo-x"
    );
    assert_eq!(NimbusError::Unauthorized("no token".to_string()).message(), "Unauthorized: no token");
    assert_eq!(
        NimbusError::InvalidGitOperation("force push".to_string()).message(),
        "Invalid git operation: force push"
    );
    assert_eq!(NimbusError::PluginError("ci died".to_string()).message(), "Plugin error: ci died");
    assert_eq!(NimbusError::Internal("oops".to_string()).message(), "Internal error: oops");
}
