//! The event model: domain event variants, their metadata envelope, and the
//! classification into the coarse event types used for subscription indexing.
//!
//! Envelope identifiers are 128-bit values and timestamps are seconds since
//! the Unix epoch, so that every field is a plain value the contracts can
//! speak of.

use vstd::prelude::*;

use crate::types::{Commit, Repository};

verus! {

/// Subscription criteria. Each dimension is conjunctive; an empty set means
/// "don't care" for that dimension, not "match nothing".
#[derive(Clone, Debug)]
pub struct EventFilter {
    /// Event types to receive (empty = all).
    pub event_types: Vec<EventType>,
    /// Repository names to filter (empty = all).
    pub repositories: Vec<String>,
    /// Branch patterns to match (restricted glob patterns; empty = all).
    pub branches: Vec<String>,
}

/// Coarse classification of events, the unit of subscription indexing.
/// Several `Event` variants can map to one `EventType`.
#[derive(Clone, Copy, Debug, PartialEq, Eq, Hash, Structural)]
pub enum EventType {
    Push,
    PullRequest,
    Tag,
    Repository,
    Review,
    CiRun,
}

/// One event together with its delivery metadata. Envelopes are immutable
/// after creation; identifiers and timestamps are supplied by the producer.
#[derive(Clone, Debug)]
pub struct EventEnvelope {
    pub id: u128,
    pub timestamp: i64,
    pub event: Event,
    pub metadata: EventMetadata,
}

/// Delivery metadata carried by an envelope.
#[derive(Clone, Debug)]
pub struct EventMetadata {
    /// Which plugins should handle this, if specific ones are targeted.
    pub target_plugins: Vec<String>,
    /// Priority for ordering.
    pub priority: EventPriority,
    /// Whether this event should be persisted.
    pub persistent: bool,
}

/// Priority levels for envelope metadata, from lowest to highest.
#[derive(Clone, Copy, Debug, PartialEq, Eq, PartialOrd, Ord, Structural)]
pub enum EventPriority {
    Low,
    Normal,
    High,
    Critical,
}

/// The closed set of domain occurrences that flow through the bus.
#[derive(Clone, Debug)]
pub enum Event {
    Push { repository: String, branch: String, commits: Vec<Commit>, pusher: String },
    PullRequestOpened {
        id: u128,
        repository: String,
        from_branch: String,
        to_branch: String,
        title: String,
        author: String,
    },
    PullRequestMerged { id: u128, repository: String, merge_commit: String },
    PullRequestClosed { id: u128, repository: String },
    TagCreated { repository: String, tag: String, target: String, tagger: String },
    RepositoryCreated { repository: Repository },
    RepositoryDeleted { repository: String },
    CiRunStarted { id: u128, repository: String, branch: String, plugin: String },
    CiRunCompleted { id: u128, repository: String, status: CiStatus, plugin: String },
    ReviewRequested { pull_request_id: u128, repository: String, reviewer: String, plugin: String },
    ReviewSubmitted {
        pull_request_id: u128,
        repository: String,
        reviewer: String,
        status: ReviewStatus,
        plugin: String,
    },
    AiAnalysisRequested { id: u128, repository: String, context: AnalysisContext, plugin: String },
    AiAnalysisCompleted { id: u128, repository: String, suggestions: Vec<AiSuggestion>, plugin: String },
}

/// Outcome of a CI run.
#[derive(Clone, Copy, Debug, PartialEq, Eq, Structural)]
pub enum CiStatus {
    Success,
    Failure,
    Cancelled,
    Timeout,
}

/// Outcome of a submitted review.
#[derive(Clone, Copy, Debug, PartialEq, Eq, Structural)]
pub enum ReviewStatus {
    Approved,
    RequestedChanges,
    Commented,
}

/// What an AI analysis request is about.
#[derive(Clone, Debug)]
pub enum AnalysisContext {
    PullRequest { id: u128 },
    File { path: String, commit: String },
    Repository,
}

/// One suggestion produced by an AI analysis.
#[derive(Clone, Debug)]
pub struct AiSuggestion {
    pub file: String,
    pub line: Option<u32>,
    pub suggestion: String,
    pub severity: SuggestionSeverity,
}

/// How serious an AI suggestion is.
#[derive(Clone, Copy, Debug, PartialEq, Eq, Structural)]
pub enum SuggestionSeverity {
    Info,
    Warning,
    Error,
}

/// The coarse class of an event. Total: the AI analysis variants have no
/// dedicated class and deliberately fall back to `Push` for indexing.
pub open spec fn spec_event_type(e: Event) -> EventType {
    match e {
        Event::Push { .. } => EventType::Push,
        Event::PullRequestOpened { .. } => EventType::PullRequest,
        Event::PullRequestMerged { .. } => EventType::PullRequest,
        Event::PullRequestClosed { .. } => EventType::PullRequest,
        Event::TagCreated { .. } => EventType::Tag,
        Event::RepositoryCreated { .. } => EventType::Repository,
        Event::RepositoryDeleted { .. } => EventType::Repository,
        Event::ReviewRequested { .. } => EventType::Review,
        Event::ReviewSubmitted { .. } => EventType::Review,
        Event::CiRunStarted { .. } => EventType::CiRun,
        Event::CiRunCompleted { .. } => EventType::CiRun,
        Event::AiAnalysisRequested { .. } => EventType::Push,
        Event::AiAnalysisCompleted { .. } => EventType::Push,
    }
}

/// The repository name an event carries, if any. `RepositoryCreated` takes
/// the name out of its embedded repository record rather than a flat field.
pub open spec fn spec_extract_repository(e: Event) -> Option<Seq<char>> {
    match e {
        Event::Push { repository, .. } => Some(repository@),
        Event::PullRequestOpened { repository, .. } => Some(repository@),
        Event::PullRequestMerged { repository, .. } => Some(repository@),
        Event::PullRequestClosed { repository, .. } => Some(repository@),
        Event::TagCreated { repository, .. } => Some(repository@),
        Event::RepositoryCreated { repository } => Some(repository.name@),
        Event::RepositoryDeleted { repository, .. } => Some(repository@),
        Event::CiRunStarted { repository, .. } => Some(repository@),
        Event::CiRunCompleted { repository, .. } => Some(repository@),
        Event::ReviewRequested { repository, .. } => Some(repository@),
        Event::ReviewSubmitted { repository, .. } => Some(repository@),
        Event::AiAnalysisRequested { repository, .. } => Some(repository@),
        Event::AiAnalysisCompleted { repository, .. } => Some(repository@),
    }
}

/// The branch an event carries, if any: only pushes and CI run starts carry
/// a branch directly, and an opened pull request exposes its source branch.
pub open spec fn spec_extract_branch(e: Event) -> Option<Seq<char>> {
    match e {
        Event::Push { branch, .. } => Some(branch@),
        Event::CiRunStarted { branch, .. } => Some(branch@),
        Event::PullRequestOpened { from_branch, .. } => Some(from_branch@),
        _ => None,
    }
}

/// Classifies an event into its coarse event type.
pub fn event_type(e: &Event) -> (r: EventType)
    ensures
        r == spec_event_type(*e),
{
    match e {
        Event::Push { .. } => EventType::Push,
        Event::PullRequestOpened { .. } => EventType::PullRequest,
        Event::PullRequestMerged { .. } => EventType::PullRequest,
        Event::PullRequestClosed { .. } => EventType::PullRequest,
        Event::TagCreated { .. } => EventType::Tag,
        Event::RepositoryCreated { .. } => EventType::Repository,
        Event::RepositoryDeleted { .. } => EventType::Repository,
        Event::ReviewRequested { .. } => EventType::Review,
        Event::ReviewSubmitted { .. } => EventType::Review,
        Event::CiRunStarted { .. } => EventType::CiRun,
        Event::CiRunCompleted { .. } => EventType::CiRun,
        Event::AiAnalysisRequested { .. } => EventType::Push,
        Event::AiAnalysisCompleted { .. } => EventType::Push,
    }
}

/// Returns the repository name an event carries, if any.
pub fn extract_repository(e: &Event) -> (r: Option<String>)
    ensures
        r.deep_view() == spec_extract_repository(*e),
{
    match e {
        Event::Push { repository, .. } => Some(repository.clone()),
        Event::PullRequestOpened { repository, .. } => Some(repository.clone()),
        Event::PullRequestMerged { repository, .. } => Some(repository.clone()),
        Event::PullRequestClosed { repository, .. } => Some(repository.clone()),
        Event::TagCreated { repository, .. } => Some(repository.clone()),
        Event::RepositoryCreated { repository } => Some(repository.name.clone()),
        Event::RepositoryDeleted { repository, .. } => Some(repository.clone()),
        Event::CiRunStarted { repository, .. } => Some(repository.clone()),
        Event::CiRunCompleted { repository, .. } => Some(repository.clone()),
        Event::ReviewRequested { repository, .. } => Some(repository.clone()),
        Event::ReviewSubmitted { repository, .. } => Some(repository.clone()),
        Event::AiAnalysisRequested { repository, .. } => Some(repository.clone()),
        Event::AiAnalysisCompleted { repository, .. } => Some(repository.clone()),
    }
}

/// Returns the branch an event carries, if any.
pub fn extract_branch(e: &Event) -> (r: Option<String>)
    ensures
        r.deep_view() == spec_extract_branch(*e),
{
    match e {
        Event::Push { branch, .. } => Some(branch.clone()),
        Event::CiRunStarted { branch, .. } => Some(branch.clone()),
        Event::PullRequestOpened { from_branch, .. } => Some(from_branch.clone()),
        _ => None,
    }
}

} // verus!
