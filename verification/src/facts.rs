//! The facts the daemon records about its projects and tasks, as plain values.
use vstd::prelude::*;

use crate::adapters::forge::Checks;
use crate::commands::Dependency;
use crate::names::{AnsweredBy, Role};

verus! {

/// Whether a worker's session was found running.
#[derive(Debug, Clone, Copy, PartialEq, Eq, Structural)]
pub enum Liveness {
    Live,
    Gone,
}

/// What a leased worktree was reset to before a worker got it.
#[derive(Debug, Clone, PartialEq, Eq)]
pub enum Baseline {
    /// The head of the project's default branch.
    DefaultBranchHead,
    /// A commit the task is based on.
    PinnedCommit(String),
}

/// The role and profile a dispatch judgement settled on.
#[derive(Debug, Clone, PartialEq, Eq)]
pub struct Resolution {
    pub role: Role,
    pub profile: String,
}

/// One recorded fact. Task, commit, lease and session identifiers are held as their
/// text.
#[derive(Debug, Clone, PartialEq, Eq)]
pub enum FactKind {
    /// The dispatch model judged which rule a new task matches. `confidence` is the
    /// JSON number the judge reported.
    TaskDispatchJudged {
        task: String,
        chosen_rule: Option<usize>,
        confidence: String,
        model: String,
        model_version: String,
        rules_hash: String,
        rules_snapshot: String,
        resolution: Resolution,
    },
    TaskProposed {
        task: String,
        title: String,
        intent: String,
        role: Role,
        dispatch_profile: Option<String>,
        dependencies: Vec<Dependency>,
        base_dependency: Option<String>,
        hold_pr: bool,
    },
    TaskReleased { task: String },
    TaskApproved { task: String },
    TaskCancelled { task: String },
    TaskRetried { task: String },
    TaskAcknowledged { task: String },
    QuestionAsked { task: String, text: String, relay: bool },
    QuestionAnswered { task: String, answer: String, by: AnsweredBy },
    WorktreeAcquireRequested { task: String },
    WorkerTurnLaunchRequested { task: String },
    WorkerTurnResumeRequested { task: String },
    WorkerTurnUnresolved { task: String },
    WorkerTurnStarted { task: String, session: String },
    WorkerTurnEnded { task: String },
    WorkerRedirected { task: String, text: String },
    WorkerLivenessChanged { task: String, liveness: Liveness },
    WorkerSubmissionRecorded { task: String, summary: String, artifacts: Vec<String> },
    WorkerSubmitted { task: String, commit: String },
    ValidationStarted { task: String, commit: String },
    ValidationFinished {
        task: String,
        command: String,
        commit: String,
        exit_code: i32,
        duration_millis: u64,
        output_tail: String,
    },
    WorktreeAcquired {
        task: String,
        lease: String,
        baseline: Baseline,
        included: Vec<Dependency>,
    },
    BranchPushed { task: String, commit: String },
    PullRequestOpened { task: String, number: u64, url: String },
    PullRequestChecksChanged { task: String, checks: Checks },
    PullRequestMerged { task: String, commit: String },
    PullRequestClosedUnmerged { task: String },
    PullRequestMergeRefused {
        task: String,
        commit: String,
        base: String,
        checks: Checks,
        reason: String,
    },
    PushFailed { task: String, commit: String, reason: String },
    RebaseScheduled { task: String, profile: String, commit: String, base: String },
    RunDurationExceeded { task: String },
    RetryExhausted { task: String },
    ProviderRateLimited { task: String, profile: String },
    OnEventNotified { task: String, event: String },
    CoordinatorSessionStarted { session: String },
    CoordinatorContextMeasured { tokens: u64 },
    DaemonRestarted,
    Polled,
}

} // verus!
