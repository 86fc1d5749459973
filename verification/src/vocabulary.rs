//! The names under which the store records each kind of fact.
use vstd::prelude::*;

use crate::error::{Error, Result};
use crate::facts::FactKind;
use crate::text::{push_str, str_eq};

verus! {

/// The kind of a recorded fact.
#[derive(Debug, Clone, Copy, PartialEq, Eq, PartialOrd, Ord, Hash)]
pub enum FactTag {
    /// The branch of a task was pushed.
    BranchPushed,
    /// The context use of the coordinator was measured.
    CoordinatorContextMeasured,
    /// A coordinator session started.
    CoordinatorSessionStarted,
    /// The daemon restarted.
    DaemonRestarted,
    /// The on-event hook was notified.
    OnEventNotified,
    /// The daemon polled its collaborators.
    Polled,
    /// The model provider limited the rate of a worker.
    ProviderRateLimited,
    /// The checks on a pull request changed.
    PullRequestChecksChanged,
    /// A pull request was closed without merging.
    PullRequestClosedUnmerged,
    /// A merge of a pull request was refused.
    PullRequestMergeRefused,
    /// A pull request was merged.
    PullRequestMerged,
    /// The pull request of a task was opened.
    PullRequestOpened,
    /// Pushing the branch of a task failed.
    PushFailed,
    /// A question was answered.
    QuestionAnswered,
    /// A worker asked a question.
    QuestionAsked,
    /// A rebase onto the base branch was scheduled.
    RebaseScheduled,
    /// A task used up its retries.
    RetryExhausted,
    /// A worker ran past its allowed duration.
    RunDurationExceeded,
    /// A finished task was acknowledged.
    TaskAcknowledged,
    /// A task was approved to run.
    TaskApproved,
    /// A task was stopped.
    TaskCancelled,
    /// The dispatch model judged which rule a task matches.
    TaskDispatchJudged,
    /// A task was filed and waits for approval.
    TaskProposed,
    /// The hold on the pull request of a task was released.
    TaskReleased,
    /// A task was sent back to run again.
    TaskRetried,
    /// Validation of a submitted commit finished.
    ValidationFinished,
    /// Validation of a submitted commit started.
    ValidationStarted,
    /// A worker went live or was found gone.
    WorkerLivenessChanged,
    /// A new direction was queued for a worker.
    WorkerRedirected,
    /// The submission of a worker was recorded.
    WorkerSubmissionRecorded,
    /// A worker submitted a commit.
    WorkerSubmitted,
    /// A worker turn ended.
    WorkerTurnEnded,
    /// A worker session launch was requested.
    WorkerTurnLaunchRequested,
    /// A worker session resume was requested.
    WorkerTurnResumeRequested,
    /// A worker turn started.
    WorkerTurnStarted,
    /// A worker turn could not be resolved.
    WorkerTurnUnresolved,
    /// A worktree lease was requested for a task.
    WorktreeAcquireRequested,
    /// A worktree was leased for a task.
    WorktreeAcquired,
}

/// How many kinds of fact there are.
pub const FACT_TAG_COUNT: usize = 38;

/// The names the fact kinds are stored under, in declaration order.
pub open spec fn fact_tag_names_spec() -> Seq<Seq<char>> {
    seq![
        "branch_pushed"@, "coordinator_context_measured"@, "coordinator_session_started"@,
        "daemon_restarted"@, "on_event_notified"@, "polled"@, "provider_rate_limited"@,
        "pull_request_checks_changed"@, "pull_request_closed_unmerged"@,
        "pull_request_merge_refused"@, "pull_request_merged"@, "pull_request_opened"@,
        "push_failed"@, "question_answered"@, "question_asked"@, "rebase_scheduled"@,
        "retry_exhausted"@, "run_duration_exceeded"@, "task_acknowledged"@, "task_approved"@,
        "task_cancelled"@, "task_dispatch_judged"@, "task_proposed"@, "task_released"@,
        "task_retried"@, "validation_finished"@, "validation_started"@,
        "worker_liveness_changed"@, "worker_redirected"@, "worker_submission_recorded"@,
        "worker_submitted"@, "worker_turn_ended"@, "worker_turn_launch_requested"@,
        "worker_turn_resume_requested"@, "worker_turn_started"@, "worker_turn_unresolved"@,
        "worktree_acquire_requested"@, "worktree_acquired"@,
    ]
}

/// The name a fact kind is stored under.
pub open spec fn fact_tag_name_spec(tag: FactTag) -> Seq<char> {
    fact_tag_names_spec()[fact_tag_index(tag)]
}

/// The position of a fact kind in declaration order.
pub open spec fn fact_tag_index(tag: FactTag) -> int {
    match tag {
        FactTag::BranchPushed => 0,
        FactTag::CoordinatorContextMeasured => 1,
        FactTag::CoordinatorSessionStarted => 2,
        FactTag::DaemonRestarted => 3,
        FactTag::OnEventNotified => 4,
        FactTag::Polled => 5,
        FactTag::ProviderRateLimited => 6,
        FactTag::PullRequestChecksChanged => 7,
        FactTag::PullRequestClosedUnmerged => 8,
        FactTag::PullRequestMergeRefused => 9,
        FactTag::PullRequestMerged => 10,
        FactTag::PullRequestOpened => 11,
        FactTag::PushFailed => 12,
        FactTag::QuestionAnswered => 13,
        FactTag::QuestionAsked => 14,
        FactTag::RebaseScheduled => 15,
        FactTag::RetryExhausted => 16,
        FactTag::RunDurationExceeded => 17,
        FactTag::TaskAcknowledged => 18,
        FactTag::TaskApproved => 19,
        FactTag::TaskCancelled => 20,
        FactTag::TaskDispatchJudged => 21,
        FactTag::TaskProposed => 22,
        FactTag::TaskReleased => 23,
        FactTag::TaskRetried => 24,
        FactTag::ValidationFinished => 25,
        FactTag::ValidationStarted => 26,
        FactTag::WorkerLivenessChanged => 27,
        FactTag::WorkerRedirected => 28,
        FactTag::WorkerSubmissionRecorded => 29,
        FactTag::WorkerSubmitted => 30,
        FactTag::WorkerTurnEnded => 31,
        FactTag::WorkerTurnLaunchRequested => 32,
        FactTag::WorkerTurnResumeRequested => 33,
        FactTag::WorkerTurnStarted => 34,
        FactTag::WorkerTurnUnresolved => 35,
        FactTag::WorktreeAcquireRequested => 36,
        FactTag::WorktreeAcquired => 37,
    }
}

/// The stored names, in declaration order.
fn fact_tag_names() -> (r: Vec<&'static str>)
    ensures
        r@.len() == FACT_TAG_COUNT,
        forall|t: FactTag| (#[trigger] r@[fact_tag_index(t)])@ == fact_tag_name_spec(t),
{
    let names = vec![
        "branch_pushed", "coordinator_context_measured", "coordinator_session_started",
        "daemon_restarted", "on_event_notified", "polled", "provider_rate_limited",
        "pull_request_checks_changed", "pull_request_closed_unmerged",
        "pull_request_merge_refused", "pull_request_merged", "pull_request_opened", "push_failed",
        "question_answered", "question_asked", "rebase_scheduled", "retry_exhausted",
        "run_duration_exceeded", "task_acknowledged", "task_approved", "task_cancelled",
        "task_dispatch_judged", "task_proposed", "task_released", "task_retried",
        "validation_finished", "validation_started", "worker_liveness_changed",
        "worker_redirected", "worker_submission_recorded", "worker_submitted",
        "worker_turn_ended", "worker_turn_launch_requested", "worker_turn_resume_requested",
        "worker_turn_started", "worker_turn_unresolved", "worktree_acquire_requested",
        "worktree_acquired",
    ];
    assert forall|t: FactTag| (#[trigger] names@[fact_tag_index(t)])@ == fact_tag_name_spec(t) by {
        match t {
            FactTag::BranchPushed => assert(names@[0]@ == "branch_pushed"@),
            FactTag::CoordinatorContextMeasured => assert(names@[1]@ == "coordinator_context_measured"@),
            FactTag::CoordinatorSessionStarted => assert(names@[2]@ == "coordinator_session_started"@),
            FactTag::DaemonRestarted => assert(names@[3]@ == "daemon_restarted"@),
            FactTag::OnEventNotified => assert(names@[4]@ == "on_event_notified"@),
            FactTag::Polled => assert(names@[5]@ == "polled"@),
            FactTag::ProviderRateLimited => assert(names@[6]@ == "provider_rate_limited"@),
            FactTag::PullRequestChecksChanged => assert(names@[7]@ == "pull_request_checks_changed"@),
            FactTag::PullRequestClosedUnmerged => assert(names@[8]@ == "pull_request_closed_unmerged"@),
            FactTag::PullRequestMergeRefused => assert(names@[9]@ == "pull_request_merge_refused"@),
            FactTag::PullRequestMerged => assert(names@[10]@ == "pull_request_merged"@),
            FactTag::PullRequestOpened => assert(names@[11]@ == "pull_request_opened"@),
            FactTag::PushFailed => assert(names@[12]@ == "push_failed"@),
            FactTag::QuestionAnswered => assert(names@[13]@ == "question_answered"@),
            FactTag::QuestionAsked => assert(names@[14]@ == "question_asked"@),
            FactTag::RebaseScheduled => assert(names@[15]@ == "rebase_scheduled"@),
            FactTag::RetryExhausted => assert(names@[16]@ == "retry_exhausted"@),
            FactTag::RunDurationExceeded => assert(names@[17]@ == "run_duration_exceeded"@),
            FactTag::TaskAcknowledged => assert(names@[18]@ == "task_acknowledged"@),
            FactTag::TaskApproved => assert(names@[19]@ == "task_approved"@),
            FactTag::TaskCancelled => assert(names@[20]@ == "task_cancelled"@),
            FactTag::TaskDispatchJudged => assert(names@[21]@ == "task_dispatch_judged"@),
            FactTag::TaskProposed => assert(names@[22]@ == "task_proposed"@),
            FactTag::TaskReleased => assert(names@[23]@ == "task_released"@),
            FactTag::TaskRetried => assert(names@[24]@ == "task_retried"@),
            FactTag::ValidationFinished => assert(names@[25]@ == "validation_finished"@),
            FactTag::ValidationStarted => assert(names@[26]@ == "validation_started"@),
            FactTag::WorkerLivenessChanged => assert(names@[27]@ == "worker_liveness_changed"@),
            FactTag::WorkerRedirected => assert(names@[28]@ == "worker_redirected"@),
            FactTag::WorkerSubmissionRecorded => assert(names@[29]@ == "worker_submission_recorded"@),
            FactTag::WorkerSubmitted => assert(names@[30]@ == "worker_submitted"@),
            FactTag::WorkerTurnEnded => assert(names@[31]@ == "worker_turn_ended"@),
            FactTag::WorkerTurnLaunchRequested => assert(names@[32]@ == "worker_turn_launch_requested"@),
            FactTag::WorkerTurnResumeRequested => assert(names@[33]@ == "worker_turn_resume_requested"@),
            FactTag::WorkerTurnStarted => assert(names@[34]@ == "worker_turn_started"@),
            FactTag::WorkerTurnUnresolved => assert(names@[35]@ == "worker_turn_unresolved"@),
            FactTag::WorktreeAcquireRequested => assert(names@[36]@ == "worktree_acquire_requested"@),
            FactTag::WorktreeAcquired => assert(names@[37]@ == "worktree_acquired"@),
        }
    }
    names
}

/// The name a fact kind is stored under.
pub fn fact_tag_name(tag: FactTag) -> (r: &'static str)
    ensures
        r@ == fact_tag_name_spec(tag),
{
    let names = fact_tag_names();
    let i = fact_tag_position(tag);
    names[i]
}

/// The position of a fact kind in declaration order.
fn fact_tag_position(tag: FactTag) -> (r: usize)
    ensures
        r == fact_tag_index(tag),
{
    match tag {
        FactTag::BranchPushed => 0,
        FactTag::CoordinatorContextMeasured => 1,
        FactTag::CoordinatorSessionStarted => 2,
        FactTag::DaemonRestarted => 3,
        FactTag::OnEventNotified => 4,
        FactTag::Polled => 5,
        FactTag::ProviderRateLimited => 6,
        FactTag::PullRequestChecksChanged => 7,
        FactTag::PullRequestClosedUnmerged => 8,
        FactTag::PullRequestMergeRefused => 9,
        FactTag::PullRequestMerged => 10,
        FactTag::PullRequestOpened => 11,
        FactTag::PushFailed => 12,
        FactTag::QuestionAnswered => 13,
        FactTag::QuestionAsked => 14,
        FactTag::RebaseScheduled => 15,
        FactTag::RetryExhausted => 16,
        FactTag::RunDurationExceeded => 17,
        FactTag::TaskAcknowledged => 18,
        FactTag::TaskApproved => 19,
        FactTag::TaskCancelled => 20,
        FactTag::TaskDispatchJudged => 21,
        FactTag::TaskProposed => 22,
        FactTag::TaskReleased => 23,
        FactTag::TaskRetried => 24,
        FactTag::ValidationFinished => 25,
        FactTag::ValidationStarted => 26,
        FactTag::WorkerLivenessChanged => 27,
        FactTag::WorkerRedirected => 28,
        FactTag::WorkerSubmissionRecorded => 29,
        FactTag::WorkerSubmitted => 30,
        FactTag::WorkerTurnEnded => 31,
        FactTag::WorkerTurnLaunchRequested => 32,
        FactTag::WorkerTurnResumeRequested => 33,
        FactTag::WorkerTurnStarted => 34,
        FactTag::WorkerTurnUnresolved => 35,
        FactTag::WorktreeAcquireRequested => 36,
        FactTag::WorktreeAcquired => 37,
    }
}

/// The fact kind at position `i` in declaration order.
fn fact_tag_at(i: usize) -> (r: FactTag)
    requires
        i < FACT_TAG_COUNT,
    ensures
        fact_tag_index(r) == i,
{
    match i {
        0 => FactTag::BranchPushed,
        1 => FactTag::CoordinatorContextMeasured,
        2 => FactTag::CoordinatorSessionStarted,
        3 => FactTag::DaemonRestarted,
        4 => FactTag::OnEventNotified,
        5 => FactTag::Polled,
        6 => FactTag::ProviderRateLimited,
        7 => FactTag::PullRequestChecksChanged,
        8 => FactTag::PullRequestClosedUnmerged,
        9 => FactTag::PullRequestMergeRefused,
        10 => FactTag::PullRequestMerged,
        11 => FactTag::PullRequestOpened,
        12 => FactTag::PushFailed,
        13 => FactTag::QuestionAnswered,
        14 => FactTag::QuestionAsked,
        15 => FactTag::RebaseScheduled,
        16 => FactTag::RetryExhausted,
        17 => FactTag::RunDurationExceeded,
        18 => FactTag::TaskAcknowledged,
        19 => FactTag::TaskApproved,
        20 => FactTag::TaskCancelled,
        21 => FactTag::TaskDispatchJudged,
        22 => FactTag::TaskProposed,
        23 => FactTag::TaskReleased,
        24 => FactTag::TaskRetried,
        25 => FactTag::ValidationFinished,
        26 => FactTag::ValidationStarted,
        27 => FactTag::WorkerLivenessChanged,
        28 => FactTag::WorkerRedirected,
        29 => FactTag::WorkerSubmissionRecorded,
        30 => FactTag::WorkerSubmitted,
        31 => FactTag::WorkerTurnEnded,
        32 => FactTag::WorkerTurnLaunchRequested,
        33 => FactTag::WorkerTurnResumeRequested,
        34 => FactTag::WorkerTurnStarted,
        35 => FactTag::WorkerTurnUnresolved,
        36 => FactTag::WorktreeAcquireRequested,
        _ => FactTag::WorktreeAcquired,
    }
}

/// Distinct fact kinds sit at distinct positions.
proof fn lemma_fact_tag_index(a: FactTag, b: FactTag)
    ensures
        0 <= fact_tag_index(a) < FACT_TAG_COUNT,
        fact_tag_index(a) == fact_tag_index(b) ==> a == b,
{
}

/// What tells the stored names apart: the length of a name, its sixth character, and
/// its fourteenth character when it has one.
pub open spec fn name_key(s: Seq<char>) -> (nat, char, char) {
    (s.len(), if s.len() > 5 { s[5] } else { ' ' }, if s.len() > 13 { s[13] } else { ' ' })
}

/// The key of the name each fact kind is stored under.
spec fn fact_tag_key(tag: FactTag) -> (nat, char, char) {
    match tag {
        FactTag::BranchPushed => (13, 'h', ' '),
        FactTag::CoordinatorContextMeasured => (28, 'i', 'o'),
        FactTag::CoordinatorSessionStarted => (27, 'i', 'e'),
        FactTag::DaemonRestarted => (16, 'n', 't'),
        FactTag::OnEventNotified => (17, 'e', 'f'),
        FactTag::Polled => (6, 'd', ' '),
        FactTag::ProviderRateLimited => (21, 'd', '_'),
        FactTag::PullRequestChecksChanged => (27, 'r', 'c'),
        FactTag::PullRequestClosedUnmerged => (28, 'r', 'c'),
        FactTag::PullRequestMergeRefused => (26, 'r', 'm'),
        FactTag::PullRequestMerged => (19, 'r', 'm'),
        FactTag::PullRequestOpened => (19, 'r', 'o'),
        FactTag::PushFailed => (11, 'f', ' '),
        FactTag::QuestionAnswered => (17, 'i', 'e'),
        FactTag::QuestionAsked => (14, 'i', 'd'),
        FactTag::RebaseScheduled => (16, 'e', 'l'),
        FactTag::RetryExhausted => (15, '_', 'e'),
        FactTag::RunDurationExceeded => (21, 'u', 'e'),
        FactTag::TaskAcknowledged => (17, 'a', 'd'),
        FactTag::TaskApproved => (13, 'a', ' '),
        FactTag::TaskCancelled => (14, 'c', 'd'),
        FactTag::TaskDispatchJudged => (20, 'd', '_'),
        FactTag::TaskProposed => (13, 'p', ' '),
        FactTag::TaskReleased => (13, 'r', ' '),
        FactTag::TaskRetried => (12, 'r', ' '),
        FactTag::ValidationFinished => (19, 'a', 'n'),
        FactTag::ValidationStarted => (18, 'a', 'a'),
        FactTag::WorkerLivenessChanged => (23, 'r', 's'),
        FactTag::WorkerRedirected => (17, 'r', 'c'),
        FactTag::WorkerSubmissionRecorded => (26, 'r', 's'),
        FactTag::WorkerSubmitted => (16, 'r', 't'),
        FactTag::WorkerTurnEnded => (17, 'r', 'n'),
        FactTag::WorkerTurnLaunchRequested => (28, 'r', 'a'),
        FactTag::WorkerTurnResumeRequested => (28, 'r', 'e'),
        FactTag::WorkerTurnStarted => (19, 'r', 't'),
        FactTag::WorkerTurnUnresolved => (22, 'r', 'n'),
        FactTag::WorktreeAcquireRequested => (26, 'r', 'i'),
        FactTag::WorktreeAcquired => (17, 'r', 'i'),
    }
}

proof fn lemma_fact_tag_key(tag: FactTag)
    ensures
        name_key(fact_tag_name_spec(tag)) == fact_tag_key(tag),
{
    reveal_strlit("branch_pushed");
    reveal_strlit("coordinator_context_measured");
    reveal_strlit("coordinator_session_started");
    reveal_strlit("daemon_restarted");
    reveal_strlit("on_event_notified");
    reveal_strlit("polled");
    reveal_strlit("provider_rate_limited");
    reveal_strlit("pull_request_checks_changed");
    reveal_strlit("pull_request_closed_unmerged");
    reveal_strlit("pull_request_merge_refused");
    reveal_strlit("pull_request_merged");
    reveal_strlit("pull_request_opened");
    reveal_strlit("push_failed");
    reveal_strlit("question_answered");
    reveal_strlit("question_asked");
    reveal_strlit("rebase_scheduled");
    reveal_strlit("retry_exhausted");
    reveal_strlit("run_duration_exceeded");
    reveal_strlit("task_acknowledged");
    reveal_strlit("task_approved");
    reveal_strlit("task_cancelled");
    reveal_strlit("task_dispatch_judged");
    reveal_strlit("task_proposed");
    reveal_strlit("task_released");
    reveal_strlit("task_retried");
    reveal_strlit("validation_finished");
    reveal_strlit("validation_started");
    reveal_strlit("worker_liveness_changed");
    reveal_strlit("worker_redirected");
    reveal_strlit("worker_submission_recorded");
    reveal_strlit("worker_submitted");
    reveal_strlit("worker_turn_ended");
    reveal_strlit("worker_turn_launch_requested");
    reveal_strlit("worker_turn_resume_requested");
    reveal_strlit("worker_turn_started");
    reveal_strlit("worker_turn_unresolved");
    reveal_strlit("worktree_acquire_requested");
    reveal_strlit("worktree_acquired");
}

/// Distinct fact kinds are stored under distinct names.
pub proof fn lemma_fact_tag_names_distinct(a: FactTag, b: FactTag)
    ensures
        fact_tag_name_spec(a) == fact_tag_name_spec(b) ==> a == b,
{
    lemma_fact_tag_key(a);
    lemma_fact_tag_key(b);
}

/// Whether some fact kind is stored under `name`.
pub open spec fn names_fact_tag(name: Seq<char>) -> bool {
    exists|tag: FactTag| fact_tag_name_spec(tag) == name
}

/// The fact kind stored under `name`; an unknown name is a schema error.
pub fn fact_tag_from_name(name: &str) -> (r: Result<FactTag>)
    ensures
        match r {
            Ok(tag) => fact_tag_name_spec(tag) == name@,
            Err(e) => !names_fact_tag(name@) && e.kind() is Schema
                && e.detail() == "unknown fact kind `"@ + name@ + "`"@,
        },
{
    let mut i: usize = 0;
    while i < FACT_TAG_COUNT
        invariant
            i <= FACT_TAG_COUNT,
            forall|t: FactTag| fact_tag_index(t) < i ==> fact_tag_name_spec(t) != name@,
        decreases FACT_TAG_COUNT - i,
    {
        let tag = fact_tag_at(i);
        if str_eq(fact_tag_name(tag), name) {
            return Ok(tag);
        }
        assert forall|t: FactTag| fact_tag_index(t) < i + 1 implies fact_tag_name_spec(t) != name@ by {
            lemma_fact_tag_index(t, tag);
        }
        i += 1;
    }
    assert forall|t: FactTag| fact_tag_name_spec(t) != name@ by {
        lemma_fact_tag_index(t, t);
    }
    let mut message = String::new();
    push_str(&mut message, "unknown fact kind `");
    push_str(&mut message, name);
    push_str(&mut message, "`");
    Err(Error::Schema(message))
}

/// A fact kind is read back from the name it is stored under: `fact_tag_from_name`
/// returns `Ok(tag)` on `fact_tag_name(tag)`, and on no other kind's name.
pub proof fn lemma_fact_tag_round_trip(tag: FactTag, name: Seq<char>)
    requires
        name == fact_tag_name_spec(tag),
    ensures
        names_fact_tag(name),
        forall|other: FactTag| fact_tag_name_spec(other) == name ==> other == tag,
{
    assert forall|other: FactTag| fact_tag_name_spec(other) == name implies other == tag by {
        lemma_fact_tag_names_distinct(other, tag);
    }
}

/// The kind a fact is recorded as.
pub open spec fn fact_tag_spec(kind: FactKind) -> FactTag {
    match kind {
        FactKind::TaskDispatchJudged { .. } => FactTag::TaskDispatchJudged,
        FactKind::TaskProposed { .. } => FactTag::TaskProposed,
        FactKind::TaskReleased { .. } => FactTag::TaskReleased,
        FactKind::TaskApproved { .. } => FactTag::TaskApproved,
        FactKind::TaskCancelled { .. } => FactTag::TaskCancelled,
        FactKind::TaskRetried { .. } => FactTag::TaskRetried,
        FactKind::TaskAcknowledged { .. } => FactTag::TaskAcknowledged,
        FactKind::QuestionAsked { .. } => FactTag::QuestionAsked,
        FactKind::QuestionAnswered { .. } => FactTag::QuestionAnswered,
        FactKind::WorktreeAcquireRequested { .. } => FactTag::WorktreeAcquireRequested,
        FactKind::WorkerTurnLaunchRequested { .. } => FactTag::WorkerTurnLaunchRequested,
        FactKind::WorkerTurnResumeRequested { .. } => FactTag::WorkerTurnResumeRequested,
        FactKind::WorkerTurnUnresolved { .. } => FactTag::WorkerTurnUnresolved,
        FactKind::WorkerTurnStarted { .. } => FactTag::WorkerTurnStarted,
        FactKind::WorkerTurnEnded { .. } => FactTag::WorkerTurnEnded,
        FactKind::WorkerRedirected { .. } => FactTag::WorkerRedirected,
        FactKind::WorkerLivenessChanged { .. } => FactTag::WorkerLivenessChanged,
        FactKind::WorkerSubmissionRecorded { .. } => FactTag::WorkerSubmissionRecorded,
        FactKind::WorkerSubmitted { .. } => FactTag::WorkerSubmitted,
        FactKind::ValidationStarted { .. } => FactTag::ValidationStarted,
        FactKind::ValidationFinished { .. } => FactTag::ValidationFinished,
        FactKind::WorktreeAcquired { .. } => FactTag::WorktreeAcquired,
        FactKind::BranchPushed { .. } => FactTag::BranchPushed,
        FactKind::PullRequestOpened { .. } => FactTag::PullRequestOpened,
        FactKind::PullRequestChecksChanged { .. } => FactTag::PullRequestChecksChanged,
        FactKind::PullRequestMerged { .. } => FactTag::PullRequestMerged,
        FactKind::PullRequestClosedUnmerged { .. } => FactTag::PullRequestClosedUnmerged,
        FactKind::PullRequestMergeRefused { .. } => FactTag::PullRequestMergeRefused,
        FactKind::PushFailed { .. } => FactTag::PushFailed,
        FactKind::RebaseScheduled { .. } => FactTag::RebaseScheduled,
        FactKind::RunDurationExceeded { .. } => FactTag::RunDurationExceeded,
        FactKind::RetryExhausted { .. } => FactTag::RetryExhausted,
        FactKind::ProviderRateLimited { .. } => FactTag::ProviderRateLimited,
        FactKind::OnEventNotified { .. } => FactTag::OnEventNotified,
        FactKind::CoordinatorSessionStarted { .. } => FactTag::CoordinatorSessionStarted,
        FactKind::CoordinatorContextMeasured { .. } => FactTag::CoordinatorContextMeasured,
        FactKind::DaemonRestarted => FactTag::DaemonRestarted,
        FactKind::Polled => FactTag::Polled,
    }
}

pub fn fact_tag(kind: &FactKind) -> (r: FactTag)
    ensures
        r == fact_tag_spec(*kind),
{
    match kind {
        FactKind::TaskDispatchJudged { .. } => FactTag::TaskDispatchJudged,
        FactKind::TaskProposed { .. } => FactTag::TaskProposed,
        FactKind::TaskReleased { .. } => FactTag::TaskReleased,
        FactKind::TaskApproved { .. } => FactTag::TaskApproved,
        FactKind::TaskCancelled { .. } => FactTag::TaskCancelled,
        FactKind::TaskRetried { .. } => FactTag::TaskRetried,
        FactKind::TaskAcknowledged { .. } => FactTag::TaskAcknowledged,
        FactKind::QuestionAsked { .. } => FactTag::QuestionAsked,
        FactKind::QuestionAnswered { .. } => FactTag::QuestionAnswered,
        FactKind::WorktreeAcquireRequested { .. } => FactTag::WorktreeAcquireRequested,
        FactKind::WorkerTurnLaunchRequested { .. } => FactTag::WorkerTurnLaunchRequested,
        FactKind::WorkerTurnResumeRequested { .. } => FactTag::WorkerTurnResumeRequested,
        FactKind::WorkerTurnUnresolved { .. } => FactTag::WorkerTurnUnresolved,
        FactKind::WorkerTurnStarted { .. } => FactTag::WorkerTurnStarted,
        FactKind::WorkerTurnEnded { .. } => FactTag::WorkerTurnEnded,
        FactKind::WorkerRedirected { .. } => FactTag::WorkerRedirected,
        FactKind::WorkerLivenessChanged { .. } => FactTag::WorkerLivenessChanged,
        FactKind::WorkerSubmissionRecorded { .. } => FactTag::WorkerSubmissionRecorded,
        FactKind::WorkerSubmitted { .. } => FactTag::WorkerSubmitted,
        FactKind::ValidationStarted { .. } => FactTag::ValidationStarted,
        FactKind::ValidationFinished { .. } => FactTag::ValidationFinished,
        FactKind::WorktreeAcquired { .. } => FactTag::WorktreeAcquired,
        FactKind::BranchPushed { .. } => FactTag::BranchPushed,
        FactKind::PullRequestOpened { .. } => FactTag::PullRequestOpened,
        FactKind::PullRequestChecksChanged { .. } => FactTag::PullRequestChecksChanged,
        FactKind::PullRequestMerged { .. } => FactTag::PullRequestMerged,
        FactKind::PullRequestClosedUnmerged { .. } => FactTag::PullRequestClosedUnmerged,
        FactKind::PullRequestMergeRefused { .. } => FactTag::PullRequestMergeRefused,
        FactKind::PushFailed { .. } => FactTag::PushFailed,
        FactKind::RebaseScheduled { .. } => FactTag::RebaseScheduled,
        FactKind::RunDurationExceeded { .. } => FactTag::RunDurationExceeded,
        FactKind::RetryExhausted { .. } => FactTag::RetryExhausted,
        FactKind::ProviderRateLimited { .. } => FactTag::ProviderRateLimited,
        FactKind::OnEventNotified { .. } => FactTag::OnEventNotified,
        FactKind::CoordinatorSessionStarted { .. } => FactTag::CoordinatorSessionStarted,
        FactKind::CoordinatorContextMeasured { .. } => FactTag::CoordinatorContextMeasured,
        FactKind::DaemonRestarted => FactTag::DaemonRestarted,
        FactKind::Polled => FactTag::Polled,
    }
}

/// The task a fact is about; the facts about the coordinator and the daemon itself are
/// about none.
pub open spec fn fact_task_spec(kind: FactKind) -> Option<Seq<char>> {
    match kind {
        FactKind::TaskDispatchJudged { task, .. }
        | FactKind::TaskProposed { task, .. }
        | FactKind::TaskReleased { task, .. }
        | FactKind::TaskApproved { task, .. }
        | FactKind::TaskCancelled { task, .. }
        | FactKind::TaskRetried { task, .. }
        | FactKind::TaskAcknowledged { task, .. }
        | FactKind::QuestionAsked { task, .. }
        | FactKind::QuestionAnswered { task, .. }
        | FactKind::WorktreeAcquireRequested { task, .. }
        | FactKind::WorkerTurnLaunchRequested { task, .. }
        | FactKind::WorkerTurnResumeRequested { task, .. }
        | FactKind::WorkerTurnUnresolved { task, .. }
        | FactKind::WorkerTurnStarted { task, .. }
        | FactKind::WorkerTurnEnded { task, .. }
        | FactKind::WorkerRedirected { task, .. }
        | FactKind::WorkerLivenessChanged { task, .. }
        | FactKind::WorkerSubmissionRecorded { task, .. }
        | FactKind::WorkerSubmitted { task, .. }
        | FactKind::ValidationStarted { task, .. }
        | FactKind::ValidationFinished { task, .. }
        | FactKind::WorktreeAcquired { task, .. }
        | FactKind::BranchPushed { task, .. }
        | FactKind::PullRequestOpened { task, .. }
        | FactKind::PullRequestChecksChanged { task, .. }
        | FactKind::PullRequestMerged { task, .. }
        | FactKind::PullRequestClosedUnmerged { task, .. }
        | FactKind::PullRequestMergeRefused { task, .. }
        | FactKind::PushFailed { task, .. }
        | FactKind::RebaseScheduled { task, .. }
        | FactKind::RunDurationExceeded { task, .. }
        | FactKind::RetryExhausted { task, .. }
        | FactKind::ProviderRateLimited { task, .. }
        | FactKind::OnEventNotified { task, .. } => Some(task@),
        _ => None,
    }
}

pub fn fact_task(kind: &FactKind) -> (r: Option<String>)
    ensures
        match r {
            Some(task) => fact_task_spec(*kind) == Some(task@),
            None => fact_task_spec(*kind) is None,
        },
{
    match kind {
        FactKind::TaskDispatchJudged { task, .. }
        | FactKind::TaskProposed { task, .. }
        | FactKind::TaskReleased { task, .. }
        | FactKind::TaskApproved { task, .. }
        | FactKind::TaskCancelled { task, .. }
        | FactKind::TaskRetried { task, .. }
        | FactKind::TaskAcknowledged { task, .. }
        | FactKind::QuestionAsked { task, .. }
        | FactKind::QuestionAnswered { task, .. }
        | FactKind::WorktreeAcquireRequested { task, .. }
        | FactKind::WorkerTurnLaunchRequested { task, .. }
        | FactKind::WorkerTurnResumeRequested { task, .. }
        | FactKind::WorkerTurnUnresolved { task, .. }
        | FactKind::WorkerTurnStarted { task, .. }
        | FactKind::WorkerTurnEnded { task, .. }
        | FactKind::WorkerRedirected { task, .. }
        | FactKind::WorkerLivenessChanged { task, .. }
        | FactKind::WorkerSubmissionRecorded { task, .. }
        | FactKind::WorkerSubmitted { task, .. }
        | FactKind::ValidationStarted { task, .. }
        | FactKind::ValidationFinished { task, .. }
        | FactKind::WorktreeAcquired { task, .. }
        | FactKind::BranchPushed { task, .. }
        | FactKind::PullRequestOpened { task, .. }
        | FactKind::PullRequestChecksChanged { task, .. }
        | FactKind::PullRequestMerged { task, .. }
        | FactKind::PullRequestClosedUnmerged { task, .. }
        | FactKind::PullRequestMergeRefused { task, .. }
        | FactKind::PushFailed { task, .. }
        | FactKind::RebaseScheduled { task, .. }
        | FactKind::RunDurationExceeded { task, .. }
        | FactKind::RetryExhausted { task, .. }
        | FactKind::ProviderRateLimited { task, .. }
        | FactKind::OnEventNotified { task, .. } => Some(task.clone()),
        _ => None,
    }
}

} // verus!
