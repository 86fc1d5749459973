//! The names the store records task states, roles, attempt outcomes, check verdicts,
//! answerers and artifact kinds under, and reading them back.
use vstd::prelude::*;

use crate::adapters::forge::Checks;
use crate::error::{Error, ErrorKind};
use crate::text::{push_str, str_eq};

verus! {
/// The role a task is worked in, which picks the profile its worker runs with.
#[derive(Debug, Clone, Copy, PartialEq, Eq, Structural, PartialOrd, Ord, Hash)]
pub enum Role {
    /// Plans the work.
    Plan,
    /// Builds the change.
    Build,
    /// Reviews a pull request.
    Review,
    /// Fixes a failed or conflicted change.
    Fix,
}

/// The name a role is stored under.
pub open spec fn role_name_spec(value: Role) -> Seq<char> {
    match value {
        Role::Plan => "plan"@,
        Role::Build => "build"@,
        Role::Review => "review"@,
        Role::Fix => "fix"@,
    }
}

pub fn role_name(value: Role) -> (r: &'static str)
    ensures
        r@ == role_name_spec(value),
{
    match value {
        Role::Plan => "plan",
        Role::Build => "build",
        Role::Review => "review",
        Role::Fix => "fix",
    }
}

/// A role reads back from the name it is stored under: no other role is
/// stored under that name.
pub proof fn lemma_role_names_distinct(a: Role, b: Role)
    ensures
        role_name_spec(a) == role_name_spec(b) ==> a == b,
{
    reveal_strlit("plan");
    reveal_strlit("build");
    reveal_strlit("review");
    reveal_strlit("fix");
    if role_name_spec(a) == role_name_spec(b) {
        match a {
            Role::Plan => assert(role_name_spec(a).len() == 4 && role_name_spec(a)[0] == 'p' && role_name_spec(a)[1] == 'l' && role_name_spec(a)[3] == 'n'),
            Role::Build => assert(role_name_spec(a).len() == 5 && role_name_spec(a)[0] == 'b' && role_name_spec(a)[1] == 'u' && role_name_spec(a)[4] == 'd'),
            Role::Review => assert(role_name_spec(a).len() == 6 && role_name_spec(a)[0] == 'r' && role_name_spec(a)[1] == 'e' && role_name_spec(a)[5] == 'w'),
            Role::Fix => assert(role_name_spec(a).len() == 3 && role_name_spec(a)[0] == 'f' && role_name_spec(a)[1] == 'i' && role_name_spec(a)[2] == 'x'),
        }
    }
}

/// The role stored under `name`, if any.
pub fn role_from_name(name: &str) -> (r: Option<Role>)
    ensures
        match r {
            Some(value) => role_name_spec(value) == name@,
            None => forall|v: Role| role_name_spec(v) != name@,
        },
{
    if str_eq(name, "plan") {
        Some(Role::Plan)
    } else if str_eq(name, "build") {
        Some(Role::Build)
    } else if str_eq(name, "review") {
        Some(Role::Review)
    } else if str_eq(name, "fix") {
        Some(Role::Fix)
    } else {
        None
    }
}

/// Where a task stands in its lifecycle.
#[derive(Debug, Clone, Copy, PartialEq, Eq, Structural, PartialOrd, Ord, Hash)]
pub enum TaskState {
    /// Filed, not yet approved.
    Proposed,
    /// Approved and waiting for a slot.
    Approved,
    /// A worker turn is running.
    Running,
    /// The worker asked a question that awaits an answer.
    WaitingOnQuestion,
    /// The submitted commit is being validated.
    Validating,
    /// The submitted commit passed validation.
    Validated,
    /// Its pull request is open.
    PrOpen,
    /// Its pull request merged.
    Landed,
    /// It stopped making progress.
    Failed,
    /// It was cancelled.
    Cancelled,
}

/// The name a task state is stored under.
pub open spec fn state_name_spec(value: TaskState) -> Seq<char> {
    match value {
        TaskState::Proposed => "proposed"@,
        TaskState::Approved => "approved"@,
        TaskState::Running => "running"@,
        TaskState::WaitingOnQuestion => "waiting_on_question"@,
        TaskState::Validating => "validating"@,
        TaskState::Validated => "validated"@,
        TaskState::PrOpen => "pr_open"@,
        TaskState::Landed => "landed"@,
        TaskState::Failed => "failed"@,
        TaskState::Cancelled => "cancelled"@,
    }
}

pub fn state_name(value: TaskState) -> (r: &'static str)
    ensures
        r@ == state_name_spec(value),
{
    match value {
        TaskState::Proposed => "proposed",
        TaskState::Approved => "approved",
        TaskState::Running => "running",
        TaskState::WaitingOnQuestion => "waiting_on_question",
        TaskState::Validating => "validating",
        TaskState::Validated => "validated",
        TaskState::PrOpen => "pr_open",
        TaskState::Landed => "landed",
        TaskState::Failed => "failed",
        TaskState::Cancelled => "cancelled",
    }
}

/// A task state reads back from the name it is stored under: no other task state is
/// stored under that name.
pub proof fn lemma_state_names_distinct(a: TaskState, b: TaskState)
    ensures
        state_name_spec(a) == state_name_spec(b) ==> a == b,
{
    reveal_strlit("proposed");
    reveal_strlit("approved");
    reveal_strlit("running");
    reveal_strlit("waiting_on_question");
    reveal_strlit("validating");
    reveal_strlit("validated");
    reveal_strlit("pr_open");
    reveal_strlit("landed");
    reveal_strlit("failed");
    reveal_strlit("cancelled");
    if state_name_spec(a) == state_name_spec(b) {
        match a {
            TaskState::Proposed => assert(state_name_spec(a).len() == 8 && state_name_spec(a)[0] == 'p' && state_name_spec(a)[1] == 'r' && state_name_spec(a)[7] == 'd'),
            TaskState::Approved => assert(state_name_spec(a).len() == 8 && state_name_spec(a)[0] == 'a' && state_name_spec(a)[1] == 'p' && state_name_spec(a)[7] == 'd'),
            TaskState::Running => assert(state_name_spec(a).len() == 7 && state_name_spec(a)[0] == 'r' && state_name_spec(a)[1] == 'u' && state_name_spec(a)[6] == 'g'),
            TaskState::WaitingOnQuestion => assert(state_name_spec(a).len() == 19 && state_name_spec(a)[0] == 'w' && state_name_spec(a)[1] == 'a' && state_name_spec(a)[18] == 'n'),
            TaskState::Validating => assert(state_name_spec(a).len() == 10 && state_name_spec(a)[0] == 'v' && state_name_spec(a)[1] == 'a' && state_name_spec(a)[9] == 'g'),
            TaskState::Validated => assert(state_name_spec(a).len() == 9 && state_name_spec(a)[0] == 'v' && state_name_spec(a)[1] == 'a' && state_name_spec(a)[8] == 'd'),
            TaskState::PrOpen => assert(state_name_spec(a).len() == 7 && state_name_spec(a)[0] == 'p' && state_name_spec(a)[1] == 'r' && state_name_spec(a)[6] == 'n'),
            TaskState::Landed => assert(state_name_spec(a).len() == 6 && state_name_spec(a)[0] == 'l' && state_name_spec(a)[1] == 'a' && state_name_spec(a)[5] == 'd'),
            TaskState::Failed => assert(state_name_spec(a).len() == 6 && state_name_spec(a)[0] == 'f' && state_name_spec(a)[1] == 'a' && state_name_spec(a)[5] == 'd'),
            TaskState::Cancelled => assert(state_name_spec(a).len() == 9 && state_name_spec(a)[0] == 'c' && state_name_spec(a)[1] == 'a' && state_name_spec(a)[8] == 'd'),
        }
    }
}

/// The task state stored under `name`; an unknown name is a schema error.
pub fn state_from_name(name: &str) -> (r: Result<TaskState, Error>)
    ensures
        match r {
            Ok(value) => state_name_spec(value) == name@,
            Err(e) => (forall|v: TaskState| state_name_spec(v) != name@) && e.kind() == ErrorKind::Schema && e.detail() == "unknown task state `"@ + name@ + "`"@,
        },
{
    if str_eq(name, "proposed") {
        Ok(TaskState::Proposed)
    } else if str_eq(name, "approved") {
        Ok(TaskState::Approved)
    } else if str_eq(name, "running") {
        Ok(TaskState::Running)
    } else if str_eq(name, "waiting_on_question") {
        Ok(TaskState::WaitingOnQuestion)
    } else if str_eq(name, "validating") {
        Ok(TaskState::Validating)
    } else if str_eq(name, "validated") {
        Ok(TaskState::Validated)
    } else if str_eq(name, "pr_open") {
        Ok(TaskState::PrOpen)
    } else if str_eq(name, "landed") {
        Ok(TaskState::Landed)
    } else if str_eq(name, "failed") {
        Ok(TaskState::Failed)
    } else if str_eq(name, "cancelled") {
        Ok(TaskState::Cancelled)
    } else {
        let mut message = String::new();
        push_str(&mut message, "unknown task state `");
        push_str(&mut message, name);
        push_str(&mut message, "`");
        Err(Error::Schema(message))
    }
}

/// How a worker attempt at a task ended, if it has.
#[derive(Debug, Clone, Copy, PartialEq, Eq, Structural, PartialOrd, Ord, Hash)]
pub enum AttemptOutcome {
    /// Still running.
    InFlight,
    /// The worker submitted a commit.
    Submitted,
    /// The attempt was stopped.
    Stopped,
    /// The attempt failed.
    Failed,
    /// How it ended is not known.
    Unknown,
}

/// The name an attempt outcome is stored under.
pub open spec fn outcome_name_spec(value: AttemptOutcome) -> Seq<char> {
    match value {
        AttemptOutcome::InFlight => "in_flight"@,
        AttemptOutcome::Submitted => "submitted"@,
        AttemptOutcome::Stopped => "stopped"@,
        AttemptOutcome::Failed => "failed"@,
        AttemptOutcome::Unknown => "unknown"@,
    }
}

pub fn outcome_name(value: AttemptOutcome) -> (r: &'static str)
    ensures
        r@ == outcome_name_spec(value),
{
    match value {
        AttemptOutcome::InFlight => "in_flight",
        AttemptOutcome::Submitted => "submitted",
        AttemptOutcome::Stopped => "stopped",
        AttemptOutcome::Failed => "failed",
        AttemptOutcome::Unknown => "unknown",
    }
}

/// An attempt outcome reads back from the name it is stored under: no other attempt outcome is
/// stored under that name.
pub proof fn lemma_outcome_names_distinct(a: AttemptOutcome, b: AttemptOutcome)
    ensures
        outcome_name_spec(a) == outcome_name_spec(b) ==> a == b,
{
    reveal_strlit("in_flight");
    reveal_strlit("submitted");
    reveal_strlit("stopped");
    reveal_strlit("failed");
    reveal_strlit("unknown");
    if outcome_name_spec(a) == outcome_name_spec(b) {
        match a {
            AttemptOutcome::InFlight => assert(outcome_name_spec(a).len() == 9 && outcome_name_spec(a)[0] == 'i' && outcome_name_spec(a)[1] == 'n' && outcome_name_spec(a)[8] == 't'),
            AttemptOutcome::Submitted => assert(outcome_name_spec(a).len() == 9 && outcome_name_spec(a)[0] == 's' && outcome_name_spec(a)[1] == 'u' && outcome_name_spec(a)[8] == 'd'),
            AttemptOutcome::Stopped => assert(outcome_name_spec(a).len() == 7 && outcome_name_spec(a)[0] == 's' && outcome_name_spec(a)[1] == 't' && outcome_name_spec(a)[6] == 'd'),
            AttemptOutcome::Failed => assert(outcome_name_spec(a).len() == 6 && outcome_name_spec(a)[0] == 'f' && outcome_name_spec(a)[1] == 'a' && outcome_name_spec(a)[5] == 'd'),
            AttemptOutcome::Unknown => assert(outcome_name_spec(a).len() == 7 && outcome_name_spec(a)[0] == 'u' && outcome_name_spec(a)[1] == 'n' && outcome_name_spec(a)[6] == 'n'),
        }
    }
}

/// The attempt outcome stored under `name`; an unknown name is a schema error.
pub fn outcome_from_name(name: &str) -> (r: Result<AttemptOutcome, Error>)
    ensures
        match r {
            Ok(value) => outcome_name_spec(value) == name@,
            Err(e) => (forall|v: AttemptOutcome| outcome_name_spec(v) != name@) && e.kind() == ErrorKind::Schema && e.detail() == "unknown attempt outcome `"@ + name@ + "`"@,
        },
{
    if str_eq(name, "in_flight") {
        Ok(AttemptOutcome::InFlight)
    } else if str_eq(name, "submitted") {
        Ok(AttemptOutcome::Submitted)
    } else if str_eq(name, "stopped") {
        Ok(AttemptOutcome::Stopped)
    } else if str_eq(name, "failed") {
        Ok(AttemptOutcome::Failed)
    } else if str_eq(name, "unknown") {
        Ok(AttemptOutcome::Unknown)
    } else {
        let mut message = String::new();
        push_str(&mut message, "unknown attempt outcome `");
        push_str(&mut message, name);
        push_str(&mut message, "`");
        Err(Error::Schema(message))
    }
}

/// Who answered a worker's question.
#[derive(Debug, Clone, Copy, PartialEq, Eq, Structural, PartialOrd, Ord, Hash)]
pub enum AnsweredBy {
    /// The coordinator session.
    Coordinator,
    /// The user.
    User,
}

/// The name an answerer is stored under.
pub open spec fn answered_by_name_spec(value: AnsweredBy) -> Seq<char> {
    match value {
        AnsweredBy::Coordinator => "coordinator"@,
        AnsweredBy::User => "user"@,
    }
}

pub fn answered_by_name(value: AnsweredBy) -> (r: &'static str)
    ensures
        r@ == answered_by_name_spec(value),
{
    match value {
        AnsweredBy::Coordinator => "coordinator",
        AnsweredBy::User => "user",
    }
}

/// An answerer reads back from the name it is stored under: no other answerer is
/// stored under that name.
pub proof fn lemma_answered_by_names_distinct(a: AnsweredBy, b: AnsweredBy)
    ensures
        answered_by_name_spec(a) == answered_by_name_spec(b) ==> a == b,
{
    reveal_strlit("coordinator");
    reveal_strlit("user");
    if answered_by_name_spec(a) == answered_by_name_spec(b) {
        match a {
            AnsweredBy::Coordinator => assert(answered_by_name_spec(a).len() == 11 && answered_by_name_spec(a)[0] == 'c' && answered_by_name_spec(a)[1] == 'o' && answered_by_name_spec(a)[10] == 'r'),
            AnsweredBy::User => assert(answered_by_name_spec(a).len() == 4 && answered_by_name_spec(a)[0] == 'u' && answered_by_name_spec(a)[1] == 's' && answered_by_name_spec(a)[3] == 'r'),
        }
    }
}

/// The answerer stored under `name`, if any.
pub fn answered_by_from_name(name: &str) -> (r: Option<AnsweredBy>)
    ensures
        match r {
            Some(value) => answered_by_name_spec(value) == name@,
            None => forall|v: AnsweredBy| answered_by_name_spec(v) != name@,
        },
{
    if str_eq(name, "coordinator") {
        Some(AnsweredBy::Coordinator)
    } else if str_eq(name, "user") {
        Some(AnsweredBy::User)
    } else {
        None
    }
}

/// What an artifact kept for a task is.
#[derive(Debug, Clone, Copy, PartialEq, Eq, Structural, PartialOrd, Ord, Hash)]
pub enum ArtifactKind {
    /// A worker's brief.
    Brief,
    /// Evidence of the change.
    Evidence,
    /// Media attached to the task.
    Media,
}

/// The name an artifact kind is stored under.
pub open spec fn artifact_kind_name_spec(value: ArtifactKind) -> Seq<char> {
    match value {
        ArtifactKind::Brief => "brief"@,
        ArtifactKind::Evidence => "evidence"@,
        ArtifactKind::Media => "media"@,
    }
}

pub fn artifact_kind_name(value: ArtifactKind) -> (r: &'static str)
    ensures
        r@ == artifact_kind_name_spec(value),
{
    match value {
        ArtifactKind::Brief => "brief",
        ArtifactKind::Evidence => "evidence",
        ArtifactKind::Media => "media",
    }
}

/// An artifact kind reads back from the name it is stored under: no other artifact kind is
/// stored under that name.
pub proof fn lemma_artifact_kind_names_distinct(a: ArtifactKind, b: ArtifactKind)
    ensures
        artifact_kind_name_spec(a) == artifact_kind_name_spec(b) ==> a == b,
{
    reveal_strlit("brief");
    reveal_strlit("evidence");
    reveal_strlit("media");
    if artifact_kind_name_spec(a) == artifact_kind_name_spec(b) {
        match a {
            ArtifactKind::Brief => assert(artifact_kind_name_spec(a).len() == 5 && artifact_kind_name_spec(a)[0] == 'b' && artifact_kind_name_spec(a)[1] == 'r' && artifact_kind_name_spec(a)[4] == 'f'),
            ArtifactKind::Evidence => assert(artifact_kind_name_spec(a).len() == 8 && artifact_kind_name_spec(a)[0] == 'e' && artifact_kind_name_spec(a)[1] == 'v' && artifact_kind_name_spec(a)[7] == 'e'),
            ArtifactKind::Media => assert(artifact_kind_name_spec(a).len() == 5 && artifact_kind_name_spec(a)[0] == 'm' && artifact_kind_name_spec(a)[1] == 'e' && artifact_kind_name_spec(a)[4] == 'a'),
        }
    }
}

/// The artifact kind stored under `name`; an unknown name is a schema error.
pub fn artifact_kind_from_name(name: &str) -> (r: Result<ArtifactKind, Error>)
    ensures
        match r {
            Ok(value) => artifact_kind_name_spec(value) == name@,
            Err(e) => (forall|v: ArtifactKind| artifact_kind_name_spec(v) != name@) && e.kind() == ErrorKind::Schema && e.detail() == "unknown artifact kind `"@ + name@ + "`"@,
        },
{
    if str_eq(name, "brief") {
        Ok(ArtifactKind::Brief)
    } else if str_eq(name, "evidence") {
        Ok(ArtifactKind::Evidence)
    } else if str_eq(name, "media") {
        Ok(ArtifactKind::Media)
    } else {
        let mut message = String::new();
        push_str(&mut message, "unknown artifact kind `");
        push_str(&mut message, name);
        push_str(&mut message, "`");
        Err(Error::Schema(message))
    }
}

/// The name a checks verdict is stored under.
pub open spec fn checks_name_spec(value: Checks) -> Seq<char> {
    match value {
        Checks::Unknown => "unknown"@,
        Checks::Pending => "pending"@,
        Checks::Passing => "passing"@,
        Checks::Failing => "failing"@,
    }
}

pub fn checks_name(value: Checks) -> (r: &'static str)
    ensures
        r@ == checks_name_spec(value),
{
    match value {
        Checks::Unknown => "unknown",
        Checks::Pending => "pending",
        Checks::Passing => "passing",
        Checks::Failing => "failing",
    }
}

/// A checks verdict reads back from the name it is stored under: no other verdict is
/// stored under that name.
pub proof fn lemma_checks_names_distinct(a: Checks, b: Checks)
    ensures
        checks_name_spec(a) == checks_name_spec(b) ==> a == b,
{
    reveal_strlit("unknown");
    reveal_strlit("pending");
    reveal_strlit("passing");
    reveal_strlit("failing");
    if checks_name_spec(a) == checks_name_spec(b) {
        match a {
            Checks::Unknown => assert(checks_name_spec(a).len() == 7 && checks_name_spec(a)[0] == 'u' && checks_name_spec(a)[1] == 'n' && checks_name_spec(a)[6] == 'n'),
            Checks::Pending => assert(checks_name_spec(a).len() == 7 && checks_name_spec(a)[0] == 'p' && checks_name_spec(a)[1] == 'e' && checks_name_spec(a)[6] == 'g'),
            Checks::Passing => assert(checks_name_spec(a).len() == 7 && checks_name_spec(a)[0] == 'p' && checks_name_spec(a)[1] == 'a' && checks_name_spec(a)[6] == 'g'),
            Checks::Failing => assert(checks_name_spec(a).len() == 7 && checks_name_spec(a)[0] == 'f' && checks_name_spec(a)[1] == 'a' && checks_name_spec(a)[6] == 'g'),
        }
    }
}

/// The checks verdict stored under `name`; an unknown name is a schema error.
pub fn checks_from_name(name: &str) -> (r: Result<Checks, Error>)
    ensures
        match r {
            Ok(value) => checks_name_spec(value) == name@,
            Err(e) => (forall|v: Checks| checks_name_spec(v) != name@) && e.kind() == ErrorKind::Schema && e.detail() == "unknown checks state `"@ + name@ + "`"@,
        },
{
    if str_eq(name, "unknown") {
        Ok(Checks::Unknown)
    } else if str_eq(name, "pending") {
        Ok(Checks::Pending)
    } else if str_eq(name, "passing") {
        Ok(Checks::Passing)
    } else if str_eq(name, "failing") {
        Ok(Checks::Failing)
    } else {
        let mut message = String::new();
        push_str(&mut message, "unknown checks state `");
        push_str(&mut message, name);
        push_str(&mut message, "`");
        Err(Error::Schema(message))
    }
}

} // verus!
