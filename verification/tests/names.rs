use depotd::adapters::forge::Checks;
use depotd::error::Error;
use depotd::names::{
    answered_by_from_name, answered_by_name, artifact_kind_from_name, artifact_kind_name,
    checks_from_name, checks_name, outcome_from_name, outcome_name, role_from_name, role_name,
    state_from_name, state_name, AnsweredBy, ArtifactKind, AttemptOutcome, Role, TaskState,
};

#[test]
fn every_stored_name_reads_back() {
    for role in [Role::Plan, Role::Build, Role::Review, Role::Fix] {
        assert_eq!(role_from_name(role_name(role)), Some(role));
    }
    for state in [
        TaskState::Proposed,
        TaskState::Approved,
        TaskState::Running,
        TaskState::WaitingOnQuestion,
        TaskState::Validating,
        TaskState::Validated,
        TaskState::PrOpen,
        TaskState::Landed,
        TaskState::Failed,
        TaskState::Cancelled,
    ] {
        assert_eq!(state_from_name(state_name(state)), Ok(state));
    }
    for outcome in [
        AttemptOutcome::InFlight,
        AttemptOutcome::Submitted,
        AttemptOutcome::Stopped,
        AttemptOutcome::Failed,
        AttemptOutcome::Unknown,
    ] {
        assert_eq!(outcome_from_name(outcome_name(outcome)), Ok(outcome));
    }
    for checks in [Checks::Unknown, Checks::Pending, Checks::Passing, Checks::Failing] {
        assert_eq!(checks_from_name(checks_name(checks)), Ok(checks));
    }
    for by in [AnsweredBy::Coordinator, AnsweredBy::User] {
        assert_eq!(answered_by_from_name(answered_by_name(by)), Some(by));
    }
    for kind in [ArtifactKind::Brief, ArtifactKind::Evidence, ArtifactKind::Media] {
        assert_eq!(artifact_kind_from_name(artifact_kind_name(kind)), Ok(kind));
    }
}

#[test]
fn names_are_snake_case_words() {
    assert_eq!(state_name(TaskState::WaitingOnQuestion), "waiting_on_question");
    assert_eq!(state_name(TaskState::PrOpen), "pr_open");
    assert_eq!(outcome_name(AttemptOutcome::InFlight), "in_flight");
    assert_eq!(role_name(Role::Review), "review");
}

#[test]
fn unknown_names_are_refused() {
    assert_eq!(role_from_name("Build"), None);
    assert_eq!(answered_by_from_name("bot"), None);
    assert_eq!(state_from_name("done"), Err(Error::Schema("unknown task state `done`".to_string())));
    assert_eq!(outcome_from_name(""), Err(Error::Schema("unknown attempt outcome ``".to_string())));
    assert_eq!(checks_from_name("green"), Err(Error::Schema("unknown checks state `green`".to_string())));
    assert_eq!(artifact_kind_from_name("log"), Err(Error::Schema("unknown artifact kind `log`".to_string())));
}
