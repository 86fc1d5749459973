use depotd::commands::{parse_dependencies, resolve_base_dependency, Dependency, TaskRequest};
use depotd::error::Error;

fn dep(task: &str, commit: &str) -> Dependency {
    Dependency { task: task.to_string(), commit: commit.to_string() }
}

#[test]
fn dependencies_are_task_at_commit() {
    let items = vec!["t-1@abc".to_string(), "t-2@d@e".to_string()];
    assert_eq!(parse_dependencies(&items), Ok(vec![dep("t-1", "abc"), dep("t-2", "d@e")]));
    assert_eq!(parse_dependencies(&vec![]), Ok(vec![]));
    assert_eq!(
        parse_dependencies(&vec!["t-1@a".to_string(), "t-2".to_string(), "t-3".to_string()]),
        Err(Error::Config("`t-2` is not a dependency: write it as `<task>@<commit>`".to_string()))
    );
}

#[test]
fn the_base_dependency_must_be_one_of_them() {
    let deps = vec![dep("t-1", "a"), dep("t-2", "b")];
    assert_eq!(resolve_base_dependency(Some("t-2"), &deps), Ok(Some("t-2".to_string())));
    assert_eq!(
        resolve_base_dependency(Some("t-9"), &deps),
        Err(Error::Config("`--base-dependency t-9` must name one of the --depends-on tasks".to_string()))
    );
    assert_eq!(
        resolve_base_dependency(None, &deps),
        Err(Error::Config(
            "multiple --depends-on need --base-dependency <task-id> naming one of them".to_string()
        ))
    );
    assert_eq!(resolve_base_dependency(None, &deps[..1]), Ok(None));
    assert_eq!(resolve_base_dependency(None, &[]), Ok(None));
}

#[test]
fn a_task_request_carries_what_the_command_line_gave() {
    let request = TaskRequest {
        title: "t".to_string(),
        intent: "i".to_string(),
        role: String::new(),
        dependencies: vec!["t-1@a".to_string()],
        base_dependency: None,
        hold_pr: false,
    };
    assert_eq!(parse_dependencies(&request.dependencies), Ok(vec![dep("t-1", "a")]));
    assert_eq!(request.clone(), request);
}

use depotd::commands::{
    parse_answered_by, parse_role, prepare_answer, prepare_approve, prepare_stop, Prepared,
};
use depotd::names::{AnsweredBy, Role, TaskState};
use depotd::records::Timestamp;
use depotd::tasks::{Question, Task};

fn record(state: TaskState) -> Task {
    Task {
        id: "t-3".to_string(),
        title: "a task".to_string(),
        intent: String::new(),
        role: Role::Build,
        state,
        in_flight: false,
        created_at: Timestamp::from_millis(0),
        attempts: Vec::new(),
        dependencies: Vec::new(),
        rework_of: None,
        pull_request: None,
        conflict_base: None,
        hold_pr: false,
        merge_refused: None,
        release_held: Vec::new(),
        failure: None,
        turn_deferral: None,
        redirect_text: None,
        redirect_delivered: false,
        questions: Vec::new(),
        artifacts: Vec::new(),
        validations: Vec::new(),
        retry_not_before: None,
        branch_head: None,
        validated_commit: None,
    }
}

fn project_message(result: Result<impl std::fmt::Debug, Error>) -> String {
    match result {
        Err(Error::Project(m)) => m,
        other => panic!("expected a project error, got {other:?}"),
    }
}

#[test]
fn approving_follows_the_task_state() {
    assert_eq!(prepare_approve(&record(TaskState::Proposed)).unwrap(), Prepared::Apply);
    assert_eq!(prepare_approve(&record(TaskState::Approved)).unwrap(), Prepared::AlreadyDone);
    assert_eq!(
        project_message(prepare_approve(&record(TaskState::Failed))),
        "task `t-3` is failed and cannot be approved; run `depot task retry t-3` to send it back to the approved queue"
    );
    assert_eq!(
        project_message(prepare_approve(&record(TaskState::Running))),
        "task `t-3` is running and cannot be approved"
    );
}

#[test]
fn stopping_refuses_only_a_landed_task() {
    assert_eq!(prepare_stop(&record(TaskState::Running)).unwrap(), Prepared::Apply);
    assert_eq!(prepare_stop(&record(TaskState::Cancelled)).unwrap(), Prepared::AlreadyDone);
    assert_eq!(
        project_message(prepare_stop(&record(TaskState::Landed))),
        "task `t-3` is landed and cannot be stopped"
    );
}

#[test]
fn an_answer_goes_to_the_latest_unanswered_question() {
    let mut t = record(TaskState::WaitingOnQuestion);
    assert_eq!(
        project_message(prepare_answer(&t)),
        "task `t-3` is waiting_on_question and has no unanswered question"
    );
    t.questions = vec![
        Question { text: "a".to_string(), answer: None },
        Question { text: "b".to_string(), answer: None },
        Question { text: "c".to_string(), answer: Some("yes".to_string()) },
    ];
    assert_eq!(prepare_answer(&t).unwrap(), 1);
}

#[test]
fn roles_and_answerers_are_read_by_name() {
    assert_eq!(parse_role("review").unwrap(), Role::Review);
    assert!(matches!(parse_role("boss"), Err(Error::Config(ref m)) if m == "unknown role `boss`: expected one of plan, build, review, fix"));
    assert_eq!(parse_answered_by("user").unwrap(), AnsweredBy::User);
    assert!(matches!(parse_answered_by("bot"), Err(Error::Config(ref m)) if m == "unknown answerer `bot`: expected `coordinator` or `user`"));
}
