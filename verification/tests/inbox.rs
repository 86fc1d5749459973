use depotd::inbox::{earlier_line, fact_count, hidden_runs, liveness_line, render_inbox, InboxEntry, Need};
use depotd::records::Timestamp;
use depotd::error::Error;

fn entry(at_secs: u64, line: &str, need: Need) -> InboxEntry {
    InboxEntry {
        at: Timestamp::from_millis(at_secs * 1000),
        task: None,
        line: line.to_string(),
        need,
    }
}

#[test]
fn an_empty_inbox_says_so() {
    assert_eq!(render_inbox(&[]), "# Inbox\n\nNo facts since your last turn.\n");
}

#[test]
fn facts_are_grouped_by_need_and_repeats_collapse() {
    let entries = vec![
        entry(0, "the daemon polled", Need::Nothing),
        entry(60, "t-1 asked a question", Need::User),
        entry(120, "the daemon polled", Need::Nothing),
        entry(180, "t-2 failed", Need::Coordinator),
    ];
    assert_eq!(
        render_inbox(&entries),
        "# Inbox\n\n4 facts since your last turn.\n\
         \n## For the user (1)\n- t-1 asked a question at 1970-01-01T00:01:00Z\n\
         \n## For you (1)\n- t-2 failed at 1970-01-01T00:03:00Z\n\
         \n## No action (2)\n- the daemon polled at 1970-01-01T00:00:00Z (2 times through 1970-01-01T00:02:00Z)\n"
    );
}

#[test]
fn only_the_last_ten_no_action_runs_are_shown() {
    let entries: Vec<InboxEntry> = (0..12)
        .map(|i| entry(i, &format!("fact {i}"), Need::Nothing))
        .collect();
    let inbox = render_inbox(&entries);
    assert!(inbox.contains("- ... and 2 earlier no-action facts\n"), "{inbox}");
    assert!(!inbox.contains("fact 1 at"), "{inbox}");
    assert!(inbox.contains("fact 11 at"), "{inbox}");
    assert_eq!(hidden_runs(12), 2);
    assert_eq!(hidden_runs(10), 0);
}

#[test]
fn counts_and_headings_read_as_words() {
    assert_eq!(fact_count(1), "1 fact");
    assert_eq!(fact_count(0), "0 facts");
    assert_eq!(fact_count(7), "7 facts");
    assert_eq!(earlier_line(3), "- ... and 3 earlier no-action facts\n");
    assert_eq!(Need::User.heading(), "For the user");
    assert_eq!(Need::Coordinator.heading(), "For you");
    assert_eq!(Need::Nothing.heading(), "No action");
}

#[test]
fn a_liveness_fact_reads_its_payload() {
    assert_eq!(liveness_line("{\"liveness\":\"live\"}"), Ok("the worker is live".to_string()));
    assert_eq!(liveness_line("{\"liveness\":\"gone\"}"), Ok("the worker is gone".to_string()));
    assert_eq!(
        liveness_line("{\"other\":1}"),
        Err(Error::Schema("a fact payload carries no liveness".to_string()))
    );
    assert!(matches!(liveness_line("not json"), Err(Error::Schema(_))));
}

use depotd::inbox::{headline, inbox_entries, line_for, need_for};
use depotd::names::{Role, TaskState};
use depotd::store::RecordedEvent;
use depotd::tasks::{PullRequestRecord, Question, Task, ValidationRecord};
use depotd::adapters::forge::Checks;
use depotd::vocabulary::FactTag;

fn a_task(id: &str, state: TaskState) -> Task {
    Task {
        id: id.to_string(),
        title: "Fix\tit".to_string(),
        intent: String::new(),
        role: Role::Build,
        state,
        in_flight: false,
        created_at: Timestamp::from_millis(0),
        attempts: Vec::new(),
        dependencies: Vec::new(),
        rework_of: None,
        pull_request: None,
        conflict_base: None,
        hold_pr: false,
        merge_refused: None,
        release_held: Vec::new(),
        failure: None,
        turn_deferral: None,
        redirect_text: None,
        redirect_delivered: false,
        questions: Vec::new(),
        artifacts: Vec::new(),
        validations: Vec::new(),
        retry_not_before: None,
        branch_head: None,
        validated_commit: None,
    }
}

fn event(id: u64, kind: &str, payload: &str, task: Option<&str>) -> RecordedEvent {
    RecordedEvent {
        id,
        project: "/work/demo".to_string(),
        key: format!("k-{id}"),
        at: Timestamp::from_millis(id * 1000),
        kind: kind.to_string(),
        payload: payload.to_string(),
        task: task.map(str::to_string),
    }
}

#[test]
fn questions_are_for_the_user_while_the_task_waits_on_them() {
    let mut t = a_task("t-1", TaskState::WaitingOnQuestion);
    assert_eq!(need_for(FactTag::QuestionAsked, Some(&t)), Need::User);
    t.state = TaskState::Running;
    assert_eq!(need_for(FactTag::QuestionAsked, Some(&t)), Need::Nothing);
    t.questions.push(Question { text: "q".to_string(), answer: None });
    assert_eq!(need_for(FactTag::QuestionAsked, Some(&t)), Need::Coordinator);
    assert_eq!(need_for(FactTag::QuestionAsked, None), Need::Nothing);
}

#[test]
fn failures_are_for_the_user_once_the_task_failed() {
    let failed = a_task("t-1", TaskState::Failed);
    let running = a_task("t-2", TaskState::Running);
    let open = a_task("t-3", TaskState::PrOpen);
    assert_eq!(need_for(FactTag::PushFailed, Some(&failed)), Need::User);
    assert_eq!(need_for(FactTag::PushFailed, Some(&running)), Need::Nothing);
    assert_eq!(need_for(FactTag::PullRequestMergeRefused, Some(&open)), Need::User);
    assert_eq!(need_for(FactTag::PullRequestMergeRefused, Some(&failed)), Need::Nothing);
    assert_eq!(need_for(FactTag::TaskApproved, Some(&failed)), Need::Nothing);
}

#[test]
fn headlines_read_the_task_and_the_payload() {
    let mut t = a_task("t-1", TaskState::PrOpen);
    assert_eq!(headline(FactTag::TaskApproved, "{}", Some(&t)).unwrap(), "approved");
    assert_eq!(
        headline(FactTag::PushFailed, "{\"reason\":\"rejected\\nagain\"}", Some(&t)).unwrap(),
        "the push was rejected: rejected again"
    );
    assert!(headline(FactTag::PushFailed, "{}", Some(&t)).is_err());
    assert_eq!(
        headline(FactTag::WorkerRedirected, "not json", None).unwrap(),
        "a new direction was queued for the worker"
    );
    assert_eq!(
        headline(FactTag::PullRequestMergeRefused, "{\"reason\":\"conflict\"}", Some(&t)).unwrap(),
        "the forge refused to merge: conflict"
    );
    t.pull_request = Some(PullRequestRecord { number: 4, url: "https://x/4".to_string(), checks: Checks::Passing });
    assert_eq!(
        headline(FactTag::PullRequestMergeRefused, "{\"reason\":\"conflict\"}", Some(&t)).unwrap(),
        "the forge refused to merge pull request #4: conflict"
    );
    assert_eq!(
        headline(FactTag::PullRequestOpened, "{}", Some(&t)).unwrap(),
        "pull request #4 opened at https://x/4"
    );
    t.validations.push(ValidationRecord { command: "make".to_string(), commit: "abc".to_string(), exit_code: -2 });
    assert_eq!(
        headline(FactTag::ValidationFinished, "{}", Some(&t)).unwrap(),
        "validation `make` at `abc` exited -2"
    );
    assert_eq!(headline(FactTag::BranchPushed, "{}", Some(&t)).unwrap(), "the branch was pushed");
    assert_eq!(
        headline(FactTag::WorkerLivenessChanged, "{\"liveness\":\"live\"}", None).unwrap(),
        "the worker is live"
    );
}

#[test]
fn a_line_names_the_task_with_its_title_and_state() {
    let t = a_task("t-1", TaskState::Running);
    let e = event(1, "task_approved", "{\"task\":\"t-1\"}", Some("t-1"));
    assert_eq!(line_for(FactTag::TaskApproved, &e, Some(&t), "demo").unwrap(), "`demo/t-1` **Fix it** (running): approved");
    assert_eq!(line_for(FactTag::TaskApproved, &e, None, "demo").unwrap(), "`t-1`: approved");
    let bare = event(2, "daemon_restarted", "{}", None);
    assert_eq!(line_for(FactTag::DaemonRestarted, &bare, None, "demo").unwrap(), "the daemon restarted");
}

#[test]
fn the_inbox_skips_polls_and_reads_each_fact() {
    let tasks = vec![a_task("t-1", TaskState::Failed)];
    let events = vec![
        event(1, "polled", "{}", None),
        event(2, "push_failed", "{\"task\":\"t-1\",\"reason\":\"no\"}", Some("t-1")),
        event(3, "coordinator_context_measured", "{\"tokens\":1}", None),
        event(4, "task_approved", "{\"task\":\"t-2\"}", Some("t-2")),
        event(5, "on_event_notified", "{}", Some("t-1")),
    ];
    let entries = inbox_entries("demo", &tasks, &events).unwrap();
    assert_eq!(entries.len(), 2);
    assert_eq!(entries[0].line, "`demo/t-1` **Fix it** (failed): the push was rejected: no");
    assert_eq!(entries[0].need, Need::User);
    assert_eq!(entries[0].at, Timestamp::from_millis(2000));
    assert_eq!(entries[1].line, "`t-2`: approved");
    assert_eq!(entries[1].task, Some("t-2".to_string()));
    assert_eq!(entries[1].need, Need::Nothing);
}

#[test]
fn an_unknown_fact_kind_stops_the_inbox() {
    let events = vec![event(1, "task_approved", "{}", None), event(2, "mystery", "{}", None)];
    let error = inbox_entries("demo", &[], &events).unwrap_err();
    assert!(matches!(error, Error::Schema(ref m) if m == "unknown fact kind `mystery`"));
    let unreadable = vec![event(1, "push_failed", "{}", Some("t-1"))];
    assert!(inbox_entries("demo", &[], &unreadable).is_err());
}
