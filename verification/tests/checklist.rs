use depotd::adapters::forge::Checks;
use depotd::checklist::{
    approved_wait, attempt_line, render_checklist, render_checklist_observed, render_task,
    waiting_on,
};
use depotd::names::{Role, TaskState};
use depotd::records::Timestamp;
use depotd::tasks::{
    listed_in_state, text_le_exec, Attempt, DependencyStanding, HeldLease, ProjectState,
    PullRequestRecord, Question, Task, TurnDeferral, ValidationRecord,
};

fn task(id: &str, title: &str, state: TaskState, created: u64) -> Task {
    Task {
        id: id.to_string(),
        title: title.to_string(),
        intent: String::new(),
        role: Role::Build,
        state,
        in_flight: matches!(
            state,
            TaskState::Running | TaskState::WaitingOnQuestion | TaskState::Validating
        ),
        created_at: Timestamp::from_millis(created),
        attempts: Vec::new(),
        dependencies: Vec::new(),
        rework_of: None,
        pull_request: None,
        conflict_base: None,
        hold_pr: false,
        merge_refused: None,
        release_held: Vec::new(),
        failure: None,
        turn_deferral: None,
        redirect_text: None,
        redirect_delivered: false,
        questions: Vec::new(),
        artifacts: Vec::new(),
        validations: Vec::new(),
        retry_not_before: None,
        branch_head: None,
        validated_commit: None,
    }
}

fn attempt(started: u64, session: Option<&str>, seen: Option<u64>, lease: Option<&str>) -> Attempt {
    Attempt {
        open: true,
        started_at: Timestamp::from_millis(started),
        session: session.map(str::to_string),
        last_seen_at: seen.map(Timestamp::from_millis),
        worktree: lease.map(str::to_string),
    }
}

fn state(tasks: Vec<Task>) -> ProjectState {
    ProjectState {
        project: "/work/demo".to_string(),
        slug: "demo".to_string(),
        tasks,
    }
}

#[test]
fn an_empty_project_has_no_tasks_yet() {
    assert_eq!(
        render_checklist(&state(Vec::new()), false),
        "# Checklist\n\nProject: /work/demo\n\nRendered from depot records. Hand edits are overwritten.\n\nNo tasks yet.\n"
    );
}

#[test]
fn sections_list_tasks_oldest_first_and_settled_ones_are_counted() {
    let tasks = vec![
        task("t-1", "first", TaskState::Landed, 10),
        task("t-2", "second", TaskState::Proposed, 30),
        task("t-3", "third", TaskState::Proposed, 20),
        task("t-4", "fourth", TaskState::Failed, 40),
        task("t-5", "fifth", TaskState::Landed, 50),
    ];
    let rendered = render_checklist(&state(tasks), false);
    assert_eq!(
        rendered,
        "# Checklist\n\nProject: /work/demo\n\nRendered from depot records. Hand edits are overwritten.\n\
\n## Held - awaiting approval (2)\n\
\n- `demo/t-3` **third** (build)\n  - waits on: approval\n\
\n- `demo/t-2` **second** (build)\n  - waits on: approval\n\
\n2 landed \u{b7} 1 failed; `depot status --history` shows them.\n"
    );
}

#[test]
fn the_history_lists_the_settled_tasks() {
    let tasks = vec![
        task("t-1", "first", TaskState::Landed, 10),
        task("t-4", "fourth", TaskState::Cancelled, 40),
    ];
    let rendered = render_checklist(&state(tasks), true);
    assert!(rendered.contains("\n## Landed (1)\n\n- `demo/t-1` **first** (build)\n  - waits on: nothing\n"));
    assert!(rendered.contains("\n## Cancelled (1)\n"));
    assert!(!rendered.contains("shows them"));
}

#[test]
fn equal_creation_times_order_by_identifier() {
    let tasks = vec![
        task("t-2", "b", TaskState::Proposed, 5),
        task("t-10", "a", TaskState::Proposed, 5),
        task("t-1", "c", TaskState::Running, 5),
    ];
    assert_eq!(listed_in_state(&tasks, TaskState::Proposed), vec![1, 0]);
    assert!(text_le_exec("t-10", "t-2"));
    assert!(!text_le_exec("t-2", "t-10"));
    assert!(text_le_exec("t", "t-1"));
}

#[test]
fn what_a_task_waits_on_follows_its_state() {
    let mut approved = task("t-1", "a", TaskState::Approved, 0);
    assert_eq!(waiting_on(&approved), "a free slot");
    approved.retry_not_before = Some(Timestamp::from_millis(86_400_000));
    assert_eq!(approved_wait(&approved), "a retry, not before 1970-01-02T00:00:00Z");
    approved.dependencies = vec![
        DependencyStanding { task: "t-0".to_string(), commit: "abc".to_string(), satisfied: true },
        DependencyStanding { task: "t-9".to_string(), commit: "def".to_string(), satisfied: false },
    ];
    assert_eq!(waiting_on(&approved), "dependency `t-9` at `def` to be validated");

    let mut running = task("t-2", "r", TaskState::Running, 0);
    assert_eq!(waiting_on(&running), "a worker turn");
    running.attempts.push(attempt(0, Some("s-1"), None, Some("wt-3")));
    assert_eq!(waiting_on(&running), "a worker turn in worktree lease `wt-3`");

    let mut asking = task("t-3", "q", TaskState::WaitingOnQuestion, 0);
    assert_eq!(waiting_on(&asking), "an answer");
    asking.questions = vec![
        Question { text: "first?".to_string(), answer: None },
        Question { text: "which\nstore?".to_string(), answer: None },
        Question { text: "done?".to_string(), answer: Some("yes".to_string()) },
    ];
    assert_eq!(waiting_on(&asking), "an answer to \"which store?\"");

    let mut open = task("t-4", "p", TaskState::PrOpen, 0);
    assert_eq!(waiting_on(&open), "a pull request");
    for (checks, wanted) in [
        (Checks::Passing, "the merge of pull request #7"),
        (Checks::Failing, "failing checks on pull request #7"),
        (Checks::Pending, "checks on pull request #7"),
        (Checks::Unknown, "checks on pull request #7"),
    ] {
        open.pull_request = Some(PullRequestRecord { number: 7, url: "u".to_string(), checks });
        assert_eq!(waiting_on(&open), wanted);
    }

    let mut validated = task("t-5", "v", TaskState::Validated, 0);
    assert_eq!(waiting_on(&validated), "a pull request");
    validated.hold_pr = true;
    assert_eq!(waiting_on(&validated), "a person to release the pull request");
    assert_eq!(waiting_on(&task("t-6", "f", TaskState::Failed, 0)), "a person");
    assert_eq!(waiting_on(&task("t-7", "v", TaskState::Validating, 0)), "validation");
}

#[test]
fn an_open_attempt_reports_its_age_and_liveness() {
    let mut running = task("t-1", "r", TaskState::Running, 0);
    let now = Timestamp::from_millis(3_600_000);
    assert_eq!(attempt_line(&running, now), None);
    running.attempts.push(attempt(3_000_000, None, None, None));
    assert_eq!(
        attempt_line(&running, now).unwrap(),
        "  - attempt: stalled - in_flight 10m, no worker session\n"
    );
    running.attempts[0].session = Some("s-1".to_string());
    assert_eq!(
        attempt_line(&running, now).unwrap(),
        "  - attempt: in_flight 10m, session `s-1` not yet seen alive\n"
    );
    running.attempts[0].last_seen_at = Some(Timestamp::from_millis(3_590_000));
    assert_eq!(
        attempt_line(&running, now).unwrap(),
        "  - attempt: in_flight 10m, session `s-1` last seen 10s\n"
    );
    running.attempts[0].last_seen_at = Some(Timestamp::from_millis(3_000_000));
    assert_eq!(
        attempt_line(&running, now).unwrap(),
        "  - attempt: in_flight 10m, session `s-1` unobserved for 10m\n"
    );
    running.attempts[0].open = false;
    assert_eq!(attempt_line(&running, now), None);
}

#[test]
fn an_observed_checklist_flags_unobserved_sessions() {
    let mut running = task("t-1", "stuck\tone", TaskState::Running, 0);
    running.attempts.push(attempt(0, Some("s-9"), Some(0), Some("wt-1")));
    let rendered = render_checklist_observed(&state(vec![running]), false, Timestamp::from_millis(600_000));
    assert!(rendered.contains(
        "\n## Needs you - unobserved sessions (1)\n\n- `t-1` **stuck one** - session `s-9` unobserved for 10m; check whether the worker is stuck\n"
    ));
    assert!(rendered.contains("  - attempt: in_flight 10m, session `s-9` unobserved for 10m\n"));
}

#[test]
fn a_task_entry_lists_what_is_on_record() {
    let mut t = task("t-8", "deliver", TaskState::Running, 0);
    t.role = Role::Fix;
    t.dependencies = vec![DependencyStanding {
        task: "t-1".to_string(),
        commit: "abc".to_string(),
        satisfied: true,
    }];
    t.rework_of = Some("t-2".to_string());
    t.pull_request = Some(PullRequestRecord {
        number: 12,
        url: "https://forge.test/pr/12".to_string(),
        checks: Checks::Pending,
    });
    t.conflict_base = Some("main".to_string());
    t.hold_pr = true;
    t.merge_refused = Some("blocked".to_string());
    t.release_held = vec![HeldLease { lease: "wt-4".to_string(), reason: "dirty".to_string() }];
    t.failure = Some("boom".to_string());
    t.turn_deferral = Some(TurnDeferral { count: 1, reason: "rate limit".to_string() });
    t.redirect_text = Some("go left".to_string());
    t.validations = vec![ValidationRecord {
        command: "cargo test".to_string(),
        commit: "abc".to_string(),
        exit_code: 101,
    }];
    t.branch_head = Some("def".to_string());
    let mut out = String::new();
    render_task(&mut out, "demo", &t, None);
    let expected = [
        "- `demo/t-8` **deliver** (fix)\n",
        "  - waits on: a worker turn\n",
        "  - depends on: `t-1` at `abc` (validated)\n",
        "  - rework of: `t-2`\n",
        "  - pull request: [#12](https://forge.test/pr/12) - checks pending\n",
        "  - conflicts with base `main`\n",
        "  - pull request held until `depot task release`\n",
        "  - auto-merge refused: blocked\n",
        "  - worktree lease `wt-4` held, not returned: dirty\n",
        "  - failure: boom\n",
        "  - worker turn deferred 1 time: rate limit\n",
        "  - redirect (queued, not yet delivered): go left\n",
        "  - last validation: `cargo test` at `abc` exited 101\n",
        "  - branch head: `def`\n",
    ]
    .concat();
    assert_eq!(out, expected);
}

#[test]
fn a_waiting_task_lists_its_question_and_artifacts() {
    let mut t = task("t-3", "ask", TaskState::WaitingOnQuestion, 0);
    t.questions = vec![Question { text: "which store?".to_string(), answer: None }];
    t.artifacts = vec!["a.png".to_string(), "b.mp4".to_string()];
    let mut out = String::new();
    render_task(&mut out, "demo", &t, None);
    assert!(out.contains("  - question: which store?\n  - artifacts: `a.png`, `b.mp4`\n"));
}
