use depotd::adapters::forge::{Checks, PrState};
use depotd::adapters::profiles::{ConfiguredProfiles, RoleEntry};
use depotd::error::Error;
use depotd::facts::FactKind;
use depotd::names::{Role, TaskState};
use depotd::reconcile::{
    forge_observation, launch_profile, launch_request, recheck_mergeability, resume_step,
    ObservedPullRequest, ResumeStep, SessionCheck, MAX_RESUME_ATTEMPTS,
};
use depotd::records::Timestamp;
use depotd::settings::{ProfileSettings, ProfileSpec, Settings};
use depotd::tasks::Task;

fn task(id: &str, state: TaskState) -> Task {
    Task {
        id: id.to_string(),
        title: "a task".to_string(),
        intent: "why".to_string(),
        role: Role::Build,
        state,
        in_flight: true,
        created_at: Timestamp::from_millis(0),
        attempts: Vec::new(),
        dependencies: Vec::new(),
        rework_of: None,
        pull_request: None,
        conflict_base: None,
        hold_pr: false,
        merge_refused: None,
        release_held: Vec::new(),
        failure: None,
        turn_deferral: None,
        redirect_text: None,
        redirect_delivered: false,
        questions: Vec::new(),
        artifacts: Vec::new(),
        validations: Vec::new(),
        retry_not_before: None,
        branch_head: None,
        validated_commit: None,
    }
}

fn answers() -> Vec<(String, String)> {
    vec![("which store?".to_string(), "sqlite.".to_string())]
}

#[test]
fn nothing_to_resume_is_an_error() {
    let error = resume_step("t-1", &[], &None, &SessionCheck::Running, 0).unwrap_err();
    assert!(matches!(error, Error::Project(ref m) if m == "task `t-1` has no answer to resume"));
}

#[test]
fn a_session_that_is_gone_is_relaunched_and_an_unreadable_one_deferred() {
    assert_eq!(resume_step("t-1", &answers(), &None, &SessionCheck::NotRunning, 0).unwrap(), ResumeStep::Relaunch);
    assert_eq!(
        resume_step("t-1", &answers(), &None, &SessionCheck::Unreadable("boxr failed".to_string()), 0).unwrap(),
        ResumeStep::Defer("boxr failed".to_string())
    );
}

#[test]
fn a_running_session_is_resumed_until_the_attempts_run_out() {
    assert_eq!(
        resume_step("t-1", &answers(), &None, &SessionCheck::Running, 0).unwrap(),
        ResumeStep::Resume {
            attempt: 1,
            prompt: "Your question \"which store?\" was answered: sqlite. Continue the task.".to_string()
        }
    );
    let redirected = resume_step("t-1", &[], &Some("go left".to_string()), &SessionCheck::Running, 2).unwrap();
    assert_eq!(
        redirected,
        ResumeStep::Resume {
            attempt: 3,
            prompt: "The task was redirected: go left. Take the new direction into account.".to_string()
        }
    );
    assert_eq!(
        resume_step("t-1", &answers(), &None, &SessionCheck::Running, MAX_RESUME_ATTEMPTS).unwrap(),
        ResumeStep::Unresolved("the worker did not come back after the resume attempts".to_string())
    );
}

fn observed(state: PrState, checks: Checks, mergeable: Option<bool>) -> ObservedPullRequest {
    ObservedPullRequest {
        state,
        checks,
        commit: "abc".to_string(),
        head_ref: "feat/x".to_string(),
        base: "base1".to_string(),
        mergeable,
    }
}

#[test]
fn a_merge_or_a_close_is_recorded_once() {
    let t = task("t-1", TaskState::PrOpen);
    let merged = forge_observation(&t, Checks::Passing, &observed(PrState::Merged, Checks::Passing, None), false);
    assert_eq!(merged.facts, vec![FactKind::PullRequestMerged { task: "t-1".to_string(), commit: "abc".to_string() }]);
    assert!(merged.settles && !merged.open);
    let again = forge_observation(&t, Checks::Passing, &observed(PrState::Merged, Checks::Passing, None), true);
    assert!(again.facts.is_empty() && !again.settles);
    let closed = forge_observation(&t, Checks::Passing, &observed(PrState::Closed, Checks::Passing, None), false);
    assert_eq!(closed.facts, vec![FactKind::PullRequestClosedUnmerged { task: "t-1".to_string() }]);
}

#[test]
fn an_open_pull_request_records_changed_checks_and_mergeability() {
    let mut t = task("t-1", TaskState::PrOpen);
    let same = forge_observation(&t, Checks::Pending, &observed(PrState::Open, Checks::Pending, Some(true)), false);
    assert!(same.facts.is_empty() && same.mergeability.is_none() && same.open);
    let changed = forge_observation(&t, Checks::Pending, &observed(PrState::Open, Checks::Failing, None), false);
    assert_eq!(
        changed.facts,
        vec![FactKind::PullRequestChecksChanged { task: "t-1".to_string(), checks: Checks::Failing }]
    );
    let conflicting = observed(PrState::Open, Checks::Pending, Some(false));
    assert!(recheck_mergeability(&conflicting));
    assert_eq!(
        forge_observation(&t, Checks::Pending, &conflicting, false).mergeability,
        Some((false, "base1".to_string()))
    );
    t.conflict_base = Some("base1".to_string());
    assert_eq!(forge_observation(&t, Checks::Pending, &conflicting, false).mergeability, None);
    assert_eq!(
        forge_observation(&t, Checks::Pending, &observed(PrState::Open, Checks::Pending, Some(true)), false).mergeability,
        Some((true, "base1".to_string()))
    );
}

fn spec(name: &str, account: &str) -> ProfileSpec {
    ProfileSpec {
        profile: name.to_string(),
        harness: "h".to_string(),
        model: "m".to_string(),
        effort: "e".to_string(),
        account: account.to_string(),
    }
}

fn settings() -> Settings {
    let mut s = Settings::default();
    s.profiles = vec![(
        "fast".to_string(),
        ProfileSettings {
            harness: "h".to_string(),
            model: "m".to_string(),
            effort: "e".to_string(),
            account: "  acct  ".to_string(),
        },
    )];
    s.fallback_profiles = vec!["fast".to_string()];
    s
}

fn profiles() -> ConfiguredProfiles {
    ConfiguredProfiles::from_entries(vec![RoleEntry {
        role: Role::Build,
        profiles: vec![spec("main", " "), spec("spare", "team")],
    }])
    .unwrap()
}

#[test]
fn the_role_map_decides_unless_the_task_is_pinned() {
    let t = task("t-1", TaskState::Approved);
    assert_eq!(launch_profile(&t, "spare", false, &None, &settings(), &profiles()).unwrap(), spec("spare", "team"));
    let error = launch_profile(&t, "other", false, &None, &settings(), &profiles()).unwrap_err();
    assert!(matches!(error, Error::Config(ref m) if m == "profile `other` is not configured for task `t-1`"));
    let pinned = Some("main".to_string());
    let error = launch_profile(&t, "spare", false, &pinned, &settings(), &profiles()).unwrap_err();
    assert!(matches!(error, Error::Config(ref m) if m == "profile `spare` is not authorized for task `t-1`"));
    assert_eq!(launch_profile(&t, "fast", false, &pinned, &settings(), &profiles()).unwrap().account, "  acct  ");
    let mut review = task("t-2", TaskState::Approved);
    review.role = Role::Review;
    assert!(launch_profile(&review, "main", false, &None, &settings(), &profiles()).is_err());
}

#[test]
fn a_launch_request_carries_the_brief_the_reason_and_the_role() {
    let t = task("t-1", TaskState::Approved);
    let request = launch_request(&t, "main", false, &None, &settings(), &profiles(), "the brief", &answers(), &None, "/pool/wt-1").unwrap();
    assert_eq!(request.directory, "/pool/wt-1");
    assert_eq!(request.profile.account, "");
    assert_eq!(request.kind, Some("build".to_string()));
    assert_eq!(
        request.prompt,
        "the brief\n\nYour question \"which store?\" was answered: sqlite. Continue the task."
    );
    let plain = launch_request(&t, "fast", true, &None, &settings(), &profiles(), "merge the base", &[], &None, "/d").unwrap();
    assert_eq!(plain.prompt, "merge the base");
    assert_eq!(plain.profile.account, "acct");
}

use depotd::facts::Liveness;
use depotd::reconcile::{liveness_due, run_budget};
use depotd::tasks::Attempt;

#[test]
fn an_unchanged_liveness_is_recorded_again_only_after_a_minute() {
    let at = Timestamp::from_millis(1_000);
    let previous = Some((Liveness::Live, at));
    assert!(!liveness_due(previous, Liveness::Live, false, false, Timestamp::from_millis(30_000)));
    assert!(liveness_due(previous, Liveness::Live, false, false, Timestamp::from_millis(61_000)));
    assert!(liveness_due(previous, Liveness::Gone, false, false, Timestamp::from_millis(2_000)));
    assert!(liveness_due(previous, Liveness::Live, true, false, Timestamp::from_millis(2_000)));
    assert!(liveness_due(previous, Liveness::Live, false, true, Timestamp::from_millis(2_000)));
    assert!(liveness_due(None, Liveness::Live, false, false, Timestamp::from_millis(0)));
}

#[test]
fn a_task_past_its_run_duration_is_flagged() {
    let mut t = task("t-1", TaskState::Running);
    assert_eq!(run_budget(&t, false, false, Timestamp::from_millis(10_000), 5_000), None);
    t.attempts.push(Attempt {
        open: true,
        started_at: Timestamp::from_millis(1_000),
        session: None,
        last_seen_at: None,
        worktree: None,
    });
    assert_eq!(
        run_budget(&t, false, false, Timestamp::from_millis(10_000), 5_000),
        Some(FactKind::RunDurationExceeded { task: "t-1".to_string() })
    );
    assert_eq!(run_budget(&t, false, false, Timestamp::from_millis(3_000), 5_000), None);
    assert_eq!(run_budget(&t, true, false, Timestamp::from_millis(10_000), 5_000), None);
    t.state = TaskState::WaitingOnQuestion;
    assert_eq!(run_budget(&t, false, false, Timestamp::from_millis(10_000), 5_000), None);
}

use depotd::reconcile::{
    forge_polls, forge_tick, launch_gate, merge_result_fact, merge_step, merge_was_refused_at,
    resumed, review_facts, review_tasks_due, LaunchGate, MergePolicy, MergeStep, Resumed,
};
use depotd::tasks::{DependencyStanding, ProjectState, PullRequestRecord};

fn with_pr(id: &str, number: u64, checks: Checks) -> Task {
    let mut t = task(id, TaskState::PrOpen);
    t.pull_request = Some(PullRequestRecord { number, url: format!("https://x/{number}"), checks });
    t
}

fn demo(tasks: Vec<Task>) -> ProjectState {
    ProjectState { project: "/work/demo".to_string(), slug: "demo".to_string(), tasks }
}

#[test]
fn a_review_is_filed_once_for_a_validated_open_pull_request() {
    let mut open = with_pr("t-1", 4, Checks::Passing);
    open.validated_commit = Some("abc".to_string());
    let unvalidated = with_pr("t-2", 5, Checks::Passing);
    let mut other = with_pr("t-3", 6, Checks::Passing);
    other.validated_commit = Some("def".to_string());
    let mut review = task("t-4", TaskState::Running);
    review.role = Role::Review;
    review.dependencies = vec![DependencyStanding { task: "t-3".to_string(), commit: "def".to_string(), satisfied: true }];
    let state = demo(vec![open, unvalidated, other, review]);
    assert_eq!(review_tasks_due(&state, true, true), vec![0]);
    assert!(review_tasks_due(&state, false, true).is_empty());
    assert!(review_tasks_due(&state, true, false).is_empty());
    let (proposed, approved) = review_facts("t-9", &state.tasks[0], "abc");
    assert_eq!(
        proposed,
        FactKind::TaskProposed {
            task: "t-9".to_string(),
            title: "Review a task".to_string(),
            intent: "Review the change of task `t-1` on its delivery branch. Read the diff against the base branch and report findings on correctness, tests and risks.".to_string(),
            role: Role::Review,
            dispatch_profile: None,
            dependencies: vec![depotd::commands::Dependency { task: "t-1".to_string(), commit: "abc".to_string() }],
            base_dependency: Some("t-1".to_string()),
            hold_pr: true,
        }
    );
    assert_eq!(approved, FactKind::TaskApproved { task: "t-9".to_string() });
}

#[test]
fn each_watched_pull_request_is_polled_once_and_settled_once() {
    let state = demo(vec![
        with_pr("t-1", 4, Checks::Pending),
        task("t-2", TaskState::Running),
        with_pr("t-3", 4, Checks::Pending),
        with_pr("t-5", 7, Checks::Pending),
    ]);
    assert_eq!(forge_polls(&state), vec![(0, 4), (3, 7)]);
    let observed = vec![(4, Some(observed(PrState::Merged, Checks::Passing, None))), (7, None)];
    let steps = forge_tick(&state, &observed);
    assert_eq!(steps.len(), 2);
    assert_eq!(steps[0].0, 0);
    assert_eq!(steps[0].1.facts, vec![FactKind::PullRequestMerged { task: "t-1".to_string(), commit: "abc".to_string() }]);
    assert_eq!(steps[1].0, 2);
    assert!(steps[1].1.facts.is_empty());
}

#[test]
fn the_merge_policy_decides_when_the_daemon_merges() {
    let t = with_pr("t-1", 4, Checks::Passing);
    let passing = observed(PrState::Open, Checks::Passing, Some(true));
    let merge = MergeStep::Merge { commit: "abc".to_string(), head_ref: "feat/x".to_string() };
    assert_eq!(merge_step(&t, &passing, MergePolicy::Manual, true, true, false), MergeStep::Hold);
    assert_eq!(merge_step(&t, &passing, MergePolicy::AfterChecks, true, false, false), merge);
    assert_eq!(merge_step(&t, &passing, MergePolicy::AfterChecks, false, true, false), MergeStep::Hold);
    assert_eq!(merge_step(&t, &passing, MergePolicy::AfterReview, true, false, false), MergeStep::Hold);
    assert_eq!(merge_step(&t, &passing, MergePolicy::AfterReview, true, true, false), merge);
    assert_eq!(merge_step(&t, &passing, MergePolicy::AfterChecks, true, true, true), MergeStep::Hold);
    let pending = observed(PrState::Open, Checks::Pending, Some(true));
    assert_eq!(merge_step(&t, &pending, MergePolicy::AfterChecks, true, true, false), MergeStep::Hold);
}

#[test]
fn a_refused_merge_is_not_tried_again_at_the_same_commit_base_and_checks() {
    let passing = observed(PrState::Open, Checks::Passing, Some(true));
    assert!(!merge_was_refused_at(None, &passing).unwrap());
    let same = "{\"task\":\"t-1\",\"commit\":\"abc\",\"base\":\"base1\",\"checks\":\"passing\",\"reason\":\"r\"}";
    assert!(merge_was_refused_at(Some(same), &passing).unwrap());
    let moved = "{\"commit\":\"zzz\"}";
    assert!(!merge_was_refused_at(Some(moved), &passing).unwrap());
    assert!(merge_was_refused_at(Some("{\"commit\":\"abc\"}"), &passing).is_err());
    assert_eq!(
        merge_result_fact("t-1", &passing, Some("blocked")),
        FactKind::PullRequestMergeRefused {
            task: "t-1".to_string(),
            commit: "abc".to_string(),
            base: "base1".to_string(),
            checks: Checks::Passing,
            reason: "blocked".to_string(),
        }
    );
    assert_eq!(
        merge_result_fact("t-1", &passing, None),
        FactKind::PullRequestMerged { task: "t-1".to_string(), commit: "abc".to_string() }
    );
}

#[test]
fn a_launch_goes_ahead_only_with_a_lease_and_an_attempt() {
    assert_eq!(
        launch_gate("t-1", true, &Ok("/w".to_string()), 1).unwrap(),
        LaunchGate::Unresolved("a previous launch intent never completed".to_string())
    );
    assert_eq!(
        launch_gate("t-1", false, &Err("pool empty".to_string()), 1).unwrap(),
        LaunchGate::Defer("pool empty".to_string())
    );
    assert!(matches!(launch_gate("t-1", false, &Ok("/w".to_string()), 0), Err(Error::Project(ref m)) if m == "task `t-1` has no attempt"));
    assert_eq!(launch_gate("t-1", false, &Ok("/w".to_string()), 2).unwrap(), LaunchGate::Proceed("/w".to_string()));
}

#[test]
fn a_resume_counts_only_when_it_answers_with_a_child_session() {
    assert_eq!(resumed("s-1", &Err("gone".to_string())), Resumed::Failed("gone".to_string()));
    assert_eq!(resumed("s-1", &Ok("s-1".to_string())), Resumed::SameSession);
    assert_eq!(resumed("s-1", &Ok("s-2".to_string())), Resumed::Child("s-2".to_string()));
}
