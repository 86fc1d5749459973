use depotd::adapters::worktrees::PoolEntry;
use depotd::commands::Dependency;
use depotd::daemon::{logs_fact, owed_leases};
use depotd::facts::FactKind;
use depotd::names::Role;
use depotd::daemon::{
    build_mismatch, check_head, hook_failed, lock_held_message, output_tail, repo_slug,
    resume_prompt, resume_reason, scope_covers, scope_is_fresh, stale_after_millis, DaemonScope,
    EventNotice, ShellEventHook,
};
use depotd::error::Error;
use depotd::project::{LocationKind, Project};
use depotd::records::Timestamp;

#[test]
fn reads_https_and_ssh_github_remotes() {
    assert_eq!(
        repo_slug("https://github.com/nunoras/depot.git")
            .expect("https remote")
            .path(),
        "nunoras/depot"
    );
    assert_eq!(
        repo_slug("git@github.com:nunoras/depot.git")
            .expect("ssh remote")
            .path(),
        "nunoras/depot"
    );
}

#[test]
fn a_remote_without_an_owner_is_refused() {
    match repo_slug("https://github.com/depot/") {
        Ok(slug) => assert_eq!(slug.path(), "github.com/depot"),
        Err(error) => panic!("{}", error.message()),
    }
    match repo_slug("depot.git") {
        Err(Error::Project(m)) => assert_eq!(m, "cannot read GitHub repository from depot"),
        other => panic!("unexpected {other:?}"),
    }
}

#[test]
fn the_resume_prompt_reports_each_answer() {
    assert_eq!(resume_prompt(&[]), "An answer was recorded. Continue the task.");
    let answers = vec![
        ("Which store?".to_owned(), "The SQLite one.".to_owned()),
        ("And\nthe cache?".to_owned(), "none".to_owned()),
    ];
    assert_eq!(
        resume_prompt(&answers),
        "Your question \"Which store?\" was answered: The SQLite one. Your question \"And the cache?\" was answered: none. Continue the task."
    );
}

#[test]
fn the_resume_reason_puts_the_redirect_first() {
    let answers = vec![("Q".to_owned(), "A".to_owned())];
    assert_eq!(
        resume_reason(&Some("go left.".to_owned()), &answers),
        "The task was redirected: go left. Take the new direction into account. Your question \"Q\" was answered: A. Continue the task."
    );
    assert_eq!(resume_reason(&None, &[]), "");
}

fn scope(pid: u32, heartbeat: u64, build: &str, projects: &[&str]) -> DaemonScope {
    DaemonScope {
        pid,
        started_at_millis: 0,
        projects: projects.iter().map(|p| p.to_string()).collect(),
        heartbeat_millis: heartbeat,
        build_id: build.to_owned(),
    }
}

#[test]
fn a_scope_records_the_projects_it_covers() {
    let projects = vec![Project {
        id: "github.com/o/r".to_owned(),
        kind: LocationKind::Url,
        slug: "r".to_owned(),
        created_at: Timestamp::from_millis(1),
    }];
    let scope = DaemonScope::new(&projects, 42, Timestamp::from_millis(1000), "b1");
    assert_eq!(scope.projects, vec!["github.com/o/r".to_owned()]);
    assert_eq!(scope.heartbeat_millis, 1000);
    assert_eq!(scope.build_id, "b1");
}

#[test]
fn a_held_lock_names_its_holder() {
    let s = scope(7, 0, "b", &["p"]);
    assert_eq!(
        lock_held_message("/h/depotd.lock", Some(&s), &vec!["proj".to_owned()]),
        "another depot daemon already holds /h/depotd.lock: pid 7 covering proj; restart it with `depot daemon restart` or stop pid 7"
    );
    assert_eq!(
        lock_held_message("/l", None, &vec![]),
        "another depot daemon already holds /l: the lock record names no daemon, so depot cannot identify the holder; stop the process holding it by hand"
    );
}

#[test]
fn a_scope_is_fresh_within_three_poll_intervals() {
    assert_eq!(stale_after_millis(30), 90_000);
    let s = scope(1, 10_000, "b", &["p"]);
    assert!(scope_is_fresh(&s, Timestamp::from_millis(100_000), 90_000));
    assert!(!scope_is_fresh(&s, Timestamp::from_millis(100_001), 90_000));
    assert!(scope_covers(Some(&s), "p", Timestamp::from_millis(20_000), 90_000));
    assert!(!scope_covers(Some(&s), "q", Timestamp::from_millis(20_000), 90_000));
    assert!(build_mismatch(&s, "c", Timestamp::from_millis(20_000), 90_000));
    assert!(!build_mismatch(&s, "b", Timestamp::from_millis(20_000), 90_000));
}

#[test]
fn the_notice_payload_is_json() {
    let notice = EventNotice {
        project: "depot".to_owned(),
        task: "t-7".to_owned(),
        title: "on_event \"hook\"".to_owned(),
        event: "question".to_owned(),
        question: Some("which store?".to_owned()),
        pull_request: None,
    };
    let payload = notice.payload();
    assert_eq!(
        payload,
        "{\"event\":\"question\",\"project\":\"depot\",\"pull_request\":null,\"question\":\"which store?\",\"recommended_default\":null,\"task\":\"t-7\",\"title\":\"on_event \\\"hook\\\"\"}"
    );
    let value: serde_json::Value = serde_json::from_str(&payload).expect("the payload is json");
    assert_eq!(value["task"], "t-7");
    assert!(value["recommended_default"].is_null());
}

#[test]
fn a_failing_hook_reports_its_exit_code() {
    assert_eq!(hook_failed(Some(3)).message(), "the on_event command exited 3");
    assert_eq!(hook_failed(None).message(), "the on_event command exited -1");
    assert_eq!(ShellEventHook::new("cat").command(), "cat");
}

#[test]
fn validation_checks_the_worktree_head() {
    assert!(check_head("/w", "abc\n", "abc").is_ok());
    match check_head("/w", "def\n", "abc") {
        Err(Error::Project(m)) => assert_eq!(m, "worktree /w is at def rather than submitted commit abc"),
        other => panic!("unexpected {other:?}"),
    }
    let long = "x".repeat(5000);
    assert_eq!(output_tail(&long, "END").len(), 4096);
    assert!(output_tail(&long, "END").ends_with("END"));
}

#[test]
fn a_task_owes_its_pending_leases_and_those_held_in_its_name() {
    let entry = |lease: Option<&str>, holder: Option<&str>| PoolEntry {
        name: "w".to_string(),
        path: "/pool/w".to_string(),
        state: "leased".to_string(),
        lease: lease.map(str::to_string),
        holder: holder.map(str::to_string),
    };
    let pool = vec![
        entry(Some("l-1"), Some("depot:t-1")),
        entry(Some("l-2"), Some("depot:t-1")),
        entry(Some("l-3"), Some("depot:t-2")),
        entry(None, Some("depot:t-1")),
        entry(Some("l-2"), Some("depot:t-1")),
    ];
    assert_eq!(owed_leases("t-1", &vec!["l-1".to_string()], &pool), vec!["l-1", "l-2"]);
    assert!(owed_leases("t-9", &vec![], &pool).is_empty());
}

#[test]
fn polling_is_not_logged_and_every_other_fact_is() {
    assert!(!logs_fact(&FactKind::Polled));
    assert!(logs_fact(&FactKind::TaskApproved {
        task: "t-1".to_string(),
    }));
    assert!(logs_fact(&FactKind::TaskProposed {
        task: "t-1".to_string(),
        title: "a task".to_string(),
        intent: "why".to_string(),
        role: Role::Build,
        dispatch_profile: None,
        dependencies: Vec::<Dependency>::new(),
        base_dependency: None,
        hold_pr: false,
    }));
}

#[test]
fn the_daemon_restarting_is_logged() {
    assert!(logs_fact(&FactKind::DaemonRestarted));
    assert!(logs_fact(&FactKind::CoordinatorContextMeasured { tokens: 3 }));
}

use depotd::daemon::check_push_head;
use depotd::reconcile::push_result_fact;

#[test]
fn a_push_is_refused_from_a_worktree_that_moved() {
    assert!(check_push_head("/w", "abc\n", "abc").is_ok());
    assert!(matches!(check_push_head("/w", "def\n", "abc"), Err(Error::Project(ref m)) if m == "worktree /w is not at submitted commit abc"));
    assert_eq!(push_result_fact("t-1", "abc", None), FactKind::BranchPushed { task: "t-1".to_string(), commit: "abc".to_string() });
    assert_eq!(
        push_result_fact("t-1", "abc", Some("rejected")),
        FactKind::PushFailed { task: "t-1".to_string(), commit: "abc".to_string(), reason: "rejected".to_string() }
    );
}
