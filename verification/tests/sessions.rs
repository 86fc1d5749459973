use depotd::adapters::process::{Output, ProcessError, Program};
use depotd::adapters::sessions::{
    bare_session_id, capabilities_from, launch_args, launched_session, mentions, read_sessions,
    read_status, read_wait, required_surface_names, session_state, wait_args, LaunchRequest,
    SessionError, SessionProfile, SessionState, SessionSummary, TurnOutcome, Version,
    MINIMUM_BOXR_VERSION,
};

fn boxr() -> Program {
    Program::new("boxr")
}

#[test]
fn a_version_is_read_from_the_first_token_that_names_one() {
    let v = Version::parse("boxr version v0.3.12 (abc)").unwrap();
    assert_eq!(v.text(), "0.3.12");
    assert_eq!(Version::parse("boxr 1.2").map(|v| v.text()), None);
    assert_eq!(Version::parse("nothing here"), None);
    assert_eq!(Version::parse("x 1.2.3.4 2.0.0"), Version::parse("2.0.0"));
}

#[test]
fn a_version_reads_back_what_it_writes() {
    for (major, minor, patch) in [(0, 0, 0), (0, 2, 0), (12, 345, 6789), (u64::MAX, 0, 1)] {
        let v = Version { major, minor, patch };
        assert_eq!(Version::parse(&v.text()), Some(v));
    }
}

#[test]
fn versions_order_by_major_minor_patch() {
    let min = Version::parse(MINIMUM_BOXR_VERSION).unwrap();
    assert!(Version::parse("0.1.9").unwrap().older_than(&min));
    assert!(!Version::parse("0.2.0").unwrap().older_than(&min));
    assert!(!Version::parse("1.0.0").unwrap().older_than(&min));
    assert!(Version::parse("0.2.0").unwrap().older_than(&Version::parse("0.10.0").unwrap()));
}

#[test]
fn help_mentions_whole_tokens_only() {
    let help = "Commands:\n  ps, status\twait\n  --detach  run in the background\n";
    assert!(mentions(help, "ps"));
    assert!(mentions(help, "wait"));
    assert!(mentions(help, "--detach"));
    assert!(!mentions(help, "stop"));
    assert!(!mentions(help, "--det"));
}

#[test]
fn an_old_boxr_is_refused() {
    let err = capabilities_from(&boxr(), "boxr 0.1.0", "ps status wait stop resume --detach").unwrap_err();
    assert_eq!(
        err,
        SessionError::BoxrTooOld {
            version: "0.1.0".to_string(),
            required: "0.2.0".to_string()
        }
    );
    assert_eq!(
        err.message(),
        "boxr 0.1.0 is older than the 0.2.0 depot requires, where detached sessions, resume and session listing exist"
    );
}

#[test]
fn a_boxr_without_the_surface_names_what_is_missing() {
    let err = capabilities_from(&boxr(), "boxr 0.2.1", "ps status wait\n").unwrap_err();
    assert_eq!(
        err,
        SessionError::MissingCapabilities {
            version: "0.2.1".to_string(),
            missing: vec!["stop".to_string(), "resume".to_string(), "--detach".to_string()],
        }
    );
    let caps = capabilities_from(&boxr(), "0.4.0", "ps status wait stop resume --detach").unwrap();
    assert_eq!(caps.version, "0.4.0");
    assert_eq!(caps.surface, required_surface_names());
}

#[test]
fn no_version_is_malformed_output() {
    let err = capabilities_from(&boxr(), "  hello  ", "").unwrap_err();
    assert_eq!(
        err,
        SessionError::MalformedOutput {
            command: "boxr --version".to_string(),
            detail: "no version in \"hello\"".to_string()
        }
    );
}

#[test]
fn a_launch_passes_the_profile_kind_and_prompt() {
    let request = LaunchRequest {
        directory: "/w".to_string(),
        profile: SessionProfile {
            account: "acct".to_string(),
            harness: "alpha".to_string(),
            model: "large".to_string(),
            effort: "high".to_string(),
        },
        kind: Some("worker".to_string()),
        prompt: "go".to_string(),
    };
    assert_eq!(
        launch_args(&request),
        vec![
            "--harness", "alpha", "--model", "large", "--effort", "high", "--account", "acct",
            "--kind", "worker", "--detach", "go"
        ]
    );
    let plain = LaunchRequest { kind: None, ..request };
    assert_eq!(launch_args(&plain).len(), 10);
}

#[test]
fn a_bare_id_is_a_single_word_line() {
    assert_eq!(bare_session_id("  s-123 \n"), Some("s-123".to_string()));
    assert_eq!(bare_session_id("s-1\ns-2"), None);
    assert_eq!(bare_session_id("session: s-1"), None);
    assert_eq!(bare_session_id("two words"), None);
    assert_eq!(bare_session_id("   "), None);
}

#[test]
fn a_launch_reads_the_session_or_id_field() {
    assert_eq!(launched_session("boxr run", "s-9\n"), Ok("s-9".to_string()));
    assert_eq!(launched_session("boxr run", "session: s-7\n"), Ok("s-7".to_string()));
    assert_eq!(launched_session("boxr run", "id: s-8\n"), Ok("s-8".to_string()));
    assert_eq!(
        launched_session("boxr run", "other: x\n"),
        Err(SessionError::MissingSessionId { command: "boxr run".to_string() })
    );
}

#[test]
fn states_and_outcomes_are_read_by_name() {
    assert_eq!(session_state("c", "running"), Ok(SessionState::Running));
    assert_eq!(session_state("c", "failed"), Ok(SessionState::Failed));
    assert_eq!(
        session_state("c", "odd"),
        Err(SessionError::UnknownState { command: "c".to_string(), state: "odd".to_string() })
    );
    assert_eq!(read_status("boxr status s", "state: stopped\n"), Ok(SessionState::Stopped));
    assert_eq!(read_wait("boxr wait s", "status: ok\n"), Ok(TurnOutcome::Completed));
    assert_eq!(read_wait("boxr wait s", "status: running\n"), Ok(TurnOutcome::StillRunning));
    assert_eq!(
        read_wait("boxr wait s", "x: 1\n"),
        Err(SessionError::MalformedOutput {
            command: "boxr wait s".to_string(),
            detail: "no status field in \"x: 1\"".to_string()
        })
    );
}

#[test]
fn a_wait_passes_its_timeout_in_seconds() {
    assert_eq!(wait_args("s-1", Some(30)), vec!["wait", "s-1", "--timeout", "30"]);
    assert_eq!(wait_args("s-1", None), vec!["wait", "s-1"]);
}

#[test]
fn the_session_list_reads_the_sessions_table() {
    let stdout = "sessions[2]{id,state,harness}:\n  s-1,running,alpha\n  s-2,finished,beta\n";
    assert_eq!(
        read_sessions("boxr ps", stdout),
        Ok(vec![
            SessionSummary {
                session: "s-1".to_string(),
                state: SessionState::Running,
                harness: "alpha".to_string(),
                model: String::new(),
            },
            SessionSummary {
                session: "s-2".to_string(),
                state: SessionState::Finished,
                harness: "beta".to_string(),
                model: String::new(),
            },
        ])
    );
    assert!(matches!(
        read_sessions("boxr ps", "sessions[1]{id,state}:\n  ,running\n"),
        Err(SessionError::MalformedOutput { .. })
    ));
}

#[test]
fn a_failed_command_reports_its_status_and_stderr() {
    let err = SessionError::Command(ProcessError::Failed {
        command: "boxr ps".to_string(),
        status: Some(2),
        stderr: "boom".to_string(),
    });
    assert_eq!(err.message(), "boxr ps exited with status 2: boom");
    let _ = Output { status: Some(0), stdout: String::new(), stderr: String::new() };
}
