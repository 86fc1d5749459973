use depotd::adapters::process::{checked_output, Output, ProcessError, Program};

#[test]
fn a_command_line_is_the_path_then_each_argument() {
    let program = Program::new("/usr/bin/git").with_env("GIT_DIR", "/x");
    assert_eq!(
        program.command_line(&["status".to_string(), "--short".to_string()]),
        "/usr/bin/git status --short"
    );
    assert_eq!(program.command_line(&[]), "/usr/bin/git");
    assert_eq!(program.path(), "/usr/bin/git");
    assert_eq!(program.env(), &vec![("GIT_DIR".to_string(), "/x".to_string())]);
}

#[test]
fn only_status_zero_succeeds() {
    let ok = Output { status: Some(0), stdout: "  out \n".to_string(), stderr: String::new() };
    assert!(ok.succeeded());
    assert_eq!(ok.stdout_trimmed(), "out");
    assert_eq!(checked_output("c".to_string(), ok.clone()), Ok(ok));
    let failed = Output { status: Some(1), stdout: String::new(), stderr: "  bad\n".to_string() };
    assert!(!failed.succeeded());
    assert_eq!(
        checked_output("git push".to_string(), failed),
        Err(ProcessError::Failed {
            command: "git push".to_string(),
            status: Some(1),
            stderr: "bad".to_string()
        })
    );
}

#[test]
fn process_errors_say_what_failed() {
    assert_eq!(
        ProcessError::Spawn { program: "gh".to_string(), detail: "not found".to_string() }.message(),
        "could not run gh: not found"
    );
    assert_eq!(
        ProcessError::Failed { command: "x".to_string(), status: None, stderr: String::new() }.message(),
        "x was killed by a signal"
    );
    assert_eq!(
        ProcessError::Failed { command: "x".to_string(), status: Some(-3), stderr: "e".to_string() }.message(),
        "x exited with status -3: e"
    );
}
