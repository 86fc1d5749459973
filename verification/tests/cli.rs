use depotd::cli::{asks_for_version, daemon_arguments, no_projects_registered, DAEMON_USAGE};
use depotd::error::Error;

fn args(items: &[&str]) -> Vec<String> {
    items.iter().map(|s| s.to_string()).collect()
}

#[test]
fn the_version_flag_is_the_first_argument() {
    assert!(asks_for_version(Some("--version")));
    assert!(asks_for_version(Some("-V")));
    assert!(!asks_for_version(Some("--project")));
    assert!(!asks_for_version(None));
}

#[test]
fn projects_narrow_the_daemon() {
    assert_eq!(daemon_arguments(&args(&[])), Ok(None));
    assert_eq!(
        daemon_arguments(&args(&["--project", "web", "--project", "api"])),
        Ok(Some(args(&["web", "api"])))
    );
}

#[test]
fn other_arguments_are_refused_with_the_usage() {
    assert_eq!(
        daemon_arguments(&args(&["--project"])),
        Err(Error::Project(format!("--project needs a value\n{DAEMON_USAGE}")))
    );
    assert_eq!(daemon_arguments(&args(&["-h"])), Err(Error::Project(DAEMON_USAGE.to_string())));
    assert_eq!(
        daemon_arguments(&args(&["--project", "web", "--all"])),
        Err(Error::Project(format!("unknown argument `--all`\n{DAEMON_USAGE}")))
    );
    assert_eq!(
        no_projects_registered(),
        Error::Project("no projects are registered; add one with `depot project add`".to_string())
    );
}
