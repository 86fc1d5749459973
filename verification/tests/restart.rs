use std::time::Duration;

use depotd::daemon::DaemonScope;
use depotd::error::Error;
use depotd::home::DepotHome;
use depotd::restart::{
    carried_projects, launch_spec, must_stop, stop_request_matches, unnamed_holder, RestartOptions,
};

fn scope(projects: &[&str]) -> DaemonScope {
    DaemonScope {
        pid: 9,
        started_at_millis: 100,
        projects: projects.iter().map(|p| p.to_string()).collect(),
        heartbeat_millis: 100,
        build_id: "b".to_string(),
    }
}

#[test]
fn a_restart_carries_the_projects_of_the_running_daemon() {
    let home = DepotHome::at("/h".to_string());
    let previous = scope(&["p1", "p2"]);
    let projects = carried_projects(Some(&previous));
    assert_eq!(projects, vec!["p1", "p2"]);
    assert!(carried_projects(None).is_empty());
    let spec = launch_spec(&home, "/bin/depotd".to_string(), &projects);
    assert_eq!(spec.program, "/bin/depotd");
    assert_eq!(spec.arguments, vec!["--project", "p1", "--project", "p2"]);
    assert_eq!(spec.directory, "/h");
    assert_eq!(spec.log, "/h/depotd.log");
    let options = RestartOptions { program: "/bin/depotd".to_string(), timeout: Duration::from_secs(5) };
    assert_eq!(options.timeout, Duration::from_secs(5));
}

#[test]
fn only_a_held_lock_with_a_scope_is_stopped() {
    let previous = scope(&[]);
    assert!(must_stop(Some(&previous), true));
    assert!(!must_stop(Some(&previous), false));
    assert!(!must_stop(None, true));
    assert_eq!(
        unnamed_holder(&DepotHome::at("/h".to_string())),
        Error::Home("a process holds /h/depotd.lock but the lock record names no pid: stop it by hand".to_string())
    );
}

#[test]
fn a_stop_request_names_one_daemon_run() {
    assert!(stop_request_matches(Some((9, 100)), 9, 100));
    assert!(!stop_request_matches(Some((9, 101)), 9, 100));
    assert!(!stop_request_matches(Some((8, 100)), 9, 100));
    assert!(!stop_request_matches(None, 9, 100));
}
