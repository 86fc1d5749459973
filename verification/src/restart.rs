//! Restarting the daemon in place: stopping the running one through a stop request and
//! launching its successor over the same projects.
use std::time::Duration;

use vstd::prelude::*;

use crate::daemon::{DaemonScope, DAEMON_LOCK_FILE_NAME};
use crate::error::Error;
use crate::home::DepotHome;
use crate::paths::join;
use crate::paths::join_path;
use crate::text::{push_str, push_string, texts};

verus! {

/// The log the launched daemon writes to, in the home's root.
pub const DAEMON_LOG_FILE_NAME: &'static str = "depotd.log";

/// The file that asks a running daemon to stop, in the home's root.
pub const DAEMON_STOP_FILE_NAME: &'static str = "depotd.stop";

/// How to restart: the daemon program to launch, and how long to wait for the running
/// one to stop.
#[derive(Debug)]
pub struct RestartOptions {
    pub program: String,
    pub timeout: Duration,
}

/// What a restart did: the pid it stopped, if any, the pid it launched, the log the new
/// daemon writes and the projects it covers.
#[derive(Debug, Clone, PartialEq, Eq)]
pub struct Restarted {
    pub stopped: Option<u32>,
    pub pid: u32,
    pub log: String,
    pub projects: Vec<String>,
}

/// How to launch a detached daemon.
#[derive(Debug, Clone, PartialEq, Eq)]
pub struct LaunchSpec {
    pub program: String,
    pub arguments: Vec<String>,
    pub directory: String,
    pub log: String,
}

/// `--project <id>` for each project, in order.
pub open spec fn project_arguments(projects: Seq<Seq<char>>) -> Seq<Seq<char>>
    decreases projects.len(),
{
    if projects.len() == 0 {
        Seq::empty()
    } else {
        project_arguments(projects.drop_last()) + seq!["--project"@, projects.last()]
    }
}

/// The launch of a daemon over `projects`, run in the home's root and logging beside it.
pub fn launch_spec(home: &DepotHome, program: String, projects: &[String]) -> (r: LaunchSpec)
    ensures
        r.program@ == program@,
        texts(r.arguments@) == project_arguments(texts(projects@)),
        r.directory@ == home@,
        r.log@ == join(home@, DAEMON_LOG_FILE_NAME@),
{
    let mut arguments: Vec<String> = Vec::new();
    let mut i: usize = 0;
    while i < projects.len()
        invariant
            i <= projects@.len(),
            texts(arguments@) == project_arguments(texts(projects@).take(i as int)),
        decreases projects@.len() - i,
    {
        let ghost before = texts(arguments@);
        arguments.push("--project".to_string());
        arguments.push(projects[i].clone());
        proof {
            assert(texts(projects@).take(i + 1).drop_last() == texts(projects@).take(i as int));
            assert(texts(projects@).take(i + 1).last() == projects@[i as int]@);
            assert(texts(arguments@) =~= before + seq!["--project"@, projects@[i as int]@]);
        }
        i += 1;
    }
    assert(texts(projects@).take(projects@.len() as int) == texts(projects@));
    let root = home.root();
    LaunchSpec {
        program,
        arguments,
        directory: root.to_string(),
        log: join_path(root, DAEMON_LOG_FILE_NAME),
    }
}

/// Whether a restart must stop a running daemon first: one is recorded, and its lock
/// is held.
pub fn must_stop(previous: Option<&DaemonScope>, lock_held: bool) -> (r: bool)
    ensures
        r == (previous is Some && lock_held),
{
    previous.is_some() && lock_held
}

/// The projects the new daemon covers: those the previous one covered, or none.
pub fn carried_projects(previous: Option<&DaemonScope>) -> (r: Vec<String>)
    ensures
        match previous {
            Some(scope) => texts(r@) == texts(scope.projects@),
            None => r@.len() == 0,
        },
{
    match previous {
        Some(scope) => {
            let mut r: Vec<String> = Vec::new();
            let mut i: usize = 0;
            while i < scope.projects.len()
                invariant
                    i <= scope.projects@.len(),
                    r@ == scope.projects@.take(i as int),
                decreases scope.projects@.len() - i,
            {
                r.push(scope.projects[i].clone());
                assert(r@ =~= scope.projects@.take(i + 1));
                i += 1;
            }
            assert(scope.projects@.take(scope.projects@.len() as int) == scope.projects@);
            r
        },
        None => Vec::new(),
    }
}

/// A running daemon whose lock record names no pid cannot be asked to stop.
pub fn unnamed_holder(home: &DepotHome) -> (e: Error)
    ensures
        e matches Error::Home(m) && m@ == "a process holds "@ + join(home@, DAEMON_LOCK_FILE_NAME@)
            + " but the lock record names no pid: stop it by hand"@,
{
    let mut m = String::new();
    push_str(&mut m, "a process holds ");
    let lock = join_path(home.root(), DAEMON_LOCK_FILE_NAME);
    push_string(&mut m, &lock);
    push_str(&mut m, " but the lock record names no pid: stop it by hand");
    Error::Home(m)
}

/// Whether a stop request is addressed to the daemon with `pid` started at
/// `started_at_millis`: both must match.
pub fn stop_request_matches(request: Option<(u32, u64)>, pid: u32, started_at_millis: u64) -> (r: bool)
    ensures
        r == (request == Some((pid, started_at_millis))),
{
    match request {
        Some((p, started)) => p == pid && started == started_at_millis,
        None => false,
    }
}

} // verus!
