//! Moving a legacy depot home into the current one: where each entry of the old home
//! goes, and the refusals that stop the move.
use vstd::prelude::*;

use crate::daemon::{DAEMON_LOCK_FILE_NAME, DAEMON_SCOPE_FILE_NAME};
use crate::error::{Error, ErrorKind};
use crate::home::{DATABASE_FILE_NAME, LEGACY_DATABASE_FILE_NAME, RUN_DIR_NAME, SECRETS_DIR_NAME};
use crate::paths::{join, join_path};
use crate::restart::{DAEMON_LOG_FILE_NAME, DAEMON_STOP_FILE_NAME};
use crate::text::{chars_of, decimal, push_decimal, push_str, starts_with, starts_with_in, str_eq};

verus! {

pub const LEGACY_DATABASE_WAL: &'static str = "depot.db-wal";

pub const LEGACY_DATABASE_SHM: &'static str = "depot.db-shm";

pub const LEGACY_TOKEN_FILE: &'static str = "github-token";

pub const LEGACY_KEY_FILE: &'static str = "typesafe-key";

/// Where an entry of the legacy home goes, relative to the new home: the database and
/// its journal files take the new database name, the credentials go under the secrets
/// directory, the daemon's lock, scope, stop and log files under the run directory,
/// and anything else keeps its name.
pub open spec fn destination_spec(name: Seq<char>) -> Seq<char> {
    if name == LEGACY_DATABASE_FILE_NAME@ {
        DATABASE_FILE_NAME@
    } else if name == LEGACY_DATABASE_WAL@ {
        DATABASE_FILE_NAME@ + "-wal"@
    } else if name == LEGACY_DATABASE_SHM@ {
        DATABASE_FILE_NAME@ + "-shm"@
    } else if name == LEGACY_TOKEN_FILE@ || name == LEGACY_KEY_FILE@ {
        join(SECRETS_DIR_NAME@, name)
    } else if name == DAEMON_LOCK_FILE_NAME@ || name == DAEMON_SCOPE_FILE_NAME@ || name
        == DAEMON_STOP_FILE_NAME@ || starts_with(name, DAEMON_LOG_FILE_NAME@) {
        join(RUN_DIR_NAME@, name)
    } else {
        name
    }
}

pub fn destination_for(name: &str) -> (r: String)
    ensures
        r@ == destination_spec(name@),
{
    let v = chars_of(name);
    let log = chars_of(DAEMON_LOG_FILE_NAME);
    assert(v@.subrange(0, v@.len() as int) == v@);
    if str_eq(name, LEGACY_DATABASE_FILE_NAME) {
        let mut r = String::new();
        push_str(&mut r, DATABASE_FILE_NAME);
        r
    } else if str_eq(name, LEGACY_DATABASE_WAL) {
        let mut r = String::new();
        push_str(&mut r, DATABASE_FILE_NAME);
        push_str(&mut r, "-wal");
        r
    } else if str_eq(name, LEGACY_DATABASE_SHM) {
        let mut r = String::new();
        push_str(&mut r, DATABASE_FILE_NAME);
        push_str(&mut r, "-shm");
        r
    } else if str_eq(name, LEGACY_TOKEN_FILE) || str_eq(name, LEGACY_KEY_FILE) {
        join_path(SECRETS_DIR_NAME, name)
    } else if str_eq(name, DAEMON_LOCK_FILE_NAME) || str_eq(name, DAEMON_SCOPE_FILE_NAME) || str_eq(
        name,
        DAEMON_STOP_FILE_NAME,
    ) || starts_with_in(&v, 0, v.len(), &log) {
        join_path(RUN_DIR_NAME, name)
    } else {
        let mut r = String::new();
        push_str(&mut r, name);
        r
    }
}

/// The refusal to move a legacy database onto a database that already exists.
pub fn second_database_refusal(source: &str, destination: &str) -> (e: Error)
    ensures
        e.kind() == ErrorKind::Home,
        e.detail() == "cannot move "@ + source@ + ": "@ + destination@
            + " already holds records; merge them by hand, then run `depot store migrate` again"@,
{
    let mut m = String::new();
    push_str(&mut m, "cannot move ");
    push_str(&mut m, source);
    push_str(&mut m, ": ");
    push_str(&mut m, destination);
    push_str(
        &mut m,
        " already holds records; merge them by hand, then run `depot store migrate` again",
    );
    Error::Home(m)
}

/// The refusal to move legacy settings onto settings that are not the defaults.
pub fn settings_refusal(source: &str, destination: &str) -> (e: Error)
    ensures
        e.kind() == ErrorKind::Home,
        e.detail() == "cannot move "@ + source@ + ": "@ + destination@
            + " already holds settings; move them by hand, then run `depot store migrate` again"@,
{
    let mut m = String::new();
    push_str(&mut m, "cannot move ");
    push_str(&mut m, source);
    push_str(&mut m, ": ");
    push_str(&mut m, destination);
    push_str(
        &mut m,
        " already holds settings; move them by hand, then run `depot store migrate` again",
    );
    Error::Home(m)
}

/// The refusal to move an entry onto one that exists and is not a directory to merge
/// into.
pub fn entry_exists_refusal(source: &str, destination: &str) -> (e: Error)
    ensures
        e.kind() == ErrorKind::Home,
        e.detail() == "cannot move "@ + source@ + ": "@ + destination@ + " already exists"@,
{
    let mut m = String::new();
    push_str(&mut m, "cannot move ");
    push_str(&mut m, source);
    push_str(&mut m, ": ");
    push_str(&mut m, destination);
    push_str(&mut m, " already exists");
    Error::Home(m)
}

/// The daemon a legacy scope record names: none when its pid is 0.
pub fn scope_pid(pid: u32) -> (r: Option<u32>)
    ensures
        r == (if pid != 0 {
            Some(pid)
        } else {
            None
        }),
{
    if pid != 0 {
        Some(pid)
    } else {
        None
    }
}

pub open spec fn legacy_lock_message(path: Seq<char>, pid: Option<u32>) -> Seq<char> {
    let held = "another depot daemon already holds "@ + path;
    match pid {
        Some(p) => held + ": pid "@ + decimal(p as nat)
            + "; stop it, then run `depot store migrate` to move the old depot home into agni"@,
        None => held
            + ": the lock record names no daemon; stop it by hand, then run `depot store migrate`"@,
    }
}

/// The refusal to move a legacy home whose lock a daemon holds, naming that daemon's
/// pid when its scope record names one.
pub fn legacy_lock_refusal(path: &str, pid: Option<u32>) -> (e: Error)
    ensures
        e.kind() == ErrorKind::Home,
        e.detail() == legacy_lock_message(path@, pid),
{
    let mut m = String::new();
    push_str(&mut m, "another depot daemon already holds ");
    push_str(&mut m, path);
    match pid {
        Some(p) => {
            push_str(&mut m, ": pid ");
            push_decimal(&mut m, p as u64);
            push_str(
                &mut m,
                "; stop it, then run `depot store migrate` to move the old depot home into agni",
            );
        },
        None => {
            push_str(
                &mut m,
                ": the lock record names no daemon; stop it by hand, then run `depot store migrate`",
            );
        },
    }
    Error::Home(m)
}

} // verus!
