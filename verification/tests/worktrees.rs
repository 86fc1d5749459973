use depotd::adapters::worktrees::{
    acquire_args, after_check, check_args, field, non_empty_lines, pinned_checkout_args,
    read_lease, read_pool, read_pool_entry, refuse_release, return_args, unreached_from, Lease,
    LeaseFields, PoolEntry, PoolEntryFields, UnlandedCheck, UnlandedNext, WorktreeError,
};

fn some(s: &str) -> Option<String> {
    Some(s.to_string())
}

fn lease() -> Lease {
    Lease {
        lease: "l-1".to_string(),
        path: "/pool/a".to_string(),
        holder: "depot:t-1".to_string(),
        acquired_at: "2024-01-01".to_string(),
    }
}

#[test]
fn blank_lines_are_dropped_and_the_rest_trimmed() {
    assert_eq!(non_empty_lines("  a \n\n \t\nb\r\n"), vec!["a", "b"]);
    assert!(non_empty_lines("").is_empty());
}

#[test]
fn unreached_commits_are_counted_in_words() {
    assert_eq!(
        unreached_from("1", "no remote branch", "hint"),
        "1 commit reachable from HEAD is on no remote branch (hint)"
    );
    assert_eq!(
        unreached_from("3", "no ref at all", "h"),
        "3 commits reachable from HEAD are on no ref at all (h)"
    );
}

#[test]
fn a_lease_needs_its_id_path_and_time() {
    let fields = LeaseFields {
        lease_id: some("l-1"),
        path: some("/pool/a"),
        lease_holder: None,
        leased_at: some("t"),
    };
    assert_eq!(
        read_lease("treehouse get", fields.clone()),
        Ok(Lease {
            lease: "l-1".to_string(),
            path: "/pool/a".to_string(),
            holder: String::new(),
            acquired_at: "t".to_string()
        })
    );
    assert_eq!(
        read_lease("treehouse get", LeaseFields { path: some(""), ..fields }),
        Err(WorktreeError::MissingField {
            command: "treehouse get".to_string(),
            field: "path".to_string()
        })
    );
    assert_eq!(field("c", &None, "x").unwrap_err().message(), "c reported no x field");
}

#[test]
fn a_pool_entry_reads_empty_leases_as_none() {
    let fields = PoolEntryFields {
        name: some("a"),
        path: some("/pool/a"),
        status: some("free"),
        lease_id: some(""),
        lease_holder: some("h"),
    };
    assert_eq!(
        read_pool_entry("s", &fields),
        Ok(PoolEntry {
            name: "a".to_string(),
            path: "/pool/a".to_string(),
            state: "free".to_string(),
            lease: None,
            holder: some("h"),
        })
    );
    let broken = PoolEntryFields { status: None, ..fields.clone() };
    assert_eq!(
        read_pool("s", Some(vec![fields, broken])),
        Err(WorktreeError::MissingField { command: "s".to_string(), field: "status".to_string() })
    );
    assert_eq!(
        read_pool("s", None).unwrap_err().message(),
        "s produced output depot cannot read: the pool status is not a list of worktrees"
    );
    assert_eq!(read_pool("s", Some(vec![])), Ok(vec![]));
}

#[test]
fn treehouse_and_git_are_asked_with_these_arguments() {
    assert_eq!(acquire_args("depot:t-1"), vec!["get", "--lease", "--json", "--lease-holder", "depot:t-1"]);
    assert_eq!(return_args(&lease()), vec!["return", "/pool/a", "--if-lease-id", "l-1"]);
    assert_eq!(
        pinned_checkout_args("/pool/a", "depot:t-1:x", "abc"),
        vec!["-C", "/pool/a", "checkout", "-B", "depot-t-1-x", "abc"]
    );
    assert_eq!(check_args("/w", UnlandedCheck::Status), vec!["-C", "/w", "status", "--porcelain"]);
    assert_eq!(
        check_args("/w", UnlandedCheck::CountOffRemotes),
        vec!["-C", "/w", "rev-list", "--count", "HEAD", "--not", "--remotes"]
    );
}

#[test]
fn uncommitted_paths_are_unlanded_work() {
    assert_eq!(
        after_check("/w", UnlandedCheck::Status, " M a\n?? b\n"),
        UnlandedNext::Unlanded("/w holds 2 uncommitted paths".to_string())
    );
    assert_eq!(
        after_check("/w", UnlandedCheck::Status, " M a\n"),
        UnlandedNext::Unlanded("/w holds 1 uncommitted path".to_string())
    );
    assert_eq!(
        after_check("/w", UnlandedCheck::Status, "\n"),
        UnlandedNext::Ask(UnlandedCheck::OnRemote)
    );
}

#[test]
fn a_head_on_a_remote_branch_has_landed() {
    assert_eq!(
        after_check("/w", UnlandedCheck::OnRemote, "refs/remotes/origin/main\n"),
        UnlandedNext::Landed
    );
    assert_eq!(after_check("/w", UnlandedCheck::OnRemote, ""), UnlandedNext::Ask(UnlandedCheck::Remotes));
    assert_eq!(
        after_check("/w", UnlandedCheck::Remotes, "refs/remotes/origin/main\n"),
        UnlandedNext::Ask(UnlandedCheck::CountOffRemotes)
    );
    assert_eq!(after_check("/w", UnlandedCheck::Remotes, ""), UnlandedNext::Ask(UnlandedCheck::OnAnyRef));
    assert_eq!(
        after_check("/w", UnlandedCheck::CountOffRemotes, " 2\n"),
        UnlandedNext::Unlanded(
            "2 commits reachable from HEAD are on no remote branch (git -C <worktree> for-each-ref --contains HEAD refs/remotes)".to_string()
        )
    );
    assert_eq!(after_check("/w", UnlandedCheck::OnAnyRef, "refs/heads/x\n"), UnlandedNext::Landed);
    assert_eq!(
        after_check("/w", UnlandedCheck::CountAll, "1\n"),
        UnlandedNext::Unlanded(
            "1 commit reachable from HEAD is on no ref at all (git -C <worktree> for-each-ref --contains HEAD)".to_string()
        )
    );
}

#[test]
fn a_release_is_refused_with_the_reason() {
    let error = refuse_release(&lease(), "it holds work".to_string());
    assert_eq!(
        error.message(),
        "refusing to release lease l-1 at /pool/a: it holds work; a worktree holding unlanded work is never reset or removed"
    );
}

use depotd::adapters::worktrees::{lease_fields_from, pool_fields_from, WorktreeError as PoolError};

#[test]
fn treehouse_answers_are_read_into_fields() {
    let fields = lease_fields_from(
        "treehouse acquire",
        "  {\"lease_id\":\"l-1\",\"path\":\"/p\",\"lease_holder\":\"depot:t-1\",\"leased_at\":\"now\"}\n",
    )
    .unwrap();
    assert_eq!(fields.lease_id.as_deref(), Some("l-1"));
    assert_eq!(fields.leased_at.as_deref(), Some("now"));
    assert!(matches!(lease_fields_from("c", "oops"), Err(PoolError::MalformedOutput { ref command, .. }) if command == "c"));
    let pool = pool_fields_from("c", "[{\"name\":\"wt-1\",\"path\":\"/p\",\"status\":\"idle\"}]").unwrap().unwrap();
    assert_eq!(pool[0].name.as_deref(), Some("wt-1"));
    assert_eq!(pool[0].lease_id, None);
    assert_eq!(pool_fields_from("c", "{}").unwrap(), None);
}
