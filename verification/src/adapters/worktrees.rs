//! The worktree pool, driven through the `treehouse` program and `git`: the leases it
//! hands out, the pool it reports, and the check that a worktree holds no unlanded work
//! before its lease is returned.
use vstd::prelude::*;

use crate::adapters::forge::opt_text;
use crate::adapters::process::ProcessError;
use crate::text::{chars_of, decimal, push_decimal, lines, push_char, push_str, push_string, string_of, str_eq, texts, trim, trim_range, trim_str, lemma_next_line_found, lemma_next_line_last, find_char_in};

verus! {

/// A worktree leased from the pool.
#[derive(Debug, Clone, PartialEq, Eq)]
pub struct Lease {
    pub lease: String,
    pub path: String,
    pub holder: String,
    pub acquired_at: String,
}

/// A worktree of the pool, as `treehouse status` reports it.
#[derive(Debug, Clone, PartialEq, Eq)]
pub struct PoolEntry {
    pub name: String,
    pub path: String,
    pub state: String,
    pub lease: Option<String>,
    pub holder: Option<String>,
}

/// Why a worktree operation failed.
#[derive(Debug, Clone, PartialEq, Eq)]
pub enum WorktreeError {
    Command(ProcessError),
    MalformedOutput { command: String, detail: String },
    MissingField { command: String, field: String },
    UnlandedWork { lease: String, path: String, reason: String },
}

impl WorktreeError {
    /// The message shown for this error.
    pub open spec fn message_spec(&self) -> Seq<char> {
        match self {
            WorktreeError::Command(error) => error.message_spec(),
            WorktreeError::MalformedOutput { command, detail } => command@
                + " produced output depot cannot read: "@ + detail@,
            WorktreeError::MissingField { command, field } => command@ + " reported no "@ + field@
                + " field"@,
            WorktreeError::UnlandedWork { lease, path, reason } => "refusing to release lease "@
                + lease@ + " at "@ + path@ + ": "@ + reason@
                + "; a worktree holding unlanded work is never reset or removed"@,
        }
    }

    pub fn message(&self) -> (r: String)
        ensures
            r@ == self.message_spec(),
    {
        let mut r = String::new();
        match self {
            WorktreeError::Command(error) => {
                r = error.message();
            },
            WorktreeError::MalformedOutput { command, detail } => {
                push_string(&mut r, command);
                push_str(&mut r, " produced output depot cannot read: ");
                push_string(&mut r, detail);
            },
            WorktreeError::MissingField { command, field } => {
                push_string(&mut r, command);
                push_str(&mut r, " reported no ");
                push_string(&mut r, field);
                push_str(&mut r, " field");
            },
            WorktreeError::UnlandedWork { lease, path, reason } => {
                push_str(&mut r, "refusing to release lease ");
                push_string(&mut r, lease);
                push_str(&mut r, " at ");
                push_string(&mut r, path);
                push_str(&mut r, ": ");
                push_string(&mut r, reason);
                push_str(&mut r, "; a worktree holding unlanded work is never reset or removed");
            },
        }
        r
    }
}

/// The lines of `text` that are not blank, trimmed.
pub open spec fn non_empty_lines_spec(text: Seq<char>) -> Seq<Seq<char>> {
    kept_lines(lines(text))
}

pub open spec fn kept_lines(ls: Seq<Seq<char>>) -> Seq<Seq<char>>
    decreases ls.len(),
{
    if ls.len() == 0 {
        Seq::empty()
    } else {
        let rest = kept_lines(ls.drop_first());
        if trim(ls[0]).len() == 0 {
            rest
        } else {
            seq![trim(ls[0])] + rest
        }
    }
}

pub fn non_empty_lines(text: &str) -> (r: Vec<String>)
    ensures
        texts(r@) == non_empty_lines_spec(text@),
{
    let v = chars_of(text);
    let n = v.len();
    let mut kept: Vec<String> = Vec::new();
    let mut pos: usize = 0;
    assert(v@.subrange(0, n as int) == v@);
    while pos < n
        invariant
            pos <= n == v@.len(),
            v@ == text@,
            non_empty_lines_spec(text@) == texts(kept@) + kept_lines(
                lines(v@.subrange(pos as int, n as int)),
            ),
        decreases n - pos,
    {
        let (end, next) = match find_char_in(&v, pos, n, '\n') {
            Some(k) => {
                let e = if k > pos && v[k - 1] == '\r' {
                    k - 1
                } else {
                    k
                };
                proof {
                    lemma_next_line_found(v@, pos as int, k as int, e as int);
                }
                (e, k + 1)
            },
            None => {
                proof {
                    lemma_next_line_last(v@, pos as int);
                }
                (n, n)
            },
        };
        let ghost ls = lines(v@.subrange(pos as int, n as int));
        assert(ls == seq![v@.subrange(pos as int, end as int)] + lines(
            v@.subrange(next as int, n as int),
        ));
        assert(ls[0] == v@.subrange(pos as int, end as int));
        assert(ls.drop_first() == lines(v@.subrange(next as int, n as int)));
        let (a, b) = trim_range(&v, pos, end);
        let ghost before = kept@;
        if a < b {
            kept.push(string_of(&v, a, b));
            assert(texts(kept@) == texts(before) + seq![v@.subrange(a as int, b as int)]);
        }
        pos = next;
    }
    assert(v@.subrange(n as int, n as int) == Seq::<char>::empty());
    assert(lines(Seq::<char>::empty()).len() == 0);
    assert(texts(kept@) + Seq::<Seq<char>>::empty() == texts(kept@));
    kept
}

/// Why the commits on `HEAD` have not landed: how many there are, and where they are
/// missing, with the command that shows it.
pub open spec fn unreached_from_spec(count: Seq<char>, target: Seq<char>, hint: Seq<char>) -> Seq<char> {
    let (what, verb) = if count == "1"@ {
        ("commit"@, "is"@)
    } else {
        ("commits"@, "are"@)
    };
    count + seq![' '] + what + " reachable from HEAD "@ + verb + " on "@ + target + " ("@ + hint
        + seq![')']
}

pub fn unreached_from(count: &str, target: &str, hint: &str) -> (r: String)
    ensures
        r@ == unreached_from_spec(count@, target@, hint@),
{
    let one = str_eq(count, "1");
    let mut r = String::new();
    push_str(&mut r, count);
    push_char(&mut r, ' ');
    if one {
        push_str(&mut r, "commit");
    } else {
        push_str(&mut r, "commits");
    }
    push_str(&mut r, " reachable from HEAD ");
    if one {
        push_str(&mut r, "is");
    } else {
        push_str(&mut r, "are");
    }
    push_str(&mut r, " on ");
    push_str(&mut r, target);
    push_str(&mut r, " (");
    push_str(&mut r, hint);
    push_char(&mut r, ')');
    r
}

/// A field of a `treehouse` answer that must hold a non-empty string.
pub open spec fn field_result(
    r: Result<String, WorktreeError>,
    command: Seq<char>,
    value: Option<String>,
    name: Seq<char>,
) -> bool {
    match value {
        Some(text) if text@.len() > 0 => r is Ok && r->Ok_0@ == text@,
        _ => r matches Err(WorktreeError::MissingField { command: c, field: f }) && c@ == command
            && f@ == name,
    }
}

/// The field `name` of what `command` answered; a missing or empty field is an error.
pub fn field(command: &str, value: &Option<String>, name: &str) -> (r: Result<String, WorktreeError>)
    ensures
        field_result(r, command@, *value, name@),
{
    match value {
        Some(text) => {
            if text.as_str().is_empty() {
                Err(WorktreeError::MissingField { command: command.to_string(), field: name.to_string() })
            } else {
                Ok(text.clone())
            }
        },
        None => Err(WorktreeError::MissingField { command: command.to_string(), field: name.to_string() }),
    }
}

/// The fields depot reads from a lease answer.
#[derive(Debug, Clone, PartialEq, Eq)]
pub struct LeaseFields {
    pub lease_id: Option<String>,
    pub path: Option<String>,
    pub lease_holder: Option<String>,
    pub leased_at: Option<String>,
}

/// The lease `command` handed out: its id, path and time are required, and the holder
/// reads as empty when it is missing.
pub open spec fn lease_result(r: Result<Lease, WorktreeError>, command: Seq<char>, fields: LeaseFields) -> bool {
    let missing = |name: Seq<char>| r matches Err(WorktreeError::MissingField { command: c, field: f })
        && c@ == command && f@ == name;
    if !(fields.lease_id matches Some(t) && t@.len() > 0) {
        missing("lease_id"@)
    } else if !(fields.path matches Some(t) && t@.len() > 0) {
        missing("path"@)
    } else if !(fields.leased_at matches Some(t) && t@.len() > 0) {
        missing("leased_at"@)
    } else {
        r matches Ok(lease) && lease.lease@ == fields.lease_id->0@ && lease.path@
            == fields.path->0@ && lease.acquired_at@ == fields.leased_at->0@ && lease.holder@
            == match fields.lease_holder {
            Some(h) => h@,
            None => Seq::empty(),
        }
    }
}

pub fn read_lease(command: &str, fields: LeaseFields) -> (r: Result<Lease, WorktreeError>)
    ensures
        lease_result(r, command@, fields),
{
    let lease = field(command, &fields.lease_id, "lease_id")?;
    let path = field(command, &fields.path, "path")?;
    let holder = match &fields.lease_holder {
        Some(h) => h.clone(),
        None => String::new(),
    };
    let acquired_at = field(command, &fields.leased_at, "leased_at")?;
    Ok(Lease { lease, path, holder, acquired_at })
}

/// The fields depot reads from one worktree of a pool answer.
#[derive(Debug, Clone, PartialEq, Eq)]
pub struct PoolEntryFields {
    pub name: Option<String>,
    pub path: Option<String>,
    pub status: Option<String>,
    pub lease_id: Option<String>,
    pub lease_holder: Option<String>,
}

/// `value` when it holds a non-empty string.
pub open spec fn non_empty(value: Option<String>) -> Option<Seq<char>> {
    match value {
        Some(t) if t@.len() > 0 => Some(t@),
        _ => None,
    }
}

fn keep_non_empty(value: &Option<String>) -> (r: Option<String>)
    ensures
        match r {
            Some(t) => non_empty(*value) == Some(t@),
            None => non_empty(*value) is None,
        },
{
    match value {
        Some(t) => if t.as_str().is_empty() {
            None
        } else {
            Some(t.clone())
        },
        None => None,
    }
}

/// A worktree of the pool: its name, path and state are required; an empty lease or
/// holder reads as none.
pub open spec fn pool_entry_result(
    r: Result<PoolEntry, WorktreeError>,
    command: Seq<char>,
    fields: PoolEntryFields,
) -> bool {
    let missing = |name: Seq<char>| r matches Err(WorktreeError::MissingField { command: c, field: f })
        && c@ == command && f@ == name;
    if !(fields.name matches Some(t) && t@.len() > 0) {
        missing("name"@)
    } else if !(fields.path matches Some(t) && t@.len() > 0) {
        missing("path"@)
    } else if !(fields.status matches Some(t) && t@.len() > 0) {
        missing("status"@)
    } else {
        r matches Ok(entry) && entry.name@ == fields.name->0@ && entry.path@ == fields.path->0@
            && entry.state@ == fields.status->0@ && match entry.lease {
            Some(l) => non_empty(fields.lease_id) == Some(l@),
            None => non_empty(fields.lease_id) is None,
        } && match entry.holder {
            Some(h) => non_empty(fields.lease_holder) == Some(h@),
            None => non_empty(fields.lease_holder) is None,
        }
    }
}

/// The worktree fields hold what `read_pool_entry` requires.
pub open spec fn entry_complete(fields: PoolEntryFields) -> bool {
    (fields.name matches Some(t) && t@.len() > 0) && (fields.path matches Some(t) && t@.len() > 0)
        && (fields.status matches Some(t) && t@.len() > 0)
}

pub fn read_pool_entry(command: &str, fields: &PoolEntryFields) -> (r: Result<PoolEntry, WorktreeError>)
    ensures
        pool_entry_result(r, command@, *fields),
        r is Ok <==> entry_complete(*fields),
{
    let name = field(command, &fields.name, "name")?;
    let path = field(command, &fields.path, "path")?;
    let state = field(command, &fields.status, "status")?;
    let lease = keep_non_empty(&fields.lease_id);
    let holder = keep_non_empty(&fields.lease_holder);
    Ok(PoolEntry { name, path, state, lease, holder })
}

/// The pool `command` reported, entry by entry; the first entry missing a field is the
/// error. An answer that is not a list is refused.
#[verifier::loop_isolation(false)]
pub fn read_pool(command: &str, entries: Option<Vec<PoolEntryFields>>) -> (r: Result<
    Vec<PoolEntry>,
    WorktreeError,
>)
    ensures
        entries is None ==> (r matches Err(WorktreeError::MalformedOutput { command: c, detail: d })
            && c@ == command@ && d@ == "the pool status is not a list of worktrees"@),
        entries matches Some(list) ==> match r {
            Ok(pool) => pool@.len() == list@.len() && forall|i: int|
                0 <= i < list@.len() ==> pool_entry_result(
                    Ok(#[trigger] pool@[i]),
                    command@,
                    list@[i],
                ),
            Err(e) => exists|i: int|
                0 <= i < list@.len() && !entry_complete(#[trigger] list@[i]) && pool_entry_result(
                    Err(e),
                    command@,
                    list@[i],
                ) && forall|j: int| 0 <= j < i ==> entry_complete(#[trigger] list@[j]),
        },
{
    let list = match entries {
        Some(list) => list,
        None => {
            let mut detail = String::new();
            push_str(&mut detail, "the pool status is not a list of worktrees");
            return Err(WorktreeError::MalformedOutput { command: command.to_string(), detail });
        },
    };
    let mut pool: Vec<PoolEntry> = Vec::new();
    let mut i: usize = 0;
    while i < list.len()
        invariant
            i <= list@.len(),
            pool@.len() == i,
            forall|k: int| 0 <= k < i ==> pool_entry_result(Ok(#[trigger] pool@[k]), command@, list@[k]),
            forall|k: int| 0 <= k < i ==> entry_complete(#[trigger] list@[k]),
        decreases list@.len() - i,
    {
        let entry = match read_pool_entry(command, &list[i]) {
            Ok(entry) => entry,
            Err(e) => {
                assert(!entry_complete(list@[i as int]));
                return Err(e);
            },
        };
        pool.push(entry);
        i += 1;
    }
    Ok(pool)
}

/// The arguments of `treehouse get` that lease a worktree to `holder`.
pub open spec fn acquire_args_spec(holder: Seq<char>) -> Seq<Seq<char>> {
    seq!["get"@, "--lease"@, "--json"@, "--lease-holder"@, holder]
}

pub fn acquire_args(holder: &str) -> (r: Vec<String>)
    ensures
        texts(r@) == acquire_args_spec(holder@),
{
    let args = vec![
        "get".to_string(),
        "--lease".to_string(),
        "--json".to_string(),
        "--lease-holder".to_string(),
        holder.to_string(),
    ];
    assert(texts(args@) =~= acquire_args_spec(holder@));
    args
}

/// The arguments of `treehouse return` that give `lease` back, only while it is still
/// the lease on that worktree.
pub open spec fn return_args_spec(lease: Lease) -> Seq<Seq<char>> {
    seq!["return"@, lease.path@, "--if-lease-id"@, lease.lease@]
}

pub fn return_args(lease: &Lease) -> (r: Vec<String>)
    ensures
        texts(r@) == return_args_spec(*lease),
{
    let args = vec![
        "return".to_string(),
        lease.path.clone(),
        "--if-lease-id".to_string(),
        lease.lease.clone(),
    ];
    assert(texts(args@) =~= return_args_spec(*lease));
    args
}

/// `s` with every `from` replaced by `to`.
pub open spec fn replace_char(s: Seq<char>, from: char, to: char) -> Seq<char> {
    Seq::new(s.len(), |i: int| if s[i] == from { to } else { s[i] })
}

/// The `git` arguments that put the leased worktree at `path` on the pinned `commit`, on
/// a branch named after the lease holder with its colons turned into dashes.
pub open spec fn pinned_checkout_args_spec(path: Seq<char>, holder: Seq<char>, commit: Seq<char>) -> Seq<
    Seq<char>,
> {
    seq!["-C"@, path, "checkout"@, "-B"@, replace_char(holder, ':', '-'), commit]
}

pub fn pinned_checkout_args(path: &str, holder: &str, commit: &str) -> (r: Vec<String>)
    ensures
        texts(r@) == pinned_checkout_args_spec(path@, holder@, commit@),
{
    let v = chars_of(holder);
    let mut branch = String::new();
    let mut i: usize = 0;
    while i < v.len()
        invariant
            i <= v@.len(),
            branch@ == replace_char(v@, ':', '-').take(i as int),
        decreases v@.len() - i,
    {
        if v[i] == ':' {
            push_char(&mut branch, '-');
        } else {
            push_char(&mut branch, v[i]);
        }
        assert(branch@ =~= replace_char(v@, ':', '-').take(i + 1));
        i += 1;
    }
    assert(replace_char(v@, ':', '-').take(v@.len() as int) == replace_char(v@, ':', '-'));
    let args = vec![
        "-C".to_string(),
        path.to_string(),
        "checkout".to_string(),
        "-B".to_string(),
        branch,
        commit.to_string(),
    ];
    assert(texts(args@) =~= pinned_checkout_args_spec(path@, holder@, commit@));
    args
}

/// The questions asked of a worktree, in turn, before its lease is returned.
#[derive(Debug, Clone, Copy, PartialEq, Eq)]
pub enum UnlandedCheck {
    /// Does it hold uncommitted paths?
    Status,
    /// Is `HEAD` on a remote branch?
    OnRemote,
    /// Are there remote branches at all?
    Remotes,
    /// How many commits of `HEAD` are on no remote branch?
    CountOffRemotes,
    /// Is `HEAD` on any ref?
    OnAnyRef,
    /// How many commits are reachable from `HEAD`?
    CountAll,
}

/// The `git` arguments, after `-C <worktree>`, that answer a check.
pub open spec fn check_args_spec(check: UnlandedCheck) -> Seq<Seq<char>> {
    match check {
        UnlandedCheck::Status => seq!["status"@, "--porcelain"@],
        UnlandedCheck::OnRemote => seq![
            "for-each-ref"@,
            "--format=%(refname)"@,
            "--contains"@,
            "HEAD"@,
            "refs/remotes"@,
        ],
        UnlandedCheck::Remotes => seq!["for-each-ref"@, "--format=%(refname)"@, "refs/remotes"@],
        UnlandedCheck::CountOffRemotes => seq![
            "rev-list"@,
            "--count"@,
            "HEAD"@,
            "--not"@,
            "--remotes"@,
        ],
        UnlandedCheck::OnAnyRef => seq!["for-each-ref"@, "--format=%(refname)"@, "--contains"@, "HEAD"@],
        UnlandedCheck::CountAll => seq!["rev-list"@, "--count"@, "HEAD"@],
    }
}

/// The `git` arguments that answer `check` on the worktree at `path`.
pub fn check_args(path: &str, check: UnlandedCheck) -> (r: Vec<String>)
    ensures
        texts(r@) == seq!["-C"@, path@] + check_args_spec(check),
{
    let mut args = vec!["-C".to_string(), path.to_string()];
    match check {
        UnlandedCheck::Status => {
            args.push("status".to_string());
            args.push("--porcelain".to_string());
        },
        UnlandedCheck::OnRemote => {
            args.push("for-each-ref".to_string());
            args.push("--format=%(refname)".to_string());
            args.push("--contains".to_string());
            args.push("HEAD".to_string());
            args.push("refs/remotes".to_string());
        },
        UnlandedCheck::Remotes => {
            args.push("for-each-ref".to_string());
            args.push("--format=%(refname)".to_string());
            args.push("refs/remotes".to_string());
        },
        UnlandedCheck::CountOffRemotes => {
            args.push("rev-list".to_string());
            args.push("--count".to_string());
            args.push("HEAD".to_string());
            args.push("--not".to_string());
            args.push("--remotes".to_string());
        },
        UnlandedCheck::OnAnyRef => {
            args.push("for-each-ref".to_string());
            args.push("--format=%(refname)".to_string());
            args.push("--contains".to_string());
            args.push("HEAD".to_string());
        },
        UnlandedCheck::CountAll => {
            args.push("rev-list".to_string());
            args.push("--count".to_string());
            args.push("HEAD".to_string());
        },
    }
    assert(texts(args@) =~= seq!["-C"@, path@] + check_args_spec(check));
    args
}

/// What a check's answer leads to: another check, the finding that the work has landed,
/// or the reason it has not.
#[derive(Debug, Clone, PartialEq, Eq)]
pub enum UnlandedNext {
    Ask(UnlandedCheck),
    Landed,
    Unlanded(String),
}

/// `<path> holds <n> uncommitted path(s)`.
pub open spec fn uncommitted_spec(path: Seq<char>, changed: nat) -> Seq<char> {
    path + " holds "@ + decimal(changed) + seq![' '] + if changed == 1 {
        "uncommitted path"@
    } else {
        "uncommitted paths"@
    }
}

/// What the answer `stdout` to `check` on the worktree at `path` leads to. Uncommitted
/// paths are unlanded work; otherwise `HEAD` on a remote branch has landed; when there
/// are remote branches and `HEAD` is on none, its commits off the remotes are unlanded;
/// when there are none, `HEAD` on any ref has landed, and otherwise all its commits are
/// unlanded.
pub open spec fn after_check_spec(path: Seq<char>, check: UnlandedCheck, stdout: Seq<char>) -> (
    bool,
    Option<UnlandedCheck>,
    Seq<char>,
) {
    let listed = non_empty_lines_spec(stdout).len() > 0;
    match check {
        UnlandedCheck::Status => if listed {
            (false, None, uncommitted_spec(path, non_empty_lines_spec(stdout).len()))
        } else {
            (false, Some(UnlandedCheck::OnRemote), Seq::empty())
        },
        UnlandedCheck::OnRemote => if listed {
            (true, None, Seq::empty())
        } else {
            (false, Some(UnlandedCheck::Remotes), Seq::empty())
        },
        UnlandedCheck::Remotes => if listed {
            (false, Some(UnlandedCheck::CountOffRemotes), Seq::empty())
        } else {
            (false, Some(UnlandedCheck::OnAnyRef), Seq::empty())
        },
        UnlandedCheck::CountOffRemotes => (
            false,
            None,
            unreached_from_spec(
                trim(stdout),
                "no remote branch"@,
                "git -C <worktree> for-each-ref --contains HEAD refs/remotes"@,
            ),
        ),
        UnlandedCheck::OnAnyRef => if listed {
            (true, None, Seq::empty())
        } else {
            (false, Some(UnlandedCheck::CountAll), Seq::empty())
        },
        UnlandedCheck::CountAll => (
            false,
            None,
            unreached_from_spec(
                trim(stdout),
                "no ref at all"@,
                "git -C <worktree> for-each-ref --contains HEAD"@,
            ),
        ),
    }
}

/// The view of a step: landed, the next check, or the reason of unlanded work.
pub open spec fn next_view(next: UnlandedNext) -> (bool, Option<UnlandedCheck>, Seq<char>) {
    match next {
        UnlandedNext::Ask(check) => (false, Some(check), Seq::empty()),
        UnlandedNext::Landed => (true, None, Seq::empty()),
        UnlandedNext::Unlanded(reason) => (false, None, reason@),
    }
}

pub fn after_check(path: &str, check: UnlandedCheck, stdout: &str) -> (r: UnlandedNext)
    ensures
        next_view(r) == after_check_spec(path@, check, stdout@),
{
    let lines = non_empty_lines(stdout);
    let listed = lines.len() > 0;
    match check {
        UnlandedCheck::Status => {
            if listed {
                let mut reason = String::new();
                push_str(&mut reason, path);
                push_str(&mut reason, " holds ");
                push_decimal(&mut reason, lines.len() as u64);
                push_char(&mut reason, ' ');
                if lines.len() == 1 {
                    push_str(&mut reason, "uncommitted path");
                } else {
                    push_str(&mut reason, "uncommitted paths");
                }
                UnlandedNext::Unlanded(reason)
            } else {
                UnlandedNext::Ask(UnlandedCheck::OnRemote)
            }
        },
        UnlandedCheck::OnRemote => if listed {
            UnlandedNext::Landed
        } else {
            UnlandedNext::Ask(UnlandedCheck::Remotes)
        },
        UnlandedCheck::Remotes => if listed {
            UnlandedNext::Ask(UnlandedCheck::CountOffRemotes)
        } else {
            UnlandedNext::Ask(UnlandedCheck::OnAnyRef)
        },
        UnlandedCheck::CountOffRemotes => UnlandedNext::Unlanded(
            unreached_from(
                trim_str(stdout),
                "no remote branch",
                "git -C <worktree> for-each-ref --contains HEAD refs/remotes",
            ),
        ),
        UnlandedCheck::OnAnyRef => if listed {
            UnlandedNext::Landed
        } else {
            UnlandedNext::Ask(UnlandedCheck::CountAll)
        },
        UnlandedCheck::CountAll => UnlandedNext::Unlanded(
            unreached_from(
                trim_str(stdout),
                "no ref at all",
                "git -C <worktree> for-each-ref --contains HEAD",
            ),
        ),
    }
}

/// A lease whose worktree holds unlanded work is not returned.
pub fn refuse_release(lease: &Lease, reason: String) -> (e: WorktreeError)
    ensures
        e matches WorktreeError::UnlandedWork { lease: l, path: p, reason: r } && l@ == lease.lease@
            && p@ == lease.path@ && r@ == reason@,
{
    WorktreeError::UnlandedWork { lease: lease.lease.clone(), path: lease.path.clone(), reason }
}

/// The fields of a lease answer by their values.
pub open spec fn lease_fields_view(f: LeaseFields) -> (Option<Seq<char>>, Option<Seq<char>>, Option<Seq<char>>, Option<Seq<char>>) {
    (opt_text(f.lease_id), opt_text(f.path), opt_text(f.lease_holder), opt_text(f.leased_at))
}

/// What `serde_json` reads from `treehouse acquire`'s answer: the parse error's text, or
/// its `lease_id`, `path`, `lease_holder` and `leased_at` strings.
pub uninterp spec fn json_lease_fields(text: Seq<char>) -> Result<
    (Option<Seq<char>>, Option<Seq<char>>, Option<Seq<char>>, Option<Seq<char>>),
    Seq<char>,
>;

/// Parses `text` with `serde_json::from_str` and reads its fields with `Value::get` and
/// `as_str`. Claimed: the result is `json_lease_fields` of the text.
#[verifier::external_body]
fn read_lease_fields(text: &str) -> (r: Result<LeaseFields, String>)
    ensures
        match r {
            Ok(f) => json_lease_fields(text@) == Ok::<_, Seq<char>>(lease_fields_view(f)),
            Err(m) => json_lease_fields(text@) == Err::<(Option<Seq<char>>, Option<Seq<char>>, Option<Seq<char>>, Option<Seq<char>>), Seq<char>>(m@),
        },
{
    let value: serde_json::Value = serde_json::from_str(text).map_err(|error| error.to_string())?;
    let field = |name: &str| value.get(name).and_then(serde_json::Value::as_str).map(str::to_owned);
    Ok(LeaseFields {
        lease_id: field("lease_id"),
        path: field("path"),
        lease_holder: field("lease_holder"),
        leased_at: field("leased_at"),
    })
}

/// The fields of the lease `command` answered with on `stdout`, read once its surrounding
/// whitespace is trimmed; output that is not JSON is malformed.
pub fn lease_fields_from(command: &str, stdout: &str) -> (r: Result<LeaseFields, WorktreeError>)
    ensures
        match json_lease_fields(trim(stdout@)) {
            Ok(v) => r matches Ok(f) && lease_fields_view(f) == v,
            Err(m) => r matches Err(WorktreeError::MalformedOutput { command: c, detail: d })
                && c@ == command@ && d@ == m,
        },
{
    match read_lease_fields(trim_str(stdout)) {
        Ok(f) => Ok(f),
        Err(m) => {
            let mut c = String::new();
            push_str(&mut c, command);
            Err(WorktreeError::MalformedOutput { command: c, detail: m })
        },
    }
}

/// The fields of a pool entry by their values.
pub open spec fn pool_entry_fields_view(f: PoolEntryFields) -> (Option<Seq<char>>, Option<Seq<char>>, Option<Seq<char>>, Option<Seq<char>>, Option<Seq<char>>) {
    (opt_text(f.name), opt_text(f.path), opt_text(f.status), opt_text(f.lease_id), opt_text(f.lease_holder))
}

pub open spec fn pool_fields_view(entries: Option<Vec<PoolEntryFields>>) -> Option<Seq<(Option<Seq<char>>, Option<Seq<char>>, Option<Seq<char>>, Option<Seq<char>>, Option<Seq<char>>)>> {
    match entries {
        Some(list) => Some(Seq::new(list@.len(), |i: int| pool_entry_fields_view(list@[i]))),
        None => None,
    }
}

/// What `serde_json` reads from `treehouse status --json`: the parse error's text, or,
/// when the answer is a list, the `name`, `path`, `status`, `lease_id` and `lease_holder`
/// strings of each entry.
pub uninterp spec fn json_pool_fields(text: Seq<char>) -> Result<
    Option<Seq<(Option<Seq<char>>, Option<Seq<char>>, Option<Seq<char>>, Option<Seq<char>>, Option<Seq<char>>)>>,
    Seq<char>,
>;

/// Parses `text` with `serde_json::from_str`, takes its entries with `as_array`, and reads
/// each with `Value::get` and `as_str`. Claimed: the result is `json_pool_fields` of the
/// text.
#[verifier::external_body]
fn read_pool_fields(text: &str) -> (r: Result<Option<Vec<PoolEntryFields>>, String>)
    ensures
        match r {
            Ok(entries) => json_pool_fields(text@) == Ok::<_, Seq<char>>(pool_fields_view(entries)),
            Err(m) => json_pool_fields(text@) == Err::<Option<Seq<(Option<Seq<char>>, Option<Seq<char>>, Option<Seq<char>>, Option<Seq<char>>, Option<Seq<char>>)>>, Seq<char>>(m@),
        },
{
    let value: serde_json::Value = serde_json::from_str(text).map_err(|error| error.to_string())?;
    let field = |entry: &serde_json::Value, name: &str| entry.get(name).and_then(serde_json::Value::as_str).map(str::to_owned);
    Ok(value.as_array().map(|entries| entries.iter().map(|entry| PoolEntryFields {
        name: field(entry, "name"),
        path: field(entry, "path"),
        status: field(entry, "status"),
        lease_id: field(entry, "lease_id"),
        lease_holder: field(entry, "lease_holder"),
    }).collect()))
}

/// The entries of the pool `command` reported on `stdout`, read once its surrounding
/// whitespace is trimmed; none when the answer is not a list; output that is not JSON is
/// malformed.
pub fn pool_fields_from(command: &str, stdout: &str) -> (r: Result<Option<Vec<PoolEntryFields>>, WorktreeError>)
    ensures
        match json_pool_fields(trim(stdout@)) {
            Ok(v) => r matches Ok(entries) && pool_fields_view(entries) == v,
            Err(m) => r matches Err(WorktreeError::MalformedOutput { command: c, detail: d })
                && c@ == command@ && d@ == m,
        },
{
    match read_pool_fields(trim_str(stdout)) {
        Ok(entries) => Ok(entries),
        Err(m) => {
            let mut c = String::new();
            push_str(&mut c, command);
            Err(WorktreeError::MalformedOutput { command: c, detail: m })
        },
    }
}

} // verus!
