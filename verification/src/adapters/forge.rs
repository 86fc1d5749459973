//! The forge that delivery talks to: GitHub repositories, pull requests and the check
//! runs on their head commits.
//!
//! The HTTP exchange and the JSON decoding happen at the edge; what arrives here is the
//! status and body of each answer and the fields read from it, and this module decides
//! what they mean: which answers are errors, when a paged list of check runs is complete,
//! and what the runs say about the pull request.
use vstd::prelude::*;

use crate::adapters::process::Output;
use crate::text::{
    chars_of, debug_quoted, debug_str, decimal, push_char, push_decimal, push_str, push_string,
    str_eq, string_of, trim, trim_str, trimmed,
};

verus! {

pub const DEFAULT_API_BASE: &'static str = "https://api.github.com";

/// The file in the depot home that may hold a GitHub token.
pub const TOKEN_FILE: &'static str = "github-token";

/// How many characters of an answer an error quotes.
pub const QUOTED_BODY_CHARS: usize = 200;

/// The most check runs GitHub lists on one page.
pub const CHECK_RUNS_PER_PAGE: usize = 100;

/// The last page of check runs depot asks for.
pub const MAX_CHECK_RUN_PAGES: u32 = 100;

/// A GitHub repository, `owner/name`.
#[derive(Debug, Clone, PartialEq, Eq)]
pub struct RepoSlug {
    pub owner: String,
    pub name: String,
}

impl RepoSlug {
    pub fn new(owner: &str, name: &str) -> (r: Self)
        ensures
            r.owner@ == owner@,
            r.name@ == name@,
    {
        RepoSlug { owner: owner.to_string(), name: name.to_string() }
    }

    /// `owner/name`.
    pub open spec fn path_spec(&self) -> Seq<char> {
        self.owner@ + seq!['/'] + self.name@
    }

    pub fn path(&self) -> (r: String)
        ensures
            r@ == self.path_spec(),
    {
        let mut r = String::new();
        push_string(&mut r, &self.owner);
        push_char(&mut r, '/');
        push_string(&mut r, &self.name);
        r
    }
}

#[derive(Debug, Clone, Copy, PartialEq, Eq)]
pub enum PrState {
    Open,
    Closed,
    Merged,
}

/// What the check runs on a commit say, taken together.
#[derive(Debug, Clone, Copy, PartialEq, Eq)]
pub enum Checks {
    Unknown,
    Pending,
    Passing,
    Failing,
}

#[derive(Debug, Clone, PartialEq, Eq)]
pub struct NewPullRequest {
    pub repo: RepoSlug,
    pub title: String,
    pub body: String,
    pub head: String,
    pub base: String,
}

#[derive(Debug, Clone, PartialEq, Eq)]
pub struct OpenedPullRequest {
    pub number: u64,
    pub url: String,
}

/// Where a GitHub token came from.
#[derive(Debug, Clone, PartialEq, Eq)]
pub enum CredentialSource {
    GhCli,
    TokenFile(String),
}

#[derive(Debug, Clone, PartialEq, Eq)]
pub struct Credentials {
    pub token: String,
    pub source: CredentialSource,
}

/// Why a forge operation failed.
#[derive(Debug, Clone, PartialEq, Eq)]
pub enum ForgeError {
    NoCredential { path: String },
    InsecureTokenFile { path: String, detail: String },
    EmptyToken { path: String },
    Request { url: String, detail: String },
    Unauthorized { url: String },
    NotFound { url: String },
    Status { url: String, status: u16, body: String },
    Malformed { url: String, detail: String },
}

impl ForgeError {
    /// The message shown for this error.
    pub open spec fn message_spec(&self) -> Seq<char> {
        match self {
            ForgeError::NoCredential { path } => "no GitHub credential: `gh auth token` is not authenticated and "@
                + path@
                + " does not exist; depot reads credentials from the authenticated gh CLI or from that owner-only file in the depot home, never from a project"@,
            ForgeError::InsecureTokenFile { path, detail } => path@ + " is readable beyond its owner ("@
                + detail@
                + "); authenticate `gh` or provide the token through the environment when the ACL cannot be proven to restrict access, and only then use an owner-only file in the depot home"@,
            ForgeError::EmptyToken { path } => path@ + " holds no token"@,
            ForgeError::Request { url, detail } => "the request to "@ + url@ + " failed: "@ + detail@,
            ForgeError::Unauthorized { url } => "GitHub refused the credentials depot sent to "@ + url@
                + "; the token is missing, expired or lacking the scope this call needs"@,
            ForgeError::NotFound { url } => "GitHub has nothing at "@ + url@,
            ForgeError::Status { url, status, body } => "GitHub answered "@ + decimal(*status as nat)
                + " for "@ + url@ + ": "@ + body@,
            ForgeError::Malformed { url, detail } => "the answer from "@ + url@
                + " is not what depot reads: "@ + detail@,
        }
    }

    pub fn message(&self) -> (r: String)
        ensures
            r@ == self.message_spec(),
    {
        let mut r = String::new();
        match self {
            ForgeError::NoCredential { path } => {
                push_str(&mut r, "no GitHub credential: `gh auth token` is not authenticated and ");
                push_string(&mut r, path);
                push_str(
                    &mut r,
                    " does not exist; depot reads credentials from the authenticated gh CLI or from that owner-only file in the depot home, never from a project",
                );
            },
            ForgeError::InsecureTokenFile { path, detail } => {
                push_string(&mut r, path);
                push_str(&mut r, " is readable beyond its owner (");
                push_string(&mut r, detail);
                push_str(
                    &mut r,
                    "); authenticate `gh` or provide the token through the environment when the ACL cannot be proven to restrict access, and only then use an owner-only file in the depot home",
                );
            },
            ForgeError::EmptyToken { path } => {
                push_string(&mut r, path);
                push_str(&mut r, " holds no token");
            },
            ForgeError::Request { url, detail } => {
                push_str(&mut r, "the request to ");
                push_string(&mut r, url);
                push_str(&mut r, " failed: ");
                push_string(&mut r, detail);
            },
            ForgeError::Unauthorized { url } => {
                push_str(&mut r, "GitHub refused the credentials depot sent to ");
                push_string(&mut r, url);
                push_str(
                    &mut r,
                    "; the token is missing, expired or lacking the scope this call needs",
                );
            },
            ForgeError::NotFound { url } => {
                push_str(&mut r, "GitHub has nothing at ");
                push_string(&mut r, url);
            },
            ForgeError::Status { url, status, body } => {
                push_str(&mut r, "GitHub answered ");
                push_decimal(&mut r, *status as u64);
                push_str(&mut r, " for ");
                push_string(&mut r, url);
                push_str(&mut r, ": ");
                push_string(&mut r, body);
            },
            ForgeError::Malformed { url, detail } => {
                push_str(&mut r, "the answer from ");
                push_string(&mut r, url);
                push_str(&mut r, " is not what depot reads: ");
                push_string(&mut r, detail);
            },
        }
        r
    }
}

/// Who an allow entry of the token file's access list grants access to.
#[derive(Debug, Clone, Copy, PartialEq, Eq)]
pub enum TokenAclIdentity {
    CurrentUser,
    Owner,
    Administrators,
    System,
    Other,
}

/// Whether the allow entries of the token file's access list grant access only to the
/// current user, the file's owner, Administrators and SYSTEM.
pub fn token_acl_is_restricted(allow_identities: &[TokenAclIdentity]) -> (r: bool)
    ensures
        r == (forall|i: int|
            0 <= i < allow_identities@.len() ==> !(#[trigger] allow_identities@[i] is Other)),
{
    let mut i: usize = 0;
    while i < allow_identities.len()
        invariant
            i <= allow_identities@.len(),
            forall|k: int| 0 <= k < i ==> !(#[trigger] allow_identities@[k] is Other),
        decreases allow_identities@.len() - i,
    {
        match allow_identities[i] {
            TokenAclIdentity::Other => {
                return false;
            },
            _ => {},
        }
        i += 1;
    }
    true
}

/// The answer body an error quotes: trimmed, and cut to its first 200 characters with
/// `...` after them when it is longer.
pub open spec fn truncated_spec(body: Seq<char>) -> Seq<char> {
    let t = trim(body);
    if t.len() <= QUOTED_BODY_CHARS {
        t
    } else {
        t.take(QUOTED_BODY_CHARS as int) + "..."@
    }
}

pub fn truncated(body: &str) -> (r: String)
    ensures
        r@ == truncated_spec(body@),
{
    let t = trimmed(body);
    let v = chars_of(t.as_str());
    if v.len() <= QUOTED_BODY_CHARS {
        assert(v@.subrange(0, v@.len() as int) == v@);
        return string_of(&v, 0, v.len());
    }
    let mut r = string_of(&v, 0, QUOTED_BODY_CHARS);
    push_str(&mut r, "...");
    r
}

/// `e` is a `Malformed` error about `url` with `detail`.
pub open spec fn malformed(e: ForgeError, url: Seq<char>, detail: Seq<char>) -> bool {
    e matches ForgeError::Malformed { url: u, detail: d } && u@ == url && d@ == detail
}

fn malformed_error(url: &str, detail: String) -> (e: ForgeError)
    ensures
        malformed(e, url@, detail@),
{
    ForgeError::Malformed { url: url.to_string(), detail }
}

/// `prefix` followed by the quoted answer body.
fn quoting(prefix: &str, body: &str) -> (r: String)
    ensures
        r@ == prefix@ + truncated_spec(body@),
{
    let mut r = String::new();
    push_str(&mut r, prefix);
    let quoted = truncated(body);
    push_string(&mut r, &quoted);
    r
}

/// One check run as GitHub lists it: its status and, once completed, its conclusion.
#[derive(Debug, Clone, PartialEq, Eq)]
pub struct CheckRun {
    pub status: Option<String>,
    pub conclusion: Option<String>,
}

/// Conclusions that leave the checks passing.
pub open spec fn conclusion_passes(c: Seq<char>) -> bool {
    c == "success"@ || c == "neutral"@ || c == "skipped"@
}

/// Conclusions that make the checks fail.
pub open spec fn conclusion_fails(c: Seq<char>) -> bool {
    c == "failure"@ || c == "timed_out"@ || c == "cancelled"@ || c == "action_required"@
        || c == "stale"@ || c == "startup_failure"@
}

/// What reading a list of check runs comes to.
pub enum RunsVerdict {
    Decided(Checks),
    NoStatus,
    NoConclusion,
    UnknownConclusion(Seq<char>),
}

/// The verdict on `runs[i..]`, read in order, when an earlier run has failed or not: the
/// first run not yet completed makes the checks pending; once every run is completed,
/// any failing conclusion makes them failing and otherwise they pass.
pub open spec fn runs_verdict(runs: Seq<CheckRun>, i: int, failing: bool) -> RunsVerdict
    decreases runs.len() - i,
{
    if i >= runs.len() || i < 0 {
        RunsVerdict::Decided(if failing { Checks::Failing } else { Checks::Passing })
    } else {
        match runs[i].status {
            None => RunsVerdict::NoStatus,
            Some(status) => if status@ != "completed"@ {
                RunsVerdict::Decided(Checks::Pending)
            } else {
                match runs[i].conclusion {
                    None => RunsVerdict::NoConclusion,
                    Some(c) => if conclusion_passes(c@) {
                        runs_verdict(runs, i + 1, failing)
                    } else if conclusion_fails(c@) {
                        runs_verdict(runs, i + 1, true)
                    } else {
                        RunsVerdict::UnknownConclusion(c@)
                    },
                }
            },
        }
    }
}

/// What the complete list of check runs on a commit says: `Unknown` when there are none,
/// else the verdict of `runs_verdict`, whose refusals are errors about the answer at
/// `url`.
pub open spec fn checks_result(
    r: Result<Checks, ForgeError>,
    url: Seq<char>,
    body: Seq<char>,
    runs: Seq<CheckRun>,
) -> bool {
    if runs.len() == 0 {
        r == Ok::<Checks, ForgeError>(Checks::Unknown)
    } else {
        match runs_verdict(runs, 0, false) {
            RunsVerdict::Decided(c) => r == Ok::<Checks, ForgeError>(c),
            RunsVerdict::NoStatus => r is Err && malformed(
                r->Err_0,
                url,
                "a check run has no status in "@ + truncated_spec(body),
            ),
            RunsVerdict::NoConclusion => r is Err && malformed(
                r->Err_0,
                url,
                "a completed check run has no conclusion in "@ + truncated_spec(body),
            ),
            RunsVerdict::UnknownConclusion(c) => r is Err && malformed(
                r->Err_0,
                url,
                debug_quoted(c) + " is not a check conclusion depot knows"@,
            ),
        }
    }
}

/// Reads the complete list of check runs that the answer at `url` (with `body`) ended.
pub fn classify_check_runs(url: &str, body: &str, runs: &Vec<CheckRun>) -> (r: Result<
    Checks,
    ForgeError,
>)
    ensures
        checks_result(r, url@, body@, runs@),
{
    if runs.len() == 0 {
        return Ok(Checks::Unknown);
    }
    let mut failing = false;
    let mut i: usize = 0;
    while i < runs.len()
        invariant
            i <= runs@.len(),
            runs_verdict(runs@, 0, false) == runs_verdict(runs@, i as int, failing),
        decreases runs@.len() - i,
    {
        let run = &runs[i];
        match &run.status {
            None => {
                let detail = quoting("a check run has no status in ", body);
                return Err(malformed_error(url, detail));
            },
            Some(status) => {
                if !str_eq(status.as_str(), "completed") {
                    return Ok(Checks::Pending);
                }
                match &run.conclusion {
                    None => {
                        let detail = quoting("a completed check run has no conclusion in ", body);
                        return Err(malformed_error(url, detail));
                    },
                    Some(c) => {
                        let c = c.as_str();
                        if str_eq(c, "success") || str_eq(c, "neutral") || str_eq(c, "skipped") {
                        } else if str_eq(c, "failure") || str_eq(c, "timed_out") || str_eq(
                            c,
                            "cancelled",
                        ) || str_eq(c, "action_required") || str_eq(c, "stale") || str_eq(
                            c,
                            "startup_failure",
                        ) {
                            failing = true;
                        } else {
                            let mut detail = debug_str(c);
                            push_str(&mut detail, " is not a check conclusion depot knows");
                            return Err(malformed_error(url, detail));
                        }
                    },
                }
            },
        }
        i += 1;
    }
    Ok(if failing { Checks::Failing } else { Checks::Passing })
}

/// `run` has completed, with conclusion `c`.
pub open spec fn completed_with(run: CheckRun, c: Seq<char>) -> bool {
    &&& run.status matches Some(s) && s@ == "completed"@
    &&& run.conclusion matches Some(x) && x@ == c
}

/// `run` completed with one of the conclusions GitHub gives to a run that went through:
/// success, neutral or skipped.
pub open spec fn completed_cleanly(run: CheckRun) -> bool {
    completed_with(run, "success"@) || completed_with(run, "neutral"@) || completed_with(
        run,
        "skipped"@,
    )
}

/// `run` completed with one of the conclusions GitHub gives to a run that did not go
/// through: failure, timed_out, cancelled, action_required, stale or startup_failure.
pub open spec fn completed_badly(run: CheckRun) -> bool {
    completed_with(run, "failure"@) || completed_with(run, "timed_out"@) || completed_with(
        run,
        "cancelled"@,
    ) || completed_with(run, "action_required"@) || completed_with(run, "stale"@)
        || completed_with(run, "startup_failure"@)
}

/// No conclusion is both one that passes and one that fails.
proof fn lemma_conclusion_lists_disjoint(c: Seq<char>)
    ensures
        !(conclusion_passes(c) && conclusion_fails(c)),
{
    reveal_strlit("completed");
    reveal_strlit("success");
    reveal_strlit("neutral");
    reveal_strlit("skipped");
    reveal_strlit("failure");
    reveal_strlit("timed_out");
    reveal_strlit("cancelled");
    reveal_strlit("action_required");
    reveal_strlit("stale");
    reveal_strlit("startup_failure");
    assert("success"@[0] != "failure"@[0]);
    assert("success"@.len() != "timed_out"@.len());
    assert("success"@.len() != "cancelled"@.len());
    assert("success"@.len() != "action_required"@.len());
    assert("success"@.len() != "stale"@.len());
    assert("success"@.len() != "startup_failure"@.len());
    assert("neutral"@[0] != "failure"@[0]);
    assert("neutral"@.len() != "timed_out"@.len());
    assert("neutral"@.len() != "cancelled"@.len());
    assert("neutral"@.len() != "action_required"@.len());
    assert("neutral"@.len() != "stale"@.len());
    assert("neutral"@.len() != "startup_failure"@.len());
    assert("skipped"@[0] != "failure"@[0]);
    assert("skipped"@.len() != "timed_out"@.len());
    assert("skipped"@.len() != "cancelled"@.len());
    assert("skipped"@.len() != "action_required"@.len());
    assert("skipped"@.len() != "stale"@.len());
    assert("skipped"@.len() != "startup_failure"@.len());
}

/// Over completed runs with known conclusions, the verdict on `runs[i..]` fails exactly
/// when an earlier run failed or one of them concluded badly.
proof fn lemma_verdict_of_completed_runs(runs: Seq<CheckRun>, i: int, failing: bool)
    requires
        0 <= i <= runs.len(),
        forall|k: int|
            i <= k < runs.len() ==> completed_cleanly(#[trigger] runs[k]) || completed_badly(
                runs[k],
            ),
    ensures
        runs_verdict(runs, i, failing) == RunsVerdict::Decided(
            if failing || exists|k: int| i <= k < runs.len() && completed_badly(#[trigger] runs[k]) {
                Checks::Failing
            } else {
                Checks::Passing
            },
        ),
    decreases runs.len() - i,
{
    if i < runs.len() {
        reveal_strlit("completed");
    reveal_strlit("success");
    reveal_strlit("neutral");
    reveal_strlit("skipped");
    reveal_strlit("failure");
    reveal_strlit("timed_out");
    reveal_strlit("cancelled");
    reveal_strlit("action_required");
    reveal_strlit("stale");
    reveal_strlit("startup_failure");
        let run = runs[i];
        let bad = completed_badly(run);
        lemma_verdict_of_completed_runs(runs, i + 1, failing || bad);
        if bad {
            assert(conclusion_fails(run.conclusion->Some_0@));
            lemma_conclusion_lists_disjoint(run.conclusion->Some_0@);
        } else {
            assert(conclusion_passes(run.conclusion->Some_0@));
            assert forall|k: int| i <= k < runs.len() && completed_badly(#[trigger] runs[k])
                implies i + 1 <= k by {}
        }
    }
}

/// A verdict of `Passing` on `runs[i..]` means that every one of them completed cleanly.
proof fn lemma_passing_runs_completed_cleanly(runs: Seq<CheckRun>, i: int, failing: bool)
    requires
        0 <= i,
        runs_verdict(runs, i, failing) == RunsVerdict::Decided(Checks::Passing),
    ensures
        !failing,
        forall|k: int| i <= k < runs.len() ==> completed_cleanly(#[trigger] runs[k]),
    decreases runs.len() - i,
{
    if i < runs.len() {
        reveal_strlit("completed");
    reveal_strlit("success");
    reveal_strlit("neutral");
    reveal_strlit("skipped");
    reveal_strlit("failure");
    reveal_strlit("timed_out");
    reveal_strlit("cancelled");
    reveal_strlit("action_required");
    reveal_strlit("stale");
    reveal_strlit("startup_failure");
        let run = runs[i];
        let c = run.conclusion->Some_0@;
        if conclusion_passes(c) {
            lemma_passing_runs_completed_cleanly(runs, i + 1, failing);
        } else {
            lemma_passing_runs_completed_cleanly(runs, i + 1, true);
        }
    }
}

/// Over runs that completed with known conclusions up to `j`, where a run with a status
/// other than `completed` stands, the verdict on `runs[i..]` is pending.
proof fn lemma_verdict_pending_at(runs: Seq<CheckRun>, i: int, j: int, failing: bool)
    requires
        0 <= i <= j < runs.len(),
        forall|k: int|
            i <= k < j ==> completed_cleanly(#[trigger] runs[k]) || completed_badly(runs[k]),
        runs[j].status matches Some(s) && s@ != "completed"@,
    ensures
        runs_verdict(runs, i, failing) == RunsVerdict::Decided(Checks::Pending),
    decreases j - i,
{
    reveal_strlit("completed");
    reveal_strlit("success");
    reveal_strlit("neutral");
    reveal_strlit("skipped");
    reveal_strlit("failure");
    reveal_strlit("timed_out");
    reveal_strlit("cancelled");
    reveal_strlit("action_required");
    reveal_strlit("stale");
    reveal_strlit("startup_failure");
    if i < j {
        let run = runs[i];
        let bad = completed_badly(run);
        if bad {
            assert(conclusion_fails(run.conclusion->Some_0@));
            lemma_conclusion_lists_disjoint(run.conclusion->Some_0@);
        } else {
            assert(conclusion_passes(run.conclusion->Some_0@));
        }
        lemma_verdict_pending_at(runs, i + 1, j, failing || bad);
    }
}

/// A run that has not completed leaves the checks pending, once every run listed before
/// it has completed with a conclusion GitHub gives.
pub proof fn lemma_unfinished_run_is_pending(
    r: Result<Checks, ForgeError>,
    url: Seq<char>,
    body: Seq<char>,
    runs: Seq<CheckRun>,
    j: int,
)
    requires
        checks_result(r, url, body, runs),
        0 <= j < runs.len(),
        forall|k: int|
            0 <= k < j ==> completed_cleanly(#[trigger] runs[k]) || completed_badly(runs[k]),
        runs[j].status matches Some(s) && s@ != "completed"@,
    ensures
        r == Ok::<Checks, ForgeError>(Checks::Pending),
{
    lemma_verdict_pending_at(runs, 0, j, false);
}

/// The verdict on a pull request's check runs. When every run has completed with a
/// conclusion GitHub gives and at least one of them concluded failure, timed_out,
/// cancelled, action_required, stale or startup_failure, the checks are failing; when
/// every run completed with success, neutral or skipped, they pass. And the checks are
/// only ever passing when there is at least one run and every run completed with
/// success, neutral or skipped.
pub proof fn lemma_check_run_verdicts(
    r: Result<Checks, ForgeError>,
    url: Seq<char>,
    body: Seq<char>,
    runs: Seq<CheckRun>,
)
    requires
        checks_result(r, url, body, runs),
    ensures
        runs.len() > 0 && (forall|k: int|
            0 <= k < runs.len() ==> completed_cleanly(#[trigger] runs[k]) || completed_badly(
                runs[k],
            )) && (exists|k: int| 0 <= k < runs.len() && completed_badly(#[trigger] runs[k]))
            ==> r == Ok::<Checks, ForgeError>(Checks::Failing),
        runs.len() > 0 && (forall|k: int| 0 <= k < runs.len() ==> completed_cleanly(#[trigger] runs[k]))
            ==> r == Ok::<Checks, ForgeError>(Checks::Passing),
        r == Ok::<Checks, ForgeError>(Checks::Passing) ==> runs.len() > 0 && forall|k: int|
            0 <= k < runs.len() ==> completed_cleanly(#[trigger] runs[k]),
{
    reveal_strlit("completed");
    reveal_strlit("success");
    reveal_strlit("neutral");
    reveal_strlit("skipped");
    reveal_strlit("failure");
    reveal_strlit("timed_out");
    reveal_strlit("cancelled");
    reveal_strlit("action_required");
    reveal_strlit("stale");
    reveal_strlit("startup_failure");
    if runs.len() > 0 {
        if forall|k: int|
            0 <= k < runs.len() ==> completed_cleanly(#[trigger] runs[k]) || completed_badly(
                runs[k],
            ) {
            lemma_verdict_of_completed_runs(runs, 0, false);
            if forall|k: int| 0 <= k < runs.len() ==> completed_cleanly(#[trigger] runs[k]) {
                assert forall|k: int| 0 <= k < runs.len() implies !completed_badly(
                    #[trigger] runs[k],
                ) by {
                    assert(completed_cleanly(runs[k]));
                    lemma_conclusion_lists_disjoint(runs[k].conclusion->Some_0@);
                    if completed_badly(runs[k]) {
                        assert(conclusion_fails(runs[k].conclusion->Some_0@));
                    }
                }
            }
        }
        if r == Ok::<Checks, ForgeError>(Checks::Passing) {
            match runs_verdict(runs, 0, false) {
                RunsVerdict::Decided(c) => {
                    lemma_passing_runs_completed_cleanly(runs, 0, false);
                },
                _ => {},
            }
        }
    }
}

/// The body of an answer GitHub gave with `status`, or the error that status means.
pub open spec fn answer_result(
    r: Result<String, ForgeError>,
    url: Seq<char>,
    status: u16,
    body: Seq<char>,
) -> bool {
    if status == 200 {
        r is Ok && r->Ok_0@ == body
    } else if status == 401 || status == 403 {
        r matches Err(ForgeError::Unauthorized { url: u }) && u@ == url
    } else if status == 404 {
        r matches Err(ForgeError::NotFound { url: u }) && u@ == url
    } else {
        r matches Err(ForgeError::Status { url: u, status: s, body: b }) && u@ == url && s
            == status && b@ == trim(body)
    }
}

/// What an answer to a read means: `200` hands the body on, `401` and `403` refuse the
/// credentials, `404` finds nothing, and any other status is an error quoting the body.
pub fn read_answer(url: &str, status: u16, body: String) -> (r: Result<String, ForgeError>)
    ensures
        answer_result(r, url@, status, body@),
{
    if status == 200 {
        Ok(body)
    } else if status == 401 || status == 403 {
        Err(ForgeError::Unauthorized { url: url.to_string() })
    } else if status == 404 {
        Err(ForgeError::NotFound { url: url.to_string() })
    } else {
        Err(ForgeError::Status { url: url.to_string(), status, body: trimmed(body.as_str()) })
    }
}

/// What the answer to opening a pull request means: `201` is success, and the other
/// statuses are the errors of `read_answer`.
pub open spec fn created_result(
    r: Result<(), ForgeError>,
    url: Seq<char>,
    status: u16,
    body: Seq<char>,
) -> bool {
    if status == 201 {
        r is Ok
    } else if status == 401 || status == 403 {
        r matches Err(ForgeError::Unauthorized { url: u }) && u@ == url
    } else if status == 404 {
        r matches Err(ForgeError::NotFound { url: u }) && u@ == url
    } else {
        r matches Err(ForgeError::Status { url: u, status: s, body: b }) && u@ == url && s
            == status && b@ == trim(body)
    }
}

pub fn created_answer(url: &str, status: u16, body: &str) -> (r: Result<(), ForgeError>)
    ensures
        created_result(r, url@, status, body@),
{
    if status == 201 {
        Ok(())
    } else if status == 401 || status == 403 {
        Err(ForgeError::Unauthorized { url: url.to_string() })
    } else if status == 404 {
        Err(ForgeError::NotFound { url: url.to_string() })
    } else {
        Err(ForgeError::Status { url: url.to_string(), status, body: trimmed(body) })
    }
}

/// A field of an answer that must hold a non-empty string.
pub open spec fn required_text_result(
    r: Result<String, ForgeError>,
    url: Seq<char>,
    field: Option<String>,
    name: Seq<char>,
    body: Seq<char>,
) -> bool {
    match field {
        Some(text) if text@.len() > 0 => r is Ok && r->Ok_0@ == text@,
        _ => r is Err && malformed(r->Err_0, url, "no "@ + name + " in "@ + truncated_spec(body)),
    }
}

/// The text of the field `name` of the answer at `url`; a missing or empty field is an
/// error quoting the answer.
pub fn required_text(url: &str, field: Option<String>, name: &str, body: &str) -> (r: Result<
    String,
    ForgeError,
>)
    ensures
        required_text_result(r, url@, field, name@, body@),
{
    match field {
        Some(text) => {
            if text.as_str().is_empty() {
                let mut prefix = String::new();
                push_str(&mut prefix, "no ");
                push_str(&mut prefix, name);
                push_str(&mut prefix, " in ");
                let detail = quoting(prefix.as_str(), body);
                Err(malformed_error(url, detail))
            } else {
                Ok(text)
            }
        },
        None => {
            let mut prefix = String::new();
            push_str(&mut prefix, "no ");
            push_str(&mut prefix, name);
            push_str(&mut prefix, " in ");
            let detail = quoting(prefix.as_str(), body);
            Err(malformed_error(url, detail))
        },
    }
}

/// One page of the check-runs list, as read from its answer.
#[derive(Debug, Clone, PartialEq, Eq)]
pub struct CheckRunPage {
    pub total_count: Option<u64>,
    pub check_runs: Option<Vec<CheckRun>>,
}

/// What is wrong with a page whose answer was `body`, if anything.
pub open spec fn page_error(page: CheckRunPage, body: Seq<char>) -> Option<Seq<char>> {
    if page.total_count is None {
        Some("no total_count in "@ + truncated_spec(body))
    } else if page.check_runs is None {
        Some("no check_runs list in "@ + truncated_spec(body))
    } else {
        None
    }
}

fn page_fields(url: &str, body: &str, page: CheckRunPage) -> (r: Result<
    (u64, Vec<CheckRun>),
    ForgeError,
>)
    ensures
        match page_error(page, body@) {
            Some(d) => r is Err && malformed(r->Err_0, url@, d),
            None => r is Ok && r->Ok_0.0 == page.total_count->0 && r->Ok_0.1@
                == page.check_runs->0@,
        },
{
    match page.total_count {
        None => Err(malformed_error(url, quoting("no total_count in ", body))),
        Some(total) => match page.check_runs {
            None => Err(malformed_error(url, quoting("no check_runs list in ", body))),
            Some(runs) => Ok((total, runs)),
        },
    }
}

/// The check runs of a commit read so far, page by page, with the last answer read.
#[derive(Debug, Clone, PartialEq, Eq)]
pub struct CheckRunListing {
    pub runs: Vec<CheckRun>,
    pub total: u64,
    pub page: u32,
    pub page_len: usize,
    pub last_url: String,
    pub last_body: String,
}

impl CheckRunListing {
    /// Whether another page is owed: fewer runs than the total were listed and the last
    /// page was full.
    pub open spec fn wants_more(&self) -> bool {
        self.runs@.len() < self.total && self.page_len == CHECK_RUNS_PER_PAGE
    }

    /// Starts the listing from its first page.
    pub fn first(url: String, body: String, page: CheckRunPage) -> (r: Result<Self, ForgeError>)
        ensures
            match page_error(page, body@) {
                Some(d) => r is Err && malformed(r->Err_0, url@, d),
                None => r is Ok && r->Ok_0.total == page.total_count->0 && r->Ok_0.runs@
                    == page.check_runs->0@ && r->Ok_0.page == 1 && r->Ok_0.page_len
                    == page.check_runs->0@.len() && r->Ok_0.last_url@ == url@
                    && r->Ok_0.last_body@ == body@,
            },
    {
        let (total, runs) = page_fields(url.as_str(), body.as_str(), page)?;
        let page_len = runs.len();
        Ok(CheckRunListing { runs, total, page: 1, page_len, last_url: url, last_body: body })
    }

    /// The page to fetch next, or `None` once the listing is complete. Past the hundredth
    /// page the listing is refused rather than read as complete.
    pub fn next_page(&self) -> (r: Result<Option<u32>, ForgeError>)
        ensures
            !self.wants_more() ==> r == Ok::<Option<u32>, ForgeError>(None),
            self.wants_more() && self.page == u32::MAX ==> r is Err && malformed(
                r->Err_0,
                self.last_url@,
                "check-runs pagination overflowed"@,
            ),
            self.wants_more() && self.page < u32::MAX && self.page + 1 > MAX_CHECK_RUN_PAGES
                ==> r is Err && malformed(
                r->Err_0,
                self.last_url@,
                "check-runs listed "@ + decimal(self.total as nat)
                    + " runs but pagination stopped after "@ + decimal(self.runs@.len()),
            ),
            self.wants_more() && self.page < u32::MAX && self.page + 1 <= MAX_CHECK_RUN_PAGES
                ==> r == Ok::<Option<u32>, ForgeError>(Some((self.page + 1) as u32)),
    {
        if !((self.runs.len() as u64) < self.total && self.page_len == CHECK_RUNS_PER_PAGE) {
            return Ok(None);
        }
        if self.page == u32::MAX {
            let mut detail = String::new();
            push_str(&mut detail, "check-runs pagination overflowed");
            return Err(malformed_error(self.last_url.as_str(), detail));
        }
        let page = self.page + 1;
        if page > MAX_CHECK_RUN_PAGES {
            let mut detail = String::new();
            push_str(&mut detail, "check-runs listed ");
            push_decimal(&mut detail, self.total);
            push_str(&mut detail, " runs but pagination stopped after ");
            push_decimal(&mut detail, self.runs.len() as u64);
            return Err(malformed_error(self.last_url.as_str(), detail));
        }
        Ok(Some(page))
    }

    /// Adds the page `page`, answered at `url` with `body`. A page that reports another
    /// total than the first is refused, and the listing is left as it was.
    pub fn add_page(&mut self, page: u32, url: String, body: String, fetched: CheckRunPage) -> (r:
        Result<(), ForgeError>)
        ensures
            page_error(fetched, body@) matches Some(d) ==> r is Err && malformed(
                r->Err_0,
                url@,
                d,
            ) && *final(self) == *old(self),
            page_error(fetched, body@) is None && fetched.total_count->0 != old(self).total
                ==> r is Err && malformed(
                r->Err_0,
                url@,
                "check-runs total_count changed from "@ + decimal(old(self).total as nat)
                    + " to "@ + decimal(fetched.total_count->0 as nat) + " across pages"@,
            ) && *final(self) == *old(self),
            page_error(fetched, body@) is None && fetched.total_count->0 == old(self).total
                ==> r is Ok && final(self).runs@ == old(self).runs@ + fetched.check_runs->0@
                && final(self).total == old(self).total && final(self).page == page
                && final(self).page_len == fetched.check_runs->0@.len()
                && final(self).last_url@ == url@ && final(self).last_body@ == body@,
    {
        let (page_total, mut runs) = page_fields(url.as_str(), body.as_str(), fetched)?;
        if page_total != self.total {
            let mut detail = String::new();
            push_str(&mut detail, "check-runs total_count changed from ");
            push_decimal(&mut detail, self.total);
            push_str(&mut detail, " to ");
            push_decimal(&mut detail, page_total);
            push_str(&mut detail, " across pages");
            return Err(malformed_error(url.as_str(), detail));
        }
        self.page_len = runs.len();
        self.runs.append(&mut runs);
        self.page = page;
        self.last_url = url;
        self.last_body = body;
        Ok(())
    }

    /// What the listed runs say. A listing that holds fewer runs than its total is
    /// refused: a truncated list is never read as passing.
    pub fn verdict(&self) -> (r: Result<Checks, ForgeError>)
        ensures
            self.runs@.len() < self.total ==> r is Err && malformed(
                r->Err_0,
                self.last_url@,
                "check-runs listed "@ + decimal(self.total as nat) + " runs but only returned "@
                    + decimal(self.runs@.len())
                    + "; a truncated list is never treated as passing"@,
            ),
            self.runs@.len() >= self.total ==> checks_result(
                r,
                self.last_url@,
                self.last_body@,
                self.runs@,
            ),
    {
        if (self.runs.len() as u64) < self.total {
            let mut detail = String::new();
            push_str(&mut detail, "check-runs listed ");
            push_decimal(&mut detail, self.total);
            push_str(&mut detail, " runs but only returned ");
            push_decimal(&mut detail, self.runs.len() as u64);
            push_str(&mut detail, "; a truncated list is never treated as passing");
            return Err(malformed_error(self.last_url.as_str(), detail));
        }
        classify_check_runs(self.last_url.as_str(), self.last_body.as_str(), &self.runs)
    }
}

/// The fields depot reads from a pull request answer.
#[derive(Debug, Clone, PartialEq, Eq)]
pub struct PullRequestFields {
    pub number: Option<u64>,
    pub html_url: Option<String>,
    pub state: Option<String>,
    pub head_sha: Option<String>,
    pub merged: Option<bool>,
}

/// A pull request as read from its answer, before its checks are read.
#[derive(Debug, Clone, PartialEq, Eq)]
pub struct PullRequestHead {
    pub number: u64,
    pub url: String,
    pub state: PrState,
    pub head: String,
}

/// `field` holds a non-empty string.
pub open spec fn present(field: Option<String>) -> bool {
    field matches Some(text) && text@.len() > 0
}

/// What a pull request answer reads as, or the first field it lacks: the number, the
/// page URL, the state, the head commit, and for a closed pull request whether it merged.
pub open spec fn pull_request_result(
    r: Result<PullRequestHead, ForgeError>,
    url: Seq<char>,
    body: Seq<char>,
    fields: PullRequestFields,
) -> bool {
    if fields.number is None {
        r is Err && malformed(r->Err_0, url, "no pull request number in "@ + truncated_spec(body))
    } else if !present(fields.html_url) {
        r is Err && malformed(r->Err_0, url, "no "@ + "html_url"@ + " in "@ + truncated_spec(body))
    } else if !present(fields.state) {
        r is Err && malformed(r->Err_0, url, "no "@ + "state"@ + " in "@ + truncated_spec(body))
    } else if !present(fields.head_sha) {
        r is Err && malformed(r->Err_0, url, "no head commit in "@ + truncated_spec(body))
    } else {
        let state = fields.state->0@;
        if state == "open"@ || (state == "closed"@ && fields.merged is Some) {
            r is Ok && r->Ok_0.number == fields.number->0 && r->Ok_0.url@ == fields.html_url->0@
                && r->Ok_0.head@ == fields.head_sha->0@ && r->Ok_0.state == (if state == "open"@ {
                PrState::Open
            } else if fields.merged->0 {
                PrState::Merged
            } else {
                PrState::Closed
            })
        } else if state == "closed"@ {
            r is Err && malformed(
                r->Err_0,
                url,
                "the pull request is closed but carries no merged flag in "@ + truncated_spec(body),
            )
        } else {
            r is Err && malformed(
                r->Err_0,
                url,
                debug_quoted(state) + " is not a pull request state depot knows"@,
            )
        }
    }
}

/// Reads the pull request that the answer at `url` (with `body`) describes.
pub fn read_pull_request(url: &str, body: &str, fields: PullRequestFields) -> (r: Result<
    PullRequestHead,
    ForgeError,
>)
    ensures
        pull_request_result(r, url@, body@, fields),
{
    let ghost original = fields;
    let number = match fields.number {
        Some(number) => number,
        None => {
            return Err(malformed_error(url, quoting("no pull request number in ", body)));
        },
    };
    let html_url = required_text(url, fields.html_url, "html_url", body)?;
    let state = required_text(url, fields.state, "state", body)?;
    let head = match fields.head_sha {
        Some(sha) => {
            if sha.as_str().is_empty() {
                return Err(malformed_error(url, quoting("no head commit in ", body)));
            }
            sha
        },
        None => {
            return Err(malformed_error(url, quoting("no head commit in ", body)));
        },
    };
    let state = if str_eq(state.as_str(), "open") {
        PrState::Open
    } else if str_eq(state.as_str(), "closed") {
        match fields.merged {
            Some(true) => PrState::Merged,
            Some(false) => PrState::Closed,
            None => {
                let detail = quoting(
                    "the pull request is closed but carries no merged flag in ",
                    body,
                );
                return Err(malformed_error(url, detail));
            },
        }
    } else {
        let mut detail = debug_str(state.as_str());
        push_str(&mut detail, " is not a pull request state depot knows");
        return Err(malformed_error(url, detail));
    };
    Ok(PullRequestHead { number, url: html_url, state, head })
}

/// The fields depot reads from an answer that names an opened pull request.
#[derive(Debug, Clone, PartialEq, Eq)]
pub struct OpenedFields {
    pub number: Option<u64>,
    pub html_url: Option<String>,
}

/// What an answer naming an opened pull request reads as.
pub open spec fn opened_result(
    r: Result<OpenedPullRequest, ForgeError>,
    url: Seq<char>,
    body: Seq<char>,
    fields: OpenedFields,
) -> bool {
    if fields.number is None {
        r is Err && malformed(r->Err_0, url, "no pull request number in "@ + truncated_spec(body))
    } else if !present(fields.html_url) {
        r is Err && malformed(r->Err_0, url, "no "@ + "html_url"@ + " in "@ + truncated_spec(body))
    } else {
        r is Ok && r->Ok_0.number == fields.number->0 && r->Ok_0.url@ == fields.html_url->0@
    }
}

/// Reads the pull request that the answer at `url` names: the one just opened, or the
/// first open one found for a branch.
pub fn read_opened(url: &str, body: &str, fields: OpenedFields) -> (r: Result<
    OpenedPullRequest,
    ForgeError,
>)
    ensures
        opened_result(r, url@, body@, fields),
{
    let number = match fields.number {
        Some(number) => number,
        None => {
            return Err(malformed_error(url, quoting("no pull request number in ", body)));
        },
    };
    let html_url = required_text(url, fields.html_url, "html_url", body)?;
    Ok(OpenedPullRequest { number, url: html_url })
}

/// The open pull request for a branch, from the first entry of the list GitHub answered
/// with; no entry means there is none.
pub fn read_found(url: &str, body: &str, first: Option<OpenedFields>) -> (r: Result<
    Option<OpenedPullRequest>,
    ForgeError,
>)
    ensures
        first is None ==> r == Ok::<Option<OpenedPullRequest>, ForgeError>(None),
        first matches Some(fields) ==> opened_result(
            match r {
                Ok(found) => Ok(found->0),
                Err(e) => Err(e),
            },
            url@,
            body@,
            fields,
        ) && (r is Ok ==> r->Ok_0 is Some),
{
    match first {
        None => Ok(None),
        Some(fields) => {
            let opened = read_opened(url, body, fields)?;
            Ok(Some(opened))
        },
    }
}

/// `s` without its trailing `c` characters (`str::trim_end_matches` with a `char`).
pub open spec fn trim_end_char(s: Seq<char>, c: char) -> Seq<char>
    decreases s.len(),
{
    if s.len() > 0 && s.last() == c {
        trim_end_char(s.drop_last(), c)
    } else {
        s
    }
}

/// The API base URL requests are made under: the configured one without trailing slashes.
pub fn api_base(api: &str) -> (r: String)
    ensures
        r@ == trim_end_char(api@, '/'),
{
    let v = chars_of(api);
    let mut end = v.len();
    assert(v@.take(v@.len() as int) == v@);
    while end > 0 && v[end - 1] == '/'
        invariant
            end <= v@.len(),
            trim_end_char(v@, '/') == trim_end_char(v@.take(end as int), '/'),
        decreases end,
    {
        assert(v@.take(end as int).drop_last() == v@.take(end - 1));
        end -= 1;
    }
    assert(v@.subrange(0, end as int) == v@.take(end as int));
    string_of(&v, 0, end)
}

/// The path of one page of the check runs on `head`.
pub open spec fn check_runs_path_spec(repo: RepoSlug, head: Seq<char>, page: u32) -> Seq<char> {
    "/repos/"@ + repo.path_spec() + "/commits/"@ + head + "/check-runs?per_page=100&page="@
        + decimal(page as nat)
}

pub fn check_runs_path(repo: &RepoSlug, head: &str, page: u32) -> (r: String)
    ensures
        r@ == check_runs_path_spec(*repo, head@, page),
{
    let mut r = String::new();
    push_str(&mut r, "/repos/");
    let path = repo.path();
    push_string(&mut r, &path);
    push_str(&mut r, "/commits/");
    push_str(&mut r, head);
    push_str(&mut r, "/check-runs?per_page=100&page=");
    push_decimal(&mut r, page as u64);
    r
}

/// The path of the pull request `number`.
pub open spec fn pull_request_path_spec(repo: RepoSlug, number: u64) -> Seq<char> {
    "/repos/"@ + repo.path_spec() + "/pulls/"@ + decimal(number as nat)
}

pub fn pull_request_path(repo: &RepoSlug, number: u64) -> (r: String)
    ensures
        r@ == pull_request_path_spec(*repo, number),
{
    let mut r = String::new();
    push_str(&mut r, "/repos/");
    let path = repo.path();
    push_string(&mut r, &path);
    push_str(&mut r, "/pulls/");
    push_decimal(&mut r, number);
    r
}

/// The path that lists the open pull requests from the branch `head` of the owner.
pub open spec fn open_pull_requests_path_spec(repo: RepoSlug, head: Seq<char>) -> Seq<char> {
    "/repos/"@ + repo.path_spec() + "/pulls?state=open&head="@ + repo.owner@ + "%3A"@ + head
}

pub fn open_pull_requests_path(repo: &RepoSlug, head: &str) -> (r: String)
    ensures
        r@ == open_pull_requests_path_spec(*repo, head@),
{
    let mut r = String::new();
    push_str(&mut r, "/repos/");
    let path = repo.path();
    push_string(&mut r, &path);
    push_str(&mut r, "/pulls?state=open&head=");
    push_string(&mut r, &repo.owner);
    push_str(&mut r, "%3A");
    push_str(&mut r, head);
    r
}

/// The path pull requests are opened at.
pub open spec fn pulls_path_spec(repo: RepoSlug) -> Seq<char> {
    "/repos/"@ + repo.path_spec() + "/pulls"@
}

pub fn pulls_path(repo: &RepoSlug) -> (r: String)
    ensures
        r@ == pulls_path_spec(*repo),
{
    let mut r = String::new();
    push_str(&mut r, "/repos/");
    let path = repo.path();
    push_string(&mut r, &path);
    push_str(&mut r, "/pulls");
    r
}

/// The token the `gh` CLI printed, when its run succeeded and printed one.
pub fn gh_credentials(output: Option<&Output>) -> (r: Option<Credentials>)
    ensures
        match output {
            Some(out) if out.status == Some(0i32) && trim(out.stdout@).len() > 0 => r matches Some(
                c,
            ) && c.token@ == trim(out.stdout@) && c.source is GhCli,
            _ => r is None,
        },
{
    match output {
        Some(out) => {
            if out.succeeded() {
                let token = out.stdout_trimmed();
                if !token.is_empty() {
                    return Some(Credentials { token: token.to_string(), source: CredentialSource::GhCli });
                }
            }
            None
        },
        None => None,
    }
}

/// The token read from the token file at `path`; a file that holds only whitespace holds
/// no token.
pub fn file_credentials(path: &str, contents: &str) -> (r: Result<Credentials, ForgeError>)
    ensures
        trim(contents@).len() == 0 ==> (r matches Err(ForgeError::EmptyToken { path: p })
            && p@ == path@),
        trim(contents@).len() > 0 ==> (r matches Ok(c) && c.token@ == trim(contents@) && (
        c.source matches CredentialSource::TokenFile(p) && p@ == path@)),
{
    let token = trim_str(contents);
    if token.is_empty() {
        return Err(ForgeError::EmptyToken { path: path.to_string() });
    }
    Ok(Credentials { token: token.to_string(), source: CredentialSource::TokenFile(path.to_string()) })
}

/// The octal digits of `n` (`{:o}`).
pub open spec fn octal(n: nat) -> Seq<char>
    decreases n,
{
    if n < 8 {
        seq![(48 + n) as char]
    } else {
        octal(n / 8).push((48 + n % 8) as char)
    }
}

fn push_octal(s: &mut String, n: u32)
    ensures
        final(s)@ == old(s)@ + octal(n as nat),
    decreases n,
{
    if n >= 8 {
        push_octal(s, n / 8);
    }
    let d = (n % 8) as u8;
    push_char(s, (48 + d) as char);
}

/// Whether a token file's permission bits let only its owner read it: none of the group
/// or other bits of the mode's low nine bits may be set.
pub fn owner_only(path: &str, mode: u32) -> (r: Result<(), ForgeError>)
    ensures
        (mode % 512) % 64 == 0 ==> r is Ok,
        (mode % 512) % 64 != 0 ==> (r matches Err(ForgeError::InsecureTokenFile { path: p, detail: d })
            && p@ == path@ && d@ == "mode "@ + octal((mode % 512) as nat)),
{
    let bits = mode % 512;
    if bits % 64 != 0 {
        let mut detail = String::new();
        push_str(&mut detail, "mode ");
        push_octal(&mut detail, bits);
        return Err(ForgeError::InsecureTokenFile { path: path.to_string(), detail });
    }
    Ok(())
}

/// A token file whose access list could not be read is treated as readable by others.
pub fn unverifiable_acl(path: &str, detail: String) -> (e: ForgeError)
    ensures
        e matches ForgeError::InsecureTokenFile { path: p, detail: d } && p@ == path@ && d@
            == detail@,
{
    ForgeError::InsecureTokenFile { path: path.to_string(), detail }
}

/// The verdict on a token file whose access list was read: access for anyone beyond the
/// current user, the owner, Administrators and SYSTEM makes it insecure.
pub fn acl_verdict(path: &str, allow_identities: &[TokenAclIdentity]) -> (r: Result<(), ForgeError>)
    ensures
        (forall|i: int| 0 <= i < allow_identities@.len() ==> !(#[trigger] allow_identities@[i] is Other))
            <==> r is Ok,
        r matches Err(e) ==> (e matches ForgeError::InsecureTokenFile { path: p, detail: d } && p@ == path@
            && d@ == "DACL grants access outside the current user, the owner, Administrators and SYSTEM"@),
{
    if token_acl_is_restricted(allow_identities) {
        Ok(())
    } else {
        let mut detail = String::new();
        push_str(&mut detail, "DACL grants access outside the current user, the owner, Administrators and SYSTEM");
        Err(ForgeError::InsecureTokenFile { path: path.to_string(), detail })
    }
}

/// An optional string field by its text.
pub open spec fn opt_text(value: Option<String>) -> Option<Seq<char>> {
    match value {
        Some(v) => Some(v@),
        None => None,
    }
}

/// A check run by its status and conclusion.
pub open spec fn run_view(run: CheckRun) -> (Option<Seq<char>>, Option<Seq<char>>) {
    (opt_text(run.status), opt_text(run.conclusion))
}

/// A page of check runs by its total count and its runs.
pub open spec fn page_view(page: CheckRunPage) -> (Option<u64>, Option<Seq<(Option<Seq<char>>, Option<Seq<char>>)>>) {
    (page.total_count, match page.check_runs {
        Some(runs) => Some(Seq::new(runs@.len(), |i: int| run_view(runs@[i]))),
        None => None,
    })
}

/// What `serde_json` reads from a check-runs answer: the parse error's text, or the
/// `total_count` number and the `status` and `conclusion` strings of each entry of the
/// `check_runs` list.
pub uninterp spec fn json_check_run_page(body: Seq<char>) -> Result<
    (Option<u64>, Option<Seq<(Option<Seq<char>>, Option<Seq<char>>)>>),
    Seq<char>,
>;

/// Parses `body` with `serde_json::from_str` and reads it with `Value::get`, `as_u64`,
/// `as_array` and `as_str`. Claimed: the result is `json_check_run_page` of the body, the
/// parse error as its `Display` text.
#[verifier::external_body]
fn read_check_run_page(body: &str) -> (r: Result<CheckRunPage, String>)
    ensures
        match r {
            Ok(page) => json_check_run_page(body@) == Ok::<_, Seq<char>>(page_view(page)),
            Err(m) => json_check_run_page(body@) == Err::<(Option<u64>, Option<Seq<(Option<Seq<char>>, Option<Seq<char>>)>>), Seq<char>>(m@),
        },
{
    let value: serde_json::Value = serde_json::from_str(body).map_err(|error| error.to_string())?;
    let runs = value.get("check_runs").and_then(serde_json::Value::as_array).map(|runs| {
        runs.iter().map(|run| CheckRun {
            status: run.get("status").and_then(serde_json::Value::as_str).map(str::to_owned),
            conclusion: run.get("conclusion").and_then(serde_json::Value::as_str).map(str::to_owned),
        }).collect()
    });
    Ok(CheckRunPage { total_count: value.get("total_count").and_then(serde_json::Value::as_u64), check_runs: runs })
}

/// The page of check runs an answer body holds; a body that is not JSON is malformed,
/// with the parse error as the detail.
pub fn check_run_page_answer(url: &str, body: &str) -> (r: Result<CheckRunPage, ForgeError>)
    ensures
        match json_check_run_page(body@) {
            Ok(v) => r matches Ok(page) && page_view(page) == v,
            Err(m) => r is Err && malformed(r->Err_0, url@, m),
        },
{
    match read_check_run_page(body) {
        Ok(page) => Ok(page),
        Err(m) => Err(malformed_error(url, m)),
    }
}

/// The fields of a pull request answer by their values.
pub open spec fn pull_request_fields_view(f: PullRequestFields) -> (Option<u64>, Option<Seq<char>>, Option<Seq<char>>, Option<Seq<char>>, Option<bool>) {
    (f.number, opt_text(f.html_url), opt_text(f.state), opt_text(f.head_sha), f.merged)
}

/// What `serde_json` reads from a pull request answer: the parse error's text, or its
/// `number`, `html_url`, `state`, the `sha` of its `head`, and `merged`.
pub uninterp spec fn json_pull_request_fields(body: Seq<char>) -> Result<
    (Option<u64>, Option<Seq<char>>, Option<Seq<char>>, Option<Seq<char>>, Option<bool>),
    Seq<char>,
>;

/// Parses `body` with `serde_json::from_str` and reads it with `Value::get`, `as_u64`,
/// `as_str` and `as_bool`. Claimed: the result is `json_pull_request_fields` of the body.
#[verifier::external_body]
fn read_pull_request_fields(body: &str) -> (r: Result<PullRequestFields, String>)
    ensures
        match r {
            Ok(f) => json_pull_request_fields(body@) == Ok::<_, Seq<char>>(pull_request_fields_view(f)),
            Err(m) => json_pull_request_fields(body@) == Err::<(Option<u64>, Option<Seq<char>>, Option<Seq<char>>, Option<Seq<char>>, Option<bool>), Seq<char>>(m@),
        },
{
    let value: serde_json::Value = serde_json::from_str(body).map_err(|error| error.to_string())?;
    Ok(PullRequestFields {
        number: value.get("number").and_then(serde_json::Value::as_u64),
        html_url: value.get("html_url").and_then(serde_json::Value::as_str).map(str::to_owned),
        state: value.get("state").and_then(serde_json::Value::as_str).map(str::to_owned),
        head_sha: value.get("head").and_then(|head| head.get("sha")).and_then(serde_json::Value::as_str).map(str::to_owned),
        merged: value.get("merged").and_then(serde_json::Value::as_bool),
    })
}

/// The fields of a pull request answer; a body that is not JSON is malformed.
pub fn pull_request_fields_answer(url: &str, body: &str) -> (r: Result<PullRequestFields, ForgeError>)
    ensures
        match json_pull_request_fields(body@) {
            Ok(v) => r matches Ok(f) && pull_request_fields_view(f) == v,
            Err(m) => r is Err && malformed(r->Err_0, url@, m),
        },
{
    match read_pull_request_fields(body) {
        Ok(f) => Ok(f),
        Err(m) => Err(malformed_error(url, m)),
    }
}

/// The fields of an opened pull request by their values.
pub open spec fn opened_fields_view(f: OpenedFields) -> (Option<u64>, Option<Seq<char>>) {
    (f.number, opt_text(f.html_url))
}

/// What `serde_json` reads from an answer that is one pull request: the parse error's
/// text, or its `number` and `html_url`.
pub uninterp spec fn json_opened_fields(body: Seq<char>) -> Result<(Option<u64>, Option<Seq<char>>), Seq<char>>;

/// Parses `body` with `serde_json::from_str` and reads `number` and `html_url` with
/// `Value::get`, `as_u64` and `as_str`. Claimed: the result is `json_opened_fields` of
/// the body.
#[verifier::external_body]
fn read_opened_fields(body: &str) -> (r: Result<OpenedFields, String>)
    ensures
        match r {
            Ok(f) => json_opened_fields(body@) == Ok::<_, Seq<char>>(opened_fields_view(f)),
            Err(m) => json_opened_fields(body@) == Err::<(Option<u64>, Option<Seq<char>>), Seq<char>>(m@),
        },
{
    let value: serde_json::Value = serde_json::from_str(body).map_err(|error| error.to_string())?;
    Ok(OpenedFields {
        number: value.get("number").and_then(serde_json::Value::as_u64),
        html_url: value.get("html_url").and_then(serde_json::Value::as_str).map(str::to_owned),
    })
}

/// The fields of the pull request an answer names; a body that is not JSON is malformed.
pub fn opened_fields_answer(url: &str, body: &str) -> (r: Result<OpenedFields, ForgeError>)
    ensures
        match json_opened_fields(body@) {
            Ok(v) => r matches Ok(f) && opened_fields_view(f) == v,
            Err(m) => r is Err && malformed(r->Err_0, url@, m),
        },
{
    match read_opened_fields(body) {
        Ok(f) => Ok(f),
        Err(m) => Err(malformed_error(url, m)),
    }
}

/// What `serde_json` reads from an answer that lists pull requests: the parse error's
/// text, or the `number` and `html_url` of its first entry; none when it is not a list or
/// the list is empty.
pub uninterp spec fn json_first_opened(body: Seq<char>) -> Result<Option<(Option<u64>, Option<Seq<char>>)>, Seq<char>>;

/// Parses `body` with `serde_json::from_str`, takes the first entry with `as_array` and
/// `first`, and reads it as `read_opened_fields` does. Claimed: the result is
/// `json_first_opened` of the body.
#[verifier::external_body]
fn read_first_opened(body: &str) -> (r: Result<Option<OpenedFields>, String>)
    ensures
        match r {
            Ok(Some(f)) => json_first_opened(body@) == Ok::<_, Seq<char>>(Some(opened_fields_view(f))),
            Ok(None) => json_first_opened(body@) == Ok::<Option<(Option<u64>, Option<Seq<char>>)>, Seq<char>>(None),
            Err(m) => json_first_opened(body@) == Err::<Option<(Option<u64>, Option<Seq<char>>)>, Seq<char>>(m@),
        },
{
    let value: serde_json::Value = serde_json::from_str(body).map_err(|error| error.to_string())?;
    Ok(value.as_array().and_then(|items| items.first()).map(|item| OpenedFields {
        number: item.get("number").and_then(serde_json::Value::as_u64),
        html_url: item.get("html_url").and_then(serde_json::Value::as_str).map(str::to_owned),
    }))
}

/// The fields of the first pull request an answer lists; a body that is not JSON is
/// malformed.
pub fn first_opened_answer(url: &str, body: &str) -> (r: Result<Option<OpenedFields>, ForgeError>)
    ensures
        match json_first_opened(body@) {
            Ok(Some(v)) => r matches Ok(Some(f)) && opened_fields_view(f) == v,
            Ok(None) => r matches Ok(None),
            Err(m) => r is Err && malformed(r->Err_0, url@, m),
        },
{
    match read_first_opened(body) {
        Ok(found) => Ok(found),
        Err(m) => Err(malformed_error(url, m)),
    }
}

} // verus!
