//! The daemon's own decisions around its work: the scope record of a running daemon,
//! the prompt that resumes a worker, the GitHub repository of a remote, the notice an
//! on-event hook is fed, and the checks made on a validation run.
use vstd::prelude::*;

use crate::facts::FactKind;
use crate::vocabulary::{fact_tag, fact_tag_spec, FactTag};

use crate::adapters::forge::{trim_end_char, RepoSlug};
use crate::adapters::worktrees::PoolEntry;
use crate::checklist::{one_line, one_line_spec};
use crate::error::Error;
use crate::project::Project;
use crate::records::Timestamp;
use crate::text::{
    chars_of, decimal, ends_with, join_spec, join_strings, push_char, push_decimal, push_signed,
    push_str, push_string, rfind_char, rfind_char_in, signed_decimal, string_of, texts, trim,
    trim_str, matches_at_exec, hex_digit, str_eq,
};

verus! {

/// The lock file a running daemon holds, in the home's root.
pub const DAEMON_LOCK_FILE_NAME: &'static str = "depotd.lock";

/// The record of what the running daemon covers, beside its lock.
pub const DAEMON_SCOPE_FILE_NAME: &'static str = "depotd.scope.json";

/// How many characters of a validation run's output are kept.
pub const VALIDATION_OUTPUT_TAIL_CHARS: usize = 4096;

/// What a running daemon records about itself: its pid, when it started, the projects
/// it covers, its last heartbeat and the build it runs.
#[derive(Debug, Clone, PartialEq, Eq)]
pub struct DaemonScope {
    pub pid: u32,
    pub started_at_millis: u64,
    pub projects: Vec<String>,
    pub heartbeat_millis: u64,
    pub build_id: String,
}

impl DaemonScope {
    /// The scope of a daemon started at `at` that covers `projects`.
    pub fn new(projects: &[Project], pid: u32, at: Timestamp, build_id: &str) -> (r: Self)
        ensures
            r.pid == pid,
            r.started_at_millis == at@,
            r.heartbeat_millis == at@,
            r.build_id@ == build_id@,
            r.projects@.len() == projects@.len(),
            forall|i: int| 0 <= i < projects@.len() ==> (#[trigger] r.projects@[i])@ == projects@[i].id@,
    {
        let mut ids: Vec<String> = Vec::new();
        let mut i: usize = 0;
        while i < projects.len()
            invariant
                i <= projects@.len(),
                ids@.len() == i,
                forall|k: int| 0 <= k < i ==> (#[trigger] ids@[k])@ == projects@[k].id@,
            decreases projects@.len() - i,
        {
            ids.push(projects[i].id.clone());
            i += 1;
        }
        DaemonScope {
            pid,
            started_at_millis: at.millis(),
            projects: ids,
            heartbeat_millis: at.millis(),
            build_id: build_id.to_string(),
        }
    }
}

/// The message that says another daemon holds the lock at `lock_path`: its pid and the
/// projects it covers (`covering` names them), or that the record names no daemon.
pub open spec fn lock_held_text(
    lock_path: Seq<char>,
    scope: Option<DaemonScope>,
    covering: Seq<Seq<char>>,
) -> Seq<char> {
    let held = "another depot daemon already holds "@ + lock_path;
    match scope {
        Some(s) if s.pid != 0 => {
            let pid = decimal(s.pid as nat);
            let projects = if s.projects@.len() == 0 {
                "no recorded projects"@
            } else {
                join_spec(covering, ", "@)
            };
            held + ": pid "@ + pid + " covering "@ + projects
                + "; restart it with `depot daemon restart` or stop pid "@ + pid
        },
        _ => held
            + ": the lock record names no daemon, so depot cannot identify the holder; stop the process holding it by hand"@,
    }
}

pub fn lock_held_message(lock_path: &str, scope: Option<&DaemonScope>, covering: &Vec<String>) -> (r:
    String)
    ensures
        r@ == lock_held_text(
            lock_path@,
            match scope {
                Some(s) => Some(*s),
                None => None,
            },
            texts(covering@),
        ),
{
    let mut r = String::new();
    push_str(&mut r, "another depot daemon already holds ");
    push_str(&mut r, lock_path);
    match scope {
        Some(s) if s.pid != 0 => {
            push_str(&mut r, ": pid ");
            push_decimal(&mut r, s.pid as u64);
            push_str(&mut r, " covering ");
            if s.projects.len() == 0 {
                push_str(&mut r, "no recorded projects");
            } else {
                let listed = join_strings(covering, ", ");
                push_string(&mut r, &listed);
            }
            push_str(&mut r, "; restart it with `depot daemon restart` or stop pid ");
            push_decimal(&mut r, s.pid as u64);
        },
        _ => {
            push_str(
                &mut r,
                ": the lock record names no daemon, so depot cannot identify the holder; stop the process holding it by hand",
            );
        },
    }
    r
}

/// How long a scope record stays fresh, in milliseconds: three poll intervals, as a
/// `Duration` saturating at its maximum, read back in whole milliseconds and cut to 64
/// bits.
pub open spec fn stale_after_spec(poll_interval_seconds: u64) -> u64 {
    let millis: int = if poll_interval_seconds * 3 > u64::MAX {
        u64::MAX * 1000 + 999
    } else {
        poll_interval_seconds * 3 * 1000
    };
    (millis % 0x1_0000_0000_0000_0000) as u64
}

pub fn stale_after_millis(poll_interval_seconds: u64) -> (r: u64)
    ensures
        r == stale_after_spec(poll_interval_seconds),
{
    let millis: u128 = if poll_interval_seconds > u64::MAX / 3 {
        (u64::MAX as u128) * 1000 + 999
    } else {
        (poll_interval_seconds as u128) * 3 * 1000
    };
    (millis % 0x1_0000_0000_0000_0000u128) as u64
}

/// Whether a scope's heartbeat is no older than `stale_after` milliseconds at `now`.
pub open spec fn scope_is_fresh_spec(scope: DaemonScope, now: u64, stale_after: u64) -> bool {
    (if now >= scope.heartbeat_millis {
        now - scope.heartbeat_millis
    } else {
        0
    }) <= stale_after
}

pub fn scope_is_fresh(scope: &DaemonScope, now: Timestamp, stale_after: u64) -> (r: bool)
    ensures
        r == scope_is_fresh_spec(*scope, now@, stale_after),
{
    let now = now.millis();
    let age = if now >= scope.heartbeat_millis {
        now - scope.heartbeat_millis
    } else {
        0
    };
    age <= stale_after
}

/// Whether a fresh scope record names a build other than `build_id`.
pub fn build_mismatch(scope: &DaemonScope, build_id: &str, now: Timestamp, stale_after: u64) -> (r:
    bool)
    ensures
        r == (scope.build_id@.len() > 0 && scope.build_id@ != build_id@ && scope_is_fresh_spec(
            *scope,
            now@,
            stale_after,
        )),
{
    let named = scope.build_id.as_str();
    !named.is_empty() && !crate::text::str_eq(named, build_id) && scope_is_fresh(
        scope,
        now,
        stale_after,
    )
}

/// Whether a running daemon covers the project `project`: its scope record is fresh and
/// lists the project.
#[verifier::loop_isolation(false)]
pub fn scope_covers(scope: Option<&DaemonScope>, project: &str, now: Timestamp, stale_after: u64) -> (r:
    bool)
    ensures
        r == (scope matches Some(s) && scope_is_fresh_spec(*s, now@, stale_after) && exists|i: int|
            0 <= i < s.projects@.len() && (#[trigger] s.projects@[i])@ == project@),
{
    match scope {
        None => false,
        Some(s) => {
            if !scope_is_fresh(s, now, stale_after) {
                return false;
            }
            let mut i: usize = 0;
            while i < s.projects.len()
                invariant
                    i <= s.projects@.len(),
                    forall|k: int| 0 <= k < i ==> (#[trigger] s.projects@[k])@ != project@,
                decreases s.projects@.len() - i,
            {
                if crate::text::str_eq(s.projects[i].as_str(), project) {
                    assert((s.projects@[i as int])@ == project@);
                    return true;
                }
                i += 1;
            }
            false
        },
    }
}

/// An answer, on one line and without a final full stop, for a sentence to carry.
pub open spec fn stripped_spec(answer: Seq<char>) -> Seq<char> {
    let line = one_line_spec(answer);
    if line.len() > 0 && line.last() == '.' {
        line.drop_last()
    } else {
        line
    }
}

fn stripped(answer: &str) -> (r: String)
    ensures
        r@ == stripped_spec(answer@),
{
    let line = one_line(answer);
    let v = chars_of(line.as_str());
    if v.len() > 0 && v[v.len() - 1] == '.' {
        let r = string_of(&v, 0, v.len() - 1);
        assert(v@.subrange(0, v@.len() - 1) == v@.drop_last());
        r
    } else {
        line
    }
}

/// The sentence that reports one answered question.
pub open spec fn answered_sentence(question: Seq<char>, answer: Seq<char>) -> Seq<char> {
    "Your question \""@ + one_line_spec(question) + "\" was answered: "@ + stripped_spec(answer)
        + seq!['.']
}

pub open spec fn answered_sentences(answers: Seq<(String, String)>) -> Seq<Seq<char>> {
    Seq::new(answers.len(), |i: int| answered_sentence(answers[i].0@, answers[i].1@))
}

/// The prompt that resumes a worker whose questions were answered: each answer in a
/// sentence of its own, then the instruction to continue.
pub open spec fn resume_prompt_spec(answers: Seq<(String, String)>) -> Seq<char> {
    if answers.len() == 0 {
        "An answer was recorded. Continue the task."@
    } else {
        join_spec(answered_sentences(answers), " "@) + " Continue the task."@
    }
}

pub fn resume_prompt(answers: &[(String, String)]) -> (r: String)
    ensures
        r@ == resume_prompt_spec(answers@),
{
    if answers.len() == 0 {
        let mut r = String::new();
        push_str(&mut r, "An answer was recorded. Continue the task.");
        return r;
    }
    let mut sentences: Vec<String> = Vec::new();
    let mut i: usize = 0;
    while i < answers.len()
        invariant
            i <= answers@.len(),
            texts(sentences@) == answered_sentences(answers@).take(i as int),
        decreases answers@.len() - i,
    {
        let mut sentence = String::new();
        push_str(&mut sentence, "Your question \"");
        let question = one_line(answers[i].0.as_str());
        push_string(&mut sentence, &question);
        push_str(&mut sentence, "\" was answered: ");
        let answer = stripped(answers[i].1.as_str());
        push_string(&mut sentence, &answer);
        push_char(&mut sentence, '.');
        let ghost one = answered_sentence(answers@[i as int].0@, answers@[i as int].1@);
        assert(sentence@ == one);
        let ghost before = texts(sentences@);
        sentences.push(sentence);
        assert(texts(sentences@) =~= before.push(one));
        assert(answered_sentences(answers@).take(i + 1) =~= answered_sentences(answers@).take(
            i as int,
        ).push(one));
        i += 1;
    }
    assert(answered_sentences(answers@).take(answers@.len() as int) == answered_sentences(answers@));
    let mut r = join_strings(&sentences, " ");
    push_str(&mut r, " Continue the task.");
    r
}

/// Why a worker is resumed: the new direction it was given, then the answers it got.
pub open spec fn resume_reason_parts(redirect: Option<String>, answers: Seq<(String, String)>) -> Seq<
    Seq<char>,
> {
    let first = match redirect {
        Some(text) => seq![
            "The task was redirected: "@ + stripped_spec(text@)
                + ". Take the new direction into account."@,
        ],
        None => Seq::empty(),
    };
    if answers.len() == 0 {
        first
    } else {
        first.push(resume_prompt_spec(answers))
    }
}

pub fn resume_reason(redirect: &Option<String>, answers: &[(String, String)]) -> (r: String)
    ensures
        r@ == join_spec(resume_reason_parts(*redirect, answers@), " "@),
{
    let mut parts: Vec<String> = Vec::new();
    match redirect {
        Some(text) => {
            let mut part = String::new();
            push_str(&mut part, "The task was redirected: ");
            let direction = stripped(text.as_str());
            push_string(&mut part, &direction);
            push_str(&mut part, ". Take the new direction into account.");
            parts.push(part);
        },
        None => {},
    }
    if answers.len() > 0 {
        parts.push(resume_prompt(answers));
    }
    assert(texts(parts@) =~= resume_reason_parts(*redirect, answers@));
    join_strings(&parts, " ")
}

/// `s` without its trailing `suffix` repeats (`str::trim_end_matches` with a `&str`).
pub open spec fn trim_end_seq(s: Seq<char>, suffix: Seq<char>) -> Seq<char>
    decreases s.len(),
{
    if suffix.len() > 0 && ends_with(s, suffix) {
        trim_end_seq(s.take(s.len() - suffix.len()), suffix)
    } else {
        s
    }
}

/// A remote URL without its trailing slashes and `.git`.
pub open spec fn bare_remote(remote: Seq<char>) -> Seq<char> {
    trim_end_seq(trim_end_char(remote, '/'), ".git"@)
}

/// The `owner/name` path of a remote: after the last colon, if any.
pub open spec fn remote_target(remote: Seq<char>) -> Seq<char> {
    let r = bare_remote(remote);
    let c = rfind_char(r, ':');
    if c < 0 {
        r
    } else {
        r.skip(c + 1)
    }
}

/// The last `/`-separated segment of `t`, and the one before it when there is one.
pub open spec fn last_two_segments(t: Seq<char>) -> (Seq<char>, Option<Seq<char>>) {
    let s = rfind_char(t, '/');
    if s < 0 {
        (t, None)
    } else {
        let before = t.take(s);
        let s2 = rfind_char(before, '/');
        (t.skip(s + 1), Some(if s2 < 0 { before } else { before.skip(s2 + 1) }))
    }
}

/// The GitHub repository a remote names, when its last two segments are not empty.
pub open spec fn repo_slug_spec(remote: Seq<char>) -> Option<(Seq<char>, Seq<char>)> {
    let (name, owner) = last_two_segments(remote_target(remote));
    match owner {
        Some(o) if o.len() > 0 && name.len() > 0 => Some((o, name)),
        _ => None,
    }
}

/// The end of `v` once its trailing slashes and then its trailing `.git` repeats are cut.
fn bare_end(v: &Vec<char>) -> (end: usize)
    ensures
        end <= v@.len(),
        v@.take(end as int) == bare_remote(v@),
{
    let mut end = v.len();
    assert(v@.take(v@.len() as int) == v@);
    while end > 0 && v[end - 1] == '/'
        invariant
            end <= v@.len(),
            trim_end_char(v@, '/') == trim_end_char(v@.take(end as int), '/'),
        decreases end,
    {
        assert(v@.take(end as int).drop_last() == v@.take(end - 1));
        end -= 1;
    }
    assert(trim_end_char(v@.take(end as int), '/') == v@.take(end as int));
    let suffix = chars_of(".git");
    proof {
        reveal_strlit(".git");
    }
    while end >= 4 && matches_at_exec(v, end - 4, end, &suffix)
        invariant
            end <= v@.len(),
            suffix@ == ".git"@,
            bare_remote(v@) == trim_end_seq(v@.take(end as int), ".git"@),
        decreases end,
    {
        proof {
            reveal_strlit(".git");
        }
        assert(v@.take(end as int).skip(end - 4) == v@.subrange(end - 4, end as int));
        assert(ends_with(v@.take(end as int), ".git"@));
        assert(v@.take(end as int).take(end - 4) == v@.take(end - 4));
        end -= 4;
    }
    proof {
        if end >= 4 {
            assert(v@.take(end as int).skip(end - 4) == v@.subrange(end - 4, end as int));
        }
    }
    end
}

/// The GitHub repository an `https` or `ssh` remote names.
pub fn repo_slug(remote: &str) -> (r: Result<RepoSlug, Error>)
    ensures
        match repo_slug_spec(remote@) {
            Some((owner, name)) => r matches Ok(slug) && slug.owner@ == owner && slug.name@ == name,
            None => r matches Err(Error::Project(m)) && m@ == "cannot read GitHub repository from "@
                + bare_remote(remote@),
        },
{
    let v = chars_of(remote);
    let end = bare_end(&v);
    assert(v@.subrange(0, end as int) == v@.take(end as int));
    let ghost bare_seq = v@.subrange(0, end as int);
    let start = match rfind_char_in(&v, 0, end, ':') {
        Some(c) => c + 1,
        None => 0,
    };
    let ghost target = v@.subrange(start as int, end as int);
    proof {
        if start > 0 {
            assert(bare_seq.skip(start as int) == target);
        }
        assert(target == remote_target(remote@));
    }
    let (name_start, owner) = match rfind_char_in(&v, start, end, '/') {
        None => (start, None),
        Some(sep) => {
            let owner_start = match rfind_char_in(&v, start, sep, '/') {
                Some(s2) => s2 + 1,
                None => start,
            };
            proof {
                assert(target.take(sep - start) == v@.subrange(start as int, sep as int));
                assert(target.skip(sep - start + 1) == v@.subrange(sep + 1, end as int));
                if owner_start > start {
                    assert(target.take(sep - start).skip(owner_start - start) == v@.subrange(
                        owner_start as int,
                        sep as int,
                    ));
                }
            }
            (sep + 1, Some((owner_start, sep)))
        },
    };
    match owner {
        Some((a, b)) if a < b && name_start < end => {
            let owner = string_of(&v, a, b);
            let name = string_of(&v, name_start, end);
            Ok(RepoSlug { owner, name })
        },
        _ => {
            let bare = string_of(&v, 0, end);
            let mut m = String::new();
            push_str(&mut m, "cannot read GitHub repository from ");
            push_string(&mut m, &bare);
            Err(Error::Project(m))
        },
    }
}

/// How JSON writes a character inside a string: the quote, the backslash and the
/// control characters escaped, every other character as itself.
pub open spec fn json_char(c: char) -> Seq<char> {
    let u = c as u32;
    if c == '"' {
        seq!['\\', '"']
    } else if c == '\\' {
        seq!['\\', '\\']
    } else if u == 0x08 {
        seq!['\\', 'b']
    } else if u == 0x09 {
        seq!['\\', 't']
    } else if u == 0x0a {
        seq!['\\', 'n']
    } else if u == 0x0c {
        seq!['\\', 'f']
    } else if u == 0x0d {
        seq!['\\', 'r']
    } else if u < 0x20 {
        seq!['\\', 'u', '0', '0', hex_digit((u / 16) as nat), hex_digit((u % 16) as nat)]
    } else {
        seq![c]
    }
}

pub open spec fn json_chars(s: Seq<char>) -> Seq<char>
    decreases s.len(),
{
    if s.len() == 0 {
        Seq::empty()
    } else {
        json_chars(s.drop_last()) + json_char(s.last())
    }
}

/// A string as JSON writes it: in double quotes, its characters escaped.
pub open spec fn json_string_spec(s: Seq<char>) -> Seq<char> {
    seq!['"'] + json_chars(s) + seq!['"']
}

/// `serde_json::to_string` of a `&str`, which writes it as a JSON string.
#[verifier::external_body]
pub(crate) fn json_string(s: &str) -> (r: String)
    ensures
        r@ == json_string_spec(s@),
{
    match serde_json::to_string(s) {
        Ok(text) => text,
        Err(_) => String::new(),
    }
}

/// A JSON value that is a string or null.
pub open spec fn json_optional(s: Option<String>) -> Seq<char> {
    match s {
        Some(text) => json_string_spec(text@),
        None => "null"@,
    }
}

fn push_json_optional(out: &mut String, s: &Option<String>)
    ensures
        final(out)@ == old(out)@ + json_optional(*s),
{
    match s {
        Some(text) => {
            let quoted = json_string(text.as_str());
            push_string(out, &quoted);
        },
        None => push_str(out, "null"),
    }
}

/// What the on-event hook is told about an event on a task.
#[derive(Debug, Clone, PartialEq, Eq)]
pub struct EventNotice {
    pub project: String,
    pub task: String,
    pub title: String,
    pub event: String,
    pub question: Option<String>,
    pub pull_request: Option<String>,
}

impl EventNotice {
    /// The notice as one JSON object, its keys in order: the event, the project, the
    /// pull request, the question, a recommended default that is always null, the task
    /// and its title.
    pub open spec fn payload_spec(&self) -> Seq<char> {
        "{\"event\":"@ + json_string_spec(self.event@) + ",\"project\":"@ + json_string_spec(
            self.project@,
        ) + ",\"pull_request\":"@ + json_optional(self.pull_request) + ",\"question\":"@
            + json_optional(self.question) + ",\"recommended_default\":null,\"task\":"@
            + json_string_spec(self.task@) + ",\"title\":"@ + json_string_spec(self.title@)
            + "}"@
    }

    pub fn payload(&self) -> (r: String)
        ensures
            r@ == self.payload_spec(),
    {
        let mut out = String::new();
        push_str(&mut out, "{\"event\":");
        let event = json_string(self.event.as_str());
        push_string(&mut out, &event);
        push_str(&mut out, ",\"project\":");
        let project = json_string(self.project.as_str());
        push_string(&mut out, &project);
        push_str(&mut out, ",\"pull_request\":");
        push_json_optional(&mut out, &self.pull_request);
        push_str(&mut out, ",\"question\":");
        push_json_optional(&mut out, &self.question);
        push_str(&mut out, ",\"recommended_default\":null,\"task\":");
        let task = json_string(self.task.as_str());
        push_string(&mut out, &task);
        push_str(&mut out, ",\"title\":");
        let title = json_string(self.title.as_str());
        push_string(&mut out, &title);
        push_str(&mut out, "}");
        out
    }
}

/// An on-event hook that feeds the notice to a shell command on its standard input.
#[derive(Debug, Clone, PartialEq, Eq)]
pub struct ShellEventHook {
    command: String,
}

impl ShellEventHook {
    pub closed spec fn command_spec(&self) -> Seq<char> {
        self.command@
    }

    pub fn new(command: &str) -> (r: Self)
        ensures
            r.command_spec() == command@,
    {
        ShellEventHook { command: command.to_string() }
    }

    pub fn command(&self) -> (r: &str)
        ensures
            r@ == self.command_spec(),
    {
        self.command.as_str()
    }
}

/// The error of an on-event command that did not succeed; a run ended by a signal
/// reports the exit code -1.
pub fn hook_failed(code: Option<i32>) -> (e: Error)
    ensures
        e matches Error::Project(m) && m@ == "the on_event command exited "@ + signed_decimal(
            match code {
                Some(c) => c as int,
                None => -1,
            },
        ),
{
    let mut m = String::new();
    push_str(&mut m, "the on_event command exited ");
    let shown: i64 = match code {
        Some(c) => c as i64,
        None => -1,
    };
    push_signed(&mut m, shown);
    Error::Project(m)
}

/// The error of an on-event command whose standard input could not be written.
pub fn hook_closed_stdin() -> (e: Error)
    ensures
        e matches Error::Project(m) && m@ == "the on_event command closed its stdin"@,
{
    let mut m = String::new();
    push_str(&mut m, "the on_event command closed its stdin");
    Error::Project(m)
}

/// The hook that notifies nobody.
#[derive(Debug, Clone, Copy, PartialEq, Eq)]
pub struct NoEventHook;

/// The validation runner that runs the project's command in a shell, on a scratch
/// worktree at the submitted commit merged with the base.
#[derive(Debug, Clone, Copy, PartialEq, Eq)]
pub struct ShellValidation;

/// The delivery that pushes branches and opens pull requests on a forge.
#[derive(Debug, Clone)]
pub struct ForgeDelivery<F> {
    forge: F,
}

impl<F> ForgeDelivery<F> {
    pub closed spec fn forge_spec(&self) -> F {
        self.forge
    }

    pub fn new(forge: F) -> (r: Self)
        ensures
            r.forge_spec() == forge,
    {
        ForgeDelivery { forge }
    }

    pub fn forge(&self) -> (r: &F)
        ensures
            *r == self.forge_spec(),
    {
        &self.forge
    }
}

/// A worktree must be at the commit that was submitted: `head` is what `git rev-parse
/// HEAD` printed there.
pub fn check_head(worktree: &str, head: &str, commit: &str) -> (r: Result<(), Error>)
    ensures
        trim(head@) == commit@ ==> r is Ok,
        trim(head@) != commit@ ==> (r matches Err(Error::Project(m)) && m@ == "worktree "@
            + worktree@ + " is at "@ + trim(head@) + " rather than submitted commit "@ + commit@),
{
    let at = trim_str(head);
    if crate::text::str_eq(at, commit) {
        return Ok(());
    }
    let mut m = String::new();
    push_str(&mut m, "worktree ");
    push_str(&mut m, worktree);
    push_str(&mut m, " is at ");
    push_str(&mut m, at);
    push_str(&mut m, " rather than submitted commit ");
    push_str(&mut m, commit);
    Err(Error::Project(m))
}

/// A branch is pushed only from a worktree still at the commit that validated: `head` is
/// what `git rev-parse HEAD` printed there, and a moved branch is refused.
pub fn check_push_head(worktree: &str, head: &str, commit: &str) -> (r: Result<(), Error>)
    ensures
        trim(head@) == commit@ ==> r is Ok,
        trim(head@) != commit@ ==> (r matches Err(Error::Project(m)) && m@ == "worktree "@
            + worktree@ + " is not at submitted commit "@ + commit@),
{
    if crate::text::str_eq(trim_str(head), commit) {
        return Ok(());
    }
    let mut m = String::new();
    push_str(&mut m, "worktree ");
    push_str(&mut m, worktree);
    push_str(&mut m, " is not at submitted commit ");
    push_str(&mut m, commit);
    Err(Error::Project(m))
}

/// The refspec that fetches the base branch into its remote-tracking ref, even when that
/// ref has to move backwards.
pub open spec fn base_refspec_spec(base: Seq<char>) -> Seq<char> {
    "+refs/heads/"@ + base + ":refs/remotes/origin/"@ + base
}

pub fn base_refspec(base: &str) -> (r: String)
    ensures
        r@ == base_refspec_spec(base@),
{
    let mut r = String::new();
    push_str(&mut r, "+refs/heads/");
    push_str(&mut r, base);
    push_str(&mut r, ":refs/remotes/origin/");
    push_str(&mut r, base);
    r
}

/// The error when the base branch could not be fetched.
pub fn base_fetch_failed(base: &str, error: &Error) -> (e: Error)
    ensures
        e matches Error::Project(m) && m@ == "could not fetch base `"@ + base@ + "`: "@
            + error.message_spec(),
{
    let mut m = String::new();
    push_str(&mut m, "could not fetch base `");
    push_str(&mut m, base);
    push_str(&mut m, "`: ");
    let detail = error.message();
    push_string(&mut m, &detail);
    Error::Project(m)
}

/// What a validation run keeps of its output: the last 4096 characters of its standard
/// output followed by its standard error.
pub open spec fn output_tail_spec(stdout: Seq<char>, stderr: Seq<char>) -> Seq<char> {
    let combined = stdout + stderr;
    if combined.len() <= VALIDATION_OUTPUT_TAIL_CHARS {
        combined
    } else {
        combined.skip(combined.len() - VALIDATION_OUTPUT_TAIL_CHARS)
    }
}

pub fn output_tail(stdout: &str, stderr: &str) -> (r: String)
    ensures
        r@ == output_tail_spec(stdout@, stderr@),
{
    let mut combined = String::new();
    push_str(&mut combined, stdout);
    push_str(&mut combined, stderr);
    let v = chars_of(combined.as_str());
    if v.len() <= VALIDATION_OUTPUT_TAIL_CHARS {
        assert(v@.subrange(0, v@.len() as int) == v@);
        return string_of(&v, 0, v.len());
    }
    let start = v.len() - VALIDATION_OUTPUT_TAIL_CHARS;
    assert(v@.subrange(start as int, v@.len() as int) == v@.skip(start as int));
    string_of(&v, start, v.len())
}

/// The leases a task still owes the pool: those recorded as pending release, then each
/// lease of the pool held under `depot:<task>` that is not listed yet, in pool order.
pub open spec fn owed_leases_spec(task: Seq<char>, pending: Seq<Seq<char>>, pool: Seq<PoolEntry>) -> Seq<Seq<char>>
    decreases pool.len(),
{
    if pool.len() == 0 {
        pending
    } else {
        let before = owed_leases_spec(task, pending, pool.drop_last());
        let entry = pool.last();
        match (entry.holder, entry.lease) {
            (Some(h), Some(l)) => if h@ == "depot:"@ + task && !before.contains(l@) {
                before.push(l@)
            } else {
                before
            },
            _ => before,
        }
    }
}

/// The leases the task `task` owes the pool.
pub fn owed_leases(task: &str, pending: &Vec<String>, pool: &[PoolEntry]) -> (r: Vec<String>)
    ensures
        texts(r@) == owed_leases_spec(task@, texts(pending@), pool@),
{
    let mut leases: Vec<String> = Vec::new();
    let mut k: usize = 0;
    while k < pending.len()
        invariant
            k <= pending@.len(),
            texts(leases@) == texts(pending@).take(k as int),
        decreases pending@.len() - k,
    {
        leases.push(pending[k].clone());
        assert(texts(pending@).take(k + 1) == texts(pending@).take(k as int).push(pending@[k as int]@));
        k = k + 1;
    }
    assert(texts(pending@).take(pending@.len() as int) == texts(pending@));
    let mut holder = String::new();
    push_str(&mut holder, "depot:");
    push_str(&mut holder, task);
    let mut i: usize = 0;
    assert(pool@.take(0) == Seq::<PoolEntry>::empty());
    while i < pool.len()
        invariant
            i <= pool@.len(),
            holder@ == "depot:"@ + task@,
            texts(leases@) == owed_leases_spec(task@, texts(pending@), pool@.take(i as int)),
        decreases pool@.len() - i,
    {
        let entry = &pool[i];
        assert(pool@.take(i + 1).drop_last() == pool@.take(i as int));
        assert(pool@.take(i + 1).last() == pool@[i as int]);
        match (&entry.holder, &entry.lease) {
            (Some(h), Some(l)) => {
                if str_eq(h.as_str(), holder.as_str()) {
                    let mut listed = false;
                    let mut j: usize = 0;
                    while j < leases.len()
                        invariant
                            j <= leases@.len(),
                            listed == exists|q: int| 0 <= q < j && texts(leases@)[q] == l@,
                        decreases leases@.len() - j,
                    {
                        let same = str_eq(leases[j].as_str(), l.as_str());
                        proof {
                            assert(texts(leases@)[j as int] == leases@[j as int]@);
                            if same {
                                assert(texts(leases@)[j as int] == l@);
                            }
                        }
                        if same {
                            listed = true;
                        }
                        j = j + 1;
                    }
                    proof {
                        if listed {
                            let q = choose|q: int| 0 <= q < j && texts(leases@)[q] == l@;
                            assert(texts(leases@).contains(l@));
                        }
                    }
                    if !listed {
                        let ghost before = texts(leases@);
                        leases.push(l.clone());
                        assert(texts(leases@) == before.push(l@));
                    }
                }
            },
            _ => {},
        }
        i = i + 1;
    }
    assert(pool@.take(pool@.len() as int) == pool@);
    leases
}

/// The leases owed start with those pending release, and a lease pending at most once is
/// owed at most once: a pool lease already listed is never added again.
pub proof fn lemma_owed_leases_listed_once(task: Seq<char>, pending: Seq<Seq<char>>, pool: Seq<PoolEntry>)
    requires
        pending.no_duplicates(),
    ensures
        owed_leases_spec(task, pending, pool).len() >= pending.len(),
        owed_leases_spec(task, pending, pool).take(pending.len() as int) == pending,
        owed_leases_spec(task, pending, pool).no_duplicates(),
    decreases pool.len(),
{
    if pool.len() > 0 {
        lemma_owed_leases_listed_once(task, pending, pool.drop_last());
        let before = owed_leases_spec(task, pending, pool.drop_last());
        let entry = pool.last();
        match (entry.holder, entry.lease) {
            (Some(h), Some(l)) => if h@ == "depot:"@ + task && !before.contains(l@) {
                assert(before.push(l@).take(pending.len() as int) == before.take(pending.len() as int));
                assert forall|a: int, b: int| 0 <= a < b < before.push(l@).len() implies before.push(l@)[a]
                    != before.push(l@)[b] by {
                    if b == before.len() {
                        assert(before.push(l@)[a] == before[a]);
                    }
                }
            },
            _ => {},
        }
    } else {
        assert(pending.take(pending.len() as int) == pending);
    }
}

/// Whether a fact goes to the daemon's log: every fact but a poll does.
pub fn logs_fact(kind: &FactKind) -> (r: bool)
    ensures
        r == (fact_tag_spec(*kind) != FactTag::Polled),
        r == !(*kind is Polled),
{
    match fact_tag(kind) {
        FactTag::Polled => false,
        _ => true,
    }
}

} // verus!
