//! The inbox: the facts recorded since the coordinator's last turn, grouped by who
//! must act on them.
use vstd::prelude::*;

use crate::checklist::{format_timestamp, format_timestamp_spec, one_line, one_line_spec};
use crate::records::Timestamp;
use crate::error::{Error, ErrorKind};
use crate::factcodec::{json_str_field, payload_field, payload_field_result, result_view};
use crate::names::{state_name, state_name_spec, TaskState};
use crate::store::RecordedEvent;
use crate::tasks::{lease, lease_spec, unanswered, unanswered_spec, PullRequestRecord, Question, Task, ValidationRecord};
use crate::text::{decimal, push_char, push_decimal, push_signed, push_str, push_string, signed_decimal, str_eq};
use crate::vocabulary::{fact_tag_from_name, fact_tag_name_spec, names_fact_tag, FactTag};

verus! {

/// Who must act on a fact.
#[derive(Debug, Clone, Copy, PartialEq, Eq, Structural, PartialOrd, Ord, Hash)]
pub enum Need {
    User,
    Coordinator,
    Nothing,
}

/// The heading a group of facts is listed under.
pub open spec fn need_heading(need: Need) -> Seq<char> {
    match need {
        Need::User => "For the user"@,
        Need::Coordinator => "For you"@,
        Need::Nothing => "No action"@,
    }
}

impl Need {
    pub fn heading(self) -> (r: &'static str)
        ensures
            r@ == need_heading(self),
    {
        match self {
            Need::User => "For the user",
            Need::Coordinator => "For you",
            Need::Nothing => "No action",
        }
    }
}

/// How the inbox counts facts: `1 fact`, or the number and `facts`.
pub open spec fn fact_count_spec(facts: nat) -> Seq<char> {
    if facts == 1 {
        "1 fact"@
    } else {
        decimal(facts) + " facts"@
    }
}

pub fn fact_count(facts: usize) -> (r: String)
    ensures
        r@ == fact_count_spec(facts as nat),
{
    let mut r = String::new();
    if facts == 1 {
        push_str(&mut r, "1 fact");
    } else {
        push_decimal(&mut r, facts as u64);
        push_str(&mut r, " facts");
    }
    r
}

/// How many of the facts no one must act on are shown; earlier ones are summed up.
pub const NOTHING_SHOWN: usize = 10;

/// The line that sums up the no-action facts left out.
pub open spec fn earlier_line_spec(earlier: nat) -> Seq<char> {
    "- ... and "@ + decimal(earlier) + " earlier no-action facts\n"@
}

pub fn earlier_line(earlier: usize) -> (r: String)
    ensures
        r@ == earlier_line_spec(earlier as nat),
{
    let mut r = String::new();
    push_str(&mut r, "- ... and ");
    push_decimal(&mut r, earlier as u64);
    push_str(&mut r, " earlier no-action facts\n");
    r
}

/// How many runs of no-action facts are left out when `runs` of them are listed: all
/// but the last ten.
pub fn hidden_runs(runs: usize) -> (r: usize)
    ensures
        runs > NOTHING_SHOWN ==> r == runs - NOTHING_SHOWN,
        runs <= NOTHING_SHOWN ==> r == 0,
{
    if runs > NOTHING_SHOWN {
        runs - NOTHING_SHOWN
    } else {
        0
    }
}

/// One fact of the inbox: when it was recorded, its task, its line, and who must act.
#[derive(Debug, Clone, PartialEq, Eq)]
pub struct InboxEntry {
    pub at: Timestamp,
    pub task: Option<String>,
    pub line: String,
    pub need: Need,
}

/// A run of consecutive facts of one group with the same line: the line, the times of
/// its first and last fact, and how many facts it holds.
pub type RunView = (Seq<char>, nat, nat, nat);

/// The runs of the facts of `entries` that `need` groups, in order.
pub open spec fn runs_of(entries: Seq<InboxEntry>, need: Need) -> Seq<RunView>
    decreases entries.len(),
{
    if entries.len() == 0 {
        Seq::empty()
    } else {
        let prev = runs_of(entries.drop_last(), need);
        let e = entries.last();
        if e.need != need {
            prev
        } else if prev.len() > 0 && prev.last().0 == e.line@ {
            let last = prev.last();
            prev.update(prev.len() - 1, (last.0, last.1, e.at@ as nat, last.3 + 1))
        } else {
            prev.push((e.line@, e.at@ as nat, e.at@ as nat, 1))
        }
    }
}

/// How many facts of `entries` `need` groups.
pub open spec fn group_len(entries: Seq<InboxEntry>, need: Need) -> nat
    decreases entries.len(),
{
    if entries.len() == 0 {
        0
    } else {
        group_len(entries.drop_last(), need) + if entries.last().need == need {
            1nat
        } else {
            0nat
        }
    }
}

/// The line of a run.
pub open spec fn run_line(run: RunView) -> Seq<char> {
    if run.3 == 1 {
        "- "@ + run.0 + " at "@ + format_timestamp_spec(run.1) + seq!['\n']
    } else {
        "- "@ + run.0 + " at "@ + format_timestamp_spec(run.1) + " ("@ + decimal(run.3)
            + " times through "@ + format_timestamp_spec(run.2) + ")\n"@
    }
}

pub open spec fn run_lines(runs: Seq<RunView>) -> Seq<char>
    decreases runs.len(),
{
    if runs.len() == 0 {
        Seq::empty()
    } else {
        run_lines(runs.drop_last()) + run_line(runs.last())
    }
}

/// The section of one group: its heading with its count, then its runs; of the
/// no-action facts, only the last ten runs, after a line that sums up the others.
pub open spec fn group_section(entries: Seq<InboxEntry>, need: Need) -> Seq<char> {
    let runs = runs_of(entries, need);
    let n = group_len(entries, need);
    if n == 0 {
        Seq::empty()
    } else {
        let heading = "\n## "@ + need_heading(need) + " ("@ + decimal(n) + ")\n"@;
        if need == Need::Nothing && runs.len() > NOTHING_SHOWN {
            let earlier = (runs.len() - NOTHING_SHOWN) as nat;
            heading + earlier_line_spec(earlier) + run_lines(runs.skip(earlier as int))
        } else {
            heading + run_lines(runs)
        }
    }
}

/// The inbox: its title, how many facts it holds, then the facts for the user, for the
/// coordinator, and those no one must act on.
pub open spec fn render_inbox_spec(entries: Seq<InboxEntry>) -> Seq<char> {
    if entries.len() == 0 {
        "# Inbox\n\n"@ + "No facts since your last turn.\n"@
    } else {
        "# Inbox\n\n"@ + fact_count_spec(entries.len()) + " since your last turn.\n"@
            + group_section(entries, Need::User) + group_section(entries, Need::Coordinator)
            + group_section(entries, Need::Nothing)
    }
}

pub open spec fn runs_view(runs: Seq<(String, Timestamp, Timestamp, usize)>) -> Seq<RunView> {
    Seq::new(runs.len(), |k: int| (runs[k].0@, runs[k].1@ as nat, runs[k].2@ as nat, runs[k].3 as nat))
}

proof fn lemma_runs_bounded(entries: Seq<InboxEntry>, need: Need)
    ensures
        runs_of(entries, need).len() <= group_len(entries, need) <= entries.len(),
        forall|k: int| 0 <= k < runs_of(entries, need).len() ==> 1 <= #[trigger] runs_of(entries, need)[k].3 <= entries.len(),
    decreases entries.len(),
{
    if entries.len() > 0 {
        lemma_runs_bounded(entries.drop_last(), need);
    }
}

/// The runs of one group, built in order.
fn collect_runs(entries: &[InboxEntry], need: Need) -> (r: Vec<(String, Timestamp, Timestamp, usize)>)
    ensures
        runs_view(r@) == runs_of(entries@, need),
{
    let mut runs: Vec<(String, Timestamp, Timestamp, usize)> = Vec::new();
    let mut i: usize = 0;
    while i < entries.len()
        invariant
            i <= entries@.len(),
            runs_view(runs@) == runs_of(entries@.take(i as int), need),
        decreases entries@.len() - i,
    {
        let e = &entries[i];
        proof {
            assert(entries@.take(i + 1).drop_last() == entries@.take(i as int));
            assert(entries@.take(i + 1).last() == entries@[i as int]);
            lemma_runs_bounded(entries@.take(i as int), need);
        }
        if e.need == need {
            let n = runs.len();
            if n > 0 && str_eq(runs[n - 1].0.as_str(), e.line.as_str()) {
                assert(runs_view(runs@)[n - 1].3 == runs@[n - 1].3 as nat);
                assert(runs_of(entries@.take(i as int), need)[n - 1].3 <= i);
                let (line, first, _, count) = runs.pop().unwrap();
                runs.push((line, first, e.at, count + 1));
            } else {
                runs.push((e.line.clone(), e.at, e.at, 1));
            }
        }
        assert(runs_view(runs@) =~= runs_of(entries@.take(i + 1), need));
        i += 1;
    }
    assert(entries@.take(entries@.len() as int) == entries@);
    runs
}

fn group_count(entries: &[InboxEntry], need: Need) -> (r: usize)
    ensures
        r == group_len(entries@, need),
{
    let mut n: usize = 0;
    let mut i: usize = 0;
    while i < entries.len()
        invariant
            i <= entries@.len(),
            n == group_len(entries@.take(i as int), need),
        decreases entries@.len() - i,
    {
        proof {
            assert(entries@.take(i + 1).drop_last() == entries@.take(i as int));
            lemma_runs_bounded(entries@.take(i as int), need);
        }
        if entries[i].need == need {
            n += 1;
        }
        i += 1;
    }
    assert(entries@.take(entries@.len() as int) == entries@);
    n
}

fn push_run_line(out: &mut String, run: &(String, Timestamp, Timestamp, usize))
    ensures
        final(out)@ == old(out)@ + run_line((run.0@, run.1@ as nat, run.2@ as nat, run.3 as nat)),
{
    push_str(out, "- ");
    push_string(out, &run.0);
    push_str(out, " at ");
    let at = format_timestamp(run.1);
    push_string(out, &at);
    if run.3 == 1 {
        push_char(out, '\n');
    } else {
        push_str(out, " (");
        push_decimal(out, run.3 as u64);
        push_str(out, " times through ");
        let through = format_timestamp(run.2);
        push_string(out, &through);
        push_str(out, ")\n");
    }
}

/// Appends the lines of `runs[from..]`.
fn push_run_lines(out: &mut String, runs: &Vec<(String, Timestamp, Timestamp, usize)>, from: usize)
    requires
        from <= runs@.len(),
    ensures
        final(out)@ == old(out)@ + run_lines(runs_view(runs@).skip(from as int)),
{
    let ghost start = out@;
    let ghost view = runs_view(runs@);
    let mut k = from;
    assert(view.skip(from as int).take(0) =~= Seq::<RunView>::empty());
    while k < runs.len()
        invariant
            from <= k <= runs@.len(),
            view == runs_view(runs@),
            out@ == start + run_lines(view.skip(from as int).take(k - from)),
        decreases runs@.len() - k,
    {
        push_run_line(out, &runs[k]);
        proof {
            let part = view.skip(from as int).take(k + 1 - from);
            assert(part.drop_last() == view.skip(from as int).take(k - from));
            assert(part.last() == view[k as int]);
        }
        k += 1;
    }
    assert(view.skip(from as int).take(runs@.len() - from) == view.skip(from as int));
}

fn group_heading(need: Need, n: usize) -> (r: String)
    ensures
        r@ == "\n## "@ + need_heading(need) + " ("@ + decimal(n as nat) + ")\n"@,
{
    let mut r = String::new();
    push_str(&mut r, "\n## ");
    push_str(&mut r, need.heading());
    push_str(&mut r, " (");
    push_decimal(&mut r, n as u64);
    push_str(&mut r, ")\n");
    r
}

fn push_group(out: &mut String, entries: &[InboxEntry], need: Need)
    ensures
        final(out)@ == old(out)@ + group_section(entries@, need),
{
    let n = group_count(entries, need);
    if n == 0 {
        return;
    }
    let heading = group_heading(need, n);
    let runs = collect_runs(entries, need);
    let ghost start = out@;
    push_string(out, &heading);
    if need == Need::Nothing && runs.len() > NOTHING_SHOWN {
        let earlier = runs.len() - NOTHING_SHOWN;
        let line = earlier_line(earlier);
        push_string(out, &line);
        push_run_lines(out, &runs, earlier);
        assert(out@ == start + (heading@ + line@ + run_lines(runs_view(runs@).skip(earlier as int))));
    } else {
        push_run_lines(out, &runs, 0);
        assert(runs_view(runs@).skip(0) == runs_view(runs@));
        assert(out@ == start + (heading@ + run_lines(runs_view(runs@))));
    }
}

/// Renders the inbox of `entries`.
pub fn render_inbox(entries: &[InboxEntry]) -> (r: String)
    ensures
        r@ == render_inbox_spec(entries@),
{
    let mut out = String::new();
    push_str(&mut out, "# Inbox\n\n");
    if entries.len() == 0 {
        push_str(&mut out, "No facts since your last turn.\n");
        return out;
    }
    let count = fact_count(entries.len());
    push_string(&mut out, &count);
    push_str(&mut out, " since your last turn.\n");
    push_group(&mut out, entries, Need::User);
    push_group(&mut out, entries, Need::Coordinator);
    push_group(&mut out, entries, Need::Nothing);
    out
}

/// The line a liveness fact is listed with, from the `liveness` its payload carries.
pub open spec fn liveness_line_spec(liveness: Seq<char>) -> Seq<char> {
    if liveness == "live"@ {
        "the worker is live"@
    } else {
        "the worker is gone"@
    }
}

pub fn liveness_line(payload: &str) -> (r: Result<String, Error>)
    ensures
        result_view(r) == match payload_field_result(
            json_str_field(payload@, "liveness"@),
            "liveness"@,
        ) {
            Ok(l) => Ok(liveness_line_spec(l)),
            Err(e) => Err(e),
        },
{
    let liveness = match payload_field(payload, "liveness") {
        Ok(l) => l,
        Err(e) => return Err(e),
    };
    let mut line = String::new();
    if str_eq(liveness.as_str(), "live") {
        push_str(&mut line, "the worker is live");
    } else {
        push_str(&mut line, "the worker is gone");
    }
    Ok(line)
}

/// Whether a task is waiting on one of its questions: some question has no answer.
pub open spec fn asks_spec(task: Task) -> bool {
    unanswered_spec(task) is Some
}

/// Who must act on a fact of kind `tag` about `task`. A question is for the user while
/// the task waits on it, and for the coordinator while it is unanswered otherwise; a
/// failure is for the user once the task failed or was cancelled; a refused merge is for
/// the user while the pull request is open.
pub open spec fn need_for_spec(tag: FactTag, task: Option<Task>) -> Need {
    match tag {
        FactTag::QuestionAsked => match task {
            Some(t) => if t.state == TaskState::WaitingOnQuestion {
                Need::User
            } else if asks_spec(t) {
                Need::Coordinator
            } else {
                Need::Nothing
            },
            None => Need::Nothing,
        },
        FactTag::ValidationFinished | FactTag::WorkerLivenessChanged | FactTag::WorkerTurnUnresolved | FactTag::PushFailed | FactTag::RunDurationExceeded | FactTag::RetryExhausted | FactTag::ProviderRateLimited | FactTag::PullRequestMerged | FactTag::PullRequestClosedUnmerged => match task {
            Some(t) => if t.state == TaskState::Failed || t.state == TaskState::Cancelled {
                Need::User
            } else {
                Need::Nothing
            },
            None => Need::Nothing,
        },
        FactTag::PullRequestMergeRefused => match task {
            Some(t) => if t.state == TaskState::PrOpen {
                Need::User
            } else {
                Need::Nothing
            },
            None => Need::Nothing,
        },
        _ => Need::Nothing,
    }
}

pub fn need_for(tag: FactTag, task: Option<&Task>) -> (r: Need)
    ensures
        r == need_for_spec(tag, match task {
            Some(t) => Some(*t),
            None => None,
        }),
{
    match tag {
        FactTag::QuestionAsked => match task {
            Some(t) => if t.state == TaskState::WaitingOnQuestion {
                Need::User
            } else if unanswered(t).is_some() {
                Need::Coordinator
            } else {
                Need::Nothing
            },
            None => Need::Nothing,
        },
        FactTag::ValidationFinished | FactTag::WorkerLivenessChanged | FactTag::WorkerTurnUnresolved | FactTag::PushFailed | FactTag::RunDurationExceeded | FactTag::RetryExhausted | FactTag::ProviderRateLimited | FactTag::PullRequestMerged | FactTag::PullRequestClosedUnmerged => match task {
            Some(t) => if t.state == TaskState::Failed || t.state == TaskState::Cancelled {
                Need::User
            } else {
                Need::Nothing
            },
            None => Need::Nothing,
        },
        FactTag::PullRequestMergeRefused => match task {
            Some(t) => if t.state == TaskState::PrOpen {
                Need::User
            } else {
                Need::Nothing
            },
            None => Need::Nothing,
        },
        _ => Need::Nothing,
    }
}

/// What a fact payload holds at `field`, as `payload_field` reads it.
pub open spec fn field_of(payload: Seq<char>, field: Seq<char>) -> Result<Seq<char>, (ErrorKind, Seq<char>)> {
    payload_field_result(json_str_field(payload, field), field)
}

pub open spec fn question_of(task: Option<Task>) -> Option<Question> {
    match task {
        Some(t) => unanswered_spec(t),
        None => None,
    }
}

pub open spec fn last_validation(task: Option<Task>) -> Option<ValidationRecord> {
    match task {
        Some(t) => if t.validations@.len() == 0 {
            None
        } else {
            Some(t.validations@.last())
        },
        None => None,
    }
}

pub open spec fn lease_of(task: Option<Task>) -> Option<String> {
    match task {
        Some(t) => lease_spec(t),
        None => None,
    }
}

pub open spec fn head_of(task: Option<Task>) -> Option<String> {
    match task {
        Some(t) => t.branch_head,
        None => None,
    }
}

pub open spec fn pull_request_of(task: Option<Task>) -> Option<PullRequestRecord> {
    match task {
        Some(t) => t.pull_request,
        None => None,
    }
}

/// What the inbox says happened, for a fact of kind `tag` with `payload` about `task`.
/// A payload without the field a line needs is an error where the line cannot do
/// without it.
pub open spec fn headline_spec(tag: FactTag, payload: Seq<char>, task: Option<Task>) -> Result<Seq<char>, (ErrorKind, Seq<char>)> {
    match tag {
        FactTag::TaskDispatchJudged => Ok("dispatch model judgement recorded"@),
        FactTag::TaskProposed => Ok("a task was filed, holding for approval"@),
        FactTag::TaskApproved => Ok("approved"@),
        FactTag::TaskCancelled => Ok("stopped"@),
        FactTag::TaskRetried => Ok("scheduled to run again"@),
        FactTag::TaskAcknowledged => Ok("acknowledged; it fades from the default status"@),
        FactTag::TaskReleased => Ok("the pull request hold was released"@),
        FactTag::QuestionAnswered => Ok("answered"@),
        FactTag::WorktreeAcquireRequested => Ok("worktree acquire requested"@),
        FactTag::WorkerTurnLaunchRequested => Ok("worker turn launch requested"@),
        FactTag::WorkerTurnResumeRequested => Ok("worker turn resume requested"@),
        FactTag::WorkerTurnStarted => Ok("worker turn started"@),
        FactTag::WorkerTurnEnded => Ok("worker turn ended"@),
        FactTag::WorkerSubmissionRecorded => Ok("recorded a submission"@),
        FactTag::WorkerSubmitted => Ok("submitted a change"@),
        FactTag::ValidationStarted => Ok("validation started"@),
        FactTag::PullRequestChecksChanged => Ok("pull request checks changed"@),
        FactTag::PullRequestMerged => Ok("the pull request merged"@),
        FactTag::PullRequestClosedUnmerged => Ok("the pull request closed unmerged"@),
        FactTag::RebaseScheduled => Ok("a conflicting pull request was scheduled to merge the base branch"@),
        FactTag::RunDurationExceeded => Ok("ran past its run duration"@),
        FactTag::RetryExhausted => Ok("ran out of retries"@),
        FactTag::ProviderRateLimited => Ok("hit a provider rate limit"@),
        FactTag::CoordinatorSessionStarted => Ok("this session started"@),
        FactTag::CoordinatorContextMeasured => Ok("context measured"@),
        FactTag::OnEventNotified => Ok("the daemon ran its event hook"@),
        FactTag::DaemonRestarted => Ok("the daemon restarted"@),
        FactTag::Polled => Ok("the daemon polled"@),
        FactTag::QuestionAsked => Ok(match question_of(task) {
            Some(q) => "asked \""@ + one_line_spec(q.text@) + "\""@,
            None => "asked a question that is already answered"@,
        }),
        FactTag::WorkerTurnUnresolved => Ok(match field_of(payload, "reason"@) {
            Ok(reason) => "a worker turn could not be resolved: "@ + one_line_spec(reason),
            Err(_) => "a worker turn could not be resolved"@,
        }),
        FactTag::WorkerRedirected => Ok(match field_of(payload, "text"@) {
            Ok(text) => "a new direction was queued for the worker: "@ + one_line_spec(text),
            Err(_) => "a new direction was queued for the worker"@,
        }),
        FactTag::WorkerLivenessChanged => match field_of(payload, "liveness"@) {
            Ok(liveness) => Ok(liveness_line_spec(liveness)),
            Err(e) => Err(e),
        },
        FactTag::ValidationFinished => Ok(match last_validation(task) {
            Some(v) => "validation `"@ + one_line_spec(v.command@) + "` at `"@ + v.commit@
                + "` exited "@ + signed_decimal(v.exit_code as int),
            None => "validation finished"@,
        }),
        FactTag::WorktreeAcquired => Ok(match lease_of(task) {
            Some(l) => "worktree lease `"@ + l@ + "` acquired"@,
            None => "a worktree was acquired"@,
        }),
        FactTag::BranchPushed => Ok(match head_of(task) {
            Some(c) => "branch pushed at `"@ + c@ + "`"@,
            None => "the branch was pushed"@,
        }),
        FactTag::PullRequestOpened => Ok(match pull_request_of(task) {
            Some(pr) => "pull request #"@ + decimal(pr.number as nat) + " opened at "@
                + one_line_spec(pr.url@),
            None => "a pull request was opened"@,
        }),
        FactTag::PullRequestMergeRefused => match field_of(payload, "reason"@) {
            Ok(reason) => Ok(match pull_request_of(task) {
                Some(pr) => "the forge refused to merge pull request #"@ + decimal(
                    pr.number as nat,
                ) + ": "@ + one_line_spec(reason),
                None => "the forge refused to merge: "@ + one_line_spec(reason),
            }),
            Err(e) => Err(e),
        },
        FactTag::PushFailed => match field_of(payload, "reason"@) {
            Ok(reason) => Ok("the push was rejected: "@ + one_line_spec(reason)),
            Err(e) => Err(e),
        },
    }
}

fn text(s: &str) -> (r: String)
    ensures
        r@ == s@,
{
    let mut r = String::new();
    push_str(&mut r, s);
    r
}

fn prefixed(prefix: &str, value: &str) -> (r: String)
    ensures
        r@ == prefix@ + one_line_spec(value@),
{
    let mut r = String::new();
    push_str(&mut r, prefix);
    push_string(&mut r, &one_line(value));
    r
}

/// The latest unanswered question of `task`, when there is a task.
fn unanswered_of(task: Option<&Task>) -> (r: Option<&Question>)
    ensures
        match r {
            Some(q) => question_of(match task {
                Some(t) => Some(*t),
                None => None,
            }) == Some(*q),
            None => question_of(match task {
                Some(t) => Some(*t),
                None => None,
            }) is None,
        },
{
    match task {
        Some(t) => unanswered(t),
        None => None,
    }
}

pub open spec fn task_of(task: Option<&Task>) -> Option<Task> {
    match task {
        Some(t) => Some(*t),
        None => None,
    }
}

/// The headline of a fact of kind `tag` with `payload` about `task`.
pub fn headline(tag: FactTag, payload: &str, task: Option<&Task>) -> (r: Result<String, Error>)
    ensures
        result_view(r) == headline_spec(tag, payload@, task_of(task)),
{
    match tag {
        FactTag::TaskDispatchJudged => Ok(text("dispatch model judgement recorded")),
        FactTag::TaskProposed => Ok(text("a task was filed, holding for approval")),
        FactTag::TaskApproved => Ok(text("approved")),
        FactTag::TaskCancelled => Ok(text("stopped")),
        FactTag::TaskRetried => Ok(text("scheduled to run again")),
        FactTag::TaskAcknowledged => Ok(text("acknowledged; it fades from the default status")),
        FactTag::TaskReleased => Ok(text("the pull request hold was released")),
        FactTag::QuestionAnswered => Ok(text("answered")),
        FactTag::WorktreeAcquireRequested => Ok(text("worktree acquire requested")),
        FactTag::WorkerTurnLaunchRequested => Ok(text("worker turn launch requested")),
        FactTag::WorkerTurnResumeRequested => Ok(text("worker turn resume requested")),
        FactTag::WorkerTurnStarted => Ok(text("worker turn started")),
        FactTag::WorkerTurnEnded => Ok(text("worker turn ended")),
        FactTag::WorkerSubmissionRecorded => Ok(text("recorded a submission")),
        FactTag::WorkerSubmitted => Ok(text("submitted a change")),
        FactTag::ValidationStarted => Ok(text("validation started")),
        FactTag::PullRequestChecksChanged => Ok(text("pull request checks changed")),
        FactTag::PullRequestMerged => Ok(text("the pull request merged")),
        FactTag::PullRequestClosedUnmerged => Ok(text("the pull request closed unmerged")),
        FactTag::RebaseScheduled => Ok(text("a conflicting pull request was scheduled to merge the base branch")),
        FactTag::RunDurationExceeded => Ok(text("ran past its run duration")),
        FactTag::RetryExhausted => Ok(text("ran out of retries")),
        FactTag::ProviderRateLimited => Ok(text("hit a provider rate limit")),
        FactTag::CoordinatorSessionStarted => Ok(text("this session started")),
        FactTag::CoordinatorContextMeasured => Ok(text("context measured")),
        FactTag::OnEventNotified => Ok(text("the daemon ran its event hook")),
        FactTag::DaemonRestarted => Ok(text("the daemon restarted")),
        FactTag::Polled => Ok(text("the daemon polled")),
        FactTag::QuestionAsked => match unanswered_of(task) {
            Some(q) => {
                let mut r = prefixed("asked \"", &q.text);
                push_str(&mut r, "\"");
                Ok(r)
            },
            None => Ok(text("asked a question that is already answered")),
        },
        FactTag::WorkerTurnUnresolved => match payload_field(payload, "reason") {
            Ok(reason) => Ok(prefixed("a worker turn could not be resolved: ", &reason)),
            Err(_) => Ok(text("a worker turn could not be resolved")),
        },
        FactTag::WorkerRedirected => match payload_field(payload, "text") {
            Ok(direction) => Ok(prefixed("a new direction was queued for the worker: ", &direction)),
            Err(_) => Ok(text("a new direction was queued for the worker")),
        },
        FactTag::WorkerLivenessChanged => liveness_line(payload),
        FactTag::ValidationFinished => {
            match task {
                Some(t) if t.validations.len() > 0 => {
                    let v = &t.validations[t.validations.len() - 1];
                    let mut r = prefixed("validation `", &v.command);
                    push_str(&mut r, "` at `");
                    push_string(&mut r, &v.commit);
                    push_str(&mut r, "` exited ");
                    push_signed(&mut r, v.exit_code as i64);
                    Ok(r)
                },
                _ => Ok(text("validation finished")),
            }
        },
        FactTag::WorktreeAcquired => {
            let found = match task {
                Some(t) => lease(t),
                None => None,
            };
            match found {
                Some(l) => {
                    let mut r = text("worktree lease `");
                    push_string(&mut r, l);
                    push_str(&mut r, "` acquired");
                    Ok(r)
                },
                None => Ok(text("a worktree was acquired")),
            }
        },
        FactTag::BranchPushed => {
            match task {
                Some(t) => match &t.branch_head {
                    Some(c) => {
                        let mut r = text("branch pushed at `");
                        push_string(&mut r, c);
                        push_str(&mut r, "`");
                        Ok(r)
                    },
                    None => Ok(text("the branch was pushed")),
                },
                None => Ok(text("the branch was pushed")),
            }
        },
        FactTag::PullRequestOpened => {
            match task {
                Some(t) => match &t.pull_request {
                    Some(pr) => {
                        let mut r = text("pull request #");
                        push_decimal(&mut r, pr.number);
                        push_str(&mut r, " opened at ");
                        push_string(&mut r, &one_line(&pr.url));
                        Ok(r)
                    },
                    None => Ok(text("a pull request was opened")),
                },
                None => Ok(text("a pull request was opened")),
            }
        },
        FactTag::PullRequestMergeRefused => {
            let reason = match payload_field(payload, "reason") {
                Ok(reason) => reason,
                Err(e) => return Err(e),
            };
            let number = match task {
                Some(t) => match &t.pull_request {
                    Some(pr) => Some(pr.number),
                    None => None,
                },
                None => None,
            };
            match number {
                Some(n) => {
                    let mut r = text("the forge refused to merge pull request #");
                    push_decimal(&mut r, n);
                    push_str(&mut r, ": ");
                    push_string(&mut r, &one_line(&reason));
                    Ok(r)
                },
                None => Ok(prefixed("the forge refused to merge: ", &reason)),
            }
        },
        FactTag::PushFailed => match payload_field(payload, "reason") {
            Ok(reason) => Ok(prefixed("the push was rejected: ", &reason)),
            Err(e) => Err(e),
        },
    }
}

/// What a line of the inbox opens with: the task the fact is about, with its title and
/// state when the task is known.
pub open spec fn subject_spec(slug: Seq<char>, id: Option<String>, task: Option<Task>) -> Seq<char> {
    match id {
        Some(id) => match task {
            Some(t) => "`"@ + slug + "/"@ + id@ + "` **"@ + one_line_spec(t.title@) + "** ("@
                + state_name_spec(t.state) + "): "@,
            None => "`"@ + id@ + "`: "@,
        },
        None => Seq::empty(),
    }
}

/// The inbox line of a fact: its subject, then its headline.
pub open spec fn line_for_spec(
    tag: FactTag,
    event: RecordedEvent,
    task: Option<Task>,
    slug: Seq<char>,
) -> Result<Seq<char>, (ErrorKind, Seq<char>)> {
    match headline_spec(tag, event.payload@, task) {
        Ok(h) => Ok(subject_spec(slug, event.task, task) + h),
        Err(e) => Err(e),
    }
}

pub fn line_for(tag: FactTag, event: &RecordedEvent, task: Option<&Task>, slug: &str) -> (r: Result<String, Error>)
    ensures
        result_view(r) == line_for_spec(tag, *event, task_of(task), slug@),
{
    let mut line = String::new();
    match &event.task {
        Some(id) => match task {
            Some(t) => {
                push_str(&mut line, "`");
                push_str(&mut line, slug);
                push_str(&mut line, "/");
                push_string(&mut line, id);
                push_str(&mut line, "` **");
                push_string(&mut line, &one_line(&t.title));
                push_str(&mut line, "** (");
                push_str(&mut line, state_name(t.state));
                push_str(&mut line, "): ");
            },
            None => {
                push_str(&mut line, "`");
                push_string(&mut line, id);
                push_str(&mut line, "`: ");
            },
        },
        None => {},
    }
    match headline(tag, event.payload.as_str(), task) {
        Ok(h) => {
            push_string(&mut line, &h);
            Ok(line)
        },
        Err(e) => Err(e),
    }
}

/// The first task of `tasks` with the identifier `id`.
pub open spec fn find_task(tasks: Seq<Task>, id: Seq<char>) -> Option<Task>
    decreases tasks.len(),
{
    if tasks.len() == 0 {
        None
    } else if tasks[0].id@ == id {
        Some(tasks[0])
    } else {
        find_task(tasks.skip(1), id)
    }
}

pub(crate) fn task_with<'a>(tasks: &'a [Task], id: &str) -> (r: Option<&'a Task>)
    ensures
        task_of(r) == find_task(tasks@, id@),
{
    let mut i: usize = 0;
    assert(tasks@.skip(0) == tasks@);
    while i < tasks.len()
        invariant
            i <= tasks@.len(),
            find_task(tasks@, id@) == find_task(tasks@.skip(i as int), id@),
        decreases tasks@.len() - i,
    {
        assert(tasks@.skip(i as int).skip(1) == tasks@.skip(i + 1));
        if str_eq(tasks[i].id.as_str(), id) {
            return Some(&tasks[i]);
        }
        i += 1;
    }
    None
}

/// The kind a name stands for, when one does.
pub open spec fn tag_named(name: Seq<char>) -> FactTag {
    choose|tag: FactTag| fact_tag_name_spec(tag) == name
}

/// The kinds of fact the inbox leaves out: polls, context measurements and hook runs.
pub open spec fn left_out(tag: FactTag) -> bool {
    tag == FactTag::Polled || tag == FactTag::CoordinatorContextMeasured || tag
        == FactTag::OnEventNotified
}

/// An inbox entry as values: when, about which task, its line, and who must act.
pub type EntryView = (u64, Option<Seq<char>>, Seq<char>, Need);

pub open spec fn text_of(value: Option<String>) -> Option<Seq<char>> {
    match value {
        Some(v) => Some(v@),
        None => None,
    }
}

pub open spec fn entry_view(entry: InboxEntry) -> EntryView {
    (entry.at@, text_of(entry.task), entry.line@, entry.need)
}

pub open spec fn entry_views(entries: Seq<InboxEntry>) -> Seq<EntryView> {
    Seq::new(entries.len(), |i: int| entry_view(entries[i]))
}

/// The entry a recorded fact gives, if the inbox lists it. A fact of an unknown kind is
/// a schema error.
pub open spec fn entry_spec(slug: Seq<char>, tasks: Seq<Task>, event: RecordedEvent) -> Result<
    Option<EntryView>,
    (ErrorKind, Seq<char>),
> {
    if !names_fact_tag(event.kind@) {
        Err((ErrorKind::Schema, "unknown fact kind `"@ + event.kind@ + "`"@))
    } else {
        let tag = tag_named(event.kind@);
        if left_out(tag) {
            Ok(None)
        } else {
            let task = match event.task {
                Some(id) => find_task(tasks, id@),
                None => None,
            };
            match line_for_spec(tag, event, task, slug) {
                Ok(line) => Ok(Some((event.at@, text_of(event.task), line, need_for_spec(tag, task)))),
                Err(e) => Err(e),
            }
        }
    }
}

/// The entries of the inbox for `events`, in order; the first fact that cannot be
/// listed makes it an error.
pub open spec fn entries_spec(slug: Seq<char>, tasks: Seq<Task>, events: Seq<RecordedEvent>) -> Result<
    Seq<EntryView>,
    (ErrorKind, Seq<char>),
>
    decreases events.len(),
{
    if events.len() == 0 {
        Ok(Seq::empty())
    } else {
        match entries_spec(slug, tasks, events.drop_last()) {
            Err(e) => Err(e),
            Ok(before) => match entry_spec(slug, tasks, events.last()) {
                Err(e) => Err(e),
                Ok(None) => Ok(before),
                Ok(Some(entry)) => Ok(before.push(entry)),
            },
        }
    }
}

pub open spec fn entries_result(r: Result<Vec<InboxEntry>, Error>) -> Result<Seq<EntryView>, (ErrorKind, Seq<char>)> {
    match r {
        Ok(v) => Ok(entry_views(v@)),
        Err(e) => Err((e.kind(), e.detail())),
    }
}

/// Once the facts up to `k` cannot be listed, neither can all of them, for the same
/// reason.
proof fn lemma_error_persists(slug: Seq<char>, tasks: Seq<Task>, events: Seq<RecordedEvent>, k: int)
    requires
        0 <= k <= events.len(),
        entries_spec(slug, tasks, events.take(k)) is Err,
    ensures
        entries_spec(slug, tasks, events) == entries_spec(slug, tasks, events.take(k)),
    decreases events.len() - k,
{
    if k < events.len() {
        assert(events.take(k + 1).drop_last() == events.take(k));
        lemma_error_persists(slug, tasks, events, k + 1);
    } else {
        assert(events.take(k) == events);
    }
}

/// The inbox entries of `events`, the facts of project `slug` whose tasks are `tasks`.
pub fn inbox_entries(slug: &str, tasks: &[Task], events: &[RecordedEvent]) -> (r: Result<Vec<InboxEntry>, Error>)
    ensures
        entries_result(r) == entries_spec(slug@, tasks@, events@),
{
    let mut entries: Vec<InboxEntry> = Vec::new();
    let mut i: usize = 0;
    assert(events@.take(0) == Seq::<RecordedEvent>::empty());
    assert(entry_views(entries@) =~= Seq::<EntryView>::empty());
    while i < events.len()
        invariant
            i <= events@.len(),
            entries_spec(slug@, tasks@, events@.take(i as int)) == Ok::<Seq<EntryView>, (ErrorKind, Seq<char>)>(entry_views(entries@)),
        decreases events@.len() - i,
    {
        let event = &events[i];
        proof {
            assert(events@.take(i + 1).drop_last() == events@.take(i as int));
            assert(events@.take(i + 1).last() == events@[i as int]);
        }
        let tag = match fact_tag_from_name(event.kind.as_str()) {
            Ok(tag) => tag,
            Err(e) => {
                proof {
                    lemma_error_persists(slug@, tasks@, events@, i + 1);
                }
                return Err(e);
            },
        };
        proof {
            crate::vocabulary::lemma_fact_tag_round_trip(tag, event.kind@);
            assert(names_fact_tag(event.kind@));
            assert(fact_tag_name_spec(tag_named(event.kind@)) == event.kind@);
            assert(tag_named(event.kind@) == tag);
        }
        let skip = match tag {
            FactTag::Polled => true,
            FactTag::CoordinatorContextMeasured => true,
            FactTag::OnEventNotified => true,
            _ => false,
        };
        if !skip {
            let task = match &event.task {
                Some(id) => task_with(tasks, id.as_str()),
                None => None,
            };
            let line = match line_for(tag, event, task, slug) {
                Ok(line) => line,
                Err(e) => {
                    proof {
                        lemma_error_persists(slug@, tasks@, events@, i + 1);
                    }
                    return Err(e);
                },
            };
            let need = need_for(tag, task);
            let entry = InboxEntry { at: event.at, task: event.task.clone(), line, need };
            let ghost before = entries@;
            entries.push(entry);
            assert(entry_views(entries@) =~= entry_views(before).push(entry_view(entry)));
        }
        i += 1;
    }
    assert(events@.take(events@.len() as int) == events@);
    Ok(entries)
}

} // verus!
