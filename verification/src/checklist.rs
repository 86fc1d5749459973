//! The text the checklist and the status are written in: one-line fields, ages and
//! UTC timestamps.
use vstd::prelude::*;

use crate::adapters::forge::Checks;
use crate::names::{checks_name, checks_name_spec, role_name, role_name_spec, TaskState};
use crate::records::Timestamp;
use crate::tasks::{
    in_state, lease, lease_spec, listed_in_state, sort_listed, tasks_at, unanswered, unanswered_spec,
    DependencyStanding, HeldLease, ProjectState, Task,
};

use crate::text::{
    chars_of, decimal, is_control, is_ctrl, join_spec, join_strings, push_char, push_decimal,
    push_padded, push_signed, push_str, push_string, signed_decimal, string_of, texts, trim,
    trim_range, zero_padded,
};

verus! {

/// How long a session may go unobserved before the checklist flags it.
pub const UNOBSERVED_AFTER_MILLIS: u64 = 5 * 60 * 1000;

/// A field on one line: control characters become spaces, then the ends are trimmed.
pub open spec fn one_line_spec(text: Seq<char>) -> Seq<char> {
    trim(Seq::new(text.len(), |i: int| if is_ctrl(text[i]) { ' ' } else { text[i] }))
}

pub fn one_line(text: &str) -> (r: String)
    ensures
        r@ == one_line_spec(text@),
{
    let v = chars_of(text);
    let mut mapped: Vec<char> = Vec::new();
    let mut i: usize = 0;
    while i < v.len()
        invariant
            i <= v.len(),
            mapped@ == Seq::new(i as nat, |k: int| if is_ctrl(v@[k]) { ' ' } else { v@[k] }),
        decreases v.len() - i,
    {
        let c = v[i];
        mapped.push(if is_control(c) { ' ' } else { c });
        i = i + 1;
    }
    assert(mapped@ == Seq::new(text@.len(), |k: int| if is_ctrl(text@[k]) { ' ' } else { text@[k] }));
    let (a, b) = trim_range(&mapped, 0, mapped.len());
    assert(mapped@.subrange(0, mapped@.len() as int) == mapped@);
    string_of(&mapped, a, b)
}

/// An age in milliseconds: seconds under a minute, minutes under an hour, otherwise
/// hours and two-digit minutes.
pub open spec fn format_age_spec(millis: nat) -> Seq<char> {
    let seconds = millis / 1000;
    let minutes = seconds / 60;
    if seconds < 60 {
        decimal(seconds).push('s')
    } else if minutes < 60 {
        decimal(minutes).push('m')
    } else {
        decimal(minutes / 60) + seq!['h'] + zero_padded(minutes % 60, 2) + seq!['m']
    }
}

pub fn format_age(millis: u64) -> (r: String)
    ensures
        r@ == format_age_spec(millis as nat),
{
    let seconds = millis / 1000;
    let mut out = String::new();
    if seconds < 60 {
        push_decimal(&mut out, seconds);
        push_char(&mut out, 's');
        return out;
    }
    let minutes = seconds / 60;
    if minutes < 60 {
        push_decimal(&mut out, minutes);
        push_char(&mut out, 'm');
        return out;
    }
    push_decimal(&mut out, minutes / 60);
    push_char(&mut out, 'h');
    push_padded(&mut out, minutes % 60, 2);
    push_char(&mut out, 'm');
    out
}

/// The proleptic Gregorian date (year, month, day) of a count of days since
/// 1970-01-01.
pub open spec fn civil_spec(days: int) -> (int, int, int) {
    let shifted = days + 719_468;
    let era = shifted / 146_097;
    let day_of_era = shifted % 146_097;
    let year_of_era = (day_of_era - day_of_era / 1460 + day_of_era / 36_524 - day_of_era / 146_096)
        / 365;
    let year = year_of_era + era * 400;
    let day_of_year = day_of_era - (365 * year_of_era + year_of_era / 4 - year_of_era / 100);
    let month_prime = (5 * day_of_year + 2) / 153;
    let day = day_of_year - (153 * month_prime + 2) / 5 + 1;
    let month = if month_prime < 10 {
        month_prime + 3
    } else {
        month_prime - 9
    };
    (if month <= 2 {
        year + 1
    } else {
        year
    }, month, day)
}

pub proof fn lemma_civil_parts(days: int)
    ensures
        ({
            let shifted = days + 719_468;
            let day_of_era = shifted % 146_097;
            let year_of_era = (day_of_era - day_of_era / 1460 + day_of_era / 36_524 - day_of_era
                / 146_096) / 365;
            let day_of_year = day_of_era - (365 * year_of_era + year_of_era / 4 - year_of_era
                / 100);
            &&& days >= 0 ==> shifted / 146_097 >= 4
            &&& 0 <= day_of_era < 146_097
            &&& 0 <= year_of_era <= 399
            &&& 0 <= day_of_year <= 365
        }),
{
    let shifted = days + 719_468;
    let day_of_era = shifted % 146_097;
    if days >= 0 {
        assert(shifted / 146_097 >= 4) by (nonlinear_arith)
            requires
                shifted >= 719_468,
        ;
    }
    assert(0 <= day_of_era < 146_097);
    let a = day_of_era / 1460;
    let b = day_of_era / 36_524;
    let c = day_of_era / 146_096;
    assert(0 <= a <= day_of_era / 1460 && a * 1460 <= day_of_era) by (nonlinear_arith)
        requires
            a == day_of_era / 1460,
            day_of_era >= 0,
    ;
    assert(0 <= b && b * 36_524 <= day_of_era && day_of_era < (b + 1) * 36_524) by (nonlinear_arith)
        requires
            b == day_of_era / 36_524,
            day_of_era >= 0,
    ;
    assert(0 <= c <= 1 && c * 146_096 <= day_of_era) by (nonlinear_arith)
        requires
            c == day_of_era / 146_096,
            0 <= day_of_era < 146_097,
    ;
    assert(day_of_era < (a + 1) * 1460) by (nonlinear_arith)
        requires
            a == day_of_era / 1460,
            day_of_era >= 0,
    ;
    let numerator = day_of_era - a + b - c;
    assert(b <= a) by (nonlinear_arith)
        requires
            b * 36_524 <= day_of_era,
            day_of_era < (a + 1) * 1460,
            a >= 0,
            b >= 0,
    ;
    if day_of_era >= 146_000 {
        assert(a == 100) by (nonlinear_arith)
            requires
                a * 1460 <= day_of_era,
                day_of_era < (a + 1) * 1460,
                146_000 <= day_of_era < 146_097,
        ;
        assert(b <= 4) by (nonlinear_arith)
            requires
                b * 36_524 <= day_of_era,
                day_of_era < 146_097,
        ;
        if day_of_era < 146_096 {
            assert(b <= 3) by (nonlinear_arith)
                requires
                    b * 36_524 <= day_of_era,
                    day_of_era < 146_096,
            ;
        } else {
            assert(c == 1) by (nonlinear_arith)
                requires
                    c == day_of_era / 146_096,
                    day_of_era == 146_096,
            ;
        }
    }
    assert(0 <= numerator <= 145_999);
    let year_of_era = numerator / 365;
    assert(0 <= year_of_era <= 399) by (nonlinear_arith)
        requires
            year_of_era == numerator / 365,
            0 <= numerator <= 145_999,
    ;
    let day_of_year = day_of_era - (365 * year_of_era + year_of_era / 4 - year_of_era / 100);
    assert(0 <= day_of_year <= 365) by (nonlinear_arith)
        requires
            year_of_era == numerator / 365,
            numerator == day_of_era - a + b - c,
            0 <= day_of_era < 146_097,
            a * 1460 <= day_of_era,
            day_of_era < (a + 1) * 1460,
            b * 36_524 <= day_of_era,
            day_of_era < (b + 1) * 36_524,
            0 <= c <= 1,
            c * 146_096 <= day_of_era,
            c == 1 <==> day_of_era == 146_096,
            0 <= year_of_era <= 399,
            day_of_year == day_of_era - (365 * year_of_era + year_of_era / 4 - year_of_era / 100),
    ;
}

/// The proleptic Gregorian date of a count of days since 1970-01-01.
pub fn civil_from_days(days: i64) -> (r: (i64, u32, u32))
    requires
        days <= i64::MAX - 719_468,
    ensures
        (r.0 as int, r.1 as int, r.2 as int) == civil_spec(days as int),
        days >= 0 ==> r.0 >= 1600,
        1 <= r.1 <= 12,
        1 <= r.2 <= 31,
{
    proof {
        lemma_civil_parts(days as int);
    }
    let shifted = days + 719_468;
    let era = if shifted >= 0 {
        shifted / 146_097
    } else {
        -((-shifted + 146_096) / 146_097)
    };
    assert(era == shifted / 146_097) by (nonlinear_arith)
        requires
            shifted >= 0 ==> era == shifted / 146_097,
            shifted < 0 ==> era == -((-shifted + 146_096) / 146_097),
    ;
    let day_of_era = shifted - era * 146_097;
    assert(day_of_era == shifted % 146_097) by (nonlinear_arith)
        requires
            era == shifted / 146_097,
            day_of_era == shifted - era * 146_097,
    ;
    let year_of_era = (day_of_era - day_of_era / 1460 + day_of_era / 36_524 - day_of_era / 146_096)
        / 365;
    let year = year_of_era + era * 400;
    let day_of_year = day_of_era - (365 * year_of_era + year_of_era / 4 - year_of_era / 100);
    let month_prime = (5 * day_of_year + 2) / 153;
    assert(0 <= month_prime <= 11) by (nonlinear_arith)
        requires
            month_prime == (5 * day_of_year + 2) / 153,
            0 <= day_of_year <= 365,
    ;
    let day_offset = (153 * month_prime + 2) / 5;
    assert(1 <= day_of_year - day_offset + 1 <= 31) by (nonlinear_arith)
        requires
            month_prime == (5 * day_of_year + 2) / 153,
            day_offset == (153 * month_prime + 2) / 5,
            0 <= day_of_year <= 365,
            0 <= month_prime <= 11,
    ;
    let day = (day_of_year - day_offset + 1) as u32;
    let month = if month_prime < 10 {
        month_prime + 3
    } else {
        month_prime - 9
    } as u32;
    if days >= 0 {
        assert(year >= 1600) by (nonlinear_arith)
            requires
                era >= 4,
                year == year_of_era + era * 400,
                year_of_era >= 0,
        ;
    }
    let year = if month <= 2 {
        year + 1
    } else {
        year
    };
    (year, month, day)
}


/// A millisecond timestamp as `YYYY-MM-DDTHH:MM:SSZ` in UTC.
pub open spec fn format_timestamp_spec(millis: nat) -> Seq<char> {
    let seconds = millis / 1000;
    let date = civil_spec((seconds / 86_400) as int);
    let second_of_day = seconds % 86_400;
    zero_padded(date.0 as nat, 4) + seq!['-'] + zero_padded(date.1 as nat, 2) + seq!['-']
        + zero_padded(date.2 as nat, 2) + seq!['T'] + zero_padded(second_of_day / 3600, 2) + seq![
        ':',
    ] + zero_padded((second_of_day % 3600) / 60, 2) + seq![':'] + zero_padded(second_of_day % 60, 2)
        + seq!['Z']
}

pub fn format_timestamp(at: Timestamp) -> (r: String)
    ensures
        r@ == format_timestamp_spec(at@ as nat),
{
    let seconds = at.millis() / 1000;
    let days = seconds / 86_400;
    assert(days <= 1_000_000_000_000);
    let (year, month, day) = civil_from_days(days as i64);
    let second_of_day = seconds % 86_400;
    let mut out = String::new();
    push_padded(&mut out, year as u64, 4);
    push_char(&mut out, '-');
    push_padded(&mut out, month as u64, 2);
    push_char(&mut out, '-');
    push_padded(&mut out, day as u64, 2);
    push_char(&mut out, 'T');
    push_padded(&mut out, second_of_day / 3600, 2);
    push_char(&mut out, ':');
    push_padded(&mut out, (second_of_day % 3600) / 60, 2);
    push_char(&mut out, ':');
    push_padded(&mut out, second_of_day % 60, 2);
    push_char(&mut out, 'Z');
    out
}

/// The first dependency that is not yet satisfied.
pub open spec fn first_pending(dependencies: Seq<DependencyStanding>) -> Option<DependencyStanding>
    decreases dependencies.len(),
{
    if dependencies.len() == 0 {
        None
    } else if !dependencies[0].satisfied {
        Some(dependencies[0])
    } else {
        first_pending(dependencies.skip(1))
    }
}

/// What an approved task waits for: its first pending dependency, else its retry time,
/// else a free slot.
pub open spec fn approved_wait_spec(task: Task) -> Seq<char> {
    match first_pending(task.dependencies@) {
        Some(d) => "dependency `"@ + d.task@ + "` at `"@ + d.commit@ + "` to be validated"@,
        None => match task.retry_not_before {
            Some(at) => "a retry, not before "@ + format_timestamp_spec(at@ as nat),
            None => "a free slot"@,
        },
    }
}

fn pending_dependency(dependencies: &Vec<DependencyStanding>) -> (r: Option<&DependencyStanding>)
    ensures
        match r {
            Some(d) => first_pending(dependencies@) == Some(*d),
            None => first_pending(dependencies@) is None,
        },
{
    let mut i: usize = 0;
    assert(dependencies@.skip(0) == dependencies@);
    while i < dependencies.len()
        invariant
            i <= dependencies@.len(),
            first_pending(dependencies@) == first_pending(dependencies@.skip(i as int)),
        decreases dependencies@.len() - i,
    {
        assert(dependencies@.skip(i as int).skip(1) == dependencies@.skip(i + 1));
        if !dependencies[i].satisfied {
            return Some(&dependencies[i]);
        }
        i += 1;
    }
    None
}

pub fn approved_wait(task: &Task) -> (r: String)
    ensures
        r@ == approved_wait_spec(*task),
{
    let mut out = String::new();
    match pending_dependency(&task.dependencies) {
        Some(d) => {
            push_str(&mut out, "dependency `");
            push_string(&mut out, &d.task);
            push_str(&mut out, "` at `");
            push_string(&mut out, &d.commit);
            push_str(&mut out, "` to be validated");
        },
        None => match task.retry_not_before {
            Some(at) => {
                push_str(&mut out, "a retry, not before ");
                push_string(&mut out, &format_timestamp(at));
            },
            None => push_str(&mut out, "a free slot"),
        },
    }
    out
}

/// What a task waits on, by its state.
pub open spec fn waiting_on_spec(task: Task) -> Seq<char> {
    match task.state {
        TaskState::Proposed => "approval"@,
        TaskState::Approved => approved_wait_spec(task),
        TaskState::Running => match lease_spec(task) {
            Some(l) => "a worker turn in worktree lease `"@ + l@ + "`"@,
            None => "a worker turn"@,
        },
        TaskState::WaitingOnQuestion => match unanswered_spec(task) {
            Some(q) => "an answer to \""@ + one_line_spec(q.text@) + "\""@,
            None => "an answer"@,
        },
        TaskState::Validating => "validation"@,
        TaskState::Validated => if task.hold_pr {
            "a person to release the pull request"@
        } else {
            "a pull request"@
        },
        TaskState::PrOpen => match task.pull_request {
            Some(pr) => match pr.checks {
                Checks::Passing => "the merge of pull request #"@ + decimal(pr.number as nat),
                Checks::Failing => "failing checks on pull request #"@ + decimal(pr.number as nat),
                _ => "checks on pull request #"@ + decimal(pr.number as nat),
            },
            None => "a pull request"@,
        },
        TaskState::Landed => "nothing"@,
        TaskState::Failed => "a person"@,
        TaskState::Cancelled => "nothing"@,
    }
}

pub fn waiting_on(task: &Task) -> (r: String)
    ensures
        r@ == waiting_on_spec(*task),
{
    let mut out = String::new();
    match task.state {
        TaskState::Proposed => push_str(&mut out, "approval"),
        TaskState::Approved => return approved_wait(task),
        TaskState::Running => match lease(task) {
            Some(l) => {
                push_str(&mut out, "a worker turn in worktree lease `");
                push_string(&mut out, l);
                push_str(&mut out, "`");
            },
            None => push_str(&mut out, "a worker turn"),
        },
        TaskState::WaitingOnQuestion => match unanswered(task) {
            Some(q) => {
                push_str(&mut out, "an answer to \"");
                push_string(&mut out, &one_line(&q.text));
                push_str(&mut out, "\"");
            },
            None => push_str(&mut out, "an answer"),
        },
        TaskState::Validating => push_str(&mut out, "validation"),
        TaskState::Validated => if task.hold_pr {
            push_str(&mut out, "a person to release the pull request");
        } else {
            push_str(&mut out, "a pull request");
        },
        TaskState::PrOpen => match &task.pull_request {
            Some(pr) => {
                match pr.checks {
                    Checks::Passing => push_str(&mut out, "the merge of pull request #"),
                    Checks::Failing => push_str(&mut out, "failing checks on pull request #"),
                    _ => push_str(&mut out, "checks on pull request #"),
                }
                push_decimal(&mut out, pr.number);
            },
            None => push_str(&mut out, "a pull request"),
        },
        TaskState::Landed => push_str(&mut out, "nothing"),
        TaskState::Failed => push_str(&mut out, "a person"),
        TaskState::Cancelled => push_str(&mut out, "nothing"),
    }
    out
}

/// `later - earlier`, or nothing when `earlier` is later.
pub open spec fn elapsed(later: nat, earlier: nat) -> nat {
    if later >= earlier {
        (later - earlier) as nat
    } else {
        0
    }
}

/// The line a running task's open attempt gets: how long it has been in flight and how
/// recently its session was seen.
pub open spec fn attempt_line_spec(task: Task, now: nat) -> Option<Seq<char>> {
    if task.attempts@.len() == 0 {
        None
    } else {
        let attempt = task.attempts@.last();
        if !attempt.open {
            None
        } else {
            let age = format_age_spec(elapsed(now, attempt.started_at@ as nat));
            match attempt.session {
                None => Some("  - attempt: stalled - in_flight "@ + age + ", no worker session\n"@),
                Some(session) => {
                    let liveness = match attempt.last_seen_at {
                        Some(seen) => {
                            let seen_age = elapsed(now, seen@ as nat);
                            if seen_age > UNOBSERVED_AFTER_MILLIS {
                                "session `"@ + session@ + "` unobserved for "@ + format_age_spec(
                                    seen_age,
                                )
                            } else {
                                "session `"@ + session@ + "` last seen "@ + format_age_spec(
                                    seen_age,
                                )
                            }
                        },
                        None => "session `"@ + session@ + "` not yet seen alive"@,
                    };
                    Some("  - attempt: in_flight "@ + age + ", "@ + liveness + "\n"@)
                },
            }
        }
    }
}

pub fn attempt_line(task: &Task, now: Timestamp) -> (r: Option<String>)
    ensures
        match r {
            Some(line) => attempt_line_spec(*task, now@ as nat) == Some(line@),
            None => attempt_line_spec(*task, now@ as nat) is None,
        },
{
    if task.attempts.len() == 0 {
        return None;
    }
    let attempt = &task.attempts[task.attempts.len() - 1];
    if !attempt.open {
        return None;
    }
    let age = format_age(now.millis().saturating_sub(attempt.started_at.millis()));
    let mut out = String::new();
    match &attempt.session {
        None => {
            push_str(&mut out, "  - attempt: stalled - in_flight ");
            push_string(&mut out, &age);
            push_str(&mut out, ", no worker session\n");
        },
        Some(session) => {
            let mut liveness = String::new();
            push_str(&mut liveness, "session `");
            push_string(&mut liveness, session);
            match attempt.last_seen_at {
                Some(seen) => {
                    let seen_age = now.millis().saturating_sub(seen.millis());
                    if seen_age > UNOBSERVED_AFTER_MILLIS {
                        push_str(&mut liveness, "` unobserved for ");
                    } else {
                        push_str(&mut liveness, "` last seen ");
                    }
                    push_string(&mut liveness, &format_age(seen_age));
                },
                None => push_str(&mut liveness, "` not yet seen alive"),
            }
            push_str(&mut out, "  - attempt: in_flight ");
            push_string(&mut out, &age);
            push_str(&mut out, ", ");
            push_string(&mut out, &liveness);
            push_str(&mut out, "\n");
        },
    }
    Some(out)
}

/// How a dependency is listed: its task and commit, and whether it is validated yet.
pub open spec fn dependency_item(d: DependencyStanding) -> Seq<char> {
    "`"@ + d.task@ + "` at `"@ + d.commit@ + "` ("@ + (if d.satisfied {
        "validated"@
    } else {
        "pending"@
    }) + ")"@
}

#[verifier::opaque]
pub open spec fn dependencies_line(task: Task) -> Seq<char> {
    let ds = task.dependencies@;
    if ds.len() == 0 {
        Seq::empty()
    } else {
        "  - depends on: "@ + join_spec(Seq::new(ds.len(), |i: int| dependency_item(ds[i])), ", "@)
            + "\n"@
    }
}

pub open spec fn held_lines(held: Seq<HeldLease>) -> Seq<char>
    decreases held.len(),
{
    if held.len() == 0 {
        Seq::empty()
    } else {
        held_lines(held.drop_last()) + "  - worktree lease `"@ + held.last().lease@
            + "` held, not returned: "@ + one_line_spec(held.last().reason@) + "\n"@
    }
}

#[verifier::opaque]
pub open spec fn artifacts_line(task: Task) -> Seq<char> {
    let paths = task.artifacts@;
    if task.state == TaskState::WaitingOnQuestion && paths.len() > 0 {
        "  - artifacts: "@ + join_spec(
            Seq::new(paths.len(), |i: int| "`"@ + one_line_spec(paths[i]@) + "`"@),
            ", "@,
        ) + "\n"@
    } else {
        Seq::empty()
    }
}

/// The lines about a task's worker: its attempt, a deferred turn, a queued direction and
/// an open question.
#[verifier::opaque]
pub open spec fn worker_lines(task: Task, observed_at: Option<nat>) -> Seq<char> {
    (match observed_at {
        Some(now) => if task.state == TaskState::Running {
            match attempt_line_spec(task, now) {
                Some(line) => line,
                None => Seq::empty(),
            }
        } else {
            Seq::empty()
        },
        None => Seq::empty(),
    })
}

/// The heading line of a task's entry and what it waits on.
#[verifier::opaque]
pub open spec fn heading_spec(slug: Seq<char>, task: Task) -> Seq<char> {
    "- `"@ + slug + "/"@ + task.id@ + "` **"@ + one_line_spec(task.title@) + "** ("@
        + role_name_spec(task.role) + ")\n"@ + "  - waits on: "@ + waiting_on_spec(task) + "\n"@
}

pub open spec fn rework_line(task: Task) -> Seq<char> {
    match task.rework_of {
        Some(o) => "  - rework of: `"@ + o@ + "`\n"@,
        None => Seq::empty(),
    }
}

pub open spec fn pull_request_line(task: Task) -> Seq<char> {
    match task.pull_request {
        Some(pr) => "  - pull request: [#"@ + decimal(pr.number as nat) + "]("@ + one_line_spec(
            pr.url@,
        ) + ") - checks "@ + checks_name_spec(pr.checks) + "\n"@,
        None => Seq::empty(),
    }
}

pub open spec fn conflict_line(task: Task) -> Seq<char> {
    match task.conflict_base {
        Some(b) => "  - conflicts with base `"@ + b@ + "`\n"@,
        None => Seq::empty(),
    }
}

pub open spec fn hold_line(task: Task) -> Seq<char> {
    if task.hold_pr {
        "  - pull request held until `depot task release`\n"@
    } else {
        Seq::empty()
    }
}

pub open spec fn refused_line(task: Task) -> Seq<char> {
    match task.merge_refused {
        Some(r) => "  - auto-merge refused: "@ + one_line_spec(r@) + "\n"@,
        None => Seq::empty(),
    }
}

/// The lines about a task's delivery: what it reworks, its pull request, a conflict with
/// the base, a held pull request and a refused merge.
#[verifier::opaque]
pub open spec fn delivery_spec(task: Task) -> Seq<char> {
    rework_line(task) + pull_request_line(task) + conflict_line(task) + hold_line(task)
        + refused_line(task)
}

/// The leases held back for a task, and its failure.
#[verifier::opaque]
pub open spec fn trouble_spec(task: Task) -> Seq<char> {
    held_lines(task.release_held@) + (match task.failure {
        Some(f) => "  - failure: "@ + one_line_spec(f@) + "\n"@,
        None => Seq::empty(),
    })
}

/// A deferred worker turn, a direction for the worker, and an open question.
#[verifier::opaque]
pub open spec fn progress_spec(task: Task) -> Seq<char> {
    (match task.turn_deferral {
        Some(d) => if task.state == TaskState::Running {
            "  - worker turn deferred "@ + decimal(d.count as nat) + " "@ + (if d.count == 1 {
                "time"@
            } else {
                "times"@
            }) + ": "@ + one_line_spec(d.reason@) + "\n"@
        } else {
            Seq::empty()
        },
        None => Seq::empty(),
    }) + (match task.redirect_text {
        Some(t) => if task.in_flight {
            "  - redirect ("@ + (if task.redirect_delivered {
                "delivered"@
            } else {
                "queued, not yet delivered"@
            }) + "): "@ + one_line_spec(t@) + "\n"@
        } else {
            Seq::empty()
        },
        None => Seq::empty(),
    }) + (match unanswered_spec(task) {
        Some(q) => "  - question: "@ + one_line_spec(q.text@) + "\n"@,
        None => Seq::empty(),
    })
}

/// The last validation of a task, when it may be retried, and its branch head.
#[verifier::opaque]
pub open spec fn records_spec(task: Task) -> Seq<char> {
    (if task.validations@.len() == 0 {
        Seq::empty()
    } else {
        let v = task.validations@.last();
        "  - last validation: `"@ + one_line_spec(v.command@) + "` at `"@ + v.commit@
            + "` exited "@ + signed_decimal(v.exit_code as int) + "\n"@
    }) + (match task.retry_not_before {
        Some(at) => "  - retry not before: "@ + format_timestamp_spec(at@ as nat) + "\n"@,
        None => Seq::empty(),
    }) + (match task.branch_head {
        Some(h) => "  - branch head: `"@ + h@ + "`\n"@,
        None => Seq::empty(),
    })
}

/// The checklist entry of a task: its heading line, what it waits on, and a line for
/// each thing on record about it.
pub open spec fn render_task_spec(slug: Seq<char>, task: Task, observed_at: Option<nat>) -> Seq<char> {
    heading_spec(slug, task) + worker_lines(task, observed_at) + dependencies_line(task)
        + delivery_spec(task) + trouble_spec(task) + progress_spec(task) + artifacts_line(task)
        + records_spec(task)
}

fn dependencies_text(task: &Task) -> (r: String)
    ensures
        r@ == dependencies_line(*task),
{
    proof {
        reveal(dependencies_line);
    }
    let ds = &task.dependencies;
    let mut out = String::new();
    if ds.len() == 0 {
        return out;
    }
    let ghost want = Seq::new(ds@.len(), |i: int| dependency_item(ds@[i]));
    let mut items: Vec<String> = Vec::new();
    let mut i: usize = 0;
    while i < ds.len()
        invariant
            i <= ds@.len(),
            items@.len() == i,
            forall|j: int| 0 <= j < i ==> #[trigger] items@[j]@ == dependency_item(ds@[j]),
        decreases ds@.len() - i,
    {
        let d = &ds[i];
        let mut item = String::new();
        push_str(&mut item, "`");
        push_string(&mut item, &d.task);
        push_str(&mut item, "` at `");
        push_string(&mut item, &d.commit);
        push_str(&mut item, "` (");
        if d.satisfied {
            push_str(&mut item, "validated");
        } else {
            push_str(&mut item, "pending");
        }
        push_str(&mut item, ")");
        items.push(item);
        i += 1;
    }
    assert(texts(items@) =~= want);
    push_str(&mut out, "  - depends on: ");
    push_string(&mut out, &join_strings(&items, ", "));
    push_str(&mut out, "\n");
    out
}

fn held_text(held: &Vec<HeldLease>) -> (r: String)
    ensures
        r@ == held_lines(held@),
{
    let mut out = String::new();
    let mut i: usize = 0;
    while i < held.len()
        invariant
            i <= held@.len(),
            out@ == held_lines(held@.take(i as int)),
        decreases held@.len() - i,
    {
        assert(held@.take(i + 1).drop_last() == held@.take(i as int));
        push_str(&mut out, "  - worktree lease `");
        push_string(&mut out, &held[i].lease);
        push_str(&mut out, "` held, not returned: ");
        push_string(&mut out, &one_line(&held[i].reason));
        push_str(&mut out, "\n");
        i += 1;
    }
    assert(held@.take(held@.len() as int) == held@);
    out
}

fn artifacts_text(task: &Task) -> (r: String)
    ensures
        r@ == artifacts_line(*task),
{
    proof {
        reveal(artifacts_line);
    }
    let paths = &task.artifacts;
    let mut out = String::new();
    if !(task.state == TaskState::WaitingOnQuestion && paths.len() > 0) {
        return out;
    }
    let ghost want = Seq::new(paths@.len(), |i: int| "`"@ + one_line_spec(paths@[i]@) + "`"@);
    let mut items: Vec<String> = Vec::new();
    let mut i: usize = 0;
    while i < paths.len()
        invariant
            i <= paths@.len(),
            items@.len() == i,
            forall|j: int| 0 <= j < i ==> #[trigger] items@[j]@ == "`"@ + one_line_spec(paths@[j]@) + "`"@,
        decreases paths@.len() - i,
    {
        let mut item = String::new();
        push_str(&mut item, "`");
        push_string(&mut item, &one_line(&paths[i]));
        push_str(&mut item, "`");
        items.push(item);
        i += 1;
    }
    assert(texts(items@) =~= want);
    push_str(&mut out, "  - artifacts: ");
    push_string(&mut out, &join_strings(&items, ", "));
    push_str(&mut out, "\n");
    out
}

pub open spec fn observed_view(observed_at: Option<Timestamp>) -> Option<nat> {
    match observed_at {
        Some(t) => Some(t@ as nat),
        None => None,
    }
}

fn heading_text(slug: &str, task: &Task) -> (r: String)
    ensures
        r@ == heading_spec(slug@, *task),
{
    proof {
        reveal(heading_spec);
    }
    let mut out = String::new();
    push_str(&mut out, "- `");
    push_str(&mut out, slug);
    push_str(&mut out, "/");
    push_string(&mut out, &task.id);
    push_str(&mut out, "` **");
    push_string(&mut out, &one_line(&task.title));
    push_str(&mut out, "** (");
    push_str(&mut out, role_name(task.role));
    push_str(&mut out, ")\n");
    push_str(&mut out, "  - waits on: ");
    push_string(&mut out, &waiting_on(task));
    push_str(&mut out, "\n");
    out
}

fn worker_text(task: &Task, observed_at: Option<Timestamp>) -> (r: String)
    ensures
        r@ == worker_lines(*task, observed_view(observed_at)),
{
    proof {
        reveal(worker_lines);
    }
    let mut out = String::new();
    if task.state == TaskState::Running {
        if let Some(now) = observed_at {
            if let Some(line) = attempt_line(task, now) {
                push_string(&mut out, &line);
            }
        }
    }
    out
}

fn rework_text(task: &Task) -> (r: String)
    ensures
        r@ == rework_line(*task),
{
    let mut out = String::new();
    if let Some(o) = &task.rework_of {
        push_str(&mut out, "  - rework of: `");
        push_string(&mut out, o);
        push_str(&mut out, "`\n");
    }
    out
}

fn pull_request_text(task: &Task) -> (r: String)
    ensures
        r@ == pull_request_line(*task),
{
    let mut out = String::new();
    if let Some(pr) = &task.pull_request {
        push_str(&mut out, "  - pull request: [#");
        push_decimal(&mut out, pr.number);
        push_str(&mut out, "](");
        push_string(&mut out, &one_line(&pr.url));
        push_str(&mut out, ") - checks ");
        push_str(&mut out, checks_name(pr.checks));
        push_str(&mut out, "\n");
    }
    out
}

fn conflict_text(task: &Task) -> (r: String)
    ensures
        r@ == conflict_line(*task),
{
    let mut out = String::new();
    if let Some(b) = &task.conflict_base {
        push_str(&mut out, "  - conflicts with base `");
        push_string(&mut out, b);
        push_str(&mut out, "`\n");
    }
    out
}

fn hold_text(task: &Task) -> (r: String)
    ensures
        r@ == hold_line(*task),
{
    let mut out = String::new();
    if task.hold_pr {
        push_str(&mut out, "  - pull request held until `depot task release`\n");
    }
    out
}

fn refused_text(task: &Task) -> (r: String)
    ensures
        r@ == refused_line(*task),
{
    let mut out = String::new();
    if let Some(r) = &task.merge_refused {
        push_str(&mut out, "  - auto-merge refused: ");
        push_string(&mut out, &one_line(r));
        push_str(&mut out, "\n");
    }
    out
}

fn delivery_text(task: &Task) -> (r: String)
    ensures
        r@ == delivery_spec(*task),
{
    proof {
        reveal(delivery_spec);
    }
    let mut out = rework_text(task);
    push_string(&mut out, &pull_request_text(task));
    push_string(&mut out, &conflict_text(task));
    push_string(&mut out, &hold_text(task));
    push_string(&mut out, &refused_text(task));
    out
}

fn trouble_text(task: &Task) -> (r: String)
    ensures
        r@ == trouble_spec(*task),
{
    proof {
        reveal(trouble_spec);
    }
    let mut out = held_text(&task.release_held);
    if let Some(f) = &task.failure {
        push_str(&mut out, "  - failure: ");
        push_string(&mut out, &one_line(f));
        push_str(&mut out, "\n");
    }
    out
}

fn progress_text(task: &Task) -> (r: String)
    ensures
        r@ == progress_spec(*task),
{
    proof {
        reveal(progress_spec);
    }
    let mut out = String::new();
    if task.state == TaskState::Running {
        if let Some(d) = &task.turn_deferral {
            push_str(&mut out, "  - worker turn deferred ");
            push_decimal(&mut out, d.count as u64);
            push_str(&mut out, " ");
            if d.count == 1 {
                push_str(&mut out, "time");
            } else {
                push_str(&mut out, "times");
            }
            push_str(&mut out, ": ");
            push_string(&mut out, &one_line(&d.reason));
            push_str(&mut out, "\n");
        }
    }
    if task.in_flight {
        if let Some(t) = &task.redirect_text {
            push_str(&mut out, "  - redirect (");
            if task.redirect_delivered {
                push_str(&mut out, "delivered");
            } else {
                push_str(&mut out, "queued, not yet delivered");
            }
            push_str(&mut out, "): ");
            push_string(&mut out, &one_line(t));
            push_str(&mut out, "\n");
        }
    }
    if let Some(q) = unanswered(task) {
        push_str(&mut out, "  - question: ");
        push_string(&mut out, &one_line(&q.text));
        push_str(&mut out, "\n");
    }
    out
}

fn records_text(task: &Task) -> (r: String)
    ensures
        r@ == records_spec(*task),
{
    proof {
        reveal(records_spec);
    }
    let mut out = String::new();
    if task.validations.len() > 0 {
        let v = &task.validations[task.validations.len() - 1];
        push_str(&mut out, "  - last validation: `");
        push_string(&mut out, &one_line(&v.command));
        push_str(&mut out, "` at `");
        push_string(&mut out, &v.commit);
        push_str(&mut out, "` exited ");
        push_signed(&mut out, v.exit_code as i64);
        push_str(&mut out, "\n");
    }
    if let Some(at) = task.retry_not_before {
        push_str(&mut out, "  - retry not before: ");
        push_string(&mut out, &format_timestamp(at));
        push_str(&mut out, "\n");
    }
    if let Some(h) = &task.branch_head {
        push_str(&mut out, "  - branch head: `");
        push_string(&mut out, h);
        push_str(&mut out, "`\n");
    }
    out
}

/// Appends the checklist entry of `task` in project `slug`.
pub fn render_task(out: &mut String, slug: &str, task: &Task, observed_at: Option<Timestamp>)
    ensures
        final(out)@ == old(out)@ + render_task_spec(slug@, *task, observed_view(observed_at)),
{
    push_string(out, &heading_text(slug, task));
    push_string(out, &worker_text(task, observed_at));
    push_string(out, &dependencies_text(task));
    push_string(out, &delivery_text(task));
    push_string(out, &trouble_text(task));
    push_string(out, &progress_text(task));
    push_string(out, &artifacts_text(task));
    push_string(out, &records_text(task));
}

/// The session of a running task's open attempt and how long ago it was last seen, when
/// that is longer than a session may go unobserved.
pub open spec fn unobserved_spec(task: Task, now: nat) -> Option<(Seq<char>, nat)> {
    if task.state != TaskState::Running || task.attempts@.len() == 0 {
        None
    } else {
        let attempt = task.attempts@.last();
        if !attempt.open {
            None
        } else {
            match attempt.session {
                None => None,
                Some(session) => match attempt.last_seen_at {
                    None => None,
                    Some(seen) => {
                        let age = elapsed(now, seen@ as nat);
                        if age <= UNOBSERVED_AFTER_MILLIS {
                            None
                        } else {
                            Some((session@, age))
                        }
                    },
                },
            }
        }
    }
}

pub open spec fn unobserved_line(task: Task, session: Seq<char>, age: nat) -> Seq<char> {
    "- `"@ + task.id@ + "` **"@ + one_line_spec(task.title@) + "** - session `"@ + session
        + "` unobserved for "@ + format_age_spec(age) + "; check whether the worker is stuck\n"@
}

/// The lines of the tasks whose sessions went unobserved, in order.
pub open spec fn unobserved_lines(tasks: Seq<Task>, now: nat) -> Seq<Seq<char>>
    decreases tasks.len(),
{
    if tasks.len() == 0 {
        Seq::empty()
    } else {
        let before = unobserved_lines(tasks.drop_last(), now);
        match unobserved_spec(tasks.last(), now) {
            Some((session, age)) => before.push(unobserved_line(tasks.last(), session, age)),
            None => before,
        }
    }
}

fn unobserved_text(tasks: &[Task], now: Timestamp) -> (r: Vec<String>)
    ensures
        texts(r@) == unobserved_lines(tasks@, now@ as nat),
{
    let mut lines: Vec<String> = Vec::new();
    let mut i: usize = 0;
    assert(tasks@.take(0) =~= Seq::<Task>::empty());
    assert(texts(lines@) =~= Seq::<Seq<char>>::empty());
    while i < tasks.len()
        invariant
            i <= tasks@.len(),
            texts(lines@) == unobserved_lines(tasks@.take(i as int), now@ as nat),
        decreases tasks@.len() - i,
    {
        assert(tasks@.take(i + 1).drop_last() == tasks@.take(i as int));
        assert(tasks@.take(i + 1).last() == tasks@[i as int]);
        let task = &tasks[i];
        if task.state == TaskState::Running && task.attempts.len() > 0 {
            let attempt = &task.attempts[task.attempts.len() - 1];
            if attempt.open {
                if let Some(session) = &attempt.session {
                    if let Some(seen) = attempt.last_seen_at {
                        let age = now.millis().saturating_sub(seen.millis());
                        if age > UNOBSERVED_AFTER_MILLIS {
                            let mut line = String::new();
                            push_str(&mut line, "- `");
                            push_string(&mut line, &task.id);
                            push_str(&mut line, "` **");
                            push_string(&mut line, &one_line(&task.title));
                            push_str(&mut line, "** - session `");
                            push_string(&mut line, session);
                            push_str(&mut line, "` unobserved for ");
                            push_string(&mut line, &format_age(age));
                            push_str(&mut line, "; check whether the worker is stuck\n");
                            let ghost before = lines@;
                            lines.push(line);
                            assert(texts(lines@) =~= texts(before).push(line@));
                        }
                    }
                }
            }
        }
        i += 1;
    }
    assert(tasks@.take(tasks@.len() as int) == tasks@);
    lines
}

/// The section of unobserved sessions, when the checklist is rendered at a time and some
/// session went unobserved.
pub open spec fn unobserved_section(tasks: Seq<Task>, observed_at: Option<nat>) -> Seq<char> {
    match observed_at {
        Some(now) => {
            let lines = unobserved_lines(tasks, now);
            if lines.len() == 0 {
                Seq::empty()
            } else {
                "\n## Needs you - unobserved sessions ("@ + decimal(lines.len()) + ")\n\n"@
                    + join_spec(lines, Seq::empty())
            }
        },
        None => Seq::empty(),
    }
}

/// The states the checklist lists, in order.
pub open spec fn section_state(k: int) -> TaskState {
    if k == 0 {
        TaskState::WaitingOnQuestion
    } else if k == 1 {
        TaskState::Running
    } else if k == 2 {
        TaskState::Validating
    } else if k == 3 {
        TaskState::Validated
    } else if k == 4 {
        TaskState::PrOpen
    } else if k == 5 {
        TaskState::Approved
    } else if k == 6 {
        TaskState::Proposed
    } else if k == 7 {
        TaskState::Landed
    } else if k == 8 {
        TaskState::Failed
    } else {
        TaskState::Cancelled
    }
}

pub open spec fn section_label(k: int) -> Seq<char> {
    if k == 0 {
        "Needs you - waiting on an answer"@
    } else if k == 1 {
        "Running"@
    } else if k == 2 {
        "Validating"@
    } else if k == 3 {
        "Validated"@
    } else if k == 4 {
        "Pull request open"@
    } else if k == 5 {
        "Approved - queued"@
    } else if k == 6 {
        "Held - awaiting approval"@
    } else if k == 7 {
        "Landed"@
    } else if k == 8 {
        "Failed"@
    } else {
        "Cancelled"@
    }
}

/// The sections of settled tasks, which the checklist shows only with their history.
pub open spec fn section_terminal(k: int) -> bool {
    k >= 7
}

/// How many sections the checklist has.
pub const SECTION_COUNT: usize = 10;

fn section_of(k: usize) -> (r: (TaskState, &'static str, bool))
    requires
        k < SECTION_COUNT,
    ensures
        r.0 == section_state(k as int),
        r.1@ == section_label(k as int),
        r.2 == section_terminal(k as int),
{
    if k == 0 {
        (TaskState::WaitingOnQuestion, "Needs you - waiting on an answer", false)
    } else if k == 1 {
        (TaskState::Running, "Running", false)
    } else if k == 2 {
        (TaskState::Validating, "Validating", false)
    } else if k == 3 {
        (TaskState::Validated, "Validated", false)
    } else if k == 4 {
        (TaskState::PrOpen, "Pull request open", false)
    } else if k == 5 {
        (TaskState::Approved, "Approved - queued", false)
    } else if k == 6 {
        (TaskState::Proposed, "Held - awaiting approval", false)
    } else if k == 7 {
        (TaskState::Landed, "Landed", true)
    } else if k == 8 {
        (TaskState::Failed, "Failed", true)
    } else {
        (TaskState::Cancelled, "Cancelled", true)
    }
}

/// The entries of the listed tasks, each after a blank line.
pub open spec fn entries_text(slug: Seq<char>, listed: Seq<Task>, observed_at: Option<nat>) -> Seq<char>
    decreases listed.len(),
{
    if listed.len() == 0 {
        Seq::empty()
    } else {
        entries_text(slug, listed.drop_last(), observed_at) + "\n"@ + render_task_spec(
            slug,
            listed.last(),
            observed_at,
        )
    }
}

/// Section `k`: its heading with the number of its tasks, then their entries in listed
/// order; nothing when it has no tasks, or when it is a settled section and the history
/// is not asked for.
pub open spec fn section_spec(slug: Seq<char>, tasks: Seq<Task>, history: bool, observed_at: Option<nat>, k: int) -> Seq<char> {
    let listed = sort_listed(in_state(tasks, section_state(k)));
    if (section_terminal(k) && !history) || listed.len() == 0 {
        Seq::empty()
    } else {
        "\n## "@ + section_label(k) + " ("@ + decimal(listed.len()) + ")\n"@ + entries_text(
            slug,
            listed,
            observed_at,
        )
    }
}

pub open spec fn sections_upto(slug: Seq<char>, tasks: Seq<Task>, history: bool, observed_at: Option<nat>, n: int) -> Seq<char>
    decreases n,
{
    if n <= 0 {
        Seq::empty()
    } else {
        sections_upto(slug, tasks, history, observed_at, n - 1) + section_spec(
            slug,
            tasks,
            history,
            observed_at,
            n - 1,
        )
    }
}

/// The settled tasks left out, counted by state, when the history is not asked for.
pub open spec fn hidden_counts(tasks: Seq<Task>, history: bool) -> Seq<Seq<char>> {
    if history {
        Seq::empty()
    } else {
        let landed = in_state(tasks, TaskState::Landed).len();
        let failed = in_state(tasks, TaskState::Failed).len();
        let cancelled = in_state(tasks, TaskState::Cancelled).len();
        (if landed > 0 { seq![decimal(landed) + " landed"@] } else { Seq::empty() })
            + (if failed > 0 { seq![decimal(failed) + " failed"@] } else { Seq::empty() })
            + (if cancelled > 0 { seq![decimal(cancelled) + " cancelled"@] } else { Seq::empty() })
    }
}

pub open spec fn hidden_line(tasks: Seq<Task>, history: bool) -> Seq<char> {
    let counts = hidden_counts(tasks, history);
    if counts.len() == 0 {
        Seq::empty()
    } else {
        "\n"@ + join_spec(counts, " \u{b7} "@) + "; `depot status --history` shows them.\n"@
    }
}

/// The checklist of a project: its heading, the sessions that went unobserved when it is
/// rendered at a time, then its tasks by state, with a count of the settled ones left
/// out.
pub open spec fn render_project_spec(state: ProjectState, history: bool, observed_at: Option<nat>) -> Seq<char> {
    let tasks = state.tasks@;
    "# Checklist\n\n"@ + "Project: "@ + one_line_spec(state.project@) + "\n\n"@
        + "Rendered from depot records. Hand edits are overwritten.\n"@ + unobserved_section(
        tasks,
        observed_at,
    ) + if tasks.len() == 0 {
        "\nNo tasks yet.\n"@
    } else {
        sections_upto(state.slug@, tasks, history, observed_at, SECTION_COUNT as int) + hidden_line(
            tasks,
            history,
        )
    }
}

fn count_in_state(tasks: &[Task], state: TaskState) -> (r: usize)
    ensures
        r == in_state(tasks@, state).len(),
{
    let mut n: usize = 0;
    let mut i: usize = 0;
    assert(tasks@.take(0) =~= Seq::<Task>::empty());
    while i < tasks.len()
        invariant
            i <= tasks@.len(),
            n == in_state(tasks@.take(i as int), state).len(),
            n <= i,
        decreases tasks@.len() - i,
    {
        assert(tasks@.take(i + 1).drop_last() == tasks@.take(i as int));
        assert(tasks@.take(i + 1).last() == tasks@[i as int]);
        if tasks[i].state == state {
            n += 1;
        }
        i += 1;
    }
    assert(tasks@.take(tasks@.len() as int) == tasks@);
    n
}

fn push_section(out: &mut String, state: &ProjectState, history: bool, observed_at: Option<Timestamp>, k: usize)
    requires
        k < SECTION_COUNT,
    ensures
        final(out)@ == old(out)@ + section_spec(
            state.slug@,
            state.tasks@,
            history,
            observed_view(observed_at),
            k as int,
        ),
{
    let (task_state, label, terminal) = section_of(k);
    if terminal && !history {
        return;
    }
    let tasks = &state.tasks;
    let order = listed_in_state(tasks.as_slice(), task_state);
    let ghost listed = tasks_at(tasks@, order@);
    if order.len() == 0 {
        return;
    }
    let ghost start = out@;
    push_str(out, "\n## ");
    push_str(out, label);
    push_str(out, " (");
    push_decimal(out, order.len() as u64);
    push_str(out, ")\n");
    let ghost heading = out@;
    let mut j: usize = 0;
    assert(listed.take(0) =~= Seq::<Task>::empty());
    while j < order.len()
        invariant
            j <= order@.len(),
            listed == tasks_at(tasks@, order@),
            forall|k: int| 0 <= k < order@.len() ==> order@[k] < tasks@.len(),
            out@ == heading + entries_text(state.slug@, listed.take(j as int), observed_view(observed_at)),
        decreases order@.len() - j,
    {
        assert(listed.take(j + 1).drop_last() == listed.take(j as int));
        assert(listed.take(j + 1).last() == tasks@[order@[j as int] as int]);
        push_str(out, "\n");
        render_task(out, state.slug.as_str(), &tasks[order[j]], observed_at);
        j += 1;
    }
    assert(listed.take(order@.len() as int) == listed);
}

fn hidden_text(tasks: &[Task], history: bool) -> (r: String)
    ensures
        r@ == hidden_line(tasks@, history),
{
    let mut out = String::new();
    if history {
        return out;
    }
    let ghost want = hidden_counts(tasks@, history);
    let mut counts: Vec<String> = Vec::new();
    let landed = count_in_state(tasks, TaskState::Landed);
    let failed = count_in_state(tasks, TaskState::Failed);
    let cancelled = count_in_state(tasks, TaskState::Cancelled);
    if landed > 0 {
        let mut item = String::new();
        push_decimal(&mut item, landed as u64);
        push_str(&mut item, " landed");
        counts.push(item);
    }
    if failed > 0 {
        let mut item = String::new();
        push_decimal(&mut item, failed as u64);
        push_str(&mut item, " failed");
        counts.push(item);
    }
    if cancelled > 0 {
        let mut item = String::new();
        push_decimal(&mut item, cancelled as u64);
        push_str(&mut item, " cancelled");
        counts.push(item);
    }
    assert(texts(counts@) =~= want);
    if counts.len() == 0 {
        return out;
    }
    push_str(&mut out, "\n");
    push_string(&mut out, &join_strings(&counts, " \u{b7} "));
    push_str(&mut out, "; `depot status --history` shows them.\n");
    out
}

fn render_project(state: &ProjectState, history: bool, observed_at: Option<Timestamp>) -> (r: String)
    ensures
        r@ == render_project_spec(*state, history, observed_view(observed_at)),
{
    let mut out = String::new();
    push_str(&mut out, "# Checklist\n\n");
    push_str(&mut out, "Project: ");
    push_string(&mut out, &one_line(&state.project));
    push_str(&mut out, "\n\n");
    push_str(&mut out, "Rendered from depot records. Hand edits are overwritten.\n");
    let ghost opening = out@;
    if let Some(now) = observed_at {
        let lines = unobserved_text(state.tasks.as_slice(), now);
        if lines.len() > 0 {
            push_str(&mut out, "\n## Needs you - unobserved sessions (");
            push_decimal(&mut out, lines.len() as u64);
            push_str(&mut out, ")\n\n");
            proof {
                reveal_strlit("");
                assert(""@ =~= Seq::<char>::empty());
            }
            push_string(&mut out, &join_strings(&lines, ""));
        }
    }
    assert(out@ == opening + unobserved_section(state.tasks@, observed_view(observed_at)));
    if state.tasks.len() == 0 {
        push_str(&mut out, "\nNo tasks yet.\n");
        return out;
    }
    let ghost before = out@;
    let mut k: usize = 0;
    while k < SECTION_COUNT
        invariant
            k <= SECTION_COUNT,
            out@ == before + sections_upto(
                state.slug@,
                state.tasks@,
                history,
                observed_view(observed_at),
                k as int,
            ),
        decreases SECTION_COUNT - k,
    {
        push_section(&mut out, state, history, observed_at, k);
        k += 1;
    }
    push_string(&mut out, &hidden_text(state.tasks.as_slice(), history));
    out
}

/// The checklist of a project, its settled tasks listed only with `history`.
pub fn render_checklist(state: &ProjectState, history: bool) -> (r: String)
    ensures
        r@ == render_project_spec(*state, history, None),
{
    render_project(state, history, None)
}

/// The checklist of a project as of `now`, which also flags the sessions that went
/// unobserved.
pub fn render_checklist_observed(state: &ProjectState, history: bool, now: Timestamp) -> (r: String)
    ensures
        r@ == render_project_spec(*state, history, Some(now@ as nat)),
{
    render_project(state, history, Some(now))
}

/// How many tasks the first `n` sections hold between them.
pub open spec fn sections_count(tasks: Seq<Task>, n: int) -> int
    decreases n,
{
    if n <= 0 {
        0
    } else {
        sections_count(tasks, n - 1) + in_state(tasks, section_state(n - 1)).len()
    }
}

/// With its history, the checklist lists every task exactly once: each state has one
/// section, so the sections' counts add up to the number of tasks.
pub proof fn lemma_sections_cover(tasks: Seq<Task>)
    ensures
        sections_count(tasks, SECTION_COUNT as int) == tasks.len(),
    decreases tasks.len(),
{
    reveal_with_fuel(sections_count, 11);
    if tasks.len() > 0 {
        lemma_sections_cover(tasks.drop_last());
    }
}

} // verus!
