//! The JSON pieces a fact payload is written with, and reading a field back out of one.
use vstd::prelude::*;

use crate::commands::Dependency;
use crate::daemon::{json_string, json_string_spec};
use crate::error::{Error, ErrorKind};
use crate::facts::{Baseline, FactKind, Liveness};
use crate::names::{
    answered_by_name, answered_by_name_spec, checks_name, checks_name_spec, role_name,
    role_name_spec,
};
use crate::text::{
    chars_of, decimal, decimal_string, hex_digit, starts_with, is_control, is_ctrl, join_spec, push_char,
    push_decimal, push_signed, push_str, push_string, signed_decimal, texts,
};
use crate::vocabulary::{fact_tag, fact_tag_name, fact_tag_name_spec, fact_tag_spec, fact_task_spec};

verus! {

/// `{:04x}` of a number below 0x10000.
pub open spec fn hex4(u: nat) -> Seq<char> {
    seq![hex_digit((u / 4096) % 16), hex_digit((u / 256) % 16), hex_digit((u / 16) % 16), hex_digit(u % 16)]
}

/// How one character is written inside a JSON string.
pub open spec fn escaped_char(c: char) -> Seq<char> {
    if c == '"' {
        seq!['\\', '"']
    } else if c == '\\' {
        seq!['\\', '\\']
    } else if c == '\n' {
        seq!['\\', 'n']
    } else if c == '\r' {
        seq!['\\', 'r']
    } else if c == '\t' {
        seq!['\\', 't']
    } else if is_ctrl(c) {
        seq!['\\', 'u'] + hex4(c as nat)
    } else {
        seq![c]
    }
}

pub open spec fn escaped(s: Seq<char>) -> Seq<char>
    decreases s.len(),
{
    if s.len() == 0 {
        Seq::empty()
    } else {
        escaped(s.drop_last()) + escaped_char(s.last())
    }
}

/// `value` as a JSON string: quoted, with quotes, backslashes and control characters
/// escaped.
pub open spec fn quoted_spec(value: Seq<char>) -> Seq<char> {
    seq!['"'] + escaped(value) + seq!['"']
}

fn push_hex_digit(out: &mut String, d: u32)
    requires
        d < 16,
    ensures
        final(out)@ == old(out)@.push(hex_digit(d as nat)),
{
    let c = if d < 10 {
        ((48 + d) as u8) as char
    } else {
        ((87 + d) as u8) as char
    };
    assert(c == hex_digit(d as nat));
    push_char(out, c);
}

fn push_escaped(out: &mut String, c: char)
    ensures
        final(out)@ == old(out)@ + escaped_char(c),
{
    if c == '"' {
        push_str(out, "\\\"");
        proof { reveal_strlit("\\\""); }
    } else if c == '\\' {
        push_str(out, "\\\\");
        proof { reveal_strlit("\\\\"); }
    } else if c == '\n' {
        push_str(out, "\\n");
        proof { reveal_strlit("\\n"); }
    } else if c == '\r' {
        push_str(out, "\\r");
        proof { reveal_strlit("\\r"); }
    } else if c == '\t' {
        push_str(out, "\\t");
        proof { reveal_strlit("\\t"); }
    } else if is_control(c) {
        let u = c as u32;
        let ghost before = out@;
        push_str(out, "\\u");
        proof { reveal_strlit("\\u"); }
        push_hex_digit(out, (u / 4096) % 16);
        push_hex_digit(out, (u / 256) % 16);
        push_hex_digit(out, (u / 16) % 16);
        push_hex_digit(out, u % 16);
        assert(out@ == before + escaped_char(c));
    } else {
        push_char(out, c);
        assert(out@ == old(out)@ + escaped_char(c));
    }
}

/// `value` as a JSON string.
pub fn quoted(value: &str) -> (r: String)
    ensures
        r@ == quoted_spec(value@),
{
    let v = chars_of(value);
    let mut out = String::new();
    push_char(&mut out, '"');
    let mut i: usize = 0;
    while i < v.len()
        invariant
            i <= v.len(),
            out@ == seq!['"'] + escaped(v@.take(i as int)),
        decreases v.len() - i,
    {
        push_escaped(&mut out, v[i]);
        assert(v@.take(i + 1).drop_last() == v@.take(i as int));
        i = i + 1;
    }
    assert(v@.take(v.len() as int) == v@);
    push_char(&mut out, '"');
    out
}

/// The members of a JSON object, each `"name":value`.
pub open spec fn members(fields: Seq<(Seq<char>, Seq<char>)>) -> Seq<Seq<char>> {
    Seq::new(fields.len(), |i: int| quoted_spec(fields[i].0) + seq![':'] + fields[i].1)
}

/// A JSON object of the given members, in order, each value already written as JSON.
pub open spec fn object_spec(fields: Seq<(Seq<char>, Seq<char>)>) -> Seq<char> {
    seq!['{'] + join_spec(members(fields), seq![',']) + seq!['}']
}

pub open spec fn fields_view(fields: Seq<(&str, String)>) -> Seq<(Seq<char>, Seq<char>)> {
    Seq::new(fields.len(), |i: int| (fields[i].0@, fields[i].1@))
}

pub fn object(fields: Vec<(&str, String)>) -> (r: String)
    ensures
        r@ == object_spec(fields_view(fields@)),
{
    let ghost ms = members(fields_view(fields@));
    let mut out = String::new();
    push_char(&mut out, '{');
    let mut i: usize = 0;
    while i < fields.len()
        invariant
            i <= fields@.len(),
            ms == members(fields_view(fields@)),
            out@ == seq!['{'] + join_spec(ms.take(i as int), seq![',']),
        decreases fields@.len() - i,
    {
        let ghost before = out@;
        if i > 0 {
            push_char(&mut out, ',');
        }
        let name = quoted(fields[i].0);
        push_string(&mut out, &name);
        push_char(&mut out, ':');
        push_string(&mut out, &fields[i].1);
        proof {
            assert(ms.take(i + 1).drop_last() == ms.take(i as int));
            assert(ms.take(i + 1).last() == ms[i as int]);
            if i == 0 {
                assert(ms.take(0).len() == 0);
                assert(out@ == before + ms[i as int]);
            } else {
                assert(out@ == before + seq![','] + ms[i as int]);
            }
        }
        i = i + 1;
    }
    assert(ms.take(fields@.len() as int) == ms);
    push_char(&mut out, '}');
    out
}

/// A JSON array of the given items, each already written as JSON.
pub fn array(items: Vec<String>) -> (r: String)
    ensures
        r@ == seq!['['] + join_spec(texts(items@), seq![',']) + seq![']'],
{
    let mut out = String::new();
    push_char(&mut out, '[');
    let joined = crate::text::join_strings(&items, ",");
    proof {
        reveal_strlit(",");
        assert(","@ == seq![',']);
    }
    push_string(&mut out, &joined);
    push_char(&mut out, ']');
    out
}

/// `true` or `false`.
pub fn boolean(value: bool) -> (r: String)
    ensures
        r@ == (if value {
            "true"@
        } else {
            "false"@
        }),
{
    let mut out = String::new();
    if value {
        push_str(&mut out, "true");
    } else {
        push_str(&mut out, "false");
    }
    out
}

/// The value already written as JSON, or `null` when there is none.
pub fn optional(value: Option<String>) -> (r: String)
    ensures
        r@ == match value {
            Some(v) => v@,
            None => "null"@,
        },
{
    match value {
        Some(v) => v,
        None => {
            let mut out = String::new();
            push_str(&mut out, "null");
            out
        },
    }
}

/// The payload of a fact about one task: `{"task":"<id>"}`.
pub fn task_field(task: &str) -> (r: String)
    ensures
        r@ == object_spec(seq![("task"@, quoted_spec(task@))]),
{
    let value = quoted(task);
    let mut fields: Vec<(&str, String)> = Vec::new();
    fields.push(("task", value));
    let r = object(fields);
    proof {
        assert(fields_view(fields@) == seq![("task"@, quoted_spec(task@))]);
    }
    r
}

/// What `serde_json` reads from `payload` at `field`: the parse error's text, or the
/// string at that field (none when the field is missing or not a string).
pub uninterp spec fn json_str_field(payload: Seq<char>, field: Seq<char>) -> Result<
    Option<Seq<char>>,
    Seq<char>,
>;

/// Parses `payload` with `serde_json::from_str` into a `serde_json::Value`, and reads
/// the string at `field` with `Value::get` and `Value::as_str`. Claimed: the result is
/// `json_str_field` of the arguments, the parse error as its `Display` text.
#[verifier::external_body]
fn read_json_str_field(payload: &str, field: &str) -> (r: Result<Option<String>, String>)
    ensures
        match r {
            Ok(Some(s)) => json_str_field(payload@, field@) == Ok::<Option<Seq<char>>, Seq<char>>(
                Some(s@),
            ),
            Ok(None) => json_str_field(payload@, field@) == Ok::<Option<Seq<char>>, Seq<char>>(
                None,
            ),
            Err(m) => json_str_field(payload@, field@) == Err::<Option<Seq<char>>, Seq<char>>(m@),
        },
{
    match serde_json::from_str::<serde_json::Value>(payload) {
        Ok(value) => Ok(value.get(field).and_then(serde_json::Value::as_str).map(str::to_owned)),
        Err(error) => Err(error.to_string()),
    }
}

/// The result of `payload_field` for what `serde_json` read.
pub open spec fn payload_field_result(read: Result<Option<Seq<char>>, Seq<char>>, field: Seq<
    char,
>) -> Result<Seq<char>, (ErrorKind, Seq<char>)> {
    match read {
        Ok(Some(s)) => Ok(s),
        Ok(None) => Err((ErrorKind::Schema, "a fact payload carries no "@ + field)),
        Err(m) => Err((ErrorKind::Schema, m)),
    }
}

pub open spec fn result_view(r: Result<String, Error>) -> Result<Seq<char>, (ErrorKind, Seq<char>)> {
    match r {
        Ok(s) => Ok(s@),
        Err(e) => Err((e.kind(), e.detail())),
    }
}

/// The string a fact payload holds at `field`; a payload that is not JSON, or has no
/// string there, is a schema error.
pub fn payload_field(payload: &str, field: &str) -> (r: Result<String, Error>)
    ensures
        result_view(r) == payload_field_result(json_str_field(payload@, field@), field@),
{
    match read_json_str_field(payload, field) {
        Ok(Some(s)) => Ok(s),
        Ok(None) => {
            let mut m = String::new();
            push_str(&mut m, "a fact payload carries no ");
            push_str(&mut m, field);
            Err(Error::Schema(m))
        },
        Err(m) => Err(Error::Schema(m)),
    }
}

/// The name a worker's liveness is recorded under.
pub open spec fn liveness_name_spec(liveness: Liveness) -> Seq<char> {
    match liveness {
        Liveness::Live => "live"@,
        Liveness::Gone => "gone"@,
    }
}

pub fn liveness_name(liveness: Liveness) -> (r: &'static str)
    ensures
        r@ == liveness_name_spec(liveness),
{
    match liveness {
        Liveness::Live => "live",
        Liveness::Gone => "gone",
    }
}

/// The name of the kind a fact is recorded as.
pub fn kind_name(kind: &FactKind) -> (r: &'static str)
    ensures
        r@ == fact_tag_name_spec(fact_tag_spec(*kind)),
{
    fact_tag_name(fact_tag(kind))
}

/// A JSON array of the given items, each already written as JSON.
pub open spec fn array_spec(items: Seq<Seq<char>>) -> Seq<char> {
    seq!['['] + join_spec(items, seq![',']) + seq![']']
}

/// `true` or `false`.
pub open spec fn boolean_spec(value: bool) -> Seq<char> {
    if value {
        "true"@
    } else {
        "false"@
    }
}

/// A JSON string, or `null` when there is none.
pub open spec fn optional_json(value: Option<String>) -> Seq<char> {
    match value {
        Some(text) => quoted_spec(text@),
        None => "null"@,
    }
}

/// A dependency as a JSON object of its task and commit.
pub open spec fn dependency_json(dependency: Dependency) -> Seq<char> {
    object_spec(seq![("task"@, quoted_spec(dependency.task@)), ("commit"@, quoted_spec(dependency.commit@))])
}

pub open spec fn dependencies_json(dependencies: Seq<Dependency>) -> Seq<char> {
    array_spec(Seq::new(dependencies.len(), |i: int| dependency_json(dependencies[i])))
}

pub open spec fn strings_json(items: Seq<String>) -> Seq<char> {
    array_spec(Seq::new(items.len(), |i: int| quoted_spec(items[i]@)))
}

/// A worktree's baseline: the name of the default branch head, or an object naming the
/// pinned commit.
pub open spec fn baseline_json(baseline: Baseline) -> Seq<char> {
    match baseline {
        Baseline::DefaultBranchHead => quoted_spec("default_branch_head"@),
        Baseline::PinnedCommit(commit) => object_spec(seq![("pinned_commit"@, quoted_spec(commit@))]),
    }
}

/// The payload of a dispatch judgement, as `serde_json` writes the object of its fields:
/// the keys in sorted order, the strings in JSON's own escaping.
pub open spec fn judgement_spec(
    task: Seq<char>,
    chosen_rule: Option<usize>,
    confidence: Seq<char>,
    model: Seq<char>,
    model_version: Seq<char>,
    rules_hash: Seq<char>,
    rules_snapshot: Seq<char>,
    role: Seq<char>,
    profile: Seq<char>,
) -> Seq<char> {
    "{\"chosen_rule\":"@ + match chosen_rule {
        Some(n) => decimal(n as nat),
        None => "null"@,
    } + ",\"confidence\":"@ + confidence + ",\"model\":"@ + json_string_spec(model)
        + ",\"model_version\":"@ + json_string_spec(model_version)
        + ",\"resolution\":{\"profile\":"@ + json_string_spec(profile) + ",\"role\":"@
        + json_string_spec(role) + "},\"rules_hash\":"@ + json_string_spec(rules_hash)
        + ",\"rules_snapshot\":"@ + json_string_spec(rules_snapshot)
        + ",\"source\":\"model_judgement\",\"task\":"@ + json_string_spec(task) + "}"@
}

/// The members of the JSON object a fact other than a dispatch judgement is recorded
/// with: its fields, in order, each written as JSON.
pub open spec fn payload_fields(kind: FactKind) -> Seq<(Seq<char>, Seq<char>)> {
    match kind {
        FactKind::TaskDispatchJudged { .. } => Seq::empty(),
        FactKind::TaskProposed { task, title, intent, role, dispatch_profile, dependencies, base_dependency, hold_pr } => task_first(task@, seq![("title"@, quoted_spec(title@)), ("intent"@, quoted_spec(intent@)), ("role"@, quoted_spec(role_name_spec(role))), ("dispatch_profile"@, optional_json(dispatch_profile)), ("dependencies"@, dependencies_json(dependencies@)), ("base_dependency"@, optional_json(base_dependency)), ("hold_pr"@, boolean_spec(hold_pr))]),
        FactKind::TaskReleased { task } => task_first(task@, Seq::empty()),
        FactKind::TaskApproved { task } => task_first(task@, Seq::empty()),
        FactKind::TaskCancelled { task } => task_first(task@, Seq::empty()),
        FactKind::TaskRetried { task } => task_first(task@, Seq::empty()),
        FactKind::TaskAcknowledged { task } => task_first(task@, Seq::empty()),
        FactKind::QuestionAsked { task, text, relay } => task_first(task@, seq![("text"@, quoted_spec(text@)), ("relay"@, boolean_spec(relay))]),
        FactKind::QuestionAnswered { task, answer, by } => task_first(task@, seq![("answer"@, quoted_spec(answer@)), ("by"@, quoted_spec(answered_by_name_spec(by)))]),
        FactKind::WorktreeAcquireRequested { task } => task_first(task@, Seq::empty()),
        FactKind::WorkerTurnLaunchRequested { task } => task_first(task@, Seq::empty()),
        FactKind::WorkerTurnResumeRequested { task } => task_first(task@, Seq::empty()),
        FactKind::WorkerTurnUnresolved { task } => task_first(task@, Seq::empty()),
        FactKind::WorkerTurnStarted { task, session } => task_first(task@, seq![("session"@, quoted_spec(session@))]),
        FactKind::WorkerTurnEnded { task } => task_first(task@, Seq::empty()),
        FactKind::WorkerRedirected { task, text } => task_first(task@, seq![("text"@, quoted_spec(text@))]),
        FactKind::WorkerLivenessChanged { task, liveness } => task_first(task@, seq![("liveness"@, quoted_spec(liveness_name_spec(liveness)))]),
        FactKind::WorkerSubmissionRecorded { task, summary, artifacts } => task_first(task@, seq![("summary"@, quoted_spec(summary@)), ("artifacts"@, strings_json(artifacts@))]),
        FactKind::WorkerSubmitted { task, commit } => task_first(task@, seq![("commit"@, quoted_spec(commit@))]),
        FactKind::ValidationStarted { task, commit } => task_first(task@, seq![("commit"@, quoted_spec(commit@))]),
        FactKind::ValidationFinished { task, command, commit, exit_code, duration_millis, output_tail } => task_first(task@, seq![("command"@, quoted_spec(command@)), ("commit"@, quoted_spec(commit@)), ("exit_code"@, signed_decimal(exit_code as int)), ("duration_millis"@, decimal(duration_millis as nat)), ("output_tail"@, quoted_spec(output_tail@))]),
        FactKind::WorktreeAcquired { task, lease, baseline, included } => task_first(task@, seq![("lease"@, quoted_spec(lease@)), ("baseline"@, baseline_json(baseline)), ("included"@, dependencies_json(included@))]),
        FactKind::BranchPushed { task, commit } => task_first(task@, seq![("commit"@, quoted_spec(commit@))]),
        FactKind::PullRequestOpened { task, number, url } => task_first(task@, seq![("number"@, decimal(number as nat)), ("url"@, quoted_spec(url@))]),
        FactKind::PullRequestChecksChanged { task, checks } => task_first(task@, seq![("checks"@, quoted_spec(checks_name_spec(checks)))]),
        FactKind::PullRequestMerged { task, commit } => task_first(task@, seq![("commit"@, quoted_spec(commit@))]),
        FactKind::PullRequestClosedUnmerged { task } => task_first(task@, Seq::empty()),
        FactKind::PullRequestMergeRefused { task, commit, base, checks, reason } => task_first(task@, seq![("commit"@, quoted_spec(commit@)), ("base"@, quoted_spec(base@)), ("checks"@, quoted_spec(checks_name_spec(checks))), ("reason"@, quoted_spec(reason@))]),
        FactKind::PushFailed { task, commit, reason } => task_first(task@, seq![("commit"@, quoted_spec(commit@)), ("reason"@, quoted_spec(reason@))]),
        FactKind::RebaseScheduled { task, profile, commit, base } => task_first(task@, seq![("profile"@, quoted_spec(profile@)), ("commit"@, quoted_spec(commit@)), ("base"@, quoted_spec(base@))]),
        FactKind::RunDurationExceeded { task } => task_first(task@, Seq::empty()),
        FactKind::RetryExhausted { task } => task_first(task@, Seq::empty()),
        FactKind::ProviderRateLimited { task, profile } => task_first(task@, seq![("profile"@, quoted_spec(profile@))]),
        FactKind::OnEventNotified { task, event } => task_first(task@, seq![("event"@, quoted_spec(event@))]),
        FactKind::CoordinatorSessionStarted { session } => seq![("session"@, quoted_spec(session@))],
        FactKind::CoordinatorContextMeasured { tokens } => seq![("tokens"@, decimal(tokens as nat))],
        FactKind::DaemonRestarted => seq![],
        FactKind::Polled => seq![],
    }
}

/// The JSON payload a fact is recorded with: the object of its fields.
pub open spec fn payload_spec(kind: FactKind) -> Seq<char> {
    match kind {
        FactKind::TaskDispatchJudged {
            task,
            chosen_rule,
            confidence,
            model,
            model_version,
            rules_hash,
            rules_snapshot,
            resolution,
        } => judgement_spec(
            task@,
            chosen_rule,
            confidence@,
            model@,
            model_version@,
            rules_hash@,
            rules_snapshot@,
            role_name_spec(resolution.role),
            resolution.profile@,
        ),
        _ => object_spec(payload_fields(kind)),
    }
}

fn no_fields() -> (r: Vec<(&'static str, String)>)
    ensures
        fields_view(r@) == Seq::<(Seq<char>, Seq<char>)>::empty(),
{
    let r: Vec<(&'static str, String)> = Vec::new();
    assert(fields_view(r@) =~= Seq::<(Seq<char>, Seq<char>)>::empty());
    r
}

fn add_field(fields: &mut Vec<(&'static str, String)>, name: &'static str, value: String)
    ensures
        fields_view(final(fields)@) == fields_view(old(fields)@).push((name@, value@)),
{
    let ghost text = value@;
    fields.push((name, value));
    assert(fields_view(fields@) =~= fields_view(old(fields)@).push((name@, text)));
}

/// The members of a JSON object, 1 in order.
fn fields1(a: &'static str, av: String) -> (r: Vec<(&'static str, String)>)
    ensures
        fields_view(r@) == seq![(a@, av@)],
{
    let ghost at = av@;
    let mut fields = no_fields();
    add_field(&mut fields, a, av);
    assert(fields_view(fields@) =~= seq![(a@, at)]);
    fields
}

/// The members of a JSON object, 2 in order.
fn fields2(a: &'static str, av: String, b: &'static str, bv: String) -> (r: Vec<(&'static str, String)>)
    ensures
        fields_view(r@) == seq![(a@, av@), (b@, bv@)],
{
    let ghost at = av@;
    let ghost bt = bv@;
    let mut fields = no_fields();
    add_field(&mut fields, a, av);
    add_field(&mut fields, b, bv);
    assert(fields_view(fields@) =~= seq![(a@, at), (b@, bt)]);
    fields
}

/// The members of a JSON object, 3 in order.
fn fields3(a: &'static str, av: String, b: &'static str, bv: String, c: &'static str, cv: String) -> (r: Vec<(&'static str, String)>)
    ensures
        fields_view(r@) == seq![(a@, av@), (b@, bv@), (c@, cv@)],
{
    let ghost at = av@;
    let ghost bt = bv@;
    let ghost ct = cv@;
    let mut fields = no_fields();
    add_field(&mut fields, a, av);
    add_field(&mut fields, b, bv);
    add_field(&mut fields, c, cv);
    assert(fields_view(fields@) =~= seq![(a@, at), (b@, bt), (c@, ct)]);
    fields
}

/// The members of a JSON object, 4 in order.
fn fields4(a: &'static str, av: String, b: &'static str, bv: String, c: &'static str, cv: String, d: &'static str, dv: String) -> (r: Vec<(&'static str, String)>)
    ensures
        fields_view(r@) == seq![(a@, av@), (b@, bv@), (c@, cv@), (d@, dv@)],
{
    let ghost at = av@;
    let ghost bt = bv@;
    let ghost ct = cv@;
    let ghost dt = dv@;
    let mut fields = no_fields();
    add_field(&mut fields, a, av);
    add_field(&mut fields, b, bv);
    add_field(&mut fields, c, cv);
    add_field(&mut fields, d, dv);
    assert(fields_view(fields@) =~= seq![(a@, at), (b@, bt), (c@, ct), (d@, dt)]);
    fields
}

/// The members of a JSON object, 5 in order.
fn fields5(a: &'static str, av: String, b: &'static str, bv: String, c: &'static str, cv: String, d: &'static str, dv: String, e: &'static str, ev: String) -> (r: Vec<(&'static str, String)>)
    ensures
        fields_view(r@) == seq![(a@, av@), (b@, bv@), (c@, cv@), (d@, dv@), (e@, ev@)],
{
    let ghost at = av@;
    let ghost bt = bv@;
    let ghost ct = cv@;
    let ghost dt = dv@;
    let ghost et = ev@;
    let mut fields = no_fields();
    add_field(&mut fields, a, av);
    add_field(&mut fields, b, bv);
    add_field(&mut fields, c, cv);
    add_field(&mut fields, d, dv);
    add_field(&mut fields, e, ev);
    assert(fields_view(fields@) =~= seq![(a@, at), (b@, bt), (c@, ct), (d@, dt), (e@, et)]);
    fields
}

/// The members of a JSON object, 7 in order.
fn fields7(a: &'static str, av: String, b: &'static str, bv: String, c: &'static str, cv: String, d: &'static str, dv: String, e: &'static str, ev: String, f: &'static str, fv: String, g: &'static str, gv: String) -> (r: Vec<(&'static str, String)>)
    ensures
        fields_view(r@) == seq![(a@, av@), (b@, bv@), (c@, cv@), (d@, dv@), (e@, ev@), (f@, fv@), (g@, gv@)],
{
    let ghost at = av@;
    let ghost bt = bv@;
    let ghost ct = cv@;
    let ghost dt = dv@;
    let ghost et = ev@;
    let ghost ft = fv@;
    let ghost gt = gv@;
    let mut fields = no_fields();
    add_field(&mut fields, a, av);
    add_field(&mut fields, b, bv);
    add_field(&mut fields, c, cv);
    add_field(&mut fields, d, dv);
    add_field(&mut fields, e, ev);
    add_field(&mut fields, f, fv);
    add_field(&mut fields, g, gv);
    assert(fields_view(fields@) =~= seq![(a@, at), (b@, bt), (c@, ct), (d@, dt), (e@, et), (f@, ft), (g@, gt)]);
    fields
}

/// The members of a fact about a task: the task first, then the others.
pub open spec fn task_first(task: Seq<char>, rest: Seq<(Seq<char>, Seq<char>)>) -> Seq<(Seq<char>, Seq<char>)> {
    seq![("task"@, quoted_spec(task))] + rest
}

fn task_fields(task: &str, rest: Vec<(&'static str, String)>) -> (r: Vec<(&'static str, String)>)
    ensures
        fields_view(r@) == task_first(task@, fields_view(rest@)),
{
    let mut fields = rest;
    let ghost before = fields@;
    fields.insert(0, ("task", quoted(task)));
    assert(fields_view(fields@) =~= task_first(task@, fields_view(before)));
    fields
}

fn optional_quoted(value: &Option<String>) -> (r: String)
    ensures
        r@ == optional_json(*value),
{
    match value {
        Some(text) => quoted(text),
        None => optional(None),
    }
}

fn items_text(items: Vec<String>, ghost_items: Ghost<Seq<Seq<char>>>) -> (r: String)
    requires
        texts(items@) == ghost_items@,
    ensures
        r@ == array_spec(ghost_items@),
{
    array(items)
}

fn dependencies_text(dependencies: &Vec<Dependency>) -> (r: String)
    ensures
        r@ == dependencies_json(dependencies@),
{
    let ghost want = Seq::new(dependencies@.len(), |i: int| dependency_json(dependencies@[i]));
    let mut items: Vec<String> = Vec::new();
    let mut i: usize = 0;
    while i < dependencies.len()
        invariant
            i <= dependencies@.len(),
            items@.len() == i,
            forall|j: int| 0 <= j < i ==> #[trigger] items@[j]@ == dependency_json(dependencies@[j]),
        decreases dependencies@.len() - i,
    {
        let dependency = &dependencies[i];
        let item = object(fields2("task", quoted(&dependency.task), "commit", quoted(&dependency.commit)));
        assert(item@ == dependency_json(dependencies@[i as int]));
        items.push(item);
        i += 1;
    }
    assert(texts(items@) =~= want);
    items_text(items, Ghost(want))
}

fn strings_text(values: &Vec<String>) -> (r: String)
    ensures
        r@ == strings_json(values@),
{
    let ghost want = Seq::new(values@.len(), |i: int| quoted_spec(values@[i]@));
    let mut items: Vec<String> = Vec::new();
    let mut i: usize = 0;
    while i < values.len()
        invariant
            i <= values@.len(),
            items@.len() == i,
            forall|j: int| 0 <= j < i ==> #[trigger] items@[j]@ == quoted_spec(values@[j]@),
        decreases values@.len() - i,
    {
        items.push(quoted(&values[i]));
        i += 1;
    }
    assert(texts(items@) =~= want);
    items_text(items, Ghost(want))
}

fn signed_text(value: i32) -> (r: String)
    ensures
        r@ == signed_decimal(value as int),
{
    let mut out = String::new();
    push_signed(&mut out, value as i64);
    out
}

fn baseline_text(baseline: &Baseline) -> (r: String)
    ensures
        r@ == baseline_json(*baseline),
{
    match baseline {
        Baseline::DefaultBranchHead => quoted("default_branch_head"),
        Baseline::PinnedCommit(commit) => {
            let mut fields = no_fields();
            add_field(&mut fields, "pinned_commit", quoted(commit));
            object(fields)
        },
    }
}

fn judgement_text(
    task: &str,
    chosen_rule: Option<usize>,
    confidence: &str,
    model: &str,
    model_version: &str,
    rules_hash: &str,
    rules_snapshot: &str,
    role: &str,
    profile: &str,
) -> (r: String)
    ensures
        r@ == judgement_spec(
            task@,
            chosen_rule,
            confidence@,
            model@,
            model_version@,
            rules_hash@,
            rules_snapshot@,
            role@,
            profile@,
        ),
{
    let mut out = String::new();
    push_str(&mut out, "{\"chosen_rule\":");
    match chosen_rule {
        Some(n) => push_decimal(&mut out, n as u64),
        None => push_str(&mut out, "null"),
    }
    push_str(&mut out, ",\"confidence\":");
    push_str(&mut out, confidence);
    push_str(&mut out, ",\"model\":");
    push_string(&mut out, &json_string(model));
    push_str(&mut out, ",\"model_version\":");
    push_string(&mut out, &json_string(model_version));
    push_str(&mut out, ",\"resolution\":{\"profile\":");
    push_string(&mut out, &json_string(profile));
    push_str(&mut out, ",\"role\":");
    push_string(&mut out, &json_string(role));
    push_str(&mut out, "},\"rules_hash\":");
    push_string(&mut out, &json_string(rules_hash));
    push_str(&mut out, ",\"rules_snapshot\":");
    push_string(&mut out, &json_string(rules_snapshot));
    push_str(&mut out, ",\"source\":\"model_judgement\",\"task\":");
    push_string(&mut out, &json_string(task));
    push_str(&mut out, "}");
    out
}

/// The members of the payload of a fact other than a dispatch judgement.
#[verifier::spinoff_prover]
#[verifier::rlimit(40)]
fn payload_members(kind: &FactKind) -> (r: Vec<(&'static str, String)>)
    requires
        !(*kind is TaskDispatchJudged),
    ensures
        fields_view(r@) == payload_fields(*kind),
{
    match kind {
        FactKind::TaskDispatchJudged { .. } => no_fields(),
        FactKind::TaskProposed { task, title, intent, role, dispatch_profile, dependencies, base_dependency, hold_pr } => {
            task_fields(task, fields7(
                "title", quoted(title),
                "intent", quoted(intent),
                "role", quoted(role_name(*role)),
                "dispatch_profile", optional_quoted(dispatch_profile),
                "dependencies", dependencies_text(dependencies),
                "base_dependency", optional_quoted(base_dependency),
                "hold_pr", boolean(*hold_pr),
            ))
        },
        FactKind::TaskReleased { task } => task_fields(task, no_fields()),
        FactKind::TaskApproved { task } => task_fields(task, no_fields()),
        FactKind::TaskCancelled { task } => task_fields(task, no_fields()),
        FactKind::TaskRetried { task } => task_fields(task, no_fields()),
        FactKind::TaskAcknowledged { task } => task_fields(task, no_fields()),
        FactKind::QuestionAsked { task, text, relay } => {
            task_fields(task, fields2(
                "text", quoted(text),
                "relay", boolean(*relay),
            ))
        },
        FactKind::QuestionAnswered { task, answer, by } => {
            task_fields(task, fields2(
                "answer", quoted(answer),
                "by", quoted(answered_by_name(*by)),
            ))
        },
        FactKind::WorktreeAcquireRequested { task } => task_fields(task, no_fields()),
        FactKind::WorkerTurnLaunchRequested { task } => task_fields(task, no_fields()),
        FactKind::WorkerTurnResumeRequested { task } => task_fields(task, no_fields()),
        FactKind::WorkerTurnUnresolved { task } => task_fields(task, no_fields()),
        FactKind::WorkerTurnStarted { task, session } => {
            task_fields(task, fields1(
                "session", quoted(session),
            ))
        },
        FactKind::WorkerTurnEnded { task } => task_fields(task, no_fields()),
        FactKind::WorkerRedirected { task, text } => {
            task_fields(task, fields1(
                "text", quoted(text),
            ))
        },
        FactKind::WorkerLivenessChanged { task, liveness } => {
            task_fields(task, fields1(
                "liveness", quoted(liveness_name(*liveness)),
            ))
        },
        FactKind::WorkerSubmissionRecorded { task, summary, artifacts } => {
            task_fields(task, fields2(
                "summary", quoted(summary),
                "artifacts", strings_text(artifacts),
            ))
        },
        FactKind::WorkerSubmitted { task, commit } => {
            task_fields(task, fields1(
                "commit", quoted(commit),
            ))
        },
        FactKind::ValidationStarted { task, commit } => {
            task_fields(task, fields1(
                "commit", quoted(commit),
            ))
        },
        FactKind::ValidationFinished { task, command, commit, exit_code, duration_millis, output_tail } => {
            task_fields(task, fields5(
                "command", quoted(command),
                "commit", quoted(commit),
                "exit_code", signed_text(*exit_code),
                "duration_millis", decimal_string(*duration_millis),
                "output_tail", quoted(output_tail),
            ))
        },
        FactKind::WorktreeAcquired { task, lease, baseline, included } => {
            task_fields(task, fields3(
                "lease", quoted(lease),
                "baseline", baseline_text(baseline),
                "included", dependencies_text(included),
            ))
        },
        FactKind::BranchPushed { task, commit } => {
            task_fields(task, fields1(
                "commit", quoted(commit),
            ))
        },
        FactKind::PullRequestOpened { task, number, url } => {
            task_fields(task, fields2(
                "number", decimal_string(*number),
                "url", quoted(url),
            ))
        },
        FactKind::PullRequestChecksChanged { task, checks } => {
            task_fields(task, fields1(
                "checks", quoted(checks_name(*checks)),
            ))
        },
        FactKind::PullRequestMerged { task, commit } => {
            task_fields(task, fields1(
                "commit", quoted(commit),
            ))
        },
        FactKind::PullRequestClosedUnmerged { task } => task_fields(task, no_fields()),
        FactKind::PullRequestMergeRefused { task, commit, base, checks, reason } => {
            task_fields(task, fields4(
                "commit", quoted(commit),
                "base", quoted(base),
                "checks", quoted(checks_name(*checks)),
                "reason", quoted(reason),
            ))
        },
        FactKind::PushFailed { task, commit, reason } => {
            task_fields(task, fields2(
                "commit", quoted(commit),
                "reason", quoted(reason),
            ))
        },
        FactKind::RebaseScheduled { task, profile, commit, base } => {
            task_fields(task, fields3(
                "profile", quoted(profile),
                "commit", quoted(commit),
                "base", quoted(base),
            ))
        },
        FactKind::RunDurationExceeded { task } => task_fields(task, no_fields()),
        FactKind::RetryExhausted { task } => task_fields(task, no_fields()),
        FactKind::ProviderRateLimited { task, profile } => {
            task_fields(task, fields1(
                "profile", quoted(profile),
            ))
        },
        FactKind::OnEventNotified { task, event } => {
            task_fields(task, fields1(
                "event", quoted(event),
            ))
        },
        FactKind::CoordinatorSessionStarted { session } => {
            fields1(
                "session", quoted(session),
            )
        },
        FactKind::CoordinatorContextMeasured { tokens } => {
            fields1(
                "tokens", decimal_string(*tokens),
            )
        },
        FactKind::DaemonRestarted => {
            no_fields()
        },
        FactKind::Polled => {
            no_fields()
        },
    }
}

/// The JSON payload `kind` is recorded with.
pub fn encode_payload(kind: &FactKind) -> (r: String)
    ensures
        r@ == payload_spec(*kind),
{
    match kind {
        FactKind::TaskDispatchJudged {
            task,
            chosen_rule,
            confidence,
            model,
            model_version,
            rules_hash,
            rules_snapshot,
            resolution,
        } => {
            let role = role_name(resolution.role);
            judgement_text(
                task.as_str(),
                *chosen_rule,
                confidence.as_str(),
                model.as_str(),
                model_version.as_str(),
                rules_hash.as_str(),
                rules_snapshot.as_str(),
                role,
                resolution.profile.as_str(),
            )
        },
        _ => object(payload_members(kind)),
    }
}

/// The first of the joined items opens the joined text.
proof fn lemma_join_opens(items: Seq<Seq<char>>, sep: Seq<char>)
    requires
        items.len() >= 1,
    ensures
        items[0].len() <= join_spec(items, sep).len(),
        join_spec(items, sep).take(items[0].len() as int) == items[0],
    decreases items.len(),
{
    if items.len() > 1 {
        lemma_join_opens(items.drop_last(), sep);
        let j = join_spec(items.drop_last(), sep);
        assert((j + sep + items.last()).take(items[0].len() as int) == j.take(items[0].len() as int));
    }
}

/// The object of the given members opens with the first of them.
proof fn lemma_object_opens(fields: Seq<(Seq<char>, Seq<char>)>, value: Seq<char>)
    requires
        fields.len() >= 1,
        fields[0] == ("task"@, value),
    ensures
        starts_with(object_spec(fields), "{\"task\":"@ + value),
{
    let ms = members(fields);
    lemma_join_opens(ms, seq![',']);
    reveal_strlit("task");
    reveal_strlit("{\"task\":");
    reveal_with_fuel(escaped, 5);
    let opening = "{\"task\":"@ + value;
    assert(quoted_spec("task"@) =~= seq!['"', 't', 'a', 's', 'k', '"']);
    assert(opening =~= seq!['{'] + ms[0]);
    let body = join_spec(ms, seq![',']);
    assert((seq!['{'] + body + seq!['}']).take(opening.len() as int) =~= seq!['{'] + body.take(
        ms[0].len() as int,
    ));
}

/// The first member of a task fact's payload is its task.
proof fn lemma_task_member_first(kind: FactKind)
    requires
        fact_task_spec(kind) is Some,
        !(kind is TaskDispatchJudged),
    ensures
        payload_fields(kind).len() >= 1,
        payload_fields(kind)[0] == ("task"@, quoted_spec(fact_task_spec(kind).unwrap())),
{
}

/// A fact about a task, other than a dispatch judgement, is recorded with a payload
/// that opens with the task: `{"task":` and the task as a JSON string come first.
pub proof fn lemma_payload_opens_with_task(kind: FactKind)
    requires
        fact_task_spec(kind) is Some,
        !(kind is TaskDispatchJudged),
    ensures
        starts_with(payload_spec(kind), "{\"task\":"@ + quoted_spec(fact_task_spec(kind).unwrap())),
{
    let task = fact_task_spec(kind).unwrap();
    lemma_task_member_first(kind);
    lemma_object_opens(payload_fields(kind), quoted_spec(task));
}

} // verus!
