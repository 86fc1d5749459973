//! The text of each fact's payload written out: for every kind of fact, the JSON object
//! it is recorded with, member by member, with the literal names of its members.
use vstd::prelude::*;

use crate::adapters::forge::Checks;
use crate::commands::Dependency;
use crate::factcodec::{
    baseline_json, dependencies_json, escaped, escaped_char, liveness_name_spec, members,
    object_spec, payload_fields, payload_spec, quoted_spec, strings_json,
};
use crate::facts::{Baseline, FactKind, Liveness};
use crate::names::{AnsweredBy, Role, answered_by_name_spec, checks_name_spec, role_name_spec};
use crate::text::{decimal, is_ctrl, join_spec, signed_decimal};

verus! {

/// A name of lower-case letters and underscores is written as a JSON string without
/// escapes.
proof fn lemma_plain_name_quoted(name: Seq<char>)
    requires
        forall|i: int| 0 <= i < name.len() ==> ('a' <= #[trigger] name[i] && name[i] <= 'z') || name[i]
            == '_',
    ensures
        quoted_spec(name) == seq!['"'] + name + seq!['"'],
{
    lemma_plain_escaped(name);
}

proof fn lemma_plain_escaped(name: Seq<char>)
    requires
        forall|i: int| 0 <= i < name.len() ==> ('a' <= #[trigger] name[i] && name[i] <= 'z') || name[i]
            == '_',
    ensures
        escaped(name) == name,
    decreases name.len(),
{
    if name.len() > 0 {
        let init = name.drop_last();
        assert forall|i: int| 0 <= i < init.len() implies ('a' <= #[trigger] init[i] && init[i]
            <= 'z') || init[i] == '_' by {
            assert(init[i] == name[i]);
        }
        lemma_plain_escaped(init);
        let c = name.last();
        assert(('a' <= c && c <= 'z') || c == '_');
        assert(!is_ctrl(c));
        assert(escaped_char(c) == seq![c]);
        assert(init + seq![c] == name);
    }
}

/// The opening of an object whose first member is `name` with `value`.
proof fn lemma_object_first(m: Seq<char>, opening: Seq<char>, name: Seq<char>, value: Seq<char>)
    requires
        opening == seq!['{'] + quoted_spec(name) + seq![':'],
        m == quoted_spec(name) + seq![':'] + value,
    ensures
        seq!['{'] + join_spec(seq![m], seq![',']) == opening + value,
{
    assert(join_spec(seq![m], seq![',']) == m);
    assert(seq!['{'] + m =~= opening + value);
}

/// One more member, `name` with `value`, after the members written so far.
proof fn lemma_object_step(
    done: Seq<Seq<char>>,
    m: Seq<char>,
    written: Seq<char>,
    lead: Seq<char>,
    name: Seq<char>,
    value: Seq<char>,
)
    requires
        done.len() >= 1,
        seq!['{'] + join_spec(done, seq![',']) == written,
        lead == seq![','] + quoted_spec(name) + seq![':'],
        m == quoted_spec(name) + seq![':'] + value,
    ensures
        seq!['{'] + join_spec(done.push(m), seq![',']) == written + lead + value,
{
    let all = done.push(m);
    assert(all.drop_last() == done);
    assert(join_spec(all, seq![',']) == join_spec(done, seq![',']) + seq![','] + m);
    assert(seq!['{'] + join_spec(all, seq![',']) =~= written + lead + value);
}

/// The object closes after its last member.
proof fn lemma_object_close(fields: Seq<(Seq<char>, Seq<char>)>, written: Seq<char>)
    requires
        seq!['{'] + join_spec(members(fields), seq![',']) == written,
    ensures
        object_spec(fields) == written + "}"@,
{
    reveal_strlit("}");
    assert(object_spec(fields) =~= written + "}"@);
}

/// A proposed task is recorded with its task, title, intent, role, dispatch profile (or
/// `null`), dependencies, base dependency (or `null`) and whether its pull request is
/// held, in that order, each with its own value.
#[verifier::spinoff_prover]
#[verifier::rlimit(100)]
pub proof fn lemma_task_proposed_payload(
    task: String,
    title: String,
    intent: String,
    role: Role,
    dispatch_profile: Option<String>,
    dependencies: Vec<Dependency>,
    base_dependency: Option<String>,
    hold_pr: bool,
)
    ensures
        payload_spec(FactKind::TaskProposed { task, title, intent, role, dispatch_profile, dependencies, base_dependency, hold_pr })
            == "{\"task\":"@ + quoted_spec(task@)
            + ",\"title\":"@ + quoted_spec(title@)
            + ",\"intent\":"@ + quoted_spec(intent@)
            + ",\"role\":"@ + quoted_spec(role_name_spec(role))
            + ",\"dispatch_profile\":"@ + (match dispatch_profile { Some(v) => quoted_spec(v@), None => "null"@ })
            + ",\"dependencies\":"@ + dependencies_json(dependencies@)
            + ",\"base_dependency\":"@ + (match base_dependency { Some(v) => quoted_spec(v@), None => "null"@ })
            + ",\"hold_pr\":"@ + (if hold_pr { "true"@ } else { "false"@ }) + "}"@,
{
    let kind = FactKind::TaskProposed { task, title, intent, role, dispatch_profile, dependencies, base_dependency, hold_pr };
    let ms = members(payload_fields(kind));
    let sep = seq![','];
    assert(ms.len() == 8);
    let fields = payload_fields(kind);
    assert("{\"task\":"@ == seq!['{'] + quoted_spec("task"@) + seq![':']) by {
        reveal_strlit("{\"task\":");
        reveal_strlit("task");
        lemma_plain_name_quoted("task"@);
    }
    assert(ms[0] == quoted_spec("task"@) + seq![':'] + quoted_spec(task@)) by {
        assert(fields[0] == ("task"@, quoted_spec(task@)));
    }
    let m1 = seq![ms[0]];
    let e1 = "{\"task\":"@ + quoted_spec(task@);
    lemma_object_first(ms[0], "{\"task\":"@, "task"@, quoted_spec(task@));
    assert(",\"title\":"@ == sep + quoted_spec("title"@) + seq![':']) by {
        reveal_strlit(",\"title\":");
        reveal_strlit("title");
        lemma_plain_name_quoted("title"@);
    }
    assert(ms[1] == quoted_spec("title"@) + seq![':'] + quoted_spec(title@)) by {
        assert(fields[1] == ("title"@, quoted_spec(title@)));
    }
    let m2 = m1.push(ms[1]);
    let e2 = e1 + ",\"title\":"@ + quoted_spec(title@);
    lemma_object_step(m1, ms[1], e1, ",\"title\":"@, "title"@, quoted_spec(title@));
    assert(",\"intent\":"@ == sep + quoted_spec("intent"@) + seq![':']) by {
        reveal_strlit(",\"intent\":");
        reveal_strlit("intent");
        lemma_plain_name_quoted("intent"@);
    }
    assert(ms[2] == quoted_spec("intent"@) + seq![':'] + quoted_spec(intent@)) by {
        assert(fields[2] == ("intent"@, quoted_spec(intent@)));
    }
    let m3 = m2.push(ms[2]);
    let e3 = e2 + ",\"intent\":"@ + quoted_spec(intent@);
    lemma_object_step(m2, ms[2], e2, ",\"intent\":"@, "intent"@, quoted_spec(intent@));
    assert(",\"role\":"@ == sep + quoted_spec("role"@) + seq![':']) by {
        reveal_strlit(",\"role\":");
        reveal_strlit("role");
        lemma_plain_name_quoted("role"@);
    }
    assert(ms[3] == quoted_spec("role"@) + seq![':'] + quoted_spec(role_name_spec(role))) by {
        assert(fields[3] == ("role"@, quoted_spec(role_name_spec(role))));
    }
    let m4 = m3.push(ms[3]);
    let e4 = e3 + ",\"role\":"@ + quoted_spec(role_name_spec(role));
    lemma_object_step(m3, ms[3], e3, ",\"role\":"@, "role"@, quoted_spec(role_name_spec(role)));
    assert(",\"dispatch_profile\":"@ == sep + quoted_spec("dispatch_profile"@) + seq![':']) by {
        reveal_strlit(",\"dispatch_profile\":");
        reveal_strlit("dispatch_profile");
        lemma_plain_name_quoted("dispatch_profile"@);
    }
    assert(ms[4] == quoted_spec("dispatch_profile"@) + seq![':'] + (match dispatch_profile { Some(v) => quoted_spec(v@), None => "null"@ })) by {
        assert(fields[4] == ("dispatch_profile"@, (match dispatch_profile { Some(v) => quoted_spec(v@), None => "null"@ })));
    }
    let m5 = m4.push(ms[4]);
    let e5 = e4 + ",\"dispatch_profile\":"@ + (match dispatch_profile { Some(v) => quoted_spec(v@), None => "null"@ });
    lemma_object_step(m4, ms[4], e4, ",\"dispatch_profile\":"@, "dispatch_profile"@, (match dispatch_profile { Some(v) => quoted_spec(v@), None => "null"@ }));
    assert(",\"dependencies\":"@ == sep + quoted_spec("dependencies"@) + seq![':']) by {
        reveal_strlit(",\"dependencies\":");
        reveal_strlit("dependencies");
        lemma_plain_name_quoted("dependencies"@);
    }
    assert(ms[5] == quoted_spec("dependencies"@) + seq![':'] + dependencies_json(dependencies@)) by {
        assert(fields[5] == ("dependencies"@, dependencies_json(dependencies@)));
    }
    let m6 = m5.push(ms[5]);
    let e6 = e5 + ",\"dependencies\":"@ + dependencies_json(dependencies@);
    lemma_object_step(m5, ms[5], e5, ",\"dependencies\":"@, "dependencies"@, dependencies_json(dependencies@));
    assert(",\"base_dependency\":"@ == sep + quoted_spec("base_dependency"@) + seq![':']) by {
        reveal_strlit(",\"base_dependency\":");
        reveal_strlit("base_dependency");
        lemma_plain_name_quoted("base_dependency"@);
    }
    assert(ms[6] == quoted_spec("base_dependency"@) + seq![':'] + (match base_dependency { Some(v) => quoted_spec(v@), None => "null"@ })) by {
        assert(fields[6] == ("base_dependency"@, (match base_dependency { Some(v) => quoted_spec(v@), None => "null"@ })));
    }
    let m7 = m6.push(ms[6]);
    let e7 = e6 + ",\"base_dependency\":"@ + (match base_dependency { Some(v) => quoted_spec(v@), None => "null"@ });
    lemma_object_step(m6, ms[6], e6, ",\"base_dependency\":"@, "base_dependency"@, (match base_dependency { Some(v) => quoted_spec(v@), None => "null"@ }));
    assert(",\"hold_pr\":"@ == sep + quoted_spec("hold_pr"@) + seq![':']) by {
        reveal_strlit(",\"hold_pr\":");
        reveal_strlit("hold_pr");
        lemma_plain_name_quoted("hold_pr"@);
    }
    assert(ms[7] == quoted_spec("hold_pr"@) + seq![':'] + (if hold_pr { "true"@ } else { "false"@ })) by {
        assert(fields[7] == ("hold_pr"@, (if hold_pr { "true"@ } else { "false"@ })));
    }
    let m8 = m7.push(ms[7]);
    let e8 = e7 + ",\"hold_pr\":"@ + (if hold_pr { "true"@ } else { "false"@ });
    lemma_object_step(m7, ms[7], e7, ",\"hold_pr\":"@, "hold_pr"@, (if hold_pr { "true"@ } else { "false"@ }));
    assert(ms == m8);
    lemma_object_close(payload_fields(kind), e8);
}

/// A question is recorded with its task, its text and whether it is relayed, in that
/// order: `{"task":…,"text":…,"relay":true}`, or `false` at the end for a
/// question that is not relayed.
#[verifier::spinoff_prover]
pub proof fn lemma_question_asked_payload(
    task: String,
    text: String,
    relay: bool,
)
    ensures
        payload_spec(FactKind::QuestionAsked { task, text, relay })
            == "{\"task\":"@ + quoted_spec(task@)
            + ",\"text\":"@ + quoted_spec(text@)
            + ",\"relay\":"@ + (if relay { "true"@ } else { "false"@ }) + "}"@,
{
    let kind = FactKind::QuestionAsked { task, text, relay };
    let ms = members(payload_fields(kind));
    let sep = seq![','];
    assert(ms.len() == 3);
    let fields = payload_fields(kind);
    assert("{\"task\":"@ == seq!['{'] + quoted_spec("task"@) + seq![':']) by {
        reveal_strlit("{\"task\":");
        reveal_strlit("task");
        lemma_plain_name_quoted("task"@);
    }
    assert(ms[0] == quoted_spec("task"@) + seq![':'] + quoted_spec(task@)) by {
        assert(fields[0] == ("task"@, quoted_spec(task@)));
    }
    let m1 = seq![ms[0]];
    let e1 = "{\"task\":"@ + quoted_spec(task@);
    lemma_object_first(ms[0], "{\"task\":"@, "task"@, quoted_spec(task@));
    assert(",\"text\":"@ == sep + quoted_spec("text"@) + seq![':']) by {
        reveal_strlit(",\"text\":");
        reveal_strlit("text");
        lemma_plain_name_quoted("text"@);
    }
    assert(ms[1] == quoted_spec("text"@) + seq![':'] + quoted_spec(text@)) by {
        assert(fields[1] == ("text"@, quoted_spec(text@)));
    }
    let m2 = m1.push(ms[1]);
    let e2 = e1 + ",\"text\":"@ + quoted_spec(text@);
    lemma_object_step(m1, ms[1], e1, ",\"text\":"@, "text"@, quoted_spec(text@));
    assert(",\"relay\":"@ == sep + quoted_spec("relay"@) + seq![':']) by {
        reveal_strlit(",\"relay\":");
        reveal_strlit("relay");
        lemma_plain_name_quoted("relay"@);
    }
    assert(ms[2] == quoted_spec("relay"@) + seq![':'] + (if relay { "true"@ } else { "false"@ })) by {
        assert(fields[2] == ("relay"@, (if relay { "true"@ } else { "false"@ })));
    }
    let m3 = m2.push(ms[2]);
    let e3 = e2 + ",\"relay\":"@ + (if relay { "true"@ } else { "false"@ });
    lemma_object_step(m2, ms[2], e2, ",\"relay\":"@, "relay"@, (if relay { "true"@ } else { "false"@ }));
    assert(ms == m3);
    lemma_object_close(payload_fields(kind), e3);
}

/// An answer is recorded with its task, the answer and who answered, in that order.
#[verifier::spinoff_prover]
pub proof fn lemma_question_answered_payload(
    task: String,
    answer: String,
    by: AnsweredBy,
)
    ensures
        payload_spec(FactKind::QuestionAnswered { task, answer, by })
            == "{\"task\":"@ + quoted_spec(task@)
            + ",\"answer\":"@ + quoted_spec(answer@)
            + ",\"by\":"@ + quoted_spec(answered_by_name_spec(by)) + "}"@,
{
    let kind = FactKind::QuestionAnswered { task, answer, by };
    let ms = members(payload_fields(kind));
    let sep = seq![','];
    assert(ms.len() == 3);
    let fields = payload_fields(kind);
    assert("{\"task\":"@ == seq!['{'] + quoted_spec("task"@) + seq![':']) by {
        reveal_strlit("{\"task\":");
        reveal_strlit("task");
        lemma_plain_name_quoted("task"@);
    }
    assert(ms[0] == quoted_spec("task"@) + seq![':'] + quoted_spec(task@)) by {
        assert(fields[0] == ("task"@, quoted_spec(task@)));
    }
    let m1 = seq![ms[0]];
    let e1 = "{\"task\":"@ + quoted_spec(task@);
    lemma_object_first(ms[0], "{\"task\":"@, "task"@, quoted_spec(task@));
    assert(",\"answer\":"@ == sep + quoted_spec("answer"@) + seq![':']) by {
        reveal_strlit(",\"answer\":");
        reveal_strlit("answer");
        lemma_plain_name_quoted("answer"@);
    }
    assert(ms[1] == quoted_spec("answer"@) + seq![':'] + quoted_spec(answer@)) by {
        assert(fields[1] == ("answer"@, quoted_spec(answer@)));
    }
    let m2 = m1.push(ms[1]);
    let e2 = e1 + ",\"answer\":"@ + quoted_spec(answer@);
    lemma_object_step(m1, ms[1], e1, ",\"answer\":"@, "answer"@, quoted_spec(answer@));
    assert(",\"by\":"@ == sep + quoted_spec("by"@) + seq![':']) by {
        reveal_strlit(",\"by\":");
        reveal_strlit("by");
        lemma_plain_name_quoted("by"@);
    }
    assert(ms[2] == quoted_spec("by"@) + seq![':'] + quoted_spec(answered_by_name_spec(by))) by {
        assert(fields[2] == ("by"@, quoted_spec(answered_by_name_spec(by))));
    }
    let m3 = m2.push(ms[2]);
    let e3 = e2 + ",\"by\":"@ + quoted_spec(answered_by_name_spec(by));
    lemma_object_step(m2, ms[2], e2, ",\"by\":"@, "by"@, quoted_spec(answered_by_name_spec(by)));
    assert(ms == m3);
    lemma_object_close(payload_fields(kind), e3);
}

/// A started worker turn is recorded with its task and its session.
#[verifier::spinoff_prover]
pub proof fn lemma_worker_turn_started_payload(
    task: String,
    session: String,
)
    ensures
        payload_spec(FactKind::WorkerTurnStarted { task, session })
            == "{\"task\":"@ + quoted_spec(task@)
            + ",\"session\":"@ + quoted_spec(session@) + "}"@,
{
    let kind = FactKind::WorkerTurnStarted { task, session };
    let ms = members(payload_fields(kind));
    let sep = seq![','];
    assert(ms.len() == 2);
    let fields = payload_fields(kind);
    assert("{\"task\":"@ == seq!['{'] + quoted_spec("task"@) + seq![':']) by {
        reveal_strlit("{\"task\":");
        reveal_strlit("task");
        lemma_plain_name_quoted("task"@);
    }
    assert(ms[0] == quoted_spec("task"@) + seq![':'] + quoted_spec(task@)) by {
        assert(fields[0] == ("task"@, quoted_spec(task@)));
    }
    let m1 = seq![ms[0]];
    let e1 = "{\"task\":"@ + quoted_spec(task@);
    lemma_object_first(ms[0], "{\"task\":"@, "task"@, quoted_spec(task@));
    assert(",\"session\":"@ == sep + quoted_spec("session"@) + seq![':']) by {
        reveal_strlit(",\"session\":");
        reveal_strlit("session");
        lemma_plain_name_quoted("session"@);
    }
    assert(ms[1] == quoted_spec("session"@) + seq![':'] + quoted_spec(session@)) by {
        assert(fields[1] == ("session"@, quoted_spec(session@)));
    }
    let m2 = m1.push(ms[1]);
    let e2 = e1 + ",\"session\":"@ + quoted_spec(session@);
    lemma_object_step(m1, ms[1], e1, ",\"session\":"@, "session"@, quoted_spec(session@));
    assert(ms == m2);
    lemma_object_close(payload_fields(kind), e2);
}

/// A redirected worker is recorded with its task and the text it was sent.
#[verifier::spinoff_prover]
pub proof fn lemma_worker_redirected_payload(
    task: String,
    text: String,
)
    ensures
        payload_spec(FactKind::WorkerRedirected { task, text })
            == "{\"task\":"@ + quoted_spec(task@)
            + ",\"text\":"@ + quoted_spec(text@) + "}"@,
{
    let kind = FactKind::WorkerRedirected { task, text };
    let ms = members(payload_fields(kind));
    let sep = seq![','];
    assert(ms.len() == 2);
    let fields = payload_fields(kind);
    assert("{\"task\":"@ == seq!['{'] + quoted_spec("task"@) + seq![':']) by {
        reveal_strlit("{\"task\":");
        reveal_strlit("task");
        lemma_plain_name_quoted("task"@);
    }
    assert(ms[0] == quoted_spec("task"@) + seq![':'] + quoted_spec(task@)) by {
        assert(fields[0] == ("task"@, quoted_spec(task@)));
    }
    let m1 = seq![ms[0]];
    let e1 = "{\"task\":"@ + quoted_spec(task@);
    lemma_object_first(ms[0], "{\"task\":"@, "task"@, quoted_spec(task@));
    assert(",\"text\":"@ == sep + quoted_spec("text"@) + seq![':']) by {
        reveal_strlit(",\"text\":");
        reveal_strlit("text");
        lemma_plain_name_quoted("text"@);
    }
    assert(ms[1] == quoted_spec("text"@) + seq![':'] + quoted_spec(text@)) by {
        assert(fields[1] == ("text"@, quoted_spec(text@)));
    }
    let m2 = m1.push(ms[1]);
    let e2 = e1 + ",\"text\":"@ + quoted_spec(text@);
    lemma_object_step(m1, ms[1], e1, ",\"text\":"@, "text"@, quoted_spec(text@));
    assert(ms == m2);
    lemma_object_close(payload_fields(kind), e2);
}

/// A change of a worker's liveness is recorded with its task and the new liveness.
#[verifier::spinoff_prover]
pub proof fn lemma_worker_liveness_changed_payload(
    task: String,
    liveness: Liveness,
)
    ensures
        payload_spec(FactKind::WorkerLivenessChanged { task, liveness })
            == "{\"task\":"@ + quoted_spec(task@)
            + ",\"liveness\":"@ + quoted_spec(liveness_name_spec(liveness)) + "}"@,
{
    let kind = FactKind::WorkerLivenessChanged { task, liveness };
    let ms = members(payload_fields(kind));
    let sep = seq![','];
    assert(ms.len() == 2);
    let fields = payload_fields(kind);
    assert("{\"task\":"@ == seq!['{'] + quoted_spec("task"@) + seq![':']) by {
        reveal_strlit("{\"task\":");
        reveal_strlit("task");
        lemma_plain_name_quoted("task"@);
    }
    assert(ms[0] == quoted_spec("task"@) + seq![':'] + quoted_spec(task@)) by {
        assert(fields[0] == ("task"@, quoted_spec(task@)));
    }
    let m1 = seq![ms[0]];
    let e1 = "{\"task\":"@ + quoted_spec(task@);
    lemma_object_first(ms[0], "{\"task\":"@, "task"@, quoted_spec(task@));
    assert(",\"liveness\":"@ == sep + quoted_spec("liveness"@) + seq![':']) by {
        reveal_strlit(",\"liveness\":");
        reveal_strlit("liveness");
        lemma_plain_name_quoted("liveness"@);
    }
    assert(ms[1] == quoted_spec("liveness"@) + seq![':'] + quoted_spec(liveness_name_spec(liveness))) by {
        assert(fields[1] == ("liveness"@, quoted_spec(liveness_name_spec(liveness))));
    }
    let m2 = m1.push(ms[1]);
    let e2 = e1 + ",\"liveness\":"@ + quoted_spec(liveness_name_spec(liveness));
    lemma_object_step(m1, ms[1], e1, ",\"liveness\":"@, "liveness"@, quoted_spec(liveness_name_spec(liveness)));
    assert(ms == m2);
    lemma_object_close(payload_fields(kind), e2);
}

/// A recorded submission is recorded with its task, its summary and its artifacts, in
/// that order.
#[verifier::spinoff_prover]
pub proof fn lemma_worker_submission_recorded_payload(
    task: String,
    summary: String,
    artifacts: Vec<String>,
)
    ensures
        payload_spec(FactKind::WorkerSubmissionRecorded { task, summary, artifacts })
            == "{\"task\":"@ + quoted_spec(task@)
            + ",\"summary\":"@ + quoted_spec(summary@)
            + ",\"artifacts\":"@ + strings_json(artifacts@) + "}"@,
{
    let kind = FactKind::WorkerSubmissionRecorded { task, summary, artifacts };
    let ms = members(payload_fields(kind));
    let sep = seq![','];
    assert(ms.len() == 3);
    let fields = payload_fields(kind);
    assert("{\"task\":"@ == seq!['{'] + quoted_spec("task"@) + seq![':']) by {
        reveal_strlit("{\"task\":");
        reveal_strlit("task");
        lemma_plain_name_quoted("task"@);
    }
    assert(ms[0] == quoted_spec("task"@) + seq![':'] + quoted_spec(task@)) by {
        assert(fields[0] == ("task"@, quoted_spec(task@)));
    }
    let m1 = seq![ms[0]];
    let e1 = "{\"task\":"@ + quoted_spec(task@);
    lemma_object_first(ms[0], "{\"task\":"@, "task"@, quoted_spec(task@));
    assert(",\"summary\":"@ == sep + quoted_spec("summary"@) + seq![':']) by {
        reveal_strlit(",\"summary\":");
        reveal_strlit("summary");
        lemma_plain_name_quoted("summary"@);
    }
    assert(ms[1] == quoted_spec("summary"@) + seq![':'] + quoted_spec(summary@)) by {
        assert(fields[1] == ("summary"@, quoted_spec(summary@)));
    }
    let m2 = m1.push(ms[1]);
    let e2 = e1 + ",\"summary\":"@ + quoted_spec(summary@);
    lemma_object_step(m1, ms[1], e1, ",\"summary\":"@, "summary"@, quoted_spec(summary@));
    assert(",\"artifacts\":"@ == sep + quoted_spec("artifacts"@) + seq![':']) by {
        reveal_strlit(",\"artifacts\":");
        reveal_strlit("artifacts");
        lemma_plain_name_quoted("artifacts"@);
    }
    assert(ms[2] == quoted_spec("artifacts"@) + seq![':'] + strings_json(artifacts@)) by {
        assert(fields[2] == ("artifacts"@, strings_json(artifacts@)));
    }
    let m3 = m2.push(ms[2]);
    let e3 = e2 + ",\"artifacts\":"@ + strings_json(artifacts@);
    lemma_object_step(m2, ms[2], e2, ",\"artifacts\":"@, "artifacts"@, strings_json(artifacts@));
    assert(ms == m3);
    lemma_object_close(payload_fields(kind), e3);
}

/// A submission is recorded with its task and its commit.
#[verifier::spinoff_prover]
pub proof fn lemma_worker_submitted_payload(
    task: String,
    commit: String,
)
    ensures
        payload_spec(FactKind::WorkerSubmitted { task, commit })
            == "{\"task\":"@ + quoted_spec(task@)
            + ",\"commit\":"@ + quoted_spec(commit@) + "}"@,
{
    let kind = FactKind::WorkerSubmitted { task, commit };
    let ms = members(payload_fields(kind));
    let sep = seq![','];
    assert(ms.len() == 2);
    let fields = payload_fields(kind);
    assert("{\"task\":"@ == seq!['{'] + quoted_spec("task"@) + seq![':']) by {
        reveal_strlit("{\"task\":");
        reveal_strlit("task");
        lemma_plain_name_quoted("task"@);
    }
    assert(ms[0] == quoted_spec("task"@) + seq![':'] + quoted_spec(task@)) by {
        assert(fields[0] == ("task"@, quoted_spec(task@)));
    }
    let m1 = seq![ms[0]];
    let e1 = "{\"task\":"@ + quoted_spec(task@);
    lemma_object_first(ms[0], "{\"task\":"@, "task"@, quoted_spec(task@));
    assert(",\"commit\":"@ == sep + quoted_spec("commit"@) + seq![':']) by {
        reveal_strlit(",\"commit\":");
        reveal_strlit("commit");
        lemma_plain_name_quoted("commit"@);
    }
    assert(ms[1] == quoted_spec("commit"@) + seq![':'] + quoted_spec(commit@)) by {
        assert(fields[1] == ("commit"@, quoted_spec(commit@)));
    }
    let m2 = m1.push(ms[1]);
    let e2 = e1 + ",\"commit\":"@ + quoted_spec(commit@);
    lemma_object_step(m1, ms[1], e1, ",\"commit\":"@, "commit"@, quoted_spec(commit@));
    assert(ms == m2);
    lemma_object_close(payload_fields(kind), e2);
}

/// A started validation is recorded with its task and the commit it validates.
#[verifier::spinoff_prover]
pub proof fn lemma_validation_started_payload(
    task: String,
    commit: String,
)
    ensures
        payload_spec(FactKind::ValidationStarted { task, commit })
            == "{\"task\":"@ + quoted_spec(task@)
            + ",\"commit\":"@ + quoted_spec(commit@) + "}"@,
{
    let kind = FactKind::ValidationStarted { task, commit };
    let ms = members(payload_fields(kind));
    let sep = seq![','];
    assert(ms.len() == 2);
    let fields = payload_fields(kind);
    assert("{\"task\":"@ == seq!['{'] + quoted_spec("task"@) + seq![':']) by {
        reveal_strlit("{\"task\":");
        reveal_strlit("task");
        lemma_plain_name_quoted("task"@);
    }
    assert(ms[0] == quoted_spec("task"@) + seq![':'] + quoted_spec(task@)) by {
        assert(fields[0] == ("task"@, quoted_spec(task@)));
    }
    let m1 = seq![ms[0]];
    let e1 = "{\"task\":"@ + quoted_spec(task@);
    lemma_object_first(ms[0], "{\"task\":"@, "task"@, quoted_spec(task@));
    assert(",\"commit\":"@ == sep + quoted_spec("commit"@) + seq![':']) by {
        reveal_strlit(",\"commit\":");
        reveal_strlit("commit");
        lemma_plain_name_quoted("commit"@);
    }
    assert(ms[1] == quoted_spec("commit"@) + seq![':'] + quoted_spec(commit@)) by {
        assert(fields[1] == ("commit"@, quoted_spec(commit@)));
    }
    let m2 = m1.push(ms[1]);
    let e2 = e1 + ",\"commit\":"@ + quoted_spec(commit@);
    lemma_object_step(m1, ms[1], e1, ",\"commit\":"@, "commit"@, quoted_spec(commit@));
    assert(ms == m2);
    lemma_object_close(payload_fields(kind), e2);
}

/// A finished validation is recorded with its task, command, commit, exit code, duration in
/// milliseconds and output tail, in that order.
#[verifier::spinoff_prover]
#[verifier::rlimit(100)]
pub proof fn lemma_validation_finished_payload(
    task: String,
    command: String,
    commit: String,
    exit_code: i32,
    duration_millis: u64,
    output_tail: String,
)
    ensures
        payload_spec(FactKind::ValidationFinished { task, command, commit, exit_code, duration_millis, output_tail })
            == "{\"task\":"@ + quoted_spec(task@)
            + ",\"command\":"@ + quoted_spec(command@)
            + ",\"commit\":"@ + quoted_spec(commit@)
            + ",\"exit_code\":"@ + signed_decimal(exit_code as int)
            + ",\"duration_millis\":"@ + decimal(duration_millis as nat)
            + ",\"output_tail\":"@ + quoted_spec(output_tail@) + "}"@,
{
    let kind = FactKind::ValidationFinished { task, command, commit, exit_code, duration_millis, output_tail };
    let ms = members(payload_fields(kind));
    let sep = seq![','];
    assert(ms.len() == 6);
    let fields = payload_fields(kind);
    assert("{\"task\":"@ == seq!['{'] + quoted_spec("task"@) + seq![':']) by {
        reveal_strlit("{\"task\":");
        reveal_strlit("task");
        lemma_plain_name_quoted("task"@);
    }
    assert(ms[0] == quoted_spec("task"@) + seq![':'] + quoted_spec(task@)) by {
        assert(fields[0] == ("task"@, quoted_spec(task@)));
    }
    let m1 = seq![ms[0]];
    let e1 = "{\"task\":"@ + quoted_spec(task@);
    lemma_object_first(ms[0], "{\"task\":"@, "task"@, quoted_spec(task@));
    assert(",\"command\":"@ == sep + quoted_spec("command"@) + seq![':']) by {
        reveal_strlit(",\"command\":");
        reveal_strlit("command");
        lemma_plain_name_quoted("command"@);
    }
    assert(ms[1] == quoted_spec("command"@) + seq![':'] + quoted_spec(command@)) by {
        assert(fields[1] == ("command"@, quoted_spec(command@)));
    }
    let m2 = m1.push(ms[1]);
    let e2 = e1 + ",\"command\":"@ + quoted_spec(command@);
    lemma_object_step(m1, ms[1], e1, ",\"command\":"@, "command"@, quoted_spec(command@));
    assert(",\"commit\":"@ == sep + quoted_spec("commit"@) + seq![':']) by {
        reveal_strlit(",\"commit\":");
        reveal_strlit("commit");
        lemma_plain_name_quoted("commit"@);
    }
    assert(ms[2] == quoted_spec("commit"@) + seq![':'] + quoted_spec(commit@)) by {
        assert(fields[2] == ("commit"@, quoted_spec(commit@)));
    }
    let m3 = m2.push(ms[2]);
    let e3 = e2 + ",\"commit\":"@ + quoted_spec(commit@);
    lemma_object_step(m2, ms[2], e2, ",\"commit\":"@, "commit"@, quoted_spec(commit@));
    assert(",\"exit_code\":"@ == sep + quoted_spec("exit_code"@) + seq![':']) by {
        reveal_strlit(",\"exit_code\":");
        reveal_strlit("exit_code");
        lemma_plain_name_quoted("exit_code"@);
    }
    assert(ms[3] == quoted_spec("exit_code"@) + seq![':'] + signed_decimal(exit_code as int)) by {
        assert(fields[3] == ("exit_code"@, signed_decimal(exit_code as int)));
    }
    let m4 = m3.push(ms[3]);
    let e4 = e3 + ",\"exit_code\":"@ + signed_decimal(exit_code as int);
    lemma_object_step(m3, ms[3], e3, ",\"exit_code\":"@, "exit_code"@, signed_decimal(exit_code as int));
    assert(",\"duration_millis\":"@ == sep + quoted_spec("duration_millis"@) + seq![':']) by {
        reveal_strlit(",\"duration_millis\":");
        reveal_strlit("duration_millis");
        lemma_plain_name_quoted("duration_millis"@);
    }
    assert(ms[4] == quoted_spec("duration_millis"@) + seq![':'] + decimal(duration_millis as nat)) by {
        assert(fields[4] == ("duration_millis"@, decimal(duration_millis as nat)));
    }
    let m5 = m4.push(ms[4]);
    let e5 = e4 + ",\"duration_millis\":"@ + decimal(duration_millis as nat);
    lemma_object_step(m4, ms[4], e4, ",\"duration_millis\":"@, "duration_millis"@, decimal(duration_millis as nat));
    assert(",\"output_tail\":"@ == sep + quoted_spec("output_tail"@) + seq![':']) by {
        reveal_strlit(",\"output_tail\":");
        reveal_strlit("output_tail");
        lemma_plain_name_quoted("output_tail"@);
    }
    assert(ms[5] == quoted_spec("output_tail"@) + seq![':'] + quoted_spec(output_tail@)) by {
        assert(fields[5] == ("output_tail"@, quoted_spec(output_tail@)));
    }
    let m6 = m5.push(ms[5]);
    let e6 = e5 + ",\"output_tail\":"@ + quoted_spec(output_tail@);
    lemma_object_step(m5, ms[5], e5, ",\"output_tail\":"@, "output_tail"@, quoted_spec(output_tail@));
    assert(ms == m6);
    lemma_object_close(payload_fields(kind), e6);
}

/// An acquired worktree is recorded with its task, lease, baseline and included
/// dependencies, in that order.
#[verifier::spinoff_prover]
#[verifier::rlimit(100)]
pub proof fn lemma_worktree_acquired_payload(
    task: String,
    lease: String,
    baseline: Baseline,
    included: Vec<Dependency>,
)
    ensures
        payload_spec(FactKind::WorktreeAcquired { task, lease, baseline, included })
            == "{\"task\":"@ + quoted_spec(task@)
            + ",\"lease\":"@ + quoted_spec(lease@)
            + ",\"baseline\":"@ + baseline_json(baseline)
            + ",\"included\":"@ + dependencies_json(included@) + "}"@,
{
    let kind = FactKind::WorktreeAcquired { task, lease, baseline, included };
    let ms = members(payload_fields(kind));
    let sep = seq![','];
    assert(ms.len() == 4);
    let fields = payload_fields(kind);
    assert("{\"task\":"@ == seq!['{'] + quoted_spec("task"@) + seq![':']) by {
        reveal_strlit("{\"task\":");
        reveal_strlit("task");
        lemma_plain_name_quoted("task"@);
    }
    assert(ms[0] == quoted_spec("task"@) + seq![':'] + quoted_spec(task@)) by {
        assert(fields[0] == ("task"@, quoted_spec(task@)));
    }
    let m1 = seq![ms[0]];
    let e1 = "{\"task\":"@ + quoted_spec(task@);
    lemma_object_first(ms[0], "{\"task\":"@, "task"@, quoted_spec(task@));
    assert(",\"lease\":"@ == sep + quoted_spec("lease"@) + seq![':']) by {
        reveal_strlit(",\"lease\":");
        reveal_strlit("lease");
        lemma_plain_name_quoted("lease"@);
    }
    assert(ms[1] == quoted_spec("lease"@) + seq![':'] + quoted_spec(lease@)) by {
        assert(fields[1] == ("lease"@, quoted_spec(lease@)));
    }
    let m2 = m1.push(ms[1]);
    let e2 = e1 + ",\"lease\":"@ + quoted_spec(lease@);
    lemma_object_step(m1, ms[1], e1, ",\"lease\":"@, "lease"@, quoted_spec(lease@));
    assert(",\"baseline\":"@ == sep + quoted_spec("baseline"@) + seq![':']) by {
        reveal_strlit(",\"baseline\":");
        reveal_strlit("baseline");
        lemma_plain_name_quoted("baseline"@);
    }
    assert(ms[2] == quoted_spec("baseline"@) + seq![':'] + baseline_json(baseline)) by {
        assert(fields[2] == ("baseline"@, baseline_json(baseline)));
    }
    let m3 = m2.push(ms[2]);
    let e3 = e2 + ",\"baseline\":"@ + baseline_json(baseline);
    lemma_object_step(m2, ms[2], e2, ",\"baseline\":"@, "baseline"@, baseline_json(baseline));
    assert(",\"included\":"@ == sep + quoted_spec("included"@) + seq![':']) by {
        reveal_strlit(",\"included\":");
        reveal_strlit("included");
        lemma_plain_name_quoted("included"@);
    }
    assert(ms[3] == quoted_spec("included"@) + seq![':'] + dependencies_json(included@)) by {
        assert(fields[3] == ("included"@, dependencies_json(included@)));
    }
    let m4 = m3.push(ms[3]);
    let e4 = e3 + ",\"included\":"@ + dependencies_json(included@);
    lemma_object_step(m3, ms[3], e3, ",\"included\":"@, "included"@, dependencies_json(included@));
    assert(ms == m4);
    lemma_object_close(payload_fields(kind), e4);
}

/// A pushed branch is recorded with its task and the commit pushed.
#[verifier::spinoff_prover]
pub proof fn lemma_branch_pushed_payload(
    task: String,
    commit: String,
)
    ensures
        payload_spec(FactKind::BranchPushed { task, commit })
            == "{\"task\":"@ + quoted_spec(task@)
            + ",\"commit\":"@ + quoted_spec(commit@) + "}"@,
{
    let kind = FactKind::BranchPushed { task, commit };
    let ms = members(payload_fields(kind));
    let sep = seq![','];
    assert(ms.len() == 2);
    let fields = payload_fields(kind);
    assert("{\"task\":"@ == seq!['{'] + quoted_spec("task"@) + seq![':']) by {
        reveal_strlit("{\"task\":");
        reveal_strlit("task");
        lemma_plain_name_quoted("task"@);
    }
    assert(ms[0] == quoted_spec("task"@) + seq![':'] + quoted_spec(task@)) by {
        assert(fields[0] == ("task"@, quoted_spec(task@)));
    }
    let m1 = seq![ms[0]];
    let e1 = "{\"task\":"@ + quoted_spec(task@);
    lemma_object_first(ms[0], "{\"task\":"@, "task"@, quoted_spec(task@));
    assert(",\"commit\":"@ == sep + quoted_spec("commit"@) + seq![':']) by {
        reveal_strlit(",\"commit\":");
        reveal_strlit("commit");
        lemma_plain_name_quoted("commit"@);
    }
    assert(ms[1] == quoted_spec("commit"@) + seq![':'] + quoted_spec(commit@)) by {
        assert(fields[1] == ("commit"@, quoted_spec(commit@)));
    }
    let m2 = m1.push(ms[1]);
    let e2 = e1 + ",\"commit\":"@ + quoted_spec(commit@);
    lemma_object_step(m1, ms[1], e1, ",\"commit\":"@, "commit"@, quoted_spec(commit@));
    assert(ms == m2);
    lemma_object_close(payload_fields(kind), e2);
}

/// An opened pull request is recorded with its task, its number and its URL, in that
/// order.
#[verifier::spinoff_prover]
pub proof fn lemma_pull_request_opened_payload(
    task: String,
    number: u64,
    url: String,
)
    ensures
        payload_spec(FactKind::PullRequestOpened { task, number, url })
            == "{\"task\":"@ + quoted_spec(task@)
            + ",\"number\":"@ + decimal(number as nat)
            + ",\"url\":"@ + quoted_spec(url@) + "}"@,
{
    let kind = FactKind::PullRequestOpened { task, number, url };
    let ms = members(payload_fields(kind));
    let sep = seq![','];
    assert(ms.len() == 3);
    let fields = payload_fields(kind);
    assert("{\"task\":"@ == seq!['{'] + quoted_spec("task"@) + seq![':']) by {
        reveal_strlit("{\"task\":");
        reveal_strlit("task");
        lemma_plain_name_quoted("task"@);
    }
    assert(ms[0] == quoted_spec("task"@) + seq![':'] + quoted_spec(task@)) by {
        assert(fields[0] == ("task"@, quoted_spec(task@)));
    }
    let m1 = seq![ms[0]];
    let e1 = "{\"task\":"@ + quoted_spec(task@);
    lemma_object_first(ms[0], "{\"task\":"@, "task"@, quoted_spec(task@));
    assert(",\"number\":"@ == sep + quoted_spec("number"@) + seq![':']) by {
        reveal_strlit(",\"number\":");
        reveal_strlit("number");
        lemma_plain_name_quoted("number"@);
    }
    assert(ms[1] == quoted_spec("number"@) + seq![':'] + decimal(number as nat)) by {
        assert(fields[1] == ("number"@, decimal(number as nat)));
    }
    let m2 = m1.push(ms[1]);
    let e2 = e1 + ",\"number\":"@ + decimal(number as nat);
    lemma_object_step(m1, ms[1], e1, ",\"number\":"@, "number"@, decimal(number as nat));
    assert(",\"url\":"@ == sep + quoted_spec("url"@) + seq![':']) by {
        reveal_strlit(",\"url\":");
        reveal_strlit("url");
        lemma_plain_name_quoted("url"@);
    }
    assert(ms[2] == quoted_spec("url"@) + seq![':'] + quoted_spec(url@)) by {
        assert(fields[2] == ("url"@, quoted_spec(url@)));
    }
    let m3 = m2.push(ms[2]);
    let e3 = e2 + ",\"url\":"@ + quoted_spec(url@);
    lemma_object_step(m2, ms[2], e2, ",\"url\":"@, "url"@, quoted_spec(url@));
    assert(ms == m3);
    lemma_object_close(payload_fields(kind), e3);
}

/// A change of a pull request's checks is recorded with its task and the new checks.
#[verifier::spinoff_prover]
pub proof fn lemma_pull_request_checks_changed_payload(
    task: String,
    checks: Checks,
)
    ensures
        payload_spec(FactKind::PullRequestChecksChanged { task, checks })
            == "{\"task\":"@ + quoted_spec(task@)
            + ",\"checks\":"@ + quoted_spec(checks_name_spec(checks)) + "}"@,
{
    let kind = FactKind::PullRequestChecksChanged { task, checks };
    let ms = members(payload_fields(kind));
    let sep = seq![','];
    assert(ms.len() == 2);
    let fields = payload_fields(kind);
    assert("{\"task\":"@ == seq!['{'] + quoted_spec("task"@) + seq![':']) by {
        reveal_strlit("{\"task\":");
        reveal_strlit("task");
        lemma_plain_name_quoted("task"@);
    }
    assert(ms[0] == quoted_spec("task"@) + seq![':'] + quoted_spec(task@)) by {
        assert(fields[0] == ("task"@, quoted_spec(task@)));
    }
    let m1 = seq![ms[0]];
    let e1 = "{\"task\":"@ + quoted_spec(task@);
    lemma_object_first(ms[0], "{\"task\":"@, "task"@, quoted_spec(task@));
    assert(",\"checks\":"@ == sep + quoted_spec("checks"@) + seq![':']) by {
        reveal_strlit(",\"checks\":");
        reveal_strlit("checks");
        lemma_plain_name_quoted("checks"@);
    }
    assert(ms[1] == quoted_spec("checks"@) + seq![':'] + quoted_spec(checks_name_spec(checks))) by {
        assert(fields[1] == ("checks"@, quoted_spec(checks_name_spec(checks))));
    }
    let m2 = m1.push(ms[1]);
    let e2 = e1 + ",\"checks\":"@ + quoted_spec(checks_name_spec(checks));
    lemma_object_step(m1, ms[1], e1, ",\"checks\":"@, "checks"@, quoted_spec(checks_name_spec(checks)));
    assert(ms == m2);
    lemma_object_close(payload_fields(kind), e2);
}

/// A merged pull request is recorded with its task and the merge commit.
#[verifier::spinoff_prover]
pub proof fn lemma_pull_request_merged_payload(
    task: String,
    commit: String,
)
    ensures
        payload_spec(FactKind::PullRequestMerged { task, commit })
            == "{\"task\":"@ + quoted_spec(task@)
            + ",\"commit\":"@ + quoted_spec(commit@) + "}"@,
{
    let kind = FactKind::PullRequestMerged { task, commit };
    let ms = members(payload_fields(kind));
    let sep = seq![','];
    assert(ms.len() == 2);
    let fields = payload_fields(kind);
    assert("{\"task\":"@ == seq!['{'] + quoted_spec("task"@) + seq![':']) by {
        reveal_strlit("{\"task\":");
        reveal_strlit("task");
        lemma_plain_name_quoted("task"@);
    }
    assert(ms[0] == quoted_spec("task"@) + seq![':'] + quoted_spec(task@)) by {
        assert(fields[0] == ("task"@, quoted_spec(task@)));
    }
    let m1 = seq![ms[0]];
    let e1 = "{\"task\":"@ + quoted_spec(task@);
    lemma_object_first(ms[0], "{\"task\":"@, "task"@, quoted_spec(task@));
    assert(",\"commit\":"@ == sep + quoted_spec("commit"@) + seq![':']) by {
        reveal_strlit(",\"commit\":");
        reveal_strlit("commit");
        lemma_plain_name_quoted("commit"@);
    }
    assert(ms[1] == quoted_spec("commit"@) + seq![':'] + quoted_spec(commit@)) by {
        assert(fields[1] == ("commit"@, quoted_spec(commit@)));
    }
    let m2 = m1.push(ms[1]);
    let e2 = e1 + ",\"commit\":"@ + quoted_spec(commit@);
    lemma_object_step(m1, ms[1], e1, ",\"commit\":"@, "commit"@, quoted_spec(commit@));
    assert(ms == m2);
    lemma_object_close(payload_fields(kind), e2);
}

/// A refused merge is recorded with its task, commit, base, checks and reason, in that
/// order.
#[verifier::spinoff_prover]
#[verifier::rlimit(100)]
pub proof fn lemma_pull_request_merge_refused_payload(
    task: String,
    commit: String,
    base: String,
    checks: Checks,
    reason: String,
)
    ensures
        payload_spec(FactKind::PullRequestMergeRefused { task, commit, base, checks, reason })
            == "{\"task\":"@ + quoted_spec(task@)
            + ",\"commit\":"@ + quoted_spec(commit@)
            + ",\"base\":"@ + quoted_spec(base@)
            + ",\"checks\":"@ + quoted_spec(checks_name_spec(checks))
            + ",\"reason\":"@ + quoted_spec(reason@) + "}"@,
{
    let kind = FactKind::PullRequestMergeRefused { task, commit, base, checks, reason };
    let ms = members(payload_fields(kind));
    let sep = seq![','];
    assert(ms.len() == 5);
    let fields = payload_fields(kind);
    assert("{\"task\":"@ == seq!['{'] + quoted_spec("task"@) + seq![':']) by {
        reveal_strlit("{\"task\":");
        reveal_strlit("task");
        lemma_plain_name_quoted("task"@);
    }
    assert(ms[0] == quoted_spec("task"@) + seq![':'] + quoted_spec(task@)) by {
        assert(fields[0] == ("task"@, quoted_spec(task@)));
    }
    let m1 = seq![ms[0]];
    let e1 = "{\"task\":"@ + quoted_spec(task@);
    lemma_object_first(ms[0], "{\"task\":"@, "task"@, quoted_spec(task@));
    assert(",\"commit\":"@ == sep + quoted_spec("commit"@) + seq![':']) by {
        reveal_strlit(",\"commit\":");
        reveal_strlit("commit");
        lemma_plain_name_quoted("commit"@);
    }
    assert(ms[1] == quoted_spec("commit"@) + seq![':'] + quoted_spec(commit@)) by {
        assert(fields[1] == ("commit"@, quoted_spec(commit@)));
    }
    let m2 = m1.push(ms[1]);
    let e2 = e1 + ",\"commit\":"@ + quoted_spec(commit@);
    lemma_object_step(m1, ms[1], e1, ",\"commit\":"@, "commit"@, quoted_spec(commit@));
    assert(",\"base\":"@ == sep + quoted_spec("base"@) + seq![':']) by {
        reveal_strlit(",\"base\":");
        reveal_strlit("base");
        lemma_plain_name_quoted("base"@);
    }
    assert(ms[2] == quoted_spec("base"@) + seq![':'] + quoted_spec(base@)) by {
        assert(fields[2] == ("base"@, quoted_spec(base@)));
    }
    let m3 = m2.push(ms[2]);
    let e3 = e2 + ",\"base\":"@ + quoted_spec(base@);
    lemma_object_step(m2, ms[2], e2, ",\"base\":"@, "base"@, quoted_spec(base@));
    assert(",\"checks\":"@ == sep + quoted_spec("checks"@) + seq![':']) by {
        reveal_strlit(",\"checks\":");
        reveal_strlit("checks");
        lemma_plain_name_quoted("checks"@);
    }
    assert(ms[3] == quoted_spec("checks"@) + seq![':'] + quoted_spec(checks_name_spec(checks))) by {
        assert(fields[3] == ("checks"@, quoted_spec(checks_name_spec(checks))));
    }
    let m4 = m3.push(ms[3]);
    let e4 = e3 + ",\"checks\":"@ + quoted_spec(checks_name_spec(checks));
    lemma_object_step(m3, ms[3], e3, ",\"checks\":"@, "checks"@, quoted_spec(checks_name_spec(checks)));
    assert(",\"reason\":"@ == sep + quoted_spec("reason"@) + seq![':']) by {
        reveal_strlit(",\"reason\":");
        reveal_strlit("reason");
        lemma_plain_name_quoted("reason"@);
    }
    assert(ms[4] == quoted_spec("reason"@) + seq![':'] + quoted_spec(reason@)) by {
        assert(fields[4] == ("reason"@, quoted_spec(reason@)));
    }
    let m5 = m4.push(ms[4]);
    let e5 = e4 + ",\"reason\":"@ + quoted_spec(reason@);
    lemma_object_step(m4, ms[4], e4, ",\"reason\":"@, "reason"@, quoted_spec(reason@));
    assert(ms == m5);
    lemma_object_close(payload_fields(kind), e5);
}

/// A failed push is recorded with its task, the commit and the reason, in that order.
#[verifier::spinoff_prover]
pub proof fn lemma_push_failed_payload(
    task: String,
    commit: String,
    reason: String,
)
    ensures
        payload_spec(FactKind::PushFailed { task, commit, reason })
            == "{\"task\":"@ + quoted_spec(task@)
            + ",\"commit\":"@ + quoted_spec(commit@)
            + ",\"reason\":"@ + quoted_spec(reason@) + "}"@,
{
    let kind = FactKind::PushFailed { task, commit, reason };
    let ms = members(payload_fields(kind));
    let sep = seq![','];
    assert(ms.len() == 3);
    let fields = payload_fields(kind);
    assert("{\"task\":"@ == seq!['{'] + quoted_spec("task"@) + seq![':']) by {
        reveal_strlit("{\"task\":");
        reveal_strlit("task");
        lemma_plain_name_quoted("task"@);
    }
    assert(ms[0] == quoted_spec("task"@) + seq![':'] + quoted_spec(task@)) by {
        assert(fields[0] == ("task"@, quoted_spec(task@)));
    }
    let m1 = seq![ms[0]];
    let e1 = "{\"task\":"@ + quoted_spec(task@);
    lemma_object_first(ms[0], "{\"task\":"@, "task"@, quoted_spec(task@));
    assert(",\"commit\":"@ == sep + quoted_spec("commit"@) + seq![':']) by {
        reveal_strlit(",\"commit\":");
        reveal_strlit("commit");
        lemma_plain_name_quoted("commit"@);
    }
    assert(ms[1] == quoted_spec("commit"@) + seq![':'] + quoted_spec(commit@)) by {
        assert(fields[1] == ("commit"@, quoted_spec(commit@)));
    }
    let m2 = m1.push(ms[1]);
    let e2 = e1 + ",\"commit\":"@ + quoted_spec(commit@);
    lemma_object_step(m1, ms[1], e1, ",\"commit\":"@, "commit"@, quoted_spec(commit@));
    assert(",\"reason\":"@ == sep + quoted_spec("reason"@) + seq![':']) by {
        reveal_strlit(",\"reason\":");
        reveal_strlit("reason");
        lemma_plain_name_quoted("reason"@);
    }
    assert(ms[2] == quoted_spec("reason"@) + seq![':'] + quoted_spec(reason@)) by {
        assert(fields[2] == ("reason"@, quoted_spec(reason@)));
    }
    let m3 = m2.push(ms[2]);
    let e3 = e2 + ",\"reason\":"@ + quoted_spec(reason@);
    lemma_object_step(m2, ms[2], e2, ",\"reason\":"@, "reason"@, quoted_spec(reason@));
    assert(ms == m3);
    lemma_object_close(payload_fields(kind), e3);
}

/// A scheduled rebase is recorded with its task, profile, commit and base, in that order.
#[verifier::spinoff_prover]
#[verifier::rlimit(100)]
pub proof fn lemma_rebase_scheduled_payload(
    task: String,
    profile: String,
    commit: String,
    base: String,
)
    ensures
        payload_spec(FactKind::RebaseScheduled { task, profile, commit, base })
            == "{\"task\":"@ + quoted_spec(task@)
            + ",\"profile\":"@ + quoted_spec(profile@)
            + ",\"commit\":"@ + quoted_spec(commit@)
            + ",\"base\":"@ + quoted_spec(base@) + "}"@,
{
    let kind = FactKind::RebaseScheduled { task, profile, commit, base };
    let ms = members(payload_fields(kind));
    let sep = seq![','];
    assert(ms.len() == 4);
    let fields = payload_fields(kind);
    assert("{\"task\":"@ == seq!['{'] + quoted_spec("task"@) + seq![':']) by {
        reveal_strlit("{\"task\":");
        reveal_strlit("task");
        lemma_plain_name_quoted("task"@);
    }
    assert(ms[0] == quoted_spec("task"@) + seq![':'] + quoted_spec(task@)) by {
        assert(fields[0] == ("task"@, quoted_spec(task@)));
    }
    let m1 = seq![ms[0]];
    let e1 = "{\"task\":"@ + quoted_spec(task@);
    lemma_object_first(ms[0], "{\"task\":"@, "task"@, quoted_spec(task@));
    assert(",\"profile\":"@ == sep + quoted_spec("profile"@) + seq![':']) by {
        reveal_strlit(",\"profile\":");
        reveal_strlit("profile");
        lemma_plain_name_quoted("profile"@);
    }
    assert(ms[1] == quoted_spec("profile"@) + seq![':'] + quoted_spec(profile@)) by {
        assert(fields[1] == ("profile"@, quoted_spec(profile@)));
    }
    let m2 = m1.push(ms[1]);
    let e2 = e1 + ",\"profile\":"@ + quoted_spec(profile@);
    lemma_object_step(m1, ms[1], e1, ",\"profile\":"@, "profile"@, quoted_spec(profile@));
    assert(",\"commit\":"@ == sep + quoted_spec("commit"@) + seq![':']) by {
        reveal_strlit(",\"commit\":");
        reveal_strlit("commit");
        lemma_plain_name_quoted("commit"@);
    }
    assert(ms[2] == quoted_spec("commit"@) + seq![':'] + quoted_spec(commit@)) by {
        assert(fields[2] == ("commit"@, quoted_spec(commit@)));
    }
    let m3 = m2.push(ms[2]);
    let e3 = e2 + ",\"commit\":"@ + quoted_spec(commit@);
    lemma_object_step(m2, ms[2], e2, ",\"commit\":"@, "commit"@, quoted_spec(commit@));
    assert(",\"base\":"@ == sep + quoted_spec("base"@) + seq![':']) by {
        reveal_strlit(",\"base\":");
        reveal_strlit("base");
        lemma_plain_name_quoted("base"@);
    }
    assert(ms[3] == quoted_spec("base"@) + seq![':'] + quoted_spec(base@)) by {
        assert(fields[3] == ("base"@, quoted_spec(base@)));
    }
    let m4 = m3.push(ms[3]);
    let e4 = e3 + ",\"base\":"@ + quoted_spec(base@);
    lemma_object_step(m3, ms[3], e3, ",\"base\":"@, "base"@, quoted_spec(base@));
    assert(ms == m4);
    lemma_object_close(payload_fields(kind), e4);
}

/// A rate-limited provider is recorded with its task and the profile.
#[verifier::spinoff_prover]
pub proof fn lemma_provider_rate_limited_payload(
    task: String,
    profile: String,
)
    ensures
        payload_spec(FactKind::ProviderRateLimited { task, profile })
            == "{\"task\":"@ + quoted_spec(task@)
            + ",\"profile\":"@ + quoted_spec(profile@) + "}"@,
{
    let kind = FactKind::ProviderRateLimited { task, profile };
    let ms = members(payload_fields(kind));
    let sep = seq![','];
    assert(ms.len() == 2);
    let fields = payload_fields(kind);
    assert("{\"task\":"@ == seq!['{'] + quoted_spec("task"@) + seq![':']) by {
        reveal_strlit("{\"task\":");
        reveal_strlit("task");
        lemma_plain_name_quoted("task"@);
    }
    assert(ms[0] == quoted_spec("task"@) + seq![':'] + quoted_spec(task@)) by {
        assert(fields[0] == ("task"@, quoted_spec(task@)));
    }
    let m1 = seq![ms[0]];
    let e1 = "{\"task\":"@ + quoted_spec(task@);
    lemma_object_first(ms[0], "{\"task\":"@, "task"@, quoted_spec(task@));
    assert(",\"profile\":"@ == sep + quoted_spec("profile"@) + seq![':']) by {
        reveal_strlit(",\"profile\":");
        reveal_strlit("profile");
        lemma_plain_name_quoted("profile"@);
    }
    assert(ms[1] == quoted_spec("profile"@) + seq![':'] + quoted_spec(profile@)) by {
        assert(fields[1] == ("profile"@, quoted_spec(profile@)));
    }
    let m2 = m1.push(ms[1]);
    let e2 = e1 + ",\"profile\":"@ + quoted_spec(profile@);
    lemma_object_step(m1, ms[1], e1, ",\"profile\":"@, "profile"@, quoted_spec(profile@));
    assert(ms == m2);
    lemma_object_close(payload_fields(kind), e2);
}

/// A notified event is recorded with its task and the event.
#[verifier::spinoff_prover]
pub proof fn lemma_on_event_notified_payload(
    task: String,
    event: String,
)
    ensures
        payload_spec(FactKind::OnEventNotified { task, event })
            == "{\"task\":"@ + quoted_spec(task@)
            + ",\"event\":"@ + quoted_spec(event@) + "}"@,
{
    let kind = FactKind::OnEventNotified { task, event };
    let ms = members(payload_fields(kind));
    let sep = seq![','];
    assert(ms.len() == 2);
    let fields = payload_fields(kind);
    assert("{\"task\":"@ == seq!['{'] + quoted_spec("task"@) + seq![':']) by {
        reveal_strlit("{\"task\":");
        reveal_strlit("task");
        lemma_plain_name_quoted("task"@);
    }
    assert(ms[0] == quoted_spec("task"@) + seq![':'] + quoted_spec(task@)) by {
        assert(fields[0] == ("task"@, quoted_spec(task@)));
    }
    let m1 = seq![ms[0]];
    let e1 = "{\"task\":"@ + quoted_spec(task@);
    lemma_object_first(ms[0], "{\"task\":"@, "task"@, quoted_spec(task@));
    assert(",\"event\":"@ == sep + quoted_spec("event"@) + seq![':']) by {
        reveal_strlit(",\"event\":");
        reveal_strlit("event");
        lemma_plain_name_quoted("event"@);
    }
    assert(ms[1] == quoted_spec("event"@) + seq![':'] + quoted_spec(event@)) by {
        assert(fields[1] == ("event"@, quoted_spec(event@)));
    }
    let m2 = m1.push(ms[1]);
    let e2 = e1 + ",\"event\":"@ + quoted_spec(event@);
    lemma_object_step(m1, ms[1], e1, ",\"event\":"@, "event"@, quoted_spec(event@));
    assert(ms == m2);
    lemma_object_close(payload_fields(kind), e2);
}

/// A started coordinator session is recorded with the session alone.
#[verifier::spinoff_prover]
pub proof fn lemma_coordinator_session_started_payload(
    session: String,
)
    ensures
        payload_spec(FactKind::CoordinatorSessionStarted { session })
            == "{\"session\":"@ + quoted_spec(session@) + "}"@,
{
    let kind = FactKind::CoordinatorSessionStarted { session };
    let ms = members(payload_fields(kind));
    let sep = seq![','];
    assert(ms.len() == 1);
    let fields = payload_fields(kind);
    assert("{\"session\":"@ == seq!['{'] + quoted_spec("session"@) + seq![':']) by {
        reveal_strlit("{\"session\":");
        reveal_strlit("session");
        lemma_plain_name_quoted("session"@);
    }
    assert(ms[0] == quoted_spec("session"@) + seq![':'] + quoted_spec(session@)) by {
        assert(fields[0] == ("session"@, quoted_spec(session@)));
    }
    let m1 = seq![ms[0]];
    let e1 = "{\"session\":"@ + quoted_spec(session@);
    lemma_object_first(ms[0], "{\"session\":"@, "session"@, quoted_spec(session@));
    assert(ms == m1);
    lemma_object_close(payload_fields(kind), e1);
}

/// A measured coordinator context is recorded with its token count alone.
#[verifier::spinoff_prover]
pub proof fn lemma_coordinator_context_measured_payload(
    tokens: u64,
)
    ensures
        payload_spec(FactKind::CoordinatorContextMeasured { tokens })
            == "{\"tokens\":"@ + decimal(tokens as nat) + "}"@,
{
    let kind = FactKind::CoordinatorContextMeasured { tokens };
    let ms = members(payload_fields(kind));
    let sep = seq![','];
    assert(ms.len() == 1);
    let fields = payload_fields(kind);
    assert("{\"tokens\":"@ == seq!['{'] + quoted_spec("tokens"@) + seq![':']) by {
        reveal_strlit("{\"tokens\":");
        reveal_strlit("tokens");
        lemma_plain_name_quoted("tokens"@);
    }
    assert(ms[0] == quoted_spec("tokens"@) + seq![':'] + decimal(tokens as nat)) by {
        assert(fields[0] == ("tokens"@, decimal(tokens as nat)));
    }
    let m1 = seq![ms[0]];
    let e1 = "{\"tokens\":"@ + decimal(tokens as nat);
    lemma_object_first(ms[0], "{\"tokens\":"@, "tokens"@, decimal(tokens as nat));
    assert(ms == m1);
    lemma_object_close(payload_fields(kind), e1);
}

/// A fact that carries nothing but its task is recorded as `{"task":…}`; a fact that
/// carries nothing (a restart of the daemon, a poll) is recorded as `{}`.
pub proof fn lemma_bare_payloads(kind: FactKind)
    ensures
        match kind {
            FactKind::TaskReleased { task }
            | FactKind::TaskApproved { task }
            | FactKind::TaskCancelled { task }
            | FactKind::TaskRetried { task }
            | FactKind::TaskAcknowledged { task }
            | FactKind::WorktreeAcquireRequested { task }
            | FactKind::WorkerTurnLaunchRequested { task }
            | FactKind::WorkerTurnResumeRequested { task }
            | FactKind::WorkerTurnUnresolved { task }
            | FactKind::WorkerTurnEnded { task }
            | FactKind::PullRequestClosedUnmerged { task }
            | FactKind::RunDurationExceeded { task }
            | FactKind::RetryExhausted { task } => payload_spec(kind) == "{\"task\":"@ + quoted_spec(task@) + "}"@,
            FactKind::DaemonRestarted | FactKind::Polled => payload_spec(kind) == "{}"@,
            _ => true,
        },
{
    reveal_strlit("task");
    reveal_strlit("{\"task\":");
    reveal_strlit("}");
    reveal_strlit("{}");
    lemma_plain_name_quoted("task"@);
    let ms = members(payload_fields(kind));
    assert(join_spec(Seq::<Seq<char>>::empty(), seq![',']) == Seq::<char>::empty());
    if ms.len() == 1 {
        assert(join_spec(ms, seq![',']) == ms[0]);
    }
    if ms.len() == 0 {
        assert(ms == Seq::<Seq<char>>::empty());
    }
    assert(payload_spec(kind) =~= match kind {
        FactKind::TaskReleased { task }
        | FactKind::TaskApproved { task }
        | FactKind::TaskCancelled { task }
        | FactKind::TaskRetried { task }
        | FactKind::TaskAcknowledged { task }
        | FactKind::WorktreeAcquireRequested { task }
        | FactKind::WorkerTurnLaunchRequested { task }
        | FactKind::WorkerTurnResumeRequested { task }
        | FactKind::WorkerTurnUnresolved { task }
        | FactKind::WorkerTurnEnded { task }
        | FactKind::PullRequestClosedUnmerged { task }
        | FactKind::RunDurationExceeded { task }
        | FactKind::RetryExhausted { task } => "{\"task\":"@ + quoted_spec(task@) + "}"@,
        FactKind::DaemonRestarted | FactKind::Polled => "{}"@,
        _ => payload_spec(kind),
    });
}

} // verus!
