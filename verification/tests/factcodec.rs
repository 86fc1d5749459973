use depotd::error::Error;
use depotd::adapters::forge::Checks;
use depotd::commands::Dependency;
use depotd::factcodec::{
    array, boolean, encode_payload, kind_name, liveness_name, object, optional, payload_field,
    quoted, task_field,
};
use depotd::facts::{Baseline, FactKind, Liveness, Resolution};
use depotd::names::{AnsweredBy, Role};
use depotd::vocabulary::{fact_tag, fact_task, FactTag};

#[test]
fn strings_are_quoted_with_json_escapes() {
    assert_eq!(quoted("plain"), "\"plain\"");
    assert_eq!(quoted("a\"b\\c"), "\"a\\\"b\\\\c\"");
    assert_eq!(quoted("l1\nl2\r\t"), "\"l1\\nl2\\r\\t\"");
    assert_eq!(quoted("\u{1}\u{7f}\u{9f}"), "\"\\u0001\\u007f\\u009f\"");
    assert_eq!(quoted("é"), "\"é\"");
}

#[test]
fn quoted_strings_read_back_through_serde_json() {
    for text in ["", "x", "a\"b", "tab\there", "\u{1b}[0m", "ünï"] {
        let parsed: String = serde_json::from_str(&quoted(text)).unwrap();
        assert_eq!(parsed, text);
    }
}

#[test]
fn objects_and_arrays_join_their_members() {
    assert_eq!(object(vec![]), "{}");
    assert_eq!(
        object(vec![("a", "1".to_string()), ("b\"", quoted("x"))]),
        "{\"a\":1,\"b\\\"\":\"x\"}"
    );
    assert_eq!(array(vec![]), "[]");
    assert_eq!(array(vec!["1".to_string(), "true".to_string()]), "[1,true]");
    assert_eq!(boolean(true), "true");
    assert_eq!(boolean(false), "false");
    assert_eq!(optional(None), "null");
    assert_eq!(optional(Some("3".to_string())), "3");
    assert_eq!(task_field("t-1"), "{\"task\":\"t-1\"}");
}

#[test]
fn a_payload_field_is_read_back() {
    assert_eq!(payload_field(&task_field("t-9"), "task"), Ok("t-9".to_string()));
    assert_eq!(
        payload_field("{\"task\":3}", "task"),
        Err(Error::Schema("a fact payload carries no task".to_string()))
    );
    assert!(matches!(payload_field("{", "task"), Err(Error::Schema(m)) if !m.is_empty()));
}

fn dependency(task: &str, commit: &str) -> Dependency {
    Dependency {
        task: task.to_string(),
        commit: commit.to_string(),
    }
}

#[test]
fn a_proposal_records_every_field_in_order() {
    let kind = FactKind::TaskProposed {
        task: "t-3".to_string(),
        title: "Fix \"quotes\"".to_string(),
        intent: "why\nnot".to_string(),
        role: Role::Fix,
        dispatch_profile: Some("fast".to_string()),
        dependencies: vec![dependency("t-1", "abc"), dependency("t-2", "def")],
        base_dependency: None,
        hold_pr: true,
    };
    assert_eq!(
        encode_payload(&kind),
        "{\"task\":\"t-3\",\"title\":\"Fix \\\"quotes\\\"\",\"intent\":\"why\\nnot\",\"role\":\"fix\",\"dispatch_profile\":\"fast\",\"dependencies\":[{\"task\":\"t-1\",\"commit\":\"abc\"},{\"task\":\"t-2\",\"commit\":\"def\"}],\"base_dependency\":null,\"hold_pr\":true}"
    );
    assert_eq!(kind_name(&kind), "task_proposed");
    assert_eq!(fact_task(&kind), Some("t-3".to_string()));
}

#[test]
fn task_facts_carry_just_their_task() {
    let kind = FactKind::TaskRetried {
        task: "t-9".to_string(),
    };
    assert_eq!(encode_payload(&kind), "{\"task\":\"t-9\"}");
    assert_eq!(encode_payload(&kind), task_field("t-9"));
    assert_eq!(fact_tag(&kind), FactTag::TaskRetried);
}

#[test]
fn numbers_and_names_are_written_bare_and_quoted() {
    let finished = FactKind::ValidationFinished {
        task: "t-1".to_string(),
        command: "cargo test".to_string(),
        commit: "abc".to_string(),
        exit_code: -1,
        duration_millis: 1500,
        output_tail: "ok".to_string(),
    };
    assert_eq!(
        encode_payload(&finished),
        "{\"task\":\"t-1\",\"command\":\"cargo test\",\"commit\":\"abc\",\"exit_code\":-1,\"duration_millis\":1500,\"output_tail\":\"ok\"}"
    );
    let refused = FactKind::PullRequestMergeRefused {
        task: "t-1".to_string(),
        commit: "abc".to_string(),
        base: "main".to_string(),
        checks: Checks::Failing,
        reason: "blocked".to_string(),
    };
    assert_eq!(
        encode_payload(&refused),
        "{\"task\":\"t-1\",\"commit\":\"abc\",\"base\":\"main\",\"checks\":\"failing\",\"reason\":\"blocked\"}"
    );
    let answered = FactKind::QuestionAnswered {
        task: "t-1".to_string(),
        answer: "yes".to_string(),
        by: AnsweredBy::User,
    };
    assert_eq!(
        encode_payload(&answered),
        "{\"task\":\"t-1\",\"answer\":\"yes\",\"by\":\"user\"}"
    );
    let live = FactKind::WorkerLivenessChanged {
        task: "t-1".to_string(),
        liveness: Liveness::Gone,
    };
    assert_eq!(encode_payload(&live), "{\"task\":\"t-1\",\"liveness\":\"gone\"}");
    assert_eq!(liveness_name(Liveness::Live), "live");
}

#[test]
fn a_worktree_names_its_baseline_and_what_it_includes() {
    let pinned = FactKind::WorktreeAcquired {
        task: "t-1".to_string(),
        lease: "wt-2".to_string(),
        baseline: Baseline::PinnedCommit("abc".to_string()),
        included: vec![dependency("t-0", "def")],
    };
    assert_eq!(
        encode_payload(&pinned),
        "{\"task\":\"t-1\",\"lease\":\"wt-2\",\"baseline\":{\"pinned_commit\":\"abc\"},\"included\":[{\"task\":\"t-0\",\"commit\":\"def\"}]}"
    );
    let head = FactKind::WorktreeAcquired {
        task: "t-1".to_string(),
        lease: "wt-2".to_string(),
        baseline: Baseline::DefaultBranchHead,
        included: Vec::new(),
    };
    assert_eq!(
        encode_payload(&head),
        "{\"task\":\"t-1\",\"lease\":\"wt-2\",\"baseline\":\"default_branch_head\",\"included\":[]}"
    );
}

#[test]
fn a_submission_lists_its_artifacts() {
    let kind = FactKind::WorkerSubmissionRecorded {
        task: "t-1".to_string(),
        summary: "done".to_string(),
        artifacts: vec!["a.png".to_string(), "b\"c".to_string()],
    };
    assert_eq!(
        encode_payload(&kind),
        "{\"task\":\"t-1\",\"summary\":\"done\",\"artifacts\":[\"a.png\",\"b\\\"c\"]}"
    );
}

#[test]
fn facts_without_a_task_encode_their_own_fields() {
    assert_eq!(encode_payload(&FactKind::Polled), "{}");
    assert_eq!(encode_payload(&FactKind::DaemonRestarted), "{}");
    assert_eq!(
        encode_payload(&FactKind::CoordinatorContextMeasured { tokens: 42 }),
        "{\"tokens\":42}"
    );
    assert_eq!(
        encode_payload(&FactKind::CoordinatorSessionStarted {
            session: "s-1".to_string()
        }),
        "{\"session\":\"s-1\"}"
    );
    assert_eq!(fact_task(&FactKind::Polled), None);
    assert_eq!(kind_name(&FactKind::Polled), "polled");
}

#[test]
fn a_dispatch_judgement_is_written_with_sorted_keys() {
    let kind = FactKind::TaskDispatchJudged {
        task: "t-5".to_string(),
        chosen_rule: Some(1),
        confidence: "0.9".to_string(),
        model: "judge".to_string(),
        model_version: "v1".to_string(),
        rules_hash: "ff".to_string(),
        rules_snapshot: "{\"rules\":[]}".to_string(),
        resolution: Resolution {
            role: Role::Review,
            profile: "careful".to_string(),
        },
    };
    let payload = encode_payload(&kind);
    assert_eq!(
        payload,
        "{\"chosen_rule\":1,\"confidence\":0.9,\"model\":\"judge\",\"model_version\":\"v1\",\"resolution\":{\"profile\":\"careful\",\"role\":\"review\"},\"rules_hash\":\"ff\",\"rules_snapshot\":\"{\\\"rules\\\":[]}\",\"source\":\"model_judgement\",\"task\":\"t-5\"}"
    );
    let value: serde_json::Value = serde_json::from_str(&payload).unwrap();
    assert_eq!(value["task"], "t-5");
    assert_eq!(value["chosen_rule"], 1);
    assert_eq!(value["confidence"], 0.9);
    let unchosen = FactKind::TaskDispatchJudged {
        task: "t-5".to_string(),
        chosen_rule: None,
        confidence: "1.0".to_string(),
        model: "judge".to_string(),
        model_version: "v1".to_string(),
        rules_hash: "ff".to_string(),
        rules_snapshot: "[]".to_string(),
        resolution: Resolution {
            role: Role::Build,
            profile: "p".to_string(),
        },
    };
    assert!(encode_payload(&unchosen).starts_with("{\"chosen_rule\":null,"));
}

#[test]
fn every_task_payload_reads_back_its_task() {
    let kinds = vec![
        FactKind::PushFailed {
            task: "t-\"q".to_string(),
            commit: "c".to_string(),
            reason: "r".to_string(),
        },
        FactKind::RebaseScheduled {
            task: "t-2".to_string(),
            profile: "p".to_string(),
            commit: "c".to_string(),
            base: "main".to_string(),
        },
        FactKind::OnEventNotified {
            task: "t-4".to_string(),
            event: "question".to_string(),
        },
    ];
    for kind in kinds {
        let task = fact_task(&kind).unwrap();
        assert_eq!(payload_field(&encode_payload(&kind), "task").unwrap(), task);
        assert!(encode_payload(&kind).starts_with(&format!("{{\"task\":{}", quoted(&task))));
    }
}
