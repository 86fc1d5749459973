use depotd::describe::{diff_section, parse, prompt, DescribeOutput};

#[test]
fn the_first_line_becomes_the_title_and_the_rest_the_body() {
    let output = parse("Title line\n\nBody text.").expect("parsed");
    assert_eq!(output.title, "Title line");
    assert_eq!(output.body, "Body text.");
}

#[test]
fn blank_or_single_line_output_is_refused() {
    assert!(parse("").is_none());
    assert!(parse("only a title").is_none());
    assert!(parse("\n\nbody only").is_none());
}

#[test]
fn a_large_diff_is_replaced_by_its_diffstat_and_a_truncated_body() {
    let diff = "x".repeat(70_000);
    let section = diff_section(&diff, " file.rs | 10 +++---");
    assert!(section.starts_with(" file.rs | 10 +++---"));
    assert!(section.len() < 45_000);
    assert_eq!(diff_section("small", "stat"), "small");
}

#[test]
fn the_prompt_carries_the_title_not_the_intent() {
    let text = prompt("The title", "the diff", "/tmp/out.md");
    assert!(text.contains("The title"));
    assert!(text.contains("/tmp/out.md"));
    assert!(text.contains("/technical-writing"));
    assert!(text.contains("unslop"));
}

use depotd::describe::{assemble, validation_section};
use depotd::names::{Role, TaskState};
use depotd::records::Timestamp;
use depotd::tasks::{Task, ValidationRecord};

fn task() -> Task {
    Task {
        id: "t-44".to_owned(),
        title: "PR body from a describe step".to_owned(),
        intent: "internal brief with https://example.test and verify commands".to_owned(),
        role: Role::Build,
        state: TaskState::PrOpen,
        in_flight: false,
        created_at: Timestamp::from_millis(0),
        attempts: Vec::new(),
        dependencies: Vec::new(),
        rework_of: None,
        pull_request: None,
        conflict_base: None,
        hold_pr: false,
        merge_refused: None,
        release_held: Vec::new(),
        failure: None,
        turn_deferral: None,
        redirect_text: None,
        redirect_delivered: false,
        questions: Vec::new(),
        artifacts: Vec::new(),
        validations: vec![ValidationRecord {
            command: "cargo test".to_owned(),
            commit: "abc123".to_owned(),
            exit_code: 0,
        }],
        retry_not_before: None,
        branch_head: None,
        validated_commit: None,
    }
}

fn described() -> DescribeOutput {
    DescribeOutput {
        title: "Describe PR bodies from the diff".to_owned(),
        body: "## Why\n\nReviewers need a real description.\n\n## What changed\n\n- Split the body assembler.".to_owned(),
    }
}

#[test]
fn the_worker_body_is_joined_with_the_validation_section_after_it() {
    let (title, body) = assemble(Some(described()), &task(), "abc123");
    assert_eq!(title, "Describe PR bodies from the diff");
    assert!(body.starts_with("## Why"));
    assert!(body.ends_with("## Validation\n\n`cargo test` at `abc123` exited 0\n"));
    assert_eq!(body.matches("## Validation").count(), 1);
}

#[test]
fn the_fallback_is_the_task_title_and_the_validation_section_alone() {
    let (title, body) = assemble(None, &task(), "abc123");
    assert_eq!(title, "PR body from a describe step");
    assert_eq!(body, "## Validation\n\n`cargo test` at `abc123` exited 0\n");
}

#[test]
fn the_intent_never_reaches_the_pull_request() {
    let record = task();
    let (with_describe, described_body) = assemble(Some(described()), &record, "abc123");
    let (fallback_title, fallback_body) = assemble(None, &record, "abc123");
    for text in [described_body, fallback_body, with_describe, fallback_title] {
        assert!(!text.contains(&record.intent));
    }
}

#[test]
fn validation_without_a_record_names_it() {
    let mut record = task();
    record.validations.clear();
    assert_eq!(
        validation_section(&record, "abc123"),
        "## Validation\n\nno validation record"
    );
}

#[test]
fn the_latest_record_at_the_commit_is_the_one_shown() {
    let mut record = task();
    record.validations.push(ValidationRecord { command: "make".to_owned(), commit: "abc123".to_owned(), exit_code: -1 });
    record.validations.push(ValidationRecord { command: "other".to_owned(), commit: "def".to_owned(), exit_code: 2 });
    assert_eq!(
        validation_section(&record, "abc123"),
        "## Validation\n\n`make` at `abc123` exited -1"
    );
}
