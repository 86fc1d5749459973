use depotd::coordinator::{render_template, validation_note};
use depotd::error::Error;

#[test]
fn placeholders_are_filled_by_name() {
    assert_eq!(
        render_template("Hi {{ name }}, see {{path}}.", &[("name", "ana"), ("path", "/p"), ("name", "bo")]),
        Ok("Hi ana, see /p.".to_string())
    );
    assert_eq!(render_template("no placeholders", &[]), Ok("no placeholders".to_string()));
    assert_eq!(render_template("", &[]), Ok(String::new()));
}

#[test]
fn a_template_without_a_value_or_a_closing_is_refused() {
    assert_eq!(
        render_template("a {{missing}}", &[]),
        Err(Error::Template("the template names `missing`, which nothing fills".to_string()))
    );
    assert_eq!(
        render_template("ab {{open", &[("open", "x")]),
        Err(Error::Template("a placeholder is opened at byte 3 and never closed".to_string()))
    );
    assert_eq!(
        render_template("é {{open", &[]),
        Err(Error::Template("a placeholder is opened at byte 3 and never closed".to_string()))
    );
}

#[test]
fn text_without_placeholders_renders_as_it_is() {
    for text in ["plain", "one { brace }", "a}}b", "x{y}z"] {
        assert_eq!(render_template(text, &[("a", "b")]), Ok(text.to_string()));
    }
}

#[test]
fn the_validation_note_names_the_command() {
    assert_eq!(
        validation_note("  cargo test \n"),
        "The command is `cargo test`. Run it yourself before you submit."
    );
    assert_eq!(
        validation_note("   "),
        "This project configures no validation command, so the daemon has nothing to run against your commit."
    );
}

use depotd::coordinator::{
    conflict_title, dependency_lines, done_criteria, output_destination, render_brief,
    worker_context, BriefDependency, BriefFields, CONFLICT_INTENT,
};
use depotd::names::Role;

fn fields(lease: Option<&str>) -> BriefFields {
    BriefFields {
        title: "Add rate limits".to_string(),
        task: "t-4".to_string(),
        project: "/srv/web".to_string(),
        role: Role::Build,
        intent: "limit requests".to_string(),
        lease: lease.map(str::to_string),
        dependencies: vec![],
        validation_command: "cargo test".to_string(),
        store: "/h/projects/web".to_string(),
        documents_dir: "/h/projects/web/docs".to_string(),
        checklist: "/h/projects/web/checklist.md".to_string(),
        scratch: "/h/projects/web/scratch".to_string(),
    }
}

#[test]
fn a_brief_is_rendered_from_the_task() {
    let template = "# {{title}} ({{role}})\n{{output}}\n{{dependencies}}\n{{worker_context}}\n{{ask}}\n{{submit}}\n{{validation}}";
    assert_eq!(
        render_brief(template, &fields(Some("l-9"))),
        Ok("# Add rate limits (build)\nThe task's worktree, lease `l-9`: commit the change there.\nNothing pinned: start from the project's base branch.\nDEPOT_TASK_ID=t-4\nDEPOT_ATTEMPT_ID=l-9\ndepot ask --task t-4 --project /srv/web --relay \"<question>\"\ndepot submit --task t-4 --project /srv/web\nThe command is `cargo test`. Run it yourself before you submit.".to_string())
    );
    assert_eq!(
        render_brief(template, &fields(None)),
        Err(Error::Project("task `t-4` has no worker attempt".to_string()))
    );
    assert_eq!(
        render_brief("{{nope}}", &fields(Some("l"))),
        Err(Error::Template("the template names `nope`, which nothing fills".to_string()))
    );
}

#[test]
fn brief_pieces_follow_the_role() {
    assert_eq!(output_destination(Role::Plan, "/d", Some("l")), "A document in the store, under `/d`.");
    assert_eq!(output_destination(Role::Fix, "/d", None), "The task's worktree: commit the change there.");
    assert!(done_criteria(Role::Review).starts_with("A verdict written to the store"));
    assert!(done_criteria(Role::Plan).ends_with("No project code changes."));
    assert_eq!(worker_context("t-1", Some("l-2")), Ok("DEPOT_TASK_ID=t-1\nDEPOT_ATTEMPT_ID=l-2".to_string()));
    assert_eq!(conflict_title("X"), "Resolve conflicts: X");
    assert!(CONFLICT_INTENT.contains("never rebase"));
    assert_eq!(
        dependency_lines(&[
            BriefDependency { task: "t-1".to_string(), title: Some("Base".to_string()), commit: "abc".to_string() },
            BriefDependency { task: "t-2".to_string(), title: None, commit: "def".to_string() },
        ]),
        "- `t-1` **Base** at `abc`\n- `t-2` **an unknown task** at `def`"
    );
}

use depotd::coordinator::brief_fields;
use depotd::names::TaskState;
use depotd::records::Timestamp;
use depotd::tasks::{Attempt, DependencyStanding, Task};

fn brief_task(id: &str, title: &str) -> Task {
    Task {
        id: id.to_string(),
        title: title.to_string(),
        intent: "the intent".to_string(),
        role: Role::Fix,
        state: TaskState::Running,
        in_flight: true,
        created_at: Timestamp::from_millis(0),
        attempts: vec![Attempt {
            open: true,
            started_at: Timestamp::from_millis(0),
            session: None,
            last_seen_at: None,
            worktree: Some("wt-2".to_string()),
        }],
        dependencies: vec![
            DependencyStanding { task: "t-1".to_string(), commit: "abc".to_string(), satisfied: true },
            DependencyStanding { task: "t-9".to_string(), commit: "def".to_string(), satisfied: false },
        ],
        rework_of: None,
        pull_request: None,
        conflict_base: None,
        hold_pr: false,
        merge_refused: None,
        release_held: Vec::new(),
        failure: None,
        turn_deferral: None,
        redirect_text: None,
        redirect_delivered: false,
        questions: Vec::new(),
        artifacts: Vec::new(),
        validations: Vec::new(),
        retry_not_before: None,
        branch_head: None,
        validated_commit: None,
    }
}

#[test]
fn a_brief_names_the_task_its_lease_and_its_dependencies() {
    let task = brief_task("t-5", "Fix it");
    let others = vec![brief_task("t-1", "Earlier work")];
    let fields = brief_fields(&task, &others, false, "/work/demo", "cargo test", "/h", "/h/docs", "/h/c.md", "/h/tmp");
    assert_eq!(fields.title, "Fix it");
    assert_eq!(fields.intent, "the intent");
    assert_eq!(fields.lease, Some("wt-2".to_string()));
    assert_eq!(fields.dependencies[0].title, Some("Earlier work".to_string()));
    assert_eq!(fields.dependencies[1].title, None);
    assert_eq!(fields.dependencies[1].commit, "def");
    let conflict = brief_fields(&task, &others, true, "/work/demo", "cargo test", "/h", "/h/docs", "/h/c.md", "/h/tmp");
    assert_eq!(conflict.title, "Resolve conflicts: Fix it");
    assert_eq!(conflict.intent, CONFLICT_INTENT);
}
