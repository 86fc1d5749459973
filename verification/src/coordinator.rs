//! The texts that launch a coordinator and its workers, rendered from templates whose
//! `{{name}}` placeholders are filled with named values.
use vstd::prelude::*;

use crate::error::{Error, ErrorKind};
use crate::inbox::{find_task, task_of, task_with};
use crate::names::{role_name, role_name_spec, Role};
use crate::tasks::{lease, lease_spec, Task};
use crate::text::{
    chars_of, decimal, find_seq, find_seq_in, join_spec, lemma_find_seq_range, push_range, push_str,
    push_string, str_eq, string_of, trim, trim_range, utf8_len, utf8_len_in,
};

verus! {

/// What launches a coordinator session: the policy it works under and its first prompt.
#[derive(Debug, Clone, PartialEq, Eq)]
pub struct Launch {
    pub policy: String,
    pub kickoff: String,
}

/// What launches a worker: where its brief was written and the prompt it starts from.
#[derive(Debug, Clone, PartialEq, Eq)]
pub struct WorkerLaunch {
    pub brief_path: String,
    pub prompt: String,
}

/// The value of the first pair named `name`.
pub open spec fn value_for(values: Seq<(Seq<char>, Seq<char>)>, name: Seq<char>) -> Option<Seq<char>>
    decreases values.len(),
{
    if values.len() == 0 {
        None
    } else if values[0].0 == name {
        Some(values[0].1)
    } else {
        value_for(values.drop_first(), name)
    }
}

/// What rendering a template comes to.
pub enum Rendering {
    /// The text, every placeholder filled.
    Rendered(Seq<char>),
    /// A placeholder opened at this byte of what was left to render is never closed.
    Unclosed(nat),
    /// A placeholder names a value that nothing fills.
    Unfilled(Seq<char>),
}

/// `prefix` before a rendered text; a failure stays as it is.
pub open spec fn after_text(prefix: Seq<char>, r: Rendering) -> Rendering {
    match r {
        Rendering::Rendered(text) => Rendering::Rendered(prefix + text),
        other => other,
    }
}

/// Renders `rest`: up to the first `{{`, the text as it is; from there to the next `}}`,
/// the value named by what lies between them, trimmed; then the rest, rendered alike.
pub open spec fn render_spec(rest: Seq<char>, values: Seq<(Seq<char>, Seq<char>)>) -> Rendering
    decreases rest.len(),
{
    let open = find_seq(rest, "{{"@);
    if open < 0 {
        Rendering::Rendered(rest)
    } else {
        let after = rest.skip(open + 2);
        let close = find_seq(after, "}}"@);
        if close < 0 {
            Rendering::Unclosed(utf8_len(rest.take(open)))
        } else {
            let name = trim(after.take(close));
            match value_for(values, name) {
                None => Rendering::Unfilled(name),
                Some(value) => {
                    proof {
                        lemma_find_seq_range(rest, "{{"@);
                        lemma_find_seq_range(after, "}}"@);
                        assert("{{"@.len() == 2) by {
                            reveal_strlit("{{");
                        }
                        assert("}}"@.len() == 2) by {
                            reveal_strlit("}}");
                        }
                    }
                    after_text(rest.take(open) + value, render_spec(after.skip(close + 2), values))
                },
            }
        }
    }
}

pub open spec fn pairs_view(values: Seq<(&str, &str)>) -> Seq<(Seq<char>, Seq<char>)> {
    Seq::new(values.len(), |i: int| (values[i].0@, values[i].1@))
}

/// What `render_template` returns for a rendering.
pub open spec fn render_result(r: Result<String, Error>, rendering: Rendering) -> bool {
    match rendering {
        Rendering::Rendered(text) => r is Ok && r->Ok_0@ == text,
        Rendering::Unclosed(byte) => r matches Err(Error::Template(m)) && m@
            == "a placeholder is opened at byte "@ + decimal(byte) + " and never closed"@,
        Rendering::Unfilled(name) => r matches Err(Error::Template(m)) && m@
            == "the template names `"@ + name + "`, which nothing fills"@,
    }
}

/// The value `values` pairs with the name `v[lo..hi]`.
fn lookup<'a>(values: &[(&'a str, &'a str)], v: &Vec<char>, lo: usize, hi: usize) -> (r: Option<&'a str>)
    requires
        lo <= hi <= v.len(),
    ensures
        match value_for(pairs_view(values@), v@.subrange(lo as int, hi as int)) {
            Some(value) => r is Some && r->0@ == value,
            None => r is None,
        },
{
    let name = string_of(v, lo, hi);
    let mut i: usize = 0;
    assert(pairs_view(values@).skip(0) == pairs_view(values@));
    while i < values.len()
        invariant
            i <= values@.len(),
            name@ == v@.subrange(lo as int, hi as int),
            value_for(pairs_view(values@), name@) == value_for(pairs_view(values@).skip(i as int), name@),
        decreases values@.len() - i,
    {
        assert(pairs_view(values@).skip(i as int).drop_first() == pairs_view(values@).skip(i + 1));
        assert(pairs_view(values@).skip(i as int)[0] == (values@[i as int].0@, values@[i as int].1@));
        if str_eq(values[i].0, name.as_str()) {
            return Some(values[i].1);
        }
        i += 1;
    }
    None
}

/// Renders `template`, filling each `{{name}}` placeholder with the value of the first
/// pair named `name`.
pub fn render_template(template: &str, values: &[(&str, &str)]) -> (r: Result<String, Error>)
    ensures
        render_result(r, render_spec(template@, pairs_view(values@))),
{
    let v = chars_of(template);
    let n = v.len();
    let open_mark = chars_of("{{");
    let close_mark = chars_of("}}");
    proof {
        reveal_strlit("{{");
        reveal_strlit("}}");
    }
    let ghost vals = pairs_view(values@);
    let mut out = String::new();
    let mut pos: usize = 0;
    assert(v@.subrange(0, n as int) == v@);
    loop
        invariant
            pos <= n == v@.len(),
            v@ == template@,
            open_mark@ == "{{"@,
            close_mark@ == "}}"@,
            "{{"@.len() == 2,
            "}}"@.len() == 2,
            vals == pairs_view(values@),
            render_spec(template@, vals) == after_text(
                out@,
                render_spec(v@.subrange(pos as int, n as int), vals),
            ),
        decreases n - pos,
    {
        let ghost rest = v@.subrange(pos as int, n as int);
        match find_seq_in(&v, pos, n, &open_mark) {
            None => {
                push_range(&mut out, &v, pos, n);
                return Ok(out);
            },
            Some(k) => {
                let ghost after = rest.skip(k - pos + 2);
                assert(after == v@.subrange(k + 2, n as int));
                assert(rest.take(k - pos) == v@.subrange(pos as int, k as int));
                match find_seq_in(&v, k + 2, n, &close_mark) {
                    None => {
                        let byte = utf8_len_in(&v, pos, k);
                        let mut m = String::new();
                        push_str(&mut m, "a placeholder is opened at byte ");
                        push_decimal_wide(&mut m, byte);
                        push_str(&mut m, " and never closed");
                        return Err(Error::Template(m));
                    },
                    Some(c) => {
                        assert(after.take(c - (k + 2)) == v@.subrange(k + 2, c as int));
                        assert(after.skip(c - (k + 2) + 2) == v@.subrange(c + 2, n as int));
                        let (a, b) = trim_range(&v, k + 2, c);
                        match lookup(values, &v, a, b) {
                            None => {
                                let mut m = String::new();
                                push_str(&mut m, "the template names `");
                                push_range(&mut m, &v, a, b);
                                push_str(&mut m, "`, which nothing fills");
                                return Err(Error::Template(m));
                            },
                            Some(value) => {
                                let ghost before = out@;
                                push_range(&mut out, &v, pos, k);
                                push_str(&mut out, value);
                                assert(out@ == before + (rest.take(k - pos) + value@));
                                proof {
                                    assert(trim(after.take(c - (k + 2))) == v@.subrange(
                                        a as int,
                                        b as int,
                                    ));
                                    assert(render_spec(rest, vals) == after_text(
                                        rest.take(k - pos) + value@,
                                        render_spec(v@.subrange(c + 2, n as int), vals),
                                    ));
                                    lemma_after_text_joins(
                                        before,
                                        rest.take(k - pos) + value@,
                                        render_spec(v@.subrange(c + 2, n as int), vals),
                                    );
                                }
                                pos = c + 2;
                            },
                        }
                    },
                }
            },
        }
    }
}

/// Appends `n` in decimal.
fn push_decimal_wide(s: &mut String, n: u128)
    ensures
        final(s)@ == old(s)@ + decimal(n as nat),
    decreases n,
{
    if n >= 10 {
        push_decimal_wide(s, n / 10);
    }
    let d = (n % 10) as u8;
    let c = (48 + d) as char;
    push_str_char(s, c);
}

fn push_str_char(s: &mut String, c: char)
    ensures
        final(s)@ == old(s)@.push(c),
{
    crate::text::push_char(s, c);
}

proof fn lemma_after_text_joins(a: Seq<char>, b: Seq<char>, r: Rendering)
    ensures
        after_text(a, after_text(b, r)) == after_text(a + b, r),
{
    match r {
        Rendering::Rendered(t) => {
            assert(a + (b + t) == (a + b) + t);
        },
        _ => {},
    }
}

/// A template without a placeholder renders as itself, whatever the values.
pub proof fn lemma_render_plain(template: Seq<char>, values: Seq<(Seq<char>, Seq<char>)>)
    requires
        find_seq(template, "{{"@) < 0,
    ensures
        render_spec(template, values) == Rendering::Rendered(template),
{
}

/// The note a worker's brief carries about validation: the project's validation
/// command, trimmed, to run before submitting, or that there is none.
pub open spec fn validation_note_spec(command: Seq<char>) -> Seq<char> {
    if trim(command).len() == 0 {
        "This project configures no validation command, so the daemon has nothing to run against your commit."@
    } else {
        "The command is `"@ + trim(command) + "`. Run it yourself before you submit."@
    }
}

/// The validation note for a project whose project file names `command` (empty when
/// it has no project file).
pub fn validation_note(command: &str) -> (r: String)
    ensures
        r@ == validation_note_spec(command@),
{
    let v = chars_of(command);
    assert(v@.subrange(0, v@.len() as int) == v@);
    let (a, b) = trim_range(&v, 0, v.len());
    let mut r = String::new();
    if a == b {
        push_str(
            &mut r,
            "This project configures no validation command, so the daemon has nothing to run against your commit.",
        );
    } else {
        push_str(&mut r, "The command is `");
        push_range(&mut r, &v, a, b);
        push_str(&mut r, "`. Run it yourself before you submit.");
    }
    r
}

/// What a worker of each role must leave behind before it declares its task finished.
pub open spec fn done_criteria_spec(role: Role) -> Seq<char> {
    match role {
        Role::Plan => "A plan written to the store that names the tasks to create, each with its role and its dependencies, and the decisions behind them. No project code changes."@,
        Role::Build => "The change committed in the worktree, then the assignment declared finished. The daemon validates the commit and publishes it; the change is not finished when the code merely works on your machine."@,
        Role::Review => "A verdict written to the store that says whether the change is correct, what must change, and the exact commit it reviewed. No project code changes."@,
        Role::Fix => "The fix committed in the worktree, with the project's validation command passing locally, then the assignment declared finished."@,
    }
}

pub fn done_criteria(role: Role) -> (r: &'static str)
    ensures
        r@ == done_criteria_spec(role),
{
    match role {
        Role::Plan => "A plan written to the store that names the tasks to create, each with its role and its dependencies, and the decisions behind them. No project code changes.",
        Role::Build => "The change committed in the worktree, then the assignment declared finished. The daemon validates the commit and publishes it; the change is not finished when the code merely works on your machine.",
        Role::Review => "A verdict written to the store that says whether the change is correct, what must change, and the exact commit it reviewed. No project code changes.",
        Role::Fix => "The fix committed in the worktree, with the project's validation command passing locally, then the assignment declared finished.",
    }
}

/// Where a worker's output goes: a document under the store's documents directory for
/// planning and review, the leased worktree for building and fixing.
pub open spec fn output_destination_spec(role: Role, documents_dir: Seq<char>, lease: Option<Seq<char>>) -> Seq<char> {
    match role {
        Role::Plan | Role::Review => "A document in the store, under `"@ + documents_dir + "`."@,
        Role::Build | Role::Fix => match lease {
            Some(l) => "The task's worktree, lease `"@ + l + "`: commit the change there."@,
            None => "The task's worktree: commit the change there."@,
        },
    }
}

pub fn output_destination(role: Role, documents_dir: &str, lease: Option<&str>) -> (r: String)
    ensures
        r@ == output_destination_spec(
            role,
            documents_dir@,
            match lease {
                Some(l) => Some(l@),
                None => None,
            },
        ),
{
    let mut r = String::new();
    match role {
        Role::Plan | Role::Review => {
            push_str(&mut r, "A document in the store, under `");
            push_str(&mut r, documents_dir);
            push_str(&mut r, "`.");
        },
        Role::Build | Role::Fix => match lease {
            Some(l) => {
                push_str(&mut r, "The task's worktree, lease `");
                push_str(&mut r, l);
                push_str(&mut r, "`: commit the change there.");
            },
            None => push_str(&mut r, "The task's worktree: commit the change there."),
        },
    }
    r
}

/// The environment lines a worker's brief hands it: the task and the attempt (the
/// lease of the task's last attempt); a task with no such attempt is refused.
pub fn worker_context(task: &str, lease: Option<&str>) -> (r: Result<String, Error>)
    ensures
        match lease {
            Some(l) => r matches Ok(text) && text@ == "DEPOT_TASK_ID="@ + task@ + "\nDEPOT_ATTEMPT_ID="@
                + l@,
            None => r matches Err(e) && e.kind() == ErrorKind::Project && e.detail() == "task `"@
                + task@ + "` has no worker attempt"@,
        },
{
    match lease {
        Some(l) => {
            let mut r = String::new();
            push_str(&mut r, "DEPOT_TASK_ID=");
            push_str(&mut r, task);
            push_str(&mut r, "\nDEPOT_ATTEMPT_ID=");
            push_str(&mut r, l);
            Ok(r)
        },
        None => {
            let mut m = String::new();
            push_str(&mut m, "task `");
            push_str(&mut m, task);
            push_str(&mut m, "` has no worker attempt");
            Err(Error::Project(m))
        },
    }
}

/// A dependency as a brief lists it: the task, its title when the project knows the
/// task, and the pinned commit.
#[derive(Debug, Clone, PartialEq, Eq)]
pub struct BriefDependency {
    pub task: String,
    pub title: Option<String>,
    pub commit: String,
}

pub open spec fn dependency_line(d: BriefDependency) -> Seq<char> {
    "- `"@ + d.task@ + "` **"@ + match d.title {
        Some(t) => t@,
        None => "an unknown task"@,
    } + "** at `"@ + d.commit@ + "`"@
}

pub open spec fn dependency_lines_spec(deps: Seq<BriefDependency>) -> Seq<char> {
    if deps.len() == 0 {
        "Nothing pinned: start from the project's base branch."@
    } else {
        join_spec(Seq::new(deps.len(), |i: int| dependency_line(deps[i])), "\n"@)
    }
}

/// The dependencies a task is pinned to, one line each, or that it pins none.
pub fn dependency_lines(deps: &[BriefDependency]) -> (r: String)
    ensures
        r@ == dependency_lines_spec(deps@),
{
    let mut r = String::new();
    if deps.len() == 0 {
        push_str(&mut r, "Nothing pinned: start from the project's base branch.");
        return r;
    }
    let ghost lines = Seq::new(deps@.len(), |i: int| dependency_line(deps@[i]));
    let mut i: usize = 0;
    while i < deps.len()
        invariant
            i <= deps@.len(),
            lines == Seq::new(deps@.len(), |i: int| dependency_line(deps@[i])),
            r@ == join_spec(lines.take(i as int), "\n"@),
        decreases deps@.len() - i,
    {
        let ghost before = r@;
        if i > 0 {
            push_str(&mut r, "\n");
        }
        let d = &deps[i];
        push_str(&mut r, "- `");
        push_string(&mut r, &d.task);
        push_str(&mut r, "` **");
        match &d.title {
            Some(t) => push_string(&mut r, t),
            None => push_str(&mut r, "an unknown task"),
        }
        push_str(&mut r, "** at `");
        push_string(&mut r, &d.commit);
        push_str(&mut r, "`");
        proof {
            assert(lines.take(i + 1).drop_last() == lines.take(i as int));
            assert(lines.take(i + 1).last() == dependency_line(deps@[i as int]));
            if i == 0 {
                assert(lines.take(0).len() == 0);
                assert(r@ == before + dependency_line(deps@[i as int]));
            } else {
                assert(r@ == before + "\n"@ + dependency_line(deps@[i as int]));
            }
        }
        i = i + 1;
    }
    assert(lines.take(deps@.len() as int) == lines);
    r
}

/// The title of the brief that asks a worker to resolve its pull request's conflicts.
pub fn conflict_title(title: &str) -> (r: String)
    ensures
        r@ == "Resolve conflicts: "@ + title@,
{
    let mut r = String::new();
    push_str(&mut r, "Resolve conflicts: ");
    push_str(&mut r, title);
    r
}

/// The intent of that brief: merge the base branch in, never rebase or force push.
pub const CONFLICT_INTENT: &'static str = "The task's open pull request conflicts with the project base branch. In your worktree, fetch the base branch and merge it into the delivery branch, resolve the conflicts, and submit the merged result. Merge the base in, never rebase, and never force push: the pull request is open, and rewriting its history discards the commits already published there. Keep the change as it was submitted; do not extend it.";

/// What a worker's brief is rendered from.
#[derive(Debug, Clone, PartialEq, Eq)]
pub struct BriefFields {
    pub title: String,
    pub task: String,
    pub project: String,
    pub role: Role,
    pub intent: String,
    pub lease: Option<String>,
    pub dependencies: Vec<BriefDependency>,
    pub validation_command: String,
    pub store: String,
    pub documents_dir: String,
    pub checklist: String,
    pub scratch: String,
}

/// The values a brief's placeholders are filled with, by name.
pub open spec fn brief_values(f: BriefFields) -> Seq<(Seq<char>, Seq<char>)> {
    let lease = match f.lease {
        Some(l) => Some(l@),
        None => None,
    };
    seq![
        ("title"@, f.title@),
        ("task"@, f.task@),
        ("project"@, f.project@),
        ("role"@, role_name_spec(f.role)),
        ("intent"@, f.intent@),
        ("output"@, output_destination_spec(f.role, f.documents_dir@, lease)),
        ("done"@, done_criteria_spec(f.role)),
        ("dependencies"@, dependency_lines_spec(f.dependencies@)),
        ("validation"@, validation_note_spec(f.validation_command@)),
        ("worker_context"@, "DEPOT_TASK_ID="@ + f.task@ + "\nDEPOT_ATTEMPT_ID="@ + lease->0),
        ("store"@, f.store@),
        ("checklist"@, f.checklist@),
        ("scratch"@, f.scratch@),
        ("ask"@, "depot ask --task "@ + f.task@ + " --project "@ + f.project@ + " --relay \"<question>\""@),
        ("submit"@, "depot submit --task "@ + f.task@ + " --project "@ + f.project@),
    ]
}

/// Renders a worker's brief from `template`; a task with no worker attempt is refused,
/// as is a template that does not render.
pub fn render_brief(template: &str, f: &BriefFields) -> (r: Result<String, Error>)
    ensures
        f.lease is None ==> (r matches Err(e) && e.kind() == ErrorKind::Project && e.detail()
            == "task `"@ + f.task@ + "` has no worker attempt"@),
        f.lease is Some ==> render_result(r, render_spec(template@, brief_values(*f))),
{
    let lease = match &f.lease {
        Some(l) => Some(l.as_str()),
        None => None,
    };
    let output = output_destination(f.role, f.documents_dir.as_str(), lease);
    let done = done_criteria(f.role);
    let dependencies = dependency_lines(f.dependencies.as_slice());
    let validation = validation_note(f.validation_command.as_str());
    let context = worker_context(f.task.as_str(), lease)?;
    let mut ask = String::new();
    push_str(&mut ask, "depot ask --task ");
    push_string(&mut ask, &f.task);
    push_str(&mut ask, " --project ");
    push_string(&mut ask, &f.project);
    push_str(&mut ask, " --relay \"<question>\"");
    let mut submit = String::new();
    push_str(&mut submit, "depot submit --task ");
    push_string(&mut submit, &f.task);
    push_str(&mut submit, " --project ");
    push_string(&mut submit, &f.project);
    let values: Vec<(&str, &str)> = vec![
        ("title", f.title.as_str()),
        ("task", f.task.as_str()),
        ("project", f.project.as_str()),
        ("role", role_name(f.role)),
        ("intent", f.intent.as_str()),
        ("output", output.as_str()),
        ("done", done),
        ("dependencies", dependencies.as_str()),
        ("validation", validation.as_str()),
        ("worker_context", context.as_str()),
        ("store", f.store.as_str()),
        ("checklist", f.checklist.as_str()),
        ("scratch", f.scratch.as_str()),
        ("ask", ask.as_str()),
        ("submit", submit.as_str()),
    ];
    assert(pairs_view(values@) == brief_values(*f));
    render_template(template, values.as_slice())
}

fn own(s: &str) -> (r: String)
    ensures
        r@ == s@,
{
    let mut r = String::new();
    push_str(&mut r, s);
    r
}

pub open spec fn title_of(task: Option<Task>) -> Option<Seq<char>> {
    match task {
        Some(t) => Some(t.title@),
        None => None,
    }
}

pub open spec fn text_view(value: Option<String>) -> Option<Seq<char>> {
    match value {
        Some(v) => Some(v@),
        None => None,
    }
}

/// What `task`'s brief is rendered from: its own title and intent, or, for the brief
/// that asks its worker to resolve its pull request's conflicts, the conflict title and
/// intent; its dependencies with the titles of the tasks among `tasks` they name; the
/// lease of its latest attempt; and the places the worker is pointed to.
pub fn brief_fields(
    task: &Task,
    tasks: &[Task],
    conflict: bool,
    project: &str,
    validation_command: &str,
    store: &str,
    documents_dir: &str,
    checklist: &str,
    scratch: &str,
) -> (r: BriefFields)
    ensures
        r.title@ == (if conflict {
            "Resolve conflicts: "@ + task.title@
        } else {
            task.title@
        }),
        r.intent@ == (if conflict {
            CONFLICT_INTENT@
        } else {
            task.intent@
        }),
        r.task@ == task.id@,
        r.project@ == project@,
        r.role == task.role,
        text_view(r.lease) == text_view(lease_spec(*task)),
        r.dependencies@.len() == task.dependencies@.len(),
        forall|i: int|
            0 <= i < r.dependencies@.len() ==> (#[trigger] r.dependencies@[i]).task@
                == task.dependencies@[i].task@ && r.dependencies@[i].commit@
                == task.dependencies@[i].commit@ && text_view(r.dependencies@[i].title)
                == title_of(find_task(tasks@, task.dependencies@[i].task@)),
        r.validation_command@ == validation_command@,
        r.store@ == store@,
        r.documents_dir@ == documents_dir@,
        r.checklist@ == checklist@,
        r.scratch@ == scratch@,
{
    let mut dependencies: Vec<BriefDependency> = Vec::new();
    let mut i: usize = 0;
    while i < task.dependencies.len()
        invariant
            i <= task.dependencies@.len(),
            dependencies@.len() == i,
            forall|k: int|
                0 <= k < i ==> (#[trigger] dependencies@[k]).task@ == task.dependencies@[k].task@
                    && dependencies@[k].commit@ == task.dependencies@[k].commit@ && text_view(
                    dependencies@[k].title,
                ) == title_of(find_task(tasks@, task.dependencies@[k].task@)),
        decreases task.dependencies@.len() - i,
    {
        let d = &task.dependencies[i];
        let title = match task_with(tasks, d.task.as_str()) {
            Some(t) => Some(t.title.clone()),
            None => None,
        };
        dependencies.push(BriefDependency { task: d.task.clone(), title, commit: d.commit.clone() });
        i += 1;
    }
    BriefFields {
        title: if conflict {
            conflict_title(task.title.as_str())
        } else {
            task.title.clone()
        },
        task: task.id.clone(),
        project: own(project),
        role: task.role,
        intent: if conflict {
            own(CONFLICT_INTENT)
        } else {
            task.intent.clone()
        },
        lease: match lease(task) {
            Some(l) => Some(l.clone()),
            None => None,
        },
        dependencies,
        validation_command: own(validation_command),
        store: own(store),
        documents_dir: own(documents_dir),
        checklist: own(checklist),
        scratch: own(scratch),
    }
}

} // verus!
