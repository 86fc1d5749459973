//! What the task commands check before they touch the store: the dependencies a new
//! task names, and which of them its work is based on.
use vstd::prelude::*;

use crate::error::{Error, ErrorKind};
use crate::names::{
    answered_by_from_name, answered_by_name_spec, role_from_name, role_name_spec, state_name,
    state_name_spec, AnsweredBy, Role, TaskState,
};
use crate::tasks::{unanswered_index, Task};
use crate::text::{chars_of, find_char, find_char_in, push_str, push_string, str_eq, string_of};

verus! {

/// A request for a new task, as the command line gives it.
#[derive(Debug, Clone, PartialEq, Eq)]
pub struct TaskRequest {
    pub title: String,
    pub intent: String,
    pub role: String,
    pub dependencies: Vec<String>,
    pub base_dependency: Option<String>,
    pub hold_pr: bool,
}

/// A task a new task depends on, at the commit it depends on.
#[derive(Debug, Clone, PartialEq, Eq)]
pub struct Dependency {
    pub task: String,
    pub commit: String,
}

/// The task and commit that `<task>@<commit>` names: the text before and after its
/// first `@`.
pub open spec fn dependency_of(item: Seq<char>) -> Option<(Seq<char>, Seq<char>)> {
    let i = find_char(item, '@');
    if i < 0 {
        None
    } else {
        Some((item.take(i), item.skip(i + 1)))
    }
}

pub open spec fn not_a_dependency_message(item: Seq<char>) -> Seq<char> {
    "`"@ + item + "` is not a dependency: write it as `<task>@<commit>`"@
}

/// The dependency `deps[i]` is what `items[i]` names, for each `i`.
pub open spec fn dependencies_named(items: Seq<String>, deps: Seq<Dependency>) -> bool {
    &&& deps.len() == items.len()
    &&& forall|i: int|
        0 <= i < items.len() ==> dependency_of(#[trigger] items[i]@) == Some(
            (deps[i].task@, deps[i].commit@),
        )
}

/// Reads each `<task>@<commit>`; the first item without an `@` is refused.
pub fn parse_dependencies(items: &Vec<String>) -> (r: Result<Vec<Dependency>, Error>)
    ensures
        match r {
            Ok(deps) => dependencies_named(items@, deps@),
            Err(e) => exists|i: int|
                0 <= i < items@.len() && dependency_of(#[trigger] items@[i]@) is None && (forall|
                    j: int,
                | 0 <= j < i ==> dependency_of(#[trigger] items@[j]@) is Some) && e.kind()
                    == ErrorKind::Config && e.detail() == not_a_dependency_message(items@[i]@),
        },
        r is Ok <==> forall|i: int| 0 <= i < items@.len() ==> dependency_of(#[trigger] items@[i]@) is Some,
{
    let mut deps: Vec<Dependency> = Vec::new();
    let mut i: usize = 0;
    while i < items.len()
        invariant
            i <= items@.len(),
            deps@.len() == i,
            forall|k: int|
                0 <= k < i ==> dependency_of(#[trigger] items@[k]@) == Some(
                    (deps@[k].task@, deps@[k].commit@),
                ),
        decreases items@.len() - i,
    {
        let v = chars_of(items[i].as_str());
        let n = v.len();
        assert(v@.subrange(0, n as int) == v@);
        match find_char_in(&v, 0, n, '@') {
            Some(at) => {
                assert(v@.take(at as int) == v@.subrange(0, at as int));
                assert(v@.skip(at + 1) == v@.subrange(at + 1, n as int));
                deps.push(Dependency { task: string_of(&v, 0, at), commit: string_of(&v, at + 1, n) });
            },
            None => {
                let mut message = String::new();
                push_str(&mut message, "`");
                push_string(&mut message, &items[i]);
                push_str(&mut message, "` is not a dependency: write it as `<task>@<commit>`");
                return Err(Error::Config(message));
            },
        }
        i = i + 1;
    }
    Ok(deps)
}

pub open spec fn many_without_base_message() -> Seq<char> {
    "multiple --depends-on need --base-dependency <task-id> naming one of them"@
}

pub open spec fn unknown_base_message(name: Seq<char>) -> Seq<char> {
    "`--base-dependency "@ + name + "` must name one of the --depends-on tasks"@
}

/// The request is refused as a configuration error with this message.
pub open spec fn refused_with<T>(r: Result<T, Error>, message: Seq<char>) -> bool {
    match r {
        Err(e) => e.kind() == ErrorKind::Config && e.detail() == message,
        Ok(_) => false,
    }
}

/// The work is based on the dependency `name`.
pub open spec fn based_on(r: Result<Option<String>, Error>, name: Seq<char>) -> bool {
    match r {
        Ok(Some(s)) => s@ == name,
        _ => false,
    }
}

/// The dependency a new task's work is based on. With none named, there is none when
/// at most one dependency is given, and the request is refused when several are; a
/// named one must be among the dependencies.
pub fn resolve_base_dependency(base: Option<&str>, dependencies: &[Dependency]) -> (r: Result<
    Option<String>,
    Error,
>)
    ensures
        match base {
            None => if dependencies@.len() > 1 {
                refused_with(r, many_without_base_message())
            } else {
                r == Ok::<Option<String>, Error>(None)
            },
            Some(name) => if exists|i: int|
                0 <= i < dependencies@.len() && (#[trigger] dependencies@[i]).task@ == name@ {
                based_on(r, name@)
            } else {
                refused_with(r, unknown_base_message(name@))
            },
        },
{
    match base {
        None => {
            if dependencies.len() > 1 {
                let mut message = String::new();
                push_str(
                    &mut message,
                    "multiple --depends-on need --base-dependency <task-id> naming one of them",
                );
                Err(Error::Config(message))
            } else {
                Ok(None)
            }
        },
        Some(name) => {
            let mut i: usize = 0;
            while i < dependencies.len()
                invariant
                    base == Some(name),
                    i <= dependencies@.len(),
                    forall|k: int| 0 <= k < i ==> (#[trigger] dependencies@[k]).task@ != name@,
                decreases dependencies@.len() - i,
            {
                if str_eq(dependencies[i].task.as_str(), name) {
                    assert((dependencies@[i as int]).task@ == name@);
                    let mut s = String::new();
                    push_str(&mut s, name);
                    assert(s@ == name@);
                    return Ok(Some(s));
                }
                i = i + 1;
            }
            let mut message = String::new();
            push_str(&mut message, "`--base-dependency ");
            push_str(&mut message, name);
            push_str(&mut message, "` must name one of the --depends-on tasks");
            Err(Error::Config(message))
        },
    }
}

/// Whether a command's transition is to be applied, or was applied already.
#[derive(Debug, Clone, Copy, PartialEq, Eq, Structural)]
pub enum Prepared {
    Apply,
    AlreadyDone,
}

pub open spec fn refused_message(task: Task, action: Seq<char>) -> Seq<char> {
    "task `"@ + task.id@ + "` is "@ + state_name_spec(task.state) + " and cannot be "@ + action
}

/// The refusal of a transition the task's state does not allow.
pub fn transition_refused(task: &Task, action: &str) -> (e: Error)
    ensures
        e matches Error::Project(m) && m@ == refused_message(*task, action@),
{
    let mut m = String::new();
    push_str(&mut m, "task `");
    push_string(&mut m, &task.id);
    push_str(&mut m, "` is ");
    push_str(&mut m, state_name(task.state));
    push_str(&mut m, " and cannot be ");
    push_str(&mut m, action);
    Error::Project(m)
}

pub open spec fn retry_instead_message(task: Task) -> Seq<char> {
    "task `"@ + task.id@ + "` is "@ + state_name_spec(task.state)
        + " and cannot be approved; run `depot task retry "@ + task.id@
        + "` to send it back to the approved queue"@
}

/// Whether approving `task` applies: a proposed task is approved, an approved one was
/// already; a failed or cancelled one must be retried instead, and any other is refused.
pub fn prepare_approve(task: &Task) -> (r: Result<Prepared, Error>)
    ensures
        match task.state {
            TaskState::Proposed => r == Ok::<Prepared, Error>(Prepared::Apply),
            TaskState::Approved => r == Ok::<Prepared, Error>(Prepared::AlreadyDone),
            TaskState::Failed | TaskState::Cancelled => r matches Err(Error::Project(m)) && m@
                == retry_instead_message(*task),
            _ => r matches Err(Error::Project(m)) && m@ == refused_message(*task, "approved"@),
        },
{
    match task.state {
        TaskState::Proposed => Ok(Prepared::Apply),
        TaskState::Approved => Ok(Prepared::AlreadyDone),
        TaskState::Failed | TaskState::Cancelled => {
            let mut m = String::new();
            push_str(&mut m, "task `");
            push_string(&mut m, &task.id);
            push_str(&mut m, "` is ");
            push_str(&mut m, state_name(task.state));
            push_str(&mut m, " and cannot be approved; run `depot task retry ");
            push_string(&mut m, &task.id);
            push_str(&mut m, "` to send it back to the approved queue");
            Err(Error::Project(m))
        },
        _ => Err(transition_refused(task, "approved")),
    }
}

/// Whether stopping `task` applies: a cancelled task was stopped already and a landed
/// one cannot be; any other is stopped.
pub fn prepare_stop(task: &Task) -> (r: Result<Prepared, Error>)
    ensures
        match task.state {
            TaskState::Cancelled => r == Ok::<Prepared, Error>(Prepared::AlreadyDone),
            TaskState::Landed => r matches Err(Error::Project(m)) && m@ == refused_message(
                *task,
                "stopped"@,
            ),
            _ => r == Ok::<Prepared, Error>(Prepared::Apply),
        },
{
    match task.state {
        TaskState::Cancelled => Ok(Prepared::AlreadyDone),
        TaskState::Landed => Err(transition_refused(task, "stopped")),
        _ => Ok(Prepared::Apply),
    }
}

/// The position of the question an answer is for: the latest one without an answer; a
/// task with none is refused.
pub fn prepare_answer(task: &Task) -> (r: Result<usize, Error>)
    ensures
        match unanswered_index(task.questions@) {
            Some(i) => r == Ok::<usize, Error>(i as usize),
            None => r matches Err(Error::Project(m)) && m@ == "task `"@ + task.id@ + "` is "@
                + state_name_spec(task.state) + " and has no unanswered question"@,
        },
{
    proof {
        crate::tasks::lemma_unanswered_index(task.questions@);
    }
    let mut i = task.questions.len();
    while i > 0
        invariant
            i <= task.questions@.len(),
            forall|j: int| i <= j < task.questions@.len() ==> task.questions@[j].answer is Some,
        decreases i,
    {
        if task.questions[i - 1].answer.is_none() {
            proof {
                crate::tasks::lemma_unanswered_index(task.questions@);
                if let Some(k) = unanswered_index(task.questions@) {
                    assert(task.questions@[k].answer is None);
                }
            }
            return Ok(i - 1);
        }
        i -= 1;
    }
    let mut m = String::new();
    push_str(&mut m, "task `");
    push_string(&mut m, &task.id);
    push_str(&mut m, "` is ");
    push_str(&mut m, state_name(task.state));
    push_str(&mut m, " and has no unanswered question");
    Err(Error::Project(m))
}

pub open spec fn unknown_role_message(name: Seq<char>) -> Seq<char> {
    "unknown role `"@ + name + "`: expected one of plan, build, review, fix"@
}

/// The role named `name`; another name is a configuration error listing the roles.
pub fn parse_role(name: &str) -> (r: Result<Role, Error>)
    ensures
        match r {
            Ok(role) => role_name_spec(role) == name@,
            Err(e) => (forall|v: Role| role_name_spec(v) != name@) && (e matches Error::Config(m)
                && m@ == unknown_role_message(name@)),
        },
{
    match role_from_name(name) {
        Some(role) => Ok(role),
        None => {
            let mut m = String::new();
            push_str(&mut m, "unknown role `");
            push_str(&mut m, name);
            push_str(&mut m, "`: expected one of plan, build, review, fix");
            Err(Error::Config(m))
        },
    }
}

/// Who answered, named `coordinator` or `user`; another name is a configuration error.
pub fn parse_answered_by(name: &str) -> (r: Result<AnsweredBy, Error>)
    ensures
        match r {
            Ok(by) => answered_by_name_spec(by) == name@,
            Err(e) => (forall|v: AnsweredBy| answered_by_name_spec(v) != name@) && (e matches Error::Config(m)
                && m@ == "unknown answerer `"@ + name@ + "`: expected `coordinator` or `user`"@),
        },
{
    match answered_by_from_name(name) {
        Some(by) => Ok(by),
        None => {
            let mut m = String::new();
            push_str(&mut m, "unknown answerer `");
            push_str(&mut m, name);
            push_str(&mut m, "`: expected `coordinator` or `user`");
            Err(Error::Config(m))
        },
    }
}

} // verus!
