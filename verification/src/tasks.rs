//! A task's record as the checklist and the inbox read it: plain values, each field as
//! the task model holds it.
use vstd::prelude::*;

use crate::adapters::forge::Checks;
use crate::names::{Role, TaskState};
use crate::records::Timestamp;

verus! {

/// A question a worker asked, with its answer once there is one.
#[derive(Debug, Clone, PartialEq, Eq)]
pub struct Question {
    pub text: String,
    pub answer: Option<String>,
}

/// One worker attempt at a task.
#[derive(Debug, Clone, PartialEq, Eq)]
pub struct Attempt {
    /// Whether the attempt's outcome is still open.
    pub open: bool,
    pub started_at: Timestamp,
    /// The worker session running it, once there is one.
    pub session: Option<String>,
    /// When the session was last seen alive.
    pub last_seen_at: Option<Timestamp>,
    /// The worktree lease it runs in.
    pub worktree: Option<String>,
}

/// A dependency of a task and whether it is satisfied: the task it names validated at
/// the commit it names.
#[derive(Debug, Clone, PartialEq, Eq)]
pub struct DependencyStanding {
    pub task: String,
    pub commit: String,
    pub satisfied: bool,
}

/// A task's pull request: its number, its address and the verdict of its checks.
#[derive(Debug, Clone, PartialEq, Eq)]
pub struct PullRequestRecord {
    pub number: u64,
    pub url: String,
    pub checks: Checks,
}

/// A validation run: the command, the commit it ran at, and how it exited.
#[derive(Debug, Clone, PartialEq, Eq)]
pub struct ValidationRecord {
    pub command: String,
    pub commit: String,
    pub exit_code: i32,
}

/// A worktree lease held back from the pool, and why.
#[derive(Debug, Clone, PartialEq, Eq)]
pub struct HeldLease {
    pub lease: String,
    pub reason: String,
}

/// A worker turn put off: how many times, and the latest reason.
#[derive(Debug, Clone, PartialEq, Eq)]
pub struct TurnDeferral {
    pub count: u32,
    pub reason: String,
}

/// A task's record.
#[derive(Debug, Clone, PartialEq, Eq)]
pub struct Task {
    pub id: String,
    pub title: String,
    /// The brief its workers get; it never reaches a pull request.
    pub intent: String,
    pub role: Role,
    pub state: TaskState,
    /// Whether the task's state counts as in flight.
    pub in_flight: bool,
    pub created_at: Timestamp,
    /// Its attempts, the latest last.
    pub attempts: Vec<Attempt>,
    pub dependencies: Vec<DependencyStanding>,
    /// The task this one reworks.
    pub rework_of: Option<String>,
    pub pull_request: Option<PullRequestRecord>,
    /// The base branch its pull request conflicts with.
    pub conflict_base: Option<String>,
    /// Whether its pull request is held until released.
    pub hold_pr: bool,
    /// Why the forge refused to merge its pull request.
    pub merge_refused: Option<String>,
    /// The worktree leases held back from the pool, by lease.
    pub release_held: Vec<HeldLease>,
    pub failure: Option<String>,
    pub turn_deferral: Option<TurnDeferral>,
    /// A new direction for the worker, and whether it was delivered.
    pub redirect_text: Option<String>,
    pub redirect_delivered: bool,
    /// The questions its workers asked, in order.
    pub questions: Vec<Question>,
    /// The paths of the artifacts its worker submitted.
    pub artifacts: Vec<String>,
    /// Its validation runs, the latest last.
    pub validations: Vec<ValidationRecord>,
    /// When it may be retried, if it waits for a retry.
    pub retry_not_before: Option<Timestamp>,
    /// The commit its branch was last pushed at.
    pub branch_head: Option<String>,
    /// The commit its validation passed at, while that pass still stands.
    pub validated_commit: Option<String>,
}

/// The index of the latest question with no answer, if any.
pub open spec fn unanswered_index(questions: Seq<Question>) -> Option<int>
    decreases questions.len(),
{
    if questions.len() == 0 {
        None
    } else if questions.last().answer is None {
        Some(questions.len() - 1)
    } else {
        unanswered_index(questions.drop_last())
    }
}

/// The latest question with no answer, if any.
pub open spec fn unanswered_spec(task: Task) -> Option<Question> {
    match unanswered_index(task.questions@) {
        Some(i) => Some(task.questions@[i]),
        None => None,
    }
}

pub proof fn lemma_unanswered_index(questions: Seq<Question>)
    ensures
        match unanswered_index(questions) {
            Some(i) => 0 <= i < questions.len() && questions[i].answer is None && forall|
                j: int,
            | i < j < questions.len() ==> questions[j].answer is Some,
            None => forall|j: int| 0 <= j < questions.len() ==> questions[j].answer is Some,
        },
    decreases questions.len(),
{
    if questions.len() > 0 {
        let rest = questions.drop_last();
        lemma_unanswered_index(rest);
        assert forall|j: int| 0 <= j < rest.len() implies rest[j] == questions[j] by {}
    }
}

/// The latest question of `task` that has no answer.
pub fn unanswered(task: &Task) -> (r: Option<&Question>)
    ensures
        match r {
            Some(q) => unanswered_spec(*task) == Some(*q),
            None => unanswered_spec(*task) is None,
        },
{
    proof {
        lemma_unanswered_index(task.questions@);
    }
    let mut i = task.questions.len();
    while i > 0
        invariant
            i <= task.questions@.len(),
            forall|j: int| i <= j < task.questions@.len() ==> task.questions@[j].answer is Some,
        decreases i,
    {
        if task.questions[i - 1].answer.is_none() {
            proof {
                lemma_unanswered_index(task.questions@);
                let k = unanswered_index(task.questions@);
                assert(task.questions@[i - 1].answer is None);
                if let Some(k) = k {
                    assert(task.questions@[k].answer is None);
                    assert(k == i - 1);
                }
            }
            return Some(&task.questions[i - 1]);
        }
        i -= 1;
    }
    None
}

/// The worktree lease of the latest attempt.
pub open spec fn lease_spec(task: Task) -> Option<String> {
    if task.attempts@.len() == 0 {
        None
    } else {
        task.attempts@.last().worktree
    }
}

pub fn lease(task: &Task) -> (r: Option<&String>)
    ensures
        match r {
            Some(l) => lease_spec(*task) == Some(*l),
            None => lease_spec(*task) is None,
        },
{
    if task.attempts.len() == 0 {
        None
    } else {
        match &task.attempts[task.attempts.len() - 1].worktree {
            Some(l) => Some(l),
            None => None,
        }
    }
}

/// A project's tasks as its record holds them, in the order of their identifiers.
#[derive(Debug, Clone, PartialEq, Eq)]
pub struct ProjectState {
    /// The project's identity.
    pub project: String,
    pub slug: String,
    pub tasks: Vec<Task>,
}

impl ProjectState {
    /// The tasks are held as the record's map of tasks holds them: each once, in the
    /// order of their identifiers.
    pub open spec fn wf(&self) -> bool {
        forall|i: int, j: int|
            0 <= i < j < self.tasks@.len() ==> text_le(self.tasks@[i].id@, self.tasks@[j].id@)
                && self.tasks@[i].id@ != self.tasks@[j].id@
    }

    /// Whether the state is well formed: see `wf`.
    pub fn ids_in_order(&self) -> (r: bool)
        ensures
            r == self.wf(),
    {
        let n = self.tasks.len();
        let mut j: usize = 0;
        while j < n
            invariant
                n == self.tasks@.len(),
                j <= n,
                forall|a: int, b: int| 0 <= a < b < j ==> text_le(self.tasks@[a].id@, self.tasks@[b].id@)
                    && self.tasks@[a].id@ != self.tasks@[b].id@,
            decreases n - j,
        {
            let mut i: usize = 0;
            while i < j
                invariant
                    n == self.tasks@.len(),
                    i <= j < n,
                    forall|a: int| 0 <= a < i ==> text_le(self.tasks@[a].id@, self.tasks@[j as int].id@)
                        && self.tasks@[a].id@ != self.tasks@[j as int].id@,
                decreases j - i,
            {
                let a = self.tasks[i].id.as_str();
                let b = self.tasks[j].id.as_str();
                if !text_le_exec(a, b) || crate::text::str_eq(a, b) {
                    return false;
                }
                i += 1;
            }
            j += 1;
        }
        true
    }
}

/// Whether `a` orders no later than `b` as text: character by character, a prefix
/// first.
pub open spec fn text_le(a: Seq<char>, b: Seq<char>) -> bool
    decreases a.len(),
{
    if a.len() == 0 {
        true
    } else if b.len() == 0 {
        false
    } else if a[0] != b[0] {
        (a[0] as int) < (b[0] as int)
    } else {
        text_le(a.skip(1), b.skip(1))
    }
}

pub fn text_le_exec(a: &str, b: &str) -> (r: bool)
    ensures
        r == text_le(a@, b@),
{
    let x = crate::text::chars_of(a);
    let y = crate::text::chars_of(b);
    let mut i: usize = 0;
    assert(x@.skip(0) == x@ && y@.skip(0) == y@);
    while i < x.len() && i < y.len()
        invariant
            i <= x@.len(),
            i <= y@.len(),
            x@ == a@,
            y@ == b@,
            text_le(a@, b@) == text_le(x@.skip(i as int), y@.skip(i as int)),
        decreases x@.len() - i,
    {
        assert(x@.skip(i as int)[0] == x@[i as int]);
        assert(y@.skip(i as int)[0] == y@[i as int]);
        assert(x@.skip(i as int).skip(1) == x@.skip(i + 1));
        assert(y@.skip(i as int).skip(1) == y@.skip(i + 1));
        if x[i] != y[i] {
            return x[i] < y[i];
        }
        i += 1;
    }
    i == x.len()
}

/// Whether task `a` is listed no later than task `b`: by when it was created, then by
/// identifier.
pub open spec fn listed_before(a: Task, b: Task) -> bool {
    a.created_at@ < b.created_at@ || (a.created_at@ == b.created_at@ && text_le(a.id@, b.id@))
}

pub fn comes_before(a: &Task, b: &Task) -> (r: bool)
    ensures
        r == listed_before(*a, *b),
{
    let x = a.created_at.millis();
    let y = b.created_at.millis();
    x < y || (x == y && text_le_exec(a.id.as_str(), b.id.as_str()))
}

/// `task` put into the listed order `sorted`: after every task listed no later than it
/// that comes before the first one that is listed later.
pub open spec fn insert_listed(sorted: Seq<Task>, task: Task) -> Seq<Task>
    decreases sorted.len(),
{
    if sorted.len() == 0 {
        seq![task]
    } else if listed_before(sorted.last(), task) {
        sorted.push(task)
    } else {
        insert_listed(sorted.drop_last(), task).push(sorted.last())
    }
}

/// The tasks in listed order; tasks that order the same keep their order.
pub open spec fn sort_listed(tasks: Seq<Task>) -> Seq<Task>
    decreases tasks.len(),
{
    if tasks.len() == 0 {
        Seq::empty()
    } else {
        insert_listed(sort_listed(tasks.drop_last()), tasks.last())
    }
}

/// The tasks in the given state, in order.
pub open spec fn in_state(tasks: Seq<Task>, state: TaskState) -> Seq<Task>
    decreases tasks.len(),
{
    if tasks.len() == 0 {
        Seq::empty()
    } else if tasks.last().state == state {
        in_state(tasks.drop_last(), state).push(tasks.last())
    } else {
        in_state(tasks.drop_last(), state)
    }
}

proof fn lemma_insert_at(sorted: Seq<Task>, task: Task, j: int)
    requires
        0 <= j <= sorted.len(),
        forall|k: int| j <= k < sorted.len() ==> !listed_before(#[trigger] sorted[k], task),
        j > 0 ==> listed_before(sorted[j - 1], task),
    ensures
        insert_listed(sorted, task) == sorted.take(j).push(task) + sorted.skip(j),
    decreases sorted.len(),
{
    if sorted.len() == 0 {
        assert(sorted.take(j).push(task) + sorted.skip(j) =~= seq![task]);
    } else if j == sorted.len() {
        assert(sorted.take(j) == sorted);
        assert(sorted.take(j).push(task) + sorted.skip(j) =~= sorted.push(task));
    } else {
        let rest = sorted.drop_last();
        assert(!listed_before(sorted[sorted.len() - 1], task));
        assert forall|k: int| j <= k < rest.len() implies !listed_before(#[trigger] rest[k], task) by {
            assert(rest[k] == sorted[k]);
        }
        lemma_insert_at(rest, task, j);
        assert(rest.take(j) == sorted.take(j));
        assert((rest.take(j).push(task) + rest.skip(j)).push(sorted.last()) =~= sorted.take(j).push(
            task,
        ) + sorted.skip(j));
    }
}

pub open spec fn tasks_at(tasks: Seq<Task>, order: Seq<usize>) -> Seq<Task> {
    Seq::new(order.len(), |k: int| tasks[order[k] as int])
}

/// The positions in `tasks` of the tasks in `state`, in listed order.
pub fn listed_in_state(tasks: &[Task], state: TaskState) -> (r: Vec<usize>)
    ensures
        forall|k: int| 0 <= k < r@.len() ==> r@[k] < tasks@.len(),
        tasks_at(tasks@, r@) == sort_listed(in_state(tasks@, state)),
{
    let mut order: Vec<usize> = Vec::new();
    let mut i: usize = 0;
    assert(tasks@.take(0) =~= Seq::<Task>::empty());
    assert(tasks_at(tasks@, order@) =~= Seq::<Task>::empty());
    while i < tasks.len()
        invariant
            i <= tasks@.len(),
            forall|k: int| 0 <= k < order@.len() ==> order@[k] < i,
            tasks_at(tasks@, order@) == sort_listed(in_state(tasks@.take(i as int), state)),
        decreases tasks@.len() - i,
    {
        assert(tasks@.take(i + 1).drop_last() == tasks@.take(i as int));
        assert(tasks@.take(i + 1).last() == tasks@[i as int]);
        if tasks[i].state == state {
            let ghost sorted = tasks_at(tasks@, order@);
            let mut j = order.len();
            while j > 0 && !comes_before(&tasks[order[j - 1]], &tasks[i])
                invariant
                    j <= order@.len(),
                    i < tasks@.len(),
                    forall|k: int| 0 <= k < order@.len() ==> order@[k] < i,
                    sorted == tasks_at(tasks@, order@),
                    forall|k: int| j <= k < sorted.len() ==> !listed_before(#[trigger] sorted[k], tasks@[i as int]),
                decreases j,
            {
                j -= 1;
            }
            proof {
                lemma_insert_at(sorted, tasks@[i as int], j as int);
            }
            order.insert(j, i);
            assert(tasks_at(tasks@, order@) =~= sorted.take(j as int).push(tasks@[i as int]) + sorted.skip(j as int));
            proof {
                let filtered = in_state(tasks@.take(i as int), state);
                let t = tasks@[i as int];
                assert(in_state(tasks@.take(i + 1), state) == filtered.push(t));
                assert(filtered.push(t).drop_last() == filtered);
                assert(sort_listed(filtered.push(t)) == insert_listed(sort_listed(filtered), t));
            }
        } else {
            assert(in_state(tasks@.take(i + 1), state) == in_state(tasks@.take(i as int), state));
        }
        i += 1;
    }
    assert(tasks@.take(tasks@.len() as int) == tasks@);
    order
}

proof fn lemma_text_le_total(a: Seq<char>, b: Seq<char>)
    ensures
        text_le(a, b) || text_le(b, a),
    decreases a.len(),
{
    if a.len() > 0 && b.len() > 0 {
        if a[0] == b[0] {
            lemma_text_le_total(a.skip(1), b.skip(1));
        } else {
            assert((a[0] as int) != (b[0] as int));
        }
    }
}

proof fn lemma_text_le_transitive(a: Seq<char>, b: Seq<char>, c: Seq<char>)
    requires
        text_le(a, b),
        text_le(b, c),
    ensures
        text_le(a, c),
    decreases a.len(),
{
    if a.len() > 0 && b.len() > 0 && c.len() > 0 && a[0] == b[0] && b[0] == c[0] {
        lemma_text_le_transitive(a.skip(1), b.skip(1), c.skip(1));
    }
}

proof fn lemma_listed_total(a: Task, b: Task)
    ensures
        listed_before(a, b) || listed_before(b, a),
{
    lemma_text_le_total(a.id@, b.id@);
}

proof fn lemma_listed_transitive(a: Task, b: Task, c: Task)
    requires
        listed_before(a, b),
        listed_before(b, c),
    ensures
        listed_before(a, c),
{
    if a.created_at@ == b.created_at@ && b.created_at@ == c.created_at@ {
        lemma_text_le_transitive(a.id@, b.id@, c.id@);
    }
}

/// Whether every task is listed no later than each one after it.
pub open spec fn in_listed_order(tasks: Seq<Task>) -> bool {
    forall|i: int, j: int| 0 <= i < j < tasks.len() ==> listed_before(tasks[i], tasks[j])
}

proof fn lemma_insert_listed(sorted: Seq<Task>, task: Task)
    requires
        in_listed_order(sorted),
    ensures
        in_listed_order(insert_listed(sorted, task)),
        insert_listed(sorted, task).to_multiset() == sorted.to_multiset().insert(task),
        forall|k: int| 0 <= k < insert_listed(sorted, task).len() ==> (#[trigger] insert_listed(sorted, task)[k] == task || sorted.contains(insert_listed(sorted, task)[k])),
    decreases sorted.len(),
{
    broadcast use vstd::seq_lib::group_to_multiset_ensures;

    if sorted.len() == 0 {
        assert(seq![task] =~= Seq::<Task>::empty().push(task));
    } else if listed_before(sorted.last(), task) {
        let r = sorted.push(task);
        assert forall|i: int, j: int| 0 <= i < j < r.len() implies listed_before(r[i], r[j]) by {
            if j == sorted.len() && i < sorted.len() - 1 {
                lemma_listed_transitive(sorted[i], sorted.last(), task);
            }
        }
        assert forall|k: int| 0 <= k < r.len() implies (#[trigger] r[k] == task || sorted.contains(r[k])) by {
            if k < sorted.len() {
                assert(r[k] == sorted[k]);
            }
        }
    } else {
        let rest = sorted.drop_last();
        let last = sorted.last();
        assert forall|i: int, j: int| 0 <= i < j < rest.len() implies listed_before(rest[i], rest[j]) by {
            assert(rest[i] == sorted[i] && rest[j] == sorted[j]);
        }
        lemma_insert_listed(rest, task);
        let inner = insert_listed(rest, task);
        let r = inner.push(last);
        lemma_listed_total(last, task);
        assert forall|i: int, j: int| 0 <= i < j < r.len() implies listed_before(r[i], r[j]) by {
            if j == inner.len() {
                let x = inner[i];
                if x != task {
                    assert(rest.contains(x));
                    let k = choose|k: int| 0 <= k < rest.len() && rest[k] == x;
                    assert(sorted[k] == x);
                    assert(listed_before(sorted[k], sorted[sorted.len() - 1]));
                }
            }
        }
        assert forall|k: int| 0 <= k < r.len() implies (#[trigger] r[k] == task || sorted.contains(r[k])) by {
            if k == inner.len() {
                assert(sorted[sorted.len() - 1] == last);
            } else {
                let x = inner[k];
                if x != task {
                    assert(rest.contains(x));
                    let m = choose|m: int| 0 <= m < rest.len() && rest[m] == x;
                    assert(sorted[m] == x);
                }
            }
        }
        assert(rest.push(last) == sorted);
        assert(r.to_multiset() =~= sorted.to_multiset().insert(task));
    }
}

/// The checklist's order holds what it orders: `sort_listed` lists every task once, each
/// no later than the ones after it.
pub proof fn lemma_sort_listed(tasks: Seq<Task>)
    ensures
        in_listed_order(sort_listed(tasks)),
        sort_listed(tasks).to_multiset() == tasks.to_multiset(),
    decreases tasks.len(),
{
    broadcast use vstd::seq_lib::group_to_multiset_ensures;

    if tasks.len() > 0 {
        lemma_sort_listed(tasks.drop_last());
        lemma_insert_listed(sort_listed(tasks.drop_last()), tasks.last());
        assert(tasks.drop_last().push(tasks.last()) == tasks);
    }
}

} // verus!
