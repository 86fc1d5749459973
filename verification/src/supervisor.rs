//! The supervisor's share of a tick: how many worker slots are free across the store,
//! and the order in which the projects take their turns.
use vstd::prelude::*;

use crate::tasks::{ProjectState, Task};

verus! {

/// Whether a task holds a worker slot: it is in flight and its latest attempt holds a
/// worktree lease.
pub open spec fn holds_slot(task: Task) -> bool {
    task.in_flight && task.attempts@.len() > 0 && task.attempts@.last().worktree is Some
}

/// How many of the tasks hold a worker slot.
pub open spec fn slots_held(tasks: Seq<Task>) -> nat
    decreases tasks.len(),
{
    if tasks.len() == 0 {
        0
    } else {
        slots_held(tasks.drop_last()) + if holds_slot(tasks.last()) {
            1nat
        } else {
            0nat
        }
    }
}

/// How many slots the projects' tasks hold between them.
pub open spec fn slots_held_in(states: Seq<ProjectState>) -> nat
    decreases states.len(),
{
    if states.len() == 0 {
        0
    } else {
        slots_held_in(states.drop_last()) + slots_held(states.last().tasks@)
    }
}

/// The worker slots a tick may fill: the store-wide concurrency cap less the slots its
/// projects' tasks hold, and none when they hold that many or more.
pub open spec fn free_slots_spec(capacity: nat, states: Seq<ProjectState>) -> nat {
    if slots_held_in(states) >= capacity {
        0
    } else {
        (capacity - slots_held_in(states)) as nat
    }
}

pub fn free_slots(capacity: usize, states: &[ProjectState]) -> (r: usize)
    ensures
        r == free_slots_spec(capacity as nat, states@),
{
    let mut left = capacity;
    let ghost mut held: nat = 0;
    let mut p: usize = 0;
    assert(states@.take(0) =~= Seq::<ProjectState>::empty());
    while p < states.len()
        invariant
            p <= states@.len(),
            held == slots_held_in(states@.take(p as int)),
            left == (if held >= capacity { 0 } else { (capacity - held) as nat }),
        decreases states@.len() - p,
    {
        assert(states@.take(p + 1).drop_last() == states@.take(p as int));
        assert(states@.take(p + 1).last() == states@[p as int]);
        let tasks = &states[p].tasks;
        let ghost before = held;
        let mut i: usize = 0;
        assert(tasks@.take(0) =~= Seq::<Task>::empty());
        while i < tasks.len()
            invariant
                i <= tasks@.len(),
                held == before + slots_held(tasks@.take(i as int)),
                left == (if held >= capacity { 0 } else { (capacity - held) as nat }),
            decreases tasks@.len() - i,
        {
            assert(tasks@.take(i + 1).drop_last() == tasks@.take(i as int));
            assert(tasks@.take(i + 1).last() == tasks@[i as int]);
            let t = &tasks[i];
            if t.in_flight && t.attempts.len() > 0 && t.attempts[t.attempts.len() - 1].worktree.is_some() {
                left = if left > 0 { left - 1 } else { 0 };
                proof {
                    held = held + 1;
                }
            }
            i += 1;
        }
        assert(tasks@.take(tasks@.len() as int) == tasks@);
        p += 1;
    }
    assert(states@.take(states@.len() as int) == states@);
    left
}

/// The project that takes turn `k` of a tick that starts at project `start`, of `count`.
pub open spec fn rotated(start: int, k: int, count: int) -> int {
    if start + k < count {
        start + k
    } else {
        start + k - count
    }
}

/// The order in which the `count` projects take their turns on tick number `turn`: they
/// take turns in a circle, starting one further round on each tick, so that no project is
/// always served first.
pub fn visit_order(turn: usize, count: usize) -> (r: Vec<usize>)
    ensures
        r@.len() == count,
        forall|k: int| 0 <= k < count ==> (#[trigger] r@[k]) as int == rotated(
            (turn % count) as int,
            k,
            count as int,
        ) && r@[k] as int == (turn as int + k) % (count as int),
{
    let mut order: Vec<usize> = Vec::new();
    if count == 0 {
        return order;
    }
    let start = turn % count;
    let mut k: usize = 0;
    while k < count
        invariant
            0 < count,
            start == turn % count,
            k <= count,
            order@.len() == k,
            forall|j: int| 0 <= j < k ==> (#[trigger] order@[j]) as int == rotated(
                start as int,
                j,
                count as int,
            ) && order@[j] as int == (turn as int + j) % (count as int),
        decreases count - k,
    {
        let position = if start < count - k {
            start + k
        } else {
            start - (count - k)
        };
        proof {
            let c = count as int;
            let s = start as int;
            let j = k as int;
            vstd::arithmetic::div_mod::lemma_add_mod_noop(turn as int, j, c);
            vstd::arithmetic::div_mod::lemma_small_mod(k as nat, count as nat);
            if s + j < c {
                vstd::arithmetic::div_mod::lemma_small_mod((s + j) as nat, count as nat);
            } else {
                vstd::arithmetic::div_mod::lemma_mod_add_multiples_vanish(s + j - c, c);
                vstd::arithmetic::div_mod::lemma_small_mod((s + j - c) as nat, count as nat);
            }
        }
        order.push(position);
        k += 1;
    }
    order
}

/// The turn at which project `j` is served in a tick that starts at project `start`.
pub open spec fn turn_of(start: int, j: int, count: int) -> int {
    if j >= start {
        j - start
    } else {
        j + count - start
    }
}

/// In a tick every project takes exactly one turn: each of the `count` projects is served
/// at some turn, and no two turns serve the same project.
pub proof fn lemma_each_project_once(turn: nat, count: nat)
    requires
        count > 0,
    ensures
        forall|j: int|
            0 <= j < count ==> 0 <= #[trigger] turn_of((turn % count) as int, j, count as int)
                < count && rotated(
                (turn % count) as int,
                turn_of((turn % count) as int, j, count as int),
                count as int,
            ) == j,
        forall|a: int, b: int|
            0 <= a < count && 0 <= b < count && #[trigger] rotated((turn % count) as int, a, count as int)
                == #[trigger] rotated((turn % count) as int, b, count as int) ==> a == b,
{
}

} // verus!
