use vstd::prelude::*;
use crate::config::WorkflowLoopConfig;
use crate::loop_policy::{spec_proactive_max_cycles, proactive_max_cycles};

verus! {

/// What the task loop does before a cycle.
#[derive(Debug, PartialEq, Eq, Structural)]
pub enum CycleStartAction {
    /// The task was paused from outside: record a `paused` metric and return.
    RecordPausedAndReturn,
    /// The stop flag is set: mark the task paused, record it, and return.
    PauseForStopFlag,
    /// The cycle ceiling is reached: record `max_cycles_enforced` and leave the loop.
    EnforceMaxCycles { max_cycles: u32 },
    /// Start cycle `cycle`; look for degenerate rapid cycling first when `check_rapid`.
    StartCycle { cycle: u32, check_rapid: bool },
}

/// The action before a cycle, given the pause state, the stop flag and the current cycle.
pub open spec fn spec_cycle_start(
    paused_in_db: bool,
    stop_flag: bool,
    current_cycle: u32,
    policy: WorkflowLoopConfig,
) -> CycleStartAction {
    if paused_in_db {
        CycleStartAction::RecordPausedAndReturn
    } else if stop_flag {
        CycleStartAction::PauseForStopFlag
    } else if current_cycle >= spec_proactive_max_cycles(policy) {
        CycleStartAction::EnforceMaxCycles { max_cycles: spec_proactive_max_cycles(policy) }
    } else {
        CycleStartAction::StartCycle {
            cycle: (current_cycle + 1) as u32,
            check_rapid: current_cycle + 1 >= 4,
        }
    }
}

/// Decides what the task loop does before a cycle.
pub fn decide_cycle_start(
    paused_in_db: bool,
    stop_flag: bool,
    current_cycle: u32,
    policy: &WorkflowLoopConfig,
) -> (r: CycleStartAction)
    ensures
        r == spec_cycle_start(paused_in_db, stop_flag, current_cycle, *policy),
{
    if paused_in_db {
        return CycleStartAction::RecordPausedAndReturn;
    }
    if stop_flag {
        return CycleStartAction::PauseForStopFlag;
    }
    let ceiling = proactive_max_cycles(policy);
    if current_cycle >= ceiling {
        return CycleStartAction::EnforceMaxCycles { max_cycles: ceiling };
    }
    let cycle = current_cycle + 1;
    CycleStartAction::StartCycle { cycle, check_rapid: cycle >= 4 }
}

/// Consecutive failing cycles after a cycle that left `cycle_unresolved` items open.
pub fn next_consecutive_failures(previous: u32, cycle_unresolved: i64) -> (r: u32)
    requires
        previous < u32::MAX,
    ensures
        r == (if cycle_unresolved > 0 {
            previous + 1
        } else {
            0
        }),
{
    if cycle_unresolved > 0 {
        previous + 1
    } else {
        0
    }
}

/// How a violated invariant is handled.
#[derive(Clone, Copy, Debug, PartialEq, Eq, Structural)]
pub enum OnViolation {
    Warn,
    Halt,
    Rollback,
}

/// Outcome of one invariant check.
pub struct InvariantResult {
    pub name: String,
    pub passed: bool,
    pub message: String,
    pub on_violation: OnViolation,
}

/// What a checkpoint asks of the loop.
#[derive(Clone, Copy, Debug, PartialEq, Eq, Structural)]
pub enum InvariantAction {
    Halt,
    Rollback,
}

/// A failed invariant with the given handling is among the results.
pub open spec fn has_violation(results: Seq<InvariantResult>, kind: OnViolation) -> bool {
    exists|i: int| 0 <= i < results.len() && !results[i].passed && results[i].on_violation == kind
}

/// Halting violations win over rollbacks; warnings ask for nothing.
pub open spec fn spec_invariant_action(results: Seq<InvariantResult>) -> Option<InvariantAction> {
    if has_violation(results, OnViolation::Halt) {
        Some(InvariantAction::Halt)
    } else if has_violation(results, OnViolation::Rollback) {
        Some(InvariantAction::Rollback)
    } else {
        None
    }
}

fn any_violation(results: &Vec<InvariantResult>, kind: OnViolation) -> (r: bool)
    ensures
        r == has_violation(results@, kind),
{
    let mut i: usize = 0;
    while i < results.len()
        invariant
            i <= results@.len(),
            forall|j: int| 0 <= j < i ==> !(!results@[j].passed && results@[j].on_violation == kind),
        decreases results@.len() - i,
    {
        if !results[i].passed && results[i].on_violation == kind {
            return true;
        }
        i = i + 1;
    }
    false
}

/// The action a checkpoint's invariant results ask for.
pub fn invariant_action(results: &Vec<InvariantResult>) -> (r: Option<InvariantAction>)
    ensures
        r == spec_invariant_action(results@),
{
    if any_violation(results, OnViolation::Halt) {
        Some(InvariantAction::Halt)
    } else if any_violation(results, OnViolation::Rollback) {
        Some(InvariantAction::Rollback)
    } else {
        None
    }
}

/// How a task ends after its loop.
#[derive(Clone, Copy, Debug, PartialEq, Eq, Structural)]
pub enum TaskFinalOutcome {
    /// The task was paused meanwhile: leave its status alone.
    LeavePaused,
    /// Items remain open (counting stale pending ones): the task failed.
    Failed { effective_unresolved: i64 },
    /// Everything is resolved: the task completed.
    Completed,
}

/// The task's final outcome after the loop.
pub fn final_task_outcome(paused_in_db: bool, unresolved: i64, stale_pending: i64) -> (r:
    TaskFinalOutcome)
    requires
        i64::MIN <= unresolved + stale_pending <= i64::MAX,
    ensures
        paused_in_db ==> r == TaskFinalOutcome::LeavePaused,
        !paused_in_db && unresolved + stale_pending > 0 ==> r == (TaskFinalOutcome::Failed {
            effective_unresolved: (unresolved + stale_pending) as i64,
        }),
        !paused_in_db && unresolved + stale_pending <= 0 ==> r == TaskFinalOutcome::Completed,
{
    let effective = unresolved + stale_pending;
    if paused_in_db {
        TaskFinalOutcome::LeavePaused
    } else if effective > 0 {
        TaskFinalOutcome::Failed { effective_unresolved: effective }
    } else {
        TaskFinalOutcome::Completed
    }
}

/// The loop starts a cycle only below the ceiling, and numbers it one past the current cycle.
pub proof fn law_started_cycle_within_ceiling(
    paused_in_db: bool,
    stop_flag: bool,
    current_cycle: u32,
    policy: WorkflowLoopConfig,
)
    requires
        spec_cycle_start(paused_in_db, stop_flag, current_cycle, policy) is StartCycle,
    ensures
        spec_cycle_start(paused_in_db, stop_flag, current_cycle, policy)->cycle
            <= spec_proactive_max_cycles(policy),
        spec_cycle_start(paused_in_db, stop_flag, current_cycle, policy)->cycle == current_cycle
            + 1,
{
}

} // verus!
