use scheduler_core::config::{
    LoopMode, StepBehavior, TaskExecutionStep, WorkflowLoopConfig, WorkflowLoopGuardConfig,
};
use scheduler_core::loop_policy::{
    detect_rapid_cycles, evaluate_builtin_loop_guard, evaluate_loop_continuation, guard_runs_in_cycle,
    parse_cycle_timestamp, proactive_max_cycles,
};
use scheduler_core::phase::output_tail_start;
use scheduler_core::task_loop::{
    decide_cycle_start, final_task_outcome, invariant_action, next_consecutive_failures, CycleStartAction,
    InvariantAction, InvariantResult, OnViolation, TaskFinalOutcome,
};

fn policy(mode: LoopMode, enabled: bool, stop_when_no_unresolved: bool, max_cycles: Option<u32>) -> WorkflowLoopConfig {
    WorkflowLoopConfig {
        mode,
        guard: WorkflowLoopGuardConfig {
            enabled,
            stop_when_no_unresolved,
            max_cycles,
            agent_template: None,
        },
    }
}

fn guard_step(repeatable: bool) -> TaskExecutionStep {
    TaskExecutionStep {
        id: "loop_guard".to_string(),
        required_capability: None,
        execution_profile: None,
        builtin: Some("loop_guard".to_string()),
        enabled: true,
        repeatable,
        is_guard: true,
        tty: false,
        template: None,
        pipe_to: None,
        command: None,
        scope: None,
        behavior: StepBehavior::default_behavior(),
        max_parallel: None,
        timeout_secs: None,
        item_select_config: None,
    }
}

fn strings(v: &[&str]) -> Vec<String> {
    v.iter().map(|s| s.to_string()).collect()
}

#[test]
fn continuation_follows_unresolved_items_when_guard_decides() {
    let p = policy(LoopMode::Infinite, true, true, None);
    let c = evaluate_loop_continuation(&p, 3, 2);
    assert!(c.should_continue);
    assert_eq!(c.reason, "continue");
    let d = evaluate_loop_continuation(&p, 3, 0);
    assert!(!d.should_continue);
    assert_eq!(d.reason, "no_unresolved_items");
}

#[test]
fn continuation_without_stop_rule_keeps_going() {
    let p = policy(LoopMode::Infinite, true, false, None);
    let c = evaluate_loop_continuation(&p, 10, 0);
    assert!(c.should_continue);
    assert_eq!(c.reason, "continue");
}

#[test]
fn continuation_reports_rule_reasons() {
    let once = evaluate_loop_continuation(&policy(LoopMode::Once, true, true, None), 1, 5);
    assert!(!once.should_continue);
    assert_eq!(once.reason, "once_mode");
    let fixed = evaluate_loop_continuation(&policy(LoopMode::Fixed, true, true, Some(3)), 2, 0);
    assert!(fixed.should_continue);
    assert_eq!(fixed.reason, "fixed_cycle_continue");
    let done = evaluate_loop_continuation(&policy(LoopMode::Fixed, true, true, Some(3)), 3, 4);
    assert!(!done.should_continue);
    assert_eq!(done.reason, "fixed_cycles_complete");
    let capped = evaluate_loop_continuation(&policy(LoopMode::Infinite, true, true, Some(4)), 4, 9);
    assert!(!capped.should_continue);
    assert_eq!(capped.reason, "max_cycles_reached");
}

#[test]
fn proactive_ceiling_per_mode() {
    assert_eq!(proactive_max_cycles(&policy(LoopMode::Fixed, true, true, None)), 1);
    assert_eq!(proactive_max_cycles(&policy(LoopMode::Fixed, true, true, Some(5))), 5);
    assert_eq!(proactive_max_cycles(&policy(LoopMode::Infinite, true, true, None)), u32::MAX);
    assert_eq!(proactive_max_cycles(&policy(LoopMode::Infinite, true, true, Some(7))), 7);
    assert_eq!(proactive_max_cycles(&policy(LoopMode::Once, true, true, Some(7))), u32::MAX);
}

#[test]
fn builtin_loop_guard_stops_only_without_unresolved() {
    let g = evaluate_builtin_loop_guard(true, 0);
    assert!(g.should_stop);
    assert_eq!(g.reason, "no_unresolved");
    let h = evaluate_builtin_loop_guard(true, 3);
    assert!(!h.should_stop);
    assert_eq!(h.reason, "has_unresolved");
    let k = evaluate_builtin_loop_guard(false, 0);
    assert!(!k.should_stop);
}

#[test]
fn guards_run_in_first_cycle_or_when_repeatable() {
    assert!(guard_runs_in_cycle(&guard_step(false), 1));
    assert!(!guard_runs_in_cycle(&guard_step(false), 2));
    assert!(guard_runs_in_cycle(&guard_step(true), 5));
}

#[test]
fn cycle_timestamps_parse_in_each_layout() {
    assert_eq!(parse_cycle_timestamp("2024-01-01T00:00:00Z"), Some((1704067200, 0)));
    assert_eq!(parse_cycle_timestamp("2024-01-01T01:00:00+01:00"), Some((1704067200, 0)));
    assert_eq!(parse_cycle_timestamp("2024-01-01 00:00:10"), Some((1704067210, 0)));
    assert_eq!(parse_cycle_timestamp("2024-01-01T00:00:20"), Some((1704067220, 0)));
    assert_eq!(parse_cycle_timestamp("2024-01-01T00:00:20.5"), Some((1704067220, 500_000_000)));
    assert_eq!(parse_cycle_timestamp("not a time"), None);
}

#[test]
fn rapid_cycles_need_four_parsed_close_timestamps() {
    let close = strings(&[
        "2024-01-01T00:00:00Z",
        "2024-01-01T00:00:05Z",
        "2024-01-01T00:00:09Z",
        "2024-01-01T00:00:12Z",
    ]);
    assert!(detect_rapid_cycles(&close, 60));
    assert!(!detect_rapid_cycles(&close, 4));
    assert!(!detect_rapid_cycles(&close[..3].to_vec(), 60));
    let spaced = strings(&[
        "2024-01-01T00:00:00Z",
        "2024-01-01T00:00:05Z",
        "2024-01-01T00:10:00Z",
        "2024-01-01T00:10:05Z",
    ]);
    assert!(!detect_rapid_cycles(&spaced, 60));
    let unparsable = strings(&["2024-01-01T00:00:00Z", "x", "2024-01-01T00:00:01Z", "2024-01-01T00:00:02Z"]);
    assert!(!detect_rapid_cycles(&unparsable, 60));
}

#[test]
fn cycle_start_decisions() {
    let p = policy(LoopMode::Fixed, true, true, Some(3));
    assert_eq!(decide_cycle_start(true, true, 0, &p), CycleStartAction::RecordPausedAndReturn);
    assert_eq!(decide_cycle_start(false, true, 0, &p), CycleStartAction::PauseForStopFlag);
    assert_eq!(decide_cycle_start(false, false, 3, &p), CycleStartAction::EnforceMaxCycles { max_cycles: 3 });
    assert_eq!(
        decide_cycle_start(false, false, 0, &p),
        CycleStartAction::StartCycle { cycle: 1, check_rapid: false }
    );
    let q = policy(LoopMode::Infinite, true, true, None);
    assert_eq!(
        decide_cycle_start(false, false, 3, &q),
        CycleStartAction::StartCycle { cycle: 4, check_rapid: true }
    );
}

#[test]
fn consecutive_failures_count_and_reset() {
    assert_eq!(next_consecutive_failures(2, 1), 3);
    assert_eq!(next_consecutive_failures(2, 0), 0);
}

fn inv(passed: bool, on_violation: OnViolation) -> InvariantResult {
    InvariantResult {
        name: "inv".to_string(),
        passed,
        message: String::new(),
        on_violation,
    }
}

#[test]
fn invariant_violations_halt_before_rollback() {
    assert_eq!(invariant_action(&vec![inv(false, OnViolation::Warn)]), None);
    assert_eq!(
        invariant_action(&vec![inv(false, OnViolation::Rollback), inv(true, OnViolation::Halt)]),
        Some(InvariantAction::Rollback)
    );
    assert_eq!(
        invariant_action(&vec![inv(false, OnViolation::Rollback), inv(false, OnViolation::Halt)]),
        Some(InvariantAction::Halt)
    );
}

#[test]
fn final_outcomes() {
    assert_eq!(final_task_outcome(true, 3, 1), TaskFinalOutcome::LeavePaused);
    assert_eq!(final_task_outcome(false, 2, 1), TaskFinalOutcome::Failed { effective_unresolved: 3 });
    assert_eq!(final_task_outcome(false, 0, 0), TaskFinalOutcome::Completed);
}

#[test]
fn output_tail_offsets() {
    assert_eq!(output_tail_start(16, 6), 10);
    assert_eq!(output_tail_start(5, 1024), 0);
    assert_eq!(output_tail_start(0, 1024), 0);
    assert_eq!(output_tail_start(5, 5), 0);
}
