use scheduler_core::accumulator::StepExecutionAccumulator;
use scheduler_core::config::{
    CheckpointStrategy, ItemSelectConfig, LoopMode, PipelineVariables, SelectionResult,
    SelectionStrategy, StepBehavior, StepScope, TaskExecutionPlan, TaskExecutionStep,
    TaskItemRow, TaskRuntimeContext, TieBreak, WorkflowLoopConfig, WorkflowLoopGuardConfig,
};
use scheduler_core::loop_policy::{
    compute_rollback_tag, evaluate_loop_guard_rules, should_auto_rollback, should_snapshot_binary,
};
use scheduler_core::segment::{
    build_scope_segments, collect_item_eval_states, collect_remaining_item_step_steps,
    find_item_select_config, is_last_item_segment, promote_winner_vars,
    propagate_task_segment_terminal_state, ScopeSegment,
};
use scheduler_core::strmap::StrMap;
use scheduler_core::task_loop::{invariant_action, InvariantResult};

fn make_loop_policy(mode: LoopMode, max_cycles: Option<u32>) -> WorkflowLoopConfig {
    WorkflowLoopConfig {
        mode,
        guard: WorkflowLoopGuardConfig {
            enabled: true,
            stop_when_no_unresolved: true,
            max_cycles,
            agent_template: None,
        },
    }
}

fn step(
    id: &str,
    builtin: Option<&str>,
    enabled: bool,
    repeatable: bool,
    is_guard: bool,
    scope: Option<StepScope>,
) -> TaskExecutionStep {
    TaskExecutionStep {
        id: id.to_string(),
        required_capability: None,
        execution_profile: None,
        builtin: builtin.map(|b| b.to_string()),
        enabled,
        repeatable,
        is_guard,
        tty: false,
        template: None,
        pipe_to: None,
        command: None,
        scope,
        behavior: StepBehavior::default_behavior(),
        max_parallel: None,
        timeout_secs: None,
        item_select_config: None,
    }
}

fn ctx(steps: Vec<TaskExecutionStep>, current_cycle: u32) -> TaskRuntimeContext {
    TaskRuntimeContext {
        workspace_id: "ws".to_string(),
        workspace_root: "/tmp".to_string(),
        ticket_dir: "tickets".to_string(),
        execution_plan: TaskExecutionPlan {
            steps,
            loop_policy: WorkflowLoopConfig::default_policy(),
            max_parallel: None,
        },
        current_cycle,
        init_done: true,
        pipeline_vars: PipelineVariables::empty(),
        self_referential: false,
        consecutive_failures: 0,
        project_id: String::new(),
        workflow_id: String::new(),
    }
}

fn item(id: &str, path: &str) -> TaskItemRow {
    TaskItemRow {
        id: id.to_string(),
        qa_file_path: path.to_string(),
        dynamic_vars_json: None,
        label: None,
        source: "static".to_string(),
    }
}

fn segment(scope: StepScope, id: &str) -> ScopeSegment {
    ScopeSegment { scope, step_ids: vec![id.to_string()], max_parallel: 1 }
}

// ── loop guard rules ────────────────────────────────────────────

fn check_fixed_mode_stops_at_max_cycles() {
    let policy = make_loop_policy(LoopMode::Fixed, Some(2));
    let result = evaluate_loop_guard_rules(&policy, 1, 0);
    assert_eq!(result, Some((true, "fixed_cycle_continue".to_string())));
    let result = evaluate_loop_guard_rules(&policy, 2, 0);
    assert_eq!(result, Some((false, "fixed_cycles_complete".to_string())));
    let result = evaluate_loop_guard_rules(&policy, 3, 0);
    assert_eq!(result, Some((false, "fixed_cycles_complete".to_string())));
}

#[test]
fn loop_engine_fixed_mode_stops_at_max_cycles() {
    check_fixed_mode_stops_at_max_cycles();
}

#[test]
fn tests_fixed_mode_stops_at_max_cycles() {
    check_fixed_mode_stops_at_max_cycles();
}

fn check_fixed_mode_defaults_to_one_cycle() {
    let policy = make_loop_policy(LoopMode::Fixed, None);
    let result = evaluate_loop_guard_rules(&policy, 1, 0);
    assert_eq!(result, Some((false, "fixed_cycles_complete".to_string())));
}

#[test]
fn loop_engine_fixed_mode_defaults_to_one_cycle() {
    check_fixed_mode_defaults_to_one_cycle();
}

#[test]
fn tests_fixed_mode_defaults_to_one_cycle() {
    check_fixed_mode_defaults_to_one_cycle();
}

fn check_once_mode_always_stops() {
    let policy = make_loop_policy(LoopMode::Once, None);
    let result = evaluate_loop_guard_rules(&policy, 1, 0);
    assert_eq!(result, Some((false, "once_mode".to_string())));
}

#[test]
fn loop_engine_once_mode_always_stops() {
    check_once_mode_always_stops();
}

#[test]
fn tests_once_mode_always_stops() {
    check_once_mode_always_stops();
}

fn check_infinite_mode_respects_max_cycles() {
    let policy = make_loop_policy(LoopMode::Infinite, Some(3));
    let result = evaluate_loop_guard_rules(&policy, 2, 0);
    assert_eq!(result, None);
    let result = evaluate_loop_guard_rules(&policy, 3, 0);
    assert_eq!(result, Some((false, "max_cycles_reached".to_string())));
}

#[test]
fn loop_engine_infinite_mode_respects_max_cycles() {
    check_infinite_mode_respects_max_cycles();
}

#[test]
fn tests_infinite_mode_respects_max_cycles() {
    check_infinite_mode_respects_max_cycles();
}

fn check_infinite_mode_with_disabled_guard_continues_immediately() {
    let mut policy = make_loop_policy(LoopMode::Infinite, None);
    policy.guard.enabled = false;
    let result = evaluate_loop_guard_rules(&policy, 1, 0);
    assert_eq!(result, Some((true, "guard_disabled".to_string())));
}

#[test]
fn loop_engine_infinite_mode_with_disabled_guard_continues_immediately() {
    check_infinite_mode_with_disabled_guard_continues_immediately();
}

#[test]
fn tests_infinite_mode_with_disabled_guard_continues_immediately() {
    check_infinite_mode_with_disabled_guard_continues_immediately();
}

fn check_infinite_mode_no_max_cycles_with_guard_enabled_returns_none() {
    let policy = make_loop_policy(LoopMode::Infinite, None);
    let result = evaluate_loop_guard_rules(&policy, 1, 0);
    assert_eq!(result, None);
}

#[test]
fn loop_engine_infinite_mode_no_max_cycles_with_guard_enabled_returns_none() {
    check_infinite_mode_no_max_cycles_with_guard_enabled_returns_none();
}

#[test]
fn tests_infinite_mode_no_max_cycles_with_guard_enabled_returns_none() {
    check_infinite_mode_no_max_cycles_with_guard_enabled_returns_none();
}

fn check_infinite_mode_with_max_cycles_before_limit_returns_none() {
    let policy = make_loop_policy(LoopMode::Infinite, Some(5));
    let result = evaluate_loop_guard_rules(&policy, 2, 3);
    assert_eq!(result, None);
}

#[test]
fn loop_engine_infinite_mode_with_max_cycles_before_limit_returns_none() {
    check_infinite_mode_with_max_cycles_before_limit_returns_none();
}

#[test]
fn tests_infinite_mode_with_max_cycles_before_limit_returns_none() {
    check_infinite_mode_with_max_cycles_before_limit_returns_none();
}

// ── segments ────────────────────────────────────────────────────

fn check_build_segments_groups_contiguous_scopes() {
    let task_ctx = ctx(
        vec![
            step("plan", None, true, true, false, None),
            step("implement", None, true, true, false, None),
            step("qa_testing", None, true, true, false, None),
            step("ticket_fix", None, true, true, false, None),
            step("doc_governance", None, true, true, false, None),
        ],
        1,
    );
    let segments = build_scope_segments(&task_ctx);
    assert_eq!(segments.len(), 3);
    assert_eq!(segments[0].scope, StepScope::Task);
    assert!(segments[0].contains("plan"));
    assert!(segments[0].contains("implement"));
    assert_eq!(segments[1].scope, StepScope::Item);
    assert!(segments[1].contains("qa_testing"));
    assert!(segments[1].contains("ticket_fix"));
    assert_eq!(segments[2].scope, StepScope::Task);
    assert!(segments[2].contains("doc_governance"));
}

#[test]
fn loop_engine_build_segments_groups_contiguous_scopes() {
    check_build_segments_groups_contiguous_scopes();
}

#[test]
fn tests_build_segments_groups_contiguous_scopes() {
    check_build_segments_groups_contiguous_scopes();
}

fn check_build_segments_skips_guards() {
    let task_ctx = ctx(
        vec![
            step("plan", None, true, true, false, None),
            step("loop_guard", Some("loop_guard"), true, true, true, None),
        ],
        1,
    );
    let segments = build_scope_segments(&task_ctx);
    assert_eq!(segments.len(), 1);
    assert_eq!(segments[0].scope, StepScope::Task);
    assert!(segments[0].contains("plan"));
    assert!(!segments[0].contains("loop_guard"));
}

#[test]
fn loop_engine_build_segments_skips_guards() {
    check_build_segments_skips_guards();
}

#[test]
fn tests_build_segments_skips_guards() {
    check_build_segments_skips_guards();
}

fn check_resolved_scope_uses_explicit_override() {
    let s = step("qa_testing", None, true, true, false, Some(StepScope::Task));
    assert_eq!(s.resolved_scope(), StepScope::Task);
}

#[test]
fn loop_engine_resolved_scope_uses_explicit_override() {
    check_resolved_scope_uses_explicit_override();
}

#[test]
fn tests_resolved_scope_uses_explicit_override() {
    check_resolved_scope_uses_explicit_override();
}

fn check_build_segments_skips_disabled_steps() {
    let task_ctx = ctx(
        vec![
            step("plan", None, true, true, false, Some(StepScope::Task)),
            step("disabled_step", None, false, true, false, Some(StepScope::Item)),
        ],
        1,
    );
    let segments = build_scope_segments(&task_ctx);
    assert_eq!(segments.len(), 1);
    assert!(segments[0].contains("plan"));
    assert!(!segments[0].contains("disabled_step"));
}

#[test]
fn loop_engine_build_segments_skips_disabled_steps() {
    check_build_segments_skips_disabled_steps();
}

#[test]
fn tests_build_segments_skips_disabled_steps() {
    check_build_segments_skips_disabled_steps();
}

fn check_build_segments_empty_when_no_steps() {
    let task_ctx = ctx(vec![], 1);
    let segments = build_scope_segments(&task_ctx);
    assert!(segments.is_empty());
}

#[test]
fn loop_engine_build_segments_empty_when_no_steps() {
    check_build_segments_empty_when_no_steps();
}

#[test]
fn tests_build_segments_empty_when_no_steps() {
    check_build_segments_empty_when_no_steps();
}

fn check_build_segments_item_select_is_task_scoped() {
    let mut evaluate = step("evaluate", Some("item_select"), true, false, false, None);
    evaluate.item_select_config = Some(ItemSelectConfig {
        strategy: SelectionStrategy::Min,
        metric_var: Some("error_count".to_string()),
        store_result: None,
        tie_break: TieBreak::First,
    });
    let task_ctx = ctx(vec![step("qa_testing", None, true, true, false, None), evaluate], 1);
    let segments = build_scope_segments(&task_ctx);
    assert_eq!(segments.len(), 2);
    assert_eq!(segments[0].scope, StepScope::Item);
    assert!(segments[0].contains("qa_testing"));
    assert_eq!(segments[1].scope, StepScope::Task);
    assert!(segments[1].contains("evaluate"));
    let config = find_item_select_config(&task_ctx.execution_plan);
    assert!(config.is_some());
    assert_eq!(config.unwrap().strategy, SelectionStrategy::Min);
}

#[test]
fn loop_engine_build_segments_item_select_is_task_scoped() {
    check_build_segments_item_select_is_task_scoped();
}

#[test]
fn tests_build_segments_item_select_is_task_scoped() {
    check_build_segments_item_select_is_task_scoped();
}

#[test]
fn last_item_segment_detected_when_no_later_item_segments_exist() {
    let segments = vec![
        segment(StepScope::Task, "plan"),
        segment(StepScope::Item, "qa"),
        segment(StepScope::Task, "summarize"),
    ];
    assert!(is_last_item_segment(1, &segments));
}

#[test]
fn last_item_segment_rejects_item_segment_with_later_item_work_remaining() {
    let segments = vec![
        segment(StepScope::Item, "qa"),
        segment(StepScope::Task, "plan"),
        segment(StepScope::Item, "fix"),
    ];
    assert!(!is_last_item_segment(0, &segments));
    assert!(is_last_item_segment(2, &segments));
}

// ── remaining item steps ────────────────────────────────────────

fn check_collect_remaining_returns_only_item_steps_after_segment() {
    let task_ctx = ctx(
        vec![
            step("implement", None, true, true, false, Some(StepScope::Task)),
            step("qa_testing", None, true, true, false, Some(StepScope::Item)),
            step("ticket_fix", None, true, true, false, Some(StepScope::Item)),
            step("align_tests", None, true, true, false, Some(StepScope::Task)),
        ],
        2,
    );
    let segments = build_scope_segments(&task_ctx);
    let skipped = collect_remaining_item_step_steps(&task_ctx, &segments, 1);
    assert_eq!(skipped, vec!["qa_testing".to_string(), "ticket_fix".to_string()]);
}

#[test]
fn loop_engine_collect_remaining_item_step_steps_returns_only_item_steps_after_segment() {
    check_collect_remaining_returns_only_item_steps_after_segment();
}

#[test]
fn tests_collect_remaining_item_step_steps_returns_only_item_steps_after_segment() {
    check_collect_remaining_returns_only_item_steps_after_segment();
}

fn check_collect_remaining_skips_non_repeatable_steps_after_first_cycle() {
    let task_ctx = ctx(vec![step("qa_testing", None, true, false, false, Some(StepScope::Item))], 2);
    let segments = build_scope_segments(&task_ctx);
    assert!(collect_remaining_item_step_steps(&task_ctx, &segments, 0).is_empty());
}

#[test]
fn loop_engine_collect_remaining_item_step_steps_skips_non_repeatable_steps_after_first_cycle() {
    check_collect_remaining_skips_non_repeatable_steps_after_first_cycle();
}

#[test]
fn tests_collect_remaining_item_step_steps_skips_non_repeatable_steps_after_first_cycle() {
    check_collect_remaining_skips_non_repeatable_steps_after_first_cycle();
}

fn check_collect_remaining_from_start_index_2() {
    let task_ctx = ctx(
        vec![
            step("plan", None, true, true, false, Some(StepScope::Task)),
            step("qa", None, true, true, false, Some(StepScope::Item)),
            step("governance", None, true, true, false, Some(StepScope::Task)),
        ],
        1,
    );
    let segments = build_scope_segments(&task_ctx);
    assert_eq!(segments.len(), 3);
    let skipped = collect_remaining_item_step_steps(&task_ctx, &segments, 2);
    assert!(skipped.is_empty());
}

#[test]
fn loop_engine_collect_remaining_item_step_steps_from_start_index_2() {
    check_collect_remaining_from_start_index_2();
}

#[test]
fn tests_collect_remaining_item_step_steps_from_start_index_2() {
    check_collect_remaining_from_start_index_2();
}

// ── terminal state propagation ──────────────────────────────────

fn check_propagate_marks_all_items_terminal() {
    let items = vec![item("item-1", "a.md"), item("item-2", "b.md")];
    let mut item_state: StrMap<StepExecutionAccumulator> = StrMap::new();
    let mut task_acc = StepExecutionAccumulator::new(PipelineVariables::empty());
    task_acc.item_status = "unresolved".to_string();
    task_acc.terminal = true;
    task_acc.flags.insert("execution_failed".to_string(), true);
    task_acc
        .pipeline_vars
        .vars
        .insert("fatal_reason".to_string(), "provider rate limit exceeded".to_string());

    propagate_task_segment_terminal_state(
        &items,
        &mut item_state,
        &task_acc,
        &PipelineVariables::empty(),
        &["qa_testing".to_string(), "ticket_fix".to_string()],
    );

    assert_eq!(item_state.len(), 2);
    for item_id in ["item-1", "item-2"] {
        let acc = item_state.get(item_id).expect("item state missing");
        assert!(acc.terminal);
        assert_eq!(acc.item_status, "unresolved");
        assert_eq!(acc.flags.get("execution_failed").copied(), Some(true));
        assert_eq!(acc.step_skipped.get("qa_testing").copied(), Some(true));
        assert_eq!(acc.step_skipped.get("ticket_fix").copied(), Some(true));
        assert_eq!(
            acc.pipeline_vars.vars.get("fatal_reason").map(String::as_str),
            Some("provider rate limit exceeded")
        );
    }
}

#[test]
fn loop_engine_propagate_task_segment_terminal_state_marks_all_items_terminal() {
    check_propagate_marks_all_items_terminal();
}

#[test]
fn tests_propagate_task_segment_terminal_state_marks_all_items_terminal() {
    check_propagate_marks_all_items_terminal();
}

fn check_propagate_no_execution_failed_flag() {
    let items = vec![item("item-1", "a.md")];
    let mut item_state: StrMap<StepExecutionAccumulator> = StrMap::new();
    let mut task_acc = StepExecutionAccumulator::new(PipelineVariables::empty());
    task_acc.item_status = "failed".to_string();
    task_acc.terminal = true;

    propagate_task_segment_terminal_state(
        &items,
        &mut item_state,
        &task_acc,
        &PipelineVariables::empty(),
        &[],
    );

    let acc = item_state.get("item-1").expect("item state missing");
    assert!(acc.terminal);
    assert_eq!(acc.item_status, "failed");
    assert!(!acc.flags.contains_key("execution_failed"));
}

#[test]
fn loop_engine_propagate_task_segment_terminal_state_no_execution_failed_flag() {
    check_propagate_no_execution_failed_flag();
}

#[test]
fn tests_propagate_task_segment_terminal_state_no_execution_failed_flag() {
    check_propagate_no_execution_failed_flag();
}

fn check_propagate_preserves_existing_item_state() {
    let items = vec![item("item-1", "a.md")];
    let mut item_state: StrMap<StepExecutionAccumulator> = StrMap::new();
    let mut existing_acc = StepExecutionAccumulator::new(PipelineVariables::empty());
    existing_acc
        .pipeline_vars
        .vars
        .insert("existing_key".to_string(), "existing_val".to_string());
    item_state.insert("item-1".to_string(), existing_acc);

    let mut task_acc = StepExecutionAccumulator::new(PipelineVariables::empty());
    task_acc.item_status = "unresolved".to_string();
    task_acc.pipeline_vars.vars.insert("new_key".to_string(), "new_val".to_string());

    propagate_task_segment_terminal_state(
        &items,
        &mut item_state,
        &task_acc,
        &PipelineVariables::empty(),
        &[],
    );

    let acc = item_state.get("item-1").unwrap();
    assert_eq!(acc.pipeline_vars.vars.get("existing_key").unwrap(), "existing_val");
    assert_eq!(acc.pipeline_vars.vars.get("new_key").unwrap(), "new_val");
}

#[test]
fn loop_engine_propagate_preserves_existing_item_state() {
    check_propagate_preserves_existing_item_state();
}

#[test]
fn tests_propagate_preserves_existing_item_state() {
    check_propagate_preserves_existing_item_state();
}

// ── snapshots, selection, invariants ────────────────────────────

fn check_should_snapshot_true_when_both_enabled() {
    assert!(should_snapshot_binary(true, true));
}

#[test]
fn loop_engine_should_snapshot_true_when_both_enabled() {
    check_should_snapshot_true_when_both_enabled();
}

#[test]
fn tests_should_snapshot_true_when_both_enabled() {
    check_should_snapshot_true_when_both_enabled();
}

fn check_should_snapshot_false_when_not_self_referential() {
    assert!(!should_snapshot_binary(true, false));
}

#[test]
fn loop_engine_should_snapshot_false_when_not_self_referential() {
    check_should_snapshot_false_when_not_self_referential();
}

#[test]
fn tests_should_snapshot_false_when_not_self_referential() {
    check_should_snapshot_false_when_not_self_referential();
}

fn check_should_snapshot_false_when_binary_snapshot_disabled() {
    assert!(!should_snapshot_binary(false, true));
}

#[test]
fn loop_engine_should_snapshot_false_when_binary_snapshot_disabled() {
    check_should_snapshot_false_when_binary_snapshot_disabled();
}

#[test]
fn tests_should_snapshot_false_when_binary_snapshot_disabled() {
    check_should_snapshot_false_when_binary_snapshot_disabled();
}

fn check_should_snapshot_false_when_both_disabled() {
    assert!(!should_snapshot_binary(false, false));
}

#[test]
fn loop_engine_should_snapshot_false_when_both_disabled() {
    check_should_snapshot_false_when_both_disabled();
}

#[test]
fn tests_should_snapshot_false_when_both_disabled() {
    check_should_snapshot_false_when_both_disabled();
}

fn check_collect_item_eval_states_maps_pipeline_vars() {
    let items = vec![item("item-a", "a.md"), item("item-b", "b.md")];
    let mut item_state: StrMap<StepExecutionAccumulator> = StrMap::new();
    let mut acc_a = StepExecutionAccumulator::new(PipelineVariables::empty());
    acc_a.pipeline_vars.vars.insert("error_count".to_string(), "3".to_string());
    item_state.insert("item-a".to_string(), acc_a);
    let mut acc_b = StepExecutionAccumulator::new(PipelineVariables::empty());
    acc_b.pipeline_vars.vars.insert("error_count".to_string(), "1".to_string());
    item_state.insert("item-b".to_string(), acc_b);

    let eval_states = collect_item_eval_states(&items, &item_state);
    assert_eq!(eval_states.len(), 2);
    assert_eq!(eval_states[0].item_id, "item-a");
    assert_eq!(eval_states[0].pipeline_vars.get("error_count").unwrap(), "3");
    assert_eq!(eval_states[1].item_id, "item-b");
    assert_eq!(eval_states[1].pipeline_vars.get("error_count").unwrap(), "1");
}

#[test]
fn loop_engine_collect_item_eval_states_maps_pipeline_vars() {
    check_collect_item_eval_states_maps_pipeline_vars();
}

#[test]
fn tests_collect_item_eval_states_maps_pipeline_vars() {
    check_collect_item_eval_states_maps_pipeline_vars();
}

fn check_promote_winner_vars_inserts_into_pipeline() {
    let mut vars = PipelineVariables::empty();
    vars.vars.insert("existing".to_string(), "keep".to_string());
    let mut winner_vars: StrMap<String> = StrMap::new();
    winner_vars.insert("quality_score".to_string(), "95".to_string());
    let result = SelectionResult {
        winner_id: "item-b".to_string(),
        eliminated_ids: vec!["item-a".to_string()],
        winner_vars,
    };
    promote_winner_vars(&mut vars, &result);
    assert_eq!(vars.vars.get("item_select_winner").unwrap(), "item-b");
    assert_eq!(vars.vars.get("quality_score").unwrap(), "95");
    assert_eq!(vars.vars.get("existing").unwrap(), "keep");
}

#[test]
fn loop_engine_promote_winner_vars_inserts_into_pipeline() {
    check_promote_winner_vars_inserts_into_pipeline();
}

#[test]
fn tests_promote_winner_vars_inserts_into_pipeline() {
    check_promote_winner_vars_inserts_into_pipeline();
}

fn check_invariants_returns_none_for_empty_invariants_body() {
    let invariants: Vec<InvariantResult> = vec![];
    assert!(invariants.is_empty());
    assert!(invariant_action(&invariants).is_none());
}

#[test]
fn loop_engine_check_invariants_returns_none_for_empty_invariants() {
    check_invariants_returns_none_for_empty_invariants_body();
}

#[test]
fn tests_check_invariants_returns_none_for_empty_invariants() {
    check_invariants_returns_none_for_empty_invariants_body();
}

// ── cycle safety ────────────────────────────────────────────────

#[test]
fn should_auto_rollback_true_when_all_conditions_met() {
    assert!(should_auto_rollback(true, 3, 3, &CheckpointStrategy::GitTag));
}

#[test]
fn should_auto_rollback_false_when_disabled() {
    assert!(!should_auto_rollback(false, 5, 3, &CheckpointStrategy::GitTag));
}

#[test]
fn should_auto_rollback_false_when_below_threshold() {
    assert!(!should_auto_rollback(true, 2, 3, &CheckpointStrategy::GitTag));
}

#[test]
fn should_auto_rollback_false_when_no_checkpoint_strategy() {
    assert!(!should_auto_rollback(true, 5, 3, &CheckpointStrategy::Disabled));
}

#[test]
fn should_auto_rollback_true_when_failures_exceed_threshold() {
    assert!(should_auto_rollback(true, 10, 3, &CheckpointStrategy::GitTag));
}

#[test]
fn compute_rollback_tag_normal() {
    let tag = compute_rollback_tag("task-1", 5, 2);
    assert_eq!(tag, "checkpoint/task-1/3");
}

#[test]
fn compute_rollback_tag_zero_failures() {
    let tag = compute_rollback_tag("task-1", 5, 0);
    assert_eq!(tag, "checkpoint/task-1/5");
}

#[test]
fn compute_rollback_tag_saturates_to_one() {
    let tag = compute_rollback_tag("task-1", 1, 5);
    assert_eq!(tag, "checkpoint/task-1/1");
}

#[test]
fn compute_rollback_tag_exact_cycle_one() {
    let tag = compute_rollback_tag("my-task", 3, 3);
    assert_eq!(tag, "checkpoint/my-task/1");
}
