use scheduler_core::accumulator::StepExecutionAccumulator;
use scheduler_core::config::{
    Artifact, ArtifactKind, CaptureDecl, CaptureSource, ExecutionMode, OnSuccessAction, RunResult, StepScope, LoopMode, OnFailureAction, PipelineVariables, StepBehavior,
    TaskExecutionPlan, TaskExecutionStep, TaskItemRow, TaskRuntimeContext, WorkflowLoopConfig,
    WorkflowLoopGuardConfig,
};
use scheduler_core::dynamic_items::JsonValue;
use scheduler_core::item_flow::{
    apply_final_status, apply_on_failure, apply_self_restart, apply_self_test, apply_ticket_scan,
    builtin_run_result, classify_builtin, finalize_decision, has_ticket_artifacts, inject_item_vars,
    mark_item_select, needs_ticket_seed, next_item_step, parse_guard_output, guard_output_verdict, plan_item_steps, render_guard_command,
    step_eligible, synthetic_chain_result, BuiltinKind, BuiltinStepOutcome, FinalizeDecision,
    OwnedProcessItemRequest, ProcessItemRequest, RestartStepOutcome, SelfRestartOutcome,
    StepEventContext, EXIT_RESTART,
};
use scheduler_core::segment::{has_item_select_step, ScopeSegment};

fn step(id: &str) -> TaskExecutionStep {
    TaskExecutionStep {
        id: id.to_string(),
        required_capability: None,
        execution_profile: None,
        builtin: None,
        enabled: true,
        repeatable: true,
        is_guard: false,
        tty: false,
        template: None,
        pipe_to: None,
        command: None,
        scope: None,
        behavior: StepBehavior::default_behavior(),
        max_parallel: None,
        timeout_secs: None,
        item_select_config: None,
    }
}

fn ctx(steps: Vec<TaskExecutionStep>, current_cycle: u32) -> TaskRuntimeContext {
    TaskRuntimeContext {
        workspace_id: "default".to_string(),
        workspace_root: "/tmp/ws".to_string(),
        ticket_dir: "/tmp/ws/tickets".to_string(),
        execution_plan: TaskExecutionPlan {
            steps,
            loop_policy: WorkflowLoopConfig {
                mode: LoopMode::Fixed,
                guard: WorkflowLoopGuardConfig {
                    enabled: true,
                    stop_when_no_unresolved: true,
                    max_cycles: None,
                    agent_template: None,
                },
            },
            max_parallel: None,
        },
        current_cycle,
        init_done: false,
        pipeline_vars: PipelineVariables::empty(),
        self_referential: false,
        consecutive_failures: 0,
        project_id: String::new(),
        workflow_id: String::new(),
    }
}

fn item(id: &str) -> TaskItemRow {
    TaskItemRow {
        id: id.to_string(),
        qa_file_path: "docs/qa/a.md".to_string(),
        dynamic_vars_json: None,
        label: None,
        source: "static".to_string(),
    }
}

fn request(steps: Vec<TaskExecutionStep>, cycle: u32, filter: Option<Vec<String>>) -> ProcessItemRequest {
    ProcessItemRequest {
        task_id: "task-1".to_string(),
        item: item("item-1"),
        task_item_paths: vec!["docs/qa/a.md".to_string()],
        task_ctx: ctx(steps, cycle),
        step_filter: filter,
        run_dynamic_steps: false,
    }
}

fn acc() -> StepExecutionAccumulator {
    StepExecutionAccumulator::new(PipelineVariables::empty())
}

fn var(acc: &StepExecutionAccumulator, key: &str) -> Option<String> {
    acc.pipeline_vars.vars.get(key).cloned()
}

#[test]
fn step_eligible_skips_guards_and_disabled_steps() {
    let mut guard = step("loop_guard");
    guard.is_guard = true;
    assert!(!step_eligible(&guard, &None, 1));
    let mut off = step("qa");
    off.enabled = false;
    assert!(!step_eligible(&off, &None, 1));
    assert!(step_eligible(&step("qa"), &None, 1));
}

#[test]
fn step_eligible_honours_filter_and_repeatability() {
    let s = step("fix");
    assert!(step_eligible(&s, &Some(vec!["fix".to_string()]), 1));
    assert!(!step_eligible(&s, &Some(vec!["qa".to_string()]), 1));
    let mut once = step("plan");
    once.repeatable = false;
    assert!(step_eligible(&once, &None, 1));
    assert!(!step_eligible(&once, &None, 2));
}

#[test]
fn plan_item_steps_lists_eligible_indices_in_order() {
    let mut guard = step("loop_guard");
    guard.is_guard = true;
    let mut once = step("plan");
    once.repeatable = false;
    let req = request(vec![step("qa"), guard, once, step("fix")], 2, None);
    assert_eq!(plan_item_steps(&req), vec![0, 3]);
    let req1 = request(vec![step("qa"), step("fix")], 1, Some(vec!["fix".to_string()]));
    assert_eq!(plan_item_steps(&req1), vec![1]);
}

#[test]
fn owned_request_keeps_its_fields() {
    let owned = OwnedProcessItemRequest {
        task_id: "t".to_string(),
        item: item("i"),
        task_item_paths: vec!["p".to_string()],
        task_ctx: ctx(vec![step("qa")], 3),
        step_filter: Some(vec!["qa".to_string()]),
        run_dynamic_steps: true,
    };
    let req = owned.into_request();
    assert_eq!(req.task_id, "t");
    assert_eq!(req.item.id, "i");
    assert_eq!(req.task_item_paths, vec!["p".to_string()]);
    assert_eq!(req.task_ctx.current_cycle, 3);
    assert_eq!(req.step_filter, Some(vec!["qa".to_string()]));
    assert!(req.run_dynamic_steps);
}

#[test]
fn inject_item_vars_puts_label_then_generated_vars() {
    let mut a = acc();
    let mut it = item("i1");
    it.label = Some("Login flow".to_string());
    it.dynamic_vars_json = Some(r#"{"target": "auth", "item_label": "override"}"#.to_string());
    inject_item_vars(&mut a, &it);
    assert_eq!(var(&a, "target"), Some("auth".to_string()));
    assert_eq!(var(&a, "item_label"), Some("override".to_string()));
}

#[test]
fn inject_item_vars_without_label_adds_only_generated_vars() {
    let mut a = acc();
    let mut it = item("i1");
    it.dynamic_vars_json = Some(r#"{"k": "v"}"#.to_string());
    inject_item_vars(&mut a, &it);
    assert_eq!(var(&a, "k"), Some("v".to_string()));
    assert_eq!(var(&a, "item_label"), None);
}

#[test]
fn inject_item_vars_ignores_json_that_is_not_an_object_of_strings() {
    let mut a = acc();
    let mut it = item("i1");
    it.label = Some("L".to_string());
    it.dynamic_vars_json = Some(r#"{"k": "v", "n": 3}"#.to_string());
    inject_item_vars(&mut a, &it);
    assert_eq!(var(&a, "k"), None);
    assert_eq!(var(&a, "item_label"), Some("L".to_string()));
    let mut b = acc();
    let mut bad = item("i2");
    bad.dynamic_vars_json = Some("not json".to_string());
    inject_item_vars(&mut b, &bad);
    assert_eq!(b.pipeline_vars.vars.len(), 0);
}

#[test]
fn next_item_step_stops_on_terminal_stop_or_pause() {
    let eligible = vec![0, 3];
    assert_eq!(next_item_step(false, false, false, &eligible, 0), Some(0));
    assert_eq!(next_item_step(false, false, false, &eligible, 1), Some(3));
    assert_eq!(next_item_step(false, false, false, &eligible, 2), None);
    assert_eq!(next_item_step(true, false, false, &eligible, 0), None);
    assert_eq!(next_item_step(false, true, false, &eligible, 0), None);
    assert_eq!(next_item_step(false, false, true, &eligible, 0), None);
}

#[test]
fn step_event_contexts_name_their_events() {
    let top = StepEventContext::top_level();
    assert_eq!(top.started_event_type, "step_started");
    assert_eq!(top.finished_event_type, "step_finished");
    assert_eq!(top.parent_step, None);
    let child = StepEventContext::chain_child("build_chain");
    assert_eq!(child.started_event_type, "chain_step_started");
    assert_eq!(child.finished_event_type, "chain_step_finished");
    assert_eq!(child.parent_step, Some("build_chain".to_string()));
}

#[test]
fn classify_builtin_names_each_handled_builtin() {
    let b = |n: &str| ExecutionMode::Builtin { name: n.to_string() };
    assert_eq!(classify_builtin(&b("self_test")), BuiltinKind::SelfTest);
    assert_eq!(classify_builtin(&b("self_restart")), BuiltinKind::SelfRestart);
    assert_eq!(classify_builtin(&b("ticket_scan")), BuiltinKind::TicketScan);
    assert_eq!(classify_builtin(&b("item_select")), BuiltinKind::ItemSelect);
    assert_eq!(classify_builtin(&b("init_once")), BuiltinKind::NotBuiltin);
    assert_eq!(classify_builtin(&ExecutionMode::Agent), BuiltinKind::NotBuiltin);
}

#[test]
fn apply_on_failure_follows_the_configured_action() {
    let mut a = acc();
    let mut s = step("x");
    assert!(!apply_on_failure(&mut a, &s));
    assert_eq!(a.item_status, "pending");
    s.behavior.on_failure = OnFailureAction::SetStatus { status: "blocked".to_string() };
    assert!(!apply_on_failure(&mut a, &s));
    assert_eq!(a.item_status, "blocked");
    assert!(!a.terminal);
    s.behavior.on_failure = OnFailureAction::EarlyReturn { status: "failed".to_string() };
    assert!(apply_on_failure(&mut a, &s));
    assert_eq!(a.item_status, "failed");
    assert!(a.terminal);
}

#[test]
fn builtin_run_result_is_a_passed_builtin_run() {
    let r = builtin_run_result(false, 3);
    assert!(!r.success);
    assert_eq!(r.exit_code, 3);
    assert_eq!(r.agent_id, "builtin");
    assert_eq!(r.validation_status, "passed");
    assert!(r.output.is_none());
}

#[test]
fn self_test_pass_records_vars_and_exit_code() {
    let mut a = acc();
    let s = step("self_test");
    let (outcome, writes) = apply_self_test(&mut a, &s, 0);
    assert_eq!(outcome, BuiltinStepOutcome::Handled { success: true });
    assert!(writes.is_empty());
    assert_eq!(var(&a, "self_test_exit_code"), Some("0".to_string()));
    assert_eq!(var(&a, "self_test_passed"), Some("true".to_string()));
    assert_eq!(a.exit_codes.get("self_test"), Some(&0));
    assert_eq!(a.step_ran.get("self_test"), Some(&true));
}

#[test]
fn self_test_failure_with_early_return_ends_the_loop() {
    let mut a = acc();
    let mut s = step("self_test");
    s.behavior.on_failure = OnFailureAction::EarlyReturn { status: "self_test_failed".to_string() };
    let (outcome, _) = apply_self_test(&mut a, &s, -2);
    assert_eq!(outcome, BuiltinStepOutcome::EarlyReturn);
    assert!(a.terminal);
    assert_eq!(a.item_status, "self_test_failed");
    assert_eq!(var(&a, "self_test_exit_code"), Some("-2".to_string()));
    assert_eq!(var(&a, "self_test_passed"), Some("false".to_string()));
    assert_eq!(a.step_ran.get("self_test"), None);
}

#[test]
fn ticket_scan_records_tickets_and_count() {
    let mut a = acc();
    let s = step("ticket_scan");
    apply_ticket_scan(&mut a, &s, vec!["t1.md".to_string(), "t2.md".to_string()]);
    assert_eq!(a.active_tickets, vec!["t1.md".to_string(), "t2.md".to_string()]);
    assert_eq!(a.new_ticket_count, 2);
    assert_eq!(a.step_ran.get("ticket_scan"), Some(&true));
    assert!(!needs_ticket_seed(&a));
}

#[test]
fn needs_ticket_seed_when_nothing_scanned() {
    let a = acc();
    assert!(needs_ticket_seed(&a));
    let mut b = acc();
    mark_item_select(&mut b, &step("item_select"));
    assert!(needs_ticket_seed(&b));
    assert_eq!(b.step_ran.get("item_select"), Some(&true));
}

#[test]
fn self_restart_ready_requests_restart_unless_halted() {
    let mut a = acc();
    let s = step("self_restart");
    let r = apply_self_restart(&mut a, &s, &SelfRestartOutcome::RestartReady, false);
    assert_eq!(r, RestartStepOutcome::RestartRequested);
    assert_eq!(var(&a, "self_restart_exit_code"), Some(EXIT_RESTART.to_string()));
    assert_eq!(a.exit_codes.get("self_restart"), Some(&75));
    let mut b = acc();
    let r2 = apply_self_restart(&mut b, &s, &SelfRestartOutcome::RestartReady, true);
    assert_eq!(r2, RestartStepOutcome::EarlyReturn);
}

#[test]
fn self_restart_failure_applies_on_failure() {
    let mut a = acc();
    let s = step("self_restart");
    let r = apply_self_restart(&mut a, &s, &SelfRestartOutcome::Failed(2), false);
    assert_eq!(r, RestartStepOutcome::Handled { success: false });
    assert_eq!(var(&a, "self_restart_exit_code"), Some("2".to_string()));
    assert_eq!(a.exit_codes.get("self_restart"), Some(&2));
    let mut e = step("self_restart");
    e.behavior.on_failure = OnFailureAction::EarlyReturn { status: "restart_failed".to_string() };
    let mut b = acc();
    let r2 = apply_self_restart(&mut b, &e, &SelfRestartOutcome::Failed(1), false);
    assert_eq!(r2, RestartStepOutcome::EarlyReturn);
    assert!(b.terminal);
    assert_eq!(b.item_status, "restart_failed");
}

#[test]
fn synthetic_chain_result_exit_codes() {
    let s = step("chain");
    let ok = synthetic_chain_result(&s, true);
    assert!(ok.success);
    assert_eq!(ok.exit_code, 0);
    assert_eq!(ok.agent_id, "chain");
    let bad = synthetic_chain_result(&s, false);
    assert!(!bad.success);
    assert_eq!(bad.exit_code, 1);
    assert!(bad.output.is_some());
}

#[test]
fn finalize_decision_and_status() {
    let a = acc();
    assert_eq!(finalize_decision(true, true, false, &a), FinalizeDecision::ValidationMissing);
    assert_eq!(finalize_decision(false, true, false, &a), FinalizeDecision::ApplyRules);
    let mut f = acc();
    f.flags.insert("execution_failed".to_string(), true);
    assert_eq!(finalize_decision(true, true, true, &f), FinalizeDecision::ExecutionFailed);

    let mut b = acc();
    apply_final_status(&mut b, FinalizeDecision::ExecutionFailed, &Some("qa_passed".to_string()));
    assert_eq!(b.item_status, "unresolved");
    let mut c = acc();
    apply_final_status(&mut c, FinalizeDecision::ApplyRules, &Some("qa_passed".to_string()));
    assert_eq!(c.item_status, "qa_passed");
    let mut d = acc();
    apply_final_status(&mut d, FinalizeDecision::ApplyRules, &None);
    assert_eq!(d.item_status, "pending");
}

#[test]
fn ticket_artifacts_are_found_in_files_or_artifacts() {
    let mut a = acc();
    assert!(!has_ticket_artifacts(&a));
    a.phase_artifacts.push(Artifact {
        kind: ArtifactKind::Other { name: "log".to_string() },
        content: None,
    });
    assert!(!has_ticket_artifacts(&a));
    a.phase_artifacts.push(Artifact {
        kind: ArtifactKind::Ticket { category: "bug".to_string() },
        content: None,
    });
    assert!(has_ticket_artifacts(&a));
    let mut b = acc();
    b.created_ticket_files.push("docs/ticket/t.md".to_string());
    assert!(has_ticket_artifacts(&b));
}

#[test]
fn guard_output_text_is_read_as_json() {
    let g = parse_guard_output(r#"{"should_stop": true, "reason": "done"}"#);
    assert!(g.should_stop);
    assert_eq!(g.reason, "done");
    let h = parse_guard_output(r#"{"continue": false}"#);
    assert!(h.should_stop);
    assert_eq!(h.reason, "guard_json");
    let n = parse_guard_output("plain text");
    assert!(!n.should_stop);
    assert_eq!(n.reason, "guard_json");
}

fn obj(entries: Vec<(&str, JsonValue)>) -> Option<JsonValue> {
    Some(JsonValue::Object(entries.into_iter().map(|(k, v)| (k.to_string(), v)).collect()))
}

#[test]
fn guard_output_should_stop_wins_over_continue() {
    let g = guard_output_verdict(&obj(vec![
        ("continue", JsonValue::Bool(true)),
        ("should_stop", JsonValue::Bool(true)),
        ("reason", JsonValue::Str("all resolved".to_string())),
    ]));
    assert!(g.should_stop);
    assert_eq!(g.reason, "all resolved");
}

#[test]
fn guard_output_continue_false_stops() {
    let g = guard_output_verdict(&obj(vec![("continue", JsonValue::Bool(false))]));
    assert!(g.should_stop);
    assert_eq!(g.reason, "guard_json");
}

#[test]
fn guard_output_not_json_does_not_stop() {
    let g = guard_output_verdict(&None);
    assert!(!g.should_stop);
    assert_eq!(g.reason, "guard_json");
    let h = guard_output_verdict(&obj(vec![("should_stop", JsonValue::Str("yes".to_string()))]));
    assert!(!h.should_stop);
}

#[test]
fn render_guard_command_quotes_task_and_cycle() {
    let c = render_guard_command("guard --task {task_id} --cycle {cycle}", "task-7", 3);
    assert_eq!(c, "guard --task 'task-7' --cycle '3'");
    let d = render_guard_command("g {task_id}", "it's", 1);
    assert_eq!(d, "g 'it'\\''s'");
}

fn run(exit_code: i64, success: bool, validation_status: &str) -> RunResult {
    RunResult {
        success,
        exit_code,
        stdout_path: String::new(),
        stderr_path: String::new(),
        timed_out: false,
        duration_ms: None,
        output: None,
        validation_status: validation_status.to_string(),
        agent_id: "agent".to_string(),
        run_id: "run".to_string(),
        execution_profile: "host".to_string(),
        execution_mode: "host".to_string(),
        sandbox_denied: false,
        sandbox_denial_reason: None,
        sandbox_violation_kind: None,
        sandbox_resource_kind: None,
        sandbox_network_target: None,
    }
}

#[test]
fn record_step_result_keeps_exit_code_captures_and_status() {
    let mut a = acc();
    let mut s = step("qa");
    s.behavior.captures = vec![
        CaptureDecl { var: "qa_exit".to_string(), source: CaptureSource::ExitCode },
        CaptureDecl { var: "qa_failed".to_string(), source: CaptureSource::FailedFlag },
    ];
    s.behavior.on_failure = OnFailureAction::EarlyReturn { status: "qa_failed".to_string() };
    let (writes, early) = a.record_step_result(&s, &run(2, false, "passed"));
    assert!(writes.is_empty());
    assert!(early);
    assert!(a.terminal);
    assert_eq!(a.item_status, "qa_failed");
    assert_eq!(a.exit_codes.get("qa"), Some(&2));
    assert_eq!(a.step_ran.get("qa"), Some(&true));
    assert_eq!(var(&a, "qa_exit"), Some("2".to_string()));
    assert_eq!(var(&a, "qa_failed"), Some("true".to_string()));
    assert_eq!(a.flags.get("qa_failed"), Some(&true));
}

#[test]
fn record_step_result_success_sets_status() {
    let mut a = acc();
    let mut s = step("fix");
    s.behavior.on_success = OnSuccessAction::SetStatus { status: "fixed".to_string() };
    let (_, early) = a.record_step_result(&s, &run(0, true, "passed"));
    assert!(!early);
    assert_eq!(a.item_status, "fixed");
    assert_eq!(a.exit_codes.get("fix"), Some(&0));
}

#[test]
fn finish_step_result_ends_on_failed_validation() {
    let mut a = acc();
    assert!(a.finish_step_result(&run(1, false, "failed")));
    assert_eq!(a.item_status, "unresolved");
    assert!(a.terminal);
    assert_eq!(a.flags.get("execution_failed"), Some(&true));
    let mut b = acc();
    assert!(!b.finish_step_result(&run(1, false, "passed")));
    assert_eq!(b.item_status, "pending");
}

#[test]
fn finish_step_result_seeds_tickets_from_artifacts() {
    let mut a = acc();
    a.phase_artifacts.push(Artifact { kind: ArtifactKind::Ticket { category: "bug".to_string() }, content: None });
    a.phase_artifacts.push(Artifact { kind: ArtifactKind::Ticket { category: "bug".to_string() }, content: None });
    assert!(!a.finish_step_result(&run(0, true, "passed")));
    assert_eq!(
        a.active_tickets,
        vec!["artifact://ticket/0".to_string(), "artifact://ticket/1".to_string()]
    );
    assert_eq!(a.new_ticket_count, 2);
}

#[test]
fn segment_with_item_select_builtin_is_detected() {
    let mut sel = step("pick");
    sel.builtin = Some("item_select".to_string());
    let plan = ctx(vec![step("qa"), sel], 1).execution_plan;
    let with = ScopeSegment { scope: StepScope::Task, step_ids: vec!["pick".to_string()], max_parallel: 1 };
    let without = ScopeSegment { scope: StepScope::Item, step_ids: vec!["qa".to_string()], max_parallel: 1 };
    assert!(has_item_select_step(&with, &plan));
    assert!(!has_item_select_step(&without, &plan));
}

#[test]
fn failed_self_test_sets_the_configured_status() {
    let mut a = acc();
    let mut s = step("self_test");
    s.behavior.on_failure = OnFailureAction::SetStatus { status: "self_test_failed".to_string() };
    let (outcome, _) = apply_self_test(&mut a, &s, 1);
    assert_eq!(outcome, BuiltinStepOutcome::Handled { success: false });
    assert_eq!(a.item_status, "self_test_failed");
    assert!(!a.terminal);
    let mut b = acc();
    apply_self_test(&mut b, &s, 0);
    assert_eq!(b.item_status, "pending");
}

#[test]
fn failed_self_restart_sets_the_configured_status() {
    let mut a = acc();
    let mut s = step("self_restart");
    s.behavior.on_failure = OnFailureAction::SetStatus { status: "restart_failed".to_string() };
    let r = apply_self_restart(&mut a, &s, &SelfRestartOutcome::Failed(3), false);
    assert_eq!(r, RestartStepOutcome::Handled { success: false });
    assert_eq!(a.item_status, "restart_failed");
    assert!(!a.terminal);
    let mut b = acc();
    apply_self_restart(&mut b, &s, &SelfRestartOutcome::RestartReady, false);
    assert_eq!(b.item_status, "pending");
}
