use scheduler_core::accumulator::{PostActionRequest, StepExecutionAccumulator};
use scheduler_core::config::{
    AgentOutput, Artifact, ArtifactKind, OnFailureAction, PipelineVariables, PostAction, RunResult, StepBehavior,
    TaskExecutionStep, TaskItemRow,
};
use scheduler_core::graph::{
    adaptive_materialization, graph_plan_choice, static_materialization, AdaptiveFailureClass, DagFallbackMode,
    GraphPlanChoice,
};
use scheduler_core::phase_command::{
    resolve_phase_start_error, sandbox_backend_error_result, PhaseStartError, SandboxBackendRefusal,
    SANDBOX_BACKEND_ERROR_EXIT_CODE,
};
use scheduler_core::sandbox::{
    classify_sandbox_failure, completed_run_result, ExecutionNetworkMode, ExecutionProfileMode,
    ResolvedExecutionProfile, SandboxViolationInfo,
};
use scheduler_core::phase::shell_escape;
use scheduler_core::segment::cycle_items;

fn step(id: &str) -> TaskExecutionStep {
    TaskExecutionStep {
        id: id.to_string(),
        required_capability: None,
        execution_profile: None,
        builtin: None,
        enabled: true,
        repeatable: true,
        is_guard: false,
        tty: false,
        template: None,
        pipe_to: None,
        command: None,
        scope: None,
        behavior: StepBehavior::default_behavior(),
        max_parallel: None,
        timeout_secs: None,
        item_select_config: None,
    }
}

fn run(exit_code: i64, success: bool, validation_status: &str, artifacts: Vec<Artifact>) -> RunResult {
    RunResult {
        success,
        exit_code,
        stdout_path: String::new(),
        stderr_path: String::new(),
        timed_out: false,
        duration_ms: None,
        output: Some(AgentOutput {
            stdout: String::new(),
            stderr: String::new(),
            artifacts,
            build_errors: Vec::new(),
            test_failures: Vec::new(),
        }),
        validation_status: validation_status.to_string(),
        agent_id: "agent".to_string(),
        run_id: "run".to_string(),
        execution_profile: "host".to_string(),
        execution_mode: "host".to_string(),
        sandbox_denied: false,
        sandbox_denial_reason: None,
        sandbox_violation_kind: None,
        sandbox_resource_kind: None,
        sandbox_network_target: None,
    }
}

fn ticket() -> Artifact {
    Artifact { kind: ArtifactKind::Ticket { category: "bug".to_string() }, content: Some("t".to_string()) }
}

fn acc() -> StepExecutionAccumulator {
    StepExecutionAccumulator::new(PipelineVariables::empty())
}

#[test]
fn artifacts_are_collected_only_when_the_step_asks() {
    let mut a = acc();
    let s = step("qa");
    assert_eq!(a.collect_step_artifacts(&s, &run(0, true, "passed", vec![ticket()])), 0);
    assert!(a.phase_artifacts.is_empty());
    let mut c = step("qa");
    c.behavior.collect_artifacts = true;
    let files = Artifact {
        kind: ArtifactKind::CodeChange { files: vec!["a.rs".to_string(), "b.rs".to_string()] },
        content: None,
    };
    assert_eq!(a.collect_step_artifacts(&c, &run(0, true, "passed", vec![ticket(), files])), 2);
    assert_eq!(a.phase_artifacts.len(), 2);
    assert!(matches!(a.phase_artifacts[0].kind, ArtifactKind::Ticket { .. }));
    match &a.phase_artifacts[1].kind {
        ArtifactKind::CodeChange { files } => assert_eq!(files, &vec!["a.rs".to_string(), "b.rs".to_string()]),
        _ => panic!("expected a code change"),
    }
}

#[test]
fn collected_ticket_artifacts_seed_active_tickets() {
    let mut a = acc();
    let mut c = step("qa");
    c.behavior.collect_artifacts = true;
    let r = run(1, false, "passed", vec![ticket()]);
    let (_, early) = a.record_step_result(&c, &r);
    assert!(!early);
    a.collect_step_artifacts(&c, &r);
    assert!(!a.finish_step_result(&r));
    assert_eq!(a.active_tickets, vec!["artifact://ticket/0".to_string()]);
    assert_eq!(a.exit_codes.get("qa"), Some(&1));
    assert_eq!(a.step_ran.get("qa"), Some(&true));
}

#[test]
fn recorded_exit_code_survives_a_hard_failure() {
    let mut a = acc();
    let s = step("fix");
    let r = run(3, false, "failed", vec![]);
    a.record_step_result(&s, &r);
    assert!(a.finish_step_result(&r));
    assert_eq!(a.exit_codes.get("fix"), Some(&3));
    assert_eq!(a.step_ran.get("fix"), Some(&true));
    assert_eq!(a.item_status, "unresolved");
}

#[test]
fn post_actions_ask_for_tickets_on_failure_and_scans_always() {
    let mut a = acc();
    let mut s = step("qa");
    s.behavior.post_actions = vec![PostAction::CreateTicket, PostAction::ScanTickets];
    let failed = run(2, false, "passed", vec![]);
    a.record_step_result(&s, &failed);
    assert_eq!(
        a.plan_post_actions(&s, &failed),
        vec![PostActionRequest::CreateTicket { exit_code: 2 }, PostActionRequest::ScanTickets]
    );
    let passed = run(0, true, "passed", vec![]);
    assert_eq!(a.plan_post_actions(&s, &passed), vec![PostActionRequest::ScanTickets]);
    let fresh = acc();
    assert_eq!(fresh.plan_post_actions(&s, &failed), vec![PostActionRequest::ScanTickets]);
}

#[test]
fn post_action_outcomes_are_recorded() {
    let mut a = acc();
    a.record_created_ticket(Some("docs/ticket/t1.md".to_string()));
    a.record_created_ticket(None);
    assert_eq!(a.created_ticket_files, vec!["docs/ticket/t1.md".to_string()]);
    a.apply_scanned_tickets(vec!["t1.md".to_string(), "t2.md".to_string()]);
    assert_eq!(a.active_tickets.len(), 2);
    assert_eq!(a.new_ticket_count, 2);
}

#[test]
fn early_return_on_failure_is_reported() {
    let mut a = acc();
    let mut s = step("qa");
    s.behavior.on_failure = OnFailureAction::EarlyReturn { status: "qa_failed".to_string() };
    let (_, early) = a.record_step_result(&s, &run(1, false, "passed", vec![]));
    assert!(early);
    assert!(a.terminal);
}

fn row(id: &str, source: &str) -> TaskItemRow {
    TaskItemRow {
        id: id.to_string(),
        qa_file_path: format!("docs/qa/{}.md", id),
        dynamic_vars_json: None,
        label: None,
        source: source.to_string(),
    }
}

#[test]
fn cycles_narrow_to_generated_items_when_there_are_any() {
    let all = cycle_items(vec![row("a", "static"), row("b", "static")]);
    assert_eq!(all.iter().map(|i| i.id.as_str()).collect::<Vec<_>>(), vec!["a", "b"]);
    let dynamic = cycle_items(vec![row("a", "static"), row("g1", "dynamic"), row("b", "static"), row("g2", "dynamic")]);
    assert_eq!(dynamic.iter().map(|i| i.id.as_str()).collect::<Vec<_>>(), vec!["g1", "g2"]);
    assert!(cycle_items(Vec::new()).is_empty());
}

#[test]
fn graph_source_choice_and_records() {
    assert_eq!(graph_plan_choice(true, true), GraphPlanChoice::AdaptivePlanner);
    assert_eq!(graph_plan_choice(false, true), GraphPlanChoice::StaticBaseline);
    assert_eq!(graph_plan_choice(true, false), GraphPlanChoice::StaticBaseline);
    let s = static_materialization("run-1".to_string(), 3);
    assert_eq!(s.source, "static_baseline");
    assert_eq!(s.cycle, 3);
    assert!(s.fallback_mode.is_none());
    let a = adaptive_materialization(
        "run-2".to_string(),
        4,
        false,
        DagFallbackMode::DeterministicDag,
        Some(AdaptiveFailureClass::InvalidJson),
        Some("bad output".to_string()),
    );
    assert_eq!(a.source, "deterministic_fallback");
    assert_eq!(a.fallback_mode.as_deref(), Some("deterministic_dag"));
    assert_eq!(a.planner_failure_class.as_deref(), Some("invalid_json"));
    assert_eq!(a.planner_failure_message.as_deref(), Some("bad output"));
    let p = adaptive_materialization("run-3".to_string(), 1, true, DagFallbackMode::FailClosed, None, None);
    assert_eq!(p.source, "adaptive_planner");
    assert!(p.planner_failure_class.is_none());
}

fn refusal() -> SandboxBackendRefusal {
    SandboxBackendRefusal {
        event_type: "sandbox_denied".to_string(),
        reason_code: "unsupported_backend_feature".to_string(),
        execution_profile: "locked".to_string(),
    }
}

#[test]
fn sandbox_backend_refusal_is_a_denied_run() {
    let r = sandbox_backend_error_result("agent-1", "run-9".to_string(), refusal());
    assert!(!r.success);
    assert_eq!(r.exit_code, SANDBOX_BACKEND_ERROR_EXIT_CODE);
    assert_eq!(r.exit_code, -7);
    assert_eq!(r.validation_status, "failed");
    assert_eq!(r.duration_ms, Some(0));
    assert_eq!(r.agent_id, "agent-1");
    assert_eq!(r.run_id, "run-9");
    assert!(r.sandbox_denied);
    assert_eq!(r.execution_mode, "sandbox");
    assert_eq!(r.execution_profile, "locked");
    assert_eq!(r.sandbox_denial_reason.as_deref(), Some("unsupported_backend_feature"));
    assert_eq!(r.sandbox_violation_kind.as_deref(), Some("sandbox_denied"));
}

#[test]
fn other_start_errors_are_handed_back() {
    let e: Result<RunResult, String> =
        resolve_phase_start_error(PhaseStartError::Other("spawn failed".to_string()), "a", "r".to_string());
    assert_eq!(e.err(), Some("spawn failed".to_string()));
    let d: Result<RunResult, String> =
        resolve_phase_start_error(PhaseStartError::SandboxBackend(refusal()), "a", "r".to_string());
    let r = d.ok().expect("a denied run");
    assert!(r.sandbox_denied);
    assert_eq!(r.exit_code, -7);
}

#[test]
fn completed_runs_carry_the_profile_and_the_violation() {
    let profile = ResolvedExecutionProfile {
        name: "locked".to_string(),
        mode: ExecutionProfileMode::Sandbox,
        network_mode: ExecutionNetworkMode::Deny,
        max_memory_mb: None,
        max_cpu_seconds: Some(10),
        max_processes: None,
        max_open_files: None,
    };
    let violation = classify_sandbox_failure(&profile, 137, Some(24), 24, &Some(String::new()));
    let output = AgentOutput {
        stdout: "out".to_string(),
        stderr: String::new(),
        artifacts: Vec::new(),
        build_errors: Vec::new(),
        test_failures: Vec::new(),
    };
    let r = completed_run_result(
        false,
        137,
        "o.log".to_string(),
        "e.log".to_string(),
        false,
        1500,
        output,
        "passed".to_string(),
        "agent-1",
        "run-1".to_string(),
        &profile,
        violation,
    );
    assert_eq!(r.execution_mode, "sandbox");
    assert_eq!(r.execution_profile, "locked");
    assert!(r.sandbox_denied);
    assert_eq!(r.sandbox_violation_kind.as_deref(), Some("sandbox_resource_exceeded"));
    assert_eq!(r.sandbox_denial_reason.as_deref(), Some("cpu_limit_exceeded"));
    assert_eq!(r.sandbox_resource_kind.as_deref(), Some("cpu"));
    assert_eq!(r.duration_ms, Some(1500));
    let host = ResolvedExecutionProfile { mode: ExecutionProfileMode::Host, ..profile };
    let clean = completed_run_result(
        true, 0, String::new(), String::new(), false, 1,
        AgentOutput { stdout: String::new(), stderr: String::new(), artifacts: Vec::new(), build_errors: Vec::new(), test_failures: Vec::new() },
        "passed".to_string(), "a", "r".to_string(), &host, SandboxViolationInfo::none(),
    );
    assert_eq!(clean.execution_mode, "host");
    assert!(!clean.sandbox_denied);
    assert!(clean.sandbox_resource_kind.is_none());
}

#[test]
fn quoting_adds_two_plus_three_per_quote() {
    assert_eq!(shell_escape("it's").len(), 4 + 2 + 3);
    assert_eq!(shell_escape("a'b'c").len(), 5 + 2 + 6);
    assert_eq!(shell_escape("$HOME x").len(), 7 + 2);
}
