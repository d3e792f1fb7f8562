use scheduler_core::config::{PromptDelivery, StepScope};
use scheduler_core::phase_command::{
    command_preview, dispatch_prompt, effective_capability, join_quoted_paths,
    machine_output_source, marks_agent_diseased, needs_context_render, phase_verdict,
    plan_prompt_delivery, prepare_rotating_request, render_step_prompt, resolve_wait,
    substitute_command_placeholders, wait_slice_secs, wrap_tty_command, RotatingPhaseRunRequest,
    WaitObservation,
};

fn paths(v: &[&str]) -> Vec<String> {
    v.iter().map(|s| s.to_string()).collect()
}

#[test]
fn step_prompt_placeholders_are_filled_and_quoted() {
    let r = render_step_prompt(
        "check {rel_path} in {phase} cycle {cycle}: {ticket_paths}",
        "docs/qa/it's.md",
        "qa",
        3,
        &paths(&["t1.md", "t 2.md"]),
    );
    assert_eq!(r, "check 'docs/qa/it'\\''s.md' in qa cycle 3: 't1.md' 't 2.md'");
    assert_eq!(join_quoted_paths(&vec![]), "");
}

#[test]
fn command_placeholders_are_filled() {
    let c = substitute_command_placeholders("run {rel_path} {ticket_paths} {phase} {cycle}", "a.md", &paths(&["x"]), "fix", 12);
    assert_eq!(c, "run 'a.md' 'x' fix 12");
}

#[test]
fn delivery_modes_place_the_prompt() {
    let (cmd, payload) = dispatch_prompt(PromptDelivery::Arg, "agent -p {prompt}", &Some("hi".to_string()));
    assert_eq!(cmd, "agent -p hi");
    assert!(payload.is_none());
    let (cmd, payload) = dispatch_prompt(PromptDelivery::Stdin, "agent -p {prompt}", &Some("hi".to_string()));
    assert_eq!(cmd, "agent -p {prompt}");
    assert_eq!(payload.as_deref(), Some("hi"));

    let plan = plan_prompt_delivery(PromptDelivery::File, false, false, "agent {prompt_file}", &Some("p".to_string()), "/logs/prompt_1.txt");
    assert_eq!(plan.command, "agent /logs/prompt_1.txt");
    assert!(plan.env_prompt.is_none());
    let plan = plan_prompt_delivery(PromptDelivery::Env, false, false, "agent", &Some("p".to_string()), "/x");
    assert_eq!(plan.env_prompt.as_deref(), Some("p"));
    let plan = plan_prompt_delivery(PromptDelivery::Stdin, true, true, "agent", &Some("p".to_string()), "/x");
    assert!(!plan.pipe_stdin, "no stdin piping in a TTY session");
    assert_eq!(plan.command, "agent");
}

#[test]
fn capability_defaults_to_known_phases() {
    assert_eq!(effective_capability(&None, "qa"), Some("qa".to_string()));
    assert_eq!(effective_capability(&None, "retest"), Some("retest".to_string()));
    assert_eq!(effective_capability(&None, "plan"), None);
    assert_eq!(effective_capability(&Some("review".to_string()), "qa"), Some("review".to_string()));
}

#[test]
fn tty_wrapping_and_labels() {
    assert_eq!(
        wrap_tty_command("/s/out.json", "sid", "qa", "agent run", "/s/in.fifo"),
        "ORCH_OUTPUT_JSON_PATH='/s/out.json' ORCH_SESSION_ID='sid' ORCH_STEP_ID='qa' agent run < '/s/in.fifo'"
    );
    assert_eq!(machine_output_source(true), "output_json_path");
    assert_eq!(machine_output_source(false), "stdout");
    assert!(needs_context_render(false, "x {source_tree}"));
    assert!(needs_context_render(true, "x"));
    assert!(!needs_context_render(false, "x {rel_path}"));
    let long: String = "x".repeat(200);
    assert_eq!(command_preview(&long).chars().count(), 120);
    assert_eq!(command_preview("short"), "short");
}

#[test]
fn wait_loop_outcomes() {
    let t = resolve_wait(&WaitObservation::DeadlineReached).unwrap();
    assert_eq!((t.exit_code, t.timed_out, t.kill_child), (-4, true, true));
    let p = resolve_wait(&WaitObservation::StillRunning { paused: true }).unwrap();
    assert_eq!((p.exit_code, p.timed_out, p.kill_child), (-5, false, true));
    assert!(resolve_wait(&WaitObservation::StillRunning { paused: false }).is_none());
    assert_eq!(resolve_wait(&WaitObservation::Exited { code: Some(3) }).unwrap().exit_code, 3);
    assert_eq!(resolve_wait(&WaitObservation::Exited { code: None }).unwrap().exit_code, -1);
    assert_eq!(resolve_wait(&WaitObservation::WaitFailed { not_found: true }).unwrap().exit_code, -2);
    assert_eq!(resolve_wait(&WaitObservation::WaitFailed { not_found: false }).unwrap().exit_code, -3);
    assert_eq!(resolve_wait(&WaitObservation::ChildMissing).unwrap().exit_code, -3);
    assert_eq!(wait_slice_secs(30, 12), 12);
    assert_eq!(wait_slice_secs(30, 100), 30);
}

#[test]
fn verdict_and_agent_health() {
    let v = phase_verdict(0, "failed");
    assert_eq!(v.final_exit_code, -6);
    assert!(!v.success);
    let v = phase_verdict(0, "passed");
    assert!(v.success);
    let v = phase_verdict(2, "passed");
    assert_eq!(v.final_exit_code, 2);
    assert!(!v.success);
    assert!(!marks_agent_diseased(1));
    assert!(marks_agent_diseased(2));
}

#[test]
fn rotating_request_becomes_a_phase_request() {
    let req = RotatingPhaseRunRequest {
        task_id: "t".to_string(),
        item_id: "i".to_string(),
        step_id: "qa".to_string(),
        phase: "qa".to_string(),
        tty: false,
        capability: None,
        rel_path: "a.md".to_string(),
        ticket_paths: vec![],
        workspace_root: "/ws".to_string(),
        workspace_id: "w".to_string(),
        cycle: 2,
        pipeline_vars: None,
        step_timeout_secs: Some(5),
        step_scope: StepScope::Item,
        step_template_prompt: Some("test {rel_path}".to_string()),
        project_id: String::new(),
    };
    let (arg, needs) = prepare_rotating_request(&req, "agent1", "agent -p \"{prompt}\" {cycle}", PromptDelivery::Arg);
    assert_eq!(arg.command, "agent -p \"test 'a.md'\" 2");
    assert!(arg.prompt_payload.is_none());
    assert!(!needs);
    let (stdin, _) = prepare_rotating_request(&req, "agent1", "agent", PromptDelivery::Stdin);
    assert_eq!(stdin.prompt_payload.as_deref(), Some("test 'a.md'"));
    assert!(stdin.pipe_stdin);
    assert_eq!(stdin.agent_id, "agent1");
}
