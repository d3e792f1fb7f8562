use scheduler_core::check::{
    probe_paths, run_checks, ActiveConfig, AgentConfig, ProjectConfig, Severity,
    StepTemplateConfig, WorkflowConfig, WorkflowStepConfig, WorkspaceConfig,
};
use scheduler_core::check_workflow::{find_template_vars, is_known_builtin_step_name};
use scheduler_core::config::{ExecutionMode, PromptDelivery, StepBehavior};
use scheduler_core::strmap::StrMap;

const APP_ROOT: &str = "/app";

fn wf_step(id: &str, capability: Option<&str>, builtin: Option<&str>, enabled: bool) -> WorkflowStepConfig {
    WorkflowStepConfig {
        id: id.to_string(),
        required_capability: capability.map(|s| s.to_string()),
        builtin: builtin.map(|s| s.to_string()),
        enabled,
        pipe_to: None,
        command: None,
        chain_steps: vec![],
        behavior: StepBehavior::default_behavior(),
    }
}

fn base_config() -> ActiveConfig {
    let mut agents: StrMap<AgentConfig> = StrMap::new();
    agents.insert(
        "agent1".to_string(),
        AgentConfig {
            capabilities: vec!["plan".to_string(), "implement".to_string()],
            command: "echo test".to_string(),
            prompt_delivery: PromptDelivery::Arg,
        },
    );
    let mut workspaces: StrMap<WorkspaceConfig> = StrMap::new();
    workspaces.insert(
        "default".to_string(),
        WorkspaceConfig {
            root_path: "ws".to_string(),
            qa_targets: vec!["docs/qa".to_string()],
            ticket_dir: "tickets".to_string(),
            self_referential: false,
        },
    );
    let mut guard = wf_step("loop_guard", None, Some("loop_guard"), true);
    guard.behavior.execution = ExecutionMode::Builtin { name: "loop_guard".to_string() };
    let mut workflows: StrMap<WorkflowConfig> = StrMap::new();
    workflows.insert(
        "test-wf".to_string(),
        WorkflowConfig {
            steps: vec![
                wf_step("plan", Some("plan"), None, true),
                wf_step("implement", Some("implement"), None, true),
                guard,
            ],
        },
    );
    let mut projects: StrMap<ProjectConfig> = StrMap::new();
    projects.insert(
        "default".to_string(),
        ProjectConfig { workspaces, agents, workflows, step_templates: StrMap::new() },
    );
    ActiveConfig { projects }
}

fn project_mut(cfg: &mut ActiveConfig) -> &mut ProjectConfig {
    &mut cfg.projects.entries[0].1
}

/// The paths that exist after the workspace and its QA directory are created.
fn temp_ws_paths() -> Vec<String> {
    vec!["/app/ws".to_string(), "/app/ws/docs/qa".to_string()]
}

fn test_wf(cfg: &mut ActiveConfig) -> &mut WorkflowConfig {
    &mut project_mut(cfg).workflows.entries[0].1
}

#[test]
fn clean_config_no_errors() {
    let cfg = base_config();
    let report = run_checks(&cfg, APP_ROOT, &None, &None, &temp_ws_paths());
    let errors = report
        .checks
        .iter()
        .filter(|c| !c.passed && c.severity == Severity::Error)
        .count();
    assert_eq!(errors, 0, "expected 0 errors");
    assert_eq!(report.summary.errors, 0);
}

#[test]
fn workspace_root_missing() {
    let cfg = base_config();
    let report = run_checks(&cfg, APP_ROOT, &None, &None, &vec![]);
    let found = report.checks.iter().any(|c| c.rule == "workspace_root_missing" && !c.passed);
    assert!(found, "expected workspace_root_missing error");
    assert!(report.summary.errors > 0);
}

#[test]
fn qa_targets_missing() {
    let cfg = base_config();
    let report = run_checks(&cfg, APP_ROOT, &None, &None, &vec!["/app/ws".to_string()]);
    let found = report.checks.iter().any(|c| c.rule == "qa_targets_missing" && !c.passed);
    assert!(found, "expected qa_targets_missing warning");
    assert!(report.summary.warnings > 0);
}

#[test]
fn capability_no_agent() {
    let mut cfg = base_config();
    test_wf(&mut cfg).steps.push(wf_step("deploy", Some("deploy"), None, true));
    let report = run_checks(&cfg, APP_ROOT, &None, &None, &temp_ws_paths());
    let found = report.checks.iter().any(|c| c.rule == "capability_no_agent" && !c.passed);
    assert!(found, "expected capability_no_agent error");
}

#[test]
fn agent_missing_command() {
    let mut cfg = base_config();
    project_mut(&mut cfg).agents.entries[0].1.command = String::new();
    let report = run_checks(&cfg, APP_ROOT, &None, &None, &temp_ws_paths());
    let found = report.checks.iter().any(|c| c.rule == "agent_has_command" && !c.passed);
    assert!(found, "expected agent_has_command error");
}

#[test]
fn builtin_unknown() {
    let mut cfg = base_config();
    test_wf(&mut cfg).steps.push(wf_step("bad_builtin", None, Some("nonexistent"), true));
    let report = run_checks(&cfg, APP_ROOT, &None, &None, &temp_ws_paths());
    let found = report.checks.iter().any(|c| c.rule == "builtin_unknown" && !c.passed);
    assert!(found, "expected builtin_unknown error");
}

#[test]
fn step_semantic_conflict() {
    let mut cfg = base_config();
    test_wf(&mut cfg).steps.push(wf_step("conflict", Some("plan"), Some("self_test"), true));
    let report = run_checks(&cfg, APP_ROOT, &None, &None, &temp_ws_paths());
    let found = report.checks.iter().any(|c| c.rule == "step_semantic_conflict" && !c.passed);
    assert!(found, "expected step_semantic_conflict error");
}

#[test]
fn execution_mode_mismatch() {
    let mut cfg = base_config();
    test_wf(&mut cfg).steps[0].behavior.execution = ExecutionMode::Builtin { name: "plan".to_string() };
    let report = run_checks(&cfg, APP_ROOT, &None, &None, &temp_ws_paths());
    let found = report.checks.iter().any(|c| c.rule == "execution_mode_mismatch" && !c.passed);
    assert!(found, "expected execution_mode_mismatch error");
}

#[test]
fn command_steps_skip_capability_requirement() {
    let mut cfg = base_config();
    let mut shell = wf_step("shell", None, None, true);
    shell.behavior.execution = ExecutionMode::Builtin { name: "shell".to_string() };
    test_wf(&mut cfg).steps = vec![shell];
    let report = run_checks(&cfg, APP_ROOT, &None, &None, &temp_ws_paths());
    let found = report.checks.iter().any(|c| c.rule == "capability_no_agent" && !c.passed);
    assert!(!found, "command step should not require agent capability");
}

#[test]
fn pipe_to_unknown() {
    let mut cfg = base_config();
    test_wf(&mut cfg).steps[0].pipe_to = Some("ghost".to_string());
    let report = run_checks(&cfg, APP_ROOT, &None, &None, &temp_ws_paths());
    let found = report.checks.iter().any(|c| c.rule == "pipe_to_unknown" && !c.passed);
    assert!(found, "expected pipe_to_unknown error");
}

#[test]
fn template_unknown_var() {
    let mut cfg = base_config();
    project_mut(&mut cfg)
        .step_templates
        .insert("plan".to_string(), StepTemplateConfig { prompt: "echo {unknown_var}".to_string() });
    let report = run_checks(&cfg, APP_ROOT, &None, &None, &temp_ws_paths());
    let found = report.checks.iter().any(|c| c.rule == "template_unknown_var" && !c.passed);
    assert!(found, "expected template_unknown_var warning");
}

#[test]
fn template_system_var_ok() {
    let cfg = base_config();
    let report = run_checks(&cfg, APP_ROOT, &None, &None, &temp_ws_paths());
    let bad = report.checks.iter().any(|c| c.rule == "template_unknown_var" && !c.passed);
    assert!(!bad, "system vars should not trigger unknown var warning");
}

#[test]
fn template_pipeline_var_ok() {
    let mut cfg = base_config();
    project_mut(&mut cfg)
        .step_templates
        .insert("implement".to_string(), StepTemplateConfig { prompt: "echo {plan_output}".to_string() });
    let report = run_checks(&cfg, APP_ROOT, &None, &None, &temp_ws_paths());
    let bad = report.checks.iter().any(|c| {
        c.rule == "template_unknown_var" && !c.passed && c.message.contains("plan_output")
    });
    assert!(!bad, "pipeline-derived var {{plan_output}} should not trigger warning");
}

#[test]
fn empty_workflow() {
    let mut cfg = base_config();
    project_mut(&mut cfg).workflows.insert(
        "empty-wf".to_string(),
        WorkflowConfig { steps: vec![wf_step("disabled", None, None, false)] },
    );
    let report = run_checks(&cfg, APP_ROOT, &None, &None, &temp_ws_paths());
    let found = report.checks.iter().any(|c| c.rule == "empty_workflow" && !c.passed);
    assert!(found, "expected empty_workflow warning");
}

#[test]
fn chain_steps_checked() {
    let mut cfg = base_config();
    let mut parent = wf_step("parent", Some("plan"), None, true);
    parent.chain_steps = vec![wf_step("child", Some("deploy"), None, true)];
    test_wf(&mut cfg).steps.push(parent);
    let report = run_checks(&cfg, APP_ROOT, &None, &None, &temp_ws_paths());
    let found = report
        .checks
        .iter()
        .any(|c| c.rule == "capability_no_agent" && !c.passed && c.message.contains("child"));
    assert!(found, "chain_step child should be checked for capability");
}

#[test]
fn prompt_delivery_stdin_warns_on_prompt_placeholder() {
    let mut cfg = base_config();
    {
        let agent = &mut project_mut(&mut cfg).agents.entries[0].1;
        agent.prompt_delivery = PromptDelivery::Stdin;
        agent.command = "agent-cli -p \"{prompt}\"".to_string();
    }
    let report = run_checks(&cfg, APP_ROOT, &None, &None, &temp_ws_paths());
    let found = report.checks.iter().any(|c| c.rule == "prompt_delivery_placeholder_ignored" && !c.passed);
    assert!(found, "stdin delivery with {{prompt}} should warn");
}

#[test]
fn prompt_delivery_file_warns_missing_prompt_file_placeholder() {
    let mut cfg = base_config();
    {
        let agent = &mut project_mut(&mut cfg).agents.entries[0].1;
        agent.prompt_delivery = PromptDelivery::File;
        agent.command = "agent-cli --file input.txt".to_string();
    }
    let report = run_checks(&cfg, APP_ROOT, &None, &None, &temp_ws_paths());
    let found = report.checks.iter().any(|c| c.rule == "prompt_delivery_missing_placeholder" && !c.passed);
    assert!(found, "file delivery without {{prompt_file}} should warn");
}

#[test]
fn prompt_delivery_arg_no_warning() {
    let cfg = base_config();
    let report = run_checks(&cfg, APP_ROOT, &None, &None, &temp_ws_paths());
    let found = report.checks.iter().any(|c| c.rule.starts_with("prompt_delivery") && !c.passed);
    assert!(!found, "default arg delivery should not trigger warnings");
}

// ── further checks ──────────────────────────────────────────────

#[test]
fn check_messages_and_contexts_are_exact() {
    let cfg = base_config();
    let report = run_checks(&cfg, APP_ROOT, &None, &None, &vec!["/app/ws".to_string()]);
    let root = &report.checks[0];
    assert_eq!(root.rule, "workspace_root_missing");
    assert!(root.passed);
    assert_eq!(root.message, "workspace \"default\": root path exists");
    assert_eq!(root.context.as_deref(), Some("/app/ws"));
    let qa = &report.checks[1];
    assert_eq!(qa.rule, "qa_targets_missing");
    assert!(!qa.passed);
    assert_eq!(qa.severity, Severity::Warning);
    assert_eq!(qa.message, "workspace \"default\": qa_target \"docs/qa\" does not exist");
    assert_eq!(qa.context.as_deref(), Some("/app/ws/docs/qa"));
}

#[test]
fn check_summary_counts_match_checks() {
    let cfg = base_config();
    let report = run_checks(&cfg, APP_ROOT, &None, &None, &vec![]);
    assert_eq!(report.summary.total as usize, report.checks.len());
    let passed = report.checks.iter().filter(|c| c.passed).count();
    let errors = report.checks.iter().filter(|c| !c.passed && c.severity == Severity::Error).count();
    let warnings = report.checks.iter().filter(|c| !c.passed && c.severity == Severity::Warning).count();
    assert_eq!(report.summary.passed as usize, passed);
    assert_eq!(report.summary.errors as usize, errors);
    assert_eq!(report.summary.warnings as usize, warnings);
    assert!(passed + errors + warnings <= report.checks.len());
}

#[test]
fn check_unknown_project_is_reported() {
    let cfg = base_config();
    let report = run_checks(&cfg, APP_ROOT, &None, &Some("other".to_string()), &vec![]);
    assert_eq!(report.checks.len(), 1);
    assert_eq!(report.checks[0].rule, "project_not_found");
    assert_eq!(report.checks[0].message, "project \"other\" not found in config");
    assert_eq!(report.summary.errors, 1);
}

#[test]
fn check_workflow_filter_limits_workflow_checks() {
    let mut cfg = base_config();
    project_mut(&mut cfg).workflows.insert(
        "empty-wf".to_string(),
        WorkflowConfig { steps: vec![wf_step("disabled", None, None, false)] },
    );
    let report = run_checks(&cfg, APP_ROOT, &Some("test-wf".to_string()), &None, &temp_ws_paths());
    let empty = report.checks.iter().any(|c| c.rule == "empty_workflow" && !c.passed);
    assert!(!empty, "filtered-out workflow must not be checked");
    let enabled = report
        .checks
        .iter()
        .find(|c| c.rule == "empty_workflow")
        .expect("test-wf checked");
    assert_eq!(enabled.message, "workflow \"test-wf\": has 3 enabled steps");
}

#[test]
fn check_unknown_var_message_names_the_placeholder() {
    let mut cfg = base_config();
    project_mut(&mut cfg)
        .step_templates
        .insert("plan".to_string(), StepTemplateConfig { prompt: "echo {unknown_var} {task_id}".to_string() });
    let report = run_checks(&cfg, APP_ROOT, &None, &None, &temp_ws_paths());
    let warnings: Vec<_> = report.checks.iter().filter(|c| c.rule == "template_unknown_var").collect();
    assert_eq!(warnings.len(), 1);
    assert_eq!(
        warnings[0].message,
        "step_template \"plan\": prompt references {unknown_var} — not a known system variable (may come from pipeline)"
    );
}

#[test]
fn check_template_vars_are_found_in_order() {
    assert_eq!(find_template_vars("a {x} b {y_1} {} {bad-} {z}"), vec!["{x}", "{y_1}", "{z}"]);
    assert!(find_template_vars("no placeholders").is_empty());
}

#[test]
fn check_known_builtins() {
    for name in ["init_once", "loop_guard", "ticket_scan", "self_test"] {
        assert!(is_known_builtin_step_name(name));
    }
    assert!(!is_known_builtin_step_name("nonexistent"));
}

#[test]
fn check_probe_paths_lists_roots_and_targets() {
    let cfg = base_config();
    assert_eq!(probe_paths(&cfg, APP_ROOT, &None), vec!["/app/ws", "/app/ws/docs/qa"]);
    assert!(probe_paths(&cfg, APP_ROOT, &Some("other".to_string())).is_empty());
}
