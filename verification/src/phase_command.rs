use vstd::prelude::*;
use crate::config::PromptDelivery;
use crate::phase::{shell_quoted, shell_escape, spec_effective_exit_code, effective_exit_code};
use crate::text::{
    replace_all, replace_str, concat_str, contains_sub, contains_str, chars_of, string_from,
    decimal, u64_to_string, str_eq, copy_string, copy_opt_string,
};

verus! {

/// Single-quoted paths, separated by single spaces.
pub open spec fn joined_quoted(paths: Seq<Seq<char>>) -> Seq<char>
    decreases paths.len(),
{
    if paths.len() == 0 {
        Seq::empty()
    } else if paths.len() == 1 {
        shell_quoted(paths[0])
    } else {
        joined_quoted(paths.drop_last()) + seq![' '] + shell_quoted(paths.last())
    }
}

/// The character views of a list of strings.
pub open spec fn string_views(v: Seq<String>) -> Seq<Seq<char>> {
    v.map_values(|s: String| s@)
}

/// Quotes each path and joins them with spaces.
pub fn join_quoted_paths(paths: &Vec<String>) -> (r: String)
    ensures
        r@ == joined_quoted(string_views(paths@)),
{
    let mut out = String::new();
    let mut i: usize = 0;
    while i < paths.len()
        invariant
            i <= paths@.len(),
            out@ == joined_quoted(string_views(paths@.subrange(0, i as int))),
        decreases paths@.len() - i,
    {
        let q = shell_escape(paths[i].as_str());
        let ghost before = paths@.subrange(0, i as int);
        let ghost after = paths@.subrange(0, i + 1);
        assert(after.drop_last() =~= before);
        assert(string_views(after).drop_last() =~= string_views(before));
        assert(string_views(after).last() == paths@[i as int]@);
        if i == 0 {
            out = q;
        } else {
            proof {
                reveal_strlit(" ");
                assert(" "@ =~= seq![' ']);
            }
            let spaced = concat_str(out.as_str(), " ");
            out = concat_str(spaced.as_str(), q.as_str());
        }
        i = i + 1;
    }
    assert(paths@.subrange(0, paths@.len() as int) =~= paths@);
    out
}

/// The step template's prompt with `{rel_path}`, `{phase}`, `{cycle}` and
/// `{ticket_paths}` filled in, in that order.
pub open spec fn rendered_prompt(
    prompt: Seq<char>,
    rel_path: Seq<char>,
    phase: Seq<char>,
    cycle: u32,
    ticket_paths: Seq<Seq<char>>,
) -> Seq<char> {
    let a = replace_all(prompt, "{rel_path}"@, shell_quoted(rel_path));
    let b = replace_all(a, "{phase}"@, phase);
    let c = replace_all(b, "{cycle}"@, decimal(cycle as nat));
    replace_all(c, "{ticket_paths}"@, joined_quoted(ticket_paths))
}

/// Fills the placeholders of a step template's prompt (see `rendered_prompt`).
pub fn render_step_prompt(
    prompt: &str,
    rel_path: &str,
    phase: &str,
    cycle: u32,
    ticket_paths: &Vec<String>,
) -> (r: String)
    ensures
        r@ == rendered_prompt(prompt@, rel_path@, phase@, cycle, string_views(ticket_paths@)),
{
    proof {
        reveal_strlit("{rel_path}");
        reveal_strlit("{phase}");
        reveal_strlit("{cycle}");
        reveal_strlit("{ticket_paths}");
    }
    let quoted = shell_escape(rel_path);
    let a = replace_str(prompt, "{rel_path}", quoted.as_str());
    let b = replace_str(a.as_str(), "{phase}", phase);
    let cyc = u64_to_string(cycle as u64);
    let c = replace_str(b.as_str(), "{cycle}", cyc.as_str());
    let joined = join_quoted_paths(ticket_paths);
    replace_str(c.as_str(), "{ticket_paths}", joined.as_str())
}

/// The agent's command with `{rel_path}`, `{ticket_paths}`, `{phase}` and
/// `{cycle}` filled in, in that order.
pub open spec fn substituted_command(
    command: Seq<char>,
    rel_path: Seq<char>,
    ticket_paths: Seq<Seq<char>>,
    phase: Seq<char>,
    cycle: u32,
) -> Seq<char> {
    let a = replace_all(command, "{rel_path}"@, shell_quoted(rel_path));
    let b = replace_all(a, "{ticket_paths}"@, joined_quoted(ticket_paths));
    let c = replace_all(b, "{phase}"@, phase);
    replace_all(c, "{cycle}"@, decimal(cycle as nat))
}

/// Fills the placeholders of an agent command (see `substituted_command`).
pub fn substitute_command_placeholders(
    command: &str,
    rel_path: &str,
    ticket_paths: &Vec<String>,
    phase: &str,
    cycle: u32,
) -> (r: String)
    ensures
        r@ == substituted_command(command@, rel_path@, string_views(ticket_paths@), phase@, cycle),
{
    proof {
        reveal_strlit("{rel_path}");
        reveal_strlit("{phase}");
        reveal_strlit("{cycle}");
        reveal_strlit("{ticket_paths}");
    }
    let quoted = shell_escape(rel_path);
    let a = replace_str(command, "{rel_path}", quoted.as_str());
    let joined = join_quoted_paths(ticket_paths);
    let b = replace_str(a.as_str(), "{ticket_paths}", joined.as_str());
    let c = replace_str(b.as_str(), "{phase}", phase);
    let cyc = u64_to_string(cycle as u64);
    replace_str(c.as_str(), "{cycle}", cyc.as_str())
}

/// Whether the command still needs the agent context's template rendering:
/// when pipeline variables are given, or it names `{source_tree}` or
/// `{workspace_root}`.
pub open spec fn spec_needs_context_render(has_pipeline_vars: bool, command: Seq<char>) -> bool {
    has_pipeline_vars || contains_sub(command, "{source_tree}"@) || contains_sub(
        command,
        "{workspace_root}"@,
    )
}

/// See `spec_needs_context_render`.
pub fn needs_context_render(has_pipeline_vars: bool, command: &str) -> (r: bool)
    ensures
        r == spec_needs_context_render(has_pipeline_vars, command@),
{
    let v = chars_of(command);
    has_pipeline_vars || contains_str(&v, "{source_tree}") || contains_str(&v, "{workspace_root}")
}

/// Phases whose name doubles as the capability they need.
pub open spec fn is_capability_phase(phase: Seq<char>) -> bool {
    phase == "qa"@ || phase == "fix"@ || phase == "retest"@
}

/// With no capability of its own, a step of the `qa`, `fix` or `retest`
/// phase asks for the capability of that name, and a step of any other
/// phase asks for none.
pub proof fn law_capability_phases(phase: Seq<char>)
    ensures
        (phase == "qa"@ || phase == "fix"@ || phase == "retest"@) ==> is_capability_phase(phase),
        is_capability_phase(phase) ==> (phase == "qa"@ || phase == "fix"@ || phase == "retest"@),
{
}

/// The capability used to pick an agent: the step's own, or else the phase
/// name for the `qa`, `fix` and `retest` phases.
pub fn effective_capability(capability: &Option<String>, phase: &str) -> (r: Option<String>)
    ensures
        match capability {
            Some(c) => r is Some && r->0@ == c@,
            None => if is_capability_phase(phase@) {
                r is Some && r->0@ == phase@
            } else {
                r is None
            },
        },
{
    match capability {
        Some(c) => Some(copy_string(c)),
        None => {
            if str_eq(phase, "qa") || str_eq(phase, "fix") || str_eq(phase, "retest") {
                Some(String::from_str(phase))
            } else {
                None
            }
        },
    }
}

/// The agent command and the prompt payload for a delivery mode: with `Arg`
/// the rendered prompt goes into the `{prompt}` placeholder and no payload is
/// left; any other mode keeps the template and hands the prompt on as payload.
pub fn dispatch_prompt(
    delivery: PromptDelivery,
    template: &str,
    rendered_prompt: &Option<String>,
) -> (r: (String, Option<String>))
    ensures
        delivery == PromptDelivery::Arg ==> r.1 is None && match rendered_prompt {
            Some(p) => r.0@ == replace_all(template@, "{prompt}"@, p@),
            None => r.0@ == template@,
        },
        delivery != PromptDelivery::Arg ==> r.0@ == template@ && match rendered_prompt {
            Some(p) => r.1 is Some && r.1->0@ == p@,
            None => r.1 is None,
        },
{
    proof {
        reveal_strlit("{prompt}");
    }
    match delivery {
        PromptDelivery::Arg => {
            let cmd = match rendered_prompt {
                Some(p) => replace_str(template, "{prompt}", p.as_str()),
                None => String::from_str(template),
            };
            (cmd, None)
        },
        _ => (String::from_str(template), copy_opt_string(rendered_prompt)),
    }
}

/// How the prompt reaches the process: the command to run, a value for the
/// `ORCH_PROMPT` variable, and whether the payload goes to stdin.
pub struct DeliveryPlan {
    pub command: String,
    pub env_prompt: Option<String>,
    pub pipe_stdin: bool,
}

/// Prepares delivery before the spawn. `File` with a payload points
/// `{prompt_file}` at the file the payload is written to; `Env` with a payload
/// sets `ORCH_PROMPT`; stdin is piped only when asked for and not in a TTY.
pub fn plan_prompt_delivery(
    delivery: PromptDelivery,
    tty: bool,
    pipe_stdin: bool,
    command: &str,
    payload: &Option<String>,
    prompt_file_path: &str,
) -> (r: DeliveryPlan)
    ensures
        r.pipe_stdin == (pipe_stdin && !tty),
        (delivery == PromptDelivery::File && payload is Some) ==> r.command@ == replace_all(
            command@,
            "{prompt_file}"@,
            prompt_file_path@,
        ),
        !(delivery == PromptDelivery::File && payload is Some) ==> r.command@ == command@,
        (delivery == PromptDelivery::Env && payload is Some) ==> r.env_prompt is Some
            && r.env_prompt->0@ == payload->0@,
        !(delivery == PromptDelivery::Env && payload is Some) ==> r.env_prompt is None,
{
    proof {
        reveal_strlit("{prompt_file}");
    }
    let mut cmd = String::from_str(command);
    let mut env_prompt: Option<String> = None;
    match delivery {
        PromptDelivery::File => {
            if payload.is_some() {
                cmd = replace_str(command, "{prompt_file}", prompt_file_path);
            }
        },
        PromptDelivery::Env => {
            match payload {
                Some(p) => {
                    env_prompt = Some(copy_string(p));
                },
                None => {},
            }
        },
        _ => {},
    }
    DeliveryPlan { command: cmd, env_prompt, pipe_stdin: pipe_stdin && !tty }
}

/// The command run in a TTY session: the session's variables, then the
/// command, with stdin read from the session's FIFO.
pub open spec fn tty_command(
    output_json_path: Seq<char>,
    session_id: Seq<char>,
    step_id: Seq<char>,
    command: Seq<char>,
    input_fifo: Seq<char>,
) -> Seq<char> {
    "ORCH_OUTPUT_JSON_PATH="@ + shell_quoted(output_json_path) + " ORCH_SESSION_ID="@
        + shell_quoted(session_id) + " ORCH_STEP_ID="@ + shell_quoted(step_id) + " "@ + command
        + " < "@ + shell_quoted(input_fifo)
}

/// See `tty_command`.
pub fn wrap_tty_command(
    output_json_path: &str,
    session_id: &str,
    step_id: &str,
    command: &str,
    input_fifo: &str,
) -> (r: String)
    ensures
        r@ == tty_command(output_json_path@, session_id@, step_id@, command@, input_fifo@),
{
    let a = shell_escape(output_json_path);
    let b = shell_escape(session_id);
    let c = shell_escape(step_id);
    let d = shell_escape(input_fifo);
    let s1 = concat_str("ORCH_OUTPUT_JSON_PATH=", a.as_str());
    let s2 = concat_str(s1.as_str(), " ORCH_SESSION_ID=");
    let s3 = concat_str(s2.as_str(), b.as_str());
    let s4 = concat_str(s3.as_str(), " ORCH_STEP_ID=");
    let s5 = concat_str(s4.as_str(), c.as_str());
    let s6 = concat_str(s5.as_str(), " ");
    let s7 = concat_str(s6.as_str(), command);
    let s8 = concat_str(s7.as_str(), " < ");
    concat_str(s8.as_str(), d.as_str())
}

/// Where the machine-readable output of a run is taken from.
pub open spec fn spec_machine_output_source(tty: bool) -> Seq<char> {
    if tty {
        "output_json_path"@
    } else {
        "stdout"@
    }
}

/// `output_json_path` for a TTY session, else `stdout`.
pub fn machine_output_source(tty: bool) -> (r: String)
    ensures
        r@ == spec_machine_output_source(tty),
{
    if tty {
        String::from_str("output_json_path")
    } else {
        String::from_str("stdout")
    }
}

/// Characters of a command shown in the spawn event.
pub const COMMAND_PREVIEW_CHARS: usize = 120;

/// The first `COMMAND_PREVIEW_CHARS` characters of a command.
pub fn command_preview(command: &str) -> (r: String)
    ensures
        r@ == command@.take(
            if command@.len() < COMMAND_PREVIEW_CHARS {
                command@.len() as int
            } else {
                COMMAND_PREVIEW_CHARS as int
            },
        ),
{
    let v = chars_of(command);
    let n = if v.len() < COMMAND_PREVIEW_CHARS {
        v.len()
    } else {
        COMMAND_PREVIEW_CHARS
    };
    let mut prefix: Vec<char> = Vec::new();
    let mut i: usize = 0;
    while i < n
        invariant
            n <= v@.len(),
            i <= n,
            prefix@ == v@.take(i as int),
        decreases n - i,
    {
        prefix.push(v[i]);
        i = i + 1;
        assert(prefix@ =~= v@.take(i as int));
    }
    string_from(prefix.as_slice())
}

/// What the wait loop saw on one turn.
pub enum WaitObservation {
    /// The step's deadline has passed.
    DeadlineReached,
    /// No child process is registered any more.
    ChildMissing,
    /// The process exited, with its exit code if it had one.
    Exited { code: Option<i32> },
    /// Waiting failed; `not_found` when the process could not be found.
    WaitFailed { not_found: bool },
    /// The heartbeat interval passed with the process still running, and the
    /// task was or was not paused from outside meanwhile.
    StillRunning { paused: bool },
}

/// How the wait for a phase's process ended.
pub struct WaitOutcome {
    pub exit_code: i32,
    pub timed_out: bool,
    /// The process group must be killed.
    pub kill_child: bool,
}

/// Exit codes the wait loop reports for its own outcomes.
pub const EXIT_TIMED_OUT: i32 = -4;
pub const EXIT_PAUSED: i32 = -5;
pub const EXIT_WAIT_FAILED: i32 = -3;
pub const EXIT_NOT_FOUND: i32 = -2;
pub const EXIT_NO_CODE: i32 = -1;

/// The decision of one turn of the wait loop: `None` to keep waiting.
pub open spec fn spec_resolve_wait(obs: WaitObservation) -> Option<WaitOutcome> {
    match obs {
        WaitObservation::DeadlineReached => Some(
            WaitOutcome { exit_code: EXIT_TIMED_OUT, timed_out: true, kill_child: true },
        ),
        WaitObservation::ChildMissing => Some(
            WaitOutcome { exit_code: EXIT_WAIT_FAILED, timed_out: false, kill_child: false },
        ),
        WaitObservation::Exited { code } => Some(
            WaitOutcome {
                exit_code: match code {
                    Some(c) => c,
                    None => EXIT_NO_CODE,
                },
                timed_out: false,
                kill_child: false,
            },
        ),
        WaitObservation::WaitFailed { not_found } => Some(
            WaitOutcome {
                exit_code: if not_found {
                    EXIT_NOT_FOUND
                } else {
                    EXIT_WAIT_FAILED
                },
                timed_out: false,
                kill_child: false,
            },
        ),
        WaitObservation::StillRunning { paused } => if paused {
            Some(WaitOutcome { exit_code: EXIT_PAUSED, timed_out: false, kill_child: true })
        } else {
            None
        },
    }
}

/// See `spec_resolve_wait`.
pub fn resolve_wait(obs: &WaitObservation) -> (r: Option<WaitOutcome>)
    ensures
        r == spec_resolve_wait(*obs),
{
    match obs {
        WaitObservation::DeadlineReached => Some(
            WaitOutcome { exit_code: EXIT_TIMED_OUT, timed_out: true, kill_child: true },
        ),
        WaitObservation::ChildMissing => Some(
            WaitOutcome { exit_code: EXIT_WAIT_FAILED, timed_out: false, kill_child: false },
        ),
        WaitObservation::Exited { code } => Some(
            WaitOutcome {
                exit_code: match code {
                    Some(c) => *c,
                    None => EXIT_NO_CODE,
                },
                timed_out: false,
                kill_child: false,
            },
        ),
        WaitObservation::WaitFailed { not_found } => Some(
            WaitOutcome {
                exit_code: if *not_found {
                    EXIT_NOT_FOUND
                } else {
                    EXIT_WAIT_FAILED
                },
                timed_out: false,
                kill_child: false,
            },
        ),
        WaitObservation::StillRunning { paused } => if *paused {
            Some(WaitOutcome { exit_code: EXIT_PAUSED, timed_out: false, kill_child: true })
        } else {
            None
        },
    }
}

/// Only a passed deadline marks a run as timed out, and a run is killed only
/// on a timeout or an outside pause.
pub proof fn law_wait_kills_only_on_timeout_or_pause(obs: WaitObservation)
    ensures
        spec_resolve_wait(obs) matches Some(o) ==> (o.timed_out <==> obs is DeadlineReached),
        spec_resolve_wait(obs) matches Some(o) ==> (o.kill_child <==> (obs is DeadlineReached
            || obs == (WaitObservation::StillRunning { paused: true }))),
{
}

/// The seconds to wait on one turn: a heartbeat interval, or what is left
/// before the deadline when that is less.
pub fn wait_slice_secs(heartbeat_interval_secs: u64, remaining_secs: u64) -> (r: u64)
    ensures
        r == if remaining_secs < heartbeat_interval_secs {
            remaining_secs
        } else {
            heartbeat_interval_secs
        },
{
    if remaining_secs < heartbeat_interval_secs {
        remaining_secs
    } else {
        heartbeat_interval_secs
    }
}

/// The recorded result of a phase: the final exit code and whether it succeeded.
pub struct PhaseVerdict {
    pub final_exit_code: i64,
    pub success: bool,
}

/// A phase succeeds when its final exit code is 0; a validation failure
/// makes a clean exit fail.
pub fn phase_verdict(exit_code: i32, validation_status: &str) -> (r: PhaseVerdict)
    ensures
        r.final_exit_code == spec_effective_exit_code(exit_code as i64, validation_status@),
        r.success == (r.final_exit_code == 0 && validation_status@ != "failed"@),
{
    let final_exit_code = effective_exit_code(exit_code as i64, validation_status);
    let mut success = final_exit_code == 0;
    if str_eq(validation_status, "failed") {
        success = false;
    }
    PhaseVerdict { final_exit_code, success }
}

/// Consecutive failures after which an agent is marked diseased.
pub const DISEASED_AFTER_CONSECUTIVE_ERRORS: u32 = 2;

/// Whether an agent with this many consecutive failures is marked diseased.
pub fn marks_agent_diseased(consecutive_errors: u32) -> (r: bool)
    ensures
        r == (consecutive_errors >= DISEASED_AFTER_CONSECUTIVE_ERRORS),
{
    consecutive_errors >= DISEASED_AFTER_CONSECUTIVE_ERRORS
}

} // verus!

verus! {

use crate::config::{StepScope, PipelineVariables};

/// What running one phase needs: the command to run, where, by which agent,
/// and how its prompt is delivered.
pub struct PhaseRunRequest {
    pub task_id: String,
    pub item_id: String,
    pub step_id: String,
    pub phase: String,
    pub tty: bool,
    pub command: String,
    pub workspace_root: String,
    pub workspace_id: String,
    pub agent_id: String,
    pub step_timeout_secs: Option<u64>,
    pub step_scope: StepScope,
    /// How the prompt payload is delivered to the agent process.
    pub prompt_delivery: PromptDelivery,
    /// The rendered prompt for the stdin, file and env delivery modes.
    pub prompt_payload: Option<String>,
    /// Whether the payload is piped to the process's stdin.
    pub pipe_stdin: bool,
    pub project_id: String,
}

/// A phase whose agent is picked by capability, with the command rendered
/// from the agent's template.
pub struct RotatingPhaseRunRequest {
    pub task_id: String,
    pub item_id: String,
    pub step_id: String,
    pub phase: String,
    pub tty: bool,
    pub capability: Option<String>,
    pub rel_path: String,
    pub ticket_paths: Vec<String>,
    pub workspace_root: String,
    pub workspace_id: String,
    pub cycle: u32,
    pub pipeline_vars: Option<PipelineVariables>,
    pub step_timeout_secs: Option<u64>,
    pub step_scope: StepScope,
    /// The step template's prompt, for the `{prompt}` placeholder.
    pub step_template_prompt: Option<String>,
    /// Project of the agents to pick from (empty for the global agents).
    pub project_id: String,
}

/// The prompt of a rotating request, rendered (see `rendered_prompt`).
pub open spec fn request_prompt(req: RotatingPhaseRunRequest) -> Option<Seq<char>> {
    match req.step_template_prompt {
        Some(p) => Some(
            rendered_prompt(p@, req.rel_path@, req.phase@, req.cycle, string_views(req.ticket_paths@)),
        ),
        None => None,
    }
}

/// The command of a rotating request for an agent's template: the prompt
/// placed by the delivery mode, then the placeholders filled.
pub open spec fn request_command(
    req: RotatingPhaseRunRequest,
    template: Seq<char>,
    delivery: PromptDelivery,
) -> Seq<char> {
    let base = if delivery == PromptDelivery::Arg {
        match request_prompt(req) {
            Some(p) => replace_all(template, "{prompt}"@, p),
            None => template,
        }
    } else {
        template
    };
    substituted_command(base, req.rel_path@, string_views(req.ticket_paths@), req.phase@, req.cycle)
}

/// The phase request of a rotating request once an agent is picked, and
/// whether its command still needs the agent context's template rendering.
/// The payload is the rendered prompt for all but `Arg` delivery, and stdin
/// is piped for `Stdin` delivery.
pub fn prepare_rotating_request(
    req: &RotatingPhaseRunRequest,
    agent_id: &str,
    template: &str,
    delivery: PromptDelivery,
) -> (r: (PhaseRunRequest, bool))
    ensures
        r.0.command@ == request_command(*req, template@, delivery),
        r.0.agent_id@ == agent_id@,
        r.0.task_id == req.task_id,
        r.0.item_id == req.item_id,
        r.0.step_id == req.step_id,
        r.0.phase == req.phase,
        r.0.tty == req.tty,
        r.0.workspace_root == req.workspace_root,
        r.0.workspace_id == req.workspace_id,
        r.0.step_timeout_secs == req.step_timeout_secs,
        r.0.step_scope == req.step_scope,
        r.0.prompt_delivery == delivery,
        delivery == PromptDelivery::Arg ==> r.0.prompt_payload is None,
        delivery != PromptDelivery::Arg ==> match request_prompt(*req) {
            Some(p) => r.0.prompt_payload matches Some(x) && x@ == p,
            None => r.0.prompt_payload is None,
        },
        r.0.pipe_stdin == (delivery == PromptDelivery::Stdin),
        r.0.project_id == req.project_id,
        r.1 == spec_needs_context_render(req.pipeline_vars is Some, r.0.command@),
{
    let rendered: Option<String> = match &req.step_template_prompt {
        Some(p) => Some(
            render_step_prompt(
                p.as_str(),
                req.rel_path.as_str(),
                req.phase.as_str(),
                req.cycle,
                &req.ticket_paths,
            ),
        ),
        None => None,
    };
    let (base, payload) = dispatch_prompt(delivery, template, &rendered);
    let command = substitute_command_placeholders(
        base.as_str(),
        req.rel_path.as_str(),
        &req.ticket_paths,
        req.phase.as_str(),
        req.cycle,
    );
    let needs = needs_context_render(req.pipeline_vars.is_some(), command.as_str());
    let out = PhaseRunRequest {
        task_id: req.task_id.clone(),
        item_id: req.item_id.clone(),
        step_id: req.step_id.clone(),
        phase: req.phase.clone(),
        tty: req.tty,
        command,
        workspace_root: req.workspace_root.clone(),
        workspace_id: req.workspace_id.clone(),
        agent_id: String::from_str(agent_id),
        step_timeout_secs: req.step_timeout_secs,
        step_scope: req.step_scope,
        prompt_delivery: delivery,
        prompt_payload: payload,
        pipe_stdin: delivery == PromptDelivery::Stdin,
        project_id: req.project_id.clone(),
    };
    (out, needs)
}

} // verus!

verus! {

/// Exit code of a run that the sandbox backend refused to start.
pub const SANDBOX_BACKEND_ERROR_EXIT_CODE: i64 = -7;

/// A sandbox backend's refusal to start a run: the violation's event type,
/// the reason code, and the execution profile it was asked for.
pub struct SandboxBackendRefusal {
    pub event_type: String,
    pub reason_code: String,
    pub execution_profile: String,
}

/// The result recorded for a run that the sandbox backend refused to start:
/// failed, with `SANDBOX_BACKEND_ERROR_EXIT_CODE`, validation `failed`, no
/// output, no logs and no time spent; the run was denied in a sandbox, for
/// the refusal's reason code, as a violation of the refusal's kind.
pub fn sandbox_backend_error_result(agent_id: &str, run_id: String, refusal: SandboxBackendRefusal) -> (r:
    crate::config::RunResult)
    ensures
        !r.success,
        r.exit_code == SANDBOX_BACKEND_ERROR_EXIT_CODE,
        r.validation_status@ == "failed"@,
        r.duration_ms == Some(0u64),
        r.output is None,
        !r.timed_out,
        r.stdout_path@.len() == 0,
        r.stderr_path@.len() == 0,
        r.agent_id@ == agent_id@,
        r.run_id == run_id,
        r.execution_profile == refusal.execution_profile,
        r.execution_mode@ == "sandbox"@,
        r.sandbox_denied,
        r.sandbox_denial_reason == Some(refusal.reason_code),
        r.sandbox_violation_kind == Some(refusal.event_type),
        r.sandbox_resource_kind is None,
        r.sandbox_network_target is None,
{
    crate::config::RunResult {
        success: false,
        exit_code: SANDBOX_BACKEND_ERROR_EXIT_CODE,
        stdout_path: String::new(),
        stderr_path: String::new(),
        timed_out: false,
        duration_ms: Some(0),
        output: None,
        validation_status: String::from_str("failed"),
        agent_id: String::from_str(agent_id),
        run_id,
        execution_profile: refusal.execution_profile,
        execution_mode: String::from_str("sandbox"),
        sandbox_denied: true,
        sandbox_denial_reason: Some(refusal.reason_code),
        sandbox_violation_kind: Some(refusal.event_type),
        sandbox_resource_kind: None,
        sandbox_network_target: None,
    }
}

/// Why preparing or starting a phase failed: the sandbox backend refused
/// it, or any other error.
pub enum PhaseStartError<E> {
    SandboxBackend(SandboxBackendRefusal),
    Other(E),
}

/// What a failure to prepare or start a phase becomes: a sandbox refusal is
/// recorded as a denied run (see `sandbox_backend_error_result`); any other
/// error is handed back unchanged.
pub fn resolve_phase_start_error<E>(err: PhaseStartError<E>, agent_id: &str, run_id: String) -> (r: Result<
    crate::config::RunResult,
    E,
>)
    ensures
        match err {
            PhaseStartError::Other(e) => r == Err::<crate::config::RunResult, E>(e),
            PhaseStartError::SandboxBackend(refusal) => r matches Ok(res) && !res.success
                && res.exit_code == SANDBOX_BACKEND_ERROR_EXIT_CODE && res.validation_status@ == "failed"@
                && res.sandbox_denied && res.execution_mode@ == "sandbox"@
                && res.sandbox_denial_reason == Some(refusal.reason_code)
                && res.sandbox_violation_kind == Some(refusal.event_type)
                && res.execution_profile == refusal.execution_profile
                && res.agent_id@ == agent_id@ && res.run_id == run_id,
        },
{
    match err {
        PhaseStartError::Other(e) => Err(e),
        PhaseStartError::SandboxBackend(refusal) => Ok(sandbox_backend_error_result(agent_id, run_id, refusal)),
    }
}

} // verus!
