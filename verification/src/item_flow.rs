//! Decisions of the per-item step loop.
use vstd::prelude::*;
use crate::config::{
    ExecutionMode, OnFailureAction, TaskExecutionStep, TaskItemRow, TaskRuntimeContext, RunResult,
};
use crate::accumulator::{
    StepExecutionAccumulator, has_ticket_artifact, flag_set, CaptureMaps, capture_maps, captures_effect,
};
use crate::strmap::{StrMap, text_view};
use crate::spill::SpillWrite;
use crate::text::{str_eq, i64_to_string, bool_to_string, signed_decimal, bool_text};
use crate::dynamic_items::JsonValue;
use crate::phase::shell_quoted;
use crate::text::replace_all;

verus! {

/// What the item loop is asked to do for one item.
pub struct ProcessItemRequest {
    pub task_id: String,
    pub item: TaskItemRow,
    pub task_item_paths: Vec<String>,
    pub task_ctx: TaskRuntimeContext,
    /// When given, only steps with these ids run.
    pub step_filter: Option<Vec<String>>,
    /// Whether the workflow's dynamic steps run after the plan's steps.
    pub run_dynamic_steps: bool,
}

/// The same request, owned by a worker that runs items in parallel.
pub struct OwnedProcessItemRequest {
    pub task_id: String,
    pub item: TaskItemRow,
    pub task_item_paths: Vec<String>,
    pub task_ctx: TaskRuntimeContext,
    pub step_filter: Option<Vec<String>>,
    pub run_dynamic_steps: bool,
}

impl OwnedProcessItemRequest {
    /// The request the item loop runs.
    pub fn into_request(self) -> (r: ProcessItemRequest)
        ensures
            r.task_id == self.task_id,
            r.item == self.item,
            r.task_item_paths == self.task_item_paths,
            r.task_ctx == self.task_ctx,
            r.step_filter == self.step_filter,
            r.run_dynamic_steps == self.run_dynamic_steps,
    {
        ProcessItemRequest {
            task_id: self.task_id,
            item: self.item,
            task_item_paths: self.task_item_paths,
            task_ctx: self.task_ctx,
            step_filter: self.step_filter,
            run_dynamic_steps: self.run_dynamic_steps,
        }
    }
}

/// The filter lets a step run: there is none, or it names the step.
pub open spec fn filter_allows(filter: Option<Vec<String>>, id: Seq<char>) -> bool {
    match filter {
        None => true,
        Some(f) => exists|i: int| 0 <= i < f@.len() && (#[trigger] f@[i])@ == id,
    }
}

/// The item loop runs a step: it is not a guard (guards run at the task
/// level), it is enabled, the filter allows it, and it is repeatable or this
/// is the first cycle.
pub open spec fn spec_step_eligible(step: TaskExecutionStep, filter: Option<Vec<String>>, cycle: u32) -> bool {
    !step.is_guard && step.enabled && filter_allows(filter, step.id@) && (step.repeatable || cycle <= 1)
}

/// See `spec_step_eligible`.
pub fn step_eligible(step: &TaskExecutionStep, step_filter: &Option<Vec<String>>, current_cycle: u32) -> (r: bool)
    ensures
        r == spec_step_eligible(*step, *step_filter, current_cycle),
{
    if step.is_guard || !step.enabled {
        return false;
    }
    let allowed = match step_filter {
        None => true,
        Some(f) => crate::check::contains_text(f, step.id.as_str()),
    };
    allowed && (step.repeatable || current_cycle <= 1)
}

/// The indices of the plan's steps the item loop runs, in order.
pub open spec fn eligible_steps(steps: Seq<TaskExecutionStep>, filter: Option<Vec<String>>, cycle: u32) -> Seq<usize>
    decreases steps.len(),
{
    if steps.len() == 0 {
        Seq::empty()
    } else if spec_step_eligible(steps.last(), filter, cycle) {
        eligible_steps(steps.drop_last(), filter, cycle).push((steps.len() - 1) as usize)
    } else {
        eligible_steps(steps.drop_last(), filter, cycle)
    }
}

/// The steps the item loop runs for a request (see `eligible_steps`).
pub fn plan_item_steps(request: &ProcessItemRequest) -> (r: Vec<usize>)
    ensures
        r@ == eligible_steps(
            request.task_ctx.execution_plan.steps@,
            request.step_filter,
            request.task_ctx.current_cycle,
        ),
{
    let steps = &request.task_ctx.execution_plan.steps;
    let mut out: Vec<usize> = Vec::new();
    let mut i: usize = 0;
    assert(steps@.take(0) =~= Seq::<TaskExecutionStep>::empty());
    while i < steps.len()
        invariant
            i <= steps@.len(),
            steps == &request.task_ctx.execution_plan.steps,
            out@ == eligible_steps(
                steps@.take(i as int),
                request.step_filter,
                request.task_ctx.current_cycle,
            ),
        decreases steps@.len() - i,
    {
        assert(steps@.take(i + 1).drop_last() =~= steps@.take(i as int));
        assert(steps@.take(i + 1).last() == steps@[i as int]);
        if step_eligible(&steps[i], &request.step_filter, request.task_ctx.current_cycle) {
            out.push(i);
        }
        i = i + 1;
    }
    assert(steps@.take(steps@.len() as int) =~= steps@);
    out
}

/// The next step the item loop runs, given the eligible steps (see
/// `plan_item_steps`) and how many of them it has gone through: none once the
/// item's state is terminal, the task's stop flag is set or the task is
/// paused, and none after the last eligible step.
pub fn next_item_step(terminal: bool, stop: bool, paused: bool, eligible: &Vec<usize>, pos: usize) -> (r:
    Option<usize>)
    ensures
        (terminal || stop || paused) ==> r is None,
        !(terminal || stop || paused) ==> r == (if pos < eligible@.len() {
            Some(eligible@[pos as int])
        } else {
            None
        }),
{
    if stop || paused || terminal {
        return None;
    }
    if pos < eligible.len() {
        Some(eligible[pos])
    } else {
        None
    }
}

/// A guard step never runs in the item loop, whatever the filter and cycle.
pub proof fn law_guards_never_run_per_item(step: TaskExecutionStep, filter: Option<Vec<String>>, cycle: u32)
    requires
        step.is_guard,
    ensures
        !spec_step_eligible(step, filter, cycle),
{
}

/// After the first cycle only repeatable steps run.
pub proof fn law_only_repeatable_after_first_cycle(
    step: TaskExecutionStep,
    filter: Option<Vec<String>>,
    cycle: u32,
)
    requires
        cycle > 1,
        spec_step_eligible(step, filter, cycle),
    ensures
        step.repeatable,
{
}

/// The members of a JSON object when every value is a string, as
/// (name, text) pairs in order; `None` when some value is not a string.
pub open spec fn string_members(es: Seq<(String, JsonValue)>) -> Option<Seq<(Seq<char>, Seq<char>)>>
    decreases es.len(),
{
    if es.len() == 0 {
        Some(Seq::empty())
    } else {
        match (string_members(es.drop_last()), es.last().1) {
            (Some(v), JsonValue::Str(t)) => Some(v.push((es.last().0@, t@))),
            _ => None,
        }
    }
}

/// The variables an item was generated with: its `dynamic_vars_json` read
/// as a JSON object of strings; none when it is absent or not such an object.
pub open spec fn item_json_vars(json: Option<String>) -> Seq<(Seq<char>, Seq<char>)> {
    match json {
        Some(t) => match crate::dynamic_items::json_document(t@) {
            Some(JsonValue::Object(es)) => match string_members(es@) {
                Some(v) => v,
                None => Seq::empty(),
            },
            _ => Seq::empty(),
        },
        None => Seq::empty(),
    }
}

fn string_entries(es: &Vec<(String, JsonValue)>) -> (r: Option<Vec<(String, String)>>)
    ensures
        match r {
            Some(v) => string_members(es@) == Some(pair_views(v@)),
            None => string_members(es@) is None,
        },
{
    let mut out: Vec<(String, String)> = Vec::new();
    let mut i: usize = 0;
    assert(es@.take(0) =~= Seq::<(String, JsonValue)>::empty());
    assert(pair_views(out@) =~= Seq::<(Seq<char>, Seq<char>)>::empty());
    while i < es.len()
        invariant
            i <= es@.len(),
            string_members(es@.take(i as int)) == Some(pair_views(out@)),
        decreases es@.len() - i,
    {
        assert(es@.take(i + 1).drop_last() =~= es@.take(i as int));
        assert(es@.take(i + 1).last() == es@[i as int]);
        match &es[i].1 {
            JsonValue::Str(t) => {
                let ghost before = pair_views(out@);
                out.push((es[i].0.clone(), t.clone()));
                assert(pair_views(out@) =~= before.push((es@[i as int].0@, t@)));
            },
            _ => {
                proof {
                    lemma_members_stay_none(es@, i + 1);
                }
                return None;
            },
        }
        i = i + 1;
    }
    assert(es@.take(es@.len() as int) =~= es@);
    Some(out)
}

proof fn lemma_members_stay_none(es: Seq<(String, JsonValue)>, j: int)
    requires
        0 <= j <= es.len(),
        string_members(es.take(j)) is None,
    ensures
        string_members(es) is None,
    decreases es.len() - j,
{
    if j == es.len() {
        assert(es.take(j) =~= es);
    } else {
        assert(es.take(j + 1).drop_last() =~= es.take(j));
        lemma_members_stay_none(es, j + 1);
    }
}

/// The (name, text) views of string pairs.
pub open spec fn pair_views(v: Seq<(String, String)>) -> Seq<(Seq<char>, Seq<char>)> {
    v.map_values(|e: (String, String)| (e.0@, e.1@))
}

fn put_entries(vars: &mut StrMap<String>, entries: &Vec<(String, String)>)
    ensures
        text_view(*final(vars)) == insert_all(text_view(*old(vars)), pair_views(entries@)),
{
    let ghost base = text_view(*vars);
    let ghost dv = pair_views(entries@);
    let mut i: usize = 0;
    assert(dv.take(0) =~= Seq::<(Seq<char>, Seq<char>)>::empty());
    while i < entries.len()
        invariant
            i <= entries@.len(),
            dv == pair_views(entries@),
            text_view(*vars) == insert_all(base, dv.take(i as int)),
        decreases entries@.len() - i,
    {
        assert(dv.take(i + 1).drop_last() =~= dv.take(i as int));
        assert(dv.take(i + 1).last() == dv[i as int]);
        let e = &entries[i];
        vars.put(e.0.clone(), e.1.clone());
        i = i + 1;
    }
    assert(dv.take(dv.len() as int) =~= dv);
}

/// Puts an item's own variables into its accumulator: its label as
/// `item_label`, then each variable it was generated with (see
/// `item_json_vars`).
pub fn inject_item_vars(acc: &mut StepExecutionAccumulator, item: &TaskItemRow)
    ensures
        text_view(final(acc).pipeline_vars.vars) == item_var_view(
            text_view(old(acc).pipeline_vars.vars),
            item.label,
            item_json_vars(item.dynamic_vars_json),
        ),
{
    match &item.label {
        Some(l) => {
            acc.pipeline_vars.vars.put(String::from_str("item_label"), l.clone());
        },
        None => {},
    }
    let entries: Vec<(String, String)> = match &item.dynamic_vars_json {
        Some(t) => match crate::dynamic_items::parse_json_document(t.as_str()) {
            Some(JsonValue::Object(es)) => match string_entries(&es) {
                Some(v) => v,
                None => Vec::new(),
            },
            _ => Vec::new(),
        },
        None => Vec::new(),
    };
    assert(pair_views(entries@) =~= item_json_vars(item.dynamic_vars_json));
    put_entries(&mut acc.pipeline_vars.vars, &entries);
}

/// `m` with the entries inserted in order (a later one wins).
pub open spec fn insert_all(m: Map<Seq<char>, Seq<char>>, entries: Seq<(Seq<char>, Seq<char>)>) -> Map<
    Seq<char>,
    Seq<char>,
>
    decreases entries.len(),
{
    if entries.len() == 0 {
        m
    } else {
        insert_all(m, entries.drop_last()).insert(entries.last().0, entries.last().1)
    }
}

/// The variables after an item's own are put in (see `inject_item_vars`).
pub open spec fn item_var_view(
    m: Map<Seq<char>, Seq<char>>,
    label: Option<String>,
    item_vars: Seq<(Seq<char>, Seq<char>)>,
) -> Map<Seq<char>, Seq<char>> {
    let with_label = match label {
        Some(l) => m.insert("item_label"@, l@),
        None => m,
    };
    insert_all(with_label, item_vars)
}

/// The event types of a step and the step it belongs to, if it is a chain step.
pub struct StepEventContext {
    pub started_event_type: String,
    pub finished_event_type: String,
    pub parent_step: Option<String>,
}

impl StepEventContext {
    /// A step of the plan: `step_started` / `step_finished`.
    pub fn top_level() -> (r: Self)
        ensures
            r.started_event_type@ == "step_started"@,
            r.finished_event_type@ == "step_finished"@,
            r.parent_step is None,
    {
        StepEventContext {
            started_event_type: String::from_str("step_started"),
            finished_event_type: String::from_str("step_finished"),
            parent_step: None,
        }
    }

    /// A step of a chain: `chain_step_started` / `chain_step_finished`.
    pub fn chain_child(parent_step: &str) -> (r: Self)
        ensures
            r.started_event_type@ == "chain_step_started"@,
            r.finished_event_type@ == "chain_step_finished"@,
            r.parent_step matches Some(p) && p@ == parent_step@,
    {
        StepEventContext {
            started_event_type: String::from_str("chain_step_started"),
            finished_event_type: String::from_str("chain_step_finished"),
            parent_step: Some(String::from_str(parent_step)),
        }
    }
}

/// The builtins the step loop handles itself.
#[derive(Clone, Copy, Debug, PartialEq, Eq, Structural)]
pub enum BuiltinKind {
    SelfTest,
    SelfRestart,
    TicketScan,
    ItemSelect,
    NotBuiltin,
}

/// Which builtin an execution mode names.
pub open spec fn spec_builtin_kind(mode: ExecutionMode) -> BuiltinKind {
    match mode {
        ExecutionMode::Builtin { name } => if name@ == "self_test"@ {
            BuiltinKind::SelfTest
        } else if name@ == "self_restart"@ {
            BuiltinKind::SelfRestart
        } else if name@ == "ticket_scan"@ {
            BuiltinKind::TicketScan
        } else if name@ == "item_select"@ {
            BuiltinKind::ItemSelect
        } else {
            BuiltinKind::NotBuiltin
        },
        _ => BuiltinKind::NotBuiltin,
    }
}

/// See `spec_builtin_kind`.
pub fn classify_builtin(mode: &ExecutionMode) -> (r: BuiltinKind)
    ensures
        r == spec_builtin_kind(*mode),
{
    match mode {
        ExecutionMode::Builtin { name } => {
            if str_eq(name.as_str(), "self_test") {
                BuiltinKind::SelfTest
            } else if str_eq(name.as_str(), "self_restart") {
                BuiltinKind::SelfRestart
            } else if str_eq(name.as_str(), "ticket_scan") {
                BuiltinKind::TicketScan
            } else if str_eq(name.as_str(), "item_select") {
                BuiltinKind::ItemSelect
            } else {
                BuiltinKind::NotBuiltin
            }
        },
        _ => BuiltinKind::NotBuiltin,
    }
}

/// How a builtin step ended.
#[derive(Clone, Copy, Debug, PartialEq, Eq, Structural)]
pub enum BuiltinStepOutcome {
    /// The step was handled; the loop goes on.
    Handled { success: bool },
    /// The item's step loop ends here.
    EarlyReturn,
}

/// A failed builtin's `on_failure` behaviour: nothing, a new status, or a
/// new status that ends the item's loop. Returns whether the loop ends.
pub fn apply_on_failure(acc: &mut StepExecutionAccumulator, step: &TaskExecutionStep) -> (early: bool)
    ensures
        match step.behavior.on_failure {
            OnFailureAction::Continue => !early && final(acc).item_status == old(acc).item_status
                && final(acc).terminal == old(acc).terminal,
            OnFailureAction::SetStatus { status } => !early && final(acc).item_status@ == status@
                && final(acc).terminal == old(acc).terminal,
            OnFailureAction::EarlyReturn { status } => early && final(acc).item_status@ == status@
                && final(acc).terminal,
        },
        final(acc).pipeline_vars == old(acc).pipeline_vars,
        final(acc).exit_codes == old(acc).exit_codes,
        final(acc).step_ran == old(acc).step_ran,
        final(acc).flags == old(acc).flags,
{
    match &step.behavior.on_failure {
        OnFailureAction::Continue => false,
        OnFailureAction::SetStatus { status } => {
            acc.item_status = status.clone();
            false
        },
        OnFailureAction::EarlyReturn { status } => {
            acc.item_status = status.clone();
            acc.terminal = true;
            true
        },
    }
}

/// The result a builtin step stands for when captures are applied.
pub fn builtin_run_result(success: bool, exit_code: i64) -> (r: RunResult)
    ensures
        r.success == success,
        r.exit_code == exit_code,
        r.output is None,
        r.validation_status@ == "passed"@,
        r.agent_id@ == "builtin"@,
        !r.timed_out,
        r.execution_profile@ == "host"@,
        r.execution_mode@ == "host"@,
        !r.sandbox_denied,
        r.sandbox_denial_reason is None,
        r.sandbox_violation_kind is None,
        r.sandbox_resource_kind is None,
        r.sandbox_network_target is None,
{
    RunResult {
        success,
        exit_code,
        stdout_path: String::new(),
        stderr_path: String::new(),
        timed_out: false,
        duration_ms: None,
        output: None,
        validation_status: String::from_str("passed"),
        agent_id: String::from_str("builtin"),
        run_id: String::new(),
        execution_profile: String::from_str("host"),
        execution_mode: String::from_str("host"),
        sandbox_denied: false,
        sandbox_denial_reason: None,
        sandbox_violation_kind: None,
        sandbox_resource_kind: None,
        sandbox_network_target: None,
    }
}

/// The maps after a self test records its exit code and result as
/// variables and its exit code under the step's id.
pub open spec fn self_test_maps(acc: StepExecutionAccumulator, step_id: Seq<char>, exit_code: i32) -> CaptureMaps {
    let v = text_view(acc.pipeline_vars.vars).insert("self_test_exit_code"@, signed_decimal(exit_code as int)).insert(
        "self_test_passed"@,
        bool_text(exit_code == 0),
    );
    (v, acc.flags.view_map(), acc.exit_codes.view_map().insert(step_id, exit_code as i64))
}

/// Records a finished self test: its exit code and whether it passed as
/// pipeline variables; a failure applies `on_failure`, and unless that ends
/// the loop the step is recorded as run with its exit code and its captures
/// are applied to a result with that exit code. Returns the outcome and the
/// spill files to write.
pub fn apply_self_test(acc: &mut StepExecutionAccumulator, step: &TaskExecutionStep, exit_code: i32) -> (r: (
    BuiltinStepOutcome,
    Vec<SpillWrite>,
))
    ensures
        (exit_code != 0 && step.behavior.on_failure is EarlyReturn) ==> (r.0
            == BuiltinStepOutcome::EarlyReturn && final(acc).terminal && final(acc).item_status@
            == step.behavior.on_failure->EarlyReturn_status@ && text_view(final(acc).pipeline_vars.vars)
            == self_test_maps(*old(acc), step.id@, exit_code).0),
        !(exit_code != 0 && step.behavior.on_failure is EarlyReturn) ==> ({
            &&& r.0 == (BuiltinStepOutcome::Handled { success: exit_code == 0 })
            &&& final(acc).step_ran.spec_get(step.id@) == Some(true)
            &&& exists|res: RunResult|
                res.success == (exit_code == 0) && res.exit_code == exit_code as i64 && res.output is None
                    && capture_maps(*final(acc)) == captures_effect(
                    step.behavior.captures@,
                    step.id@,
                    res,
                    self_test_maps(*old(acc), step.id@, exit_code),
                )
        }),
        (exit_code != 0 && step.behavior.on_failure is SetStatus) ==> final(acc).item_status@
            == step.behavior.on_failure->SetStatus_status@ && final(acc).terminal == old(acc).terminal,
        (exit_code == 0 || step.behavior.on_failure is Continue) ==> final(acc).item_status
            == old(acc).item_status && final(acc).terminal == old(acc).terminal,
{
    let passed = exit_code == 0;
    acc.pipeline_vars.vars.put(String::from_str("self_test_exit_code"), i64_to_string(exit_code as i64));
    acc.pipeline_vars.vars.put(String::from_str("self_test_passed"), bool_to_string(passed));
    let ghost vars_after = text_view(acc.pipeline_vars.vars);
    assert(vars_after == self_test_maps(*old(acc), step.id@, exit_code).0);
    if !passed {
        if apply_on_failure(acc, step) {
            return (BuiltinStepOutcome::EarlyReturn, Vec::new());
        }
    }
    acc.step_ran.insert(step.id.clone(), true);
    acc.exit_codes.insert(step.id.clone(), exit_code as i64);
    let synth = builtin_run_result(passed, exit_code as i64);
    assert(acc.exit_codes.view_map() =~= old(acc).exit_codes.view_map().insert(step.id@, exit_code as i64));
    assert(capture_maps(*acc) == self_test_maps(*old(acc), step.id@, exit_code));
    let writes = acc.apply_captures(&step.behavior.captures, step.id.as_str(), &synth);
    (BuiltinStepOutcome::Handled { success: passed }, writes)
}

} // verus!

verus! {

use crate::config::AgentOutput;
use crate::loop_policy::GuardResult;
use crate::dynamic_items::{member, find_member};

/// Records a ticket scan: the tickets found for the item become its active
/// tickets, and the step ran.
pub fn apply_ticket_scan(acc: &mut StepExecutionAccumulator, step: &TaskExecutionStep, tickets: Vec<String>)
    requires
        tickets@.len() <= i64::MAX,
    ensures
        final(acc).active_tickets@ == tickets@,
        final(acc).new_ticket_count == tickets@.len(),
        final(acc).step_ran.spec_get(step.id@) == Some(true),
        final(acc).item_status == old(acc).item_status,
        final(acc).terminal == old(acc).terminal,
{
    let n = tickets.len();
    acc.active_tickets = tickets;
    acc.new_ticket_count = n as i64;
    acc.step_ran.insert(step.id.clone(), true);
}

/// Records the `item_select` marker step as run; the selection itself runs
/// at the task level.
pub fn mark_item_select(acc: &mut StepExecutionAccumulator, step: &TaskExecutionStep)
    ensures
        final(acc).step_ran.spec_get(step.id@) == Some(true),
        final(acc).item_status == old(acc).item_status,
        final(acc).terminal == old(acc).terminal,
{
    acc.step_ran.insert(step.id.clone(), true);
}

/// The exit code that asks for a restart of the scheduler.
pub const EXIT_RESTART: i64 = 75;

/// How a self-restart step ended.
pub enum SelfRestartOutcome {
    /// The new binary is built and verified.
    RestartReady,
    /// Building or verifying failed with this exit code.
    Failed(i64),
}

/// What the step loop does after a self-restart step.
#[derive(Clone, Copy, Debug, PartialEq, Eq, Structural)]
pub enum RestartStepOutcome {
    /// The step failed or was handled; the loop goes on.
    Handled { success: bool },
    /// The item's step loop ends here.
    EarlyReturn,
    /// The scheduler must restart with the new binary.
    RestartRequested,
}

/// Records a self-restart step. Its exit code becomes the variable
/// `self_restart_exit_code` (`EXIT_RESTART` when the restart is ready). A
/// ready restart is requested unless an invariant halts it (`halted`), which
/// ends the item's loop; a failure applies `on_failure`. Unless `on_failure`
/// ends the loop, the step is recorded as run with its exit code.
pub fn apply_self_restart(
    acc: &mut StepExecutionAccumulator,
    step: &TaskExecutionStep,
    outcome: &SelfRestartOutcome,
    halted: bool,
) -> (r: RestartStepOutcome)
    ensures
        ({
            let code = match *outcome {
                SelfRestartOutcome::RestartReady => EXIT_RESTART,
                SelfRestartOutcome::Failed(c) => c,
            };
            &&& (code != 0 && *outcome is Failed && step.behavior.on_failure is SetStatus) ==> (
                final(acc).item_status@ == step.behavior.on_failure->SetStatus_status@
                && final(acc).terminal == old(acc).terminal)
            &&& (*outcome is RestartReady || code == 0 || step.behavior.on_failure is Continue) ==> (
                final(acc).item_status == old(acc).item_status && final(acc).terminal == old(acc).terminal)
            &&& text_view(final(acc).pipeline_vars.vars).contains_key("self_restart_exit_code"@)
            &&& text_view(final(acc).pipeline_vars.vars)["self_restart_exit_code"@] == signed_decimal(
                code as int,
            )
            &&& match *outcome {
                SelfRestartOutcome::RestartReady => (r == if halted {
                    RestartStepOutcome::EarlyReturn
                } else {
                    RestartStepOutcome::RestartRequested
                }) && final(acc).step_ran.spec_get(step.id@) == Some(true)
                    && final(acc).exit_codes.spec_get(step.id@) == Some(EXIT_RESTART),
                SelfRestartOutcome::Failed(c) => if c != 0 && step.behavior.on_failure is EarlyReturn {
                    r == RestartStepOutcome::EarlyReturn && final(acc).terminal && final(acc).item_status@
                        == step.behavior.on_failure->EarlyReturn_status@
                } else {
                    r == (RestartStepOutcome::Handled { success: c == 0 }) && final(acc).step_ran.spec_get(
                        step.id@,
                    ) == Some(true) && final(acc).exit_codes.spec_get(step.id@) == Some(c)
                },
            }
        }),
{
    let code = match outcome {
        SelfRestartOutcome::RestartReady => EXIT_RESTART,
        SelfRestartOutcome::Failed(c) => *c,
    };
    acc.pipeline_vars.vars.put(String::from_str("self_restart_exit_code"), i64_to_string(code));
    match outcome {
        SelfRestartOutcome::RestartReady => {
            acc.step_ran.insert(step.id.clone(), true);
            acc.exit_codes.insert(step.id.clone(), code);
            if halted {
                RestartStepOutcome::EarlyReturn
            } else {
                RestartStepOutcome::RestartRequested
            }
        },
        SelfRestartOutcome::Failed(c) => {
            if *c != 0 {
                if apply_on_failure(acc, step) {
                    return RestartStepOutcome::EarlyReturn;
                }
            }
            acc.step_ran.insert(step.id.clone(), true);
            acc.exit_codes.insert(step.id.clone(), *c);
            RestartStepOutcome::Handled { success: *c == 0 }
        },
    }
}

/// The result a chain step reports for the chain as a whole: exit code 0
/// on success, else 1, by the agent `chain`, with empty output.
pub fn synthetic_chain_result(step: &TaskExecutionStep, success: bool) -> (r: RunResult)
    ensures
        r.success == success,
        r.exit_code == if success {
            0i64
        } else {
            1i64
        },
        r.agent_id@ == "chain"@,
        r.validation_status@ == "passed"@,
        r.output matches Some(o) && o.stdout@.len() == 0 && o.stderr@.len() == 0
            && o.artifacts@.len() == 0,
        r.spec_is_success() == success,
        r.execution_profile@ == "chain"@,
        r.execution_mode@ == "chain"@,
        !r.sandbox_denied,
        r.sandbox_denial_reason is None,
        r.sandbox_violation_kind is None,
        r.sandbox_resource_kind is None,
        r.sandbox_network_target is None,
{
    let output = AgentOutput {
        stdout: String::new(),
        stderr: String::new(),
        artifacts: Vec::new(),
        build_errors: Vec::new(),
        test_failures: Vec::new(),
    };
    RunResult {
        success,
        exit_code: if success {
            0
        } else {
            1
        },
        stdout_path: String::new(),
        stderr_path: String::new(),
        timed_out: false,
        duration_ms: None,
        output: Some(output),
        validation_status: String::from_str("passed"),
        agent_id: String::from_str("chain"),
        run_id: String::new(),
        execution_profile: String::from_str("chain"),
        execution_mode: String::from_str("chain"),
        sandbox_denied: false,
        sandbox_denial_reason: None,
        sandbox_violation_kind: None,
        sandbox_resource_kind: None,
        sandbox_network_target: None,
    }
}

/// Whether the item's active tickets must be read from existing ticket
/// files: none are active and no ticket scan ran.
pub fn needs_ticket_seed(acc: &StepExecutionAccumulator) -> (r: bool)
    ensures
        r == (acc.active_tickets@.len() == 0 && acc.step_ran.spec_get("ticket_scan"@) is None),
{
    acc.active_tickets.len() == 0 && !acc.step_ran.contains_key("ticket_scan")
}

/// How an item's final status is decided.
#[derive(Clone, Copy, Debug, PartialEq, Eq, Structural)]
pub enum FinalizeDecision {
    /// The configured QA step neither ran nor was skipped in the last cycle:
    /// the item is `unresolved`.
    ValidationMissing,
    /// A run failed validation: the item is `unresolved`.
    ExecutionFailed,
    /// The workflow's finalize rules decide.
    ApplyRules,
}

/// See `FinalizeDecision`.
pub fn finalize_decision(
    is_last_cycle: bool,
    qa_configured: bool,
    qa_observed: bool,
    acc: &StepExecutionAccumulator,
) -> (r: FinalizeDecision)
    ensures
        r == if is_last_cycle && qa_configured && !qa_observed {
            FinalizeDecision::ValidationMissing
        } else if flag_set(acc.flags, "execution_failed"@) {
            FinalizeDecision::ExecutionFailed
        } else {
            FinalizeDecision::ApplyRules
        },
{
    if is_last_cycle && qa_configured && !qa_observed {
        FinalizeDecision::ValidationMissing
    } else {
        let failed = match acc.flags.get("execution_failed") {
            Some(b) => *b,
            None => false,
        };
        if failed {
            FinalizeDecision::ExecutionFailed
        } else {
            FinalizeDecision::ApplyRules
        }
    }
}

/// Applies the final status: `unresolved` unless the rules decide, in which
/// case their outcome (if any) becomes the status.
pub fn apply_final_status(
    acc: &mut StepExecutionAccumulator,
    decision: FinalizeDecision,
    rule_outcome: &Option<String>,
)
    ensures
        decision != FinalizeDecision::ApplyRules ==> final(acc).item_status@ == "unresolved"@,
        decision == FinalizeDecision::ApplyRules ==> match rule_outcome {
            Some(s) => final(acc).item_status@ == s@,
            None => final(acc).item_status == old(acc).item_status,
        },
{
    match decision {
        FinalizeDecision::ApplyRules => match rule_outcome {
            Some(s) => {
                acc.item_status = s.clone();
            },
            None => {},
        },
        _ => {
            acc.item_status = String::from_str("unresolved");
        },
    }
}

/// Whether the item has ticket files or ticket artifacts to store.
pub fn has_ticket_artifacts(acc: &StepExecutionAccumulator) -> (r: bool)
    ensures
        r == (acc.created_ticket_files@.len() > 0 || has_ticket_artifact(acc.phase_artifacts@)),
{
    if acc.created_ticket_files.len() > 0 {
        return true;
    }
    crate::accumulator::any_ticket_artifact(&acc.phase_artifacts)
}

/// A member of the document's top-level object.
pub open spec fn top_member(doc: Option<JsonValue>, key: Seq<char>) -> Option<JsonValue> {
    match doc {
        Some(JsonValue::Object(es)) => member(es@, key),
        _ => None,
    }
}

/// A boolean value, if it is one.
pub open spec fn as_bool(v: Option<JsonValue>) -> Option<bool> {
    match v {
        Some(JsonValue::Bool(b)) => Some(b),
        _ => None,
    }
}

/// A guard stops on `"should_stop": true`, or else on `"continue": false`;
/// anything else (no JSON, no such member) does not stop.
pub open spec fn guard_should_stop(doc: Option<JsonValue>) -> bool {
    match as_bool(top_member(doc, "should_stop"@)) {
        Some(b) => b,
        None => match as_bool(top_member(doc, "continue"@)) {
            Some(c) => !c,
            None => false,
        },
    }
}

/// The guard's `reason` when it is a string, else `guard_json`.
pub open spec fn guard_reason(doc: Option<JsonValue>) -> Seq<char> {
    match top_member(doc, "reason"@) {
        Some(JsonValue::Str(s)) => s@,
        _ => "guard_json"@,
    }
}

fn get_top_member<'a>(doc: &'a Option<JsonValue>, key: &str) -> (r: Option<&'a JsonValue>)
    ensures
        match r {
            Some(v) => top_member(*doc, key@) == Some(*v),
            None => top_member(*doc, key@) is None,
        },
{
    match doc {
        Some(JsonValue::Object(es)) => {
            let k = crate::text::chars_of(key);
            match find_member(es, &k) {
                Some(i) => Some(&es[i].1),
                None => None,
            }
        },
        _ => None,
    }
}

fn bool_member(doc: &Option<JsonValue>, key: &str) -> (r: Option<bool>)
    ensures
        r == as_bool(top_member(*doc, key@)),
{
    match get_top_member(doc, key) {
        Some(JsonValue::Bool(b)) => Some(*b),
        _ => None,
    }
}

/// A guard agent's verdict from its output parsed as JSON (`None` when the
/// output is not JSON): see `guard_should_stop` and `guard_reason`.
pub fn guard_output_verdict(document: &Option<JsonValue>) -> (r: GuardResult)
    ensures
        r.should_stop == guard_should_stop(*document),
        r.reason@ == guard_reason(*document),
{
    let should_stop = match bool_member(document, "should_stop") {
        Some(b) => b,
        None => match bool_member(document, "continue") {
            Some(c) => !c,
            None => false,
        },
    };
    let reason = match get_top_member(document, "reason") {
        Some(JsonValue::Str(s)) => s.clone(),
        _ => String::from_str("guard_json"),
    };
    GuardResult { should_stop, reason }
}

/// Reads a guard agent's verdict from its standard output, read as JSON.
pub fn parse_guard_output(stdout: &str) -> (r: GuardResult)
    ensures
        r.should_stop == guard_should_stop(crate::dynamic_items::json_document(stdout@)),
        r.reason@ == guard_reason(crate::dynamic_items::json_document(stdout@)),
{
    let document = crate::dynamic_items::parse_json_document(stdout);
    guard_output_verdict(&document)
}

/// A guard agent's command: its template with `{task_id}` and `{cycle}`
/// filled in, each as a quoted shell word.
pub open spec fn guard_command(template: Seq<char>, task_id: Seq<char>, cycle: u32) -> Seq<char> {
    replace_all(
        replace_all(template, "{task_id}"@, shell_quoted(task_id)),
        "{cycle}"@,
        shell_quoted(crate::text::decimal(cycle as nat)),
    )
}

/// See `guard_command`.
pub fn render_guard_command(template: &str, task_id: &str, cycle: u32) -> (r: String)
    ensures
        r@ == guard_command(template@, task_id@, cycle),
{
    proof {
        reveal_strlit("{task_id}");
        reveal_strlit("{cycle}");
    }
    let qt = crate::phase::shell_escape(task_id);
    let a = crate::text::replace_str(template, "{task_id}", qt.as_str());
    let c = crate::text::u64_to_string(cycle as u64);
    let qc = crate::phase::shell_escape(c.as_str());
    crate::text::replace_str(a.as_str(), "{cycle}", qc.as_str())
}

} // verus!
