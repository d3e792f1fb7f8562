use vstd::prelude::*;
use crate::strmap::StrMap;
use crate::text::{str_eq, copy_string, copy_opt_string};

verus! {

/// Whether a step runs once per task or once per item.
#[derive(Clone, Copy, Debug, PartialEq, Eq, Structural)]
pub enum StepScope {
    Task,
    Item,
}

/// How a workflow repeats its cycles.
#[derive(Clone, Copy, Debug, PartialEq, Eq, Structural)]
pub enum LoopMode {
    Once,
    Fixed,
    Infinite,
}

/// Settings of the loop guard.
pub struct WorkflowLoopGuardConfig {
    pub enabled: bool,
    pub stop_when_no_unresolved: bool,
    pub max_cycles: Option<u32>,
    pub agent_template: Option<String>,
}

impl WorkflowLoopGuardConfig {
    /// The default guard: enabled, stops when nothing is unresolved, no cycle limit.
    pub fn default_guard() -> (g: Self)
        ensures
            g.enabled,
            g.stop_when_no_unresolved,
            g.max_cycles is None,
            g.agent_template is None,
    {
        WorkflowLoopGuardConfig {
            enabled: true,
            stop_when_no_unresolved: true,
            max_cycles: None,
            agent_template: None,
        }
    }
}

/// Loop policy of a workflow.
pub struct WorkflowLoopConfig {
    pub mode: LoopMode,
    pub guard: WorkflowLoopGuardConfig,
}

impl WorkflowLoopConfig {
    /// The default policy: a single pass with the default guard.
    pub fn default_policy() -> (p: Self)
        ensures
            p.mode == LoopMode::Once,
            p.guard.enabled,
            p.guard.stop_when_no_unresolved,
            p.guard.max_cycles is None,
    {
        WorkflowLoopConfig { mode: LoopMode::Once, guard: WorkflowLoopGuardConfig::default_guard() }
    }
}

/// Checkpointing before each cycle.
#[derive(Clone, Copy, Debug, PartialEq, Eq, Structural)]
pub enum CheckpointStrategy {
    Disabled,
    GitTag,
}

/// How a step is executed.
#[derive(Debug)]
pub enum ExecutionMode {
    Agent,
    Builtin { name: String },
    Chain,
}

/// Two execution modes are the same mode (for builtins, with the same name).
pub open spec fn same_execution_mode(a: ExecutionMode, b: ExecutionMode) -> bool {
    match (a, b) {
        (ExecutionMode::Agent, ExecutionMode::Agent) => true,
        (ExecutionMode::Chain, ExecutionMode::Chain) => true,
        (ExecutionMode::Builtin { name: x }, ExecutionMode::Builtin { name: y }) => x@ == y@,
        _ => false,
    }
}

impl ExecutionMode {
    /// Whether two execution modes are the same mode.
    pub fn same_as(&self, other: &ExecutionMode) -> (r: bool)
        ensures
            r == same_execution_mode(*self, *other),
    {
        match (self, other) {
            (ExecutionMode::Agent, ExecutionMode::Agent) => true,
            (ExecutionMode::Chain, ExecutionMode::Chain) => true,
            (ExecutionMode::Builtin { name: x }, ExecutionMode::Builtin { name: y }) => str_eq(
                x.as_str(),
                y.as_str(),
            ),
            _ => false,
        }
    }

    /// A copy of the mode.
    pub fn copy(&self) -> (r: ExecutionMode)
        ensures
            r == *self,
    {
        match self {
            ExecutionMode::Agent => ExecutionMode::Agent,
            ExecutionMode::Builtin { name } => ExecutionMode::Builtin { name: name.clone() },
            ExecutionMode::Chain => ExecutionMode::Chain,
        }
    }
}

/// How the rendered prompt reaches the agent process.
#[derive(Clone, Copy, Debug, PartialEq, Eq, Structural)]
pub enum PromptDelivery {
    Arg,
    Stdin,
    File,
    Env,
}

/// What happens to an item when its step fails.
#[derive(Debug)]
pub enum OnFailureAction {
    Continue,
    SetStatus { status: String },
    EarlyReturn { status: String },
}

/// What happens to an item when its step succeeds.
#[derive(Debug)]
pub enum OnSuccessAction {
    Continue,
    SetStatus { status: String },
}

/// Which part of a step result a capture reads.
#[derive(Clone, Copy, Debug, PartialEq, Eq, Structural)]
pub enum CaptureSource {
    ExitCode,
    FailedFlag,
    SuccessFlag,
    Stdout,
    Stderr,
}

/// Captures one part of a step result into a pipeline variable.
pub struct CaptureDecl {
    pub var: String,
    pub source: CaptureSource,
}

/// Declarative behaviour of a step.
pub struct StepBehavior {
    pub execution: ExecutionMode,
    pub on_failure: OnFailureAction,
    pub on_success: OnSuccessAction,
    pub captures: Vec<CaptureDecl>,
    pub post_actions: Vec<PostAction>,
    pub collect_artifacts: bool,
}

/// An action a step takes after its status transition.
#[derive(Clone, Copy, Debug, PartialEq, Eq, Structural)]
pub enum PostAction {
    /// Create a ticket when the step failed.
    CreateTicket,
    /// Read the item's active tickets again.
    ScanTickets,
}

impl StepBehavior {
    /// Agent execution, continue on failure and on success, no captures, no
    /// post-actions, no artifact collection.
    pub fn default_behavior() -> (b: Self)
        ensures
            b.execution == ExecutionMode::Agent,
            b.on_failure == OnFailureAction::Continue,
            b.on_success == OnSuccessAction::Continue,
            b.captures@.len() == 0,
            b.post_actions@.len() == 0,
            !b.collect_artifacts,
    {
        StepBehavior {
            execution: ExecutionMode::Agent,
            on_failure: OnFailureAction::Continue,
            on_success: OnSuccessAction::Continue,
            captures: Vec::new(),
            post_actions: Vec::new(),
            collect_artifacts: false,
        }
    }
}

/// Strategy of item selection.
#[derive(Clone, Copy, Debug, PartialEq, Eq, Structural)]
pub enum SelectionStrategy {
    Min,
    Max,
    Threshold,
    Weighted,
}

/// Which candidate wins a tie.
#[derive(Clone, Copy, Debug, PartialEq, Eq, Structural)]
pub enum TieBreak {
    First,
    Last,
    Random,
}

/// Where a selection result is stored.
pub struct StoreTarget {
    pub namespace: String,
    pub key: String,
}

/// Item selection settings of a step (the numeric threshold and weights stay
/// with the caller that computes scores).
pub struct ItemSelectConfig {
    pub strategy: SelectionStrategy,
    pub metric_var: Option<String>,
    pub store_result: Option<StoreTarget>,
    pub tie_break: TieBreak,
}

impl ItemSelectConfig {
    /// A copy of the settings.
    pub fn copy(&self) -> (r: Self)
        ensures
            r == *self,
    {
        ItemSelectConfig {
            strategy: self.strategy,
            metric_var: copy_opt_string(&self.metric_var),
            store_result: match &self.store_result {
                Some(t) => Some(StoreTarget { namespace: t.namespace.clone(), key: t.key.clone() }),
                None => None,
            },
            tie_break: self.tie_break,
        }
    }
}

/// Outcome of item selection.
pub struct SelectionResult {
    pub winner_id: String,
    pub eliminated_ids: Vec<String>,
    pub winner_vars: StrMap<String>,
}

/// One step of a task's execution plan.
pub struct TaskExecutionStep {
    pub id: String,
    pub required_capability: Option<String>,
    pub execution_profile: Option<String>,
    pub builtin: Option<String>,
    pub enabled: bool,
    pub repeatable: bool,
    pub is_guard: bool,
    pub tty: bool,
    pub template: Option<String>,
    pub pipe_to: Option<String>,
    pub command: Option<String>,
    pub scope: Option<StepScope>,
    pub behavior: StepBehavior,
    pub max_parallel: Option<usize>,
    pub timeout_secs: Option<u64>,
    pub item_select_config: Option<ItemSelectConfig>,
}

/// Step ids whose work is done once per item unless a scope is given.
pub open spec fn is_item_scoped_id(id: Seq<char>) -> bool {
    id == seq!['q', 'a'] || id == seq!['q', 'a', '_', 't', 'e', 's', 't', 'i', 'n', 'g'] || id
        == seq!['f', 'i', 'x'] || id == seq!['t', 'i', 'c', 'k', 'e', 't', '_', 'f', 'i', 'x']
        || id == seq!['r', 'e', 't', 'e', 's', 't']
}

/// Scope of a step without an explicit scope: the per-item QA, fix and retest
/// steps run per item, every other step (builtins included) runs per task.
pub open spec fn default_scope(id: Seq<char>, builtin: Option<String>) -> StepScope {
    if builtin is None && is_item_scoped_id(id) {
        StepScope::Item
    } else {
        StepScope::Task
    }
}

/// Whether the step id is one of the per-item step names.
pub fn item_scoped_id(id: &str) -> (r: bool)
    ensures
        r == is_item_scoped_id(id@),
{
    proof {
        reveal_strlit("qa");
        reveal_strlit("qa_testing");
        reveal_strlit("fix");
        reveal_strlit("ticket_fix");
        reveal_strlit("retest");
        assert("qa"@ =~= seq!['q', 'a']);
        assert("qa_testing"@ =~= seq!['q', 'a', '_', 't', 'e', 's', 't', 'i', 'n', 'g']);
        assert("fix"@ =~= seq!['f', 'i', 'x']);
        assert("ticket_fix"@ =~= seq!['t', 'i', 'c', 'k', 'e', 't', '_', 'f', 'i', 'x']);
        assert("retest"@ =~= seq!['r', 'e', 't', 'e', 's', 't']);
    }
    str_eq(id, "qa") || str_eq(id, "qa_testing") || str_eq(id, "fix") || str_eq(id, "ticket_fix")
        || str_eq(id, "retest")
}

impl TaskExecutionStep {
    /// The scope the step runs in: the explicit one, else the default for its id.
    pub open spec fn spec_resolved_scope(&self) -> StepScope {
        match self.scope {
            Some(s) => s,
            None => default_scope(self.id@, self.builtin),
        }
    }

    /// The scope the step runs in.
    pub fn resolved_scope(&self) -> (r: StepScope)
        ensures
            r == self.spec_resolved_scope(),
    {
        match self.scope {
            Some(s) => s,
            None => {
                if self.builtin.is_none() && item_scoped_id(self.id.as_str()) {
                    StepScope::Item
                } else {
                    StepScope::Task
                }
            },
        }
    }

    /// The execution mode that dispatch uses: a builtin name wins over the declared mode.
    pub open spec fn spec_effective_execution_mode(&self) -> ExecutionMode {
        match self.builtin {
            Some(name) => ExecutionMode::Builtin { name },
            None => self.behavior.execution,
        }
    }

    /// The execution mode that dispatch uses.
    pub fn effective_execution_mode(&self) -> (r: ExecutionMode)
        ensures
            r == self.spec_effective_execution_mode(),
    {
        match &self.builtin {
            Some(name) => ExecutionMode::Builtin { name: name.clone() },
            None => self.behavior.execution.copy(),
        }
    }
}

/// The ordered steps and loop policy of a task.
pub struct TaskExecutionPlan {
    pub steps: Vec<TaskExecutionStep>,
    pub loop_policy: WorkflowLoopConfig,
    pub max_parallel: Option<usize>,
}

/// Position of the first step with id `id`.
pub open spec fn first_step_index(steps: Seq<TaskExecutionStep>, id: Seq<char>, i: int) -> bool {
    0 <= i < steps.len() && steps[i].id@ == id && forall|j: int|
        0 <= j < i ==> steps[j].id@ != id
}

impl TaskExecutionPlan {
    /// Position of the first step with the given id.
    pub fn step_index(&self, id: &str) -> (r: Option<usize>)
        ensures
            r matches Some(i) ==> first_step_index(self.steps@, id@, i as int),
            r is None ==> forall|j: int| 0 <= j < self.steps@.len() ==> self.steps@[j].id@ != id@,
    {
        let mut i: usize = 0;
        while i < self.steps.len()
            invariant
                i <= self.steps@.len(),
                forall|j: int| 0 <= j < i ==> self.steps@[j].id@ != id@,
            decreases self.steps@.len() - i,
        {
            if str_eq(self.steps[i].id.as_str(), id) {
                return Some(i);
            }
            i = i + 1;
        }
        None
    }
}

/// Variables that flow between steps.
pub struct PipelineVariables {
    pub prev_stdout: String,
    pub prev_stderr: String,
    pub diff: String,
    pub build_errors: Vec<BuildError>,
    pub test_failures: Vec<TestFailure>,
    pub vars: StrMap<String>,
}

impl PipelineVariables {
    /// Same outputs, errors and variables (in the same order).
    pub open spec fn same_as(self, other: Self) -> bool {
        &&& self.prev_stdout@ == other.prev_stdout@
        &&& self.prev_stderr@ == other.prev_stderr@
        &&& self.diff@ == other.diff@
        &&& self.build_errors@ == other.build_errors@
        &&& self.test_failures@ == other.test_failures@
        &&& self.vars.entries@ == other.vars.entries@
    }

    /// Empty outputs, no errors, no variables.
    pub fn empty() -> (p: Self)
        ensures
            p.vars.entries@.len() == 0,
            forall|k: Seq<char>| p.vars.spec_get(k) is None,
            p.build_errors@.len() == 0,
            p.test_failures@.len() == 0,
            p.prev_stdout@.len() == 0,
            p.prev_stderr@.len() == 0,
            p.diff@.len() == 0,
    {
        PipelineVariables {
            prev_stdout: String::new(),
            prev_stderr: String::new(),
            diff: String::new(),
            build_errors: Vec::new(),
            test_failures: Vec::new(),
            vars: StrMap::new(),
        }
    }

    /// A copy of the variables.
    pub fn copy(&self) -> (r: Self)
        ensures
            r.same_as(*self),
    {
        let vars = self.vars.copy();
        PipelineVariables {
            prev_stdout: copy_string(&self.prev_stdout),
            prev_stderr: copy_string(&self.prev_stderr),
            diff: copy_string(&self.diff),
            build_errors: copy_build_errors(&self.build_errors),
            test_failures: copy_test_failures(&self.test_failures),
            vars,
        }
    }
}

/// A work item of a task.
pub struct TaskItemRow {
    pub id: String,
    pub qa_file_path: String,
    pub dynamic_vars_json: Option<String>,
    pub label: Option<String>,
    pub source: String,
}

/// The runtime view of a task that the scheduler decides on.
pub struct TaskRuntimeContext {
    pub workspace_id: String,
    pub workspace_root: String,
    pub ticket_dir: String,
    pub execution_plan: TaskExecutionPlan,
    pub current_cycle: u32,
    pub init_done: bool,
    pub pipeline_vars: PipelineVariables,
    pub self_referential: bool,
    pub consecutive_failures: u32,
    pub project_id: String,
    pub workflow_id: String,
}

/// Severity of a compiler diagnostic.
#[derive(Clone, Copy, Debug, PartialEq, Eq, Structural)]
pub enum BuildErrorLevel {
    Error,
    Warning,
}

/// A compiler diagnostic reported by a step.
pub struct BuildError {
    pub file: Option<String>,
    pub line: Option<u32>,
    pub column: Option<u32>,
    pub message: String,
    pub level: BuildErrorLevel,
}

/// A failed test reported by a step.
pub struct TestFailure {
    pub test_name: String,
    pub message: String,
    pub file: Option<String>,
    pub line: Option<u32>,
    pub stdout: Option<String>,
}

/// Kind of an artifact that a step produced.
pub enum ArtifactKind {
    Ticket { category: String },
    CodeChange { files: Vec<String> },
    Other { name: String },
}

/// An artifact that a step produced.
pub struct Artifact {
    pub kind: ArtifactKind,
    pub content: Option<String>,
}

fn copy_strings(v: &Vec<String>) -> (r: Vec<String>)
    ensures
        r@ == v@,
{
    let mut r: Vec<String> = Vec::new();
    let mut i: usize = 0;
    while i < v.len()
        invariant
            i <= v@.len(),
            r@ == v@.subrange(0, i as int),
        decreases v@.len() - i,
    {
        r.push(v[i].clone());
        i = i + 1;
        assert(r@ =~= v@.subrange(0, i as int));
    }
    assert(r@ =~= v@);
    r
}

/// Two artifacts of the same kind with the same texts.
pub open spec fn same_artifact(a: Artifact, b: Artifact) -> bool {
    &&& match (a.kind, b.kind) {
        (ArtifactKind::Ticket { category: x }, ArtifactKind::Ticket { category: y }) => x == y,
        (ArtifactKind::CodeChange { files: x }, ArtifactKind::CodeChange { files: y }) => x@ == y@,
        (ArtifactKind::Other { name: x }, ArtifactKind::Other { name: y }) => x == y,
        _ => false,
    }
    &&& a.content == b.content
}

/// Two lists of artifacts that agree one for one (see `same_artifact`).
pub open spec fn same_artifacts(a: Seq<Artifact>, b: Seq<Artifact>) -> bool {
    &&& a.len() == b.len()
    &&& forall|i: int| 0 <= i < a.len() ==> same_artifact(#[trigger] a[i], b[i])
}

impl Artifact {
    /// A copy of the artifact.
    pub fn copy(&self) -> (r: Self)
        ensures
            same_artifact(r, *self),
    {
        let kind = match &self.kind {
            ArtifactKind::Ticket { category } => ArtifactKind::Ticket { category: category.clone() },
            ArtifactKind::CodeChange { files } => ArtifactKind::CodeChange { files: copy_strings(files) },
            ArtifactKind::Other { name } => ArtifactKind::Other { name: name.clone() },
        };
        let content = match &self.content {
            Some(c) => Some(c.clone()),
            None => None,
        };
        Artifact { kind, content }
    }
}

/// Structured output of an agent run (scores are kept by the caller).
pub struct AgentOutput {
    pub stdout: String,
    pub stderr: String,
    pub artifacts: Vec<Artifact>,
    pub build_errors: Vec<BuildError>,
    pub test_failures: Vec<TestFailure>,
}

/// Result of running one phase.
pub struct RunResult {
    pub success: bool,
    pub exit_code: i64,
    pub stdout_path: String,
    pub stderr_path: String,
    pub timed_out: bool,
    pub duration_ms: Option<u64>,
    pub output: Option<AgentOutput>,
    pub validation_status: String,
    pub agent_id: String,
    pub run_id: String,
    /// Name of the execution profile the run used.
    pub execution_profile: String,
    /// `host`, `sandbox`, or `chain` for a chain's summary result.
    pub execution_mode: String,
    /// The sandbox refused something the run tried.
    pub sandbox_denied: bool,
    pub sandbox_denial_reason: Option<String>,
    /// The event type of the sandbox violation.
    pub sandbox_violation_kind: Option<String>,
    pub sandbox_resource_kind: Option<String>,
    pub sandbox_network_target: Option<String>,
}

impl RunResult {
    /// A run succeeded when it reports success with exit code zero.
    pub open spec fn spec_is_success(&self) -> bool {
        self.success && self.exit_code == 0
    }

    /// Whether the run succeeded.
    pub fn is_success(&self) -> (r: bool)
        ensures
            r == self.spec_is_success(),
    {
        self.success && self.exit_code == 0
    }
}

/// A copy of a list of diagnostics.
pub fn copy_build_errors(v: &Vec<BuildError>) -> (r: Vec<BuildError>)
    ensures
        r@ == v@,
{
    let mut r: Vec<BuildError> = Vec::new();
    let mut i: usize = 0;
    while i < v.len()
        invariant
            i <= v@.len(),
            r@ == v@.subrange(0, i as int),
        decreases v@.len() - i,
    {
        let e = &v[i];
        r.push(
            BuildError {
                file: copy_opt_string(&e.file),
                line: e.line,
                column: e.column,
                message: e.message.clone(),
                level: e.level,
            },
        );
        i = i + 1;
        assert(r@ =~= v@.subrange(0, i as int));
    }
    assert(r@ =~= v@);
    r
}

/// A copy of a list of test failures.
pub fn copy_test_failures(v: &Vec<TestFailure>) -> (r: Vec<TestFailure>)
    ensures
        r@ == v@,
{
    let mut r: Vec<TestFailure> = Vec::new();
    let mut i: usize = 0;
    while i < v.len()
        invariant
            i <= v@.len(),
            r@ == v@.subrange(0, i as int),
        decreases v@.len() - i,
    {
        let e = &v[i];
        r.push(
            TestFailure {
                test_name: e.test_name.clone(),
                message: e.message.clone(),
                file: copy_opt_string(&e.file),
                line: e.line,
                stdout: copy_opt_string(&e.stdout),
            },
        );
        i = i + 1;
        assert(r@ =~= v@.subrange(0, i as int));
    }
    assert(r@ =~= v@);
    r
}

} // verus!
