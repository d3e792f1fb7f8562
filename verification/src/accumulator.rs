use vstd::prelude::*;
use crate::config::{
    PipelineVariables, Artifact, ArtifactKind, TaskExecutionStep, TaskRuntimeContext, TaskItemRow,
    copy_build_errors, copy_test_failures, CaptureDecl, CaptureSource, RunResult, OnFailureAction,
    OnSuccessAction, PostAction, same_artifact,
};
use crate::strmap::{StrMap, text_view};
use crate::text::{
    str_eq, parse_i64, spec_parse_i64, i64_to_string, bool_to_string, signed_decimal, bool_text,
    concat_str, u64_to_string, decimal,
};
use crate::spill::{SpillWrite, spill_large_var, spill_file_path, inline_value};

verus! {

/// Where generated items come from and how their fields map.
pub struct DynamicItemMapping {
    pub item_id: String,
    pub label: Option<String>,
    pub vars: StrMap<String>,
}

/// A post-action that turns a pipeline variable into new task items.
pub struct GenerateItemsAction {
    pub from_var: String,
    pub json_path: String,
    pub mapping: DynamicItemMapping,
    pub replace: bool,
}

/// State that the unified step loop accumulates for one item.
pub struct StepExecutionAccumulator {
    pub item_status: String,
    pub pipeline_vars: PipelineVariables,
    pub active_tickets: Vec<String>,
    pub created_ticket_files: Vec<String>,
    pub phase_artifacts: Vec<Artifact>,
    pub flags: StrMap<bool>,
    pub exit_codes: StrMap<i64>,
    pub step_ran: StrMap<bool>,
    pub step_skipped: StrMap<bool>,
    pub new_ticket_count: i64,
    pub terminal: bool,
    pub pending_generate_items: Option<GenerateItemsAction>,
}

/// The flag `k` is recorded as true.
pub open spec fn flag_set(m: StrMap<bool>, k: Seq<char>) -> bool {
    m.spec_get(k) == Some(true)
}

/// Exit code of the first id in `ids` that has one.
pub open spec fn first_exit_code(ids: Seq<Seq<char>>, codes: StrMap<i64>) -> Option<i64>
    decreases ids.len(),
{
    if ids.len() == 0 {
        None
    } else if codes.spec_get(ids[0]) is Some {
        codes.spec_get(ids[0])
    } else {
        first_exit_code(ids.drop_first(), codes)
    }
}

/// Some id in `ids` has the flag set in `m`.
pub open spec fn any_flag(ids: Seq<Seq<char>>, m: StrMap<bool>) -> bool {
    exists|i: int| 0 <= i < ids.len() && flag_set(m, #[trigger] ids[i])
}

/// Some enabled step of the plan with an id in `ids` runs in this cycle.
pub open spec fn any_configured(ids: Seq<Seq<char>>, steps: Seq<TaskExecutionStep>, cycle: u32) -> bool {
    exists|j: int|
        0 <= j < steps.len() && ids.contains(#[trigger] steps[j].id@) && steps[j].enabled && (
        steps[j].repeatable || cycle <= 1)
}

/// Some enabled step of the plan has an id in `ids`.
pub open spec fn any_enabled(ids: Seq<Seq<char>>, steps: Seq<TaskExecutionStep>) -> bool {
    exists|j: int| 0 <= j < steps.len() && ids.contains(#[trigger] steps[j].id@) && steps[j].enabled
}

/// The ids that stand for a capability: the canonical names, then (in plan
/// order) every step that requires the capability and is not yet listed.
pub open spec fn capability_ids(base: Seq<Seq<char>>, steps: Seq<TaskExecutionStep>, cap: Seq<char>) -> Seq<
    Seq<char>,
>
    decreases steps.len(),
{
    if steps.len() == 0 {
        base
    } else {
        let prev = capability_ids(base, steps.drop_last(), cap);
        let s = steps.last();
        if s.required_capability is Some && s.required_capability->0@ == cap && !prev.contains(
            s.id@,
        ) {
            prev.push(s.id@)
        } else {
            prev
        }
    }
}

/// Views of a list of strings.
pub open spec fn views(v: Seq<String>) -> Seq<Seq<char>> {
    v.map_values(|x: String| x@)
}

/// Views of a list of string slices.
pub open spec fn str_views(v: Seq<&str>) -> Seq<Seq<char>> {
    v.map_values(|x: &str| x@)
}

/// Ids of the QA steps of a plan.
pub open spec fn qa_ids(steps: Seq<TaskExecutionStep>) -> Seq<Seq<char>> {
    capability_ids(seq!["qa"@, "qa_testing"@], steps, "qa"@)
}

/// Ids of the fix steps of a plan.
pub open spec fn fix_ids(steps: Seq<TaskExecutionStep>) -> Seq<Seq<char>> {
    capability_ids(seq!["fix"@, "ticket_fix"@], steps, "fix"@)
}

/// Ids of the retest steps of a plan.
pub open spec fn retest_ids(steps: Seq<TaskExecutionStep>) -> Seq<Seq<char>> {
    capability_ids(seq!["retest"@], steps, "retest"@)
}

/// The cycle limit that the loop guard implies (one by default).
pub open spec fn guard_max_cycles(ctx: TaskRuntimeContext) -> u32 {
    match ctx.execution_plan.loop_policy.guard.max_cycles {
        Some(m) => m,
        None => 1,
    }
}

/// Everything but the pipeline variables is unchanged.
pub open spec fn same_but_vars(a: StepExecutionAccumulator, b: StepExecutionAccumulator) -> bool {
    &&& a.item_status == b.item_status
    &&& a.active_tickets == b.active_tickets
    &&& a.created_ticket_files == b.created_ticket_files
    &&& a.phase_artifacts == b.phase_artifacts
    &&& a.flags == b.flags
    &&& a.exit_codes == b.exit_codes
    &&& a.step_ran == b.step_ran
    &&& a.step_skipped == b.step_skipped
    &&& a.new_ticket_count == b.new_ticket_count
    &&& a.terminal == b.terminal
    &&& a.pending_generate_items == b.pending_generate_items
}

/// The variables of `task` merged under `item`: the item's values win, the
/// task's fill in missing keys, and empty error lists take the task's.
pub open spec fn merged_vars(item: PipelineVariables, task: PipelineVariables, out: PipelineVariables) -> bool {
    &&& forall|k: Seq<char>|
        #![trigger out.vars.spec_get(k)]
        out.vars.spec_get(k) == (if item.vars.spec_get(k) is Some {
            item.vars.spec_get(k)
        } else {
            task.vars.spec_get(k)
        })
    &&& out.build_errors@ == (if item.build_errors@.len() == 0 {
        task.build_errors@
    } else {
        item.build_errors@
    })
    &&& out.test_failures@ == (if item.test_failures@.len() == 0 {
        task.test_failures@
    } else {
        item.test_failures@
    })
    &&& out.prev_stdout == item.prev_stdout
    &&& out.prev_stderr == item.prev_stderr
    &&& out.diff == item.diff
}

/// Context that step prehooks are evaluated in (scores are kept by the caller).
pub struct StepPrehookContext {
    pub task_id: String,
    pub task_item_id: String,
    pub cycle: u32,
    pub step: String,
    pub qa_file_path: String,
    pub item_status: String,
    pub task_status: String,
    pub qa_exit_code: Option<i64>,
    pub fix_exit_code: Option<i64>,
    pub retest_exit_code: Option<i64>,
    pub active_ticket_count: i64,
    pub new_ticket_count: i64,
    pub qa_failed: bool,
    pub fix_required: bool,
    pub fix_has_changes: Option<bool>,
    pub build_error_count: i64,
    pub test_failure_count: i64,
    pub build_exit_code: Option<i64>,
    pub test_exit_code: Option<i64>,
    pub self_test_exit_code: Option<i64>,
    pub self_test_passed: bool,
    pub max_cycles: u32,
    pub is_last_cycle: bool,
}

/// Context that the finalize rules of an item are evaluated in.
pub struct ItemFinalizeContext {
    pub task_id: String,
    pub task_item_id: String,
    pub cycle: u32,
    pub qa_file_path: String,
    pub item_status: String,
    pub task_status: String,
    pub qa_exit_code: Option<i64>,
    pub fix_exit_code: Option<i64>,
    pub retest_exit_code: Option<i64>,
    pub active_ticket_count: i64,
    pub new_ticket_count: i64,
    pub retest_new_ticket_count: i64,
    pub qa_failed: bool,
    pub fix_required: bool,
    pub qa_configured: bool,
    pub qa_observed: bool,
    pub qa_enabled: bool,
    pub qa_ran: bool,
    pub qa_skipped: bool,
    pub fix_configured: bool,
    pub fix_enabled: bool,
    pub fix_ran: bool,
    pub fix_skipped: bool,
    pub fix_success: bool,
    pub retest_enabled: bool,
    pub retest_ran: bool,
    pub retest_success: bool,
    pub total_artifacts: i64,
    pub has_ticket_artifacts: bool,
    pub has_code_change_artifacts: bool,
    pub is_last_cycle: bool,
}

/// Some artifact is a ticket.
pub open spec fn has_ticket_artifact(a: Seq<Artifact>) -> bool {
    exists|i: int| 0 <= i < a.len() && (#[trigger] a[i]).kind is Ticket
}

/// Some artifact is a code change.
pub open spec fn has_code_change_artifact(a: Seq<Artifact>) -> bool {
    exists|i: int| 0 <= i < a.len() && (#[trigger] a[i]).kind is CodeChange
}

fn owned(s: &str) -> (r: String)
    ensures
        r@ == s@,
{
    String::from_str(s)
}

fn contains_id(ids: &Vec<String>, id: &str) -> (r: bool)
    ensures
        r == views(ids@).contains(id@),
{
    let mut i: usize = 0;
    while i < ids.len()
        invariant
            i <= ids@.len(),
            forall|j: int| 0 <= j < i ==> ids@[j]@ != id@,
        decreases ids@.len() - i,
    {
        if str_eq(ids[i].as_str(), id) {
            assert(views(ids@)[i as int] == id@);
            return true;
        }
        i = i + 1;
    }
    assert forall|j: int| 0 <= j < views(ids@).len() implies views(ids@)[j] != id@ by {
        assert(views(ids@)[j] == ids@[j]@);
    }
    false
}

fn first_code(ids: &Vec<String>, codes: &StrMap<i64>) -> (r: Option<i64>)
    ensures
        r == first_exit_code(views(ids@), *codes),
{
    let mut i: usize = 0;
    assert(views(ids@).subrange(0, views(ids@).len() as int) =~= views(ids@));
    while i < ids.len()
        invariant
            i <= ids@.len(),
            first_exit_code(views(ids@), *codes) == first_exit_code(
                views(ids@).subrange(i as int, ids@.len() as int),
                *codes,
            ),
        decreases ids@.len() - i,
    {
        let ghost rest = views(ids@).subrange(i as int, ids@.len() as int);
        assert(rest[0] == ids@[i as int]@);
        assert(rest.drop_first() =~= views(ids@).subrange(i + 1, ids@.len() as int));
        match codes.get(ids[i].as_str()) {
            Some(c) => {
                return Some(*c);
            },
            None => {},
        }
        i = i + 1;
    }
    None
}

fn any_flag_of(ids: &Vec<String>, m: &StrMap<bool>) -> (r: bool)
    ensures
        r == any_flag(views(ids@), *m),
{
    let mut i: usize = 0;
    while i < ids.len()
        invariant
            i <= ids@.len(),
            forall|j: int| 0 <= j < i ==> !flag_set(*m, #[trigger] views(ids@)[j]),
        decreases ids@.len() - i,
    {
        assert(views(ids@)[i as int] == ids@[i as int]@);
        match m.get(ids[i].as_str()) {
            Some(b) => {
                if *b {
                    return true;
                }
            },
            None => {},
        }
        i = i + 1;
    }
    false
}

fn any_configured_of(ids: &Vec<String>, steps: &Vec<TaskExecutionStep>, cycle: u32, need_cycle: bool) -> (r:
    bool)
    ensures
        need_cycle ==> r == any_configured(views(ids@), steps@, cycle),
        !need_cycle ==> r == any_enabled(views(ids@), steps@),
{
    let mut j: usize = 0;
    while j < steps.len()
        invariant
            j <= steps@.len(),
            need_cycle ==> forall|k: int|
                0 <= k < j ==> !(views(ids@).contains(#[trigger] steps@[k].id@) && steps@[k].enabled
                    && (steps@[k].repeatable || cycle <= 1)),
            !need_cycle ==> forall|k: int|
                0 <= k < j ==> !(views(ids@).contains(#[trigger] steps@[k].id@) && steps@[k].enabled),
        decreases steps@.len() - j,
    {
        let s = &steps[j];
        if s.enabled && (!need_cycle || s.repeatable || cycle <= 1) && contains_id(
            ids,
            s.id.as_str(),
        ) {
            return true;
        }
        j = j + 1;
    }
    false
}

/// Whether some artifact is a ticket.
pub fn any_ticket_artifact(a: &Vec<Artifact>) -> (r: bool)
    ensures
        r == has_ticket_artifact(a@),
{
    let mut i: usize = 0;
    while i < a.len()
        invariant
            i <= a@.len(),
            forall|j: int| 0 <= j < i ==> !((#[trigger] a@[j]).kind is Ticket),
        decreases a@.len() - i,
    {
        if let ArtifactKind::Ticket { .. } = &a[i].kind {
            return true;
        }
        i = i + 1;
    }
    false
}

fn any_code_change_artifact(a: &Vec<Artifact>) -> (r: bool)
    ensures
        r == has_code_change_artifact(a@),
{
    let mut i: usize = 0;
    while i < a.len()
        invariant
            i <= a@.len(),
            forall|j: int| 0 <= j < i ==> !((#[trigger] a@[j]).kind is CodeChange),
        decreases a@.len() - i,
    {
        if let ArtifactKind::CodeChange { .. } = &a[i].kind {
            return true;
        }
        i = i + 1;
    }
    false
}

impl StepExecutionAccumulator {
    /// A fresh accumulator: status `pending`, nothing recorded, the given variables.
    pub fn new(pipeline_vars: PipelineVariables) -> (r: Self)
        ensures
            r.item_status@ == "pending"@,
            r.pipeline_vars == pipeline_vars,
            r.active_tickets@.len() == 0,
            r.created_ticket_files@.len() == 0,
            r.phase_artifacts@.len() == 0,
            r.flags.entries@.len() == 0,
            r.exit_codes.entries@.len() == 0,
            r.step_ran.entries@.len() == 0,
            r.step_skipped.entries@.len() == 0,
            forall|k: Seq<char>| r.flags.spec_get(k) is None,
            forall|k: Seq<char>| r.exit_codes.spec_get(k) is None,
            forall|k: Seq<char>| r.step_ran.spec_get(k) is None,
            forall|k: Seq<char>| r.step_skipped.spec_get(k) is None,
            r.new_ticket_count == 0,
            !r.terminal,
            r.pending_generate_items is None,
    {
        StepExecutionAccumulator {
            item_status: owned("pending"),
            pipeline_vars,
            active_tickets: Vec::new(),
            created_ticket_files: Vec::new(),
            phase_artifacts: Vec::new(),
            flags: StrMap::new(),
            exit_codes: StrMap::new(),
            step_ran: StrMap::new(),
            step_skipped: StrMap::new(),
            new_ticket_count: 0,
            terminal: false,
            pending_generate_items: None,
        }
    }

    /// Fills in the task's variables where the item has none.
    pub fn merge_task_pipeline_vars(&mut self, task_pipeline_vars: &PipelineVariables)
        ensures
            merged_vars(old(self).pipeline_vars, *task_pipeline_vars, final(self).pipeline_vars),
            same_but_vars(*old(self), *final(self)),
    {
        self.pipeline_vars.vars.extend_if_absent(&task_pipeline_vars.vars);
        if self.pipeline_vars.build_errors.len() == 0 {
            self.pipeline_vars.build_errors = copy_build_errors(&task_pipeline_vars.build_errors);
        }
        if self.pipeline_vars.test_failures.len() == 0 {
            self.pipeline_vars.test_failures = copy_test_failures(
                &task_pipeline_vars.test_failures,
            );
        }
    }

    /// All step ids that stand for a capability: the canonical aliases first,
    /// then plan steps that require the capability.
    pub fn step_ids_for_capability(
        task_ctx: &TaskRuntimeContext,
        capability: &str,
        canonical_ids: &[&str],
    ) -> (r: Vec<String>)
        ensures
            views(r@) == capability_ids(
                str_views(canonical_ids@),
                task_ctx.execution_plan.steps@,
                capability@,
            ),
    {
        let mut ids: Vec<String> = Vec::new();
        let mut i: usize = 0;
        while i < canonical_ids.len()
            invariant
                i <= canonical_ids@.len(),
                views(ids@) == str_views(canonical_ids@).subrange(0, i as int),
            decreases canonical_ids@.len() - i,
        {
            let x = owned(canonical_ids[i]);
            let ghost prev = views(ids@);
            ids.push(x);
            assert(views(ids@) =~= prev.push(canonical_ids@[i as int]@));
            assert(str_views(canonical_ids@).subrange(0, i + 1) =~= str_views(canonical_ids@).subrange(
                0,
                i as int,
            ).push(canonical_ids@[i as int]@));
            i = i + 1;
        }
        assert(str_views(canonical_ids@).subrange(0, i as int) =~= str_views(canonical_ids@));
        let steps = &task_ctx.execution_plan.steps;
        let mut j: usize = 0;
        assert(steps@.subrange(0, 0) =~= Seq::<TaskExecutionStep>::empty());
        while j < steps.len()
            invariant
                j <= steps@.len(),
                views(ids@) == capability_ids(
                    str_views(canonical_ids@),
                    steps@.subrange(0, j as int),
                    capability@,
                ),
            decreases steps@.len() - j,
        {
            let s = &steps[j];
            assert(steps@.subrange(0, j + 1).drop_last() =~= steps@.subrange(0, j as int));
            assert(steps@.subrange(0, j + 1).last() == steps@[j as int]);
            let matches = match &s.required_capability {
                Some(c) => str_eq(c.as_str(), capability),
                None => false,
            };
            if matches && !contains_id(&ids, s.id.as_str()) {
                ids.push(s.id.clone());
                assert(views(ids@) =~= capability_ids(
                    str_views(canonical_ids@),
                    steps@.subrange(0, j as int),
                    capability@,
                ).push(s.id@));
            }
            j = j + 1;
        }
        assert(steps@.subrange(0, steps@.len() as int) =~= steps@);
        ids
    }

    /// Context for evaluating a step's prehook from the accumulated state.
    pub fn to_prehook_context(
        &self,
        task_id: &str,
        item: &TaskItemRow,
        task_ctx: &TaskRuntimeContext,
        step_id: &str,
    ) -> (c: StepPrehookContext)
        ensures
            c.task_id@ == task_id@,
            c.task_item_id@ == item.id@,
            c.cycle == task_ctx.current_cycle,
            c.step@ == step_id@,
            c.qa_file_path@ == item.qa_file_path@,
            c.item_status@ == self.item_status@,
            c.task_status@ == "running"@,
            c.qa_exit_code == first_exit_code(
                qa_ids(task_ctx.execution_plan.steps@),
                self.exit_codes,
            ),
            c.fix_exit_code == first_exit_code(
                fix_ids(task_ctx.execution_plan.steps@),
                self.exit_codes,
            ),
            c.retest_exit_code == first_exit_code(
                retest_ids(task_ctx.execution_plan.steps@),
                self.exit_codes,
            ),
            c.active_ticket_count == self.active_tickets@.len() as i64,
            c.new_ticket_count == self.new_ticket_count,
            c.qa_failed == flag_set(self.flags, "qa_failed"@),
            c.fix_required == (flag_set(self.flags, "qa_failed"@)
                || self.active_tickets@.len() > 0),
            c.fix_has_changes is None,
            c.build_error_count == self.pipeline_vars.build_errors@.len() as i64,
            c.test_failure_count == self.pipeline_vars.test_failures@.len() as i64,
            c.build_exit_code == self.exit_codes.spec_get("build"@),
            c.test_exit_code == self.exit_codes.spec_get("test"@),
            c.self_test_exit_code == (match self.pipeline_vars.vars.spec_get("self_test_exit_code"@) {
                Some(v) => spec_parse_i64(v@),
                None => None,
            }),
            c.self_test_passed == (match self.pipeline_vars.vars.spec_get("self_test_passed"@) {
                Some(v) => v@ == "true"@,
                None => false,
            }),
            c.max_cycles == guard_max_cycles(*task_ctx),
            c.is_last_cycle == (task_ctx.current_cycle >= guard_max_cycles(*task_ctx)),
    {
        proof {
            reveal_strlit("qa");
            reveal_strlit("qa_testing");
            reveal_strlit("fix");
            reveal_strlit("ticket_fix");
            reveal_strlit("retest");
        }
        let qa_canonical: [&str; 2] = ["qa", "qa_testing"];
        let fix_canonical: [&str; 2] = ["fix", "ticket_fix"];
        let retest_canonical: [&str; 1] = ["retest"];
        let qa_step_ids = Self::step_ids_for_capability(task_ctx, "qa", &qa_canonical);
        let fix_step_ids = Self::step_ids_for_capability(task_ctx, "fix", &fix_canonical);
        let retest_step_ids = Self::step_ids_for_capability(task_ctx, "retest", &retest_canonical);
        assert(str_views(qa_canonical@) =~= seq!["qa"@, "qa_testing"@]);
        assert(str_views(fix_canonical@) =~= seq!["fix"@, "ticket_fix"@]);
        assert(str_views(retest_canonical@) =~= seq!["retest"@]);
        let max_cycles = match task_ctx.execution_plan.loop_policy.guard.max_cycles {
            Some(m) => m,
            None => 1,
        };
        let qa_failed = match self.flags.get("qa_failed") {
            Some(b) => *b,
            None => false,
        };
        let self_test_exit_code = match self.pipeline_vars.vars.get("self_test_exit_code") {
            Some(v) => parse_i64(v.as_str()),
            None => None,
        };
        let self_test_passed = match self.pipeline_vars.vars.get("self_test_passed") {
            Some(v) => str_eq(v.as_str(), "true"),
            None => false,
        };
        StepPrehookContext {
            task_id: owned(task_id),
            task_item_id: item.id.clone(),
            cycle: task_ctx.current_cycle,
            step: owned(step_id),
            qa_file_path: item.qa_file_path.clone(),
            item_status: self.item_status.clone(),
            task_status: owned("running"),
            qa_exit_code: first_code(&qa_step_ids, &self.exit_codes),
            fix_exit_code: first_code(&fix_step_ids, &self.exit_codes),
            retest_exit_code: first_code(&retest_step_ids, &self.exit_codes),
            active_ticket_count: self.active_tickets.len() as i64,
            new_ticket_count: self.new_ticket_count,
            qa_failed,
            fix_required: qa_failed || self.active_tickets.len() > 0,
            fix_has_changes: None,
            build_error_count: self.pipeline_vars.build_errors.len() as i64,
            test_failure_count: self.pipeline_vars.test_failures.len() as i64,
            build_exit_code: match self.exit_codes.get("build") {
                Some(c) => Some(*c),
                None => None,
            },
            test_exit_code: match self.exit_codes.get("test") {
                Some(c) => Some(*c),
                None => None,
            },
            self_test_exit_code,
            self_test_passed,
            max_cycles,
            is_last_cycle: task_ctx.current_cycle >= max_cycles,
        }
    }

    /// Context for evaluating the item's finalize rules from the accumulated state.
    pub fn to_finalize_context(&self, task_id: &str, item: &TaskItemRow, task_ctx: &TaskRuntimeContext) -> (c:
        ItemFinalizeContext)
        ensures
            c.task_id@ == task_id@,
            c.task_item_id@ == item.id@,
            c.cycle == task_ctx.current_cycle,
            c.qa_file_path@ == item.qa_file_path@,
            c.item_status@ == self.item_status@,
            c.task_status@ == "running"@,
            c.qa_exit_code == first_exit_code(
                qa_ids(task_ctx.execution_plan.steps@),
                self.exit_codes,
            ),
            c.fix_exit_code == first_exit_code(
                fix_ids(task_ctx.execution_plan.steps@),
                self.exit_codes,
            ),
            c.retest_exit_code == first_exit_code(
                retest_ids(task_ctx.execution_plan.steps@),
                self.exit_codes,
            ),
            c.active_ticket_count == self.active_tickets@.len() as i64,
            c.new_ticket_count == self.new_ticket_count,
            c.retest_new_ticket_count == 0,
            c.qa_failed == flag_set(self.flags, "qa_failed"@),
            c.fix_required == (self.active_tickets@.len() > 0),
            c.qa_ran == any_flag(qa_ids(task_ctx.execution_plan.steps@), self.step_ran),
            c.qa_skipped == any_flag(qa_ids(task_ctx.execution_plan.steps@), self.step_skipped),
            c.qa_configured == any_configured(
                qa_ids(task_ctx.execution_plan.steps@),
                task_ctx.execution_plan.steps@,
                task_ctx.current_cycle,
            ),
            c.qa_observed == (c.qa_ran || c.qa_skipped),
            c.qa_enabled == c.qa_configured,
            c.fix_ran == any_flag(fix_ids(task_ctx.execution_plan.steps@), self.step_ran),
            c.fix_skipped == any_flag(fix_ids(task_ctx.execution_plan.steps@), self.step_skipped),
            c.fix_configured == any_configured(
                fix_ids(task_ctx.execution_plan.steps@),
                task_ctx.execution_plan.steps@,
                task_ctx.current_cycle,
            ),
            c.fix_enabled == (c.fix_ran || c.fix_skipped || c.fix_configured),
            c.fix_success == flag_set(self.flags, "fix_success"@),
            c.retest_ran == any_flag(retest_ids(task_ctx.execution_plan.steps@), self.step_ran),
            c.retest_success == flag_set(self.flags, "retest_success"@),
            c.retest_enabled == (c.retest_ran || any_flag(
                retest_ids(task_ctx.execution_plan.steps@),
                self.step_skipped,
            ) || any_enabled(
                retest_ids(task_ctx.execution_plan.steps@),
                task_ctx.execution_plan.steps@,
            )),
            c.total_artifacts == self.phase_artifacts@.len() as i64,
            c.has_ticket_artifacts == has_ticket_artifact(self.phase_artifacts@),
            c.has_code_change_artifacts == has_code_change_artifact(self.phase_artifacts@),
            c.is_last_cycle == (task_ctx.current_cycle >= guard_max_cycles(*task_ctx)),
    {
        proof {
            reveal_strlit("qa");
            reveal_strlit("qa_testing");
            reveal_strlit("fix");
            reveal_strlit("ticket_fix");
            reveal_strlit("retest");
        }
        let qa_canonical: [&str; 2] = ["qa", "qa_testing"];
        let fix_canonical: [&str; 2] = ["fix", "ticket_fix"];
        let retest_canonical: [&str; 1] = ["retest"];
        let qa_step_ids = Self::step_ids_for_capability(task_ctx, "qa", &qa_canonical);
        let fix_step_ids = Self::step_ids_for_capability(task_ctx, "fix", &fix_canonical);
        let retest_step_ids = Self::step_ids_for_capability(task_ctx, "retest", &retest_canonical);
        assert(str_views(qa_canonical@) =~= seq!["qa"@, "qa_testing"@]);
        assert(str_views(fix_canonical@) =~= seq!["fix"@, "ticket_fix"@]);
        assert(str_views(retest_canonical@) =~= seq!["retest"@]);
        let steps = &task_ctx.execution_plan.steps;
        let cycle = task_ctx.current_cycle;
        let qa_ran = any_flag_of(&qa_step_ids, &self.step_ran);
        let qa_skipped = any_flag_of(&qa_step_ids, &self.step_skipped);
        let qa_configured = any_configured_of(&qa_step_ids, steps, cycle, true);
        let fix_ran = any_flag_of(&fix_step_ids, &self.step_ran);
        let fix_skipped = any_flag_of(&fix_step_ids, &self.step_skipped);
        let fix_configured = any_configured_of(&fix_step_ids, steps, cycle, true);
        let retest_ran = any_flag_of(&retest_step_ids, &self.step_ran);
        let retest_skipped = any_flag_of(&retest_step_ids, &self.step_skipped);
        let retest_planned = any_configured_of(&retest_step_ids, steps, cycle, false);
        let flag = |m: &StrMap<bool>, k: &str| -> (r: bool)
            ensures
                r == flag_set(*m, k@),
            {
                match m.get(k) {
                    Some(b) => *b,
                    None => false,
                }
            };
        let max_cycles = match task_ctx.execution_plan.loop_policy.guard.max_cycles {
            Some(m) => m,
            None => 1,
        };
        ItemFinalizeContext {
            task_id: owned(task_id),
            task_item_id: item.id.clone(),
            cycle,
            qa_file_path: item.qa_file_path.clone(),
            item_status: self.item_status.clone(),
            task_status: owned("running"),
            qa_exit_code: first_code(&qa_step_ids, &self.exit_codes),
            fix_exit_code: first_code(&fix_step_ids, &self.exit_codes),
            retest_exit_code: first_code(&retest_step_ids, &self.exit_codes),
            active_ticket_count: self.active_tickets.len() as i64,
            new_ticket_count: self.new_ticket_count,
            retest_new_ticket_count: 0,
            qa_failed: flag(&self.flags, "qa_failed"),
            fix_required: self.active_tickets.len() > 0,
            qa_configured,
            qa_observed: qa_ran || qa_skipped,
            qa_enabled: qa_configured,
            qa_ran,
            qa_skipped,
            fix_configured,
            fix_enabled: fix_ran || fix_skipped || fix_configured,
            fix_ran,
            fix_skipped,
            fix_success: flag(&self.flags, "fix_success"),
            retest_enabled: retest_ran || retest_skipped || retest_planned,
            retest_ran,
            retest_success: flag(&self.flags, "retest_success"),
            total_artifacts: self.phase_artifacts.len() as i64,
            has_ticket_artifacts: any_ticket_artifact(&self.phase_artifacts),
            has_code_change_artifacts: any_code_change_artifact(&self.phase_artifacts),
            is_last_cycle: cycle >= max_cycles,
        }
    }
}

/// Variables, flags and exit codes, as maps.
pub type CaptureMaps = (Map<Seq<char>, Seq<char>>, Map<Seq<char>, bool>, Map<Seq<char>, i64>);

/// The effect of one capture on the maps.
pub open spec fn capture_effect(st: CaptureMaps, cap: CaptureDecl, step_id: Seq<char>, result: RunResult) -> CaptureMaps {
    let var = cap.var@;
    match cap.source {
        CaptureSource::ExitCode => (
            st.0.insert(var, signed_decimal(result.exit_code as int)),
            st.1,
            st.2.insert(step_id, result.exit_code),
        ),
        CaptureSource::FailedFlag => (
            st.0.insert(var, bool_text(!result.spec_is_success())),
            st.1.insert(var, !result.spec_is_success()),
            st.2,
        ),
        CaptureSource::SuccessFlag => (
            st.0.insert(var, bool_text(result.spec_is_success())),
            st.1.insert(var, result.spec_is_success()),
            st.2,
        ),
        CaptureSource::Stdout => match result.output {
            Some(o) => (
                st.0.insert(var + "_path"@, spill_file_path(""@, ""@, var)).insert(
                    var,
                    inline_value(o.stdout@, spill_file_path(""@, ""@, var)),
                ),
                st.1,
                st.2,
            ),
            None => st,
        },
        CaptureSource::Stderr => match result.output {
            Some(o) => (st.0.insert(var, o.stderr@), st.1, st.2),
            None => st,
        },
    }
}

/// The effect of the captures, applied in order.
pub open spec fn captures_effect(caps: Seq<CaptureDecl>, step_id: Seq<char>, result: RunResult, st: CaptureMaps) -> CaptureMaps
    decreases caps.len(),
{
    if caps.len() == 0 {
        st
    } else {
        capture_effect(captures_effect(caps.drop_last(), step_id, result, st), caps.last(), step_id, result)
    }
}

/// The accumulator's variables, flags and exit codes as maps.
pub open spec fn capture_maps(a: StepExecutionAccumulator) -> CaptureMaps {
    (text_view(a.pipeline_vars.vars), a.flags.view_map(), a.exit_codes.view_map())
}

/// Everything but variables, flags and exit codes is unchanged.
pub open spec fn same_but_captures(a: StepExecutionAccumulator, b: StepExecutionAccumulator) -> bool {
    &&& a.item_status == b.item_status
    &&& a.active_tickets == b.active_tickets
    &&& a.created_ticket_files == b.created_ticket_files
    &&& a.phase_artifacts == b.phase_artifacts
    &&& a.step_ran == b.step_ran
    &&& a.step_skipped == b.step_skipped
    &&& a.new_ticket_count == b.new_ticket_count
    &&& a.terminal == b.terminal
    &&& a.pending_generate_items == b.pending_generate_items
    &&& a.pipeline_vars.prev_stdout == b.pipeline_vars.prev_stdout
    &&& a.pipeline_vars.prev_stderr == b.pipeline_vars.prev_stderr
    &&& a.pipeline_vars.diff == b.pipeline_vars.diff
    &&& a.pipeline_vars.build_errors == b.pipeline_vars.build_errors
    &&& a.pipeline_vars.test_failures == b.pipeline_vars.test_failures
}

/// A run whose output failed validation is a hard execution failure.
pub fn is_execution_hard_failure(result: &RunResult) -> (r: bool)
    ensures
        r == (result.validation_status@ == "failed"@),
{
    str_eq(result.validation_status.as_str(), "failed")
}

impl StepExecutionAccumulator {
    /// Applies a step's capture declarations to the accumulated state. Standard
    /// output is spilled: the returned files are for the caller to write.
    pub fn apply_captures(&mut self, captures: &Vec<CaptureDecl>, step_id: &str, result: &RunResult) -> (w: Vec<SpillWrite>)
        ensures
            capture_maps(*final(self)) == captures_effect(captures@, step_id@, *result, capture_maps(*old(self))),
            same_but_captures(*old(self), *final(self)),
    {
        let mut writes: Vec<SpillWrite> = Vec::new();
        let mut i: usize = 0;
        while i < captures.len()
            invariant
                i <= captures@.len(),
                capture_maps(*self) == captures_effect(captures@.subrange(0, i as int), step_id@, *result, capture_maps(*old(self))),
                same_but_captures(*old(self), *self),
            decreases captures@.len() - i,
        {
            let cap = &captures[i];
            let ghost before = capture_maps(*self);
            assert(captures@.subrange(0, i + 1).drop_last() =~= captures@.subrange(0, i as int));
            assert(captures@.subrange(0, i + 1).last() == captures@[i as int]);
            match cap.source {
                CaptureSource::ExitCode => {
                    self.exit_codes.insert(String::from_str(step_id), result.exit_code);
                    self.pipeline_vars.vars.put(cap.var.clone(), i64_to_string(result.exit_code));
                },
                CaptureSource::FailedFlag => {
                    let failed = !result.is_success();
                    self.flags.insert(cap.var.clone(), failed);
                    self.pipeline_vars.vars.put(cap.var.clone(), bool_to_string(failed));
                },
                CaptureSource::SuccessFlag => {
                    let success = result.is_success();
                    self.flags.insert(cap.var.clone(), success);
                    self.pipeline_vars.vars.put(cap.var.clone(), bool_to_string(success));
                },
                CaptureSource::Stdout => {
                    if let Some(output) = &result.output {
                        let w = spill_large_var("", "", cap.var.as_str(), output.stdout.clone(), &mut self.pipeline_vars);
                        writes.push(w);
                    }
                },
                CaptureSource::Stderr => {
                    if let Some(output) = &result.output {
                        self.pipeline_vars.vars.put(cap.var.clone(), output.stderr.clone());
                    }
                },
            }
            i = i + 1;
        }
        assert(captures@.subrange(0, captures@.len() as int) =~= captures@);
        writes
    }

    /// Applies the step's status transition for a success or failure; returns
    /// whether the item's step loop ends here.
    pub fn apply_status_transition(&mut self, step: &TaskExecutionStep, success: bool) -> (early_return: bool)
        ensures
            success ==> !early_return && (match step.behavior.on_success {
                OnSuccessAction::SetStatus { status } => final(self).item_status@ == status@,
                OnSuccessAction::Continue => final(self).item_status == old(self).item_status,
            }) && final(self).terminal == old(self).terminal,
            !success ==> (match step.behavior.on_failure {
                OnFailureAction::Continue => !early_return && final(self).item_status == old(self).item_status
                    && final(self).terminal == old(self).terminal,
                OnFailureAction::SetStatus { status } => !early_return && final(self).item_status@ == status@
                    && final(self).terminal == old(self).terminal,
                OnFailureAction::EarlyReturn { status } => early_return && final(self).item_status@ == status@
                    && final(self).terminal,
            }),
            final(self).pipeline_vars == old(self).pipeline_vars,
            final(self).flags == old(self).flags,
            final(self).exit_codes == old(self).exit_codes,
            final(self).step_ran == old(self).step_ran,
            final(self).step_skipped == old(self).step_skipped,
            final(self).active_tickets == old(self).active_tickets,
            final(self).phase_artifacts == old(self).phase_artifacts,
    {
        if success {
            if let OnSuccessAction::SetStatus { status } = &step.behavior.on_success {
                self.item_status = status.clone();
            }
            false
        } else {
            match &step.behavior.on_failure {
                OnFailureAction::Continue => false,
                OnFailureAction::SetStatus { status } => {
                    self.item_status = status.clone();
                    false
                },
                OnFailureAction::EarlyReturn { status } => {
                    self.item_status = status.clone();
                    self.terminal = true;
                    true
                },
            }
        }
    }

    /// Records a finished step's run: its exit code, its captures, that it ran,
    /// and its status transition. Returns the spill files to write and whether
    /// the item's step loop ends here.
    pub fn record_step_result(&mut self, step: &TaskExecutionStep, result: &RunResult) -> (r: (Vec<SpillWrite>, bool))
        ensures
            capture_maps(*final(self)) == captures_effect(
                step.behavior.captures@,
                step.id@,
                *result,
                (
                    text_view(old(self).pipeline_vars.vars),
                    old(self).flags.view_map(),
                    old(self).exit_codes.view_map().insert(step.id@, result.exit_code),
                ),
            ),
            final(self).exit_codes.spec_get(step.id@) == Some(result.exit_code),
            final(self).step_ran.spec_get(step.id@) == Some(true),
            result.spec_is_success() ==> (match step.behavior.on_success {
                OnSuccessAction::SetStatus { status } => final(self).item_status@ == status@,
                OnSuccessAction::Continue => final(self).item_status == old(self).item_status,
            }) && final(self).terminal == old(self).terminal,
            !result.spec_is_success() ==> (match step.behavior.on_failure {
                OnFailureAction::Continue => final(self).item_status == old(self).item_status
                    && final(self).terminal == old(self).terminal,
                OnFailureAction::SetStatus { status } => final(self).item_status@ == status@
                    && final(self).terminal == old(self).terminal,
                OnFailureAction::EarlyReturn { status } => final(self).item_status@ == status@
                    && final(self).terminal,
            }),
            r.1 == (!result.spec_is_success() && step.behavior.on_failure is EarlyReturn),
            final(self).active_tickets == old(self).active_tickets,
            final(self).phase_artifacts == old(self).phase_artifacts,
    {
        self.exit_codes.insert(step.id.clone(), result.exit_code);
        let ghost mid = capture_maps(*self);
        assert(mid.2.contains_key(step.id@) && mid.2[step.id@] == result.exit_code);
        let writes = self.apply_captures(&step.behavior.captures, step.id.as_str(), result);
        proof {
            lemma_exit_code_kept(step.behavior.captures@, step.id@, *result, mid);
        }
        let ghost codes = self.exit_codes;
        self.step_ran.insert(step.id.clone(), true);
        let early = self.apply_status_transition(step, result.is_success());
        assert(self.exit_codes == codes);
        assert(self.exit_codes.view_map().contains_key(step.id@));
        (writes, early)
    }

    /// After the post-actions: seeds tickets from ticket artifacts when none are
    /// active, and ends the item's step loop on a hard execution failure
    /// (status `unresolved`, flag `execution_failed`).
    pub fn finish_step_result(&mut self, result: &RunResult) -> (early_return: bool)
        ensures
            early_return == (result.validation_status@ == "failed"@),
            early_return ==> final(self).item_status@ == "unresolved"@ && final(self).terminal
                && flag_set(final(self).flags, "execution_failed"@),
            !early_return ==> final(self).item_status == old(self).item_status && final(self).terminal == old(self).terminal,
            old(self).active_tickets@.len() > 0 ==> final(self).active_tickets == old(self).active_tickets,
            old(self).active_tickets@.len() == 0 && ticket_count(old(self).phase_artifacts@) > 0 ==>
                views(final(self).active_tickets@) == artifact_ticket_names(ticket_count(old(self).phase_artifacts@))
                && final(self).new_ticket_count == ticket_count(old(self).phase_artifacts@) as i64,
            (old(self).active_tickets@.len() > 0 || ticket_count(old(self).phase_artifacts@) == 0) ==> (
            final(self).active_tickets == old(self).active_tickets && final(self).new_ticket_count == old(
                self,
            ).new_ticket_count),
            early_return ==> final(self).flags.view_map() == old(self).flags.view_map().insert(
                "execution_failed"@,
                true,
            ),
            !early_return ==> final(self).flags == old(self).flags,
            final(self).exit_codes == old(self).exit_codes,
            final(self).step_ran == old(self).step_ran,
            final(self).step_skipped == old(self).step_skipped,
            final(self).pipeline_vars == old(self).pipeline_vars,
            final(self).phase_artifacts == old(self).phase_artifacts,
            final(self).created_ticket_files == old(self).created_ticket_files,
            final(self).pending_generate_items == old(self).pending_generate_items,
    {
        if self.active_tickets.len() == 0 {
            let n = count_ticket_artifacts(&self.phase_artifacts);
            if n > 0 {
                self.active_tickets = artifact_ticket_list(n);
                self.new_ticket_count = n as i64;
            }
        }
        if is_execution_hard_failure(result) {
            self.item_status = String::from_str("unresolved");
            self.flags.insert(String::from_str("execution_failed"), true);
            self.terminal = true;
            return true;
        }
        false
    }
}

/// The artifacts a step's result contributes: its output's artifacts when
/// the step collects artifacts, else none.
pub open spec fn step_artifacts(step: TaskExecutionStep, result: RunResult) -> Seq<Artifact> {
    if step.behavior.collect_artifacts {
        match result.output {
            Some(o) => o.artifacts@,
            None => Seq::empty(),
        }
    } else {
        Seq::empty()
    }
}

/// What the caller must do for a post-action.
#[derive(Clone, Copy, Debug, PartialEq, Eq, Structural)]
pub enum PostActionRequest {
    /// Create a ticket for the failed step, which exited with this code.
    CreateTicket { exit_code: i64 },
    /// Scan the item's active tickets.
    ScanTickets,
}

/// The requests of a step's post-actions, in order: a ticket for a failed
/// step whose exit code is recorded, and every ticket scan.
pub open spec fn post_requests(actions: Seq<PostAction>, success: bool, code: Option<i64>) -> Seq<
    PostActionRequest,
>
    decreases actions.len(),
{
    if actions.len() == 0 {
        Seq::empty()
    } else {
        let prev = post_requests(actions.drop_last(), success, code);
        match actions.last() {
            PostAction::CreateTicket => if !success && code is Some {
                prev.push(PostActionRequest::CreateTicket { exit_code: code->0 })
            } else {
                prev
            },
            PostAction::ScanTickets => prev.push(PostActionRequest::ScanTickets),
        }
    }
}

impl StepExecutionAccumulator {
    /// Adds the step's collected artifacts (see `step_artifacts`) to the
    /// item's artifacts; returns how many were added.
    pub fn collect_step_artifacts(&mut self, step: &TaskExecutionStep, result: &RunResult) -> (n: usize)
        ensures
            n == step_artifacts(*step, *result).len(),
            final(self).phase_artifacts@.len() == old(self).phase_artifacts@.len() + n,
            forall|i: int|
                0 <= i < old(self).phase_artifacts@.len() ==> #[trigger] final(self).phase_artifacts@[i]
                    == old(self).phase_artifacts@[i],
            forall|j: int|
                0 <= j < n ==> same_artifact(
                    #[trigger] final(self).phase_artifacts@[old(self).phase_artifacts@.len() + j],
                    step_artifacts(*step, *result)[j],
                ),
            final(self).active_tickets == old(self).active_tickets,
            final(self).item_status == old(self).item_status,
            final(self).terminal == old(self).terminal,
            final(self).exit_codes == old(self).exit_codes,
            final(self).step_ran == old(self).step_ran,
            final(self).flags == old(self).flags,
            final(self).pipeline_vars == old(self).pipeline_vars,
    {
        if !step.behavior.collect_artifacts {
            return 0;
        }
        let arts: &Vec<Artifact> = match &result.output {
            Some(o) => &o.artifacts,
            None => {
                return 0;
            },
        };
        let ghost start = self.phase_artifacts@;
        let mut i: usize = 0;
        while i < arts.len()
            invariant
                i <= arts@.len(),
                arts@ == step_artifacts(*step, *result),
                self.phase_artifacts@.len() == start.len() + i,
                forall|k: int| 0 <= k < start.len() ==> #[trigger] self.phase_artifacts@[k] == start[k],
                forall|j: int|
                    0 <= j < i ==> same_artifact(#[trigger] self.phase_artifacts@[start.len() + j], arts@[j]),
                self.active_tickets == old(self).active_tickets,
                self.item_status == old(self).item_status,
                self.terminal == old(self).terminal,
                self.exit_codes == old(self).exit_codes,
                self.step_ran == old(self).step_ran,
                self.flags == old(self).flags,
                self.pipeline_vars == old(self).pipeline_vars,
                start == old(self).phase_artifacts@,
            decreases arts@.len() - i,
        {
            let a = arts[i].copy();
            self.phase_artifacts.push(a);
            i = i + 1;
        }
        arts.len()
    }

    /// The requests of the step's post-actions (see `post_requests`).
    pub fn plan_post_actions(&self, step: &TaskExecutionStep, result: &RunResult) -> (r: Vec<PostActionRequest>)
        ensures
            r@ == post_requests(
                step.behavior.post_actions@,
                result.spec_is_success(),
                self.exit_codes.spec_get(step.id@),
            ),
    {
        let success = result.is_success();
        let code: Option<i64> = match self.exit_codes.get(step.id.as_str()) {
            Some(c) => Some(*c),
            None => None,
        };
        let actions = &step.behavior.post_actions;
        let mut out: Vec<PostActionRequest> = Vec::new();
        let mut i: usize = 0;
        assert(actions@.take(0) =~= Seq::<PostAction>::empty());
        while i < actions.len()
            invariant
                i <= actions@.len(),
                success == result.spec_is_success(),
                code == self.exit_codes.spec_get(step.id@),
                out@ == post_requests(actions@.take(i as int), success, code),
            decreases actions@.len() - i,
        {
            assert(actions@.take(i + 1).drop_last() =~= actions@.take(i as int));
            assert(actions@.take(i + 1).last() == actions@[i as int]);
            match actions[i] {
                PostAction::CreateTicket => {
                    if !success {
                        match code {
                            Some(c) => out.push(PostActionRequest::CreateTicket { exit_code: c }),
                            None => {},
                        }
                    }
                },
                PostAction::ScanTickets => out.push(PostActionRequest::ScanTickets),
            }
            i = i + 1;
        }
        assert(actions@.take(actions@.len() as int) =~= actions@);
        out
    }

    /// Records the ticket a `CreateTicket` request created, if any.
    pub fn record_created_ticket(&mut self, path: Option<String>)
        ensures
            final(self).created_ticket_files@ == match path {
                Some(p) => old(self).created_ticket_files@.push(p),
                None => old(self).created_ticket_files@,
            },
            final(self).active_tickets == old(self).active_tickets,
            final(self).item_status == old(self).item_status,
            final(self).terminal == old(self).terminal,
    {
        match path {
            Some(p) => self.created_ticket_files.push(p),
            None => {},
        }
    }

    /// Takes the tickets a `ScanTickets` request found as the item's active
    /// tickets.
    pub fn apply_scanned_tickets(&mut self, tickets: Vec<String>)
        requires
            tickets@.len() <= i64::MAX,
        ensures
            final(self).active_tickets@ == tickets@,
            final(self).new_ticket_count == tickets@.len(),
            final(self).item_status == old(self).item_status,
            final(self).terminal == old(self).terminal,
            final(self).created_ticket_files == old(self).created_ticket_files,
    {
        let n = tickets.len();
        self.active_tickets = tickets;
        self.new_ticket_count = n as i64;
    }
}

/// The exit code recorded for the step survives the captures.
proof fn lemma_exit_code_kept(caps: Seq<CaptureDecl>, step_id: Seq<char>, result: RunResult, st: CaptureMaps)
    requires
        st.2.contains_key(step_id),
        st.2[step_id] == result.exit_code,
    ensures
        captures_effect(caps, step_id, result, st).2.contains_key(step_id),
        captures_effect(caps, step_id, result, st).2[step_id] == result.exit_code,
    decreases caps.len(),
{
    if caps.len() > 0 {
        lemma_exit_code_kept(caps.drop_last(), step_id, result, st);
    }
}

/// Number of ticket artifacts.
pub open spec fn ticket_count(a: Seq<Artifact>) -> nat
    decreases a.len(),
{
    if a.len() == 0 {
        0
    } else {
        ticket_count(a.drop_last()) + if a.last().kind is Ticket {
            1nat
        } else {
            0nat
        }
    }
}

/// Placeholder names of the first `n` ticket artifacts.
pub open spec fn artifact_ticket_names(n: nat) -> Seq<Seq<char>> {
    Seq::new(n, |i: int| "artifact://ticket/"@ + decimal(i as nat))
}

fn count_ticket_artifacts(a: &Vec<Artifact>) -> (n: usize)
    ensures
        n == ticket_count(a@),
{
    let mut n: usize = 0;
    let mut i: usize = 0;
    while i < a.len()
        invariant
            i <= a@.len(),
            n == ticket_count(a@.subrange(0, i as int)),
            n <= i,
        decreases a@.len() - i,
    {
        assert(a@.subrange(0, i + 1).drop_last() =~= a@.subrange(0, i as int));
        if let ArtifactKind::Ticket { .. } = &a[i].kind {
            n = n + 1;
        }
        i = i + 1;
    }
    assert(a@.subrange(0, a@.len() as int) =~= a@);
    n
}

fn artifact_ticket_list(n: usize) -> (r: Vec<String>)
    ensures
        views(r@) == artifact_ticket_names(n as nat),
{
    let mut r: Vec<String> = Vec::new();
    let mut i: usize = 0;
    while i < n
        invariant
            i <= n,
            views(r@) == artifact_ticket_names(i as nat),
        decreases n - i,
    {
        let name = concat_str("artifact://ticket/", u64_to_string(i as u64).as_str());
        let ghost prev = views(r@);
        r.push(name);
        assert(views(r@) =~= prev.push(name@));
        assert(artifact_ticket_names((i + 1) as nat) =~= artifact_ticket_names(i as nat).push(name@));
        i = i + 1;
    }
    r
}

} // verus!
