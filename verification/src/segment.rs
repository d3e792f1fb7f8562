use vstd::prelude::*;
use crate::config::{
    StepScope, TaskExecutionStep, TaskExecutionPlan, TaskRuntimeContext, TaskItemRow,
    ItemSelectConfig, PipelineVariables, SelectionResult, first_step_index,
};
use crate::strmap::{StrMap, text_view};
use crate::text::str_eq;
use crate::accumulator::{StepExecutionAccumulator, views};

verus! {

/// A contiguous group of steps with the same execution scope.
pub struct ScopeSegment {
    pub scope: StepScope,
    /// Ids of the segment's steps, each once, in plan order.
    pub step_ids: Vec<String>,
    /// Concurrency limit for item-scoped segments (1 = sequential).
    pub max_parallel: usize,
}

/// A segment as plain values: scope, step ids, concurrency limit.
pub type SegmentView = (StepScope, Seq<Seq<char>>, usize);

/// The plain values of a segment.
pub open spec fn segment_view(s: ScopeSegment) -> SegmentView {
    (s.scope, views(s.step_ids@), s.max_parallel)
}

/// The plain values of a list of segments.
pub open spec fn segments_view(s: Seq<ScopeSegment>) -> Seq<SegmentView> {
    s.map_values(|x: ScopeSegment| segment_view(x))
}

/// A step takes part in segments when it is enabled and not a guard.
pub open spec fn in_segments(step: TaskExecutionStep) -> bool {
    !step.is_guard && step.enabled
}

/// Concurrency limit of a segment that starts with `step`: for items, the
/// step's own limit, else the plan's, else 1; tasks run one at a time.
pub open spec fn segment_parallelism(step: TaskExecutionStep, plan_default: Option<usize>) -> usize {
    if step.spec_resolved_scope() == StepScope::Item {
        match step.max_parallel {
            Some(m) => m,
            None => match plan_default {
                Some(m) => m,
                None => 1,
            },
        }
    } else {
        1
    }
}

/// The segments of a list of steps: contiguous steps of one scope share a segment.
pub open spec fn spec_segments(steps: Seq<TaskExecutionStep>, plan_default: Option<usize>) -> Seq<SegmentView>
    decreases steps.len(),
{
    if steps.len() == 0 {
        Seq::empty()
    } else {
        let prev = spec_segments(steps.drop_last(), plan_default);
        let step = steps.last();
        let scope = step.spec_resolved_scope();
        if !in_segments(step) {
            prev
        } else if prev.len() > 0 && prev.last().0 == scope {
            let last = prev.last();
            let ids = if last.1.contains(step.id@) {
                last.1
            } else {
                last.1.push(step.id@)
            };
            prev.update(prev.len() - 1, (last.0, ids, last.2))
        } else {
            prev.push((scope, seq![step.id@], segment_parallelism(step, plan_default)))
        }
    }
}

fn ids_contain(ids: &Vec<String>, id: &str) -> (r: bool)
    ensures
        r == views(ids@).contains(id@),
{
    let mut i: usize = 0;
    while i < ids.len()
        invariant
            i <= ids@.len(),
            forall|j: int| 0 <= j < i ==> ids@[j]@ != id@,
        decreases ids@.len() - i,
    {
        if str_eq(ids[i].as_str(), id) {
            assert(views(ids@)[i as int] == id@);
            return true;
        }
        i = i + 1;
    }
    assert forall|j: int| 0 <= j < views(ids@).len() implies views(ids@)[j] != id@ by {
        assert(views(ids@)[j] == ids@[j]@);
    }
    false
}

impl ScopeSegment {
    /// Whether the segment holds the step `id`.
    pub fn contains(&self, id: &str) -> (r: bool)
        ensures
            r == views(self.step_ids@).contains(id@),
    {
        ids_contain(&self.step_ids, id)
    }
}

/// Groups the execution plan's steps into contiguous segments of the same scope.
/// Guard and disabled steps are left out.
pub fn build_scope_segments(task_ctx: &TaskRuntimeContext) -> (r: Vec<ScopeSegment>)
    ensures
        segments_view(r@) == spec_segments(
            task_ctx.execution_plan.steps@,
            task_ctx.execution_plan.max_parallel,
        ),
{
    let plan_default = task_ctx.execution_plan.max_parallel;
    let steps = &task_ctx.execution_plan.steps;
    let mut segments: Vec<ScopeSegment> = Vec::new();
    let mut i: usize = 0;
    assert(steps@.subrange(0, 0) =~= Seq::<TaskExecutionStep>::empty());
    while i < steps.len()
        invariant
            i <= steps@.len(),
            plan_default == task_ctx.execution_plan.max_parallel,
            segments_view(segments@) == spec_segments(steps@.subrange(0, i as int), plan_default),
        decreases steps@.len() - i,
    {
        let step = &steps[i];
        assert(steps@.subrange(0, i + 1).drop_last() =~= steps@.subrange(0, i as int));
        assert(steps@.subrange(0, i + 1).last() == steps@[i as int]);
        let ghost prev = segments_view(segments@);
        if step.is_guard || !step.enabled {
            i = i + 1;
            continue;
        }
        let scope = step.resolved_scope();
        let n = segments.len();
        if n > 0 && segments[n - 1].scope == scope {
            let mut last = segments.remove(n - 1);
            let ghost last_view = segment_view(last);
            assert(last_view == prev.last());
            if !ids_contain(&last.step_ids, step.id.as_str()) {
                let ghost before = views(last.step_ids@);
                last.step_ids.push(step.id.clone());
                assert(views(last.step_ids@) =~= before.push(step.id@));
            }
            segments.push(last);
            assert(segments_view(segments@) =~= prev.update(
                prev.len() - 1,
                (
                    prev.last().0,
                    if prev.last().1.contains(step.id@) {
                        prev.last().1
                    } else {
                        prev.last().1.push(step.id@)
                    },
                    prev.last().2,
                ),
            ));
        } else {
            let mut ids: Vec<String> = Vec::new();
            ids.push(step.id.clone());
            assert(views(ids@) =~= seq![step.id@]);
            let max_parallel = if scope == StepScope::Item {
                match step.max_parallel {
                    Some(m) => m,
                    None => match plan_default {
                        Some(m) => m,
                        None => 1,
                    },
                }
            } else {
                1
            };
            segments.push(ScopeSegment { scope, step_ids: ids, max_parallel });
            assert(segments_view(segments@) =~= prev.push(
                (scope, seq![step.id@], segment_parallelism(*step, plan_default)),
            ));
        }
        i = i + 1;
    }
    assert(steps@.subrange(0, steps@.len() as int) =~= steps@);
    segments
}

/// No segment after `idx` is item-scoped.
pub open spec fn spec_is_last_item_segment(idx: int, segments: Seq<ScopeSegment>) -> bool {
    forall|j: int| idx + 1 <= j < segments.len() ==> (#[trigger] segments[j]).scope != StepScope::Item
}

/// Whether no item-scoped segment follows segment `segment_idx`.
pub fn is_last_item_segment(segment_idx: usize, segments: &[ScopeSegment]) -> (r: bool)
    ensures
        r == spec_is_last_item_segment(segment_idx as int, segments@),
{
    let mut j: usize = segment_idx;
    while j < segments.len()
        invariant
            segment_idx <= j,
            forall|k: int| segment_idx + 1 <= k < j ==> (#[trigger] segments@[k]).scope != StepScope::Item,
        decreases segments@.len() - j,
    {
        if j > segment_idx && segments[j].scope == StepScope::Item {
            return false;
        }
        j = j + 1;
    }
    true
}

/// Ids of the plan's steps that a segment would run in this cycle, added to
/// `seen` in plan order when new.
pub open spec fn segment_step_ids(
    seg_ids: Seq<Seq<char>>,
    steps: Seq<TaskExecutionStep>,
    cycle: u32,
    seen: Seq<Seq<char>>,
) -> Seq<Seq<char>>
    decreases steps.len(),
{
    if steps.len() == 0 {
        seen
    } else {
        let prev = segment_step_ids(seg_ids, steps.drop_last(), cycle, seen);
        let s = steps.last();
        if seg_ids.contains(s.id@) && s.enabled && (s.repeatable || cycle <= 1) && !prev.contains(
            s.id@,
        ) {
            prev.push(s.id@)
        } else {
            prev
        }
    }
}

/// Ids of the item steps of the given segments, each once, segment by segment.
pub open spec fn remaining_item_steps(
    segments: Seq<SegmentView>,
    steps: Seq<TaskExecutionStep>,
    cycle: u32,
) -> Seq<Seq<char>>
    decreases segments.len(),
{
    if segments.len() == 0 {
        Seq::empty()
    } else {
        let prev = remaining_item_steps(segments.drop_last(), steps, cycle);
        let seg = segments.last();
        if seg.0 == StepScope::Item {
            segment_step_ids(seg.1, steps, cycle, prev)
        } else {
            prev
        }
    }
}

/// Item steps of the segments from `start_idx` on that would still run this
/// cycle: each step id once, segment by segment, in plan order.
pub fn collect_remaining_item_step_steps(
    task_ctx: &TaskRuntimeContext,
    segments: &[ScopeSegment],
    start_idx: usize,
) -> (r: Vec<String>)
    ensures
        start_idx <= segments@.len() ==> views(r@) == remaining_item_steps(
            segments_view(segments@).subrange(start_idx as int, segments@.len() as int),
            task_ctx.execution_plan.steps@,
            task_ctx.current_cycle,
        ),
        start_idx > segments@.len() ==> r@.len() == 0,
{
    let mut out: Vec<String> = Vec::new();
    if start_idx > segments.len() {
        return out;
    }
    let steps = &task_ctx.execution_plan.steps;
    let cycle = task_ctx.current_cycle;
    let ghost segs = segments_view(segments@);
    let mut k: usize = start_idx;
    assert(segs.subrange(start_idx as int, start_idx as int) =~= Seq::<SegmentView>::empty());
    while k < segments.len()
        invariant
            start_idx <= k <= segments@.len(),
            segs == segments_view(segments@),
            cycle == task_ctx.current_cycle,
            steps == &task_ctx.execution_plan.steps,
            views(out@) == remaining_item_steps(segs.subrange(start_idx as int, k as int), steps@, cycle),
        decreases segments@.len() - k,
    {
        let seg = &segments[k];
        assert(segs.subrange(start_idx as int, k + 1).drop_last() =~= segs.subrange(
            start_idx as int,
            k as int,
        ));
        assert(segs.subrange(start_idx as int, k + 1).last() == segment_view(segments@[k as int]));
        if seg.scope == StepScope::Item {
            let ghost seen0 = views(out@);
            let mut j: usize = 0;
            assert(steps@.subrange(0, 0) =~= Seq::<TaskExecutionStep>::empty());
            while j < steps.len()
                invariant
                    j <= steps@.len(),
                    seg == &segments@[k as int],
                    views(out@) == segment_step_ids(
                        views(seg.step_ids@),
                        steps@.subrange(0, j as int),
                        cycle,
                        seen0,
                    ),
                decreases steps@.len() - j,
            {
                let s = &steps[j];
                assert(steps@.subrange(0, j + 1).drop_last() =~= steps@.subrange(0, j as int));
                assert(steps@.subrange(0, j + 1).last() == steps@[j as int]);
                if s.enabled && (s.repeatable || cycle <= 1) && seg.contains(s.id.as_str())
                    && !ids_contain(&out, s.id.as_str()) {
                    let ghost before = views(out@);
                    out.push(s.id.clone());
                    assert(views(out@) =~= before.push(s.id@));
                }
                j = j + 1;
            }
            assert(steps@.subrange(0, steps@.len() as int) =~= steps@);
        }
        k = k + 1;
    }
    out
}

/// The builtin is `item_select`.
pub open spec fn is_item_select_builtin(b: Option<String>) -> bool {
    match b {
        Some(x) => x@ == "item_select"@,
        None => false,
    }
}

/// The segment names a step of the plan whose builtin is `item_select`.
pub open spec fn spec_has_item_select_step(seg_ids: Seq<Seq<char>>, steps: Seq<TaskExecutionStep>) -> bool {
    exists|i: int, j: int|
        0 <= i < seg_ids.len() && first_step_index(steps, #[trigger] seg_ids[i], j)
            && is_item_select_builtin((#[trigger] steps[j]).builtin)
}

/// Whether a segment holds an `item_select` builtin step.
pub fn has_item_select_step(segment: &ScopeSegment, plan: &TaskExecutionPlan) -> (r: bool)
    ensures
        r == spec_has_item_select_step(views(segment.step_ids@), plan.steps@),
{
    let mut i: usize = 0;
    while i < segment.step_ids.len()
        invariant
            i <= segment.step_ids@.len(),
            forall|a: int, j: int|
                0 <= a < i && first_step_index(plan.steps@, #[trigger] views(segment.step_ids@)[a], j)
                    ==> !is_item_select_builtin((#[trigger] plan.steps@[j]).builtin),
        decreases segment.step_ids@.len() - i,
    {
        assert(views(segment.step_ids@)[i as int] == segment.step_ids@[i as int]@);
        match plan.step_index(segment.step_ids[i].as_str()) {
            Some(j) => {
                let is_select = match &plan.steps[j].builtin {
                    Some(b) => str_eq(b.as_str(), "item_select"),
                    None => false,
                };
                if is_select {
                    return true;
                }
                assert forall|j2: int| first_step_index(plan.steps@, segment.step_ids@[i as int]@, j2) implies j2 == j by {
                    if j2 < j {
                        assert(plan.steps@[j2].id@ != segment.step_ids@[i as int]@);
                    }
                    if j < j2 {
                        assert(plan.steps@[j as int].id@ != segment.step_ids@[i as int]@);
                    }
                }
            },
            None => {},
        }
        i = i + 1;
    }
    false
}

/// Position of the first step that carries item-selection settings.
pub open spec fn first_select_config_index(steps: Seq<TaskExecutionStep>, i: int) -> bool {
    0 <= i < steps.len() && steps[i].item_select_config is Some && forall|j: int|
        0 <= j < i ==> steps[j].item_select_config is None
}

/// The item-selection settings of the first step that has them.
pub fn find_item_select_config(plan: &TaskExecutionPlan) -> (r: Option<ItemSelectConfig>)
    ensures
        r is None ==> forall|j: int| 0 <= j < plan.steps@.len() ==> plan.steps@[j].item_select_config is None,
        r matches Some(c) ==> exists|i: int| first_select_config_index(plan.steps@, i) && plan.steps@[i].item_select_config == Some(c),
{
    let mut i: usize = 0;
    while i < plan.steps.len()
        invariant
            i <= plan.steps@.len(),
            forall|j: int| 0 <= j < i ==> plan.steps@[j].item_select_config is None,
        decreases plan.steps@.len() - i,
    {
        match &plan.steps[i].item_select_config {
            Some(c) => {
                let copy = c.copy();
                assert(first_select_config_index(plan.steps@, i as int));
                return Some(copy);
            },
            None => {},
        }
        i = i + 1;
    }
    None
}

/// Per-item state collected after evaluation, used for selection.
pub struct ItemEvalState {
    /// Candidate item identifier.
    pub item_id: String,
    /// Pipeline variables captured for the candidate item.
    pub pipeline_vars: StrMap<String>,
}

/// The evaluation state carries the variables of the item's accumulator.
pub open spec fn eval_state_matches(st: StrMap<StepExecutionAccumulator>, e: ItemEvalState) -> bool {
    match st.spec_get(e.item_id@) {
        Some(acc) => e.pipeline_vars.entries@ == acc.pipeline_vars.vars.entries@,
        None => false,
    }
}

/// Items that have an accumulator, with their variables, in item order.
pub open spec fn eval_ids(items: Seq<TaskItemRow>, state: StrMap<StepExecutionAccumulator>) -> Seq<Seq<char>>
    decreases items.len(),
{
    if items.len() == 0 {
        Seq::empty()
    } else {
        let prev = eval_ids(items.drop_last(), state);
        if state.spec_get(items.last().id@) is Some {
            prev.push(items.last().id@)
        } else {
            prev
        }
    }
}

/// Collects the evaluation state of every item that has an accumulator.
pub fn collect_item_eval_states(items: &[TaskItemRow], item_state: &StrMap<StepExecutionAccumulator>) -> (r: Vec<ItemEvalState>)
    ensures
        r@.map_values(|e: ItemEvalState| e.item_id@) == eval_ids(items@, *item_state),
        forall|i: int| 0 <= i < r@.len() ==> eval_state_matches(*item_state, #[trigger] r@[i]),
{
    let mut out: Vec<ItemEvalState> = Vec::new();
    let mut i: usize = 0;
    assert(items@.subrange(0, 0) =~= Seq::<TaskItemRow>::empty());
    while i < items.len()
        invariant
            i <= items@.len(),
            out@.map_values(|e: ItemEvalState| e.item_id@) == eval_ids(items@.subrange(0, i as int), *item_state),
            forall|k: int| 0 <= k < out@.len() ==> eval_state_matches(*item_state, #[trigger] out@[k]),
        decreases items@.len() - i,
    {
        let item = &items[i];
        assert(items@.subrange(0, i + 1).drop_last() =~= items@.subrange(0, i as int));
        assert(items@.subrange(0, i + 1).last() == items@[i as int]);
        match item_state.get(item.id.as_str()) {
            Some(acc) => {
                let ghost before = out@.map_values(|e: ItemEvalState| e.item_id@);
                let e = ItemEvalState { item_id: item.id.clone(), pipeline_vars: acc.pipeline_vars.vars.copy() };
                out.push(e);
                assert(out@.map_values(|e: ItemEvalState| e.item_id@) =~= before.push(item.id@));
            },
            None => {},
        }
        i = i + 1;
    }
    assert(items@.subrange(0, items@.len() as int) =~= items@);
    out
}

/// Promotes the winner of a selection into the task's variables: its id under
/// `item_select_winner`, then its own variables (which win on a clash).
pub fn promote_winner_vars(pipeline_vars: &mut PipelineVariables, result: &SelectionResult)
    ensures
        forall|k: Seq<char>|
            #![trigger final(pipeline_vars).vars.spec_get(k)]
            final(pipeline_vars).vars.spec_get(k) == (if result.winner_vars.spec_get(k) is Some {
                result.winner_vars.spec_get(k)
            } else if k == "item_select_winner"@ {
                Some(result.winner_id)
            } else {
                old(pipeline_vars).vars.spec_get(k)
            }),
        final(pipeline_vars).build_errors == old(pipeline_vars).build_errors,
        final(pipeline_vars).test_failures == old(pipeline_vars).test_failures,
        final(pipeline_vars).prev_stdout == old(pipeline_vars).prev_stdout,
        final(pipeline_vars).prev_stderr == old(pipeline_vars).prev_stderr,
        final(pipeline_vars).diff == old(pipeline_vars).diff,
{
    pipeline_vars.vars.insert(String::from_str("item_select_winner"), result.winner_id.clone());
    pipeline_vars.vars.overwrite_from(&result.winner_vars);
}

/// Neighbouring segments differ in scope, and no segment is empty.
pub open spec fn well_grouped(segs: Seq<SegmentView>) -> bool {
    &&& forall|i: int| 0 <= i < segs.len() - 1 ==> (#[trigger] segs[i]).0 != segs[i + 1].0
    &&& forall|i: int| 0 <= i < segs.len() ==> (#[trigger] segs[i]).1.len() > 0
}

/// Segmenting a plan groups each run of same-scope steps into one segment:
/// neighbouring segments always differ in scope and each holds a step.
pub proof fn law_segments_alternate_scopes(steps: Seq<TaskExecutionStep>, plan_default: Option<usize>)
    ensures
        well_grouped(spec_segments(steps, plan_default)),
    decreases steps.len(),
{
    if steps.len() > 0 {
        law_segments_alternate_scopes(steps.drop_last(), plan_default);
        let prev = spec_segments(steps.drop_last(), plan_default);
        let segs = spec_segments(steps, plan_default);
        let step = steps.last();
        let scope = step.spec_resolved_scope();
        if in_segments(step) {
            if prev.len() > 0 && prev.last().0 == scope {
                let last = prev.last();
                let ids = if last.1.contains(step.id@) {
                    last.1
                } else {
                    last.1.push(step.id@)
                };
                assert(segs == prev.update(prev.len() - 1, (last.0, ids, last.2)));
                assert forall|i: int| 0 <= i < segs.len() - 1 implies (#[trigger] segs[i]).0 != segs[i + 1].0 by {
                    assert(prev[i].0 != prev[i + 1].0);
                }
                assert forall|i: int| 0 <= i < segs.len() implies (#[trigger] segs[i]).1.len() > 0 by {
                    if i < prev.len() - 1 {
                        assert(prev[i].1.len() > 0);
                    } else {
                        assert(last.1.len() > 0);
                    }
                }
            } else {
                assert(segs == prev.push((scope, seq![step.id@], segment_parallelism(step, plan_default))));
                assert forall|i: int| 0 <= i < segs.len() - 1 implies (#[trigger] segs[i]).0 != segs[i + 1].0 by {
                    if i < prev.len() - 1 {
                        assert(prev[i].0 != prev[i + 1].0);
                    }
                }
                assert forall|i: int| 0 <= i < segs.len() implies (#[trigger] segs[i]).1.len() > 0 by {
                    if i < prev.len() {
                        assert(prev[i].1.len() > 0);
                    }
                }
            }
        }
    }
}

/// Each segment's concurrency limit is that of the step that opened it (the
/// segment's first step, of the segment's scope): for an item segment the
/// step's own `max_parallel`, else the plan's default, else 1; a task
/// segment runs one at a time.
pub proof fn law_segment_parallelism_from_first_step(steps: Seq<TaskExecutionStep>, plan_default: Option<usize>)
    ensures
        forall|k: int|
            0 <= k < spec_segments(steps, plan_default).len() ==> exists|j: int|
                0 <= j < steps.len() && steps[j].id@ == (#[trigger] spec_segments(steps, plan_default)[k]).1[0]
                    && spec_segments(steps, plan_default)[k].0 == steps[j].spec_resolved_scope()
                    && spec_segments(steps, plan_default)[k].2 == (if steps[j].spec_resolved_scope()
                    == StepScope::Item {
                    match steps[j].max_parallel {
                        Some(m) => m,
                        None => match plan_default {
                            Some(m) => m,
                            None => 1usize,
                        },
                    }
                } else {
                    1usize
                }),
    decreases steps.len(),
{
    if steps.len() > 0 {
        let prev = spec_segments(steps.drop_last(), plan_default);
        let segs = spec_segments(steps, plan_default);
        let step = steps.last();
        let scope = step.spec_resolved_scope();
        law_segment_parallelism_from_first_step(steps.drop_last(), plan_default);
        law_segments_alternate_scopes(steps.drop_last(), plan_default);
        assert forall|k: int| 0 <= k < segs.len() implies exists|j: int|
            0 <= j < steps.len() && steps[j].id@ == (#[trigger] segs[k]).1[0] && segs[k].0
                == steps[j].spec_resolved_scope() && segs[k].2 == (if steps[j].spec_resolved_scope()
                == StepScope::Item {
                match steps[j].max_parallel {
                    Some(m) => m,
                    None => match plan_default {
                        Some(m) => m,
                        None => 1usize,
                    },
                }
            } else {
                1usize
            }) by {
            if k < prev.len() {
                let j = choose|j: int|
                    0 <= j < steps.drop_last().len() && steps.drop_last()[j].id@ == (#[trigger] prev[k]).1[0]
                        && prev[k].0 == steps.drop_last()[j].spec_resolved_scope() && prev[k].2 == (if steps.drop_last()[j].spec_resolved_scope()
                        == StepScope::Item {
                        match steps.drop_last()[j].max_parallel {
                            Some(m) => m,
                            None => match plan_default {
                                Some(m) => m,
                                None => 1usize,
                            },
                        }
                    } else {
                        1usize
                    });
                assert(steps.drop_last()[j] == steps[j]);
                if in_segments(step) && prev.len() > 0 && prev.last().0 == scope && k == prev.len() - 1 {
                    let last = prev.last();
                    assert(prev[k].1.len() > 0);
                    if !last.1.contains(step.id@) {
                        assert(last.1.push(step.id@)[0] == last.1[0]);
                    }
                    assert(segs[k].1[0] == prev[k].1[0]);
                } else {
                    assert(segs[k] == prev[k]);
                }
            } else {
                assert(in_segments(step));
                assert(segs[k] == (scope, seq![step.id@], segment_parallelism(step, plan_default)));
                assert(steps[steps.len() - 1] == step);
            }
        }
    }
}

/// Some segment has the scope and holds the step id.
pub open spec fn segment_holds(segs: Seq<SegmentView>, scope: StepScope, id: Seq<char>) -> bool {
    exists|k: int| 0 <= k < segs.len() && (#[trigger] segs[k]).0 == scope && segs[k].1.contains(id)
}

/// Every enabled step that is not a guard lands in a segment of its own scope.
pub proof fn law_segments_cover_steps(steps: Seq<TaskExecutionStep>, plan_default: Option<usize>, j: int)
    requires
        0 <= j < steps.len(),
        in_segments(steps[j]),
    ensures
        segment_holds(
            spec_segments(steps, plan_default),
            steps[j].spec_resolved_scope(),
            steps[j].id@,
        ),
    decreases steps.len(),
{
    let prev = spec_segments(steps.drop_last(), plan_default);
    let segs = spec_segments(steps, plan_default);
    let step = steps.last();
    let scope = step.spec_resolved_scope();
    let target = steps[j];
    let merges = in_segments(step) && prev.len() > 0 && prev.last().0 == scope;
    if merges {
        let last = prev.last();
        let ids = if last.1.contains(step.id@) {
            last.1
        } else {
            last.1.push(step.id@)
        };
        assert(segs == prev.update(prev.len() - 1, (last.0, ids, last.2)));
        if j == steps.len() - 1 {
            if !last.1.contains(step.id@) {
                assert(ids[ids.len() - 1] == step.id@);
            }
            assert(segs[prev.len() - 1].1.contains(step.id@));
            assert(segs[prev.len() - 1].0 == scope);
        } else {
            assert(steps.drop_last()[j] == target);
            law_segments_cover_steps(steps.drop_last(), plan_default, j);
            let k = choose|k: int|
                0 <= k < prev.len() && (#[trigger] prev[k]).0 == target.spec_resolved_scope()
                    && prev[k].1.contains(target.id@);
            if k == prev.len() - 1 {
                if !last.1.contains(step.id@) {
                    lemma_push_contains(last.1, step.id@, target.id@);
                }
                assert(segs[k].1.contains(target.id@));
            }
            assert(segs[k].0 == target.spec_resolved_scope());
        }
    } else if in_segments(step) {
        assert(segs == prev.push((scope, seq![step.id@], segment_parallelism(step, plan_default))));
        if j == steps.len() - 1 {
            assert(segs[prev.len() as int].1[0] == step.id@);
            assert(segs[prev.len() as int].1.contains(step.id@));
        } else {
            assert(steps.drop_last()[j] == target);
            law_segments_cover_steps(steps.drop_last(), plan_default, j);
            let k = choose|k: int|
                0 <= k < prev.len() && (#[trigger] prev[k]).0 == target.spec_resolved_scope()
                    && prev[k].1.contains(target.id@);
            assert(segs[k] == prev[k]);
        }
    } else {
        assert(j != steps.len() - 1);
        assert(segs == prev);
        assert(steps.drop_last()[j] == target);
        law_segments_cover_steps(steps.drop_last(), plan_default, j);
    }
}

/// A sequence with one more element contains exactly one more value.
pub proof fn lemma_push_contains<A>(s: Seq<A>, x: A, k: A)
    ensures
        s.push(x).contains(k) == (s.contains(k) || k == x),
{
    if s.contains(k) {
        let j = choose|j: int| 0 <= j < s.len() && s[j] == k;
        assert(s.push(x)[j] == k);
    }
    if k == x {
        assert(s.push(x)[s.len() as int] == k);
    }
    if s.push(x).contains(k) {
        let j = choose|j: int| 0 <= j < s.push(x).len() && s.push(x)[j] == k;
        if j < s.len() {
            assert(s[j] == k);
        }
    }
}

/// Variables an accumulator starts from: the existing one's, else the task's.
pub open spec fn base_vars(base: Option<StepExecutionAccumulator>, task_vars: PipelineVariables) -> StrMap<String> {
    match base {
        Some(o) => o.pipeline_vars.vars,
        None => task_vars.vars,
    }
}

/// Variables of the existing accumulator, or the task's for a new one.
pub open spec fn base_pipeline(base: Option<StepExecutionAccumulator>, task_vars: PipelineVariables) -> PipelineVariables {
    match base {
        Some(o) => o.pipeline_vars,
        None => task_vars,
    }
}

/// Flag of the existing accumulator, if there is one.
pub open spec fn base_flag(base: Option<StepExecutionAccumulator>, k: Seq<char>) -> Option<bool> {
    match base {
        Some(o) => o.flags.spec_get(k),
        None => None,
    }
}

/// Skip mark of the existing accumulator, if there is one.
pub open spec fn base_skipped(base: Option<StepExecutionAccumulator>, k: Seq<char>) -> Option<bool> {
    match base {
        Some(o) => o.step_skipped.spec_get(k),
        None => None,
    }
}

/// An item's accumulator after a terminal task segment, given the one it had
/// before (if any): terminal, with the task segment's status, the task's
/// variables filled in, the task's `execution_failed` flag, and every skipped
/// step marked skipped.
pub open spec fn propagated(
    a: StepExecutionAccumulator,
    base: Option<StepExecutionAccumulator>,
    task_acc: StepExecutionAccumulator,
    task_vars: PipelineVariables,
    skipped: Seq<Seq<char>>,
) -> bool {
    &&& a.terminal
    &&& a.item_status@ == task_acc.item_status@
    &&& forall|k: Seq<char>|
        #![trigger a.pipeline_vars.vars.spec_get(k)]
        a.pipeline_vars.vars.spec_get(k) == (if base_vars(base, task_vars).spec_get(k) is Some {
            base_vars(base, task_vars).spec_get(k)
        } else {
            task_acc.pipeline_vars.vars.spec_get(k)
        })
    &&& a.pipeline_vars.build_errors@ == (if base_pipeline(base, task_vars).build_errors@.len() == 0 {
        task_acc.pipeline_vars.build_errors@
    } else {
        base_pipeline(base, task_vars).build_errors@
    })
    &&& a.pipeline_vars.test_failures@ == (if base_pipeline(base, task_vars).test_failures@.len() == 0 {
        task_acc.pipeline_vars.test_failures@
    } else {
        base_pipeline(base, task_vars).test_failures@
    })
    &&& a.pipeline_vars.prev_stdout@ == base_pipeline(base, task_vars).prev_stdout@
    &&& a.pipeline_vars.prev_stderr@ == base_pipeline(base, task_vars).prev_stderr@
    &&& a.pipeline_vars.diff@ == base_pipeline(base, task_vars).diff@
    &&& a.flags.spec_get("execution_failed"@) == (if task_acc.flags.spec_get("execution_failed"@) is Some {
        task_acc.flags.spec_get("execution_failed"@)
    } else {
        base_flag(base, "execution_failed"@)
    })
    &&& forall|k: Seq<char>|
        #![trigger a.step_skipped.spec_get(k)]
        a.step_skipped.spec_get(k) == (if skipped.contains(k) {
            Some(true)
        } else {
            base_skipped(base, k)
        })
}

fn terminalize(acc: &mut StepExecutionAccumulator, task_acc: &StepExecutionAccumulator, skipped: &[String])
    ensures
        final(acc).terminal,
        crate::accumulator::merged_vars(old(acc).pipeline_vars, task_acc.pipeline_vars, final(acc).pipeline_vars),
        final(acc).item_status@ == task_acc.item_status@,
        forall|k: Seq<char>|
            #![trigger final(acc).pipeline_vars.vars.spec_get(k)]
            final(acc).pipeline_vars.vars.spec_get(k) == (if old(acc).pipeline_vars.vars.spec_get(k) is Some {
                old(acc).pipeline_vars.vars.spec_get(k)
            } else {
                task_acc.pipeline_vars.vars.spec_get(k)
            }),
        final(acc).flags.spec_get("execution_failed"@) == (if task_acc.flags.spec_get("execution_failed"@) is Some {
            task_acc.flags.spec_get("execution_failed"@)
        } else {
            old(acc).flags.spec_get("execution_failed"@)
        }),
        forall|k: Seq<char>|
            #![trigger final(acc).step_skipped.spec_get(k)]
            final(acc).step_skipped.spec_get(k) == (if views(skipped@).contains(k) {
                Some(true)
            } else {
                old(acc).step_skipped.spec_get(k)
            }),
{
    acc.merge_task_pipeline_vars(&task_acc.pipeline_vars);
    let ghost merged = acc.pipeline_vars;
    acc.item_status = task_acc.item_status.clone();
    match task_acc.flags.get("execution_failed") {
        Some(ef) => {
            acc.flags.insert(String::from_str("execution_failed"), *ef);
        },
        None => {},
    }
    let mut i: usize = 0;
    let ghost start = acc.step_skipped;
    while i < skipped.len()
        invariant
            i <= skipped@.len(),
            forall|k: Seq<char>|
                #![trigger acc.step_skipped.spec_get(k)]
                acc.step_skipped.spec_get(k) == (if views(skipped@).subrange(0, i as int).contains(k) {
                    Some(true)
                } else {
                    start.spec_get(k)
                }),
            acc.item_status@ == task_acc.item_status@,
            acc.flags == old(acc).flags || acc.flags.spec_get("execution_failed"@) == task_acc.flags.spec_get("execution_failed"@),
            acc.flags.spec_get("execution_failed"@) == (if task_acc.flags.spec_get("execution_failed"@) is Some {
                task_acc.flags.spec_get("execution_failed"@)
            } else {
                old(acc).flags.spec_get("execution_failed"@)
            }),
            forall|k: Seq<char>|
                #![trigger acc.pipeline_vars.vars.spec_get(k)]
                acc.pipeline_vars.vars.spec_get(k) == (if old(acc).pipeline_vars.vars.spec_get(k) is Some {
                    old(acc).pipeline_vars.vars.spec_get(k)
                } else {
                    task_acc.pipeline_vars.vars.spec_get(k)
                }),
            acc.pipeline_vars == merged,
            crate::accumulator::merged_vars(old(acc).pipeline_vars, task_acc.pipeline_vars, merged),
        decreases skipped@.len() - i,
    {
        let ghost prev = acc.step_skipped;
        acc.step_skipped.insert(skipped[i].clone(), true);
        assert(views(skipped@).subrange(0, i + 1) =~= views(skipped@).subrange(0, i as int).push(skipped@[i as int]@));
        proof {
            assert forall|k: Seq<char>| #![trigger acc.step_skipped.spec_get(k)]
                acc.step_skipped.spec_get(k) == (if views(skipped@).subrange(0, i + 1).contains(k) {
                    Some(true)
                } else {
                    start.spec_get(k)
                }) by {
                lemma_push_contains(views(skipped@).subrange(0, i as int), skipped@[i as int]@, k);
                assert(prev.spec_get(k) == (if views(skipped@).subrange(0, i as int).contains(k) {
                    Some(true)
                } else {
                    start.spec_get(k)
                }));
            }
        }
        i = i + 1;
    }
    assert(views(skipped@).subrange(0, skipped@.len() as int) =~= views(skipped@));
    acc.terminal = true;
}

/// An item that a `generate_items` action created.
pub open spec fn is_dynamic(item: TaskItemRow) -> bool {
    item.source@ == "dynamic"@
}

/// Whether any item is a generated one.
pub open spec fn any_dynamic(items: Seq<TaskItemRow>) -> bool {
    exists|i: int| 0 <= i < items.len() && is_dynamic(#[trigger] items[i])
}

/// The generated items, in order.
pub open spec fn dynamic_only(items: Seq<TaskItemRow>) -> Seq<TaskItemRow>
    decreases items.len(),
{
    if items.len() == 0 {
        Seq::empty()
    } else if is_dynamic(items[0]) {
        seq![items[0]] + dynamic_only(items.drop_first())
    } else {
        dynamic_only(items.drop_first())
    }
}

/// The items a cycle works on: only the generated ones when there are any,
/// else all of them.
pub fn cycle_items(items: Vec<TaskItemRow>) -> (r: Vec<TaskItemRow>)
    ensures
        r@ == if any_dynamic(items@) {
            dynamic_only(items@)
        } else {
            items@
        },
{
    let mut has_dynamic = false;
    let mut i: usize = 0;
    while i < items.len()
        invariant
            i <= items@.len(),
            has_dynamic == exists|j: int| 0 <= j < i && is_dynamic(#[trigger] items@[j]),
        decreases items@.len() - i,
    {
        if str_eq(items[i].source.as_str(), "dynamic") {
            has_dynamic = true;
        }
        i = i + 1;
    }
    if !has_dynamic {
        return items;
    }
    let ghost all = items@;
    let mut rest = items;
    let mut out: Vec<TaskItemRow> = Vec::new();
    assert(out@ + dynamic_only(rest@) =~= dynamic_only(all));
    while rest.len() > 0
        invariant
            out@ + dynamic_only(rest@) == dynamic_only(all),
        decreases rest@.len(),
    {
        let ghost before = rest@;
        let x = rest.remove(0);
        assert(rest@ =~= before.drop_first());
        if str_eq(x.source.as_str(), "dynamic") {
            let ghost o = out@;
            out.push(x);
            assert(out@ =~= o + seq![before[0]]);
            assert(o + (seq![before[0]] + dynamic_only(rest@)) =~= out@ + dynamic_only(rest@));
        }
    }
    assert(dynamic_only(rest@) =~= Seq::<TaskItemRow>::empty());
    assert(out@ =~= dynamic_only(all));
    out
}

/// Ids of the items.
pub open spec fn item_ids(items: Seq<TaskItemRow>) -> Seq<Seq<char>> {
    items.map_values(|x: TaskItemRow| x.id@)
}

/// Marks every item terminal after a terminal task segment: each item's
/// accumulator (created from the task's variables when missing) takes the task
/// segment's status, variables and `execution_failed` flag, and records the
/// remaining item steps as skipped.
pub fn propagate_task_segment_terminal_state(
    items: &[TaskItemRow],
    item_state: &mut StrMap<StepExecutionAccumulator>,
    task_acc: &StepExecutionAccumulator,
    task_pipeline_vars: &PipelineVariables,
    skipped_item_steps: &[String],
)
    ensures
        forall|k: Seq<char>|
            #![trigger final(item_state).spec_get(k)]
            item_ids(items@).contains(k) ==> (final(item_state).spec_get(k) matches Some(a) && propagated(
                a,
                old(item_state).spec_get(k),
                *task_acc,
                *task_pipeline_vars,
                views(skipped_item_steps@),
            )),
        forall|k: Seq<char>|
            #![trigger final(item_state).spec_get(k)]
            !item_ids(items@).contains(k) ==> final(item_state).spec_get(k) == old(item_state).spec_get(k),
        old(item_state).keys_distinct() ==> final(item_state).keys_distinct(),
{
    let mut i: usize = 0;
    while i < items.len()
        invariant
            i <= items@.len(),
            forall|k: Seq<char>|
                #![trigger item_state.spec_get(k)]
                item_ids(items@).subrange(0, i as int).contains(k) ==> (item_state.spec_get(k) matches Some(a) && propagated(
                    a,
                    old(item_state).spec_get(k),
                    *task_acc,
                    *task_pipeline_vars,
                    views(skipped_item_steps@),
                )),
            forall|k: Seq<char>|
                #![trigger item_state.spec_get(k)]
                !item_ids(items@).subrange(0, i as int).contains(k) ==> item_state.spec_get(k) == old(item_state).spec_get(k),
            old(item_state).keys_distinct() ==> item_state.keys_distinct(),
        decreases items@.len() - i,
    {
        let id = &items[i].id;
        let ghost kid = id@;
        let ghost before = *item_state;
        assert(item_ids(items@).subrange(0, i + 1) =~= item_ids(items@).subrange(0, i as int).push(kid));
        match item_state.find(id.as_str()) {
            Some(pos) => {
                let (k, mut acc) = item_state.remove_entry(pos);
                let ghost old_acc = acc;
                terminalize(&mut acc, task_acc, skipped_item_steps);
                let ghost entry = (k, acc);
                item_state.insert_entry(pos, (k, acc));
                proof {
                    assert forall|k2: Seq<char>| #![trigger item_state.spec_get(k2)]
                        item_state.spec_get(k2) == (if k2 == kid {
                            Some(entry.1)
                        } else {
                            before.spec_get(k2)
                        }) by {
                        crate::strmap::lemma_replace_first(before.entries@, pos as int, entry, k2);
                    }
                    assert(crate::strmap::keys_of(item_state.entries@) =~= crate::strmap::keys_of(before.entries@));
                }
            },
            None => {
                let mut acc = StepExecutionAccumulator::new(task_pipeline_vars.copy());
                terminalize(&mut acc, task_acc, skipped_item_steps);
                item_state.insert(id.clone(), acc);
            },
        }
        proof {
            assert forall|k: Seq<char>| #![trigger item_state.spec_get(k)]
                !item_ids(items@).subrange(0, i + 1).contains(k) implies item_state.spec_get(k) == old(item_state).spec_get(k) by {
                lemma_push_contains(item_ids(items@).subrange(0, i as int), kid, k);
            }
            assert forall|k: Seq<char>| #![trigger item_state.spec_get(k)]
                item_ids(items@).subrange(0, i + 1).contains(k) implies (item_state.spec_get(k) matches Some(a) && propagated(
                    a,
                    old(item_state).spec_get(k),
                    *task_acc,
                    *task_pipeline_vars,
                    views(skipped_item_steps@),
                )) by {
                lemma_push_contains(item_ids(items@).subrange(0, i as int), kid, k);
            }
        }
        i = i + 1;
    }
    assert(item_ids(items@).subrange(0, items@.len() as int) =~= item_ids(items@));
}

} // verus!
