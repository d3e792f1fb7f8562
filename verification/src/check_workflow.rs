//! Checks over the steps of workflows.
use vstd::prelude::*;
use crate::config::{ExecutionMode, same_execution_mode};
use crate::strmap::StrMap;
use crate::text::{str_eq, is_digit, decimal, u64_to_string, chars_of, string_from};
use crate::scan::is_ascii_alpha;
use crate::check::{
    CheckResult, CheckView, Severity, chk, check_views, quoted, cat3, cat5, WorkflowStepConfig,
    WorkflowConfig, AgentConfig, StepTemplateConfig, has_text, contains_text,
};

verus! {

/// What a step means, judged from its configuration.
pub enum StepSemanticKind {
    Builtin { name: String },
    Agent { capability: String },
    Command,
    Chain,
}

/// A step's meaning with its texts as character sequences; `Invalid`
/// carries the reason a step has no consistent meaning.
pub enum SemanticView {
    Builtin(Seq<char>),
    Agent(Seq<char>),
    Command,
    Chain,
    Invalid(Seq<char>),
}

/// The meaning of a step: a builtin and a capability together are a
/// conflict; otherwise a builtin, then a capability, then a command, then
/// chain steps decide; a step with none of them means what its execution
/// mode says, and an agent step without a capability has no meaning.
pub open spec fn semantic(step: WorkflowStepConfig) -> SemanticView {
    if step.builtin is Some && step.required_capability is Some {
        SemanticView::Invalid("cannot define both builtin and required_capability"@)
    } else if step.builtin is Some {
        SemanticView::Builtin(step.builtin->0@)
    } else if step.required_capability is Some {
        SemanticView::Agent(step.required_capability->0@)
    } else if step.command is Some {
        SemanticView::Command
    } else if step.chain_steps@.len() > 0 {
        SemanticView::Chain
    } else {
        match step.behavior.execution {
            ExecutionMode::Builtin { .. } => SemanticView::Command,
            ExecutionMode::Chain => SemanticView::Chain,
            ExecutionMode::Agent => SemanticView::Invalid(
                "step has no builtin, required_capability, command or chain_steps"@,
            ),
        }
    }
}

/// The view of a resolved meaning.
pub open spec fn semantic_view_of(r: Result<StepSemanticKind, String>) -> SemanticView {
    match r {
        Ok(StepSemanticKind::Builtin { name }) => SemanticView::Builtin(name@),
        Ok(StepSemanticKind::Agent { capability }) => SemanticView::Agent(capability@),
        Ok(StepSemanticKind::Command) => SemanticView::Command,
        Ok(StepSemanticKind::Chain) => SemanticView::Chain,
        Err(e) => SemanticView::Invalid(e@),
    }
}

/// Resolves what a step means (see `semantic`).
pub fn resolve_step_semantic_kind(step: &WorkflowStepConfig) -> (r: Result<StepSemanticKind, String>)
    ensures
        semantic_view_of(r) == semantic(*step),
{
    match (&step.builtin, &step.required_capability) {
        (Some(_), Some(_)) => Err(
            String::from_str("cannot define both builtin and required_capability"),
        ),
        (Some(b), None) => Ok(StepSemanticKind::Builtin { name: String::from_str(b.as_str()) }),
        (None, Some(c)) => Ok(StepSemanticKind::Agent { capability: String::from_str(c.as_str()) }),
        (None, None) => {
            if step.command.is_some() {
                Ok(StepSemanticKind::Command)
            } else if step.chain_steps.len() > 0 {
                Ok(StepSemanticKind::Chain)
            } else {
                match &step.behavior.execution {
                    ExecutionMode::Builtin { .. } => Ok(StepSemanticKind::Command),
                    ExecutionMode::Chain => Ok(StepSemanticKind::Chain),
                    ExecutionMode::Agent => Err(
                        String::from_str(
                            "step has no builtin, required_capability, command or chain_steps",
                        ),
                    ),
                }
            }
        },
    }
}

/// The builtin steps the scheduler knows.
pub open spec fn is_known_builtin(name: Seq<char>) -> bool {
    name == "init_once"@ || name == "loop_guard"@ || name == "ticket_scan"@ || name == "self_test"@
}

/// Whether `name` is a builtin step the scheduler knows.
pub fn is_known_builtin_step_name(name: &str) -> (r: bool)
    ensures
        r == is_known_builtin(name@),
{
    str_eq(name, "init_once") || str_eq(name, "loop_guard") || str_eq(name, "ticket_scan") || str_eq(
        name,
        "self_test",
    )
}

/// The enabled steps in the order the checks visit them: each enabled step,
/// then (recursively) its chain steps; a disabled step hides its chain.
pub open spec fn visit(steps: Seq<WorkflowStepConfig>) -> Seq<WorkflowStepConfig>
    decreases steps,
{
    if steps.len() == 0 {
        Seq::empty()
    } else {
        let s = steps.last();
        proof {
            assert(decreases_to!(steps => steps.drop_last()));
            assert(decreases_to!(steps => steps[steps.len() - 1]));
        }
        let init = visit(steps.drop_last());
        if !s.enabled {
            init
        } else {
            init + seq![s] + visit(s.chain_steps@)
        }
    }
}

} // verus!

verus! {

/// `workflow "<wf>" step "<id>": `
pub open spec fn step_prefix(wf: Seq<char>, id: Seq<char>) -> Seq<char> {
    "workflow "@ + quoted(wf) + " step "@ + quoted(id) + ": "@
}

fn make_step_prefix(wf: &str, id: &str) -> (r: String)
    ensures
        r@ == step_prefix(wf@, id@),
{
    let qw = cat3("\"", wf, "\"");
    let qi = cat3("\"", id, "\"");
    cat5("workflow ", qw.as_str(), " step ", qi.as_str(), ": ")
}

/// Some agent offers the capability.
pub open spec fn provided(agents: Seq<(String, AgentConfig)>, cap: Seq<char>) -> bool {
    exists|i: int| 0 <= i < agents.len() && has_text((#[trigger] agents[i]).1.capabilities@, cap)
}

/// The context attached to a builtin name check.
pub open spec fn known_builtins_context() -> Seq<char> {
    "known builtins: [\"init_once\", \"loop_guard\", \"ticket_scan\", \"self_test\"]"@
}

/// The step's execution mode agrees with its meaning: the named builtin for
/// a builtin, agent execution for a capability, the builtin named like the
/// step for a command, chain execution for a chain.
pub open spec fn execution_matches(k: SemanticView, step: WorkflowStepConfig) -> bool {
    match k {
        SemanticView::Builtin(n) => match step.behavior.execution {
            ExecutionMode::Builtin { name } => name@ == n,
            _ => false,
        },
        SemanticView::Agent(_) => step.behavior.execution is Agent,
        SemanticView::Command => match step.behavior.execution {
            ExecutionMode::Builtin { name } => name@ == step.id@,
            _ => false,
        },
        SemanticView::Chain => step.behavior.execution is Chain,
        SemanticView::Invalid(_) => false,
    }
}

/// A per-step rule with what it needs to know.
pub enum StepRule {
    /// Every capability a step needs is offered by some agent.
    Capability { wf: Seq<char>, agents: Seq<(String, AgentConfig)> },
    /// Builtin names are known and execution modes match step meanings.
    Builtin { wf: Seq<char> },
    /// `pipe_to` names a step of the workflow.
    PipeTo { wf: Seq<char>, ids: Seq<Seq<char>> },
}

/// The checks a rule makes of one step.
pub open spec fn step_checks(rule: StepRule, s: WorkflowStepConfig) -> Seq<CheckView> {
    match rule {
        StepRule::Capability { wf, agents } => match semantic(s) {
            SemanticView::Agent(cap) => {
                let covered = provided(agents, cap);
                seq![
                    chk(
                        "capability_no_agent"@,
                        Severity::Error,
                        covered,
                        if covered {
                            step_prefix(wf, s.id@) + "capability "@ + quoted(cap) + " is provided"@
                        } else {
                            step_prefix(wf, s.id@) + "requires capability "@ + quoted(cap)
                                + " but no agent provides it"@
                        },
                        None,
                    ),
                ]
            },
            _ => Seq::empty(),
        },
        StepRule::Builtin { wf } => {
            let p = step_prefix(wf, s.id@);
            let conflict = if s.builtin is Some && s.required_capability is Some {
                seq![
                    chk(
                        "step_semantic_conflict"@,
                        Severity::Error,
                        false,
                        p + "cannot define both builtin and required_capability"@,
                        None,
                    ),
                ]
            } else {
                Seq::empty()
            };
            let named = match s.builtin {
                Some(b) => {
                    let known = is_known_builtin(b@);
                    seq![
                        chk(
                            "builtin_unknown"@,
                            Severity::Error,
                            known,
                            if known {
                                p + "builtin "@ + quoted(b@) + " is known"@
                            } else {
                                p + "builtin "@ + quoted(b@) + " is not a known builtin"@
                            },
                            Some(known_builtins_context()),
                        ),
                    ]
                },
                None => Seq::empty(),
            };
            let meaning = match semantic(s) {
                SemanticView::Invalid(e) => seq![
                    chk("step_semantic_invalid"@, Severity::Error, false, p + e, None),
                ],
                k => {
                    let m = execution_matches(k, s);
                    seq![
                        chk(
                            "execution_mode_mismatch"@,
                            Severity::Error,
                            m,
                            if m {
                                p + "execution mode matches semantic meaning"@
                            } else {
                                p + "execution mode does not match builtin/capability semantics"@
                            },
                            None,
                        ),
                    ]
                },
            };
            conflict + named + meaning
        },
        StepRule::PipeTo { wf, ids } => match s.pipe_to {
            Some(t) => {
                let known = ids.contains(t@);
                seq![
                    chk(
                        "pipe_to_unknown"@,
                        Severity::Error,
                        known,
                        if known {
                            step_prefix(wf, s.id@) + "pipe_to "@ + quoted(t@) + " exists"@
                        } else {
                            step_prefix(wf, s.id@) + "pipe_to "@ + quoted(t@)
                                + " is not a step in this workflow"@
                        },
                        None,
                    ),
                ]
            },
            None => Seq::empty(),
        },
    }
}

/// The checks a rule makes of a list of steps, in order.
pub open spec fn rule_checks(rule: StepRule, v: Seq<WorkflowStepConfig>) -> Seq<CheckView>
    decreases v.len(),
{
    if v.len() == 0 {
        Seq::empty()
    } else {
        rule_checks(rule, v.drop_last()) + step_checks(rule, v.last())
    }
}

proof fn lemma_rule_checks_append(rule: StepRule, a: Seq<WorkflowStepConfig>, b: Seq<WorkflowStepConfig>)
    ensures
        rule_checks(rule, a + b) == rule_checks(rule, a) + rule_checks(rule, b),
    decreases b.len(),
{
    if b.len() == 0 {
        assert(a + b =~= a);
        assert(rule_checks(rule, a) + Seq::<CheckView>::empty() =~= rule_checks(rule, a));
    } else {
        lemma_rule_checks_append(rule, a, b.drop_last());
        assert((a + b).drop_last() =~= a + b.drop_last());
        assert((a + b).last() == b.last());
        assert(rule_checks(rule, a) + rule_checks(rule, b.drop_last()) + step_checks(rule, b.last())
            =~= rule_checks(rule, a) + (rule_checks(rule, b.drop_last()) + step_checks(
            rule,
            b.last(),
        )));
    }
}

proof fn lemma_visit_step(steps: Seq<WorkflowStepConfig>, i: int)
    requires
        0 <= i < steps.len(),
    ensures
        visit(steps.take(i + 1)) == visit(steps.take(i)) + if steps[i].enabled {
            seq![steps[i]] + visit(steps[i].chain_steps@)
        } else {
            Seq::empty()
        },
{
    assert(steps.take(i + 1).drop_last() =~= steps.take(i));
    assert(steps.take(i + 1).last() == steps[i]);
    if steps[i].enabled {
        assert(visit(steps.take(i)) + seq![steps[i]] + visit(steps[i].chain_steps@) =~= visit(
            steps.take(i),
        ) + (seq![steps[i]] + visit(steps[i].chain_steps@)));
    } else {
        assert(visit(steps.take(i)) + Seq::<WorkflowStepConfig>::empty() =~= visit(steps.take(i)));
    }
}

proof fn lemma_rule_checks_single(rule: StepRule, s: WorkflowStepConfig)
    ensures
        rule_checks(rule, seq![s]) == step_checks(rule, s),
{
    let v = seq![s];
    assert(v.drop_last() =~= Seq::<WorkflowStepConfig>::empty());
    assert(rule_checks(rule, v.drop_last()) == Seq::<CheckView>::empty());
    assert(v.last() == s);
    assert(rule_checks(rule, v) == rule_checks(rule, v.drop_last()) + step_checks(rule, v.last()));
    assert(Seq::<CheckView>::empty() + step_checks(rule, s) =~= step_checks(rule, s));
}

fn push_check(out: &mut Vec<CheckResult>, c: CheckResult)
    ensures
        check_views(final(out)@) == check_views(old(out)@).push(c.view_of()),
{
    let ghost before = old(out)@;
    out.push(c);
    assert(check_views(out@) =~= check_views(before).push(c.view_of()));
}

fn new_check(
    rule: &str,
    passed: bool,
    message: String,
    context: Option<String>,
) -> (r: CheckResult)
    ensures
        r.view_of() == chk(
            rule@,
            Severity::Error,
            passed,
            message@,
            match context {
                Some(c) => Some(c@),
                None => None,
            },
        ),
{
    CheckResult { rule: String::from_str(rule), severity: Severity::Error, passed, message, context }
}

/// Whether some agent offers the capability.
pub fn capability_provided(agents: &StrMap<AgentConfig>, cap: &str) -> (r: bool)
    ensures
        r == provided(agents.entries@, cap@),
{
    let mut i: usize = 0;
    while i < agents.entries.len()
        invariant
            i <= agents.entries@.len(),
            forall|k: int|
                0 <= k < i ==> !has_text((#[trigger] agents.entries@[k]).1.capabilities@, cap@),
        decreases agents.entries@.len() - i,
    {
        if contains_text(&agents.entries[i].1.capabilities, cap) {
            assert(has_text(agents.entries@[i as int].1.capabilities@, cap@));
            return true;
        }
        i = i + 1;
    }
    false
}

fn capability_step(
    step: &WorkflowStepConfig,
    wf_id: &str,
    agents: &StrMap<AgentConfig>,
    out: &mut Vec<CheckResult>,
)
    ensures
        check_views(final(out)@) == check_views(old(out)@) + step_checks(
            StepRule::Capability { wf: wf_id@, agents: agents.entries@ },
            *step,
        ),
{
    match resolve_step_semantic_kind(step) {
        Ok(StepSemanticKind::Agent { capability }) => {
            let covered = capability_provided(agents, capability.as_str());
            let p = make_step_prefix(wf_id, step.id.as_str());
            let qc = cat3("\"", capability.as_str(), "\"");
            let m = if covered {
                cat5(p.as_str(), "capability ", qc.as_str(), " is provided", "")
            } else {
                cat5(p.as_str(), "requires capability ", qc.as_str(), " but no agent provides it", "")
            };
            proof {
                assert(""@ =~= Seq::<char>::empty()) by {
                    reveal_strlit("");
                }
            }
            let ghost before = check_views(out@);
            push_check(out, new_check("capability_no_agent", covered, m, None));
            assert(check_views(out@) =~= before + step_checks(
                StepRule::Capability { wf: wf_id@, agents: agents.entries@ },
                *step,
            ));
        },
        _ => {
            assert(check_views(out@) =~= check_views(out@) + Seq::<CheckView>::empty());
        },
    }
}

/// Checks that every capability the steps need is offered by some agent,
/// visiting enabled steps and their chains (see `rule_checks`, `visit`).
pub fn check_steps_capability(
    steps: &Vec<WorkflowStepConfig>,
    wf_id: &str,
    agents: &StrMap<AgentConfig>,
    out: &mut Vec<CheckResult>,
)
    ensures
        check_views(final(out)@) == check_views(old(out)@) + rule_checks(
            StepRule::Capability { wf: wf_id@, agents: agents.entries@ },
            visit(steps@),
        ),
    decreases steps@,
{
    let ghost rule = StepRule::Capability { wf: wf_id@, agents: agents.entries@ };
    let mut i: usize = 0;
    assert(steps@.take(0) =~= Seq::<WorkflowStepConfig>::empty());
    assert(check_views(out@) =~= check_views(old(out)@) + Seq::<CheckView>::empty());
    while i < steps.len()
        invariant
            i <= steps@.len(),
            rule == (StepRule::Capability { wf: wf_id@, agents: agents.entries@ }),
            check_views(out@) == check_views(old(out)@) + rule_checks(rule, visit(steps@.take(i as int))),
        decreases steps@.len() - i,
    {
        let step = &steps[i];
        proof {
            lemma_visit_step(steps@, i as int);
        }
        if step.enabled {
            let ghost before = check_views(out@);
            capability_step(step, wf_id, agents, out);
            let ghost mid = check_views(out@);
            if step.chain_steps.len() > 0 {
                proof {
                    assert(decreases_to!(steps@ => steps@[i as int]));
                }
                check_steps_capability(&step.chain_steps, wf_id, agents, out);
            } else {
                assert(step.chain_steps@ =~= Seq::<WorkflowStepConfig>::empty());
                assert(check_views(out@) =~= mid + rule_checks(rule, visit(step.chain_steps@)));
            }
            proof {
                let vi = visit(steps@.take(i as int));
                lemma_rule_checks_single(rule, *step);
                lemma_rule_checks_append(rule, seq![*step], visit(step.chain_steps@));
                lemma_rule_checks_append(rule, vi, seq![*step] + visit(step.chain_steps@));
                assert(check_views(out@) =~= check_views(old(out)@) + rule_checks(
                    rule,
                    visit(steps@.take(i + 1)),
                ));
            }
        } else {
            assert(visit(steps@.take(i + 1)) =~= visit(steps@.take(i as int)));
        }
        i = i + 1;
    }
    assert(steps@.take(steps@.len() as int) =~= steps@);
}

} // verus!

verus! {

fn execution_matches_exec(k: &StepSemanticKind, step: &WorkflowStepConfig) -> (r: bool)
    ensures
        r == execution_matches(semantic_view_of(Ok(*k)), *step),
{
    match k {
        StepSemanticKind::Builtin { name } => match &step.behavior.execution {
            ExecutionMode::Builtin { name: n } => str_eq(n.as_str(), name.as_str()),
            _ => false,
        },
        StepSemanticKind::Agent { .. } => match &step.behavior.execution {
            ExecutionMode::Agent => true,
            _ => false,
        },
        StepSemanticKind::Command => match &step.behavior.execution {
            ExecutionMode::Builtin { name: n } => str_eq(n.as_str(), step.id.as_str()),
            _ => false,
        },
        StepSemanticKind::Chain => match &step.behavior.execution {
            ExecutionMode::Chain => true,
            _ => false,
        },
    }
}

fn builtin_step(step: &WorkflowStepConfig, wf_id: &str, out: &mut Vec<CheckResult>)
    ensures
        check_views(final(out)@) == check_views(old(out)@) + step_checks(
            StepRule::Builtin { wf: wf_id@ },
            *step,
        ),
{
    let p = make_step_prefix(wf_id, step.id.as_str());
    let ghost pv = p@;
    let ghost c0 = check_views(out@);
    if step.builtin.is_some() && step.required_capability.is_some() {
        let m = crate::text::concat_str(
            p.as_str(),
            "cannot define both builtin and required_capability",
        );
        push_check(out, new_check("step_semantic_conflict", false, m, None));
    }
    let ghost c1 = check_views(out@);
    match &step.builtin {
        Some(b) => {
            let known = is_known_builtin_step_name(b.as_str());
            let qb = cat3("\"", b.as_str(), "\"");
            let m = if known {
                cat5(p.as_str(), "builtin ", qb.as_str(), " is known", "")
            } else {
                cat5(p.as_str(), "builtin ", qb.as_str(), " is not a known builtin", "")
            };
            proof {
                reveal_strlit("");
                assert(""@ =~= Seq::<char>::empty());
            }
            let ctx = String::from_str(
                "known builtins: [\"init_once\", \"loop_guard\", \"ticket_scan\", \"self_test\"]",
            );
            push_check(out, new_check("builtin_unknown", known, m, Some(ctx)));
        },
        None => {},
    }
    let ghost c2 = check_views(out@);
    match resolve_step_semantic_kind(step) {
        Err(e) => {
            let m = crate::text::concat_str(p.as_str(), e.as_str());
            push_check(out, new_check("step_semantic_invalid", false, m, None));
        },
        Ok(k) => {
            let matched = execution_matches_exec(&k, step);
            let m = if matched {
                crate::text::concat_str(p.as_str(), "execution mode matches semantic meaning")
            } else {
                crate::text::concat_str(
                    p.as_str(),
                    "execution mode does not match builtin/capability semantics",
                )
            };
            push_check(out, new_check("execution_mode_mismatch", matched, m, None));
        },
    }
    proof {
        let rule = StepRule::Builtin { wf: wf_id@ };
        let sc = step_checks(rule, *step);
        assert(check_views(out@) =~= c0 + sc);
    }
}

/// Checks builtin names and execution modes of the steps, visiting enabled
/// steps and their chains (see `rule_checks`, `visit`).
pub fn check_steps_builtin(steps: &Vec<WorkflowStepConfig>, wf_id: &str, out: &mut Vec<CheckResult>)
    ensures
        check_views(final(out)@) == check_views(old(out)@) + rule_checks(
            StepRule::Builtin { wf: wf_id@ },
            visit(steps@),
        ),
    decreases steps@,
{
    let ghost rule = StepRule::Builtin { wf: wf_id@ };
    let mut i: usize = 0;
    assert(steps@.take(0) =~= Seq::<WorkflowStepConfig>::empty());
    assert(check_views(out@) =~= check_views(old(out)@) + Seq::<CheckView>::empty());
    while i < steps.len()
        invariant
            i <= steps@.len(),
            rule == (StepRule::Builtin { wf: wf_id@ }),
            check_views(out@) == check_views(old(out)@) + rule_checks(rule, visit(steps@.take(i as int))),
        decreases steps@.len() - i,
    {
        let step = &steps[i];
        proof {
            lemma_visit_step(steps@, i as int);
        }
        if step.enabled {
            builtin_step(step, wf_id, out);
            let ghost mid = check_views(out@);
            if step.chain_steps.len() > 0 {
                proof {
                    assert(decreases_to!(steps@ => steps@[i as int]));
                }
                check_steps_builtin(&step.chain_steps, wf_id, out);
            } else {
                assert(step.chain_steps@ =~= Seq::<WorkflowStepConfig>::empty());
                assert(check_views(out@) =~= mid + rule_checks(rule, visit(step.chain_steps@)));
            }
            proof {
                let vi = visit(steps@.take(i as int));
                lemma_rule_checks_single(rule, *step);
                lemma_rule_checks_append(rule, seq![*step], visit(step.chain_steps@));
                lemma_rule_checks_append(rule, vi, seq![*step] + visit(step.chain_steps@));
                assert(check_views(out@) =~= check_views(old(out)@) + rule_checks(
                    rule,
                    visit(steps@.take(i + 1)),
                ));
            }
        } else {
            assert(visit(steps@.take(i + 1)) =~= visit(steps@.take(i as int)));
        }
        i = i + 1;
    }
    assert(steps@.take(steps@.len() as int) =~= steps@);
}

/// The ids `pipe_to` may name: each step's id followed by the ids of its
/// direct chain steps.
pub open spec fn step_id_list(steps: Seq<WorkflowStepConfig>) -> Seq<Seq<char>>
    decreases steps.len(),
{
    if steps.len() == 0 {
        Seq::empty()
    } else {
        step_id_list(steps.drop_last()) + seq![steps.last().id@] + steps.last().chain_steps@.map_values(
            |c: WorkflowStepConfig| c.id@,
        )
    }
}

/// The views of a list of strings.
pub open spec fn texts(v: Seq<String>) -> Seq<Seq<char>> {
    v.map_values(|s: String| s@)
}

/// Collects the ids `pipe_to` may name (see `step_id_list`).
pub fn collect_step_ids(steps: &Vec<WorkflowStepConfig>) -> (r: Vec<String>)
    ensures
        texts(r@) == step_id_list(steps@),
{
    let mut ids: Vec<String> = Vec::new();
    let mut i: usize = 0;
    assert(steps@.take(0) =~= Seq::<WorkflowStepConfig>::empty());
    assert(texts(ids@) =~= Seq::<Seq<char>>::empty());
    while i < steps.len()
        invariant
            i <= steps@.len(),
            texts(ids@) == step_id_list(steps@.take(i as int)),
        decreases steps@.len() - i,
    {
        assert(steps@.take(i + 1).drop_last() =~= steps@.take(i as int));
        assert(steps@.take(i + 1).last() == steps@[i as int]);
        let step = &steps[i];
        let ghost base = texts(ids@);
        ids.push(String::from_str(step.id.as_str()));
        assert(texts(ids@) =~= base + seq![step.id@]);
        let mut j: usize = 0;
        let ghost chain = step.chain_steps@;
        let ghost with_self = texts(ids@);
        assert(chain.take(0).map_values(|c: WorkflowStepConfig| c.id@) =~= Seq::<Seq<char>>::empty());
        while j < step.chain_steps.len()
            invariant
                j <= chain.len(),
                chain == step.chain_steps@,
                texts(ids@) == with_self + chain.take(j as int).map_values(|c: WorkflowStepConfig| c.id@),
            decreases chain.len() - j,
        {
            let ghost b2 = texts(ids@);
            ids.push(String::from_str(step.chain_steps[j].id.as_str()));
            assert(chain.take(j + 1).map_values(|c: WorkflowStepConfig| c.id@) =~= chain.take(
                j as int,
            ).map_values(|c: WorkflowStepConfig| c.id@).push(chain[j as int].id@));
            assert(texts(ids@) =~= b2.push(chain[j as int].id@));
            j = j + 1;
        }
        assert(chain.take(chain.len() as int) =~= chain);
        assert(texts(ids@) =~= step_id_list(steps@.take(i + 1)));
        i = i + 1;
    }
    assert(steps@.take(steps@.len() as int) =~= steps@);
    ids
}

proof fn lemma_has_text_texts(v: Seq<String>, s: Seq<char>)
    ensures
        has_text(v, s) == texts(v).contains(s),
{
    if has_text(v, s) {
        let i = choose|i: int| 0 <= i < v.len() && (#[trigger] v[i])@ == s;
        assert(texts(v)[i] == s);
    }
    if texts(v).contains(s) {
        let i = choose|i: int| 0 <= i < texts(v).len() && texts(v)[i] == s;
        assert(v[i]@ == s);
    }
}

fn pipe_step(step: &WorkflowStepConfig, wf_id: &str, ids: &Vec<String>, out: &mut Vec<CheckResult>)
    ensures
        check_views(final(out)@) == check_views(old(out)@) + step_checks(
            StepRule::PipeTo { wf: wf_id@, ids: texts(ids@) },
            *step,
        ),
{
    match &step.pipe_to {
        Some(t) => {
            let known = contains_text(ids, t.as_str());
            proof {
                lemma_has_text_texts(ids@, t@);
            }
            let p = make_step_prefix(wf_id, step.id.as_str());
            let qt = cat3("\"", t.as_str(), "\"");
            let m = if known {
                cat5(p.as_str(), "pipe_to ", qt.as_str(), " exists", "")
            } else {
                cat5(p.as_str(), "pipe_to ", qt.as_str(), " is not a step in this workflow", "")
            };
            proof {
                reveal_strlit("");
                assert(""@ =~= Seq::<char>::empty());
            }
            let ghost before = check_views(out@);
            push_check(out, new_check("pipe_to_unknown", known, m, None));
            assert(check_views(out@) =~= before + step_checks(
                StepRule::PipeTo { wf: wf_id@, ids: texts(ids@) },
                *step,
            ));
        },
        None => {
            assert(check_views(out@) =~= check_views(out@) + Seq::<CheckView>::empty());
        },
    }
}

/// Checks that every `pipe_to` names a step of the workflow, visiting
/// enabled steps and their chains (see `rule_checks`, `visit`).
pub fn check_steps_pipe_to(
    steps: &Vec<WorkflowStepConfig>,
    wf_id: &str,
    ids: &Vec<String>,
    out: &mut Vec<CheckResult>,
)
    ensures
        check_views(final(out)@) == check_views(old(out)@) + rule_checks(
            StepRule::PipeTo { wf: wf_id@, ids: texts(ids@) },
            visit(steps@),
        ),
    decreases steps@,
{
    let ghost rule = StepRule::PipeTo { wf: wf_id@, ids: texts(ids@) };
    let mut i: usize = 0;
    assert(steps@.take(0) =~= Seq::<WorkflowStepConfig>::empty());
    assert(check_views(out@) =~= check_views(old(out)@) + Seq::<CheckView>::empty());
    while i < steps.len()
        invariant
            i <= steps@.len(),
            rule == (StepRule::PipeTo { wf: wf_id@, ids: texts(ids@) }),
            check_views(out@) == check_views(old(out)@) + rule_checks(rule, visit(steps@.take(i as int))),
        decreases steps@.len() - i,
    {
        let step = &steps[i];
        proof {
            lemma_visit_step(steps@, i as int);
        }
        if step.enabled {
            pipe_step(step, wf_id, ids, out);
            let ghost mid = check_views(out@);
            if step.chain_steps.len() > 0 {
                proof {
                    assert(decreases_to!(steps@ => steps@[i as int]));
                }
                check_steps_pipe_to(&step.chain_steps, wf_id, ids, out);
            } else {
                assert(step.chain_steps@ =~= Seq::<WorkflowStepConfig>::empty());
                assert(check_views(out@) =~= mid + rule_checks(rule, visit(step.chain_steps@)));
            }
            proof {
                let vi = visit(steps@.take(i as int));
                lemma_rule_checks_single(rule, *step);
                lemma_rule_checks_append(rule, seq![*step], visit(step.chain_steps@));
                lemma_rule_checks_append(rule, vi, seq![*step] + visit(step.chain_steps@));
                assert(check_views(out@) =~= check_views(old(out)@) + rule_checks(
                    rule,
                    visit(steps@.take(i + 1)),
                ));
            }
        } else {
            assert(visit(steps@.take(i + 1)) =~= visit(steps@.take(i as int)));
        }
        i = i + 1;
    }
    assert(steps@.take(steps@.len() as int) =~= steps@);
}

} // verus!

verus! {

/// A character of a template variable's name.
pub open spec fn is_var_char(c: char) -> bool {
    is_ascii_alpha(c) || is_digit(c) || c == '_'
}

/// Length of the run of name characters at the start of `s`.
pub open spec fn var_len(s: Seq<char>) -> nat
    decreases s.len(),
{
    if s.len() > 0 && is_var_char(s[0]) {
        1 + var_len(s.skip(1))
    } else {
        0
    }
}

/// The names of the `{name}` placeholders of a template, in order: a `{`,
/// one or more name characters, a `}`.
pub open spec fn template_vars(s: Seq<char>) -> Seq<Seq<char>>
    decreases s.len(),
{
    if s.len() == 0 {
        Seq::empty()
    } else {
        let n = var_len(s.skip(1)) as int;
        if s[0] == '{' && n > 0 && n + 1 < s.len() && s[n + 1] == '}' {
            seq![s.subrange(1, n + 1)] + template_vars(s.skip(n + 2))
        } else {
            template_vars(s.skip(1))
        }
    }
}

proof fn lemma_var_len_bound(s: Seq<char>)
    ensures
        var_len(s) <= s.len(),
        forall|k: int| 0 <= k < var_len(s) ==> is_var_char(#[trigger] s[k]),
        var_len(s) < s.len() ==> !is_var_char(s[var_len(s) as int]),
    decreases s.len(),
{
    if s.len() > 0 && is_var_char(s[0]) {
        lemma_var_len_bound(s.skip(1));
        assert forall|k: int| 0 <= k < var_len(s) implies is_var_char(#[trigger] s[k]) by {
            if k > 0 {
                assert(s[k] == s.skip(1)[k - 1]);
            }
        }
        if var_len(s) < s.len() {
            assert(s[var_len(s) as int] == s.skip(1)[var_len(s) - 1]);
        }
    }
}

proof fn lemma_var_len_exact(s: Seq<char>, n: int)
    requires
        0 <= n <= s.len(),
        forall|k: int| 0 <= k < n ==> is_var_char(#[trigger] s[k]),
        n == s.len() || !is_var_char(s[n]),
    ensures
        var_len(s) == n,
    decreases s.len(),
{
    if n > 0 {
        let t = s.skip(1);
        assert forall|k: int| 0 <= k < n - 1 implies is_var_char(#[trigger] t[k]) by {
            assert(t[k] == s[k + 1]);
        }
        if n - 1 < t.len() {
            assert(t[n - 1] == s[n]);
        }
        lemma_var_len_exact(t, n - 1);
    }
}

fn is_var_char_exec(c: char) -> (r: bool)
    ensures
        r == is_var_char(c),
{
    ('a' <= c && c <= 'z') || ('A' <= c && c <= 'Z') || ('0' <= c && c <= '9') || c == '_'
}

/// The `{name}` placeholders of a template, with their braces.
pub fn find_template_vars(template: &str) -> (r: Vec<String>)
    ensures
        texts(r@) == template_vars(template@).map_values(|n: Seq<char>| "{"@ + n + "}"@),
{
    let v = chars_of(template);
    let n = v.len();
    let mut out: Vec<String> = Vec::new();
    let mut i: usize = 0;
    assert(v@.skip(0) =~= v@);
    assert(texts(out@) =~= Seq::<Seq<char>>::empty());
    while i < n
        invariant
            n == v@.len(),
            v@ == template@,
            i <= n,
            template_vars(template@).map_values(|x: Seq<char>| "{"@ + x + "}"@) == texts(out@)
                + template_vars(v@.skip(i as int)).map_values(|x: Seq<char>| "{"@ + x + "}"@),
        decreases n - i,
    {
        let ghost s = v@.skip(i as int);
        let mut j: usize = i + 1;
        while j < n && is_var_char_exec(v[j])
            invariant
                n == v@.len(),
                i < n,
                i + 1 <= j <= n,
                forall|k: int| i + 1 <= k < j ==> is_var_char(#[trigger] v@[k]),
            decreases n - j,
        {
            j = j + 1;
        }
        proof {
            let t = s.skip(1);
            assert(t =~= v@.skip(i + 1));
            assert forall|k: int| 0 <= k < j - i - 1 implies is_var_char(#[trigger] t[k]) by {
                assert(t[k] == v@[i + 1 + k]);
            }
            if j - i - 1 < t.len() {
                assert(t[j - i - 1] == v@[j as int]);
            }
            lemma_var_len_exact(t, j - i - 1);
            assert(s[0] == v@[i as int]);
        }
        let len = j - i - 1;
        if v[i] == '{' && len > 0 && j < n && v[j] == '}' {
            let name = crate::scan::slice_chars(&v, i + 1, j);
            let mut with_braces: Vec<char> = Vec::new();
            with_braces.push('{');
            crate::text::extend_chars(&mut with_braces, name.as_slice());
            with_braces.push('}');
            proof {
                reveal_strlit("{");
                reveal_strlit("}");
                assert(s[len + 1] == v@[j as int]);
                assert(s.subrange(1, len + 1) =~= name@);
                assert(s.skip(len + 2) =~= v@.skip(j + 1));
                assert(with_braces@ =~= "{"@ + name@ + "}"@);
            }
            let ghost before = texts(out@);
            out.push(string_from(with_braces.as_slice()));
            proof {
                let f = |x: Seq<char>| "{"@ + x + "}"@;
                let rest = template_vars(v@.skip(j + 1));
                assert(template_vars(s) == seq![name@] + rest);
                assert((seq![name@] + rest).map_values(f) =~= seq![f(name@)] + rest.map_values(f));
                assert(texts(out@) =~= before.push(f(name@)));
                assert(before + (seq![f(name@)] + rest.map_values(f)) =~= texts(out@)
                    + rest.map_values(f));
            }
            i = j + 1;
        } else {
            proof {
                assert(s.skip(1) =~= v@.skip(i + 1));
                if s[0] == '{' && len > 0 && len + 1 < s.len() {
                    assert(s[len + 1] == v@[j as int]);
                }
            }
            i = i + 1;
        }
    }
    assert(v@.skip(i as int) =~= Seq::<char>::empty());
    assert(template_vars(Seq::<char>::empty()).map_values(|x: Seq<char>| "{"@ + x + "}"@)
        =~= Seq::<Seq<char>>::empty());
    assert(texts(out@) + Seq::<Seq<char>>::empty() =~= texts(out@));
    out
}

} // verus!

verus! {

/// Variables every template may use.
pub open spec fn system_vars() -> Seq<Seq<char>> {
    seq![
        "task_id"@,
        "item_id"@,
        "cycle"@,
        "phase"@,
        "workspace_root"@,
        "source_tree"@,
        "build_output"@,
        "test_output"@,
        "diff"@,
        "build_errors"@,
        "test_failures"@,
        "rel_path"@,
    ]
}

fn is_system_var(name: &str) -> (r: bool)
    ensures
        r == system_vars().contains(name@),
{
    let r = str_eq(name, "task_id") || str_eq(name, "item_id") || str_eq(name, "cycle") || str_eq(
        name,
        "phase",
    ) || str_eq(name, "workspace_root") || str_eq(name, "source_tree") || str_eq(
        name,
        "build_output",
    ) || str_eq(name, "test_output") || str_eq(name, "diff") || str_eq(name, "build_errors")
        || str_eq(name, "test_failures") || str_eq(name, "rel_path");
    proof {
        let sv = system_vars();
        if r {
            if name@ == "task_id"@ { assert(sv[0] == name@); }
            if name@ == "item_id"@ { assert(sv[1] == name@); }
            if name@ == "cycle"@ { assert(sv[2] == name@); }
            if name@ == "phase"@ { assert(sv[3] == name@); }
            if name@ == "workspace_root"@ { assert(sv[4] == name@); }
            if name@ == "source_tree"@ { assert(sv[5] == name@); }
            if name@ == "build_output"@ { assert(sv[6] == name@); }
            if name@ == "test_output"@ { assert(sv[7] == name@); }
            if name@ == "diff"@ { assert(sv[8] == name@); }
            if name@ == "build_errors"@ { assert(sv[9] == name@); }
            if name@ == "test_failures"@ { assert(sv[10] == name@); }
            if name@ == "rel_path"@ { assert(sv[11] == name@); }
        } else {
            assert forall|k: int| 0 <= k < sv.len() implies sv[k] != name@ by {}
        }
    }
    r
}

/// The pipeline variables of a step id: its output and its output path.
pub open spec fn output_vars(id: Seq<char>) -> Seq<Seq<char>> {
    seq![id + "_output"@, id + "_output_path"@]
}

/// The pipeline variables of chain steps.
pub open spec fn chain_vars(chain: Seq<WorkflowStepConfig>) -> Seq<Seq<char>>
    decreases chain.len(),
{
    if chain.len() == 0 {
        Seq::empty()
    } else {
        chain_vars(chain.drop_last()) + output_vars(chain.last().id@)
    }
}

/// The pipeline variables a workflow's steps and their direct chain steps define.
pub open spec fn pipeline_var_names(steps: Seq<WorkflowStepConfig>) -> Seq<Seq<char>>
    decreases steps.len(),
{
    if steps.len() == 0 {
        Seq::empty()
    } else {
        pipeline_var_names(steps.drop_last()) + output_vars(steps.last().id@) + chain_vars(
            steps.last().chain_steps@,
        )
    }
}

fn push_output_vars(names: &mut Vec<String>, id: &str)
    ensures
        texts(final(names)@) == texts(old(names)@) + output_vars(id@),
{
    let ghost before = texts(names@);
    names.push(crate::text::concat_str(id, "_output"));
    names.push(crate::text::concat_str(id, "_output_path"));
    assert(texts(names@) =~= before + output_vars(id@));
}

/// Collects the pipeline variables of a workflow (see `pipeline_var_names`).
pub fn collect_pipeline_vars(steps: &Vec<WorkflowStepConfig>) -> (r: Vec<String>)
    ensures
        texts(r@) == pipeline_var_names(steps@),
{
    let mut names: Vec<String> = Vec::new();
    let mut i: usize = 0;
    assert(steps@.take(0) =~= Seq::<WorkflowStepConfig>::empty());
    assert(texts(names@) =~= Seq::<Seq<char>>::empty());
    while i < steps.len()
        invariant
            i <= steps@.len(),
            texts(names@) == pipeline_var_names(steps@.take(i as int)),
        decreases steps@.len() - i,
    {
        assert(steps@.take(i + 1).drop_last() =~= steps@.take(i as int));
        assert(steps@.take(i + 1).last() == steps@[i as int]);
        let step = &steps[i];
        push_output_vars(&mut names, step.id.as_str());
        let ghost with_self = texts(names@);
        let ghost chain = step.chain_steps@;
        let mut j: usize = 0;
        assert(chain.take(0) =~= Seq::<WorkflowStepConfig>::empty());
        assert(texts(names@) =~= with_self + chain_vars(chain.take(0)));
        while j < step.chain_steps.len()
            invariant
                j <= chain.len(),
                chain == step.chain_steps@,
                texts(names@) == with_self + chain_vars(chain.take(j as int)),
            decreases chain.len() - j,
        {
            assert(chain.take(j + 1).drop_last() =~= chain.take(j as int));
            assert(chain.take(j + 1).last() == chain[j as int]);
            push_output_vars(&mut names, step.chain_steps[j].id.as_str());
            assert(texts(names@) =~= with_self + chain_vars(chain.take(j + 1)));
            j = j + 1;
        }
        assert(chain.take(chain.len() as int) =~= chain);
        assert(texts(names@) =~= pipeline_var_names(steps@.take(i + 1)));
        i = i + 1;
    }
    assert(steps@.take(steps@.len() as int) =~= steps@);
    names
}

/// The system variables a template may use: `task_id`, `item_id`, `cycle`,
/// `phase`, `workspace_root`, `source_tree`, `build_output`, `test_output`,
/// `diff`, `build_errors`, `test_failures` and `rel_path`.
pub open spec fn known_system_var(v: Seq<char>) -> bool {
    v == "task_id"@ || v == "item_id"@ || v == "cycle"@ || v == "phase"@ || v == "workspace_root"@
        || v == "source_tree"@ || v == "build_output"@ || v == "test_output"@ || v == "diff"@
        || v == "build_errors"@ || v == "test_failures"@ || v == "rel_path"@
}

/// A template whose placeholders are all system or pipeline variables gets
/// no warning, and no template gets more warnings than it has placeholders.
pub proof fn law_known_vars_not_warned(name: Seq<char>, vars: Seq<Seq<char>>, pvars: Seq<Seq<char>>)
    ensures
        (forall|i: int| 0 <= i < vars.len() ==> known_system_var(#[trigger] vars[i]) || pvars.contains(vars[i]))
            ==> var_checks(name, vars, pvars).len() == 0,
        var_checks(name, vars, pvars).len() <= vars.len(),
    decreases vars.len(),
{
    if vars.len() > 0 {
        law_known_vars_not_warned(name, vars.drop_last(), pvars);
        let v = vars.last();
        let sv = system_vars();
        if known_system_var(v) {
            if v == "task_id"@ { assert(sv[0] == v); }
            if v == "item_id"@ { assert(sv[1] == v); }
            if v == "cycle"@ { assert(sv[2] == v); }
            if v == "phase"@ { assert(sv[3] == v); }
            if v == "workspace_root"@ { assert(sv[4] == v); }
            if v == "source_tree"@ { assert(sv[5] == v); }
            if v == "build_output"@ { assert(sv[6] == v); }
            if v == "test_output"@ { assert(sv[7] == v); }
            if v == "diff"@ { assert(sv[8] == v); }
            if v == "build_errors"@ { assert(sv[9] == v); }
            if v == "test_failures"@ { assert(sv[10] == v); }
            if v == "rel_path"@ { assert(sv[11] == v); }
            assert(sv.contains(v));
        }
        if forall|i: int| 0 <= i < vars.len() ==> known_system_var(#[trigger] vars[i]) || pvars.contains(vars[i]) {
            assert forall|i: int| 0 <= i < vars.drop_last().len() implies known_system_var(
                #[trigger] vars.drop_last()[i],
            ) || pvars.contains(vars.drop_last()[i]) by {
                assert(vars.drop_last()[i] == vars[i]);
            }
            assert(known_system_var(vars[vars.len() - 1]) || pvars.contains(vars[vars.len() - 1]));
        }
    }
}

/// Warnings for the placeholders of one template that are neither system
/// nor pipeline variables.
pub open spec fn var_checks(name: Seq<char>, vars: Seq<Seq<char>>, pvars: Seq<Seq<char>>) -> Seq<
    CheckView,
>
    decreases vars.len(),
{
    if vars.len() == 0 {
        Seq::empty()
    } else {
        let v = vars.last();
        let rest = var_checks(name, vars.drop_last(), pvars);
        if system_vars().contains(v) || pvars.contains(v) {
            rest
        } else {
            rest.push(
                chk(
                    "template_unknown_var"@,
                    Severity::Warning,
                    false,
                    "step_template "@ + quoted(name) + ": prompt references {"@ + v
                        + "} — not a known system variable (may come from pipeline)"@,
                    None,
                ),
            )
        }
    }
}

/// The unknown-variable warnings of all templates, for one workflow's pipeline variables.
pub open spec fn template_checks(
    templates: Seq<(String, StepTemplateConfig)>,
    pvars: Seq<Seq<char>>,
) -> Seq<CheckView>
    decreases templates.len(),
{
    if templates.len() == 0 {
        Seq::empty()
    } else {
        let (name, t) = templates.last();
        template_checks(templates.drop_last(), pvars) + var_checks(
            name@,
            template_vars(t.prompt@),
            pvars,
        )
    }
}

fn check_template(
    name: &str,
    prompt: &str,
    pvars: &Vec<String>,
    out: &mut Vec<CheckResult>,
)
    ensures
        check_views(final(out)@) == check_views(old(out)@) + var_checks(
            name@,
            template_vars(prompt@),
            texts(pvars@),
        ),
{
    let found = find_template_vars(prompt);
    let ghost vars = template_vars(prompt@);
    let ghost f = |x: Seq<char>| "{"@ + x + "}"@;
    assert(texts(found@) == vars.map_values(f));
    let mut k: usize = 0;
    assert(vars.take(0) =~= Seq::<Seq<char>>::empty());
    assert(check_views(out@) =~= check_views(old(out)@) + Seq::<CheckView>::empty());
    while k < found.len()
        invariant
            k <= found@.len(),
            found@.len() == vars.len(),
            texts(found@) == vars.map_values(f),
            f == (|x: Seq<char>| "{"@ + x + "}"@),
            check_views(out@) == check_views(old(out)@) + var_checks(
                name@,
                vars.take(k as int),
                texts(pvars@),
            ),
        decreases found@.len() - k,
    {
        assert(vars.take(k + 1).drop_last() =~= vars.take(k as int));
        assert(vars.take(k + 1).last() == vars[k as int]);
        let with_braces = &found[k];
        let ghost v = vars[k as int];
        assert(texts(found@)[k as int] == found@[k as int]@);
        assert(vars.map_values(f)[k as int] == f(vars[k as int]));
        assert(with_braces@ == f(v));
        assert(with_braces@ =~= seq!['{'] + v + seq!['}']) by {
            reveal_strlit("{");
            reveal_strlit("}");
        }
        let wb = chars_of(with_braces.as_str());
        let inner_v = crate::scan::slice_chars(&wb, 1, wb.len() - 1);
        assert(inner_v@ =~= v);
        let inner = string_from(inner_v.as_slice());
        let is_sys = is_system_var(inner.as_str());
        let is_pipe = contains_text(pvars, inner.as_str());
        proof {
            lemma_has_text_texts(pvars@, v);
        }
        if !is_sys && !is_pipe {
            let qn = cat3("\"", name, "\"");
            let m = cat5(
                "step_template ",
                qn.as_str(),
                ": prompt references ",
                with_braces.as_str(),
                " — not a known system variable (may come from pipeline)",
            );
            proof {
                reveal_strlit("{");
                reveal_strlit("}");
                reveal_strlit(": prompt references ");
                reveal_strlit(": prompt references {");
                reveal_strlit(" — not a known system variable (may come from pipeline)");
                reveal_strlit("} — not a known system variable (may come from pipeline)");
                assert(m@ =~= "step_template "@ + quoted(name@) + ": prompt references {"@ + v
                    + "} — not a known system variable (may come from pipeline)"@);
            }
            let c = CheckResult {
                rule: String::from_str("template_unknown_var"),
                severity: Severity::Warning,
                passed: false,
                message: m,
                context: None,
            };
            push_check(out, c);
        }
        assert(check_views(out@) =~= check_views(old(out)@) + var_checks(
            name@,
            vars.take(k + 1),
            texts(pvars@),
        ));
        k = k + 1;
    }
    assert(vars.take(vars.len() as int) =~= vars);
}

/// Number of enabled steps.
pub open spec fn count_enabled(steps: Seq<WorkflowStepConfig>) -> nat
    decreases steps.len(),
{
    if steps.len() == 0 {
        0
    } else {
        count_enabled(steps.drop_last()) + if steps.last().enabled {
            1nat
        } else {
            0nat
        }
    }
}

/// The check that a workflow has at least one enabled step.
pub open spec fn empty_check(id: Seq<char>, steps: Seq<WorkflowStepConfig>) -> CheckView {
    let n = count_enabled(steps);
    chk(
        "empty_workflow"@,
        Severity::Warning,
        n > 0,
        if n == 0 {
            "workflow "@ + quoted(id) + ": has 0 enabled steps"@
        } else {
            "workflow "@ + quoted(id) + ": has "@ + decimal(n) + " enabled steps"@
        },
        None,
    )
}

proof fn lemma_count_enabled_bound(steps: Seq<WorkflowStepConfig>)
    ensures
        count_enabled(steps) <= steps.len(),
    decreases steps.len(),
{
    if steps.len() > 0 {
        lemma_count_enabled_bound(steps.drop_last());
    }
}

fn empty_workflow_check(id: &str, steps: &Vec<WorkflowStepConfig>) -> (r: CheckResult)
    ensures
        r.view_of() == empty_check(id@, steps@),
{
    let mut n: usize = 0;
    let mut i: usize = 0;
    assert(steps@.take(0) =~= Seq::<WorkflowStepConfig>::empty());
    while i < steps.len()
        invariant
            i <= steps@.len(),
            n == count_enabled(steps@.take(i as int)),
        decreases steps@.len() - i,
    {
        proof {
            lemma_count_enabled_bound(steps@.take(i as int));
        }
        assert(steps@.take(i + 1).drop_last() =~= steps@.take(i as int));
        assert(steps@.take(i + 1).last() == steps@[i as int]);
        if steps[i].enabled {
            n = n + 1;
        }
        i = i + 1;
    }
    assert(steps@.take(steps@.len() as int) =~= steps@);
    let qid = cat3("\"", id, "\"");
    let m = if n == 0 {
        cat3("workflow ", qid.as_str(), ": has 0 enabled steps")
    } else {
        let num = u64_to_string(n as u64);
        cat5("workflow ", qid.as_str(), ": has ", num.as_str(), " enabled steps")
    };
    CheckResult {
        rule: String::from_str("empty_workflow"),
        severity: Severity::Warning,
        passed: n > 0,
        message: m,
        context: None,
    }
}

} // verus!

verus! {

/// The workflow-level rules.
#[derive(Clone, Copy, PartialEq, Eq, Structural)]
pub enum WfRuleKind {
    Capability,
    Builtin,
    PipeTo,
    Templates,
    Empty,
}

/// The checks a rule makes of one workflow.
pub open spec fn wf_checks(
    kind: WfRuleKind,
    agents: Seq<(String, AgentConfig)>,
    templates: Seq<(String, StepTemplateConfig)>,
    id: Seq<char>,
    wf: WorkflowConfig,
) -> Seq<CheckView> {
    match kind {
        WfRuleKind::Capability => rule_checks(
            StepRule::Capability { wf: id, agents },
            visit(wf.steps@),
        ),
        WfRuleKind::Builtin => rule_checks(StepRule::Builtin { wf: id }, visit(wf.steps@)),
        WfRuleKind::PipeTo => rule_checks(
            StepRule::PipeTo { wf: id, ids: step_id_list(wf.steps@) },
            visit(wf.steps@),
        ),
        WfRuleKind::Templates => template_checks(templates, pipeline_var_names(wf.steps@)),
        WfRuleKind::Empty => seq![empty_check(id, wf.steps@)],
    }
}

/// A workflow is checked when no filter is given or the filter names it.
pub open spec fn included(filter: Option<Seq<char>>, id: Seq<char>) -> bool {
    match filter {
        None => true,
        Some(f) => f == id,
    }
}

/// The view of an optional string.
pub open spec fn opt_text(o: Option<String>) -> Option<Seq<char>> {
    match o {
        Some(s) => Some(s@),
        None => None,
    }
}

/// The checks a rule makes of all workflows the filter admits, in order.
pub open spec fn workflows_checks(
    kind: WfRuleKind,
    agents: Seq<(String, AgentConfig)>,
    templates: Seq<(String, StepTemplateConfig)>,
    wfs: Seq<(String, WorkflowConfig)>,
    filter: Option<Seq<char>>,
) -> Seq<CheckView>
    decreases wfs.len(),
{
    if wfs.len() == 0 {
        Seq::empty()
    } else {
        let rest = workflows_checks(kind, agents, templates, wfs.drop_last(), filter);
        let (id, wf) = wfs.last();
        if included(filter, id@) {
            rest + wf_checks(kind, agents, templates, id@, wf)
        } else {
            rest
        }
    }
}

/// The workflows named `f`, in order.
pub open spec fn named_workflows(wfs: Seq<(String, WorkflowConfig)>, f: Seq<char>) -> Seq<(String, WorkflowConfig)>
    decreases wfs.len(),
{
    if wfs.len() == 0 {
        Seq::empty()
    } else if wfs.last().0@ == f {
        named_workflows(wfs.drop_last(), f).push(wfs.last())
    } else {
        named_workflows(wfs.drop_last(), f)
    }
}

/// With a workflow filter, a rule checks exactly the workflows the filter
/// names: the same checks as an unfiltered run over those workflows alone.
pub proof fn law_filter_checks_named_workflows(
    kind: WfRuleKind,
    agents: Seq<(String, AgentConfig)>,
    templates: Seq<(String, StepTemplateConfig)>,
    wfs: Seq<(String, WorkflowConfig)>,
    f: Seq<char>,
)
    ensures
        workflows_checks(kind, agents, templates, wfs, Some(f)) == workflows_checks(
            kind,
            agents,
            templates,
            named_workflows(wfs, f),
            None,
        ),
    decreases wfs.len(),
{
    if wfs.len() > 0 {
        law_filter_checks_named_workflows(kind, agents, templates, wfs.drop_last(), f);
        let named = named_workflows(wfs, f);
        if wfs.last().0@ == f {
            assert(named.drop_last() =~= named_workflows(wfs.drop_last(), f));
        }
    }
}

fn check_templates_for(
    templates: &StrMap<StepTemplateConfig>,
    pvars: &Vec<String>,
    out: &mut Vec<CheckResult>,
)
    ensures
        check_views(final(out)@) == check_views(old(out)@) + template_checks(
            templates.entries@,
            texts(pvars@),
        ),
{
    let ghost ts = templates.entries@;
    let mut i: usize = 0;
    assert(ts.take(0) =~= Seq::<(String, StepTemplateConfig)>::empty());
    assert(check_views(out@) =~= check_views(old(out)@) + Seq::<CheckView>::empty());
    while i < templates.entries.len()
        invariant
            i <= ts.len(),
            ts == templates.entries@,
            check_views(out@) == check_views(old(out)@) + template_checks(
                ts.take(i as int),
                texts(pvars@),
            ),
        decreases ts.len() - i,
    {
        assert(ts.take(i + 1).drop_last() =~= ts.take(i as int));
        assert(ts.take(i + 1).last() == ts[i as int]);
        let e = &templates.entries[i];
        check_template(e.0.as_str(), e.1.prompt.as_str(), pvars, out);
        assert(check_views(out@) =~= check_views(old(out)@) + template_checks(
            ts.take(i + 1),
            texts(pvars@),
        ));
        i = i + 1;
    }
    assert(ts.take(ts.len() as int) =~= ts);
}

fn filter_admits(filter: &Option<String>, id: &str) -> (r: bool)
    ensures
        r == included(opt_text(*filter), id@),
{
    match filter {
        None => true,
        Some(f) => str_eq(f.as_str(), id),
    }
}

/// Runs a workflow-level rule over all workflows the filter admits (see
/// `workflows_checks`).
pub fn run_workflow_rule(
    kind: WfRuleKind,
    agents: &StrMap<AgentConfig>,
    templates: &StrMap<StepTemplateConfig>,
    workflows: &StrMap<WorkflowConfig>,
    workflow_filter: &Option<String>,
    out: &mut Vec<CheckResult>,
)
    ensures
        check_views(final(out)@) == check_views(old(out)@) + workflows_checks(
            kind,
            agents.entries@,
            templates.entries@,
            workflows.entries@,
            opt_text(*workflow_filter),
        ),
{
    let ghost wfs = workflows.entries@;
    let ghost filt = opt_text(*workflow_filter);
    let mut i: usize = 0;
    assert(wfs.take(0) =~= Seq::<(String, WorkflowConfig)>::empty());
    assert(check_views(out@) =~= check_views(old(out)@) + Seq::<CheckView>::empty());
    while i < workflows.entries.len()
        invariant
            i <= wfs.len(),
            wfs == workflows.entries@,
            filt == opt_text(*workflow_filter),
            check_views(out@) == check_views(old(out)@) + workflows_checks(
                kind,
                agents.entries@,
                templates.entries@,
                wfs.take(i as int),
                filt,
            ),
        decreases wfs.len() - i,
    {
        assert(wfs.take(i + 1).drop_last() =~= wfs.take(i as int));
        assert(wfs.take(i + 1).last() == wfs[i as int]);
        let e = &workflows.entries[i];
        let id = e.0.as_str();
        let wf = &e.1;
        let ghost before = check_views(out@);
        if filter_admits(workflow_filter, id) {
            match kind {
                WfRuleKind::Capability => check_steps_capability(&wf.steps, id, agents, out),
                WfRuleKind::Builtin => check_steps_builtin(&wf.steps, id, out),
                WfRuleKind::PipeTo => {
                    let ids = collect_step_ids(&wf.steps);
                    check_steps_pipe_to(&wf.steps, id, &ids, out);
                },
                WfRuleKind::Templates => {
                    let pvars = collect_pipeline_vars(&wf.steps);
                    check_templates_for(templates, &pvars, out);
                },
                WfRuleKind::Empty => {
                    let c = empty_workflow_check(id, &wf.steps);
                    push_check(out, c);
                    assert(check_views(out@) =~= before + seq![empty_check(id@, wf.steps@)]);
                },
            }
            assert(check_views(out@) =~= check_views(old(out)@) + workflows_checks(
                kind,
                agents.entries@,
                templates.entries@,
                wfs.take(i + 1),
                filt,
            ));
        }
        i = i + 1;
    }
    assert(wfs.take(wfs.len() as int) =~= wfs);
}

/// Every capability that a checked workflow's steps need is offered by an agent.
pub fn check_capability_coverage(
    agents: &StrMap<AgentConfig>,
    workflows: &StrMap<WorkflowConfig>,
    workflow_filter: &Option<String>,
    out: &mut Vec<CheckResult>,
)
    ensures
        check_views(final(out)@) == check_views(old(out)@) + workflows_checks(
            WfRuleKind::Capability,
            agents.entries@,
            Seq::empty(),
            workflows.entries@,
            opt_text(*workflow_filter),
        ),
{
    let none: StrMap<StepTemplateConfig> = StrMap::new();
    assert(none.entries@ =~= Seq::<(String, StepTemplateConfig)>::empty());
    run_workflow_rule(WfRuleKind::Capability, agents, &none, workflows, workflow_filter, out);
}

/// Builtin names are known and execution modes match step meanings.
pub fn check_builtin_names(
    workflows: &StrMap<WorkflowConfig>,
    workflow_filter: &Option<String>,
    out: &mut Vec<CheckResult>,
)
    ensures
        check_views(final(out)@) == check_views(old(out)@) + workflows_checks(
            WfRuleKind::Builtin,
            Seq::empty(),
            Seq::empty(),
            workflows.entries@,
            opt_text(*workflow_filter),
        ),
{
    let no_agents: StrMap<AgentConfig> = StrMap::new();
    assert(no_agents.entries@ =~= Seq::<(String, AgentConfig)>::empty());
    let none: StrMap<StepTemplateConfig> = StrMap::new();
    assert(none.entries@ =~= Seq::<(String, StepTemplateConfig)>::empty());
    run_workflow_rule(WfRuleKind::Builtin, &no_agents, &none, workflows, workflow_filter, out);
}

/// Every `pipe_to` names a step of its workflow.
pub fn check_pipe_to_refs(
    workflows: &StrMap<WorkflowConfig>,
    workflow_filter: &Option<String>,
    out: &mut Vec<CheckResult>,
)
    ensures
        check_views(final(out)@) == check_views(old(out)@) + workflows_checks(
            WfRuleKind::PipeTo,
            Seq::empty(),
            Seq::empty(),
            workflows.entries@,
            opt_text(*workflow_filter),
        ),
{
    let no_agents: StrMap<AgentConfig> = StrMap::new();
    assert(no_agents.entries@ =~= Seq::<(String, AgentConfig)>::empty());
    let none: StrMap<StepTemplateConfig> = StrMap::new();
    assert(none.entries@ =~= Seq::<(String, StepTemplateConfig)>::empty());
    run_workflow_rule(WfRuleKind::PipeTo, &no_agents, &none, workflows, workflow_filter, out);
}

/// Step templates use only system variables and the checked workflow's
/// pipeline variables.
pub fn check_template_vars(
    step_templates: &StrMap<StepTemplateConfig>,
    workflows: &StrMap<WorkflowConfig>,
    workflow_filter: &Option<String>,
    out: &mut Vec<CheckResult>,
)
    ensures
        check_views(final(out)@) == check_views(old(out)@) + workflows_checks(
            WfRuleKind::Templates,
            Seq::empty(),
            step_templates.entries@,
            workflows.entries@,
            opt_text(*workflow_filter),
        ),
{
    let no_agents: StrMap<AgentConfig> = StrMap::new();
    assert(no_agents.entries@ =~= Seq::<(String, AgentConfig)>::empty());
    run_workflow_rule(
        WfRuleKind::Templates,
        &no_agents,
        step_templates,
        workflows,
        workflow_filter,
        out,
    );
}

/// Every checked workflow has an enabled step.
pub fn check_empty_workflows(
    workflows: &StrMap<WorkflowConfig>,
    workflow_filter: &Option<String>,
    out: &mut Vec<CheckResult>,
)
    ensures
        check_views(final(out)@) == check_views(old(out)@) + workflows_checks(
            WfRuleKind::Empty,
            Seq::empty(),
            Seq::empty(),
            workflows.entries@,
            opt_text(*workflow_filter),
        ),
{
    let no_agents: StrMap<AgentConfig> = StrMap::new();
    assert(no_agents.entries@ =~= Seq::<(String, AgentConfig)>::empty());
    let none: StrMap<StepTemplateConfig> = StrMap::new();
    assert(none.entries@ =~= Seq::<(String, StepTemplateConfig)>::empty());
    run_workflow_rule(WfRuleKind::Empty, &no_agents, &none, workflows, workflow_filter, out);
}

} // verus!
