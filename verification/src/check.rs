//! Preflight cross-reference checks of a configuration: pure logic over the
//! configuration and the set of paths found to exist.
use vstd::prelude::*;
use crate::config::{PromptDelivery, StepBehavior};
use crate::strmap::StrMap;
use crate::text::{concat_str, contains_str, contains_sub, str_eq, chars_of, decimal, u64_to_string};
use crate::spill::{path_join, join_path};

verus! {

/// How serious a failed check is.
#[derive(Clone, Copy, Debug, PartialEq, Eq, Structural)]
pub enum Severity {
    Info,
    Warning,
    Error,
}

/// One check and its outcome.
pub struct CheckResult {
    pub rule: String,
    pub severity: Severity,
    pub passed: bool,
    pub message: String,
    pub context: Option<String>,
}

/// Counts over the checks of a report.
pub struct CheckSummary {
    pub total: u32,
    pub passed: u32,
    pub errors: u32,
    pub warnings: u32,
}

/// All checks and their counts.
pub struct CheckReport {
    pub checks: Vec<CheckResult>,
    pub summary: CheckSummary,
}

/// A check with its texts as character sequences.
pub struct CheckView {
    pub rule: Seq<char>,
    pub severity: Severity,
    pub passed: bool,
    pub message: Seq<char>,
    pub context: Option<Seq<char>>,
}

impl CheckResult {
    pub open spec fn view_of(&self) -> CheckView {
        CheckView {
            rule: self.rule@,
            severity: self.severity,
            passed: self.passed,
            message: self.message@,
            context: match self.context {
                Some(c) => Some(c@),
                None => None,
            },
        }
    }
}

/// The views of a list of checks.
pub open spec fn check_views(v: Seq<CheckResult>) -> Seq<CheckView> {
    v.map_values(|c: CheckResult| c.view_of())
}

/// A check built from its parts.
pub open spec fn chk(
    rule: Seq<char>,
    severity: Severity,
    passed: bool,
    message: Seq<char>,
    context: Option<Seq<char>>,
) -> CheckView {
    CheckView { rule, severity, passed, message, context }
}

fn mk_check(
    rule: &str,
    severity: Severity,
    passed: bool,
    message: String,
    context: Option<String>,
) -> (r: CheckResult)
    ensures
        r.view_of() == chk(
            rule@,
            severity,
            passed,
            message@,
            match context {
                Some(c) => Some(c@),
                None => None,
            },
        ),
{
    CheckResult { rule: String::from_str(rule), severity, passed, message, context }
}

/// Appends a check to `out`.
fn push_check(out: &mut Vec<CheckResult>, c: CheckResult)
    ensures
        check_views(final(out)@) == check_views(old(out)@).push(c.view_of()),
{
    let ghost before = old(out)@;
    out.push(c);
    assert(check_views(out@) =~= check_views(before).push(c.view_of()));
}

/// Three texts, concatenated.
pub fn cat3(a: &str, b: &str, c: &str) -> (r: String)
    ensures
        r@ == a@ + b@ + c@,
{
    let ab = concat_str(a, b);
    concat_str(ab.as_str(), c)
}

/// Five texts, concatenated.
pub fn cat5(a: &str, b: &str, c: &str, d: &str, e: &str) -> (r: String)
    ensures
        r@ == a@ + b@ + c@ + d@ + e@,
{
    let abc = cat3(a, b, c);
    cat3(abc.as_str(), d, e)
}

/// Number of checks that passed.
pub open spec fn count_passed(v: Seq<CheckView>) -> nat
    decreases v.len(),
{
    if v.len() == 0 {
        0
    } else {
        count_passed(v.drop_last()) + if v.last().passed {
            1nat
        } else {
            0nat
        }
    }
}

/// Number of failed checks of a severity.
pub open spec fn count_failed(v: Seq<CheckView>, sev: Severity) -> nat
    decreases v.len(),
{
    if v.len() == 0 {
        0
    } else {
        count_failed(v.drop_last(), sev) + if !v.last().passed && v.last().severity == sev {
            1nat
        } else {
            0nat
        }
    }
}

proof fn lemma_counts_bounded(v: Seq<CheckView>, sev: Severity)
    ensures
        count_passed(v) <= v.len(),
        count_failed(v, sev) <= v.len(),
    decreases v.len(),
{
    if v.len() > 0 {
        lemma_counts_bounded(v.drop_last(), sev);
    }
}

/// Wraps checks into a report with their counts (each count truncated to
/// 32 bits, as a `u32` conversion does).
pub fn build_report(checks: Vec<CheckResult>) -> (r: CheckReport)
    ensures
        check_views(r.checks@) == check_views(checks@),
        r.summary.total == checks@.len() as u32,
        r.summary.passed == count_passed(check_views(checks@)) as u32,
        r.summary.errors == count_failed(check_views(checks@), Severity::Error) as u32,
        r.summary.warnings == count_failed(check_views(checks@), Severity::Warning) as u32,
{
    let ghost cv = check_views(checks@);
    let mut passed: usize = 0;
    let mut errors: usize = 0;
    let mut warnings: usize = 0;
    let mut i: usize = 0;
    assert(cv.take(0) =~= Seq::<CheckView>::empty());
    while i < checks.len()
        invariant
            i <= checks@.len(),
            cv == check_views(checks@),
            passed == count_passed(cv.take(i as int)),
            errors == count_failed(cv.take(i as int), Severity::Error),
            warnings == count_failed(cv.take(i as int), Severity::Warning),
        decreases checks@.len() - i,
    {
        proof {
            lemma_counts_bounded(cv.take(i as int), Severity::Error);
            lemma_counts_bounded(cv.take(i as int), Severity::Warning);
            assert(cv.take(i + 1).drop_last() =~= cv.take(i as int));
            assert(cv.take(i + 1).last() == checks@[i as int].view_of());
        }
        let c = &checks[i];
        if c.passed {
            passed = passed + 1;
        }
        if !c.passed && c.severity == Severity::Error {
            errors = errors + 1;
        }
        if !c.passed && c.severity == Severity::Warning {
            warnings = warnings + 1;
        }
        i = i + 1;
    }
    assert(cv.take(checks@.len() as int) =~= cv);
    let total = checks.len() as u32;
    CheckReport {
        checks,
        summary: CheckSummary {
            total,
            passed: passed as u32,
            errors: errors as u32,
            warnings: warnings as u32,
        },
    }
}

/// A workspace: its root and its QA targets, relative to the root.
pub struct WorkspaceConfig {
    pub root_path: String,
    pub qa_targets: Vec<String>,
    pub ticket_dir: String,
    pub self_referential: bool,
}

/// An agent: its capabilities, its command template, and how it takes its prompt.
pub struct AgentConfig {
    pub capabilities: Vec<String>,
    pub command: String,
    pub prompt_delivery: PromptDelivery,
}

/// A workflow step as configured.
pub struct WorkflowStepConfig {
    pub id: String,
    pub required_capability: Option<String>,
    pub builtin: Option<String>,
    pub enabled: bool,
    pub pipe_to: Option<String>,
    pub command: Option<String>,
    pub chain_steps: Vec<WorkflowStepConfig>,
    pub behavior: StepBehavior,
}

/// A workflow: its steps in order.
pub struct WorkflowConfig {
    pub steps: Vec<WorkflowStepConfig>,
}

/// A step template: its prompt.
pub struct StepTemplateConfig {
    pub prompt: String,
}

/// The resources of one project.
pub struct ProjectConfig {
    pub workspaces: StrMap<WorkspaceConfig>,
    pub agents: StrMap<AgentConfig>,
    pub workflows: StrMap<WorkflowConfig>,
    pub step_templates: StrMap<StepTemplateConfig>,
}

/// The loaded configuration: its projects by id.
pub struct ActiveConfig {
    pub projects: StrMap<ProjectConfig>,
}

/// The project checked when none is named.
pub open spec fn default_project_id() -> Seq<char> {
    "default"@
}

/// Some entry of `v` has the text `s`.
pub open spec fn has_text(v: Seq<String>, s: Seq<char>) -> bool {
    exists|i: int| 0 <= i < v.len() && (#[trigger] v[i])@ == s
}

/// Whether some entry of `v` has the text `s`.
pub fn contains_text(v: &Vec<String>, s: &str) -> (r: bool)
    ensures
        r == has_text(v@, s@),
{
    let mut i: usize = 0;
    while i < v.len()
        invariant
            i <= v@.len(),
            forall|k: int| 0 <= k < i ==> (#[trigger] v@[k])@ != s@,
        decreases v@.len() - i,
    {
        if str_eq(v[i].as_str(), s) {
            return true;
        }
        i = i + 1;
    }
    false
}

/// `"` + s + `"`.
pub open spec fn quoted(s: Seq<char>) -> Seq<char> {
    "\""@ + s + "\""@
}

/// The workspace root checks: one per workspace, passed when its root
/// (joined to the application root) exists; the joined path is the context.
pub open spec fn ws_root_checks(
    ws: Seq<(String, WorkspaceConfig)>,
    app_root: Seq<char>,
    existing: Seq<String>,
) -> Seq<CheckView>
    decreases ws.len(),
{
    if ws.len() == 0 {
        Seq::empty()
    } else {
        let (id, w) = ws.last();
        let full = path_join(app_root, w.root_path@);
        let exists = has_text(existing, full);
        ws_root_checks(ws.drop_last(), app_root, existing).push(
            chk(
                "workspace_root_missing"@,
                Severity::Error,
                exists,
                if exists {
                    "workspace "@ + quoted(id@) + ": root path exists"@
                } else {
                    "workspace "@ + quoted(id@) + ": root path "@ + quoted(w.root_path@)
                        + " does not exist"@
                },
                Some(full),
            ),
        )
    }
}

/// A workspace root given as an absolute path is checked at that path,
/// whatever the application root: the check's context is the path itself,
/// and it passes exactly when that path exists. A relative root is checked
/// under the application root.
pub proof fn law_workspace_root_checked_where_it_is(
    ws: Seq<(String, WorkspaceConfig)>,
    app_root: Seq<char>,
    existing: Seq<String>,
    i: int,
)
    requires
        0 <= i < ws.len(),
    ensures
        ws_root_checks(ws, app_root, existing).len() == ws.len(),
        ws_root_checks(ws, app_root, existing)[i].rule == "workspace_root_missing"@,
        ws[i].1.root_path@.len() > 0 && ws[i].1.root_path@[0] == '/' ==> {
            &&& ws_root_checks(ws, app_root, existing)[i].context == Some(ws[i].1.root_path@)
            &&& ws_root_checks(ws, app_root, existing)[i].passed == has_text(existing, ws[i].1.root_path@)
        },
        (!(ws[i].1.root_path@.len() > 0 && ws[i].1.root_path@[0] == '/') && app_root.len() > 0
            && app_root.last() != '/') ==> ws_root_checks(ws, app_root, existing)[i].context == Some(
            app_root + seq!['/'] + ws[i].1.root_path@,
        ),
    decreases ws.len(),
{
    crate::spill::law_path_join(app_root, ws[i].1.root_path@);
    lemma_ws_root_checks_len(ws, app_root, existing);
    if i < ws.len() - 1 {
        law_workspace_root_checked_where_it_is(ws.drop_last(), app_root, existing, i);
        assert(ws.drop_last()[i] == ws[i]);
    }
}

proof fn lemma_ws_root_checks_len(ws: Seq<(String, WorkspaceConfig)>, app_root: Seq<char>, existing: Seq<String>)
    ensures
        ws_root_checks(ws, app_root, existing).len() == ws.len(),
    decreases ws.len(),
{
    if ws.len() > 0 {
        lemma_ws_root_checks_len(ws.drop_last(), app_root, existing);
    }
}

fn quote(s: &str) -> (r: String)
    ensures
        r@ == quoted(s@),
{
    cat3("\"", s, "\"")
}

/// Checks that each workspace root exists (see `ws_root_checks`).
pub fn check_workspace_roots(
    workspaces: &StrMap<WorkspaceConfig>,
    app_root: &str,
    existing: &Vec<String>,
    out: &mut Vec<CheckResult>,
)
    ensures
        check_views(final(out)@) == check_views(old(out)@) + ws_root_checks(
            workspaces.entries@,
            app_root@,
            existing@,
        ),
{
    let ghost ws = workspaces.entries@;
    let mut i: usize = 0;
    assert(ws.take(0) =~= Seq::<(String, WorkspaceConfig)>::empty());
    assert(check_views(out@) =~= check_views(old(out)@) + Seq::<CheckView>::empty());
    while i < workspaces.entries.len()
        invariant
            i <= ws.len(),
            ws == workspaces.entries@,
            check_views(out@) == check_views(old(out)@) + ws_root_checks(
                ws.take(i as int),
                app_root@,
                existing@,
            ),
        decreases ws.len() - i,
    {
        assert(ws.take(i + 1).drop_last() =~= ws.take(i as int));
        assert(ws.take(i + 1).last() == ws[i as int]);
        let entry = &workspaces.entries[i];
        let id = &entry.0;
        let w = &entry.1;
        let full = join_path(app_root, w.root_path.as_str());
        let exists = contains_text(existing, full.as_str());
        let qid = quote(id.as_str());
        let message = if exists {
            cat3("workspace ", qid.as_str(), ": root path exists")
        } else {
            let qr = quote(w.root_path.as_str());
            cat5("workspace ", qid.as_str(), ": root path ", qr.as_str(), " does not exist")
        };
        let c = mk_check("workspace_root_missing", Severity::Error, exists, message, Some(full));
        let ghost before = check_views(out@);
        push_check(out, c);
        assert(check_views(out@) =~= check_views(old(out)@) + ws_root_checks(
            ws.take(i + 1),
            app_root@,
            existing@,
        ));
        i = i + 1;
    }
    assert(ws.take(ws.len() as int) =~= ws);
}

/// The QA target checks of one workspace, in order of its targets.
pub open spec fn qa_target_checks_of(
    id: Seq<char>,
    ws_root: Seq<char>,
    targets: Seq<String>,
    existing: Seq<String>,
) -> Seq<CheckView>
    decreases targets.len(),
{
    if targets.len() == 0 {
        Seq::empty()
    } else {
        let t = targets.last()@;
        let full = path_join(ws_root, t);
        let exists = has_text(existing, full);
        qa_target_checks_of(id, ws_root, targets.drop_last(), existing).push(
            chk(
                "qa_targets_missing"@,
                Severity::Warning,
                exists,
                if exists {
                    "workspace "@ + quoted(id) + ": qa_target "@ + quoted(t) + " exists"@
                } else {
                    "workspace "@ + quoted(id) + ": qa_target "@ + quoted(t) + " does not exist"@
                },
                Some(full),
            ),
        )
    }
}

/// The QA target checks of all workspaces.
pub open spec fn qa_checks(
    ws: Seq<(String, WorkspaceConfig)>,
    app_root: Seq<char>,
    existing: Seq<String>,
) -> Seq<CheckView>
    decreases ws.len(),
{
    if ws.len() == 0 {
        Seq::empty()
    } else {
        let (id, w) = ws.last();
        qa_checks(ws.drop_last(), app_root, existing) + qa_target_checks_of(
            id@,
            path_join(app_root, w.root_path@),
            w.qa_targets@,
            existing,
        )
    }
}

fn check_qa_targets_of(
    id: &str,
    ws_root: &str,
    targets: &Vec<String>,
    existing: &Vec<String>,
    out: &mut Vec<CheckResult>,
)
    ensures
        check_views(final(out)@) == check_views(old(out)@) + qa_target_checks_of(
            id@,
            ws_root@,
            targets@,
            existing@,
        ),
{
    let mut i: usize = 0;
    assert(targets@.take(0) =~= Seq::<String>::empty());
    assert(check_views(out@) =~= check_views(old(out)@) + Seq::<CheckView>::empty());
    while i < targets.len()
        invariant
            i <= targets@.len(),
            check_views(out@) == check_views(old(out)@) + qa_target_checks_of(
                id@,
                ws_root@,
                targets@.take(i as int),
                existing@,
            ),
        decreases targets@.len() - i,
    {
        assert(targets@.take(i + 1).drop_last() =~= targets@.take(i as int));
        assert(targets@.take(i + 1).last() == targets@[i as int]);
        let t = targets[i].as_str();
        let full = join_path(ws_root, t);
        let exists = contains_text(existing, full.as_str());
        let qid = quote(id);
        let qt = quote(t);
        let message = if exists {
            cat5("workspace ", qid.as_str(), ": qa_target ", qt.as_str(), " exists")
        } else {
            cat5("workspace ", qid.as_str(), ": qa_target ", qt.as_str(), " does not exist")
        };
        let c = mk_check("qa_targets_missing", Severity::Warning, exists, message, Some(full));
        push_check(out, c);
        assert(check_views(out@) =~= check_views(old(out)@) + qa_target_checks_of(
            id@,
            ws_root@,
            targets@.take(i + 1),
            existing@,
        ));
        i = i + 1;
    }
    assert(targets@.take(targets@.len() as int) =~= targets@);
}

/// Checks that each QA target of each workspace exists (see `qa_checks`).
pub fn check_qa_targets(
    workspaces: &StrMap<WorkspaceConfig>,
    app_root: &str,
    existing: &Vec<String>,
    out: &mut Vec<CheckResult>,
)
    ensures
        check_views(final(out)@) == check_views(old(out)@) + qa_checks(
            workspaces.entries@,
            app_root@,
            existing@,
        ),
{
    let ghost ws = workspaces.entries@;
    let mut i: usize = 0;
    assert(ws.take(0) =~= Seq::<(String, WorkspaceConfig)>::empty());
    assert(check_views(out@) =~= check_views(old(out)@) + Seq::<CheckView>::empty());
    while i < workspaces.entries.len()
        invariant
            i <= ws.len(),
            ws == workspaces.entries@,
            check_views(out@) == check_views(old(out)@) + qa_checks(
                ws.take(i as int),
                app_root@,
                existing@,
            ),
        decreases ws.len() - i,
    {
        assert(ws.take(i + 1).drop_last() =~= ws.take(i as int));
        assert(ws.take(i + 1).last() == ws[i as int]);
        let entry = &workspaces.entries[i];
        let root = join_path(app_root, entry.1.root_path.as_str());
        let ghost before = check_views(out@);
        check_qa_targets_of(entry.0.as_str(), root.as_str(), &entry.1.qa_targets, existing, out);
        assert(check_views(out@) =~= check_views(old(out)@) + qa_checks(
            ws.take(i + 1),
            app_root@,
            existing@,
        ));
        i = i + 1;
    }
    assert(ws.take(ws.len() as int) =~= ws);
}

/// The warning, if any, about an agent's command and its prompt delivery:
/// a `{prompt}` placeholder is ignored under stdin, env and file delivery,
/// and file delivery needs a `{prompt_file}` placeholder.
pub open spec fn delivery_warning(id: Seq<char>, delivery: PromptDelivery, cmd: Seq<char>) -> Option<
    CheckView,
> {
    let has_prompt = contains_sub(cmd, "{prompt}"@);
    if (delivery == PromptDelivery::Stdin || delivery == PromptDelivery::Env) && has_prompt {
        Some(
            chk(
                "prompt_delivery_placeholder_ignored"@,
                Severity::Warning,
                false,
                "agent "@ + quoted(id) + ": command contains {prompt} but prompt_delivery="@ + (
                if delivery == PromptDelivery::Stdin {
                    "Stdin"@
                } else {
                    "Env"@
                }) + "; placeholder will be ignored"@,
                None,
            ),
        )
    } else if delivery == PromptDelivery::File && has_prompt {
        Some(
            chk(
                "prompt_delivery_placeholder_ignored"@,
                Severity::Warning,
                false,
                "agent "@ + quoted(id)
                    + ": command contains {prompt} but prompt_delivery=file; use {prompt_file} instead"@,
                None,
            ),
        )
    } else if delivery == PromptDelivery::File && !contains_sub(cmd, "{prompt_file}"@) {
        Some(
            chk(
                "prompt_delivery_missing_placeholder"@,
                Severity::Warning,
                false,
                "agent "@ + quoted(id)
                    + ": prompt_delivery=file but command is missing {prompt_file} placeholder"@,
                None,
            ),
        )
    } else {
        None
    }
}

/// The prompt delivery warnings of all agents.
pub open spec fn delivery_checks(agents: Seq<(String, AgentConfig)>) -> Seq<CheckView>
    decreases agents.len(),
{
    if agents.len() == 0 {
        Seq::empty()
    } else {
        let (id, a) = agents.last();
        let rest = delivery_checks(agents.drop_last());
        match delivery_warning(id@, a.prompt_delivery, a.command@) {
            Some(c) => rest.push(c),
            None => rest,
        }
    }
}

/// Warns about agents whose command does not fit their prompt delivery
/// (see `delivery_checks`).
pub fn check_prompt_delivery(agents: &StrMap<AgentConfig>, out: &mut Vec<CheckResult>)
    ensures
        check_views(final(out)@) == check_views(old(out)@) + delivery_checks(agents.entries@),
{
    let ghost ag = agents.entries@;
    let mut i: usize = 0;
    assert(ag.take(0) =~= Seq::<(String, AgentConfig)>::empty());
    assert(check_views(out@) =~= check_views(old(out)@) + Seq::<CheckView>::empty());
    while i < agents.entries.len()
        invariant
            i <= ag.len(),
            ag == agents.entries@,
            check_views(out@) == check_views(old(out)@) + delivery_checks(ag.take(i as int)),
        decreases ag.len() - i,
    {
        assert(ag.take(i + 1).drop_last() =~= ag.take(i as int));
        assert(ag.take(i + 1).last() == ag[i as int]);
        let entry = &agents.entries[i];
        let id = entry.0.as_str();
        let delivery = entry.1.prompt_delivery;
        let cmd = chars_of(entry.1.command.as_str());
        let has_prompt = contains_str(&cmd, "{prompt}");
        let qid = quote(id);
        let warn: Option<CheckResult> = if (delivery == PromptDelivery::Stdin || delivery
            == PromptDelivery::Env) && has_prompt {
            let mode = if delivery == PromptDelivery::Stdin {
                "Stdin"
            } else {
                "Env"
            };
            let m = cat5(
                "agent ",
                qid.as_str(),
                ": command contains {prompt} but prompt_delivery=",
                mode,
                "; placeholder will be ignored",
            );
            Some(
                mk_check(
                    "prompt_delivery_placeholder_ignored",
                    Severity::Warning,
                    false,
                    m,
                    None,
                ),
            )
        } else if delivery == PromptDelivery::File && has_prompt {
            let m = cat3(
                "agent ",
                qid.as_str(),
                ": command contains {prompt} but prompt_delivery=file; use {prompt_file} instead",
            );
            Some(
                mk_check(
                    "prompt_delivery_placeholder_ignored",
                    Severity::Warning,
                    false,
                    m,
                    None,
                ),
            )
        } else if delivery == PromptDelivery::File && !contains_str(&cmd, "{prompt_file}") {
            let m = cat3(
                "agent ",
                qid.as_str(),
                ": prompt_delivery=file but command is missing {prompt_file} placeholder",
            );
            Some(
                mk_check(
                    "prompt_delivery_missing_placeholder",
                    Severity::Warning,
                    false,
                    m,
                    None,
                ),
            )
        } else {
            None
        };
        match warn {
            Some(c) => {
                push_check(out, c);
            },
            None => {},
        }
        assert(check_views(out@) =~= check_views(old(out)@) + delivery_checks(ag.take(i + 1)));
        i = i + 1;
    }
    assert(ag.take(ag.len() as int) =~= ag);
}

/// One check per agent: it has a non-empty command.
pub open spec fn command_checks(agents: Seq<(String, AgentConfig)>) -> Seq<CheckView>
    decreases agents.len(),
{
    if agents.len() == 0 {
        Seq::empty()
    } else {
        let (id, a) = agents.last();
        let has = a.command@.len() > 0;
        command_checks(agents.drop_last()).push(
            chk(
                "agent_has_command"@,
                Severity::Error,
                has,
                if has {
                    "agent "@ + quoted(id@) + ": has command configured"@
                } else {
                    "agent "@ + quoted(id@) + ": has no command configured"@
                },
                None,
            ),
        )
    }
}

/// Checks that every agent has a command (see `command_checks`).
pub fn check_capability_templates(agents: &StrMap<AgentConfig>, out: &mut Vec<CheckResult>)
    ensures
        check_views(final(out)@) == check_views(old(out)@) + command_checks(agents.entries@),
{
    let ghost ag = agents.entries@;
    let mut i: usize = 0;
    assert(ag.take(0) =~= Seq::<(String, AgentConfig)>::empty());
    assert(check_views(out@) =~= check_views(old(out)@) + Seq::<CheckView>::empty());
    while i < agents.entries.len()
        invariant
            i <= ag.len(),
            ag == agents.entries@,
            check_views(out@) == check_views(old(out)@) + command_checks(ag.take(i as int)),
        decreases ag.len() - i,
    {
        assert(ag.take(i + 1).drop_last() =~= ag.take(i as int));
        assert(ag.take(i + 1).last() == ag[i as int]);
        let entry = &agents.entries[i];
        let has = entry.1.command.unicode_len() > 0;
        let qid = quote(entry.0.as_str());
        let m = if has {
            cat3("agent ", qid.as_str(), ": has command configured")
        } else {
            cat3("agent ", qid.as_str(), ": has no command configured")
        };
        push_check(out, mk_check("agent_has_command", Severity::Error, has, m, None));
        assert(check_views(out@) =~= check_views(old(out)@) + command_checks(ag.take(i + 1)));
        i = i + 1;
    }
    assert(ag.take(ag.len() as int) =~= ag);
}

} // verus!

verus! {

use crate::check_workflow::{
    WfRuleKind, workflows_checks, opt_text, check_capability_coverage, check_builtin_names,
    check_pipe_to_refs, check_template_vars, check_empty_workflows,
};

/// All checks of a configuration, in the order they run: workspace roots, QA
/// targets, capability coverage, prompt delivery, agent commands, builtin
/// names and execution modes, `pipe_to` references, template variables and
/// empty workflows; or a single error when the project does not exist.
pub open spec fn spec_run_checks(
    config: ActiveConfig,
    app_root: Seq<char>,
    filter: Option<Seq<char>>,
    project_id: Option<Seq<char>>,
    existing: Seq<String>,
) -> Seq<CheckView> {
    let pid = match project_id {
        Some(p) => p,
        None => default_project_id(),
    };
    match config.projects.spec_get(pid) {
        None => seq![
            chk(
                "project_not_found"@,
                Severity::Error,
                false,
                "project "@ + quoted(pid) + " not found in config"@,
                None,
            ),
        ],
        Some(p) => {
            let e = Seq::<(String, AgentConfig)>::empty();
            let t = Seq::<(String, StepTemplateConfig)>::empty();
            ws_root_checks(p.workspaces.entries@, app_root, existing) + qa_checks(
                p.workspaces.entries@,
                app_root,
                existing,
            ) + workflows_checks(WfRuleKind::Capability, p.agents.entries@, t, p.workflows.entries@, filter)
                + delivery_checks(p.agents.entries@) + command_checks(p.agents.entries@)
                + workflows_checks(WfRuleKind::Builtin, e, t, p.workflows.entries@, filter)
                + workflows_checks(WfRuleKind::PipeTo, e, t, p.workflows.entries@, filter)
                + workflows_checks(
                WfRuleKind::Templates,
                e,
                p.step_templates.entries@,
                p.workflows.entries@,
                filter,
            ) + workflows_checks(WfRuleKind::Empty, e, t, p.workflows.entries@, filter)
        },
    }
}

/// Runs all preflight checks of a project (the default project when none is
/// named), for the workflow the filter names or for all; `existing_paths`
/// lists the paths found to exist (see `probe_paths`).
pub fn run_checks(
    config: &ActiveConfig,
    app_root: &str,
    workflow_filter: &Option<String>,
    project_id: &Option<String>,
    existing_paths: &Vec<String>,
) -> (r: CheckReport)
    ensures
        check_views(r.checks@) == spec_run_checks(
            *config,
            app_root@,
            opt_text(*workflow_filter),
            opt_text(*project_id),
            existing_paths@,
        ),
        r.summary.total == r.checks@.len() as u32,
        r.summary.passed == count_passed(check_views(r.checks@)) as u32,
        r.summary.errors == count_failed(check_views(r.checks@), Severity::Error) as u32,
        r.summary.warnings == count_failed(check_views(r.checks@), Severity::Warning) as u32,
{
    let mut checks: Vec<CheckResult> = Vec::new();
    let pid: String = match project_id {
        Some(p) => String::from_str(p.as_str()),
        None => String::from_str("default"),
    };
    let project = match config.projects.get(pid.as_str()) {
        Some(p) => p,
        None => {
            let qp = quote(pid.as_str());
            let m = cat3("project ", qp.as_str(), " not found in config");
            push_check(
                &mut checks,
                mk_check("project_not_found", Severity::Error, false, m, None),
            );
            assert(check_views(checks@) =~= seq![
                chk(
                    "project_not_found"@,
                    Severity::Error,
                    false,
                    "project "@ + quoted(pid@) + " not found in config"@,
                    None,
                ),
            ]);
            return build_report(checks);
        },
    };
    assert(check_views(checks@) =~= Seq::<CheckView>::empty());
    check_workspace_roots(&project.workspaces, app_root, existing_paths, &mut checks);
    check_qa_targets(&project.workspaces, app_root, existing_paths, &mut checks);
    check_capability_coverage(&project.agents, &project.workflows, workflow_filter, &mut checks);
    check_prompt_delivery(&project.agents, &mut checks);
    check_capability_templates(&project.agents, &mut checks);
    check_builtin_names(&project.workflows, workflow_filter, &mut checks);
    check_pipe_to_refs(&project.workflows, workflow_filter, &mut checks);
    check_template_vars(&project.step_templates, &project.workflows, workflow_filter, &mut checks);
    check_empty_workflows(&project.workflows, workflow_filter, &mut checks);
    build_report(checks)
}

/// The paths the checks look for: each workspace root (joined to the
/// application root), then its QA targets.
pub open spec fn probe_list(ws: Seq<(String, WorkspaceConfig)>, app_root: Seq<char>) -> Seq<Seq<char>>
    decreases ws.len(),
{
    if ws.len() == 0 {
        Seq::empty()
    } else {
        let w = ws.last().1;
        let root = path_join(app_root, w.root_path@);
        probe_list(ws.drop_last(), app_root) + seq![root] + w.qa_targets@.map_values(
            |t: String| path_join(root, t@),
        )
    }
}

/// The paths whose existence the checks of a project depend on (see
/// `probe_list`); none when the project does not exist.
pub fn probe_paths(config: &ActiveConfig, app_root: &str, project_id: &Option<String>) -> (r: Vec<
    String,
>)
    ensures
        r@.map_values(|s: String| s@) == match config.projects.spec_get(
            match opt_text(*project_id) {
                Some(p) => p,
                None => default_project_id(),
            },
        ) {
            Some(p) => probe_list(p.workspaces.entries@, app_root@),
            None => Seq::empty(),
        },
{
    let mut out: Vec<String> = Vec::new();
    let pid: String = match project_id {
        Some(p) => String::from_str(p.as_str()),
        None => String::from_str("default"),
    };
    let project = match config.projects.get(pid.as_str()) {
        Some(p) => p,
        None => {
            assert(out@.map_values(|s: String| s@) =~= Seq::<Seq<char>>::empty());
            return out;
        },
    };
    let ghost ws = project.workspaces.entries@;
    let mut i: usize = 0;
    assert(ws.take(0) =~= Seq::<(String, WorkspaceConfig)>::empty());
    assert(out@.map_values(|s: String| s@) =~= Seq::<Seq<char>>::empty());
    while i < project.workspaces.entries.len()
        invariant
            i <= ws.len(),
            ws == project.workspaces.entries@,
            out@.map_values(|s: String| s@) == probe_list(ws.take(i as int), app_root@),
        decreases ws.len() - i,
    {
        assert(ws.take(i + 1).drop_last() =~= ws.take(i as int));
        assert(ws.take(i + 1).last() == ws[i as int]);
        let w = &project.workspaces.entries[i].1;
        let root = join_path(app_root, w.root_path.as_str());
        let ghost base = out@.map_values(|s: String| s@);
        out.push(String::from_str(root.as_str()));
        assert(out@.map_values(|s: String| s@) =~= base + seq![root@]);
        let ghost with_root = out@.map_values(|s: String| s@);
        let ghost ts = w.qa_targets@;
        let mut j: usize = 0;
        assert(ts.take(0).map_values(|t: String| path_join(root@, t@)) =~= Seq::<Seq<char>>::empty());
        while j < w.qa_targets.len()
            invariant
                j <= ts.len(),
                ts == w.qa_targets@,
                out@.map_values(|s: String| s@) == with_root + ts.take(j as int).map_values(
                    |t: String| path_join(root@, t@),
                ),
            decreases ts.len() - j,
        {
            let ghost b2 = out@.map_values(|s: String| s@);
            let full = join_path(root.as_str(), w.qa_targets[j].as_str());
            out.push(full);
            assert(ts.take(j + 1).map_values(|t: String| path_join(root@, t@)) =~= ts.take(
                j as int,
            ).map_values(|t: String| path_join(root@, t@)).push(path_join(root@, ts[j as int]@)));
            assert(out@.map_values(|s: String| s@) =~= b2.push(path_join(root@, ts[j as int]@)));
            j = j + 1;
        }
        assert(ts.take(ts.len() as int) =~= ts);
        assert(out@.map_values(|s: String| s@) =~= probe_list(ws.take(i + 1), app_root@));
        i = i + 1;
    }
    assert(ws.take(ws.len() as int) =~= ws);
    out
}

/// The counts of a report never exceed its number of checks: passed, failed
/// errors and failed warnings are disjoint.
pub proof fn law_summary_counts_partition(v: Seq<CheckView>)
    ensures
        count_passed(v) + count_failed(v, Severity::Error) + count_failed(v, Severity::Warning)
            <= v.len(),
    decreases v.len(),
{
    if v.len() > 0 {
        law_summary_counts_partition(v.drop_last());
    }
}

} // verus!
