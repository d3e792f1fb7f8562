use vstd::prelude::*;
use crate::config::{LoopMode, WorkflowLoopConfig, CheckpointStrategy, TaskExecutionStep};
use crate::text::{decimal, concat_str, u64_to_string};

verus! {

/// The decision of the loop-guard rules, when they reach one: whether to
/// continue and why.
pub open spec fn spec_loop_guard_rules(policy: WorkflowLoopConfig, current_cycle: u32) -> Option<
    (bool, Seq<char>),
> {
    match policy.mode {
        LoopMode::Once => Some((false, "once_mode"@)),
        LoopMode::Fixed => {
            let max = match policy.guard.max_cycles {
                Some(m) => m,
                None => 1,
            };
            if current_cycle >= max {
                Some((false, "fixed_cycles_complete"@))
            } else {
                Some((true, "fixed_cycle_continue"@))
            }
        },
        LoopMode::Infinite => {
            if policy.guard.max_cycles is Some && current_cycle >= policy.guard.max_cycles->0 {
                Some((false, "max_cycles_reached"@))
            } else if !policy.guard.enabled {
                Some((true, "guard_disabled"@))
            } else {
                None
            }
        },
    }
}

fn owned(s: &str) -> (r: String)
    ensures
        r@ == s@,
{
    String::from_str(s)
}

/// Evaluates loop-guard policy and returns the next continue/stop decision when resolvable.
pub fn evaluate_loop_guard_rules(
    loop_policy: &WorkflowLoopConfig,
    current_cycle: u32,
    _unresolved: i64,
) -> (r: Option<(bool, String)>)
    ensures
        r is Some == spec_loop_guard_rules(*loop_policy, current_cycle) is Some,
        r matches Some((c, reason)) ==> spec_loop_guard_rules(*loop_policy, current_cycle) == Some(
            (c, reason@),
        ),
{
    match loop_policy.mode {
        LoopMode::Once => Some((false, owned("once_mode"))),
        LoopMode::Fixed => {
            let max = match loop_policy.guard.max_cycles {
                Some(m) => m,
                None => 1,
            };
            if current_cycle >= max {
                Some((false, owned("fixed_cycles_complete")))
            } else {
                Some((true, owned("fixed_cycle_continue")))
            }
        },
        LoopMode::Infinite => {
            if let Some(max_cycles) = loop_policy.guard.max_cycles {
                if current_cycle >= max_cycles {
                    return Some((false, owned("max_cycles_reached")));
                }
            }
            if !loop_policy.guard.enabled {
                return Some((true, owned("guard_disabled")));
            }
            None
        },
    }
}

/// Proactive cycle ceiling: a new cycle may start only while the current cycle is below it.
pub open spec fn spec_proactive_max_cycles(policy: WorkflowLoopConfig) -> u32 {
    match policy.mode {
        LoopMode::Fixed => match policy.guard.max_cycles {
            Some(m) => m,
            None => 1,
        },
        LoopMode::Infinite => match policy.guard.max_cycles {
            Some(m) => m,
            None => u32::MAX,
        },
        LoopMode::Once => u32::MAX,
    }
}

/// The proactive max-cycles limit of a loop policy.
pub fn proactive_max_cycles(policy: &WorkflowLoopConfig) -> (r: u32)
    ensures
        r == spec_proactive_max_cycles(*policy),
{
    match policy.mode {
        LoopMode::Fixed => match policy.guard.max_cycles {
            Some(m) => m,
            None => 1,
        },
        LoopMode::Infinite => match policy.guard.max_cycles {
            Some(m) => m,
            None => u32::MAX,
        },
        LoopMode::Once => u32::MAX,
    }
}

/// The loop's decision after a cycle: whether to go on, and why.
pub struct LoopContinuation {
    pub should_continue: bool,
    pub reason: String,
}

/// Whether the loop goes on after a cycle that left `unresolved` items open.
pub open spec fn spec_should_continue(policy: WorkflowLoopConfig, cycle: u32, unresolved: i64) -> bool {
    match spec_loop_guard_rules(policy, cycle) {
        Some((c, _)) => c,
        None => if policy.guard.stop_when_no_unresolved {
            unresolved > 0
        } else {
            true
        },
    }
}

/// The reason recorded with the decision.
pub open spec fn spec_continuation_reason(policy: WorkflowLoopConfig, cycle: u32, unresolved: i64) -> Seq<
    char,
> {
    match spec_loop_guard_rules(policy, cycle) {
        Some((_, r)) => r,
        None => if !spec_should_continue(policy, cycle, unresolved) {
            "no_unresolved_items"@
        } else {
            "continue"@
        },
    }
}

/// Decides whether the task loop continues after a cycle.
pub fn evaluate_loop_continuation(policy: &WorkflowLoopConfig, current_cycle: u32, unresolved: i64) -> (r:
    LoopContinuation)
    ensures
        r.should_continue == spec_should_continue(*policy, current_cycle, unresolved),
        r.reason@ == spec_continuation_reason(*policy, current_cycle, unresolved),
{
    let check = evaluate_loop_guard_rules(policy, current_cycle, unresolved);
    match check {
        Some((c, reason)) => LoopContinuation { should_continue: c, reason },
        None => {
            let should_continue = if policy.guard.stop_when_no_unresolved {
                unresolved > 0
            } else {
                true
            };
            let reason = if !should_continue {
                owned("no_unresolved_items")
            } else {
                owned("continue")
            };
            LoopContinuation { should_continue, reason }
        },
    }
}

/// A binary snapshot is taken only for self-referential workspaces with snapshots enabled.
pub fn should_snapshot_binary(binary_snapshot: bool, self_referential: bool) -> (r: bool)
    ensures
        r == (binary_snapshot && self_referential),
{
    binary_snapshot && self_referential
}

/// Whether auto-rollback triggers.
pub fn should_auto_rollback(
    auto_rollback: bool,
    consecutive_failures: u64,
    max_consecutive_failures: u64,
    checkpoint_strategy: &CheckpointStrategy,
) -> (r: bool)
    ensures
        r == (auto_rollback && consecutive_failures >= max_consecutive_failures
            && *checkpoint_strategy == CheckpointStrategy::GitTag),
{
    auto_rollback && consecutive_failures >= max_consecutive_failures && match checkpoint_strategy {
        CheckpointStrategy::GitTag => true,
        CheckpointStrategy::Disabled => false,
    }
}

/// The cycle whose checkpoint a rollback returns to: `failures` cycles back, at least cycle 1.
pub open spec fn spec_rollback_cycle(current_cycle: u64, consecutive_failures: u64) -> u64 {
    if current_cycle > consecutive_failures && current_cycle - consecutive_failures >= 1 {
        (current_cycle - consecutive_failures) as u64
    } else {
        1
    }
}

/// The git tag of a cycle checkpoint.
pub open spec fn checkpoint_tag(task_id: Seq<char>, cycle: u64) -> Seq<char> {
    "checkpoint/"@ + task_id + "/"@ + decimal(cycle as nat)
}

/// The tag that an auto-rollback restores.
pub fn compute_rollback_tag(task_id: &str, current_cycle: u64, consecutive_failures: u64) -> (r: String)
    ensures
        r@ == checkpoint_tag(task_id@, spec_rollback_cycle(current_cycle, consecutive_failures)),
{
    let rollback_cycle = current_cycle.saturating_sub(consecutive_failures);
    let cycle = if rollback_cycle > 1 {
        rollback_cycle
    } else {
        1
    };
    let head = concat_str("checkpoint/", task_id);
    let head = concat_str(head.as_str(), "/");
    let n = u64_to_string(cycle);
    concat_str(head.as_str(), n.as_str())
}

/// Decision of the builtin loop guard.
pub struct GuardResult {
    pub should_stop: bool,
    pub reason: String,
}

/// The builtin loop guard stops only when configured to and nothing is unresolved.
pub fn evaluate_builtin_loop_guard(stop_when_no_unresolved: bool, unresolved: u64) -> (r: GuardResult)
    ensures
        r.should_stop == (stop_when_no_unresolved && unresolved == 0),
        r.reason@ == (if r.should_stop {
            "no_unresolved"@
        } else {
            "has_unresolved"@
        }),
{
    let should_stop = stop_when_no_unresolved && unresolved == 0;
    GuardResult {
        should_stop,
        reason: if should_stop {
            owned("no_unresolved")
        } else {
            owned("has_unresolved")
        },
    }
}

/// Whether a step is a guard that runs in this cycle (non-repeatable guards only in the first).
pub fn guard_runs_in_cycle(step: &TaskExecutionStep, current_cycle: u32) -> (r: bool)
    ensures
        r == (step.is_guard && (step.repeatable || current_cycle <= 1)),
{
    step.is_guard && (step.repeatable || current_cycle <= 1)
}

/// Once mode never continues.
pub proof fn law_once_never_continues(policy: WorkflowLoopConfig, cycle: u32, unresolved: i64)
    requires
        policy.mode == LoopMode::Once,
    ensures
        !spec_should_continue(policy, cycle, unresolved),
{
}

/// Fixed mode stops exactly when the cycle count reaches its limit (one cycle by default).
pub proof fn law_fixed_mode_stops_at_limit(policy: WorkflowLoopConfig, cycle: u32, unresolved: i64)
    requires
        policy.mode == LoopMode::Fixed,
    ensures
        spec_should_continue(policy, cycle, unresolved) == (cycle < spec_proactive_max_cycles(
            policy,
        )),
{
}

/// A decision to continue never lets the next cycle start at or past the proactive ceiling.
pub proof fn law_continue_stays_below_ceiling(policy: WorkflowLoopConfig, cycle: u32, unresolved: i64)
    requires
        cycle < u32::MAX,
        spec_should_continue(policy, cycle, unresolved),
    ensures
        cycle < spec_proactive_max_cycles(policy),
{
}

/// The rules never let a cycle count at or beyond `max_cycles` continue.
pub proof fn law_max_cycles_stop(policy: WorkflowLoopConfig, cycle: u32, unresolved: i64)
    requires
        policy.mode != LoopMode::Once,
        policy.guard.max_cycles is Some,
        cycle >= policy.guard.max_cycles->0,
    ensures
        !spec_should_continue(policy, cycle, unresolved),
{
}

/// A rollback returns to a cycle between 1 and the current one.
pub proof fn law_rollback_cycle_in_range(current_cycle: u64, consecutive_failures: u64)
    requires
        current_cycle >= 1,
    ensures
        1 <= spec_rollback_cycle(current_cycle, consecutive_failures) <= current_cycle,
{
}

/// Instant (UTC seconds since the epoch, nanoseconds past that second) that
/// `chrono::DateTime::parse_from_rfc3339` reads from a text, if it accepts it.
pub uninterp spec fn rfc3339_instant(ts: Seq<char>) -> Option<(i64, u32)>;

/// Instant that `chrono::NaiveDateTime::parse_from_str` reads from a text with
/// the given format, taken as UTC, if it accepts the text.
pub uninterp spec fn naive_utc_instant(ts: Seq<char>, fmt: Seq<char>) -> Option<(i64, u32)>;

/// Trusted: calls `chrono::DateTime::parse_from_rfc3339` and returns the
/// parsed instant's `timestamp()` and `timestamp_subsec_nanos()`. The result
/// depends on the text alone; chrono documents the nanoseconds as below two
/// seconds' worth (a leap second may exceed one second).
#[verifier::external_body]
fn parse_rfc3339_instant(ts: &str) -> (r: Option<(i64, u32)>)
    ensures
        r == rfc3339_instant(ts@),
        r matches Some((_, n)) ==> n < 2_000_000_000,
{
    match chrono::DateTime::parse_from_rfc3339(ts) {
        Ok(t) => Some((t.timestamp(), t.timestamp_subsec_nanos())),
        Err(_) => None,
    }
}

/// Trusted: calls `chrono::NaiveDateTime::parse_from_str` with the format and
/// returns the instant read as UTC (`and_utc()`), as seconds and nanoseconds.
/// The result depends on the text and the format alone.
#[verifier::external_body]
fn parse_naive_utc_instant(ts: &str, fmt: &str) -> (r: Option<(i64, u32)>)
    ensures
        r == naive_utc_instant(ts@, fmt@),
        r matches Some((_, n)) ==> n < 2_000_000_000,
{
    match chrono::NaiveDateTime::parse_from_str(ts, fmt) {
        Ok(t) => Some((t.and_utc().timestamp(), t.and_utc().timestamp_subsec_nanos())),
        Err(_) => None,
    }
}

/// Instant of a recorded cycle timestamp: RFC 3339 first, then three UTC layouts.
pub open spec fn spec_cycle_timestamp(ts: Seq<char>) -> Option<(i64, u32)> {
    if rfc3339_instant(ts) is Some {
        rfc3339_instant(ts)
    } else if naive_utc_instant(ts, "%Y-%m-%d %H:%M:%S"@) is Some {
        naive_utc_instant(ts, "%Y-%m-%d %H:%M:%S"@)
    } else if naive_utc_instant(ts, "%Y-%m-%dT%H:%M:%S"@) is Some {
        naive_utc_instant(ts, "%Y-%m-%dT%H:%M:%S"@)
    } else {
        naive_utc_instant(ts, "%Y-%m-%dT%H:%M:%S%.f"@)
    }
}

/// Parses a recorded cycle timestamp.
pub fn parse_cycle_timestamp(ts: &str) -> (r: Option<(i64, u32)>)
    ensures
        r == spec_cycle_timestamp(ts@),
        r matches Some((_, n)) ==> n < 2_000_000_000,
{
    let a = parse_rfc3339_instant(ts);
    if a.is_some() {
        return a;
    }
    let b = parse_naive_utc_instant(ts, "%Y-%m-%d %H:%M:%S");
    if b.is_some() {
        return b;
    }
    let c = parse_naive_utc_instant(ts, "%Y-%m-%dT%H:%M:%S");
    if c.is_some() {
        return c;
    }
    parse_naive_utc_instant(ts, "%Y-%m-%dT%H:%M:%S%.f")
}

/// The instants of the timestamps that parse, in order.
pub open spec fn parsed_instants(ts: Seq<String>) -> Seq<(i64, u32)>
    decreases ts.len(),
{
    if ts.len() == 0 {
        Seq::empty()
    } else {
        let rest = parsed_instants(ts.drop_last());
        match spec_cycle_timestamp(ts.last()@) {
            Some(x) => rest.push(x),
            None => rest,
        }
    }
}

/// Whole seconds between two instants, ignoring direction.
pub open spec fn gap_seconds(a: (i64, u32), b: (i64, u32)) -> int {
    let d = (b.0 - a.0) * 1_000_000_000 + (b.1 - a.1);
    (if d < 0 {
        -d
    } else {
        d
    }) / 1_000_000_000
}

/// Every gap between neighbouring instants is shorter than `min_interval`.
pub open spec fn all_gaps_below(p: Seq<(i64, u32)>, min_interval: int) -> bool {
    forall|i: int| 0 <= i < p.len() - 1 ==> #[trigger] gap_seconds(p[i], p[i + 1]) < min_interval
}

/// The minimum interval as the loop compares it (`u64` reinterpreted as `i64`).
pub open spec fn as_signed(x: u64) -> int {
    if x <= i64::MAX {
        x as int
    } else {
        x - 18446744073709551616
    }
}

/// The recent cycles were degenerate: at least four recorded timestamps, at
/// least four of them parse, and every gap between neighbours is shorter than
/// the minimum interval.
pub open spec fn spec_rapid_cycles(ts: Seq<String>, min_interval_secs: u64) -> bool {
    ts.len() >= 4 && parsed_instants(ts).len() >= 4 && all_gaps_below(
        parsed_instants(ts),
        as_signed(min_interval_secs),
    )
}

fn gap_between(a: (i64, u32), b: (i64, u32)) -> (r: i128)
    requires
        a.1 < 2_000_000_000,
        b.1 < 2_000_000_000,
    ensures
        r == gap_seconds(a, b),
{
    let d: i128 = (b.0 as i128 - a.0 as i128) * 1_000_000_000i128 + (b.1 as i128 - a.1 as i128);
    let m: i128 = if d < 0 {
        -d
    } else {
        d
    };
    m / 1_000_000_000i128
}

/// Detects degenerate looping from the most recent cycle-start timestamps.
pub fn detect_rapid_cycles(timestamps: &Vec<String>, min_interval_secs: u64) -> (r: bool)
    ensures
        r == spec_rapid_cycles(timestamps@, min_interval_secs),
{
    if timestamps.len() < 4 {
        return false;
    }
    let min_interval: i128 = if min_interval_secs <= i64::MAX as u64 {
        min_interval_secs as i128
    } else {
        min_interval_secs as i128 - 18446744073709551616i128
    };
    let mut parsed: Vec<(i64, u32)> = Vec::new();
    let mut i: usize = 0;
    while i < timestamps.len()
        invariant
            i <= timestamps@.len(),
            parsed@ == parsed_instants(timestamps@.subrange(0, i as int)),
            forall|j: int| 0 <= j < parsed@.len() ==> parsed@[j].1 < 2_000_000_000,
        decreases timestamps@.len() - i,
    {
        let p = parse_cycle_timestamp(timestamps[i].as_str());
        assert(timestamps@.subrange(0, i + 1).drop_last() =~= timestamps@.subrange(0, i as int));
        if let Some(x) = p {
            parsed.push(x);
        }
        i = i + 1;
    }
    assert(timestamps@.subrange(0, timestamps@.len() as int) =~= timestamps@);
    if parsed.len() < 4 {
        return false;
    }
    let mut k: usize = 0;
    let last = parsed.len() - 1;
    while k < last
        invariant
            last == parsed@.len() - 1,
            parsed@ == parsed_instants(timestamps@),
            parsed@.len() >= 4,
            forall|j: int| 0 <= j < parsed@.len() ==> parsed@[j].1 < 2_000_000_000,
            min_interval == as_signed(min_interval_secs),
            forall|j: int| 0 <= j < k ==> #[trigger] gap_seconds(parsed@[j], parsed@[j + 1]) < min_interval,
        decreases parsed@.len() - k,
    {
        let g = gap_between(parsed[k], parsed[k + 1]);
        if g >= min_interval {
            return false;
        }
        k = k + 1;
    }
    true
}

} // verus!
