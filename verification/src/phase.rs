use vstd::prelude::*;
use crate::config::StepScope;
use crate::text::{str_eq, replace_all, replace_str, concat_str};

verus! {

/// Timeout of a step when the workflow sets none.
pub const DEFAULT_STEP_TIMEOUT_SECS: u64 = 1800;
/// Seconds between two heartbeats of a running phase.
pub const HEARTBEAT_INTERVAL_SECS: u64 = 30;
/// At most this many new bytes of output in a heartbeat count as no progress.
pub const LOW_OUTPUT_DELTA_THRESHOLD_BYTES: u64 = 32;
/// A phase is reported as `low_output` only after running this long.
pub const LOW_OUTPUT_MIN_ELAPSED_SECS: u64 = 90;
/// ...and only after this many heartbeats in a row without progress.
pub const LOW_OUTPUT_CONSECUTIVE_HEARTBEATS: u32 = 3;
/// Exit code recorded when the process exited 0 but its output failed validation.
pub const VALIDATION_FAILED_EXIT_CODE: i64 = -6;
/// At most this many trailing bytes of each output log are read back.
pub const MAX_PHASE_OUTPUT_BYTES: u64 = 262144;

/// The label of a step scope, as events report it.
pub open spec fn scope_label(scope: StepScope) -> Seq<char> {
    match scope {
        StepScope::Task => seq!['t', 'a', 's', 'k'],
        StepScope::Item => seq!['i', 't', 'e', 'm'],
    }
}

/// `task` or `item`.
pub fn step_scope_label(scope: StepScope) -> (r: String)
    ensures
        r@ == scope_label(scope),
{
    proof {
        reveal_strlit("task");
        reveal_strlit("item");
    }
    match scope {
        StepScope::Task => String::from_str("task"),
        StepScope::Item => String::from_str("item"),
    }
}

/// The shell's replacement for a single quote inside a single-quoted word:
/// close the quote, an escaped quote, reopen the quote.
pub open spec fn quote_escape_seq() -> Seq<char> {
    seq!['\'', '\\', '\'', '\'']
}

/// `s` as one single-quoted shell word.
pub open spec fn shell_quoted(s: Seq<char>) -> Seq<char> {
    seq!['\''] + replace_all(s, seq!['\''], quote_escape_seq()) + seq!['\'']
}

/// Quotes `s` for a POSIX shell: wraps it in single quotes and writes each
/// single quote inside as `'\''`.
pub fn shell_escape(s: &str) -> (r: String)
    ensures
        r@ == shell_quoted(s@),
{
    proof {
        reveal_strlit("'");
        reveal_strlit("'\\''");
        assert("'"@ =~= seq!['\'']);
        assert("'\\''"@ =~= quote_escape_seq());
    }
    let body = replace_str(s, "'", "'\\''");
    let opened = concat_str("'", body.as_str());
    concat_str(opened.as_str(), "'")
}

/// Replacing a pattern that does not occur leaves a sequence unchanged.
pub proof fn lemma_replace_absent(s: Seq<char>, pat: Seq<char>, rep: Seq<char>)
    requires
        pat.len() == 1,
        !s.contains(pat[0]),
    ensures
        replace_all(s, pat, rep) == s,
    decreases s.len(),
{
    if s.len() >= 1 {
        assert(s.subrange(0, 1) != pat) by {
            assert(s.subrange(0, 1)[0] == s[0]);
            assert(s.contains(s[0]));
        }
        let rest = s.subrange(1, s.len() as int);
        assert forall|c: char| rest.contains(c) implies s.contains(c) by {
            let k = choose|k: int| 0 <= k < rest.len() && rest[k] == c;
            assert(s[k + 1] == c);
        }
        lemma_replace_absent(rest, pat, rep);
        assert(seq![s[0]] + rest =~= s);
    }
}

/// A string without single quotes is quoted verbatim: `'` + s + `'`.
pub proof fn law_shell_escape_plain(s: Seq<char>)
    requires
        !s.contains('\''),
    ensures
        shell_quoted(s) == seq!['\''] + s + seq!['\''],
{
    lemma_replace_absent(s, seq!['\''], quote_escape_seq());
}

/// `c` in front of the word a reading gives, if it gives one.
pub open spec fn prepend_word(c: Seq<char>, w: Option<Seq<char>>) -> Option<Seq<char>> {
    match w {
        Some(x) => Some(c + x),
        None => None,
    }
}

/// Characters a POSIX shell takes literally outside quotes.
pub open spec fn shell_plain_char(c: char) -> bool {
    ('a' <= c && c <= 'z') || ('A' <= c && c <= 'Z') || ('0' <= c && c <= '9') || c == '_' || c == '-'
        || c == '.' || c == '/' || c == ',' || c == ':' || c == '@' || c == '%' || c == '+' || c == '='
}

/// How a POSIX shell reads `t` as a single word, inside single quotes when
/// `quoted`: a single quote opens or closes a quoted part, inside which every
/// character is literal; outside, a backslash takes the next character
/// literally and plain characters stand for themselves. `None` when the
/// text is not one word (an unclosed quote, or any other character outside
/// quotes, such as a blank, `$` or a backquote).
pub open spec fn shell_read_word(t: Seq<char>, quoted: bool) -> Option<Seq<char>>
    decreases t.len(),
{
    if t.len() == 0 {
        if quoted {
            None
        } else {
            Some(Seq::empty())
        }
    } else if quoted {
        if t[0] == '\'' {
            shell_read_word(t.drop_first(), false)
        } else {
            prepend_word(seq![t[0]], shell_read_word(t.drop_first(), true))
        }
    } else if t[0] == '\'' {
        shell_read_word(t.drop_first(), true)
    } else if t[0] == '\\' && t.len() >= 2 {
        prepend_word(seq![t[1]], shell_read_word(t.skip(2), false))
    } else if shell_plain_char(t[0]) {
        prepend_word(seq![t[0]], shell_read_word(t.drop_first(), false))
    } else {
        None
    }
}

/// Number of single quotes in a text.
pub open spec fn quote_count(s: Seq<char>) -> nat
    decreases s.len(),
{
    if s.len() == 0 {
        0
    } else {
        quote_count(s.drop_first()) + if s[0] == '\'' {
            1nat
        } else {
            0nat
        }
    }
}

proof fn lemma_replace_quote_step(s: Seq<char>)
    requires
        s.len() > 0,
    ensures
        replace_all(s, seq!['\''], quote_escape_seq()) == if s[0] == '\'' {
            quote_escape_seq() + replace_all(s.drop_first(), seq!['\''], quote_escape_seq())
        } else {
            seq![s[0]] + replace_all(s.drop_first(), seq!['\''], quote_escape_seq())
        },
{
    assert(s.subrange(1, s.len() as int) =~= s.drop_first());
    if s[0] == '\'' {
        assert(s.subrange(0, 1) =~= seq!['\'']);
    } else {
        assert(s.subrange(0, 1) != seq!['\''] ) by {
            assert(s.subrange(0, 1)[0] == s[0]);
        }
    }
}

proof fn lemma_read_escaped(s: Seq<char>, rest: Seq<char>)
    ensures
        shell_read_word(replace_all(s, seq!['\''], quote_escape_seq()) + seq!['\''] + rest, true)
            == prepend_word(s, shell_read_word(rest, false)),
    decreases s.len(),
{
    let q = seq!['\''];
    if s.len() == 0 {
        assert(replace_all(s, q, quote_escape_seq()) =~= Seq::<char>::empty());
        let t = replace_all(s, q, quote_escape_seq()) + q + rest;
        assert(t =~= q + rest);
        assert(t.drop_first() =~= rest);
        assert(t[0] == '\'');
        assert(shell_read_word(t, true) == shell_read_word(rest, false));
        match shell_read_word(rest, false) {
            Some(x) => assert(s + x =~= x),
            None => {},
        }
    } else {
        lemma_replace_quote_step(s);
        lemma_read_escaped(s.drop_first(), rest);
        let tail = replace_all(s.drop_first(), q, quote_escape_seq()) + q + rest;
        let t = replace_all(s, q, quote_escape_seq()) + q + rest;
        if s[0] == '\'' {
            assert(t =~= quote_escape_seq() + tail);
            assert(t.drop_first() =~= seq!['\\', '\'', '\''] + tail);
            let u = t.drop_first();
            assert(u[0] == '\\' && u[1] == '\'');
            assert(u.skip(2) =~= seq!['\''] + tail);
            assert(u.skip(2).drop_first() =~= tail);
            assert(t[0] == '\'');
            assert(shell_read_word(t, true) == shell_read_word(u, false));
            assert(shell_read_word(u, false) == prepend_word(seq![u[1]], shell_read_word(u.skip(2), false)));
            assert(u.skip(2)[0] == '\'');
            assert(shell_read_word(u.skip(2), false) == shell_read_word(tail, true));
            match shell_read_word(rest, false) {
                Some(x) => assert(seq!['\''] + (s.drop_first() + x) =~= s + x),
                None => {},
            }
        } else {
            assert(t =~= seq![s[0]] + tail);
            assert(t.drop_first() =~= tail);
            assert(t[0] == s[0]);
            assert(shell_read_word(t, true) == prepend_word(seq![s[0]], shell_read_word(tail, true)));
            match shell_read_word(rest, false) {
                Some(x) => assert(seq![s[0]] + (s.drop_first() + x) =~= s + x),
                None => {},
            }
        }
    }
}

/// A shell reads a quoted text back as exactly that text, in one word:
/// nothing in it is expanded or split.
pub proof fn law_shell_escape_reads_back(s: Seq<char>)
    ensures
        shell_read_word(shell_quoted(s), false) == Some(s),
{
    let q = seq!['\''];
    let t = shell_quoted(s);
    lemma_read_escaped(s, Seq::empty());
    assert(t.drop_first() =~= replace_all(s, q, quote_escape_seq()) + q + Seq::<char>::empty());
    assert(t[0] == '\'');
    assert(shell_read_word(t, false) == shell_read_word(t.drop_first(), true));
    assert(shell_read_word(Seq::<char>::empty(), false) == Some(Seq::<char>::empty()));
    assert(s + Seq::<char>::empty() =~= s);
}

proof fn lemma_replace_quote_len(s: Seq<char>)
    ensures
        replace_all(s, seq!['\''], quote_escape_seq()).len() == s.len() + 3 * quote_count(s),
    decreases s.len(),
{
    if s.len() > 0 {
        lemma_replace_quote_step(s);
        lemma_replace_quote_len(s.drop_first());
    }
}

/// A quoted text is two characters longer than the text, and three more
/// for each single quote in it.
pub proof fn law_shell_escape_length(s: Seq<char>)
    ensures
        shell_quoted(s).len() == s.len() + 2 + 3 * quote_count(s),
{
    lemma_replace_quote_len(s);
}

/// The timeout of a step: its own, or the default.
pub fn resolved_step_timeout_secs(step_timeout_secs: Option<u64>) -> (r: u64)
    ensures
        r == match step_timeout_secs {
            Some(t) => t,
            None => DEFAULT_STEP_TIMEOUT_SECS,
        },
{
    match step_timeout_secs {
        Some(t) => t,
        None => DEFAULT_STEP_TIMEOUT_SECS,
    }
}

/// The validation status that turns a clean exit into a failure.
pub open spec fn failed_status() -> Seq<char> {
    seq!['f', 'a', 'i', 'l', 'e', 'd']
}

/// The exit code recorded for a phase: a clean exit whose output failed
/// validation becomes `VALIDATION_FAILED_EXIT_CODE`; any other code stays.
pub open spec fn spec_effective_exit_code(exit_code: i64, validation_status: Seq<char>) -> i64 {
    if exit_code == 0 && validation_status == failed_status() {
        VALIDATION_FAILED_EXIT_CODE
    } else {
        exit_code
    }
}

/// See `spec_effective_exit_code`.
pub fn effective_exit_code(exit_code: i64, validation_status: &str) -> (r: i64)
    ensures
        r == spec_effective_exit_code(exit_code, validation_status@),
{
    proof {
        reveal_strlit("failed");
        assert("failed"@ =~= failed_status());
    }
    if exit_code == 0 && str_eq(validation_status, "failed") {
        VALIDATION_FAILED_EXIT_CODE
    } else {
        exit_code
    }
}

/// Output sizes seen at the previous heartbeat, and how many heartbeats in a
/// row showed no progress.
pub struct HeartbeatProgress {
    pub last_stdout_bytes: u64,
    pub last_stderr_bytes: u64,
    pub stagnant_heartbeats: u32,
}

impl Default for HeartbeatProgress {
    fn default() -> (r: Self)
        ensures
            r.last_stdout_bytes == 0,
            r.last_stderr_bytes == 0,
            r.stagnant_heartbeats == 0,
    {
        HeartbeatProgress { last_stdout_bytes: 0, last_stderr_bytes: 0, stagnant_heartbeats: 0 }
    }
}

/// What one heartbeat reports.
pub struct HeartbeatSample {
    pub stdout_bytes: u64,
    pub stderr_bytes: u64,
    pub stdout_delta_bytes: u64,
    pub stderr_delta_bytes: u64,
    pub stagnant_heartbeats: u32,
    /// `active`, `quiet` or `low_output`.
    pub output_state: String,
}

/// `a - b`, or 0 when `b` is larger.
pub open spec fn sat_sub(a: u64, b: u64) -> int {
    if a >= b {
        a - b
    } else {
        0
    }
}

/// The trailing part of an output log that is read back.
pub struct LimitedOutput {
    /// The bytes read, decoded as UTF-8 (invalid sequences replaced).
    pub text: String,
    /// How many leading bytes of the log were left out.
    pub truncated_prefix_bytes: u64,
}

/// Where reading an output log of `file_len` bytes starts, so that at most
/// `max_bytes` trailing bytes are read: the number of bytes left out.
pub fn output_tail_start(file_len: u64, max_bytes: u64) -> (r: u64)
    ensures
        r == sat_sub(file_len, max_bytes),
        file_len - r <= max_bytes,
        r <= file_len,
{
    if file_len >= max_bytes {
        file_len - max_bytes
    } else {
        0
    }
}

/// The output states a heartbeat can report.
pub open spec fn state_active() -> Seq<char> {
    seq!['a', 'c', 't', 'i', 'v', 'e']
}

pub open spec fn state_quiet() -> Seq<char> {
    seq!['q', 'u', 'i', 'e', 't']
}

pub open spec fn state_low_output() -> Seq<char> {
    seq!['l', 'o', 'w', '_', 'o', 'u', 't', 'p', 'u', 't']
}

/// The state reported for a heartbeat: `quiet` once the process is gone;
/// `low_output` after enough time and enough stagnant heartbeats; otherwise
/// `quiet` or `active` by whether the new output exceeds the threshold.
pub open spec fn heartbeat_state(pid_alive: bool, elapsed_secs: u64, stagnant: int, delta: int) -> Seq<
    char,
> {
    if !pid_alive {
        state_quiet()
    } else if elapsed_secs >= LOW_OUTPUT_MIN_ELAPSED_SECS && stagnant
        >= LOW_OUTPUT_CONSECUTIVE_HEARTBEATS && delta <= LOW_OUTPUT_DELTA_THRESHOLD_BYTES {
        state_low_output()
    } else if delta <= LOW_OUTPUT_DELTA_THRESHOLD_BYTES {
        state_quiet()
    } else {
        state_active()
    }
}

/// New output since the last heartbeat, over both logs.
pub open spec fn heartbeat_delta(progress: HeartbeatProgress, stdout_bytes: u64, stderr_bytes: u64) -> int {
    sat_sub(stdout_bytes, progress.last_stdout_bytes) + sat_sub(stderr_bytes, progress.last_stderr_bytes)
}

/// Records one heartbeat: the output deltas, the run of stagnant heartbeats
/// (reset by any heartbeat with more than the threshold of new output), and
/// the reported output state.
pub fn sample_heartbeat_progress(
    progress: &mut HeartbeatProgress,
    stdout_bytes: u64,
    stderr_bytes: u64,
    elapsed_secs: u64,
    pid_alive: bool,
) -> (sample: HeartbeatSample)
    requires
        heartbeat_delta(*old(progress), stdout_bytes, stderr_bytes) <= u64::MAX,
        heartbeat_delta(*old(progress), stdout_bytes, stderr_bytes) <= LOW_OUTPUT_DELTA_THRESHOLD_BYTES
            ==> old(progress).stagnant_heartbeats < u32::MAX,
    ensures
        ({
            let delta = heartbeat_delta(*old(progress), stdout_bytes, stderr_bytes);
            &&& sample.stdout_bytes == stdout_bytes
            &&& sample.stderr_bytes == stderr_bytes
            &&& sample.stdout_delta_bytes == sat_sub(stdout_bytes, old(progress).last_stdout_bytes)
            &&& sample.stderr_delta_bytes == sat_sub(stderr_bytes, old(progress).last_stderr_bytes)
            &&& final(progress).stagnant_heartbeats == (if delta <= LOW_OUTPUT_DELTA_THRESHOLD_BYTES {
                old(progress).stagnant_heartbeats + 1
            } else {
                0
            })
            &&& sample.stagnant_heartbeats == final(progress).stagnant_heartbeats
            &&& sample.output_state@ == heartbeat_state(
                pid_alive,
                elapsed_secs,
                final(progress).stagnant_heartbeats as int,
                delta,
            )
            &&& final(progress).last_stdout_bytes == stdout_bytes
            &&& final(progress).last_stderr_bytes == stderr_bytes
        }),
{
    let stdout_delta_bytes = stdout_bytes.saturating_sub(progress.last_stdout_bytes);
    let stderr_delta_bytes = stderr_bytes.saturating_sub(progress.last_stderr_bytes);
    let total_delta = stdout_delta_bytes + stderr_delta_bytes;

    if total_delta <= LOW_OUTPUT_DELTA_THRESHOLD_BYTES {
        progress.stagnant_heartbeats = progress.stagnant_heartbeats + 1;
    } else {
        progress.stagnant_heartbeats = 0;
    }

    proof {
        reveal_strlit("quiet");
        reveal_strlit("low_output");
        reveal_strlit("active");
    }
    let output_state = if !pid_alive {
        String::from_str("quiet")
    } else if elapsed_secs >= LOW_OUTPUT_MIN_ELAPSED_SECS && progress.stagnant_heartbeats
        >= LOW_OUTPUT_CONSECUTIVE_HEARTBEATS && total_delta <= LOW_OUTPUT_DELTA_THRESHOLD_BYTES {
        String::from_str("low_output")
    } else if total_delta <= LOW_OUTPUT_DELTA_THRESHOLD_BYTES {
        String::from_str("quiet")
    } else {
        String::from_str("active")
    };

    progress.last_stdout_bytes = stdout_bytes;
    progress.last_stderr_bytes = stderr_bytes;

    HeartbeatSample {
        stdout_bytes,
        stderr_bytes,
        stdout_delta_bytes,
        stderr_delta_bytes,
        stagnant_heartbeats: progress.stagnant_heartbeats,
        output_state,
    }
}

/// A process that is gone is never reported as making progress or as
/// `low_output`, however long it ran.
pub proof fn law_dead_process_is_quiet(elapsed_secs: u64, stagnant: int, delta: int)
    ensures
        heartbeat_state(false, elapsed_secs, stagnant, delta) == state_quiet(),
{
}

/// `low_output` is reported only for a live process that has run at least
/// the minimum time, with at least the required run of stagnant heartbeats.
pub proof fn law_low_output_needs_time_and_stagnation(
    pid_alive: bool,
    elapsed_secs: u64,
    stagnant: int,
    delta: int,
)
    requires
        heartbeat_state(pid_alive, elapsed_secs, stagnant, delta) == state_low_output(),
    ensures
        pid_alive,
        elapsed_secs >= LOW_OUTPUT_MIN_ELAPSED_SECS,
        stagnant >= LOW_OUTPUT_CONSECUTIVE_HEARTBEATS,
        delta <= LOW_OUTPUT_DELTA_THRESHOLD_BYTES,
{
    assert(state_quiet() != state_low_output()) by {
        assert(state_quiet().len() != state_low_output().len());
    }
    assert(state_active() != state_low_output()) by {
        assert(state_active().len() != state_low_output().len());
    }
}

} // verus!
