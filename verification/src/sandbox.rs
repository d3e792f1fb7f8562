use vstd::prelude::*;
use crate::strmap::{StrMap, text_view};
use crate::spill::{byte_len, utf8_len};
use crate::text::{contains_sub, contains_str, chars_of, string_from, all_digits, seq_eq};
use crate::scan::{
    words, lines, trim, trim_by, split_words, split_lines, trim_chars, trim_chars_by, vviews,
    split_once, split_once_chars, rsplit_once, rsplit_once_chars, starts_with, starts_with_str,
    has_ascii_alpha, any_ascii_alpha, all_ascii_digits, contains_char, sub_index, find_sub_index,
    slice_chars,
};

verus! {

/// A resource whose limit a sandboxed process can exceed.
#[derive(Clone, Copy, Debug, PartialEq, Eq, Structural)]
pub enum SandboxResourceKind {
    Memory,
    Cpu,
    Processes,
    OpenFiles,
}

/// The name of a resource.
pub open spec fn resource_name(k: SandboxResourceKind) -> Seq<char> {
    match k {
        SandboxResourceKind::Memory => "memory"@,
        SandboxResourceKind::Cpu => "cpu"@,
        SandboxResourceKind::Processes => "processes"@,
        SandboxResourceKind::OpenFiles => "open_files"@,
    }
}

/// The reason code reported when a resource limit is exceeded.
pub open spec fn resource_reason(k: SandboxResourceKind) -> Seq<char> {
    match k {
        SandboxResourceKind::Memory => "memory_limit_exceeded"@,
        SandboxResourceKind::Cpu => "cpu_limit_exceeded"@,
        SandboxResourceKind::Processes => "processes_limit_exceeded"@,
        SandboxResourceKind::OpenFiles => "open_files_limit_exceeded"@,
    }
}

impl SandboxResourceKind {
    /// `memory`, `cpu`, `processes` or `open_files`.
    pub fn as_str(&self) -> (r: String)
        ensures
            r@ == resource_name(*self),
    {
        match self {
            SandboxResourceKind::Memory => String::from_str("memory"),
            SandboxResourceKind::Cpu => String::from_str("cpu"),
            SandboxResourceKind::Processes => String::from_str("processes"),
            SandboxResourceKind::OpenFiles => String::from_str("open_files"),
        }
    }
}

/// The reason code of an exceeded resource limit.
pub fn resource_kind_reason_code(resource_kind: &SandboxResourceKind) -> (r: String)
    ensures
        r@ == resource_reason(*resource_kind),
{
    match resource_kind {
        SandboxResourceKind::Memory => String::from_str("memory_limit_exceeded"),
        SandboxResourceKind::Cpu => String::from_str("cpu_limit_exceeded"),
        SandboxResourceKind::Processes => String::from_str("processes_limit_exceeded"),
        SandboxResourceKind::OpenFiles => String::from_str("open_files_limit_exceeded"),
    }
}

/// Whether a step runs on the host or in a sandbox.
#[derive(Clone, Copy, Debug, PartialEq, Eq, Structural)]
pub enum ExecutionProfileMode {
    Host,
    Sandbox,
}

/// Network policy of a sandbox.
#[derive(Clone, Copy, Debug, PartialEq, Eq, Structural)]
pub enum ExecutionNetworkMode {
    Inherit,
    Deny,
    Allowlist,
}

/// The parts of an execution profile that classify a failed run.
pub struct ResolvedExecutionProfile {
    pub name: String,
    pub mode: ExecutionProfileMode,
    pub network_mode: ExecutionNetworkMode,
    pub max_memory_mb: Option<u64>,
    pub max_cpu_seconds: Option<u64>,
    pub max_processes: Option<u64>,
    pub max_open_files: Option<u64>,
}

/// Marker that sandbox probes write into stderr.
pub open spec fn probe_prefix() -> Seq<char> {
    "SANDBOX_PROBE"@
}

/// The `key=value` fields of a probe line: each whitespace-separated token
/// other than the marker itself, split at its first `=`; a later field
/// overrides an earlier one with the same key.
pub open spec fn probe_fields(tokens: Seq<Seq<char>>) -> Map<Seq<char>, Seq<char>>
    decreases tokens.len(),
{
    if tokens.len() == 0 {
        Map::empty()
    } else {
        let m = probe_fields(tokens.drop_last());
        let t = tokens.last();
        if t == probe_prefix() {
            m
        } else {
            match split_once(t, '=') {
                Some(kv) => m.insert(kv.0, kv.1),
                None => m,
            }
        }
    }
}

/// Parses the fields of a probe line (see `probe_fields`).
pub fn parse_probe_fields(line: &Vec<char>) -> (r: StrMap<String>)
    ensures
        text_view(r) == probe_fields(words(line@)),
{
    let toks = split_words(line);
    let mut fields: StrMap<String> = StrMap::new();
    let mut i: usize = 0;
    let ghost tv = vviews(toks@);
    assert(tv.take(0) =~= Seq::<Seq<char>>::empty());
    assert(text_view(fields) =~= Map::<Seq<char>, Seq<char>>::empty());
    while i < toks.len()
        invariant
            i <= toks@.len(),
            tv == vviews(toks@),
            text_view(fields) == probe_fields(tv.take(i as int)),
        decreases toks@.len() - i,
    {
        assert(tv.take(i + 1).drop_last() =~= tv.take(i as int));
        assert(tv.take(i + 1).last() == toks@[i as int]@);
        let tok = &toks[i];
        proof {
            reveal_strlit("SANDBOX_PROBE");
        }
        let marker = chars_of("SANDBOX_PROBE");
        if !seq_eq(tok, &marker) {
            match split_once_chars(tok, '=') {
                Some(kv) => {
                    let (k, v) = kv;
                    fields.put(string_from(k.as_slice()), string_from(v.as_slice()));
                },
                None => {},
            }
        }
        i = i + 1;
    }
    assert(tv.take(toks@.len() as int) =~= tv);
    fields
}

/// The value of a field, if present.
pub open spec fn field(m: Map<Seq<char>, Seq<char>>, k: Seq<char>) -> Option<Seq<char>> {
    if m.dom().contains(k) {
        Some(m[k])
    } else {
        None
    }
}

fn get_field(m: &StrMap<String>, k: &str) -> (r: Option<Vec<char>>)
    ensures
        match r {
            Some(v) => field(text_view(*m), k@) == Some(v@),
            None => field(text_view(*m), k@) is None,
        },
{
    match m.get(k) {
        Some(v) => Some(chars_of(v.as_str())),
        None => None,
    }
}

/// What a probe line reports.
pub enum SandboxProbeKind {
    Resource(SandboxResourceKind),
    NetworkBlocked,
}

/// A probe line's report: its kind, the reason code (also the reason), and
/// for a blocked connection the target it names.
pub struct SandboxProbeMarker {
    pub kind: SandboxProbeKind,
    pub reason_code: String,
    pub reason: String,
    pub network_target: Option<String>,
}

/// The reason code of a blocked connection, from the probe's `reason_code`.
pub open spec fn network_reason(rc: Option<Seq<char>>) -> Seq<char> {
    if rc == Some("network_allowlist_blocked"@) {
        "network_allowlist_blocked"@
    } else if rc == Some("unsupported_backend_feature"@) {
        "unsupported_backend_feature"@
    } else {
        "network_blocked"@
    }
}

/// The report of a probe line with these fields: a known `resource` names an
/// exceeded limit; otherwise `network=blocked` names a blocked connection.
pub open spec fn marker_of(m: Map<Seq<char>, Seq<char>>) -> Option<
    (SandboxProbeKind, Seq<char>, Option<Seq<char>>),
> {
    let res = field(m, "resource"@);
    if res == Some("open_files"@) {
        Some((SandboxProbeKind::Resource(SandboxResourceKind::OpenFiles), resource_reason(SandboxResourceKind::OpenFiles), None))
    } else if res == Some("cpu"@) {
        Some((SandboxProbeKind::Resource(SandboxResourceKind::Cpu), resource_reason(SandboxResourceKind::Cpu), None))
    } else if res == Some("memory"@) {
        Some((SandboxProbeKind::Resource(SandboxResourceKind::Memory), resource_reason(SandboxResourceKind::Memory), None))
    } else if res == Some("processes"@) {
        Some((SandboxProbeKind::Resource(SandboxResourceKind::Processes), resource_reason(SandboxResourceKind::Processes), None))
    } else if field(m, "network"@) == Some("blocked"@) {
        Some((SandboxProbeKind::NetworkBlocked, network_reason(field(m, "reason_code"@)), field(m, "target"@)))
    } else {
        None
    }
}

/// The last line that contains the probe marker.
pub open spec fn last_probe_line(ls: Seq<Seq<char>>) -> Option<Seq<char>>
    decreases ls.len(),
{
    if ls.len() == 0 {
        None
    } else if contains_sub(ls.last(), probe_prefix()) {
        Some(ls.last())
    } else {
        last_probe_line(ls.drop_last())
    }
}

/// The report of the last probe line in the stderr tail, if any.
pub open spec fn probe_marker(tail: Seq<char>) -> Option<(SandboxProbeKind, Seq<char>, Option<Seq<char>>)> {
    match last_probe_line(lines(tail)) {
        None => None,
        Some(l) => marker_of(probe_fields(words(l))),
    }
}

fn opt_chars_eq(o: &Option<Vec<char>>, s: &str) -> (r: bool)
    ensures
        r == (match o {
            Some(v) => Some(v@),
            None => None,
        } == Some(s@)),
{
    match o {
        Some(v) => {
            let sv = chars_of(s);
            seq_eq(v, &sv)
        },
        None => false,
    }
}

/// The view of an optional string.
pub open spec fn opt_view(o: Option<String>) -> Option<Seq<char>> {
    match o {
        Some(s) => Some(s@),
        None => None,
    }
}

fn opt_chars_view(o: Option<Vec<char>>) -> (r: Option<String>)
    ensures
        opt_view(r) == match o {
            Some(v) => Some(v@),
            None => None,
        },
{
    match o {
        Some(v) => Some(string_from(v.as_slice())),
        None => None,
    }
}

fn find_probe_line(ls: &Vec<Vec<char>>) -> (r: Option<usize>)
    ensures
        match r {
            Some(k) => k < ls@.len() && last_probe_line(vviews(ls@)) == Some(ls@[k as int]@),
            None => last_probe_line(vviews(ls@)) is None,
        },
{
    let ghost lv = vviews(ls@);
    let mut j: usize = ls.len();
    assert(lv.take(j as int) =~= lv);
    proof {
        reveal_strlit("SANDBOX_PROBE");
    }
    while j > 0
        invariant
            j <= ls@.len(),
            lv == vviews(ls@),
            last_probe_line(lv) == last_probe_line(lv.take(j as int)),
        decreases j,
    {
        assert(lv.take(j as int).drop_last() =~= lv.take(j - 1));
        assert(lv.take(j as int).last() == ls@[j - 1]@);
        if contains_str(&ls[j - 1], "SANDBOX_PROBE") {
            return Some(j - 1);
        }
        j = j - 1;
    }
    assert(lv.take(0) =~= Seq::<Seq<char>>::empty());
    None
}

/// Reads the report of the last probe line (see `probe_marker`).
pub fn detect_probe_marker(stderr_tail: &Vec<char>) -> (r: Option<SandboxProbeMarker>)
    ensures
        match probe_marker(stderr_tail@) {
            None => r is None,
            Some(m) => r matches Some(x) && x.kind == m.0 && x.reason_code@ == m.1 && x.reason@
                == m.1 && opt_view(x.network_target) == m.2,
        },
{
    let ls = split_lines(stderr_tail);
    let idx = match find_probe_line(&ls) {
        Some(k) => k,
        None => {
            return None;
        },
    };
    let fields = parse_probe_fields(&ls[idx]);
    let ghost m = text_view(fields);
    let res = get_field(&fields, "resource");
    if opt_chars_eq(&res, "open_files") {
        return Some(SandboxProbeMarker {
            kind: SandboxProbeKind::Resource(SandboxResourceKind::OpenFiles),
            reason_code: String::from_str("open_files_limit_exceeded"),
            reason: String::from_str("open_files_limit_exceeded"),
            network_target: None,
        });
    }
    if opt_chars_eq(&res, "cpu") {
        return Some(SandboxProbeMarker {
            kind: SandboxProbeKind::Resource(SandboxResourceKind::Cpu),
            reason_code: String::from_str("cpu_limit_exceeded"),
            reason: String::from_str("cpu_limit_exceeded"),
            network_target: None,
        });
    }
    if opt_chars_eq(&res, "memory") {
        return Some(SandboxProbeMarker {
            kind: SandboxProbeKind::Resource(SandboxResourceKind::Memory),
            reason_code: String::from_str("memory_limit_exceeded"),
            reason: String::from_str("memory_limit_exceeded"),
            network_target: None,
        });
    }
    if opt_chars_eq(&res, "processes") {
        return Some(SandboxProbeMarker {
            kind: SandboxProbeKind::Resource(SandboxResourceKind::Processes),
            reason_code: String::from_str("processes_limit_exceeded"),
            reason: String::from_str("processes_limit_exceeded"),
            network_target: None,
        });
    }
    let net = get_field(&fields, "network");
    if opt_chars_eq(&net, "blocked") {
        let rc = get_field(&fields, "reason_code");
        let code = if opt_chars_eq(&rc, "network_allowlist_blocked") {
            String::from_str("network_allowlist_blocked")
        } else if opt_chars_eq(&rc, "unsupported_backend_feature") {
            String::from_str("unsupported_backend_feature")
        } else {
            String::from_str("network_blocked")
        };
        let reason = String::from_str(code.as_str());
        let target = opt_chars_view(get_field(&fields, "target"));
        return Some(SandboxProbeMarker {
            kind: SandboxProbeKind::NetworkBlocked,
            reason_code: code,
            reason,
            network_target: target,
        });
    }
    None
}

} // verus!

verus! {

/// The last line that is not blank.
pub open spec fn last_nonblank(ls: Seq<Seq<char>>) -> Option<Seq<char>>
    decreases ls.len(),
{
    if ls.len() == 0 {
        None
    } else if trim(ls.last()).len() > 0 {
        Some(ls.last())
    } else {
        last_nonblank(ls.drop_last())
    }
}

/// The excerpt of stderr reported with a denial: its last non-blank line,
/// trimmed; none when stderr is blank.
pub open spec fn stderr_excerpt(tail: Seq<char>) -> Option<Seq<char>> {
    let base = match last_nonblank(lines(tail)) {
        Some(l) => l,
        None => tail,
    };
    if trim(base).len() == 0 {
        None
    } else {
        Some(trim(base))
    }
}

/// See `stderr_excerpt`.
pub fn sanitize_stderr_excerpt(stderr_tail: &Vec<char>) -> (r: Option<String>)
    ensures
        opt_view(r) == stderr_excerpt(stderr_tail@),
{
    let ls = split_lines(stderr_tail);
    let ghost lv = vviews(ls@);
    let mut j: usize = ls.len();
    assert(lv.take(j as int) =~= lv);
    while j > 0
        invariant
            j <= ls@.len(),
            lv == vviews(ls@),
            lv == lines(stderr_tail@),
            last_nonblank(lv) == last_nonblank(lv.take(j as int)),
        decreases j,
    {
        assert(lv.take(j as int).drop_last() =~= lv.take(j - 1));
        assert(lv.take(j as int).last() == ls@[j - 1]@);
        let t = trim_chars(&ls[j - 1]);
        if t.len() > 0 {
            proof {
                assert(last_nonblank(lv) == Some(ls@[j - 1]@));
                assert(lines(stderr_tail@) == lv);
            }
            return Some(string_from(t.as_slice()));
        }
        j = j - 1;
    }
    assert(lv.take(0) =~= Seq::<Seq<char>>::empty());
    let e = trim_chars(stderr_tail);
    if e.len() == 0 {
        None
    } else {
        Some(string_from(e.as_slice()))
    }
}

/// What `str::to_lowercase` gives for a text.
pub uninterp spec fn lowercase_of(s: Seq<char>) -> Seq<char>;

/// Lowercases a text.
///
/// Trusted: calls `str::to_lowercase`, whose result (by the Unicode
/// `Lowercase` mapping) depends on the text alone; the contract names that
/// result and states nothing more of it.
#[verifier::external_body]
fn to_lowercase(s: &str) -> (r: String)
    ensures
        r@ == lowercase_of(s@),
{
    s.to_lowercase()
}

/// Phrases of lowercased stderr that point at a refused network access.
pub open spec fn network_denial_text(lower: Seq<char>) -> bool {
    contains_sub(lower, "connect"@) || contains_sub(lower, "network"@) || contains_sub(lower, "curl:"@)
        || contains_sub(lower, "wget:"@) || contains_sub(lower, "fetch"@) || contains_sub(
        lower,
        "connection"@,
    ) || contains_sub(lower, "socket"@) || contains_sub(lower, "resolve"@) || contains_sub(
        lower,
        "could not resolve host"@,
    ) || contains_sub(lower, "name or service not known"@) || contains_sub(
        lower,
        "temporary failure in name resolution"@,
    ) || contains_sub(lower, "nodename nor servname provided"@) || contains_sub(
        lower,
        "no route to host"@,
    ) || contains_sub(lower, "network is unreachable"@)
}

/// See `network_denial_text`.
pub fn looks_like_network_denial(lower_stderr: &Vec<char>) -> (r: bool)
    ensures
        r == network_denial_text(lower_stderr@),
{
    let l = lower_stderr;
    contains_str(l, "connect") || contains_str(l, "network") || contains_str(l, "curl:")
        || contains_str(l, "wget:") || contains_str(l, "fetch") || contains_str(l, "connection")
        || contains_str(l, "socket") || contains_str(l, "resolve") || contains_str(
        l,
        "could not resolve host",
    ) || contains_str(l, "name or service not known") || contains_str(
        l,
        "temporary failure in name resolution",
    ) || contains_str(l, "nodename nor servname provided") || contains_str(l, "no route to host")
        || contains_str(l, "network is unreachable")
}

/// The limit a failed sandboxed run exceeded, judged from lowercased stderr
/// and whether the process died of the CPU-limit signal; a limit counts only
/// when the profile sets it.
pub open spec fn resource_exceeded(
    p: ResolvedExecutionProfile,
    cpu_signal: bool,
    lower: Seq<char>,
) -> Option<SandboxResourceKind> {
    if cpu_signal && p.max_cpu_seconds is Some {
        Some(SandboxResourceKind::Cpu)
    } else if p.max_open_files is Some && contains_sub(lower, "too many open files"@) {
        Some(SandboxResourceKind::OpenFiles)
    } else if p.max_processes is Some && contains_sub(lower, "resource temporarily unavailable"@) {
        Some(SandboxResourceKind::Processes)
    } else if p.max_memory_mb is Some && (contains_sub(lower, "cannot allocate memory"@)
        || contains_sub(lower, "out of memory"@) || contains_sub(lower, "memory exhausted"@)) {
        Some(SandboxResourceKind::Memory)
    } else {
        None
    }
}

/// Which limit a failed run broke: a CPU-limit signal with a CPU limit
/// set is a CPU breach; otherwise `too many open files` with an open-file
/// limit, then `resource temporarily unavailable` with a process limit, then
/// an allocation failure (`cannot allocate memory`, `out of memory`,
/// `memory exhausted`) with a memory limit; a limit that is not set is never
/// reported as broken.
pub proof fn law_resource_limit_classification(p: ResolvedExecutionProfile, cpu_signal: bool, lower: Seq<char>)
    ensures
        (cpu_signal && p.max_cpu_seconds is Some) ==> resource_exceeded(p, cpu_signal, lower) == Some(
            SandboxResourceKind::Cpu,
        ),
        (!(cpu_signal && p.max_cpu_seconds is Some) && p.max_open_files is Some && contains_sub(
            lower,
            "too many open files"@,
        )) ==> resource_exceeded(p, cpu_signal, lower) == Some(SandboxResourceKind::OpenFiles),
        (!(cpu_signal && p.max_cpu_seconds is Some) && !(p.max_open_files is Some && contains_sub(
            lower,
            "too many open files"@,
        )) && p.max_processes is Some && contains_sub(lower, "resource temporarily unavailable"@))
            ==> resource_exceeded(p, cpu_signal, lower) == Some(SandboxResourceKind::Processes),
        (!(cpu_signal && p.max_cpu_seconds is Some) && !(p.max_open_files is Some && contains_sub(
            lower,
            "too many open files"@,
        )) && !(p.max_processes is Some && contains_sub(lower, "resource temporarily unavailable"@))
            && p.max_memory_mb is Some && (contains_sub(lower, "cannot allocate memory"@) || contains_sub(
            lower,
            "out of memory"@,
        ) || contains_sub(lower, "memory exhausted"@))) ==> resource_exceeded(p, cpu_signal, lower)
            == Some(SandboxResourceKind::Memory),
        resource_exceeded(p, cpu_signal, lower) == Some(SandboxResourceKind::Cpu) ==> cpu_signal
            && p.max_cpu_seconds is Some,
        resource_exceeded(p, cpu_signal, lower) == Some(SandboxResourceKind::OpenFiles) ==> p.max_open_files is Some
            && contains_sub(lower, "too many open files"@),
        resource_exceeded(p, cpu_signal, lower) == Some(SandboxResourceKind::Processes) ==> p.max_processes is Some
            && contains_sub(lower, "resource temporarily unavailable"@),
        resource_exceeded(p, cpu_signal, lower) == Some(SandboxResourceKind::Memory) ==> p.max_memory_mb is Some,
        (p.max_cpu_seconds is None && p.max_open_files is None && p.max_processes is None
            && p.max_memory_mb is None) ==> resource_exceeded(p, cpu_signal, lower) is None,
{
}

/// See `resource_exceeded`.
pub fn detect_resource_exceeded(
    execution_profile: &ResolvedExecutionProfile,
    cpu_signal: bool,
    lower_stderr: &Vec<char>,
) -> (r: Option<SandboxResourceKind>)
    ensures
        r == resource_exceeded(*execution_profile, cpu_signal, lower_stderr@),
{
    let p = execution_profile;
    let l = lower_stderr;
    if cpu_signal && p.max_cpu_seconds.is_some() {
        return Some(SandboxResourceKind::Cpu);
    }
    if p.max_open_files.is_some() && contains_str(l, "too many open files") {
        return Some(SandboxResourceKind::OpenFiles);
    }
    if p.max_processes.is_some() && contains_str(l, "resource temporarily unavailable") {
        return Some(SandboxResourceKind::Processes);
    }
    if p.max_memory_mb.is_some() && (contains_str(l, "cannot allocate memory") || contains_str(
        l,
        "out of memory",
    ) || contains_str(l, "memory exhausted")) {
        return Some(SandboxResourceKind::Memory);
    }
    None
}

/// `host:port` with a non-empty host and an all-digit, non-empty port after
/// the last colon.
pub open spec fn numeric_port_suffix(v: Seq<char>) -> bool {
    match rsplit_once(v, ':') {
        None => false,
        Some(hp) => hp.0.len() > 0 && hp.1.len() > 0 && all_digits(hp.1),
    }
}

/// See `numeric_port_suffix`.
pub fn has_numeric_port_suffix(value: &Vec<char>) -> (r: bool)
    ensures
        r == numeric_port_suffix(value@),
{
    match rsplit_once_chars(value, ':') {
        None => false,
        Some(hp) => {
            let (host, port) = hp;
            host.len() > 0 && port.len() > 0 && all_ascii_digits(&port)
        },
    }
}

} // verus!

verus! {

/// Brackets and quotes stripped from the ends of a token.
pub open spec fn quote_set() -> Seq<char> {
    seq!['(', ')', '[', ']', '{', '}', '<', '>', '"', ',', '\'', '"']
}

fn quote_set_exec() -> (r: Vec<char>)
    ensures
        r@ == quote_set(),
{
    let mut v: Vec<char> = Vec::new();
    v.push('(');
    v.push(')');
    v.push('[');
    v.push(']');
    v.push('{');
    v.push('}');
    v.push('<');
    v.push('>');
    v.push('"');
    v.push(',');
    v.push('\'');
    v.push('"');
    assert(v@ =~= quote_set());
    v
}

/// A token without brackets and quotes at its ends.
pub open spec fn unquoted(t: Seq<char>) -> Seq<char> {
    trim_by(t, Some(quote_set()))
}

fn unquote(t: &Vec<char>) -> (r: Vec<char>)
    ensures
        r@ == unquoted(t@),
{
    let q = quote_set_exec();
    trim_chars_by(t, &Some(q))
}

/// A URL with an `http` or `https` scheme.
pub open spec fn is_url(t: Seq<char>) -> bool {
    starts_with(t, "http://"@) || starts_with(t, "https://"@)
}

/// The first token that, unquoted, is a URL.
pub open spec fn first_url(ts: Seq<Seq<char>>) -> Option<Seq<char>>
    decreases ts.len(),
{
    if ts.len() == 0 {
        None
    } else if is_url(unquoted(ts[0])) {
        Some(unquoted(ts[0]))
    } else {
        first_url(ts.drop_first())
    }
}

/// A token that looks like `host:port` or a dotted host with a colon.
pub open spec fn is_host_like(t: Seq<char>) -> bool {
    &&& t.contains(':')
    &&& !starts_with(t, seq!['/'])
    &&& !(t.len() > 0 && t.last() == ':')
    &&& has_ascii_alpha(t)
    &&& (t.contains('.') || numeric_port_suffix(t))
    &&& t != "curl:"@
    &&& t != "wget:"@
}

/// The first token that, unquoted, looks like a host.
pub open spec fn first_host_like(ts: Seq<Seq<char>>) -> Option<Seq<char>>
    decreases ts.len(),
{
    if ts.len() == 0 {
        None
    } else if is_host_like(unquoted(ts[0])) {
        Some(unquoted(ts[0]))
    } else {
        first_host_like(ts.drop_first())
    }
}

/// Punctuation stripped from the ends of an extracted host.
pub open spec fn host_punct() -> Seq<char> {
    seq![',', '.', ';']
}

/// The character position of `s` at which its first `b` bytes of UTF-8
/// end, when `b` falls on a character boundary.
pub open spec fn char_at_byte(s: Seq<char>, b: int) -> Option<int> {
    if exists|k: int| 0 <= k <= s.len() && byte_len(#[trigger] s.take(k)) == b {
        Some(choose|k: int| 0 <= k <= s.len() && byte_len(#[trigger] s.take(k)) == b)
    } else {
        None
    }
}

/// The host named after `marker` in a stderr line: the marker is searched in
/// the lowercased line, and the line is read from the byte offset at which
/// the marker ends in the lowercased line; its first word, unquoted and
/// without trailing punctuation, is the host. An offset that is not a
/// character boundary of the line (lowercasing changed the length of an
/// earlier character) names no host.
pub open spec fn host_after(line: Seq<char>, marker: Seq<char>) -> Option<Seq<char>> {
    let lower = lowercase_of(line);
    let idx = sub_index(lower, marker);
    if idx < 0 {
        None
    } else {
        match char_at_byte(line, byte_len(lower.take(idx)) + byte_len(marker)) {
            None => None,
            Some(k) => {
                let ws = words(unquoted(trim(line.skip(k))));
                let first = if ws.len() > 0 {
                    ws[0]
                } else {
                    Seq::<char>::empty()
                };
                let value = trim_by(first, Some(host_punct()));
                if value.len() == 0 {
                    None
                } else {
                    Some(value)
                }
            },
        }
    }
}

proof fn lemma_utf8_len_pos(c: char)
    ensures
        1 <= utf8_len(c) <= 4,
{
}

proof fn lemma_prefix_bytes_step(s: Seq<char>, i: int)
    requires
        0 <= i < s.len(),
    ensures
        byte_len(s.take(i + 1)) == byte_len(s.take(i)) + utf8_len(s[i]),
{
    assert(s.take(i + 1) =~= s.take(i).push(s[i]));
    crate::spill::lemma_byte_len_push(s.take(i), s[i]);
}

proof fn lemma_prefix_bytes_strict(s: Seq<char>, i: int, j: int)
    requires
        0 <= i < j <= s.len(),
    ensures
        byte_len(s.take(i)) < byte_len(s.take(j)),
    decreases j - i,
{
    lemma_prefix_bytes_step(s, j - 1);
    lemma_utf8_len_pos(s[j - 1]);
    if i < j - 1 {
        lemma_prefix_bytes_strict(s, i, j - 1);
    }
}

fn char_utf8_bytes(c: char) -> (r: u128)
    ensures
        r == utf8_len(c),
{
    let v = c as u32;
    if v < 0x80 {
        1
    } else if v < 0x800 {
        2
    } else if v < 0x10000 {
        3
    } else {
        4
    }
}

fn prefix_bytes(v: &Vec<char>, n: usize) -> (r: u128)
    requires
        n <= v@.len(),
    ensures
        r == byte_len(v@.take(n as int)),
        r <= 4 * n,
{
    let mut acc: u128 = 0;
    let mut i: usize = 0;
    assert(v@.take(0) =~= Seq::<char>::empty());
    while i < n
        invariant
            i <= n,
            n <= v@.len(),
            acc == byte_len(v@.take(i as int)),
            acc <= 4 * i,
        decreases n - i,
    {
        proof {
            lemma_prefix_bytes_step(v@, i as int);
            lemma_utf8_len_pos(v@[i as int]);
        }
        acc = acc + char_utf8_bytes(v[i]);
        i = i + 1;
    }
    acc
}

fn char_index_at_byte(s: &Vec<char>, b: u128) -> (r: Option<usize>)
    ensures
        match r {
            Some(k) => char_at_byte(s@, b as int) == Some(k as int),
            None => char_at_byte(s@, b as int) is None,
        },
{
    let mut acc: u128 = 0;
    let mut k: usize = 0;
    assert(s@.take(0) =~= Seq::<char>::empty());
    while k < s.len() && acc < b
        invariant
            k <= s@.len(),
            acc == byte_len(s@.take(k as int)),
            acc <= 4 * k,
            forall|j: int| 0 <= j < k ==> byte_len(#[trigger] s@.take(j)) < b,
        decreases s@.len() - k,
    {
        proof {
            lemma_prefix_bytes_step(s@, k as int);
            lemma_utf8_len_pos(s@[k as int]);
            assert forall|j: int| 0 <= j < k + 1 implies byte_len(#[trigger] s@.take(j)) < b by {
                if j == k {
                } else {
                }
            }
        }
        acc = acc + char_utf8_bytes(s[k]);
        k = k + 1;
    }
    if acc == b {
        proof {
            assert(byte_len(s@.take(k as int)) == b);
            let w = choose|w: int| 0 <= w <= s@.len() && byte_len(#[trigger] s@.take(w)) == b;
            if w < k {
                assert(byte_len(s@.take(w)) < b);
            } else if w > k {
                lemma_prefix_bytes_strict(s@, k as int, w);
            }
        }
        Some(k)
    } else {
        proof {
            assert forall|w: int| 0 <= w <= s@.len() implies byte_len(#[trigger] s@.take(w)) != b by {
                if w < k {
                } else if w > k {
                    lemma_prefix_bytes_strict(s@, k as int, w);
                }
            }
        }
        None
    }
}

/// The host a line names after one of the known phrases, tried in order.
pub open spec fn host_in_line(line: Seq<char>) -> Option<Seq<char>> {
    match host_after(line, "could not resolve host:"@) {
        Some(h) => Some(h),
        None => match host_after(line, "failed to connect to"@) {
            Some(h) => Some(h),
            None => host_after(line, "connection to"@),
        },
    }
}

/// The host named by the first line that names one.
pub open spec fn host_in_lines(ls: Seq<Seq<char>>) -> Option<Seq<char>>
    decreases ls.len(),
{
    if ls.len() == 0 {
        None
    } else {
        match host_in_line(ls[0]) {
            Some(h) => Some(h),
            None => host_in_lines(ls.drop_first()),
        }
    }
}

fn host_after_exec(line: &Vec<char>, lower: &Vec<char>, marker: &str) -> (r: Option<Vec<char>>)
    requires
        lower@ == lowercase_of(line@),
    ensures
        match r {
            Some(v) => host_after(line@, marker@) == Some(v@),
            None => host_after(line@, marker@) is None,
        },
{
    let idx = match find_sub_index(lower, marker) {
        Some(i) => i,
        None => {
            return None;
        },
    };
    proof {
        crate::scan::lemma_sub_index(lower@, marker@);
    }
    let mchars = chars_of(marker);
    let b = prefix_bytes(lower, idx) + prefix_bytes(&mchars, mchars.len());
    assert(mchars@.take(mchars@.len() as int) =~= marker@);
    let k = match char_index_at_byte(line, b) {
        Some(k) => k,
        None => {
            return None;
        },
    };
    let rest = slice_chars(line, k, line.len());
    assert(rest@ =~= line@.skip(k as int));
    let a = trim_chars(&rest);
    let b = unquote(&a);
    let ws = split_words(&b);
    let first: Vec<char> = if ws.len() > 0 {
        let mut f: Vec<char> = Vec::new();
        let w = &ws[0];
        let mut k: usize = 0;
        while k < w.len()
            invariant
                k <= w@.len(),
                f@ == w@.take(k as int),
            decreases w@.len() - k,
        {
            f.push(w[k]);
            k = k + 1;
            assert(f@ =~= w@.take(k as int));
        }
        assert(w@.take(w@.len() as int) =~= w@);
        f
    } else {
        Vec::new()
    };
    let mut p: Vec<char> = Vec::new();
    p.push(',');
    p.push('.');
    p.push(';');
    assert(p@ =~= host_punct());
    let value = trim_chars_by(&first, &Some(p));
    if value.len() == 0 {
        None
    } else {
        Some(value)
    }
}

fn host_in_line_exec(line: &Vec<char>) -> (r: Option<Vec<char>>)
    ensures
        match r {
            Some(v) => host_in_line(line@) == Some(v@),
            None => host_in_line(line@) is None,
        },
{
    let s = string_from(line.as_slice());
    let low = to_lowercase(s.as_str());
    let lower = chars_of(low.as_str());
    match host_after_exec(line, &lower, "could not resolve host:") {
        Some(h) => Some(h),
        None => match host_after_exec(line, &lower, "failed to connect to") {
            Some(h) => Some(h),
            None => host_after_exec(line, &lower, "connection to"),
        },
    }
}

/// Finds the host a stderr line names (see `host_in_lines`); the search for
/// the phrase runs over the lowercased line, and the host is read from the
/// line itself at the same byte offset.
pub fn extract_host_from_stderr(stderr_tail: &Vec<char>) -> (r: Option<String>)
    ensures
        opt_view(r) == host_in_lines(lines(stderr_tail@)),
{
    let ls = split_lines(stderr_tail);
    let ghost lv = vviews(ls@);
    let mut i: usize = 0;
    assert(lv.skip(0) =~= lv);
    while i < ls.len()
        invariant
            i <= ls@.len(),
            lv == vviews(ls@),
            lv == lines(stderr_tail@),
            host_in_lines(lv) == host_in_lines(lv.skip(i as int)),
        decreases ls@.len() - i,
    {
        assert(lv.skip(i as int)[0] == ls@[i as int]@);
        assert(lv.skip(i as int).drop_first() =~= lv.skip(i + 1));
        match host_in_line_exec(&ls[i]) {
            Some(h) => {
                return Some(string_from(h.as_slice()));
            },
            None => {},
        }
        i = i + 1;
    }
    None
}

/// The destination a network denial names: the first URL token, else a host
/// named after a known phrase, else the first host-like token.
pub open spec fn network_target(tail: Seq<char>) -> Option<Seq<char>> {
    match first_url(words(tail)) {
        Some(u) => Some(u),
        None => match host_in_lines(lines(tail)) {
            Some(h) => Some(h),
            None => first_host_like(words(tail)),
        },
    }
}

fn host_like_exec(t: &Vec<char>) -> (r: bool)
    ensures
        r == is_host_like(t@),
{
    proof {
        reveal_strlit("/");
        assert("/"@ =~= seq!['/']);
    }
    let ends_colon = t.len() > 0 && t[t.len() - 1] == ':';
    contains_char(t, ':') && !starts_with_str(t, "/") && !ends_colon && any_ascii_alpha(t) && (
    contains_char(t, '.') || has_numeric_port_suffix(t)) && !crate::text::str_eq(
        string_from(t.as_slice()).as_str(),
        "curl:",
    ) && !crate::text::str_eq(string_from(t.as_slice()).as_str(), "wget:")
}

/// See `network_target`.
pub fn detect_network_target(stderr_tail: &Vec<char>) -> (r: Option<String>)
    ensures
        opt_view(r) == network_target(stderr_tail@),
{
    let ts = split_words(stderr_tail);
    let ghost tv = vviews(ts@);
    let mut i: usize = 0;
    assert(tv.skip(0) =~= tv);
    while i < ts.len()
        invariant
            i <= ts@.len(),
            tv == vviews(ts@),
            tv == words(stderr_tail@),
            first_url(tv) == first_url(tv.skip(i as int)),
        decreases ts@.len() - i,
    {
        assert(tv.skip(i as int)[0] == ts@[i as int]@);
        assert(tv.skip(i as int).drop_first() =~= tv.skip(i + 1));
        let u = unquote(&ts[i]);
        if starts_with_str(&u, "http://") || starts_with_str(&u, "https://") {
            return Some(string_from(u.as_slice()));
        }
        i = i + 1;
    }
    assert(tv.skip(ts@.len() as int) =~= Seq::<Seq<char>>::empty());
    match extract_host_from_stderr(stderr_tail) {
        Some(h) => {
            return Some(h);
        },
        None => {},
    }
    let mut j: usize = 0;
    while j < ts.len()
        invariant
            j <= ts@.len(),
            tv == vviews(ts@),
            tv == words(stderr_tail@),
            first_url(tv) is None,
            host_in_lines(lines(stderr_tail@)) is None,
            first_host_like(tv) == first_host_like(tv.skip(j as int)),
        decreases ts@.len() - j,
    {
        assert(tv.skip(j as int)[0] == ts@[j as int]@);
        assert(tv.skip(j as int).drop_first() =~= tv.skip(j + 1));
        let u = unquote(&ts[j]);
        if host_like_exec(&u) {
            return Some(string_from(u.as_slice()));
        }
        j = j + 1;
    }
    None
}

} // verus!

verus! {

/// How a failed sandboxed run is classified.
pub struct SandboxViolationInfo {
    pub denied: bool,
    pub event_type: Option<String>,
    pub reason_code: Option<String>,
    pub reason: Option<String>,
    pub stderr_excerpt: Option<String>,
    pub resource_kind: Option<SandboxResourceKind>,
    pub network_target: Option<String>,
}

/// The classification with its texts as character sequences.
pub struct ViolationView {
    pub denied: bool,
    pub event_type: Option<Seq<char>>,
    pub reason_code: Option<Seq<char>>,
    pub reason: Option<Seq<char>>,
    pub stderr_excerpt: Option<Seq<char>>,
    pub resource_kind: Option<SandboxResourceKind>,
    pub network_target: Option<Seq<char>>,
}

impl SandboxViolationInfo {
    pub open spec fn view_of(&self) -> ViolationView {
        ViolationView {
            denied: self.denied,
            event_type: opt_view(self.event_type),
            reason_code: opt_view(self.reason_code),
            reason: opt_view(self.reason),
            stderr_excerpt: opt_view(self.stderr_excerpt),
            resource_kind: self.resource_kind,
            network_target: opt_view(self.network_target),
        }
    }

    /// No violation.
    pub fn none() -> (r: Self)
        ensures
            r.view_of() == no_violation(),
    {
        SandboxViolationInfo {
            denied: false,
            event_type: None,
            reason_code: None,
            reason: None,
            stderr_excerpt: None,
            resource_kind: None,
            network_target: None,
        }
    }
}

/// No violation.
pub open spec fn no_violation() -> ViolationView {
    ViolationView {
        denied: false,
        event_type: None,
        reason_code: None,
        reason: None,
        stderr_excerpt: None,
        resource_kind: None,
        network_target: None,
    }
}

/// A denial with the given event and reason code (also the reason).
pub open spec fn denial(
    event: Seq<char>,
    code: Seq<char>,
    excerpt: Option<Seq<char>>,
    kind: Option<SandboxResourceKind>,
    target: Option<Seq<char>>,
) -> ViolationView {
    ViolationView {
        denied: true,
        event_type: Some(event),
        reason_code: Some(code),
        reason: Some(code),
        stderr_excerpt: excerpt,
        resource_kind: kind,
        network_target: target,
    }
}

/// The classification of a finished run. Only a sandboxed run that exited
/// non-zero, and whose stderr could be read, can be a violation. Checked in
/// order: a probe line; an allowlist the backend cannot enforce; an exceeded
/// resource limit; a refused network access under a deny or allowlist
/// policy; a refused file write (`Operation not permitted`).
pub open spec fn violation(
    p: ResolvedExecutionProfile,
    exit_code: i32,
    exit_signal: Option<i32>,
    cpu_limit_signal: i32,
    stderr_tail: Option<Seq<char>>,
) -> ViolationView {
    if p.mode != ExecutionProfileMode::Sandbox || exit_code == 0 {
        no_violation()
    } else {
        match stderr_tail {
            None => no_violation(),
            Some(tail) => {
                let excerpt = stderr_excerpt(tail);
                let lower = lowercase_of(tail);
                match probe_marker(tail) {
                    Some(m) => match m.0 {
                        SandboxProbeKind::Resource(k) => denial(
                            "sandbox_resource_exceeded"@,
                            m.1,
                            excerpt,
                            Some(k),
                            None,
                        ),
                        SandboxProbeKind::NetworkBlocked => denial(
                            "sandbox_network_blocked"@,
                            m.1,
                            excerpt,
                            None,
                            m.2,
                        ),
                    },
                    None => if p.network_mode == ExecutionNetworkMode::Allowlist && contains_sub(
                        lower,
                        "does not support network allowlists"@,
                    ) {
                        denial(
                            "sandbox_network_blocked"@,
                            "unsupported_backend_feature"@,
                            excerpt,
                            None,
                            None,
                        )
                    } else {
                        match resource_exceeded(p, exit_signal == Some(cpu_limit_signal), lower) {
                            Some(k) => denial(
                                "sandbox_resource_exceeded"@,
                                resource_reason(k),
                                excerpt,
                                Some(k),
                                None,
                            ),
                            None => if (p.network_mode == ExecutionNetworkMode::Deny
                                || p.network_mode == ExecutionNetworkMode::Allowlist)
                                && network_denial_text(lower) {
                                denial(
                                    "sandbox_network_blocked"@,
                                    if p.network_mode == ExecutionNetworkMode::Allowlist {
                                        "network_allowlist_blocked"@
                                    } else {
                                        "network_blocked"@
                                    },
                                    excerpt,
                                    None,
                                    network_target(tail),
                                )
                            } else if !contains_sub(tail, "Operation not permitted"@) {
                                no_violation()
                            } else {
                                denial(
                                    "sandbox_denied"@,
                                    "file_write_denied"@,
                                    excerpt,
                                    None,
                                    None,
                                )
                            },
                        }
                    },
                }
            },
        }
    }
}

fn denial_info(
    event: &str,
    code: String,
    excerpt: Option<String>,
    kind: Option<SandboxResourceKind>,
    target: Option<String>,
) -> (r: SandboxViolationInfo)
    ensures
        r.view_of() == denial(event@, code@, opt_view(excerpt), kind, opt_view(target)),
{
    let reason = String::from_str(code.as_str());
    SandboxViolationInfo {
        denied: true,
        event_type: Some(String::from_str(event)),
        reason_code: Some(code),
        reason: Some(reason),
        stderr_excerpt: excerpt,
        resource_kind: kind,
        network_target: target,
    }
}

/// Classifies a finished run (see `violation`); `stderr_tail` is the tail of
/// its stderr log, or none when it could not be read, and `cpu_limit_signal`
/// is the platform's CPU time limit signal.
pub fn classify_sandbox_failure(
    execution_profile: &ResolvedExecutionProfile,
    exit_code: i32,
    exit_signal: Option<i32>,
    cpu_limit_signal: i32,
    stderr_tail: &Option<String>,
) -> (r: SandboxViolationInfo)
    ensures
        r.view_of() == violation(
            *execution_profile,
            exit_code,
            exit_signal,
            cpu_limit_signal,
            opt_view(*stderr_tail),
        ),
{
    let p = execution_profile;
    if p.mode != ExecutionProfileMode::Sandbox || exit_code == 0 {
        return SandboxViolationInfo::none();
    }
    let tail_s = match stderr_tail {
        Some(t) => t,
        None => {
            return SandboxViolationInfo::none();
        },
    };
    let tail = chars_of(tail_s.as_str());
    let excerpt = sanitize_stderr_excerpt(&tail);
    let low = to_lowercase(tail_s.as_str());
    let lower = chars_of(low.as_str());
    match detect_probe_marker(&tail) {
        Some(m) => {
            return match m.kind {
                SandboxProbeKind::Resource(k) => denial_info(
                    "sandbox_resource_exceeded",
                    m.reason_code,
                    excerpt,
                    Some(k),
                    None,
                ),
                SandboxProbeKind::NetworkBlocked => denial_info(
                    "sandbox_network_blocked",
                    m.reason_code,
                    excerpt,
                    None,
                    m.network_target,
                ),
            };
        },
        None => {},
    }
    if p.network_mode == ExecutionNetworkMode::Allowlist && contains_str(
        &lower,
        "does not support network allowlists",
    ) {
        return denial_info(
            "sandbox_network_blocked",
            String::from_str("unsupported_backend_feature"),
            excerpt,
            None,
            None,
        );
    }
    let cpu_hit = match exit_signal {
        Some(s) => s == cpu_limit_signal,
        None => false,
    };
    match detect_resource_exceeded(p, cpu_hit, &lower) {
        Some(k) => {
            return denial_info(
                "sandbox_resource_exceeded",
                resource_kind_reason_code(&k),
                excerpt,
                Some(k),
                None,
            );
        },
        None => {},
    }
    if (p.network_mode == ExecutionNetworkMode::Deny || p.network_mode
        == ExecutionNetworkMode::Allowlist) && looks_like_network_denial(&lower) {
        let code = if p.network_mode == ExecutionNetworkMode::Allowlist {
            String::from_str("network_allowlist_blocked")
        } else {
            String::from_str("network_blocked")
        };
        return denial_info(
            "sandbox_network_blocked",
            code,
            excerpt,
            None,
            detect_network_target(&tail),
        );
    }
    if !contains_str(&tail, "Operation not permitted") {
        return SandboxViolationInfo::none();
    }
    denial_info("sandbox_denied", String::from_str("file_write_denied"), excerpt, None, None)
}

/// The signal number of the CPU time limit.
///
/// Trusted: reads `libc::SIGXCPU`. Its value differs between platforms, so
/// nothing is stated of it.
#[verifier::external_body]
fn cpu_limit_signal() -> (r: i32) {
    libc::SIGXCPU
}

/// Classifies a finished run with this platform's CPU-limit signal (see
/// `classify_sandbox_failure`).
pub fn detect_sandbox_violation(
    execution_profile: &ResolvedExecutionProfile,
    exit_code: i32,
    exit_signal: Option<i32>,
    stderr_tail: &Option<String>,
) -> (r: SandboxViolationInfo)
    ensures
        exists|sig: i32|
            r.view_of() == violation(
                *execution_profile,
                exit_code,
                exit_signal,
                sig,
                opt_view(*stderr_tail),
            ),
{
    let sig = cpu_limit_signal();
    classify_sandbox_failure(execution_profile, exit_code, exit_signal, sig, stderr_tail)
}

/// A run that exited cleanly, or ran outside a sandbox, is never a violation.
pub proof fn law_clean_or_host_runs_are_not_violations(
    p: ResolvedExecutionProfile,
    exit_code: i32,
    exit_signal: Option<i32>,
    sig: i32,
    tail: Option<Seq<char>>,
)
    requires
        exit_code == 0 || p.mode == ExecutionProfileMode::Host,
    ensures
        violation(p, exit_code, exit_signal, sig, tail) == no_violation(),
{
}

/// Without a terminating signal the platform's signal number plays no part.
pub proof fn law_signal_irrelevant_without_signal(
    p: ResolvedExecutionProfile,
    exit_code: i32,
    sig1: i32,
    sig2: i32,
    tail: Option<Seq<char>>,
)
    ensures
        violation(p, exit_code, None, sig1, tail) == violation(p, exit_code, None, sig2, tail),
{
}

/// Every reported violation is a denial with an event type and a reason
/// code, and carries its reason code as its reason.
pub proof fn law_violation_well_formed(
    p: ResolvedExecutionProfile,
    exit_code: i32,
    exit_signal: Option<i32>,
    sig: i32,
    tail: Option<Seq<char>>,
)
    ensures
        ({
            let v = violation(p, exit_code, exit_signal, sig, tail);
            v.denied ==> v.event_type is Some && v.reason_code is Some && v.reason == v.reason_code
        }),
        !violation(p, exit_code, exit_signal, sig, tail).denied ==> violation(
            p,
            exit_code,
            exit_signal,
            sig,
            tail,
        ) == no_violation(),
{
}

} // verus!

verus! {

/// `host` or `sandbox`.
pub open spec fn mode_name(mode: ExecutionProfileMode) -> Seq<char> {
    match mode {
        ExecutionProfileMode::Host => "host"@,
        ExecutionProfileMode::Sandbox => "sandbox"@,
    }
}

/// The result of a phase run that finished: its validated outcome, where
/// its logs are, how long it took, the profile it ran under and what the
/// sandbox classification found (the denial's reason, its event type as the
/// violation kind, the resource by name and the network target).
pub fn completed_run_result(
    success: bool,
    exit_code: i64,
    stdout_path: String,
    stderr_path: String,
    timed_out: bool,
    duration_ms: u64,
    output: crate::config::AgentOutput,
    validation_status: String,
    agent_id: &str,
    run_id: String,
    profile: &ResolvedExecutionProfile,
    violation: SandboxViolationInfo,
) -> (r: crate::config::RunResult)
    ensures
        r.success == success,
        r.exit_code == exit_code,
        r.stdout_path == stdout_path,
        r.stderr_path == stderr_path,
        r.timed_out == timed_out,
        r.duration_ms == Some(duration_ms),
        r.output == Some(output),
        r.validation_status == validation_status,
        r.agent_id@ == agent_id@,
        r.run_id == run_id,
        r.execution_profile@ == profile.name@,
        r.execution_mode@ == mode_name(profile.mode),
        r.sandbox_denied == violation.denied,
        r.sandbox_denial_reason == violation.reason,
        r.sandbox_violation_kind == violation.event_type,
        opt_view(r.sandbox_resource_kind) == match violation.resource_kind {
            Some(k) => Some(resource_name(k)),
            None => None,
        },
        r.sandbox_network_target == violation.network_target,
{
    let mode = match profile.mode {
        ExecutionProfileMode::Host => String::from_str("host"),
        ExecutionProfileMode::Sandbox => String::from_str("sandbox"),
    };
    let resource = match &violation.resource_kind {
        Some(k) => Some(k.as_str()),
        None => None,
    };
    crate::config::RunResult {
        success,
        exit_code,
        stdout_path,
        stderr_path,
        timed_out,
        duration_ms: Some(duration_ms),
        output: Some(output),
        validation_status,
        agent_id: String::from_str(agent_id),
        run_id,
        execution_profile: profile.name.clone(),
        execution_mode: mode,
        sandbox_denied: violation.denied,
        sandbox_denial_reason: violation.reason,
        sandbox_violation_kind: violation.event_type,
        sandbox_resource_kind: resource,
        sandbox_network_target: violation.network_target,
    }
}

} // verus!

verus! {

/// A sandboxed run that failed without a probe line or an unsupported
/// allowlist, and whose stderr names a broken limit, is reported as that
/// resource exceeded; in particular `resource temporarily unavailable` under
/// a process limit (with no CPU signal and no open-file exhaustion) is a
/// process-limit breach.
pub proof fn law_resource_breach_reported(
    p: ResolvedExecutionProfile,
    exit_code: i32,
    exit_signal: Option<i32>,
    cpu_limit_signal: i32,
    tail: Seq<char>,
)
    requires
        p.mode == ExecutionProfileMode::Sandbox,
        exit_code != 0,
        probe_marker(tail) is None,
        !(p.network_mode == ExecutionNetworkMode::Allowlist && contains_sub(
            lowercase_of(tail),
            "does not support network allowlists"@,
        )),
    ensures
        resource_exceeded(p, exit_signal == Some(cpu_limit_signal), lowercase_of(tail)) matches Some(k) ==> ({
            let v = violation(p, exit_code, exit_signal, cpu_limit_signal, Some(tail));
            &&& v.denied
            &&& v.event_type == Some("sandbox_resource_exceeded"@)
            &&& v.resource_kind == Some(k)
            &&& v.reason_code == Some(resource_reason(k))
        }),
        (!(exit_signal == Some(cpu_limit_signal) && p.max_cpu_seconds is Some) && !(p.max_open_files is Some
            && contains_sub(lowercase_of(tail), "too many open files"@)) && p.max_processes is Some
            && contains_sub(lowercase_of(tail), "resource temporarily unavailable"@)) ==> ({
            let v = violation(p, exit_code, exit_signal, cpu_limit_signal, Some(tail));
            &&& v.denied
            &&& v.event_type == Some("sandbox_resource_exceeded"@)
            &&& v.resource_kind == Some(SandboxResourceKind::Processes)
            &&& v.reason_code == Some("processes_limit_exceeded"@)
        }),
{
    law_resource_limit_classification(p, exit_signal == Some(cpu_limit_signal), lowercase_of(tail));
}

} // verus!
