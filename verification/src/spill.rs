use vstd::prelude::*;
use crate::config::PipelineVariables;
use crate::strmap::text_view;
use crate::text::{chars_of, string_from, extend_chars, extend_str, concat_str};

verus! {

/// Largest pipeline value (in UTF-8 bytes) kept inline.
pub const PIPELINE_VAR_INLINE_LIMIT: usize = 4096;

/// Number of bytes of a character in UTF-8.
pub open spec fn utf8_len(c: char) -> int {
    if (c as u32) < 0x80 {
        1
    } else if (c as u32) < 0x800 {
        2
    } else if (c as u32) < 0x10000 {
        3
    } else {
        4
    }
}

/// Number of bytes of a text in UTF-8.
pub open spec fn byte_len(s: Seq<char>) -> int
    decreases s.len(),
{
    if s.len() == 0 {
        0
    } else {
        byte_len(s.drop_last()) + utf8_len(s.last())
    }
}

/// Number of leading characters that fit in `limit` bytes.
pub open spec fn fit_count(s: Seq<char>, limit: int) -> nat
    decreases s.len(),
{
    if s.len() == 0 || utf8_len(s[0]) > limit {
        0
    } else {
        1 + fit_count(s.drop_first(), limit - utf8_len(s[0]))
    }
}

fn char_utf8_len(c: char) -> (r: usize)
    ensures
        r == utf8_len(c),
{
    let v = c as u32;
    if v < 0x80 {
        1
    } else if v < 0x800 {
        2
    } else if v < 0x10000 {
        3
    } else {
        4
    }
}

pub(crate) proof fn lemma_byte_len_push(s: Seq<char>, c: char)
    ensures
        byte_len(s.push(c)) == byte_len(s) + utf8_len(c),
{
    assert(s.push(c).drop_last() =~= s);
}

proof fn lemma_byte_len_nonneg(s: Seq<char>)
    ensures
        byte_len(s) >= 0,
    decreases s.len(),
{
    if s.len() > 0 {
        lemma_byte_len_nonneg(s.drop_last());
    }
}

/// Whether the UTF-8 encoding of the text fits in `limit` bytes.
pub fn fits_inline(s: &Vec<char>, limit: usize) -> (r: bool)
    ensures
        r == (byte_len(s@) <= limit),
{
    let mut total: usize = 0;
    let mut i: usize = 0;
    while i < s.len()
        invariant
            i <= s@.len(),
            total == byte_len(s@.subrange(0, i as int)),
            total <= limit,
        decreases s@.len() - i,
    {
        let w = char_utf8_len(s[i]);
        proof {
            lemma_byte_len_push(s@.subrange(0, i as int), s@[i as int]);
            assert(s@.subrange(0, i + 1) =~= s@.subrange(0, i as int).push(s@[i as int]));
        }
        if w > limit - total {
            proof {
                assert forall|j: int| i + 1 <= j <= s@.len() implies byte_len(s@.subrange(0, j)) > limit by {
                    lemma_byte_len_monotone(s@, i + 1, j);
                }
                assert(s@.subrange(0, s@.len() as int) =~= s@);
            }
            return false;
        }
        total = total + w;
        i = i + 1;
    }
    assert(s@.subrange(0, s@.len() as int) =~= s@);
    true
}

proof fn lemma_byte_len_monotone(s: Seq<char>, i: int, j: int)
    requires
        0 <= i <= j <= s.len(),
    ensures
        byte_len(s.subrange(0, i)) <= byte_len(s.subrange(0, j)),
    decreases j - i,
{
    if i < j {
        lemma_byte_len_monotone(s, i, j - 1);
        assert(s.subrange(0, j) =~= s.subrange(0, j - 1).push(s[j - 1]));
        lemma_byte_len_push(s.subrange(0, j - 1), s[j - 1]);
    }
}

/// The longest prefix of the text whose UTF-8 encoding fits in `limit` bytes.
pub fn fitting_prefix(s: &Vec<char>, limit: usize) -> (r: Vec<char>)
    ensures
        r@ == s@.subrange(0, fit_count(s@, limit as int) as int),
{
    let mut out: Vec<char> = Vec::new();
    let mut used: usize = 0;
    let mut i: usize = 0;
    assert(s@.subrange(0, s@.len() as int) =~= s@);
    assert(out@ =~= s@.subrange(0, 0));
    while i < s.len()
        invariant
            i <= s@.len(),
            used <= limit,
            out@ == s@.subrange(0, i as int),
            fit_count(s@, limit as int) == i + fit_count(
                s@.subrange(i as int, s@.len() as int),
                limit - used,
            ),
        decreases s@.len() - i,
    {
        let w = char_utf8_len(s[i]);
        let ghost rest = s@.subrange(i as int, s@.len() as int);
        assert(rest[0] == s@[i as int]);
        if w > limit - used {
            assert(fit_count(rest, limit - used) == 0);
            return out;
        }
        assert(rest.drop_first() =~= s@.subrange(i + 1, s@.len() as int));
        out.push(s[i]);
        used = used + w;
        i = i + 1;
        assert(out@ =~= s@.subrange(0, i as int));
    }
    assert(fit_count(s@.subrange(i as int, s@.len() as int), limit - used) == 0);
    out
}

proof fn lemma_byte_len_cons(s: Seq<char>)
    requires
        s.len() > 0,
    ensures
        byte_len(s) == utf8_len(s[0]) + byte_len(s.drop_first()),
    decreases s.len(),
{
    if s.len() == 1 {
        assert(s.drop_last().len() == 0);
        assert(s.drop_first().len() == 0);
        assert(byte_len(s.drop_last()) == 0);
        assert(byte_len(s.drop_first()) == 0);
        assert(s.last() == s[0]);
    } else {
        lemma_byte_len_cons(s.drop_last());
        assert(s.drop_last().drop_first() =~= s.drop_first().drop_last());
        assert(s.drop_first().last() == s.last());
        assert(s.drop_last()[0] == s[0]);
        assert(byte_len(s.drop_first()) == byte_len(s.drop_first().drop_last()) + utf8_len(
            s.drop_first().last(),
        ));
    }
}

/// The prefix a spilled value keeps inline is the longest one whose UTF-8
/// encoding fits the limit: it fits, and one more character would not.
pub proof fn law_fitting_prefix_is_longest(s: Seq<char>, limit: int)
    requires
        limit >= 0,
    ensures
        fit_count(s, limit) <= s.len(),
        byte_len(s.subrange(0, fit_count(s, limit) as int)) <= limit,
        fit_count(s, limit) < s.len() ==> byte_len(s.subrange(0, fit_count(s, limit) as int + 1)) > limit,
    decreases s.len(),
{
    if s.len() == 0 {
        assert(s.subrange(0, 0).len() == 0);
    } else if utf8_len(s[0]) > limit {
        assert(s.subrange(0, 0).len() == 0);
        lemma_byte_len_cons(s.subrange(0, 1));
        assert(s.subrange(0, 1).drop_first().len() == 0);
    } else {
        let rest = s.drop_first();
        let u = utf8_len(s[0]);
        law_fitting_prefix_is_longest(rest, limit - u);
        let n: int = fit_count(rest, limit - u) as int;
        assert(fit_count(s, limit) == 1 + n);
        lemma_byte_len_cons(s.subrange(0, n + 1));
        assert(s.subrange(0, n + 1).drop_first() =~= rest.subrange(0, n));
        if n + 1 < s.len() {
            lemma_byte_len_cons(s.subrange(0, n + 2));
            assert(s.subrange(0, n + 2).drop_first() =~= rest.subrange(0, n + 1));
        }
    }
}

/// `a` joined with `b` as a path: `b` when it is absolute, else `a`, a
/// separator unless `a` is empty or already ends in one, and `b`.
pub open spec fn path_join(a: Seq<char>, b: Seq<char>) -> Seq<char> {
    if b.len() > 0 && b[0] == '/' {
        b
    } else if a.len() == 0 {
        b
    } else if a.last() == '/' {
        a + b
    } else {
        a + seq!['/'] + b
    }
}

/// Joining keeps an absolute second path as it is; a relative one is put
/// under the first, with exactly one `/` between them (none when the first
/// is empty).
pub proof fn law_path_join(a: Seq<char>, b: Seq<char>)
    ensures
        (b.len() > 0 && b[0] == '/') ==> path_join(a, b) == b,
        !(b.len() > 0 && b[0] == '/') && a.len() == 0 ==> path_join(a, b) == b,
        !(b.len() > 0 && b[0] == '/') && a.len() > 0 && a.last() == '/' ==> path_join(a, b) == a + b,
        !(b.len() > 0 && b[0] == '/') && a.len() > 0 && a.last() != '/' ==> path_join(a, b) == a + seq!['/']
            + b,
        path_join(a, b).len() >= b.len(),
        b.is_suffix_of(path_join(a, b)),
{
    let r = path_join(a, b);
    if b.len() > 0 && b[0] == '/' || a.len() == 0 {
        assert(r.subrange(r.len() - b.len(), r.len() as int) =~= b);
    } else if a.last() == '/' {
        assert(r.subrange(r.len() - b.len(), r.len() as int) =~= b);
    } else {
        assert(r.subrange(r.len() - b.len(), r.len() as int) =~= b);
    }
}

/// Joins two path components.
pub fn join_path(a: &str, b: &str) -> (r: String)
    ensures
        r@ == path_join(a@, b@),
{
    let av = chars_of(a);
    let bv = chars_of(b);
    if bv.len() > 0 && bv[0] == '/' {
        return string_from(bv.as_slice());
    }
    if av.len() == 0 {
        return string_from(bv.as_slice());
    }
    let mut out = av;
    if out[out.len() - 1] != '/' {
        out.push('/');
    }
    extend_chars(&mut out, bv.as_slice());
    string_from(out.as_slice())
}

/// Where a spilled value is written: `<logs_dir>/<task_id>/<key>.txt`.
pub open spec fn spill_file_path(logs_dir: Seq<char>, task_id: Seq<char>, key: Seq<char>) -> Seq<char> {
    path_join(path_join(logs_dir, task_id), key + ".txt"@)
}

/// The inline form of a value: itself when it fits, else its fitting prefix
/// and a note that names the file holding all of it.
pub open spec fn inline_value(value: Seq<char>, path: Seq<char>) -> Seq<char> {
    if byte_len(value) <= PIPELINE_VAR_INLINE_LIMIT {
        value
    } else {
        value.subrange(0, fit_count(value, PIPELINE_VAR_INLINE_LIMIT as int) as int)
            + "...\n[truncated — full content at "@ + path + "]"@
    }
}

/// A file the caller writes: the full text of a spilled value.
pub struct SpillWrite {
    pub path: String,
    pub content: String,
}

/// The path of the spill file of a key.
pub fn spill_path(logs_dir: &str, task_id: &str, key: &str) -> (r: String)
    ensures
        r@ == spill_file_path(logs_dir@, task_id@, key@),
{
    let dir = join_path(logs_dir, task_id);
    let name = concat_str(key, ".txt");
    join_path(dir.as_str(), name.as_str())
}

fn truncated_form(value: &Vec<char>, path: &str) -> (r: String)
    ensures
        r@ == value@.subrange(0, fit_count(value@, PIPELINE_VAR_INLINE_LIMIT as int) as int)
            + "...\n[truncated — full content at "@ + path@ + "]"@,
{
    let mut out = fitting_prefix(value, PIPELINE_VAR_INLINE_LIMIT);
    extend_str(&mut out, "...\n[truncated — full content at ");
    extend_str(&mut out, path);
    extend_str(&mut out, "]");
    string_from(out.as_slice())
}

/// Stores a value as a pipeline variable: its full text goes to a file (returned
/// for the caller to write), `<key>_path` names that file, and `<key>` holds the
/// inline form of the value.
pub fn spill_large_var(
    logs_dir: &str,
    task_id: &str,
    key: &str,
    value: String,
    pipeline: &mut PipelineVariables,
) -> (w: SpillWrite)
    ensures
        w.path@ == spill_file_path(logs_dir@, task_id@, key@),
        w.content@ == value@,
        text_view(final(pipeline).vars) == text_view(old(pipeline).vars).insert(
            key@ + "_path"@,
            spill_file_path(logs_dir@, task_id@, key@),
        ).insert(key@, inline_value(value@, spill_file_path(logs_dir@, task_id@, key@))),
        final(pipeline).prev_stdout == old(pipeline).prev_stdout,
        final(pipeline).prev_stderr == old(pipeline).prev_stderr,
        final(pipeline).diff == old(pipeline).diff,
        final(pipeline).build_errors == old(pipeline).build_errors,
        final(pipeline).test_failures == old(pipeline).test_failures,
{
    let path = spill_path(logs_dir, task_id, key);
    let path_key = concat_str(key, "_path");
    pipeline.vars.put(path_key, path.clone());
    let chars = chars_of(value.as_str());
    let inline = if fits_inline(&chars, PIPELINE_VAR_INLINE_LIMIT) {
        value.clone()
    } else {
        truncated_form(&chars, path.as_str())
    };
    pipeline.vars.put(String::from_str(key), inline);
    SpillWrite { path, content: value }
}

/// For a value over the inline limit: its inline form and the file to write,
/// which holds all of it; `None` for a value that fits.
pub fn spill_to_file(logs_dir: &str, task_id: &str, key: &str, value: &str) -> (r: Option<
    (String, SpillWrite),
>)
    ensures
        byte_len(value@) <= PIPELINE_VAR_INLINE_LIMIT ==> r is None,
        byte_len(value@) > PIPELINE_VAR_INLINE_LIMIT ==> (r matches Some((t, w)) && w.path@
            == spill_file_path(logs_dir@, task_id@, key@) && w.content@ == value@ && t@ == inline_value(
            value@,
            w.path@,
        )),
{
    let chars = chars_of(value);
    if fits_inline(&chars, PIPELINE_VAR_INLINE_LIMIT) {
        return None;
    }
    let path = spill_path(logs_dir, task_id, key);
    let truncated = truncated_form(&chars, path.as_str());
    Some((truncated, SpillWrite { path, content: String::from_str(value) }))
}

} // verus!
