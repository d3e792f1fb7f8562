use vstd::prelude::*;

verus! {

/// The Unicode `White_Space` property, which `char::is_whitespace` tests.
pub open spec fn is_ws(c: char) -> bool {
    ('\u{9}' <= c && c <= '\u{d}') || c == ' ' || c == '\u{85}' || c == '\u{a0}' || c == '\u{1680}'
        || ('\u{2000}' <= c && c <= '\u{200a}') || c == '\u{2028}' || c == '\u{2029}' || c
        == '\u{202f}' || c == '\u{205f}' || c == '\u{3000}'
}

/// `char::is_whitespace`.
pub fn is_whitespace(c: char) -> (r: bool)
    ensures
        r == is_ws(c),
{
    ('\u{9}' <= c && c <= '\u{d}') || c == ' ' || c == '\u{85}' || c == '\u{a0}' || c == '\u{1680}'
        || ('\u{2000}' <= c && c <= '\u{200a}') || c == '\u{2028}' || c == '\u{2029}' || c
        == '\u{202f}' || c == '\u{205f}' || c == '\u{3000}'
}

/// Whether a trim strips `c`: whitespace when no set is given, else the
/// characters of the set.
pub open spec fn strips(c: char, set: Option<Seq<char>>) -> bool {
    match set {
        None => is_ws(c),
        Some(s) => s.contains(c),
    }
}

/// Whether `c` occurs in `v`.
pub fn contains_char(v: &Vec<char>, c: char) -> (r: bool)
    ensures
        r == v@.contains(c),
{
    let mut i: usize = 0;
    while i < v.len()
        invariant
            i <= v@.len(),
            forall|k: int| 0 <= k < i ==> v@[k] != c,
        decreases v@.len() - i,
    {
        if v[i] == c {
            assert(v@[i as int] == c);
            return true;
        }
        i = i + 1;
    }
    false
}

fn strips_exec(c: char, set: &Option<Vec<char>>) -> (r: bool)
    ensures
        r == strips(
            c,
            match set {
                None => None,
                Some(v) => Some(v@),
            },
        ),
{
    match set {
        None => is_whitespace(c),
        Some(v) => contains_char(v, c),
    }
}

/// `s` without the stripped characters at its start.
pub open spec fn trim_start_by(s: Seq<char>, set: Option<Seq<char>>) -> Seq<char>
    decreases s.len(),
{
    if s.len() > 0 && strips(s[0], set) {
        trim_start_by(s.skip(1), set)
    } else {
        s
    }
}

/// `s` without the stripped characters at its end.
pub open spec fn trim_end_by(s: Seq<char>, set: Option<Seq<char>>) -> Seq<char>
    decreases s.len(),
{
    if s.len() > 0 && strips(s.last(), set) {
        trim_end_by(s.drop_last(), set)
    } else {
        s
    }
}

/// `s` without the stripped characters at both ends.
pub open spec fn trim_by(s: Seq<char>, set: Option<Seq<char>>) -> Seq<char> {
    trim_end_by(trim_start_by(s, set), set)
}

/// `str::trim`: `s` without whitespace at both ends.
pub open spec fn trim(s: Seq<char>) -> Seq<char> {
    trim_by(s, None)
}

proof fn lemma_trim_start_step(s: Seq<char>, i: int, set: Option<Seq<char>>)
    requires
        0 <= i < s.len(),
        strips(s[i], set),
    ensures
        trim_start_by(s.skip(i), set) == trim_start_by(s.skip(i + 1), set),
{
    assert(s.skip(i)[0] == s[i]);
    assert(s.skip(i).skip(1) =~= s.skip(i + 1));
}

proof fn lemma_trim_end_step(s: Seq<char>, j: int, set: Option<Seq<char>>)
    requires
        0 < j <= s.len(),
        strips(s[j - 1], set),
    ensures
        trim_end_by(s.take(j), set) == trim_end_by(s.take(j - 1), set),
{
    assert(s.take(j).last() == s[j - 1]);
    assert(s.take(j).drop_last() =~= s.take(j - 1));
}

/// The characters of `v` stripped at both ends (see `trim_by`).
pub fn trim_chars_by(v: &Vec<char>, set: &Option<Vec<char>>) -> (r: Vec<char>)
    ensures
        r@ == trim_by(
            v@,
            match set {
                None => None,
                Some(x) => Some(x@),
            },
        ),
{
    let ghost gset = match set {
        None => None,
        Some(x) => Some(x@),
    };
    let n = v.len();
    let mut i: usize = 0;
    assert(v@.skip(0) =~= v@);
    while i < n && strips_exec(v[i], set)
        invariant
            n == v@.len(),
            i <= n,
            gset == match set {
                None => None,
                Some(x) => Some(x@),
            },
            trim_start_by(v@, gset) == trim_start_by(v@.skip(i as int), gset),
        decreases n - i,
    {
        proof {
            lemma_trim_start_step(v@, i as int, gset);
        }
        i = i + 1;
    }
    let ghost rest = v@.skip(i as int);
    assert(trim_start_by(rest, gset) == rest) by {
        if rest.len() > 0 {
            assert(rest[0] == v@[i as int]);
        }
    }
    let mut j: usize = n;
    assert(rest.take((n - i) as int) =~= rest);
    while j > i && strips_exec(v[j - 1], set)
        invariant
            n == v@.len(),
            i <= j <= n,
            rest == v@.skip(i as int),
            gset == match set {
                None => None,
                Some(x) => Some(x@),
            },
            trim_end_by(rest, gset) == trim_end_by(rest.take(j - i), gset),
        decreases j,
    {
        proof {
            assert(rest[j - i - 1] == v@[j - 1]);
            lemma_trim_end_step(rest, j - i, gset);
        }
        j = j - 1;
    }
    let ghost kept = rest.take(j - i);
    assert(trim_end_by(kept, gset) == kept) by {
        if kept.len() > 0 {
            assert(kept.last() == v@[j - 1]);
        }
    }
    let mut r: Vec<char> = Vec::new();
    let mut k: usize = i;
    while k < j
        invariant
            n == v@.len(),
            i <= k <= j <= n,
            r@ == v@.subrange(i as int, k as int),
        decreases j - k,
    {
        r.push(v[k]);
        k = k + 1;
        assert(r@ =~= v@.subrange(i as int, k as int));
    }
    assert(kept =~= v@.subrange(i as int, j as int));
    r
}

/// `str::trim` on characters.
pub fn trim_chars(v: &Vec<char>) -> (r: Vec<char>)
    ensures
        r@ == trim(v@),
{
    trim_chars_by(v, &None)
}

/// The pieces of `s` between line feeds; the last one may be empty.
pub open spec fn nl_pieces(s: Seq<char>) -> Seq<Seq<char>>
    decreases s.len(),
{
    if s.len() == 0 {
        seq![Seq::empty()]
    } else {
        let r = nl_pieces(s.drop_last());
        if s.last() == '\n' {
            r.push(Seq::empty())
        } else {
            r.update(r.len() - 1, r.last().push(s.last()))
        }
    }
}

/// A line without the carriage return that preceded its line feed.
pub open spec fn strip_cr(l: Seq<char>) -> Seq<char> {
    if l.len() > 0 && l.last() == '\r' {
        l.drop_last()
    } else {
        l
    }
}

/// `str::lines`: the lines of `s`, split at `\n` or `\r\n`; a final empty
/// line is not yielded, and a final line keeps a lone trailing `\r`.
pub open spec fn lines(s: Seq<char>) -> Seq<Seq<char>> {
    let p = nl_pieces(s);
    let done = p.drop_last().map_values(|l: Seq<char>| strip_cr(l));
    if p.last().len() == 0 {
        done
    } else {
        done.push(p.last())
    }
}

proof fn lemma_nl_pieces_len(s: Seq<char>)
    ensures
        nl_pieces(s).len() >= 1,
    decreases s.len(),
{
    if s.len() > 0 {
        lemma_nl_pieces_len(s.drop_last());
    }
}

/// The views of a list of character vectors.
pub open spec fn vviews(v: Seq<Vec<char>>) -> Seq<Seq<char>> {
    v.map_values(|x: Vec<char>| x@)
}

fn strip_cr_exec(l: Vec<char>) -> (r: Vec<char>)
    ensures
        r@ == strip_cr(l@),
{
    let mut l = l;
    if l.len() > 0 && l[l.len() - 1] == '\r' {
        l.pop();
    }
    l
}

/// The lines of `s` (see `lines`).
pub fn split_lines(s: &Vec<char>) -> (r: Vec<Vec<char>>)
    ensures
        vviews(r@) == lines(s@),
{
    let n = s.len();
    let mut done: Vec<Vec<char>> = Vec::new();
    let mut cur: Vec<char> = Vec::new();
    let mut i: usize = 0;
    assert(s@.take(0) =~= Seq::<char>::empty());
    assert(vviews(done@) =~= nl_pieces(s@.take(0)).drop_last().map_values(
        |l: Seq<char>| strip_cr(l),
    ));
    while i < n
        invariant
            n == s@.len(),
            i <= n,
            vviews(done@) == nl_pieces(s@.take(i as int)).drop_last().map_values(
                |l: Seq<char>| strip_cr(l),
            ),
            cur@ == nl_pieces(s@.take(i as int)).last(),
        decreases n - i,
    {
        let ghost p = nl_pieces(s@.take(i as int));
        proof {
            lemma_nl_pieces_len(s@.take(i as int));
            assert(s@.take(i + 1).drop_last() =~= s@.take(i as int));
            assert(s@.take(i + 1).last() == s@[i as int]);
        }
        let c = s[i];
        if c == '\n' {
            let ghost before = vviews(done@);
            let line = strip_cr_exec(cur);
            let ghost lv = line@;
            done.push(line);
            cur = Vec::new();
            proof {
                let np = p.push(Seq::empty());
                assert(nl_pieces(s@.take(i + 1)) == np);
                assert(np.drop_last() =~= p);
                assert(vviews(done@) =~= before.push(lv));
                assert(p.map_values(|l: Seq<char>| strip_cr(l)) =~= p.drop_last().map_values(
                    |l: Seq<char>| strip_cr(l),
                ).push(strip_cr(p.last())));
            }
        } else {
            cur.push(c);
            proof {
                let np = p.update(p.len() - 1, p.last().push(c));
                assert(np.drop_last() =~= p.drop_last());
            }
        }
        i = i + 1;
    }
    assert(s@.take(n as int) =~= s@);
    proof {
        lemma_nl_pieces_len(s@);
    }
    if cur.len() > 0 {
        done.push(cur);
    }
    proof {
        let p = nl_pieces(s@);
        if p.last().len() == 0 {
        } else {
            assert(vviews(done@) =~= p.drop_last().map_values(|l: Seq<char>| strip_cr(l)).push(
                p.last(),
            ));
        }
    }
    done
}

/// `str::split_whitespace`: the maximal runs of non-whitespace characters.
pub open spec fn words(s: Seq<char>) -> Seq<Seq<char>>
    decreases s.len(),
{
    if s.len() == 0 {
        Seq::empty()
    } else {
        let w = words(s.drop_last());
        let c = s.last();
        if is_ws(c) {
            w
        } else if s.len() >= 2 && !is_ws(s[s.len() - 2]) {
            w.update(w.len() - 1, w.last().push(c))
        } else {
            w.push(seq![c])
        }
    }
}

/// The words of `s` (see `words`).
pub fn split_words(s: &Vec<char>) -> (r: Vec<Vec<char>>)
    ensures
        vviews(r@) == words(s@),
{
    let n = s.len();
    let mut done: Vec<Vec<char>> = Vec::new();
    let mut cur: Vec<char> = Vec::new();
    let mut i: usize = 0;
    assert(s@.take(0) =~= Seq::<char>::empty());
    while i < n
        invariant
            n == s@.len(),
            i <= n,
            words(s@.take(i as int)) == (if cur@.len() > 0 {
                vviews(done@).push(cur@)
            } else {
                vviews(done@)
            }),
            cur@.len() > 0 <==> (i > 0 && !is_ws(s@[i - 1])),
        decreases n - i,
    {
        let c = s[i];
        proof {
            assert(s@.take(i + 1).drop_last() =~= s@.take(i as int));
            assert(s@.take(i + 1).last() == c);
            if i >= 1 {
                assert(s@.take(i + 1)[i - 1] == s@[i - 1]);
            }
        }
        if is_whitespace(c) {
            if cur.len() > 0 {
                let ghost before_done = vviews(done@);
                let w = cur;
                let ghost wv = w@;
                done.push(w);
                cur = Vec::new();
                assert(vviews(done@) =~= before_done.push(wv));
            }
        } else {
            let ghost before_done = vviews(done@);
            let ghost before_cur = cur@;
            cur.push(c);
            proof {
                if before_cur.len() > 0 {
                    assert(before_done.push(before_cur).update(
                        before_done.len() as int,
                        before_cur.push(c),
                    ) =~= before_done.push(cur@));
                } else {
                    assert(cur@ =~= seq![c]);
                }
            }
        }
        i = i + 1;
    }
    assert(s@.take(n as int) =~= s@);
    if cur.len() > 0 {
        done.push(cur);
    }
    done
}

} // verus!

verus! {

/// Position of the first `c` in `s`, or -1.
pub open spec fn index_of_first(s: Seq<char>, c: char) -> int
    decreases s.len(),
{
    if s.len() == 0 {
        -1
    } else if s[0] == c {
        0
    } else {
        let r = index_of_first(s.skip(1), c);
        if r < 0 {
            -1
        } else {
            r + 1
        }
    }
}

/// Position of the last `c` in `s`, or -1.
pub open spec fn index_of_last(s: Seq<char>, c: char) -> int
    decreases s.len(),
{
    if s.len() == 0 {
        -1
    } else if s.last() == c {
        s.len() - 1
    } else {
        index_of_last(s.drop_last(), c)
    }
}

/// `index_of_first` is the first occurrence, or -1 when there is none.
pub proof fn lemma_index_of_first(s: Seq<char>, c: char)
    ensures
        index_of_first(s, c) < 0 <==> !s.contains(c),
        index_of_first(s, c) >= 0 ==> index_of_first(s, c) < s.len() && s[index_of_first(s, c)]
            == c && forall|k: int| 0 <= k < index_of_first(s, c) ==> s[k] != c,
        index_of_first(s, c) >= -1,
    decreases s.len(),
{
    if s.len() > 0 {
        if s[0] == c {
            assert(s.contains(c));
        } else {
            let t = s.skip(1);
            lemma_index_of_first(t, c);
            if s.contains(c) {
                let k = choose|k: int| 0 <= k < s.len() && s[k] == c;
                assert(k >= 1);
                assert(t[k - 1] == c);
            }
            if t.contains(c) {
                let k = choose|k: int| 0 <= k < t.len() && t[k] == c;
                assert(s[k + 1] == c);
            }
            assert forall|k: int| 0 <= k < index_of_first(s, c) implies s[k] != c by {
                if k >= 1 {
                    assert(s[k] == t[k - 1]);
                }
            }
        }
    }
}

/// `index_of_last` is the last occurrence, or -1 when there is none.
pub proof fn lemma_index_of_last(s: Seq<char>, c: char)
    ensures
        index_of_last(s, c) < 0 <==> !s.contains(c),
        index_of_last(s, c) >= 0 ==> index_of_last(s, c) < s.len() && s[index_of_last(s, c)] == c
            && forall|k: int| index_of_last(s, c) < k < s.len() ==> s[k] != c,
        index_of_last(s, c) >= -1,
    decreases s.len(),
{
    if s.len() > 0 {
        if s.last() == c {
            assert(s.contains(c)) by {
                assert(s[s.len() - 1] == c);
            }
        } else {
            let t = s.drop_last();
            lemma_index_of_last(t, c);
            if s.contains(c) {
                let k = choose|k: int| 0 <= k < s.len() && s[k] == c;
                assert(t[k] == c);
            }
            if t.contains(c) {
                let k = choose|k: int| 0 <= k < t.len() && t[k] == c;
                assert(s[k] == c);
            }
            assert forall|k: int| index_of_last(s, c) < k < s.len() implies s[k] != c by {
                if k < s.len() - 1 {
                    assert(s[k] == t[k]);
                }
            }
        }
    }
}

/// Position of the first `c` in `v`, or -1.
pub fn find_first_char(v: &Vec<char>, c: char) -> (r: Option<usize>)
    ensures
        match r {
            Some(i) => i == index_of_first(v@, c),
            None => index_of_first(v@, c) == -1,
        },
{
    proof {
        lemma_index_of_first(v@, c);
    }
    let mut i: usize = 0;
    while i < v.len()
        invariant
            i <= v@.len(),
            forall|k: int| 0 <= k < i ==> v@[k] != c,
            index_of_first(v@, c) < 0 <==> !v@.contains(c),
            index_of_first(v@, c) >= 0 ==> index_of_first(v@, c) < v@.len() && v@[index_of_first(
                v@,
                c,
            )] == c && forall|k: int| 0 <= k < index_of_first(v@, c) ==> v@[k] != c,
            index_of_first(v@, c) >= -1,
        decreases v@.len() - i,
    {
        if v[i] == c {
            assert(v@.contains(c));
            return Some(i);
        }
        i = i + 1;
    }
    assert(!v@.contains(c));
    None
}

/// Position of the last `c` in `v`, or -1.
pub fn find_last_char(v: &Vec<char>, c: char) -> (r: Option<usize>)
    ensures
        match r {
            Some(i) => i == index_of_last(v@, c),
            None => index_of_last(v@, c) == -1,
        },
{
    proof {
        lemma_index_of_last(v@, c);
    }
    let mut j: usize = v.len();
    while j > 0
        invariant
            j <= v@.len(),
            forall|k: int| j <= k < v@.len() ==> v@[k] != c,
            index_of_last(v@, c) < 0 <==> !v@.contains(c),
            index_of_last(v@, c) >= 0 ==> index_of_last(v@, c) < v@.len() && v@[index_of_last(
                v@,
                c,
            )] == c && forall|k: int| index_of_last(v@, c) < k < v@.len() ==> v@[k] != c,
            index_of_last(v@, c) >= -1,
        decreases j,
    {
        if v[j - 1] == c {
            assert(v@.contains(c)) by {
                assert(v@[j - 1] == c);
            }
            return Some(j - 1);
        }
        j = j - 1;
    }
    assert(!v@.contains(c));
    None
}

/// `str::split_once` at a character: the text before its first occurrence
/// and the text after it.
pub open spec fn split_once(s: Seq<char>, c: char) -> Option<(Seq<char>, Seq<char>)> {
    let i = index_of_first(s, c);
    if i < 0 {
        None
    } else {
        Some((s.take(i), s.skip(i + 1)))
    }
}

/// `str::rsplit_once` at a character: the text before its last occurrence
/// and the text after it.
pub open spec fn rsplit_once(s: Seq<char>, c: char) -> Option<(Seq<char>, Seq<char>)> {
    let i = index_of_last(s, c);
    if i < 0 {
        None
    } else {
        Some((s.take(i), s.skip(i + 1)))
    }
}

/// The characters of `v` from `start` to `end`.
pub fn slice_chars(v: &Vec<char>, start: usize, end: usize) -> (r: Vec<char>)
    requires
        start <= end <= v@.len(),
    ensures
        r@ == v@.subrange(start as int, end as int),
{
    let mut r: Vec<char> = Vec::new();
    let mut k: usize = start;
    while k < end
        invariant
            start <= k <= end <= v@.len(),
            r@ == v@.subrange(start as int, k as int),
        decreases end - k,
    {
        r.push(v[k]);
        k = k + 1;
        assert(r@ =~= v@.subrange(start as int, k as int));
    }
    r
}

/// See `split_once`.
pub fn split_once_chars(v: &Vec<char>, c: char) -> (r: Option<(Vec<char>, Vec<char>)>)
    ensures
        match r {
            Some(p) => split_once(v@, c) == Some((p.0@, p.1@)),
            None => split_once(v@, c) is None,
        },
{
    proof {
        lemma_index_of_first(v@, c);
    }
    match find_first_char(v, c) {
        Some(i) => {
            let n = v.len();
            assert(i < n);
            let a = slice_chars(v, 0, i);
            let b = slice_chars(v, i + 1, n);
            assert(a@ =~= v@.take(i as int));
            assert(b@ =~= v@.skip(i + 1));
            Some((a, b))
        },
        None => None,
    }
}

/// See `rsplit_once`.
pub fn rsplit_once_chars(v: &Vec<char>, c: char) -> (r: Option<(Vec<char>, Vec<char>)>)
    ensures
        match r {
            Some(p) => rsplit_once(v@, c) == Some((p.0@, p.1@)),
            None => rsplit_once(v@, c) is None,
        },
{
    proof {
        lemma_index_of_last(v@, c);
    }
    match find_last_char(v, c) {
        Some(i) => {
            let n = v.len();
            assert(i < n);
            let a = slice_chars(v, 0, i);
            let b = slice_chars(v, i + 1, n);
            assert(a@ =~= v@.take(i as int));
            assert(b@ =~= v@.skip(i + 1));
            Some((a, b))
        },
        None => None,
    }
}

/// `str::starts_with` a string.
pub open spec fn starts_with(s: Seq<char>, p: Seq<char>) -> bool {
    p.len() <= s.len() && s.take(p.len() as int) == p
}

/// See `starts_with`.
pub fn starts_with_str(v: &Vec<char>, p: &str) -> (r: bool)
    ensures
        r == starts_with(v@, p@),
{
    let pv = crate::text::chars_of(p);
    let m = crate::text::matches_at(v, &pv, 0);
    proof {
        if m {
            assert(v@.subrange(0, pv@.len() as int) =~= v@.take(pv@.len() as int));
        }
        if starts_with(v@, p@) {
            assert(v@.subrange(0, pv@.len() as int) =~= v@.take(pv@.len() as int));
        }
    }
    m
}

/// An ASCII letter.
pub open spec fn is_ascii_alpha(c: char) -> bool {
    ('a' <= c && c <= 'z') || ('A' <= c && c <= 'Z')
}

/// Some character of `s` is an ASCII letter.
pub open spec fn has_ascii_alpha(s: Seq<char>) -> bool {
    exists|i: int| 0 <= i < s.len() && is_ascii_alpha(#[trigger] s[i])
}

/// See `has_ascii_alpha`.
pub fn any_ascii_alpha(v: &Vec<char>) -> (r: bool)
    ensures
        r == has_ascii_alpha(v@),
{
    let mut i: usize = 0;
    while i < v.len()
        invariant
            i <= v@.len(),
            forall|k: int| 0 <= k < i ==> !is_ascii_alpha(#[trigger] v@[k]),
        decreases v@.len() - i,
    {
        let c = v[i];
        if ('a' <= c && c <= 'z') || ('A' <= c && c <= 'Z') {
            assert(is_ascii_alpha(v@[i as int]));
            return true;
        }
        i = i + 1;
    }
    false
}

/// Every character of `s` is an ASCII digit.
pub fn all_ascii_digits(v: &Vec<char>) -> (r: bool)
    ensures
        r == crate::text::all_digits(v@),
{
    let mut i: usize = 0;
    while i < v.len()
        invariant
            i <= v@.len(),
            forall|k: int| 0 <= k < i ==> crate::text::is_digit(#[trigger] v@[k]),
        decreases v@.len() - i,
    {
        let c = v[i];
        if !('0' <= c && c <= '9') {
            assert(!crate::text::is_digit(v@[i as int]));
            return false;
        }
        i = i + 1;
    }
    true
}

} // verus!

verus! {

/// Position of the first occurrence of `needle` in `hay`, or -1.
pub open spec fn sub_index(hay: Seq<char>, needle: Seq<char>) -> int
    decreases hay.len(),
{
    if crate::text::occurs_at(hay, needle, 0) {
        0
    } else if hay.len() == 0 {
        -1
    } else {
        let r = sub_index(hay.skip(1), needle);
        if r < 0 {
            -1
        } else {
            r + 1
        }
    }
}

proof fn lemma_occurs_skip(hay: Seq<char>, needle: Seq<char>, k: int)
    requires
        hay.len() > 0,
        k >= 0,
    ensures
        crate::text::occurs_at(hay.skip(1), needle, k) == crate::text::occurs_at(hay, needle, k + 1),
{
    if k + needle.len() <= hay.len() - 1 {
        assert(hay.skip(1).subrange(k, k + needle.len()) =~= hay.subrange(k + 1, k + 1 + needle.len()));
    }
}

/// `sub_index` is the first occurrence, or -1 when there is none.
pub proof fn lemma_sub_index(hay: Seq<char>, needle: Seq<char>)
    ensures
        sub_index(hay, needle) >= -1,
        sub_index(hay, needle) < 0 ==> forall|k: int| !crate::text::occurs_at(hay, needle, k),
        sub_index(hay, needle) >= 0 ==> crate::text::occurs_at(hay, needle, sub_index(hay, needle))
            && forall|k: int|
            0 <= k < sub_index(hay, needle) ==> !crate::text::occurs_at(hay, needle, k),
    decreases hay.len(),
{
    if crate::text::occurs_at(hay, needle, 0) {
    } else if hay.len() == 0 {
        assert forall|k: int| !crate::text::occurs_at(hay, needle, k) by {
            if crate::text::occurs_at(hay, needle, k) {
                assert(k == 0);
            }
        }
    } else {
        let t = hay.skip(1);
        lemma_sub_index(t, needle);
        assert forall|k: int| k >= 1 implies crate::text::occurs_at(hay, needle, k)
            == crate::text::occurs_at(t, needle, k - 1) by {
            lemma_occurs_skip(hay, needle, k - 1);
        }
    }
}

/// Position of the first occurrence of `needle` in `hay` (see `sub_index`).
pub fn find_sub_index(hay: &Vec<char>, needle: &str) -> (r: Option<usize>)
    ensures
        match r {
            Some(i) => i == sub_index(hay@, needle@),
            None => sub_index(hay@, needle@) == -1,
        },
{
    proof {
        lemma_sub_index(hay@, needle@);
    }
    let n = crate::text::chars_of(needle);
    match crate::text::find_sub(hay, &n) {
        Some(i) => {
            proof {
                let s = sub_index(hay@, needle@);
                if s > i {
                    assert(!crate::text::occurs_at(hay@, needle@, i as int));
                }
                if s < i {
                    assert(!crate::text::occurs_at(hay@, needle@, s));
                }
            }
            Some(i)
        },
        None => {
            proof {
                let s = sub_index(hay@, needle@);
                if s >= 0 {
                    assert(crate::text::contains_sub(hay@, needle@));
                }
            }
            None
        },
    }
}

} // verus!
