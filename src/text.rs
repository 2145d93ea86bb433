//! Character-level text handling for the assembler: lines, comments,
//! whitespace and separators.
use vstd::prelude::*;
use vstd::string::*;

verus! {

broadcast use vstd::string::axiom_spec_iter;

/// Unicode's White_Space characters, those that trimming removes.
pub open spec fn is_ws(c: char) -> bool {
    ('\u{9}' <= c <= '\u{d}') || c == ' ' || c == '\u{85}' || c == '\u{a0}' || c == '\u{1680}'
        || ('\u{2000}' <= c <= '\u{200a}') || c == '\u{2028}' || c == '\u{2029}' || c == '\u{202f}'
        || c == '\u{205f}' || c == '\u{3000}'
}

pub fn is_whitespace(c: char) -> (r: bool)
    ensures
        r == is_ws(c),
{
    ('\u{9}' <= c && c <= '\u{d}') || c == ' ' || c == '\u{85}' || c == '\u{a0}' || c == '\u{1680}'
        || ('\u{2000}' <= c && c <= '\u{200a}') || c == '\u{2028}' || c == '\u{2029}' || c
        == '\u{202f}' || c == '\u{205f}' || c == '\u{3000}'
}

/// The index of the first `c` in `s`.
pub open spec fn first_index(s: Seq<char>, c: char) -> Option<int>
    decreases s.len(),
{
    if s.len() == 0 {
        None
    } else {
        match first_index(s.drop_last(), c) {
            Some(k) => Some(k),
            None => if s.last() == c {
                Some(s.len() - 1)
            } else {
                None
            },
        }
    }
}

pub proof fn lemma_first_index_bounds(s: Seq<char>, c: char)
    ensures
        first_index(s, c) matches Some(k) ==> 0 <= k < s.len() && s[k] == c,
    decreases s.len(),
{
    if s.len() > 0 {
        lemma_first_index_bounds(s.drop_last(), c);
    }
}

/// Once a prefix holds `c`, longer prefixes find the same first index.
pub proof fn lemma_first_index_stable(s: Seq<char>, c: char, n: int)
    requires
        0 <= n <= s.len(),
        first_index(s.take(n), c) is Some,
    ensures
        first_index(s, c) == first_index(s.take(n), c),
    decreases s.len() - n,
{
    if n < s.len() {
        assert(s.take(n + 1).drop_last() =~= s.take(n));
        lemma_first_index_stable(s, c, n + 1);
    } else {
        assert(s.take(n) =~= s);
    }
}

/// The first index of `c` in `v`, if any.
pub fn find_char(v: &Vec<char>, c: char) -> (r: Option<usize>)
    ensures
        r matches Some(k) ==> first_index(v@, c) == Some(k as int) && k < v@.len(),
        r is None ==> first_index(v@, c) is None,
{
    let mut i: usize = 0;
    while i < v.len()
        invariant
            i <= v@.len(),
            first_index(v@.take(i as int), c) is None,
        decreases v@.len() - i,
    {
        assert(v@.take(i as int + 1).drop_last() =~= v@.take(i as int));
        if v[i] == c {
            proof {
                lemma_first_index_stable(v@, c, i as int + 1);
            }
            return Some(i);
        }
        i = i + 1;
    }
    assert(v@.take(i as int) =~= v@);
    None
}

/// `s` without leading whitespace.
pub open spec fn trim_start(s: Seq<char>) -> Seq<char>
    decreases s.len(),
{
    if s.len() > 0 && is_ws(s[0]) {
        trim_start(s.drop_first())
    } else {
        s
    }
}

/// `s` without trailing whitespace.
pub open spec fn trim_end(s: Seq<char>) -> Seq<char>
    decreases s.len(),
{
    if s.len() > 0 && is_ws(s.last()) {
        trim_end(s.drop_last())
    } else {
        s
    }
}

/// `s` without leading or trailing whitespace.
pub open spec fn trim(s: Seq<char>) -> Seq<char> {
    trim_end(trim_start(s))
}

/// The part of a line before its comment, if it has one.
pub open spec fn cut_comment(s: Seq<char>) -> Seq<char> {
    match first_index(s, '#') {
        Some(k) => s.take(k),
        None => s,
    }
}

/// A line as the assembler reads it: comment removed, then trimmed.
pub open spec fn clean(s: Seq<char>) -> Seq<char> {
    trim(cut_comment(s))
}

/// The pieces of `s` between separators `sep`; `n` separators give `n + 1`
/// pieces.
pub open spec fn split_char(s: Seq<char>, sep: char) -> Seq<Seq<char>>
    decreases s.len(),
{
    if s.len() == 0 {
        seq![Seq::empty()]
    } else {
        let p = split_char(s.drop_last(), sep);
        if s.last() == sep {
            p.push(Seq::empty())
        } else {
            p.update(p.len() - 1, p.last().push(s.last()))
        }
    }
}

/// The non-empty cleaned lines among `ls`, in order.
pub open spec fn keep_lines(ls: Seq<Seq<char>>) -> Seq<Seq<char>>
    decreases ls.len(),
{
    if ls.len() == 0 {
        Seq::empty()
    } else {
        let k = keep_lines(ls.drop_last());
        let l = clean(ls.last());
        if l.len() > 0 {
            k.push(l)
        } else {
            k
        }
    }
}

/// The lines of a program text that carry a label or an instruction: split at
/// line feeds, comments cut, trimmed, empty ones dropped.
pub open spec fn relevant_lines(s: Seq<char>) -> Seq<Seq<char>> {
    keep_lines(split_char(s, '\n'))
}

/// The pieces of `s` between occurrences of the separator ", ".
pub open spec fn split_args(s: Seq<char>) -> Seq<Seq<char>>
    decreases s.len(),
{
    if s.len() == 0 {
        seq![Seq::empty()]
    } else {
        let p = split_args(s.drop_last());
        let cur = p.last();
        if s.last() == ' ' && cur.len() > 0 && cur.last() == ',' {
            p.update(p.len() - 1, cur.drop_last()).push(Seq::empty())
        } else {
            p.update(p.len() - 1, cur.push(s.last()))
        }
    }
}

/// The views of a sequence of character vectors.
pub open spec fn views(v: Seq<Vec<char>>) -> Seq<Seq<char>> {
    v.map_values(|x: Vec<char>| x@)
}

/// `v` with its comment cut and surrounding whitespace trimmed.
pub fn clean_line(v: &Vec<char>) -> (r: Vec<char>)
    ensures
        r@ == clean(v@),
{
    let found = find_char(v, '#');
    proof {
        lemma_first_index_bounds(v@, '#');
    }
    let end = match found {
        Some(k) => k,
        None => v.len(),
    };
    let ghost cut = v@.take(end as int);
    proof {
        match first_index(v@, '#') {
            Some(k) => {
                assert(end == k);
            },
            None => {
                assert(v@.take(end as int) =~= v@);
            },
        }
    }
    assert(cut == cut_comment(v@));
    let mut a: usize = 0;
    while a < end && is_whitespace(v[a])
        invariant
            a <= end <= v@.len(),
            cut == v@.take(end as int),
            trim_start(cut) == trim_start(v@.subrange(a as int, end as int)),
        decreases end - a,
    {
        assert(v@.subrange(a as int, end as int).drop_first() =~= v@.subrange(a as int + 1, end as int));
        a = a + 1;
    }
    assert(trim_start(cut) == v@.subrange(a as int, end as int));
    let mut b: usize = end;
    while b > a && is_whitespace(v[b - 1])
        invariant
            a <= b <= end <= v@.len(),
            trim(cut) == trim_end(v@.subrange(a as int, b as int)),
        decreases b - a,
    {
        assert(v@.subrange(a as int, b as int).drop_last() =~= v@.subrange(a as int, b as int - 1));
        b = b - 1;
    }
    slice_of(v, a, b)
}

/// The lines of `text` that carry a label or an instruction, cleaned.
pub fn lines_of(text: &Vec<char>) -> (r: Vec<Vec<char>>)
    ensures
        views(r@) == relevant_lines(text@),
{
    let mut out: Vec<Vec<char>> = Vec::new();
    let mut start: usize = 0;
    let mut i: usize = 0;
    while i < text.len()
        invariant
            start <= i <= text@.len(),
            split_char(text@.take(i as int), '\n').len() >= 1,
            split_char(text@.take(i as int), '\n').last() == text@.subrange(start as int, i as int),
            views(out@) == keep_lines(split_char(text@.take(i as int), '\n').drop_last()),
        decreases text@.len() - i,
    {
        let ghost p = split_char(text@.take(i as int), '\n');
        assert(text@.take(i as int + 1).drop_last() =~= text@.take(i as int));
        if text[i] == '\n' {
            let piece = slice_of(text, start, i);
            let l = clean_line(&piece);
            assert(p.push(Seq::empty()).drop_last() =~= p);
            if l.len() > 0 {
                out.push(l);
                assert(views(out@) =~= keep_lines(p.drop_last()).push(clean(p.last())));
            }
            start = i + 1;
            assert(Seq::<char>::empty() =~= text@.subrange(start as int, i as int + 1));
        } else {
            assert(p.update(p.len() - 1, p.last().push(text@[i as int])).drop_last() =~= p.drop_last());
            assert(text@.subrange(start as int, i as int).push(text@[i as int]) =~= text@.subrange(start as int, i as int + 1));
        }
        i = i + 1;
    }
    assert(text@.take(i as int) =~= text@);
    let ghost p = split_char(text@, '\n');
    let piece = slice_of(text, start, i);
    let l = clean_line(&piece);
    if l.len() > 0 {
        out.push(l);
        assert(views(out@) =~= keep_lines(p.drop_last()).push(clean(p.last())));
    }
    assert(p =~= p.drop_last().push(p.last()));
    out
}

/// The pieces of `v` between occurrences of ", ".
pub fn split_args_of(v: &Vec<char>) -> (r: Vec<Vec<char>>)
    ensures
        views(r@) == split_args(v@),
{
    let mut out: Vec<Vec<char>> = Vec::new();
    let mut cur: Vec<char> = Vec::new();
    let mut i: usize = 0;
    while i < v.len()
        invariant
            i <= v@.len(),
            split_args(v@.take(i as int)).len() >= 1,
            split_args(v@.take(i as int)).last() == cur@,
            views(out@) == split_args(v@.take(i as int)).drop_last(),
        decreases v@.len() - i,
    {
        let ghost p = split_args(v@.take(i as int));
        assert(v@.take(i as int + 1).drop_last() =~= v@.take(i as int));
        let c = v[i];
        let n = cur.len();
        if c == ' ' && n > 0 && cur[n - 1] == ',' {
            cur.pop();
            let ghost q = p.update(p.len() - 1, cur@).push(Seq::empty());
            let ghost old_out = out@;
            let ghost cv = cur@;
            out.push(cur);
            cur = Vec::new();
            assert(views(out@) =~= views(old_out).push(cv));
            assert(q.drop_last() =~= p.drop_last().push(cv));
        } else {
            cur.push(c);
            let ghost q = p.update(p.len() - 1, cur@);
            assert(q.drop_last() =~= p.drop_last());
        }
        i = i + 1;
    }
    assert(v@.take(i as int) =~= v@);
    let ghost p = split_args(v@);
    let ghost old_out = out@;
    let ghost cv = cur@;
    out.push(cur);
    assert(views(out@) =~= views(old_out).push(cv));
    assert(p =~= p.drop_last().push(p.last()));
    out
}

/// The characters of `s`.
pub fn chars_of(s: &str) -> (r: Vec<char>)
    ensures
        r@ == s@,
{
    let mut r: Vec<char> = Vec::new();
    for c in it: s.chars()
        invariant
            r@ == it.seq().take(it.index() as int),
            it.seq() == s@,
    {
        r.push(c);
    }
    assert(r@ =~= s@);
    r
}

/// A copy of `v[a..b]`.
pub fn slice_of(v: &Vec<char>, a: usize, b: usize) -> (r: Vec<char>)
    requires
        a <= b <= v@.len(),
    ensures
        r@ == v@.subrange(a as int, b as int),
{
    let mut r: Vec<char> = Vec::new();
    let mut i = a;
    while i < b
        invariant
            a <= i <= b,
            b <= v@.len(),
            r@ == v@.subrange(a as int, i as int),
        decreases b - i,
    {
        r.push(v[i]);
        i = i + 1;
    }
    r
}

/// Relies on `String::push`: the character is appended at the end.
pub assume_specification[ String::push ](s: &mut String, ch: char)
    ensures
        final(s)@ == old(s)@.push(ch),
;

/// A string of the characters of `v`.
pub fn string_of(v: &Vec<char>) -> (r: String)
    ensures
        r@ == v@,
{
    let mut r = String::new();
    let mut i: usize = 0;
    while i < v.len()
        invariant
            i <= v@.len(),
            r@ == v@.take(i as int),
        decreases v@.len() - i,
    {
        r.push(v[i]);
        assert(v@.take(i as int + 1) =~= v@.take(i as int).push(v@[i as int]));
        i = i + 1;
    }
    assert(v@.take(i as int) =~= v@);
    r
}

/// Whether `v` spells `s`.
pub fn eq_str(v: &Vec<char>, s: &str) -> (r: bool)
    ensures
        r == (v@ == s@),
{
    let n = s.unicode_len();
    if n != v.len() {
        return false;
    }
    let mut i: usize = 0;
    while i < n
        invariant
            i <= n,
            n == v@.len(),
            n == s@.len(),
            forall|j: int| 0 <= j < i ==> v@[j] == s@[j],
        decreases n - i,
    {
        if v[i] != s.get_char(i) {
            return false;
        }
        i = i + 1;
    }
    assert(v@ =~= s@);
    true
}

/// Whether `v` begins with `s`.
pub fn starts_with_str(v: &Vec<char>, s: &str) -> (r: bool)
    ensures
        r == (s@.len() <= v@.len() && v@.take(s@.len() as int) == s@),
{
    let n = s.unicode_len();
    if n > v.len() {
        return false;
    }
    let mut i: usize = 0;
    while i < n
        invariant
            i <= n,
            n <= v@.len(),
            n == s@.len(),
            forall|j: int| 0 <= j < i ==> v@[j] == s@[j],
        decreases n - i,
    {
        if v[i] != s.get_char(i) {
            return false;
        }
        i = i + 1;
    }
    assert(v@.take(n as int) =~= s@);
    true
}

} // verus!
