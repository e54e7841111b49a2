//! Character-level text utilities.
//!
//! All scanning and slicing in this library works on `Vec<char>` /
//! `Seq<char>`, so every step is specified exactly; `String` values appear
//! only at the public boundaries. Whitespace here means the ASCII
//! whitespace characters.

use vstd::prelude::*;
use vstd::string::StrSliceExecFns;

verus! {

/// Relies on String::push: std documents it as appending one character.
pub assume_specification[ String::push ](s: &mut String, ch: char)
    ensures
        final(s)@ == old(s)@.push(ch),
;

/// ASCII whitespace: space, tab, line feed, vertical tab, form feed,
/// carriage return.
pub open spec fn is_space(c: char) -> bool {
    c == ' ' || c == '\t' || c == '\n' || c == '\u{b}' || c == '\u{c}' || c == '\r'
}

pub fn is_space_char(c: char) -> (r: bool)
    ensures
        r == is_space(c),
{
    c == ' ' || c == '\t' || c == '\n' || c == '\u{b}' || c == '\u{c}' || c == '\r'
}

/// The characters of a string slice, in order.
pub fn chars_of(s: &str) -> (r: Vec<char>)
    ensures
        r@ == s@,
{
    let n = s.unicode_len();
    let mut r: Vec<char> = Vec::new();
    let mut i: usize = 0;
    while i < n
        invariant
            i <= n,
            n == s@.len(),
            r@ == s@.subrange(0, i as int),
        decreases n - i,
    {
        r.push(s.get_char(i));
        i = i + 1;
        assert(r@ =~= s@.subrange(0, i as int));
    }
    assert(r@ =~= s@);
    r
}

/// A `String` holding exactly the given characters.
pub fn string_of(v: &Vec<char>) -> (r: String)
    ensures
        r@ == v@,
{
    let mut r = String::new();
    let mut i: usize = 0;
    while i < v.len()
        invariant
            i <= v@.len(),
            r@ == v@.subrange(0, i as int),
        decreases v@.len() - i,
    {
        r.push(v[i]);
        i = i + 1;
        assert(r@ =~= v@.subrange(0, i as int));
    }
    assert(r@ =~= v@);
    r
}

/// The characters `v[lo..hi]`.
pub fn sub_chars(v: &Vec<char>, lo: usize, hi: usize) -> (r: Vec<char>)
    requires
        lo <= hi <= v@.len(),
    ensures
        r@ == v@.subrange(lo as int, hi as int),
{
    let mut r: Vec<char> = Vec::new();
    let mut i: usize = lo;
    while i < hi
        invariant
            lo <= i <= hi <= v@.len(),
            r@ == v@.subrange(lo as int, i as int),
        decreases hi - i,
    {
        r.push(v[i]);
        i = i + 1;
        assert(r@ =~= v@.subrange(lo as int, i as int));
    }
    r
}

/// Index of the first position at or after `pos` whose character satisfies
/// `p`, or the length of `s` when none does.
pub open spec fn first_from(s: Seq<char>, pos: int, p: spec_fn(char) -> bool) -> int
    decreases s.len() - pos,
    when 0 <= pos
{
    if pos >= s.len() {
        s.len() as int
    } else if p(s[pos]) {
        pos
    } else {
        first_from(s, pos + 1, p)
    }
}

/// `first_from` is pinned down by what holds on `[pos, j)` and at `j`.
pub proof fn lemma_first_from_at(s: Seq<char>, pos: int, p: spec_fn(char) -> bool, j: int)
    requires
        0 <= pos <= j <= s.len(),
        forall|k: int| pos <= k < j ==> !p(s[k]),
        j < s.len() ==> p(s[j]),
    ensures
        first_from(s, pos, p) == j,
    decreases j - pos,
{
    if pos < j {
        lemma_first_from_at(s, pos + 1, p, j);
    }
}

pub proof fn lemma_first_from_bounds(s: Seq<char>, pos: int, p: spec_fn(char) -> bool)
    requires
        0 <= pos <= s.len(),
    ensures
        pos <= first_from(s, pos, p) <= s.len(),
        first_from(s, pos, p) < s.len() ==> p(s[first_from(s, pos, p)]),
        forall|k: int| pos <= k < first_from(s, pos, p) ==> !p(s[k]),
    decreases s.len() - pos,
{
    if pos < s.len() && !p(s[pos]) {
        lemma_first_from_bounds(s, pos + 1, p);
    }
}

/// `s` with leading whitespace removed.
pub open spec fn spec_trim_start(s: Seq<char>) -> Seq<char>
    decreases s.len(),
{
    if s.len() > 0 && is_space(s[0]) {
        spec_trim_start(s.drop_first())
    } else {
        s
    }
}

/// `s` with trailing whitespace removed.
pub open spec fn spec_trim_end(s: Seq<char>) -> Seq<char>
    decreases s.len(),
{
    if s.len() > 0 && is_space(s[s.len() - 1]) {
        spec_trim_end(s.drop_last())
    } else {
        s
    }
}

/// `s` with leading and trailing whitespace removed.
pub open spec fn spec_trim(s: Seq<char>) -> Seq<char> {
    spec_trim_end(spec_trim_start(s))
}

pub proof fn lemma_trim_start_at(s: Seq<char>, lo: int)
    requires
        0 <= lo <= s.len(),
        forall|k: int| 0 <= k < lo ==> is_space(s[k]),
        lo < s.len() ==> !is_space(s[lo]),
    ensures
        spec_trim_start(s) == s.subrange(lo, s.len() as int),
    decreases lo,
{
    if lo == 0 {
        assert(s.subrange(0, s.len() as int) =~= s);
    } else {
        lemma_trim_start_at(s.drop_first(), lo - 1);
        assert(s.drop_first().subrange(lo - 1, s.drop_first().len() as int) =~= s.subrange(
            lo,
            s.len() as int,
        ));
    }
}

pub proof fn lemma_trim_end_at(s: Seq<char>, hi: int)
    requires
        0 <= hi <= s.len(),
        forall|k: int| hi <= k < s.len() ==> is_space(s[k]),
        hi > 0 ==> !is_space(s[hi - 1]),
    ensures
        spec_trim_end(s) == s.subrange(0, hi),
    decreases s.len() - hi,
{
    if hi == s.len() {
        assert(s.subrange(0, hi) =~= s);
    } else {
        lemma_trim_end_at(s.drop_last(), hi);
        assert(s.drop_last().subrange(0, hi) =~= s.subrange(0, hi));
    }
}

/// The characters of `v` with leading and trailing whitespace removed.
pub fn trim_chars(v: &Vec<char>) -> (r: Vec<char>)
    ensures
        r@ == spec_trim(v@),
{
    let n = v.len();
    let mut lo: usize = 0;
    while lo < n && is_space_char(v[lo])
        invariant
            lo <= n,
            n == v@.len(),
            forall|k: int| 0 <= k < lo ==> is_space(v@[k]),
        decreases n - lo,
    {
        lo = lo + 1;
    }
    proof {
        lemma_trim_start_at(v@, lo as int);
    }
    let mut hi: usize = n;
    while hi > lo && is_space_char(v[hi - 1])
        invariant
            lo <= hi <= n,
            n == v@.len(),
            forall|k: int| hi <= k < n ==> is_space(v@[k]),
        decreases hi,
    {
        hi = hi - 1;
    }
    proof {
        let t = v@.subrange(lo as int, n as int);
        lemma_trim_end_at(t, hi - lo);
        assert(t.subrange(0, hi - lo) =~= v@.subrange(lo as int, hi as int));
    }
    sub_chars(v, lo, hi)
}

/// The characters of `v` with leading whitespace removed.
pub fn trim_start_chars(v: &Vec<char>) -> (r: Vec<char>)
    ensures
        r@ == spec_trim_start(v@),
{
    let n = v.len();
    let mut lo: usize = 0;
    while lo < n && is_space_char(v[lo])
        invariant
            lo <= n,
            n == v@.len(),
            forall|k: int| 0 <= k < lo ==> is_space(v@[k]),
        decreases n - lo,
    {
        lo = lo + 1;
    }
    proof {
        lemma_trim_start_at(v@, lo as int);
    }
    sub_chars(v, lo, n)
}

/// Whether two character vectors hold the same characters.
pub fn eq_chars(a: &Vec<char>, b: &Vec<char>) -> (r: bool)
    ensures
        r == (a@ == b@),
{
    if a.len() != b.len() {
        return false;
    }
    let mut i: usize = 0;
    while i < a.len()
        invariant
            i <= a@.len(),
            a@.len() == b@.len(),
            forall|k: int| 0 <= k < i ==> a@[k] == b@[k],
        decreases a@.len() - i,
    {
        if a[i] != b[i] {
            return false;
        }
        i = i + 1;
    }
    proof {
        assert(a@ =~= b@);
    }
    true
}

/// The position just after the last occurrence of `c` in `s`, or 0 when
/// `c` does not occur.
pub open spec fn after_last(s: Seq<char>, c: char) -> int
    decreases s.len(),
{
    if s.len() == 0 {
        0
    } else if s[s.len() - 1] == c {
        s.len() as int
    } else {
        after_last(s.drop_last(), c)
    }
}

/// `after_last` is pinned down by one occurrence (or none) and what
/// follows it.
pub proof fn lemma_after_last_at(s: Seq<char>, c: char, j: int)
    requires
        0 <= j <= s.len(),
        j == 0 || s[j - 1] == c,
        forall|k: int| j <= k < s.len() ==> s[k] != c,
    ensures
        after_last(s, c) == j,
    decreases s.len(),
{
    if s.len() > 0 && s[s.len() - 1] != c {
        lemma_after_last_at(s.drop_last(), c, j);
    }
}

/// The position in `v` just after the last occurrence of `c`.
pub fn after_last_char(v: &Vec<char>, c: char) -> (r: usize)
    ensures
        r as int == after_last(v@, c),
        r <= v@.len(),
{
    let mut j = v.len();
    while j > 0 && v[j - 1] != c
        invariant
            j <= v@.len(),
            forall|k: int| j <= k < v@.len() ==> v@[k] != c,
        decreases j,
    {
        j = j - 1;
    }
    proof {
        lemma_after_last_at(v@, c, j as int);
    }
    j
}

/// The characters of `t` occur in `l` starting at position `i`.
pub open spec fn match_at(l: Seq<char>, t: Seq<char>, i: int) -> bool {
    0 <= i && i + t.len() <= l.len() && l.subrange(i, i + t.len() as int) == t
}

/// Does `v[i..]` start with the characters of `p`?
pub fn has_prefix_at(v: &Vec<char>, i: usize, p: &Vec<char>) -> (r: bool)
    requires
        i <= v@.len(),
    ensures
        r == match_at(v@, p@, i as int),
{
    let n = v.len();
    if p.len() > n - i {
        assert(!match_at(v@, p@, i as int));
        return false;
    }
    let mut k: usize = 0;
    while k < p.len()
        invariant
            k <= p@.len(),
            n == v@.len(),
            i + p@.len() <= n,
            forall|m: int| 0 <= m < k ==> v@[i + m] == p@[m],
        decreases p@.len() - k,
    {
        if v[i + k] != p[k] {
            assert(v@.subrange(i as int, i + p@.len() as int)[k as int] != p@[k as int]);
            return false;
        }
        k = k + 1;
    }
    assert(v@.subrange(i as int, i + p@.len() as int) =~= p@);
    true
}

/// The first position at or after `pos` where `t` occurs in `l`, if any.
pub open spec fn find_from(l: Seq<char>, t: Seq<char>, pos: int) -> Option<int>
    decreases l.len() - pos,
    when 0 <= pos && t.len() >= 1
{
    if pos + t.len() > l.len() {
        None
    } else if match_at(l, t, pos) {
        Some(pos)
    } else {
        find_from(l, t, pos + 1)
    }
}

/// The first position where `t` occurs in `l`, if any.
pub open spec fn spec_find(l: Seq<char>, t: Seq<char>) -> Option<int> {
    find_from(l, t, 0)
}

/// The first occurrence of the characters of `t` within `v`, if any.
pub fn find_sub(v: &Vec<char>, t: &Vec<char>) -> (r: Option<usize>)
    requires
        t@.len() >= 1,
    ensures
        match r {
            Some(i) => spec_find(v@, t@) == Some(i as int) && match_at(v@, t@, i as int),
            None => spec_find(v@, t@) is None,
        },
{
    if t.len() > v.len() {
        proof {
            lemma_find_from_none(v@, t@, 0);
        }
        return None;
    }
    let mut pos: usize = 0;
    while pos <= v.len() - t.len()
        invariant
            t@.len() >= 1,
            t@.len() <= v@.len(),
            pos <= v@.len(),
            forall|q: int| 0 <= q < pos ==> !match_at(v@, t@, q),
        decreases v@.len() - pos,
    {
        if has_prefix_at(v, pos, t) {
            proof {
                lemma_find_from_at(v@, t@, 0, pos as int);
            }
            return Some(pos);
        }
        pos = pos + 1;
    }
    proof {
        lemma_find_from_none(v@, t@, 0);
    }
    None
}

pub proof fn lemma_find_from_at(l: Seq<char>, t: Seq<char>, pos: int, j: int)
    requires
        0 <= pos <= j,
        t.len() >= 1,
        j + t.len() <= l.len(),
        forall|q: int| pos <= q < j ==> !match_at(l, t, q),
        match_at(l, t, j),
    ensures
        find_from(l, t, pos) == Some(j),
    decreases j - pos,
{
    if pos < j {
        lemma_find_from_at(l, t, pos + 1, j);
    }
}

pub proof fn lemma_find_from_none(l: Seq<char>, t: Seq<char>, pos: int)
    requires
        0 <= pos,
        t.len() >= 1,
        forall|q: int| pos <= q && q + t.len() <= l.len() ==> !match_at(l, t, q),
    ensures
        find_from(l, t, pos) is None,
    decreases l.len() - pos,
{
    if pos + t.len() <= l.len() {
        lemma_find_from_none(l, t, pos + 1);
    }
}

/// A line segment with one trailing carriage return removed, as `str::lines`
/// strips one `\r` before each line feed.
pub open spec fn strip_cr(s: Seq<char>) -> Seq<char> {
    if s.len() > 0 && s[s.len() - 1] == '\r' {
        s.drop_last()
    } else {
        s
    }
}

/// The lines of `s[pos..]`: segments between line feeds, one trailing
/// carriage return removed from each terminated segment, and no final empty
/// segment after a terminating line feed.
pub open spec fn lines_from(s: Seq<char>, pos: int) -> Seq<Seq<char>>
    decreases s.len() - pos,
    when 0 <= pos
    via lines_from_decreases
{
    if pos >= s.len() {
        Seq::empty()
    } else {
        let j = first_from(s, pos, |c: char| c == '\n');
        if j == s.len() {
            seq![s.subrange(pos, s.len() as int)]
        } else {
            seq![strip_cr(s.subrange(pos, j))] + lines_from(s, j + 1)
        }
    }
}

#[via_fn]
proof fn lines_from_decreases(s: Seq<char>, pos: int) {
    if 0 <= pos && pos < s.len() {
        lemma_first_from_bounds(s, pos, |c: char| c == '\n');
    }
}

/// The lines of `s`.
pub open spec fn spec_lines(s: Seq<char>) -> Seq<Seq<char>> {
    lines_from(s, 0)
}

/// The lines of `v`, split as `spec_lines` describes.
pub fn split_lines(v: &Vec<char>) -> (r: Vec<Vec<char>>)
    ensures
        r.deep_view() == spec_lines(v@),
{
    let n = v.len();
    let mut r: Vec<Vec<char>> = Vec::new();
    let mut pos: usize = 0;
    while pos < n
        invariant
            pos <= n,
            n == v@.len(),
            r.deep_view() + lines_from(v@, pos as int) =~~= spec_lines(v@),
        decreases n - pos,
    {
        let mut j: usize = pos;
        while j < n && v[j] != '\n'
            invariant
                pos <= j <= n,
                n == v@.len(),
                forall|k: int| pos <= k < j ==> v@[k] != '\n',
            decreases n - j,
        {
            j = j + 1;
        }
        proof {
            lemma_first_from_at(v@, pos as int, |c: char| c == '\n', j as int);
        }
        let ghost prev = r.deep_view();
        if j == n {
            let seg = sub_chars(v, pos, j);
            r.push(seg);
            proof {
                assert(r.deep_view() =~~= prev + seq![v@.subrange(pos as int, j as int)]);
                assert(r.deep_view() =~~= spec_lines(v@));
            }
            return r;
        }
        let hi = if j > pos && v[j - 1] == '\r' {
            j - 1
        } else {
            j
        };
        let seg = sub_chars(v, pos, hi);
        proof {
            assert(strip_cr(v@.subrange(pos as int, j as int)) =~= v@.subrange(
                pos as int,
                hi as int,
            ));
        }
        r.push(seg);
        proof {
            assert(r.deep_view() =~~= prev + seq![strip_cr(v@.subrange(pos as int, j as int))]);
        }
        pos = j + 1;
    }
    proof {
        assert(r.deep_view() =~~= spec_lines(v@));
    }
    r
}

/// `s` with every leading occurrence of `p` removed, as
/// `str::trim_start_matches` does.
pub open spec fn spec_trim_start_matches(s: Seq<char>, p: Seq<char>) -> Seq<char>
    decreases s.len(),
{
    if p.len() >= 1 && match_at(s, p, 0) {
        spec_trim_start_matches(s.skip(p.len() as int), p)
    } else {
        s
    }
}

/// `s` with every trailing occurrence of `p` removed, as
/// `str::trim_end_matches` does.
pub open spec fn spec_trim_end_matches(s: Seq<char>, p: Seq<char>) -> Seq<char>
    decreases s.len(),
{
    if p.len() >= 1 && match_at(s, p, s.len() - p.len()) {
        spec_trim_end_matches(s.take(s.len() - p.len()), p)
    } else {
        s
    }
}

/// The characters of `v` with every leading occurrence of `p` removed.
pub fn trim_start_matches_chars(v: &Vec<char>, p: &Vec<char>) -> (r: Vec<char>)
    ensures
        r@ == spec_trim_start_matches(v@, p@),
{
    let n = v.len();
    if p.len() == 0 {
        return sub_chars(v, 0, n);
    }
    let mut lo: usize = 0;
    assert(v@.skip(0) =~= v@);
    while p.len() <= n - lo && has_prefix_at(v, lo, p)
        invariant
            lo <= n,
            n == v@.len(),
            p@.len() >= 1,
            spec_trim_start_matches(v@, p@) == spec_trim_start_matches(v@.skip(lo as int), p@),
        decreases n - lo,
    {
        proof {
            assert(v@.skip(lo as int).subrange(0, p@.len() as int) =~= v@.subrange(
                lo as int,
                lo + p@.len(),
            ));
            assert(v@.skip(lo as int).skip(p@.len() as int) =~= v@.skip(lo + p@.len()));
        }
        lo = lo + p.len();
    }
    proof {
        let rest = v@.skip(lo as int);
        if p@.len() <= rest.len() {
            assert(rest.subrange(0, p@.len() as int) =~= v@.subrange(lo as int, lo + p@.len()));
        }
        assert(spec_trim_start_matches(rest, p@) == rest);
        assert(rest =~= v@.subrange(lo as int, n as int));
    }
    sub_chars(v, lo, n)
}

/// The characters of `v` with every trailing occurrence of `p` removed.
pub fn trim_end_matches_chars(v: &Vec<char>, p: &Vec<char>) -> (r: Vec<char>)
    ensures
        r@ == spec_trim_end_matches(v@, p@),
{
    let n = v.len();
    if p.len() == 0 {
        return sub_chars(v, 0, n);
    }
    let mut hi: usize = n;
    assert(v@.take(n as int) =~= v@);
    while hi >= p.len() && has_prefix_at(v, hi - p.len(), p)
        invariant
            hi <= n,
            n == v@.len(),
            p@.len() >= 1,
            spec_trim_end_matches(v@, p@) == spec_trim_end_matches(v@.take(hi as int), p@),
        decreases hi,
    {
        proof {
            let cur = v@.take(hi as int);
            assert(cur.subrange(cur.len() - p@.len(), cur.len() as int) =~= v@.subrange(
                hi - p@.len(),
                hi as int,
            ));
            assert(cur.take(cur.len() - p@.len()) =~= v@.take(hi - p@.len()));
        }
        hi = hi - p.len();
    }
    proof {
        let cur = v@.take(hi as int);
        if p@.len() <= cur.len() {
            assert(cur.subrange(cur.len() - p@.len(), cur.len() as int) =~= v@.subrange(
                hi - p@.len(),
                hi as int,
            ));
        }
        assert(spec_trim_end_matches(cur, p@) == cur);
        assert(cur =~= v@.subrange(0, hi as int));
    }
    sub_chars(v, 0, hi)
}

/// The parts joined with a line feed between consecutive parts.
pub open spec fn spec_join_nl(parts: Seq<Seq<char>>) -> Seq<char>
    decreases parts.len(),
{
    if parts.len() == 0 {
        Seq::empty()
    } else if parts.len() == 1 {
        parts[0]
    } else {
        spec_join_nl(parts.drop_last()) + seq!['\n'] + parts.last()
    }
}

/// The characters of the parts of `parts`, joined with line feeds.
pub fn join_nl(parts: &Vec<Vec<char>>) -> (r: Vec<char>)
    ensures
        r@ == spec_join_nl(parts.deep_view()),
{
    let mut r: Vec<char> = Vec::new();
    let mut i: usize = 0;
    while i < parts.len()
        invariant
            i <= parts@.len(),
            r@ == spec_join_nl(parts.deep_view().take(i as int)),
        decreases parts@.len() - i,
    {
        if i > 0 {
            r.push('\n');
        }
        let part = &parts[i];
        let mut k: usize = 0;
        let ghost base = r@;
        while k < part.len()
            invariant
                k <= part@.len(),
                r@ == base + part@.subrange(0, k as int),
            decreases part@.len() - k,
        {
            r.push(part[k]);
            k = k + 1;
            assert(r@ =~= base + part@.subrange(0, k as int));
        }
        i = i + 1;
        proof {
            let pv = parts.deep_view();
            assert(pv.take(i as int).drop_last() =~= pv.take(i - 1));
            assert(pv.take(i as int).last() == pv[i - 1]);
            assert(part@.subrange(0, part@.len() as int) =~= pv[i - 1]);
            if i == 1 {
                assert(r@ =~= pv.take(1)[0]);
            } else {
                assert(r@ =~= spec_join_nl(pv.take(i - 1)) + seq!['\n'] + pv[i - 1]);
            }
        }
    }
    proof {
        assert(parts.deep_view().take(parts@.len() as int) =~= parts.deep_view());
    }
    r
}

/// Lexicographic order on character sequences, by unicode scalar value.
pub open spec fn lex_le(a: Seq<char>, b: Seq<char>) -> bool
    decreases a.len(),
{
    if a.len() == 0 {
        true
    } else if b.len() == 0 {
        false
    } else if (a[0] as u32) < (b[0] as u32) {
        true
    } else if (b[0] as u32) < (a[0] as u32) {
        false
    } else {
        lex_le(a.drop_first(), b.drop_first())
    }
}

/// `lex_le` is total.
pub proof fn lemma_lex_total(a: Seq<char>, b: Seq<char>)
    ensures
        lex_le(a, b) || lex_le(b, a),
    decreases a.len(),
{
    if a.len() > 0 && b.len() > 0 && !((a[0] as u32) < (b[0] as u32)) && !((b[0] as u32) < (
    a[0] as u32)) {
        lemma_lex_total(a.drop_first(), b.drop_first());
    }
}

/// `lex_le` is transitive.
pub proof fn lemma_lex_trans(a: Seq<char>, b: Seq<char>, c: Seq<char>)
    requires
        lex_le(a, b),
        lex_le(b, c),
    ensures
        lex_le(a, c),
    decreases a.len(),
{
    if a.len() > 0 && b.len() > 0 && c.len() > 0 {
        if !((a[0] as u32) < (c[0] as u32)) && !((c[0] as u32) < (a[0] as u32)) {
            if (a[0] as u32) == (b[0] as u32) && (b[0] as u32) == (c[0] as u32) {
                lemma_lex_trans(a.drop_first(), b.drop_first(), c.drop_first());
            }
        }
    }
}

/// Equal scalar values are equal characters.
proof fn lemma_char_cast_inj(a: char, b: char)
    requires
        a as u32 == b as u32,
    ensures
        a == b,
{
}

/// `lex_le` is antisymmetric.
pub proof fn lemma_lex_antisym(a: Seq<char>, b: Seq<char>)
    requires
        lex_le(a, b),
        lex_le(b, a),
    ensures
        a == b,
    decreases a.len(),
{
    if a.len() > 0 {
        assert(b.len() > 0);
        let x = a[0] as u32;
        let y = b[0] as u32;
        if x < y {
            assert(!lex_le(b, a));
        }
        if y < x {
            assert(!lex_le(a, b));
        }
        assert(x == y);
        lemma_char_cast_inj(a[0], b[0]);
        assert(a[0] == b[0]);
        lemma_lex_antisym(a.drop_first(), b.drop_first());
        assert forall|k: int| 0 <= k < a.len() implies a[k] == b[k] by {
            if k > 0 {
                assert(a[k] == a.drop_first()[k - 1]);
                assert(b[k] == b.drop_first()[k - 1]);
            }
        }
        assert(a =~= b);
    } else {
        assert(a =~= b);
    }
}

/// Whether the characters of `a` come no later than those of `b`.
pub fn lex_le_chars(a: &Vec<char>, b: &Vec<char>) -> (r: bool)
    ensures
        r == lex_le(a@, b@),
{
    let mut i: usize = 0;
    assert(a@.skip(0) =~= a@);
    assert(b@.skip(0) =~= b@);
    while i < a.len() && i < b.len()
        invariant
            i <= a@.len(),
            i <= b@.len(),
            lex_le(a@, b@) == lex_le(a@.skip(i as int), b@.skip(i as int)),
        decreases a@.len() - i,
    {
        let x = a[i] as u32;
        let y = b[i] as u32;
        if x < y {
            return true;
        }
        if y < x {
            return false;
        }
        proof {
            let sa = a@.skip(i as int);
            let sb = b@.skip(i as int);
            assert(sa.drop_first() =~= a@.skip(i + 1));
            assert(sb.drop_first() =~= b@.skip(i + 1));
        }
        i = i + 1;
    }
    a.len() <= b.len()
}

/// The decimal digit `d` as a character.
pub open spec fn dec_digit(d: int) -> char {
    if d == 0 {
        '0'
    } else if d == 1 {
        '1'
    } else if d == 2 {
        '2'
    } else if d == 3 {
        '3'
    } else if d == 4 {
        '4'
    } else if d == 5 {
        '5'
    } else if d == 6 {
        '6'
    } else if d == 7 {
        '7'
    } else if d == 8 {
        '8'
    } else {
        '9'
    }
}

/// The decimal digits of `n`, most significant first.
pub open spec fn spec_dec(n: int) -> Seq<char>
    decreases n,
    when n >= 0
{
    if n < 10 {
        seq![dec_digit(n)]
    } else {
        spec_dec(n / 10).push(dec_digit(n % 10))
    }
}

fn dec_digit_char(d: usize) -> (r: char)
    requires
        d < 10,
    ensures
        r == dec_digit(d as int),
{
    if d == 0 {
        '0'
    } else if d == 1 {
        '1'
    } else if d == 2 {
        '2'
    } else if d == 3 {
        '3'
    } else if d == 4 {
        '4'
    } else if d == 5 {
        '5'
    } else if d == 6 {
        '6'
    } else if d == 7 {
        '7'
    } else if d == 8 {
        '8'
    } else {
        '9'
    }
}

/// The decimal rendering of `n`.
pub fn dec_chars(n: usize) -> (r: Vec<char>)
    ensures
        r@ == spec_dec(n as int),
{
    let mut acc: Vec<char> = Vec::new();
    let mut m = n;
    let d0 = dec_digit_char(m % 10);
    acc.insert(0, d0);
    proof {
        if n >= 10 {
            assert(spec_dec(n as int) =~= spec_dec(n as int / 10) + seq![dec_digit(
                n as int % 10,
            )]);
            assert(acc@ =~= seq![dec_digit(n as int % 10)]);
        } else {
            assert(acc@ =~= seq![dec_digit(n as int)]);
        }
    }
    m = m / 10;
    while m > 0
        invariant
            m > 0 ==> spec_dec(n as int) == spec_dec(m as int) + acc@,
            m == 0 ==> spec_dec(n as int) == acc@,
        decreases m,
    {
        let ghost old_m = m as int;
        let ghost old_acc = acc@;
        let d = dec_digit_char(m % 10);
        acc.insert(0, d);
        proof {
            assert(acc@ =~= seq![dec_digit(old_m % 10)] + old_acc);
        }
        m = m / 10;
        proof {
            if old_m < 10 {
                assert(spec_dec(old_m) =~= seq![dec_digit(old_m % 10)]);
                assert(spec_dec(n as int) =~= seq![dec_digit(old_m % 10)] + old_acc);
            } else {
                assert(spec_dec(old_m) =~= spec_dec(old_m / 10) + seq![dec_digit(old_m % 10)]);
                assert(spec_dec(n as int) =~= spec_dec(old_m / 10) + (seq![dec_digit(old_m % 10)]
                    + old_acc));
            }
        }
    }
    acc
}

/// `s` with every backslash replaced by a forward slash.
pub open spec fn spec_slashes(s: Seq<char>) -> Seq<char> {
    s.map_values(
        |c: char|
            if c == '\\' {
                '/'
            } else {
                c
            },
    )
}

/// A path normalized for link construction: backslashes become forward
/// slashes, then every leading `./` is removed.
pub open spec fn spec_normalize_path(s: Seq<char>) -> Seq<char> {
    spec_trim_start_matches(spec_slashes(s), seq!['.', '/'])
}

/// The characters of `v`, normalized as `spec_normalize_path` describes.
pub fn normalize_path_chars(v: &Vec<char>) -> (r: Vec<char>)
    ensures
        r@ == spec_normalize_path(v@),
{
    let mut slashed: Vec<char> = Vec::new();
    let mut i: usize = 0;
    while i < v.len()
        invariant
            i <= v@.len(),
            slashed@.len() == i,
            forall|k: int|
                0 <= k < i ==> slashed@[k] == (if v@[k] == '\\' {
                    '/'
                } else {
                    v@[k]
                }),
        decreases v@.len() - i,
    {
        let c = v[i];
        if c == '\\' {
            slashed.push('/');
        } else {
            slashed.push(c);
        }
        i = i + 1;
    }
    proof {
        assert(slashed@ =~= spec_slashes(v@));
    }
    let mut dot_slash: Vec<char> = Vec::new();
    dot_slash.push('.');
    dot_slash.push('/');
    proof {
        assert(dot_slash@ =~= seq!['.', '/']);
    }
    trim_start_matches_chars(&slashed, &dot_slash)
}

} // verus!
