//! Line-by-line scanning of a comment for the recognized tag markers.
//!
//! The recognized vocabulary is fixed, case-sensitive and closed:
//! `@ubiquitous`, `@context`, `@description`. A comment is trimmed, split
//! into lines, and each trimmed line is searched for the first occurrence
//! of each marker; the remainder of the line, with comment delimiters and
//! whitespace stripped, is the tag's value. When a marker repeats, the
//! last matching line wins. A line matching `@ubiquitous` also records the
//! line's absolute number, counted in the un-stripped comment text; that
//! sum saturates at the machine limit.

use vstd::prelude::*;
use crate::text::{
    spec_find, spec_lines, spec_trim, spec_trim_end_matches, find_sub, split_lines, string_of,
    sub_chars, trim_chars, trim_end_matches_chars,
};

verus! {

pub open spec fn tag_ubiquitous() -> Seq<char> {
    seq!['@', 'u', 'b', 'i', 'q', 'u', 'i', 't', 'o', 'u', 's']
}

pub open spec fn tag_context() -> Seq<char> {
    seq!['@', 'c', 'o', 'n', 't', 'e', 'x', 't']
}

pub open spec fn tag_description() -> Seq<char> {
    seq!['@', 'd', 'e', 's', 'c', 'r', 'i', 'p', 't', 'i', 'o', 'n']
}

fn tag_ubiquitous_chars() -> (r: Vec<char>)
    ensures
        r@ == tag_ubiquitous(),
{
    let mut v: Vec<char> = Vec::new();
    v.push('@');
    v.push('u');
    v.push('b');
    v.push('i');
    v.push('q');
    v.push('u');
    v.push('i');
    v.push('t');
    v.push('o');
    v.push('u');
    v.push('s');
    proof {
        assert(v@ =~= tag_ubiquitous());
    }
    v
}

fn tag_context_chars() -> (r: Vec<char>)
    ensures
        r@ == tag_context(),
{
    let mut v: Vec<char> = Vec::new();
    v.push('@');
    v.push('c');
    v.push('o');
    v.push('n');
    v.push('t');
    v.push('e');
    v.push('x');
    v.push('t');
    proof {
        assert(v@ =~= tag_context());
    }
    v
}

fn tag_description_chars() -> (r: Vec<char>)
    ensures
        r@ == tag_description(),
{
    let mut v: Vec<char> = Vec::new();
    v.push('@');
    v.push('d');
    v.push('e');
    v.push('s');
    v.push('c');
    v.push('r');
    v.push('i');
    v.push('p');
    v.push('t');
    v.push('i');
    v.push('o');
    v.push('n');
    proof {
        assert(v@ =~= tag_description());
    }
    v
}

/// A tag's value: the remainder of the line after the marker, trimmed,
/// with a trailing block-comment terminator removed — the delimiter is not
/// part of the value when the closing `*/` shares the tag's line.
pub open spec fn tag_value(rest: Seq<char>) -> Seq<char> {
    spec_trim(spec_trim_end_matches(spec_trim(rest), seq!['*', '/']))
}

fn close_marker() -> (r: Vec<char>)
    ensures
        r@ == seq!['*', '/'],
{
    let mut v: Vec<char> = Vec::new();
    v.push('*');
    v.push('/');
    proof {
        assert(v@ =~= seq!['*', '/']);
    }
    v
}

/// The value of a tag found on a line: trim, strip a trailing `*/`, trim.
fn tag_value_chars(rest: &Vec<char>) -> (r: Vec<char>)
    ensures
        r@ == tag_value(rest@),
{
    let t = trim_chars(rest);
    let marker = close_marker();
    let stripped = trim_end_matches_chars(&t, &marker);
    trim_chars(&stripped)
}

/// Ghost mirror of [`TagScan`].
pub struct TagScanState {
    pub term: Option<Seq<char>>,
    pub term_line: Option<int>,
    pub context: Option<Seq<char>>,
    pub description: Option<Seq<char>>,
}

/// What a scan of a comment's lines found: the value of each recognized
/// tag, if any line carried it, and the line number of the last
/// `@ubiquitous` match.
pub struct TagScan {
    pub term: Option<String>,
    pub term_line: Option<usize>,
    pub context: Option<String>,
    pub description: Option<String>,
}

impl View for TagScan {
    type V = TagScanState;

    open spec fn view(&self) -> TagScanState {
        TagScanState {
            term: match self.term {
                Some(s) => Some(s@),
                None => None,
            },
            term_line: match self.term_line {
                Some(n) => Some(n as int),
                None => None,
            },
            context: match self.context {
                Some(s) => Some(s@),
                None => None,
            },
            description: match self.description {
                Some(s) => Some(s@),
                None => None,
            },
        }
    }
}

/// The state before any line has been scanned.
pub open spec fn init_scan() -> TagScanState {
    TagScanState { term: None, term_line: None, context: None, description: None }
}

/// `base + idx`, saturating at the machine limit.
pub open spec fn sat_line(base: int, idx: int) -> int {
    if base + idx > usize::MAX {
        usize::MAX as int
    } else {
        base + idx
    }
}

pub fn sat_add(base: usize, idx: usize) -> (r: usize)
    ensures
        r as int == sat_line(base as int, idx as int),
{
    match base.checked_add(idx) {
        Some(v) => v,
        None => usize::MAX,
    }
}

/// One line of a comment, applied to the scan state: the first recognized
/// marker on the trimmed line sets that tag's value to the trimmed
/// remainder, overwriting any earlier value.
pub open spec fn scan_line(st: TagScanState, raw: Seq<char>, line_no: int) -> TagScanState {
    let l = spec_trim(raw);
    match spec_find(l, tag_ubiquitous()) {
        Some(i) => (TagScanState {
            term: Some(tag_value(l.skip(i + tag_ubiquitous().len()))),
            term_line: Some(line_no),
            ..st
        }),
        None => match spec_find(l, tag_context()) {
            Some(i) => (TagScanState {
                context: Some(tag_value(l.skip(i + tag_context().len()))),
                ..st
            }),
            None => match spec_find(l, tag_description()) {
                Some(i) => (TagScanState {
                    description: Some(tag_value(l.skip(i + tag_description().len()))),
                    ..st
                }),
                None => st,
            },
        },
    }
}

/// The lines from `idx` on, folded over the scan state; line `idx` has
/// absolute number `sat_line(base, idx)`.
pub open spec fn scan_lines(
    st: TagScanState,
    lines: Seq<Seq<char>>,
    base: int,
    idx: int,
) -> TagScanState
    decreases lines.len() - idx,
    when 0 <= idx
{
    if idx >= lines.len() {
        st
    } else {
        scan_lines(scan_line(st, lines[idx], sat_line(base, idx)), lines, base, idx + 1)
    }
}

/// The scan of a whole comment: trimmed, split into lines, folded from the
/// empty state; the comment's first line has absolute number `base`.
pub open spec fn spec_scan_comment(c: Seq<char>, base: int) -> TagScanState {
    scan_lines(init_scan(), spec_lines(spec_trim(c)), base, 0)
}

/// Does this line carry any recognized tag marker?
pub open spec fn line_has_marker(raw: Seq<char>) -> bool {
    let l = spec_trim(raw);
    spec_find(l, tag_ubiquitous()) is Some || spec_find(l, tag_context()) is Some || spec_find(
        l,
        tag_description(),
    ) is Some
}

/// Does any line of the comment carry a recognized tag marker?
pub open spec fn has_tag_marker(c: Seq<char>) -> bool {
    exists|i: int|
        0 <= i < spec_lines(spec_trim(c)).len() && line_has_marker(
            #[trigger] spec_lines(spec_trim(c))[i],
        )
}

/// A line without a marker leaves the scan state alone.
pub proof fn lemma_scan_line_no_marker(st: TagScanState, raw: Seq<char>, line_no: int)
    requires
        !line_has_marker(raw),
    ensures
        scan_line(st, raw, line_no) == st,
{
}

/// Lines without markers leave the scan state alone.
pub proof fn lemma_scan_lines_no_marker(
    st: TagScanState,
    lines: Seq<Seq<char>>,
    base: int,
    idx: int,
)
    requires
        0 <= idx,
        forall|i: int| idx <= i < lines.len() ==> !line_has_marker(#[trigger] lines[i]),
    ensures
        scan_lines(st, lines, base, idx) == st,
    decreases lines.len() - idx,
{
    if idx < lines.len() {
        lemma_scan_line_no_marker(st, lines[idx], sat_line(base, idx));
        lemma_scan_lines_no_marker(st, lines, base, idx + 1);
    }
}

/// The scan of a comment none of whose lines carries a marker finds
/// nothing.
pub proof fn lemma_scan_comment_no_marker(c: Seq<char>, base: int)
    requires
        !has_tag_marker(c),
    ensures
        spec_scan_comment(c, base) == init_scan(),
{
    let lines = spec_lines(spec_trim(c));
    assert(forall|i: int| 0 <= i < lines.len() ==> !line_has_marker(#[trigger] lines[i]));
    lemma_scan_lines_no_marker(init_scan(), lines, base, 0);
}

/// Scan the characters of one comment for the recognized tag markers.
pub fn scan_comment(comment: &Vec<char>, base: usize) -> (r: TagScan)
    ensures
        r@ == spec_scan_comment(comment@, base as int),
{
    let trimmed = trim_chars(comment);
    let lines = split_lines(&trimmed);
    let tag_u = tag_ubiquitous_chars();
    let tag_c = tag_context_chars();
    let tag_d = tag_description_chars();
    let mut r = TagScan { term: None, term_line: None, context: None, description: None };
    let mut i: usize = 0;
    while i < lines.len()
        invariant
            i <= lines@.len(),
            lines.deep_view() == spec_lines(spec_trim(comment@)),
            tag_u@ == tag_ubiquitous(),
            tag_c@ == tag_context(),
            tag_d@ == tag_description(),
            scan_lines(r@, lines.deep_view(), base as int, i as int) == spec_scan_comment(
                comment@,
                base as int,
            ),
        decreases lines@.len() - i,
    {
        let ghost prev = r@;
        let ghost raw = lines.deep_view()[i as int];
        let lt = trim_chars(&lines[i]);
        let lt_len = lt.len();
        proof {
            assert(lines@[i as int]@ == raw);
            assert(lt@ == spec_trim(raw));
        }
        if let Some(pos) = find_sub(&lt, &tag_u) {
            let val = sub_chars(&lt, pos + tag_u.len(), lt_len);
            proof {
                assert(val@ =~= lt@.skip(pos + tag_ubiquitous().len()));
            }
            let val = tag_value_chars(&val);
            r.term = Some(string_of(&val));
            r.term_line = Some(sat_add(base, i));
        } else if let Some(pos) = find_sub(&lt, &tag_c) {
            let val = sub_chars(&lt, pos + tag_c.len(), lt_len);
            proof {
                assert(val@ =~= lt@.skip(pos + tag_context().len()));
            }
            let val = tag_value_chars(&val);
            r.context = Some(string_of(&val));
        } else if let Some(pos) = find_sub(&lt, &tag_d) {
            let val = sub_chars(&lt, pos + tag_d.len(), lt_len);
            proof {
                assert(val@ =~= lt@.skip(pos + tag_description().len()));
            }
            let val = tag_value_chars(&val);
            r.description = Some(string_of(&val));
        }
        proof {
            assert(r@ == scan_line(prev, raw, sat_line(base as int, i as int)));
        }
        i = i + 1;
    }
    r
}

} // verus!
