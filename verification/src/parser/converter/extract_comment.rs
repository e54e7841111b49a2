//! Stripping of comment delimiters.
//!
//! A comment's raw text still carries its delimiters: `//`, `/* ... */`
//! or a `/** ... */` documentation block. This module removes them, and
//! for a documentation block also removes each line's leading whitespace,
//! optional `*`, and one following space.

use vstd::prelude::*;
use crate::text::{
    chars_of, has_prefix_at, join_nl, match_at, spec_join_nl, spec_lines, spec_trim,
    spec_trim_end_matches, spec_trim_start, spec_trim_start_matches, split_lines, string_of,
    sub_chars, trim_chars, trim_end_matches_chars, trim_start_chars, trim_start_matches_chars,
};

verus! {

/// One line of a documentation block: the leading run of whitespace
/// removed, then one optional `*`, then one more space.
pub open spec fn clean_doc_line(l: Seq<char>) -> Seq<char> {
    let a = spec_trim_start(l);
    if a.len() > 0 && a[0] == '*' {
        let b = a.drop_first();
        if b.len() > 0 && b[0] == ' ' {
            b.drop_first()
        } else {
            b
        }
    } else {
        a
    }
}

/// The text of a comment with its delimiters removed: after trimming,
/// a `//` comment loses its leading slashes; a `/** ... */` block loses
/// the delimiters and each line is cleaned as `clean_doc_line` says; a
/// `/* ... */` block loses the delimiters; anything else is returned
/// trimmed and otherwise unchanged.
pub open spec fn spec_extract_comment(c: Seq<char>) -> Seq<char> {
    let t = spec_trim(c);
    if match_at(t, seq!['/', '/'], 0) {
        spec_trim(spec_trim_start_matches(t, seq!['/', '/']))
    } else if match_at(t, seq!['/', '*', '*'], 0) && match_at(t, seq!['*', '/'], t.len() - 2) {
        let inner = spec_trim(
            spec_trim_end_matches(
                spec_trim_start_matches(t, seq!['/', '*', '*']),
                seq!['*', '/'],
            ),
        );
        spec_join_nl(spec_lines(inner).map_values(|l: Seq<char>| clean_doc_line(l)))
    } else if match_at(t, seq!['/', '*'], 0) && match_at(t, seq!['*', '/'], t.len() - 2) {
        spec_trim(
            spec_trim_end_matches(spec_trim_start_matches(t, seq!['/', '*']), seq!['*', '/']),
        )
    } else {
        t
    }
}

fn clean_doc_line_chars(l: &Vec<char>) -> (r: Vec<char>)
    ensures
        r@ == clean_doc_line(l@),
{
    let a = trim_start_chars(l);
    if a.len() > 0 && a[0] == '*' {
        let lo: usize = if a.len() > 1 && a[1] == ' ' {
            2
        } else {
            1
        };
        let rest = sub_chars(&a, lo, a.len());
        proof {
            if lo == 2 {
                assert(rest@ =~= a@.drop_first().drop_first());
            } else {
                assert(rest@ =~= a@.drop_first());
            }
        }
        rest
    } else {
        a
    }
}

fn slash_slash() -> (r: Vec<char>)
    ensures
        r@ == seq!['/', '/'],
{
    let mut v: Vec<char> = Vec::new();
    v.push('/');
    v.push('/');
    proof {
        assert(v@ =~= seq!['/', '/']);
    }
    v
}

fn doc_open() -> (r: Vec<char>)
    ensures
        r@ == seq!['/', '*', '*'],
{
    let mut v: Vec<char> = Vec::new();
    v.push('/');
    v.push('*');
    v.push('*');
    proof {
        assert(v@ =~= seq!['/', '*', '*']);
    }
    v
}

fn block_open() -> (r: Vec<char>)
    ensures
        r@ == seq!['/', '*'],
{
    let mut v: Vec<char> = Vec::new();
    v.push('/');
    v.push('*');
    proof {
        assert(v@ =~= seq!['/', '*']);
    }
    v
}

fn block_close() -> (r: Vec<char>)
    ensures
        r@ == seq!['*', '/'],
{
    let mut v: Vec<char> = Vec::new();
    v.push('*');
    v.push('/');
    proof {
        assert(v@ =~= seq!['*', '/']);
    }
    v
}

/// Strip the delimiters of one comment, as `spec_extract_comment` says.
pub fn extract_comment(comment: String) -> (r: String)
    ensures
        r@ == spec_extract_comment(comment@),
{
    let cs = chars_of(comment.as_str());
    let t = trim_chars(&cs);
    let n = t.len();
    let ss = slash_slash();
    let dopen = doc_open();
    let bopen = block_open();
    let bclose = block_close();
    if has_prefix_at(&t, 0, &ss) {
        let stripped = trim_start_matches_chars(&t, &ss);
        let out = trim_chars(&stripped);
        return string_of(&out);
    }
    let closes = n >= 2 && has_prefix_at(&t, n - 2, &bclose);
    if closes && has_prefix_at(&t, 0, &dopen) {
        let inner = trim_chars(
            &trim_end_matches_chars(&trim_start_matches_chars(&t, &dopen), &bclose),
        );
        let ls = split_lines(&inner);
        let ghost lv = spec_lines(inner@);
        let mut cleaned: Vec<Vec<char>> = Vec::new();
        let mut k: usize = 0;
        while k < ls.len()
            invariant
                k <= ls@.len(),
                ls.deep_view() == lv,
                cleaned.deep_view() =~~= lv.take(k as int).map_values(
                    |l: Seq<char>| clean_doc_line(l),
                ),
            decreases ls@.len() - k,
        {
            let ghost prev = cleaned.deep_view();
            let c = clean_doc_line_chars(&ls[k]);
            proof {
                assert(ls@[k as int]@ == lv[k as int]);
            }
            cleaned.push(c);
            k = k + 1;
            proof {
                assert(cleaned.deep_view() =~~= prev.push(clean_doc_line(lv[k - 1])));
                assert(cleaned.deep_view() =~~= lv.take(k as int).map_values(
                    |l: Seq<char>| clean_doc_line(l),
                ));
            }
        }
        proof {
            assert(lv.take(lv.len() as int) =~= lv);
            assert(cleaned.deep_view() =~~= lv.map_values(|l: Seq<char>| clean_doc_line(l)));
        }
        let joined = join_nl(&cleaned);
        return string_of(&joined);
    }
    if closes && has_prefix_at(&t, 0, &bopen) {
        let out = trim_chars(
            &trim_end_matches_chars(&trim_start_matches_chars(&t, &bopen), &bclose),
        );
        return string_of(&out);
    }
    string_of(&t)
}

/// Strip the delimiters of every comment in the list.
pub fn extract_comments(comments: Vec<String>) -> (r: Vec<String>)
    ensures
        r.deep_view() == comments.deep_view().map_values(|c: Seq<char>| spec_extract_comment(c)),
{
    let ghost cs = comments.deep_view();
    let mut r: Vec<String> = Vec::new();
    let mut i: usize = 0;
    while i < comments.len()
        invariant
            i <= comments@.len(),
            cs == comments.deep_view(),
            r.deep_view() =~~= cs.take(i as int).map_values(|c: Seq<char>| spec_extract_comment(c)),
        decreases comments@.len() - i,
    {
        let ghost prev = r.deep_view();
        let e = extract_comment(comments[i].clone());
        proof {
            assert(comments@[i as int]@ == cs[i as int]);
        }
        r.push(e);
        i = i + 1;
        proof {
            assert(r.deep_view() =~~= prev.push(spec_extract_comment(cs[i - 1])));
            assert(r.deep_view() =~~= cs.take(i as int).map_values(
                |c: Seq<char>| spec_extract_comment(c),
            ));
        }
    }
    proof {
        assert(cs.take(cs.len() as int) =~= cs);
        assert(r.deep_view() =~~= cs.map_values(|c: Seq<char>| spec_extract_comment(c)));
    }
    r
}

} // verus!
