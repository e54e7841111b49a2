//! Extraction of glossary records from bare comment strings.

use vstd::prelude::*;
use crate::parser::tag_scan::{
    has_tag_marker, lemma_scan_comment_no_marker, scan_comment, spec_scan_comment,
};
use crate::parser::ubiquitous::{spec_no_tags, Ubiquitous, UbiquitousView};
use crate::text::chars_of;

verus! {

/// The scanned term, or the empty sequence when no line carried one.
pub open spec fn term_or_empty(t: Option<Seq<char>>) -> Seq<char> {
    match t {
        Some(x) => x,
        None => Seq::empty(),
    }
}

/// The record that one bare comment yields: tag values only, no
/// declaration name and no location.
pub open spec fn spec_get_ubiquitous(c: Seq<char>) -> UbiquitousView {
    let st = spec_scan_comment(c, 0);
    UbiquitousView {
        ubiquitous: term_or_empty(st.term),
        context: st.context,
        class_name: None,
        description: st.description,
        file_path: None,
        line_number: None,
    }
}

/// The records of a list of comments: a comment that carries none of the
/// three tag values contributes nothing.
pub open spec fn spec_extract_ubiquitous(cs: Seq<Seq<char>>) -> Seq<UbiquitousView>
    decreases cs.len(),
{
    if cs.len() == 0 {
        Seq::empty()
    } else {
        let u = spec_get_ubiquitous(cs[0]);
        let rest = spec_extract_ubiquitous(cs.drop_first());
        if spec_no_tags(u) {
            rest
        } else {
            seq![u] + rest
        }
    }
}

/// A comment that carries none of the three tag markers yields a record
/// with no tag value.
pub proof fn lemma_no_marker_no_tags(c: Seq<char>)
    requires
        !has_tag_marker(c),
    ensures
        spec_no_tags(spec_get_ubiquitous(c)),
{
    lemma_scan_comment_no_marker(c, 0);
}

/// The discard law: comments that carry none of the three tag markers emit
/// zero records.
pub proof fn lemma_no_marker_no_record(cs: Seq<Seq<char>>)
    requires
        forall|i: int| 0 <= i < cs.len() ==> !has_tag_marker(#[trigger] cs[i]),
    ensures
        spec_extract_ubiquitous(cs).len() == 0,
    decreases cs.len(),
{
    if cs.len() > 0 {
        lemma_no_marker_no_tags(cs[0]);
        assert(forall|i: int|
            0 <= i < cs.drop_first().len() ==> !has_tag_marker(#[trigger] cs.drop_first()[i]));
        lemma_no_marker_no_record(cs.drop_first());
    }
}

/// Parse the recognized tags out of one comment string.
pub fn get_ubiquitous(comment: String) -> (r: Ubiquitous)
    ensures
        r@ == spec_get_ubiquitous(comment@),
{
    let cs = chars_of(comment.as_str());
    let scan = scan_comment(&cs, 0);
    let mut result = Ubiquitous::new();
    if let Some(t) = scan.term {
        result = result.set_ubiquitous(t);
    }
    if let Some(c) = scan.context {
        result = result.set_context(c);
    }
    if let Some(d) = scan.description {
        result = result.set_description(d);
    }
    result
}

/// Parse every comment and keep the records that carry at least one
/// recognized tag.
pub fn extract_ubiquitous(comments: Vec<String>) -> (r: Vec<Ubiquitous>)
    ensures
        r.deep_view() == spec_extract_ubiquitous(comments.deep_view()),
{
    let ghost cs = comments.deep_view();
    let mut r: Vec<Ubiquitous> = Vec::new();
    let mut i: usize = 0;
    proof {
        assert(cs.skip(0) =~= cs);
    }
    while i < comments.len()
        invariant
            i <= comments@.len(),
            cs == comments.deep_view(),
            r.deep_view() + spec_extract_ubiquitous(cs.skip(i as int)) =~= spec_extract_ubiquitous(
                cs,
            ),
        decreases comments@.len() - i,
    {
        let ghost prev = r.deep_view();
        let u = get_ubiquitous(comments[i].clone());
        proof {
            assert(comments@[i as int]@ == cs[i as int]);
            assert(cs.skip(i as int)[0] == cs[i as int]);
            assert(cs.skip(i as int).drop_first() =~= cs.skip(i + 1));
        }
        if !u.no_tags() {
            r.push(u);
            proof {
                assert(r.deep_view() =~= prev.push(u@));
            }
        }
        i = i + 1;
    }
    proof {
        assert(cs.skip(cs.len() as int) =~= Seq::<Seq<char>>::empty());
        assert(r.deep_view() =~= spec_extract_ubiquitous(cs));
    }
    r
}

} // verus!
