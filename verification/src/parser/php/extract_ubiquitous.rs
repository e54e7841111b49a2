//! Extraction of glossary records from documented declarations.

use vstd::prelude::*;
use crate::parser::tag_scan::{
    has_tag_marker, lemma_scan_comment_no_marker, scan_comment, spec_scan_comment,
};
use crate::parser::extract_ubiquitous::term_or_empty;
use crate::parser::ubiquitous::{spec_no_tags, Ubiquitous, UbiquitousView};
use crate::text::chars_of;

verus! {

/// Ghost mirror of [`ExtractUbiquitousParam`].
pub struct ExtractParamView {
    pub class_name: Seq<char>,
    pub doc_comment: Seq<char>,
    pub file_path: Seq<char>,
    pub line_number: int,
}

/// One documented declaration: its name, the raw text of its documentation
/// comment, the file it stands in, and the 1-based line on which the
/// comment starts.
pub struct ExtractUbiquitousParam {
    pub class_name: String,
    pub doc_comment: String,
    pub file_path: String,
    pub line_number: usize,
}

impl View for ExtractUbiquitousParam {
    type V = ExtractParamView;

    open spec fn view(&self) -> ExtractParamView {
        ExtractParamView {
            class_name: self.class_name@,
            doc_comment: self.doc_comment@,
            file_path: self.file_path@,
            line_number: self.line_number as int,
        }
    }
}

impl DeepView for ExtractUbiquitousParam {
    type V = ExtractParamView;

    open spec fn deep_view(&self) -> ExtractParamView {
        self.view()
    }
}

/// The record that one documented declaration yields: tag values from the
/// comment, the declaration's name, the file path, and the absolute line
/// of the last `@ubiquitous` match.
pub open spec fn spec_get_ubiquitous(p: ExtractParamView) -> UbiquitousView {
    let st = spec_scan_comment(p.doc_comment, p.line_number);
    UbiquitousView {
        ubiquitous: term_or_empty(st.term),
        context: st.context,
        class_name: Some(p.class_name),
        description: st.description,
        file_path: Some(p.file_path),
        line_number: st.term_line,
    }
}

/// The records of a list of documented declarations: a record that
/// carries none of the three tag values is discarded, whatever its
/// declaration name — a documentation comment with no recognized tag is
/// not glossary content.
pub open spec fn spec_extract_ubiquitous(ps: Seq<ExtractParamView>) -> Seq<UbiquitousView>
    decreases ps.len(),
{
    if ps.len() == 0 {
        Seq::empty()
    } else {
        let u = spec_get_ubiquitous(ps[0]);
        let rest = spec_extract_ubiquitous(ps.drop_first());
        if spec_no_tags(u) {
            rest
        } else {
            seq![u] + rest
        }
    }
}

/// The discard law for declarations: documented declarations whose
/// comments carry none of the three tag markers emit zero records.
pub proof fn lemma_no_marker_no_record(ps: Seq<ExtractParamView>)
    requires
        forall|i: int| 0 <= i < ps.len() ==> !has_tag_marker(#[trigger] ps[i].doc_comment),
    ensures
        spec_extract_ubiquitous(ps).len() == 0,
    decreases ps.len(),
{
    if ps.len() > 0 {
        lemma_scan_comment_no_marker(ps[0].doc_comment, ps[0].line_number);
        assert(spec_no_tags(spec_get_ubiquitous(ps[0])));
        assert(forall|i: int|
            0 <= i < ps.drop_first().len() ==> !has_tag_marker(
                #[trigger] ps.drop_first()[i].doc_comment,
            ));
        lemma_no_marker_no_record(ps.drop_first());
    }
}

/// A record as the extraction leaves it: it carries the file path its
/// declaration came from, the declaration's name, and at least one tag
/// value.
pub open spec fn record_for_file(u: UbiquitousView, path: Seq<char>) -> bool {
    u.file_path == Some(path) && u.class_name is Some && !spec_no_tags(u)
}

/// Every record of an extraction whose declarations name one file carries
/// that file.
pub proof fn lemma_extract_records_for_file(ps: Seq<ExtractParamView>, path: Seq<char>)
    requires
        forall|i: int| 0 <= i < ps.len() ==> ps[i].file_path == path,
    ensures
        forall|k: int|
            0 <= k < spec_extract_ubiquitous(ps).len() ==> record_for_file(
                spec_extract_ubiquitous(ps)[k],
                path,
            ),
    decreases ps.len(),
{
    if ps.len() > 0 {
        assert(forall|i: int|
            0 <= i < ps.drop_first().len() ==> ps.drop_first()[i].file_path == path);
        lemma_extract_records_for_file(ps.drop_first(), path);
        let u = spec_get_ubiquitous(ps[0]);
        let rest = spec_extract_ubiquitous(ps.drop_first());
        let whole = spec_extract_ubiquitous(ps);
        if !spec_no_tags(u) {
            assert(record_for_file(u, path));
            assert forall|k: int| 0 <= k < whole.len() implies record_for_file(whole[k], path) by {
                if k > 0 {
                    assert(whole[k] == rest[k - 1]);
                }
            }
        }
    }
}

/// Parse the recognized tags out of one documented declaration.
pub fn get_ubiquitous(class_doc: ExtractUbiquitousParam) -> (r: Ubiquitous)
    ensures
        r@ == spec_get_ubiquitous(class_doc@),
{
    let ExtractUbiquitousParam { class_name, doc_comment, file_path, line_number } = class_doc;
    let cs = chars_of(doc_comment.as_str());
    let scan = scan_comment(&cs, line_number);
    let mut result = Ubiquitous::new();
    result = result.set_class_name(class_name);
    if let Some(t) = scan.term {
        result = result.set_ubiquitous(t);
    }
    if let Some(n) = scan.term_line {
        result = result.set_line_number(n);
    }
    if let Some(c) = scan.context {
        result = result.set_context(c);
    }
    if let Some(d) = scan.description {
        result = result.set_description(d);
    }
    result = result.set_file_path(file_path);
    result
}

/// Parse every documented declaration and keep the meaningful records.
pub fn extract_ubiquitous(class_docs: Vec<ExtractUbiquitousParam>) -> (r: Vec<Ubiquitous>)
    ensures
        r.deep_view() == spec_extract_ubiquitous(class_docs.deep_view()),
{
    let ghost ps = class_docs.deep_view();
    let docs = class_docs;
    let mut r: Vec<Ubiquitous> = Vec::new();
    let mut i: usize = 0;
    proof {
        assert(ps.skip(0) =~= ps);
    }
    while i < docs.len()
        invariant
            i <= docs@.len(),
            ps == docs.deep_view(),
            r.deep_view() + spec_extract_ubiquitous(ps.skip(i as int)) =~= spec_extract_ubiquitous(
                ps,
            ),
        decreases docs@.len() - i,
    {
        let ghost prev = r.deep_view();
        let p = ExtractUbiquitousParam {
            class_name: docs[i].class_name.clone(),
            doc_comment: docs[i].doc_comment.clone(),
            file_path: docs[i].file_path.clone(),
            line_number: docs[i].line_number,
        };
        proof {
            assert(p@ == ps[i as int]);
            assert(ps.skip(i as int)[0] == ps[i as int]);
            assert(ps.skip(i as int).drop_first() =~= ps.skip(i + 1));
        }
        let u = get_ubiquitous(p);
        if !u.no_tags() {
            r.push(u);
            proof {
                assert(r.deep_view() =~= prev.push(u@));
            }
        }
        i = i + 1;
    }
    proof {
        assert(ps.skip(ps.len() as int) =~= Seq::<ExtractParamView>::empty());
        assert(r.deep_view() =~= spec_extract_ubiquitous(ps));
    }
    r
}

} // verus!
