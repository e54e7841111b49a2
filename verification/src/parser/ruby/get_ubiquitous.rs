//! The whole Ruby pipeline for one file: parse, associate, extract.

use vstd::prelude::*;
use crate::parser::class_docs::{records_in_tree, spec_records_in_tree};
use crate::parser::grammars::{ruby_syntax_tree, spec_ruby_parse};
use crate::parser::ruby::collect_class_docs::ruby_caps_view;
use crate::parser::ruby::collect_class_docs::ruby_caps;
use crate::parser::php::extract_ubiquitous::record_for_file;
use crate::parser::syntax_tree::SyntaxNode;
use crate::parser::ubiquitous::{Ubiquitous, UbiquitousView};

verus! {

/// The glossary records of one already-parsed Ruby tree.
pub fn get_ubiquitous_in_tree(root: &SyntaxNode, file_path: &str) -> (r: Vec<Ubiquitous>)
    ensures
        r.deep_view() == spec_records_in_tree(ruby_caps_view(), *root, file_path@),
        forall|k: int|
            0 <= k < r.deep_view().len() ==> record_for_file(r.deep_view()[k], file_path@),
{
    let caps = ruby_caps();
    records_in_tree(root, &caps, file_path)
}

/// The glossary records of one Ruby source file: the extraction of the
/// mirrored parse of its text; nothing when mirroring gave no tree.
pub open spec fn spec_records(code: Seq<char>, path: Seq<char>) -> Seq<UbiquitousView> {
    match spec_ruby_parse(code) {
        Some(t) => spec_records_in_tree(ruby_caps_view(), t, path),
        None => Seq::empty(),
    }
}

/// The glossary records of one Ruby source file, as `spec_records` says;
/// every record belongs to this file.
pub fn get_ubiquitous(code: &str, file_path: &str) -> (r: Vec<Ubiquitous>)
    ensures
        r.deep_view() == spec_records(code@, file_path@),
        forall|k: int|
            0 <= k < r.deep_view().len() ==> record_for_file(r.deep_view()[k], file_path@),
{
    match ruby_syntax_tree(code) {
        Some(t) => get_ubiquitous_in_tree(&t, file_path),
        None => Vec::new(),
    }
}

} // verus!
