//! The Kotlin pipeline for one already-parsed tree.
//!
//! A declaration is a `class_declaration` node; its name is the first
//! child of kind `type_identifier`; comments are `comment`, `line_comment`
//! or `multiline_comment` nodes; only a comment whose text starts with
//! `/**` documents a class, and a single such block is taken.
//!
//! No Kotlin grammar is linked: the published Kotlin grammar crate
//! predates the grammar-function interface that the tree-sitter bindings
//! used here require, and the two cannot be built together. Kotlin source
//! text is therefore never parsed, and a Kotlin file yields no records;
//! trees built elsewhere are processed by `get_ubiquitous_in_tree`.

use vstd::prelude::*;
use crate::parser::class_docs::{records_in_tree, spec_records_in_tree, CapsView, LanguageCaps};
use crate::parser::php::extract_ubiquitous::record_for_file;
use crate::parser::syntax_tree::SyntaxNode;
use crate::parser::ubiquitous::Ubiquitous;

verus! {

/// The Kotlin capability table.
pub open spec fn kotlin_caps_view() -> CapsView {
    CapsView {
        decl_kind: "class_declaration"@,
        name_kind: "type_identifier"@,
        comment_kinds: seq!["comment"@, "line_comment"@, "multiline_comment"@],
        require_doc: true,
        concat: false,
    }
}

/// The Kotlin capability table, as the engine takes it.
pub fn kotlin_caps() -> (c: LanguageCaps)
    ensures
        c@ == kotlin_caps_view(),
{
    let mut comment_kinds: Vec<String> = Vec::new();
    comment_kinds.push("comment".to_owned());
    comment_kinds.push("line_comment".to_owned());
    comment_kinds.push("multiline_comment".to_owned());
    let c = LanguageCaps {
        decl_kind: "class_declaration".to_owned(),
        name_kind: "type_identifier".to_owned(),
        comment_kinds,
        require_doc: true,
        concat: false,
    };
    proof {
        assert(c@.comment_kinds =~= seq!["comment"@, "line_comment"@, "multiline_comment"@]);
    }
    c
}

/// The glossary records of one already-parsed Kotlin tree.
pub fn get_ubiquitous_in_tree(root: &SyntaxNode, file_path: &str) -> (r: Vec<Ubiquitous>)
    ensures
        r.deep_view() == spec_records_in_tree(kotlin_caps_view(), *root, file_path@),
        forall|k: int|
            0 <= k < r.deep_view().len() ==> record_for_file(r.deep_view()[k], file_path@),
{
    let caps = kotlin_caps();
    records_in_tree(root, &caps, file_path)
}

/// The glossary records of one Kotlin source file: none, since no Kotlin
/// grammar is linked (see the module notes).
pub fn get_ubiquitous(code: &str, file_path: &str) -> (r: Vec<Ubiquitous>)
    ensures
        r.deep_view() == Seq::<crate::parser::ubiquitous::UbiquitousView>::empty(),
{
    let r: Vec<Ubiquitous> = Vec::new();
    proof {
        assert(r.deep_view() =~= Seq::<crate::parser::ubiquitous::UbiquitousView>::empty());
    }
    r
}

} // verus!
