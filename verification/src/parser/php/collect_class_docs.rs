//! PHP: documented class declarations.
//!
//! A declaration is a `class_declaration` node; its name is the first
//! child of kind `name`; comments are `comment` nodes; only a comment
//! whose text starts with `/**` documents a class, and a single such
//! block is taken.

use vstd::prelude::*;
use crate::parser::class_docs::{
    collect_docs, docs_in_node, with_line, CapsView, ClassDocOptView, ClassDocView, LanguageCaps,
};
use crate::parser::syntax_tree::SyntaxNode;

verus! {

/// The PHP capability table.
pub open spec fn php_caps_view() -> CapsView {
    CapsView {
        decl_kind: "class_declaration"@,
        name_kind: "name"@,
        comment_kinds: seq!["comment"@],
        require_doc: true,
        concat: false,
    }
}

/// The PHP capability table, as the engine takes it.
pub fn php_caps() -> (c: LanguageCaps)
    ensures
        c@ == php_caps_view(),
{
    let mut comment_kinds: Vec<String> = Vec::new();
    comment_kinds.push("comment".to_owned());
    let c = LanguageCaps {
        decl_kind: "class_declaration".to_owned(),
        name_kind: "name".to_owned(),
        comment_kinds,
        require_doc: true,
        concat: false,
    };
    proof {
        assert(c@.comment_kinds =~= seq!["comment"@]);
    }
    c
}

/// A class name with its documentation comment and the 1-based line on
/// which that comment starts.
pub struct ClassDoc {
    pub class_name: String,
    pub doc_comment: String,
    pub doc_comment_line: Option<usize>,
}

impl View for ClassDoc {
    type V = ClassDocOptView;

    open spec fn view(&self) -> ClassDocOptView {
        ClassDocOptView {
            class_name: self.class_name@,
            doc_comment: self.doc_comment@,
            doc_comment_line: match self.doc_comment_line {
                Some(n) => Some(n as int),
                None => None,
            },
        }
    }
}

impl DeepView for ClassDoc {
    type V = ClassDocOptView;

    open spec fn deep_view(&self) -> ClassDocOptView {
        self.view()
    }
}

/// Every documented class below `node`, in pre-order.
pub fn collect_class_docs(node: &SyntaxNode) -> (r: Vec<ClassDoc>)
    ensures
        r.deep_view() == docs_in_node(php_caps_view(), *node).map_values(
            |d: ClassDocView| with_line(d),
        ),
{
    let caps = php_caps();
    let recs = collect_docs(node, &caps);
    let mut r: Vec<ClassDoc> = Vec::new();
    let mut i: usize = 0;
    while i < recs.len()
        invariant
            i <= recs@.len(),
            recs.deep_view() == docs_in_node(php_caps_view(), *node),
            r.deep_view().len() == i,
            forall|k: int|
                0 <= k < i ==> r.deep_view()[k] == with_line(recs.deep_view()[k]),
        decreases recs@.len() - i,
    {
        let ghost prev = r.deep_view();
        let d = ClassDoc {
            class_name: recs[i].class_name.clone(),
            doc_comment: recs[i].doc_comment.clone(),
            doc_comment_line: Some(recs[i].doc_comment_line),
        };
        proof {
            assert(recs.deep_view()[i as int] == recs@[i as int].deep_view());
            assert(d@ == with_line(recs.deep_view()[i as int]));
        }
        r.push(d);
        i = i + 1;
        proof {
            assert(r.deep_view() =~= prev.push(d@));
        }
    }
    proof {
        assert(r.deep_view() =~= docs_in_node(php_caps_view(), *node).map_values(
            |d: ClassDocView| with_line(d),
        ));
    }
    r
}

} // verus!
