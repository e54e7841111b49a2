pub mod class_docs;
pub mod comment_node_collect;
pub mod converter;
pub mod extract_ubiquitous;
pub mod file_io;
pub mod get_ubiquitous_list;
pub mod grammars;
pub mod guess_language_by_extension;
pub mod java;
pub mod kotlin;
pub mod language;
pub mod php;
pub mod ruby;
pub mod syntax_tree;
pub mod tag_scan;
pub mod ubiquitous;

use vstd::prelude::*;
use crate::parser::comment_node_collect::{comment_node_collect, comments_in};
use crate::parser::converter::extract_comment::{
    extract_comment, extract_comments, spec_extract_comment,
};
use crate::parser::grammars::{php_syntax_tree, spec_php_parse};
use crate::parser::ubiquitous::{Ubiquitous, UbiquitousView};

verus! {

/// Strip one comment's delimiters, as `spec_extract_comment` says.
pub fn cleanup_comment(comment: String) -> (r: String)
    ensures
        r@ == spec_extract_comment(comment@),
{
    extract_comment(comment)
}

/// The cleaned comments of one PHP source text: every comment node of the
/// mirrored parse, in pre-order, with delimiters stripped; nothing when
/// mirroring gave no tree.
pub open spec fn spec_cleaned_comments(code: Seq<char>) -> Seq<Seq<char>> {
    match spec_php_parse(code) {
        Some(t) => comments_in(t).map_values(|c: Seq<char>| spec_extract_comment(c)),
        None => Seq::empty(),
    }
}

/// The cleaned comments of one PHP source text, as `spec_cleaned_comments`
/// says.
pub fn get_comments(code: &str) -> (r: Vec<String>)
    ensures
        r.deep_view() == spec_cleaned_comments(code@),
{
    match php_syntax_tree(code) {
        Some(t) => {
            let raw = comment_node_collect(&t);
            let r = extract_comments(raw);
            proof {
                assert(r.deep_view() =~= comments_in(t).map_values(
                    |c: Seq<char>| spec_extract_comment(c),
                ));
                assert(r.deep_view() =~= spec_cleaned_comments(code@));
            }
            r
        },
        None => {
            let r: Vec<String> = Vec::new();
            proof {
                assert(r.deep_view() =~= spec_cleaned_comments(code@));
            }
            r
        },
    }
}

/// The terms of a record list, in order, records without a term skipped.
pub open spec fn spec_terms(us: Seq<UbiquitousView>) -> Seq<Seq<char>>
    decreases us.len(),
{
    if us.len() == 0 {
        Seq::empty()
    } else {
        let head = if us[0].ubiquitous.len() > 0 {
            seq![us[0].ubiquitous]
        } else {
            Seq::<Seq<char>>::empty()
        };
        head + spec_terms(us.drop_first())
    }
}

/// Each record's `@ubiquitous` term, records without one skipped.
pub fn get_comment(ubiquitous_list: Vec<Ubiquitous>) -> (r: Vec<String>)
    ensures
        r.deep_view() == spec_terms(ubiquitous_list.deep_view()),
{
    let ghost us = ubiquitous_list.deep_view();
    let mut r: Vec<String> = Vec::new();
    let mut i: usize = 0;
    proof {
        assert(us.skip(0) =~= us);
    }
    while i < ubiquitous_list.len()
        invariant
            i <= ubiquitous_list@.len(),
            us == ubiquitous_list.deep_view(),
            r.deep_view() + spec_terms(us.skip(i as int)) =~~= spec_terms(us),
        decreases ubiquitous_list@.len() - i,
    {
        let ghost prev = r.deep_view();
        proof {
            assert(us.skip(i as int)[0] == us[i as int]);
            assert(us.skip(i as int).drop_first() =~= us.skip(i + 1));
        }
        if !ubiquitous_list[i].ubiquitous.as_str().is_empty() {
            r.push(ubiquitous_list[i].ubiquitous.clone());
            proof {
                assert(r.deep_view() =~~= prev.push(us[i as int].ubiquitous));
            }
        }
        i = i + 1;
    }
    proof {
        assert(us.skip(us.len() as int) =~= Seq::<UbiquitousView>::empty());
        assert(r.deep_view() =~~= spec_terms(us));
    }
    r
}

} // verus!
