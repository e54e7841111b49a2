//! Classification of a source path by its file-name extension.

use vstd::prelude::*;
use crate::text::{after_last, after_last_char, chars_of, eq_chars, string_of, sub_chars};

verus! {

/// Ghost mirror of [`Language`].
pub enum LanguageView {
    Php,
    Rust,
    Java,
    Unknown(Seq<char>),
}

/// The language a path's extension names, or what was found instead.
#[derive(Debug, PartialEq)]
pub enum Language {
    Php,
    Rust,
    Java,
    Unknown(String),
}

impl View for Language {
    type V = LanguageView;

    open spec fn view(&self) -> LanguageView {
        match self {
            Language::Php => LanguageView::Php,
            Language::Rust => LanguageView::Rust,
            Language::Java => LanguageView::Java,
            Language::Unknown(s) => LanguageView::Unknown(s@),
        }
    }
}

/// The extension of a path: in the part after the last `/`, the part after
/// the last `.`, provided something non-empty stands before that dot.
pub open spec fn spec_extension(p: Seq<char>) -> Option<Seq<char>> {
    let name = p.skip(after_last(p, '/'));
    let d = after_last(name, '.');
    if d >= 2 {
        Some(name.skip(d))
    } else {
        None
    }
}

/// The extension of `path`, as `spec_extension` says.
pub fn extension_chars(path: &str) -> (r: Option<Vec<char>>)
    ensures
        match r {
            Some(e) => spec_extension(path@) == Some(e@),
            None => spec_extension(path@) is None,
        },
{
    let p = chars_of(path);
    let ns = after_last_char(&p, '/');
    let name = sub_chars(&p, ns, p.len());
    proof {
        assert(name@ =~= path@.skip(after_last(path@, '/')));
    }
    let d = after_last_char(&name, '.');
    if d >= 2 {
        let e = sub_chars(&name, d, name.len());
        proof {
            assert(e@ =~= name@.skip(d as int));
        }
        Some(e)
    } else {
        None
    }
}

/// The classification of an extension, `php`, `rs` and `java` recognized.
pub open spec fn spec_language_of(e: Option<Seq<char>>) -> LanguageView {
    match e {
        Some(x) => {
            if x == "php"@ {
                LanguageView::Php
            } else if x == "rs"@ {
                LanguageView::Rust
            } else if x == "java"@ {
                LanguageView::Java
            } else {
                LanguageView::Unknown(x)
            }
        },
        None => LanguageView::Unknown("no_ext"@),
    }
}

impl Language {
    /// Classify a file path by its extension.
    pub fn from_path(path: &str) -> (r: Self)
        ensures
            r@ == spec_language_of(spec_extension(path@)),
    {
        match extension_chars(path) {
            Some(e) => {
                if eq_chars(&e, &chars_of("php")) {
                    Language::Php
                } else if eq_chars(&e, &chars_of("rs")) {
                    Language::Rust
                } else if eq_chars(&e, &chars_of("java")) {
                    Language::Java
                } else {
                    Language::Unknown(string_of(&e))
                }
            },
            None => Language::Unknown("no_ext".to_owned()),
        }
    }
}

} // verus!
