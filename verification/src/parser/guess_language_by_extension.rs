//! The minimal classifier: a path either names a PHP source file or it is
//! unsupported.

use vstd::prelude::*;
use crate::parser::language::{extension_chars, spec_extension};
use crate::text::{chars_of, eq_chars};

verus! {

/// A language this classifier supports, or the unsupported marker.
#[derive(Debug, PartialEq)]
pub enum SupportedLanguage {
    Php,
    Unknown,
}

/// Whether the path's extension is `php`.
pub open spec fn spec_is_php_path(p: Seq<char>) -> bool {
    spec_extension(p) == Some("php"@)
}

/// Classify a path: `php` files are supported, everything else is not.
/// An unsupported extension is a classification outcome, not an error.
pub fn guess_language_by_extension(path: &str) -> (r: SupportedLanguage)
    ensures
        r == SupportedLanguage::Php <==> spec_is_php_path(path@),
{
    match extension_chars(path) {
        Some(e) => {
            if eq_chars(&e, &chars_of("php")) {
                SupportedLanguage::Php
            } else {
                SupportedLanguage::Unknown
            }
        },
        None => SupportedLanguage::Unknown,
    }
}

} // verus!
