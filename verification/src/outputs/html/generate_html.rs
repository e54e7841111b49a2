//! The unit the HTML renderer takes.
//!
//! Rendering itself — templating and file writing — is a collaborator's
//! job; the library's obligation ends at rows with normalized paths and
//! accurate line numbers.

use vstd::prelude::*;

verus! {

/// One glossary entry as the HTML renderer takes it.
pub struct GenerateHtmlParam {
    pub class_name: String,
    pub ubiquitous: String,
    pub context: String,
    pub description: String,
    pub file_path: String,
    pub line_number: usize,
}

} // verus!
