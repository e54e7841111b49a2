//! The unit a directory walk hands the pipeline.
//!
//! Reading a directory is a collaborator's job; the pipeline takes one
//! `CodeFile` per regular file found, already read into memory.

use vstd::prelude::*;

verus! {

/// Ghost mirror of [`CodeFile`].
pub struct CodeFileView {
    pub code: Seq<char>,
    pub extension: Seq<char>,
    pub file_path: Seq<char>,
}

/// One source file: its text, its extension, and its path under the root.
#[derive(Debug)]
pub struct CodeFile {
    pub code: String,
    pub extension: String,
    pub file_path: String,
}

impl View for CodeFile {
    type V = CodeFileView;

    open spec fn view(&self) -> CodeFileView {
        CodeFileView { code: self.code@, extension: self.extension@, file_path: self.file_path@ }
    }
}

impl DeepView for CodeFile {
    type V = CodeFileView;

    open spec fn deep_view(&self) -> CodeFileView {
        self.view()
    }
}

} // verus!
