//! The glossary record extracted from one documented declaration.

use vstd::prelude::*;

verus! {

/// Ghost mirror of [`Ubiquitous`], with every text field a character
/// sequence.
pub struct UbiquitousView {
    pub ubiquitous: Seq<char>,
    pub context: Option<Seq<char>>,
    pub class_name: Option<Seq<char>>,
    pub description: Option<Seq<char>>,
    pub file_path: Option<Seq<char>>,
    pub line_number: Option<int>,
}

/// One glossary record: the `@ubiquitous` term with its context,
/// description, owning declaration name, and source location.
#[derive(Debug, PartialEq)]
pub struct Ubiquitous {
    pub ubiquitous: String,
    pub context: Option<String>,
    pub class_name: Option<String>,
    pub description: Option<String>,
    pub file_path: Option<String>,
    pub line_number: Option<usize>,
}

impl View for Ubiquitous {
    type V = UbiquitousView;

    open spec fn view(&self) -> UbiquitousView {
        UbiquitousView {
            ubiquitous: self.ubiquitous@,
            context: match self.context {
                Some(s) => Some(s@),
                None => None,
            },
            class_name: match self.class_name {
                Some(s) => Some(s@),
                None => None,
            },
            description: match self.description {
                Some(s) => Some(s@),
                None => None,
            },
            file_path: match self.file_path {
                Some(s) => Some(s@),
                None => None,
            },
            line_number: match self.line_number {
                Some(n) => Some(n as int),
                None => None,
            },
        }
    }
}

impl DeepView for Ubiquitous {
    type V = UbiquitousView;

    open spec fn deep_view(&self) -> UbiquitousView {
        self.view()
    }
}

/// The record with every field empty or absent.
pub open spec fn spec_empty_record() -> UbiquitousView {
    UbiquitousView {
        ubiquitous: Seq::empty(),
        context: None,
        class_name: None,
        description: None,
        file_path: None,
        line_number: None,
    }
}

/// A record with no term, context, description or declaration name: every
/// field empty or absent but the location.
pub open spec fn spec_is_all_none(u: UbiquitousView) -> bool {
    u.class_name is None && u.ubiquitous.len() == 0 && u.context is None && u.description is None
}

/// A record that carries none of the three tag values is noise, not
/// glossary content, whatever declaration it came from: the term is the
/// semantically required field, and a comment with no recognized tag must
/// contribute nothing.
pub open spec fn spec_no_tags(u: UbiquitousView) -> bool {
    u.ubiquitous.len() == 0 && u.context is None && u.description is None
}

impl Ubiquitous {
    pub fn new() -> (r: Self)
        ensures
            r@ == spec_empty_record(),
    {
        Ubiquitous {
            class_name: None,
            ubiquitous: String::new(),
            context: None,
            description: None,
            file_path: None,
            line_number: None,
        }
    }

    pub fn set_class_name(self, class_name: String) -> (r: Self)
        ensures
            r@ == (UbiquitousView { class_name: Some(class_name@), ..self@ }),
    {
        Ubiquitous { class_name: Some(class_name), ..self }
    }

    pub fn set_ubiquitous(self, ubiquitous: String) -> (r: Self)
        ensures
            r@ == (UbiquitousView { ubiquitous: ubiquitous@, ..self@ }),
    {
        Ubiquitous { ubiquitous, ..self }
    }

    pub fn set_context(self, context: String) -> (r: Self)
        ensures
            r@ == (UbiquitousView { context: Some(context@), ..self@ }),
    {
        Ubiquitous { context: Some(context), ..self }
    }

    pub fn set_description(self, description: String) -> (r: Self)
        ensures
            r@ == (UbiquitousView { description: Some(description@), ..self@ }),
    {
        Ubiquitous { description: Some(description), ..self }
    }

    pub fn set_file_path(self, file_path: String) -> (r: Self)
        ensures
            r@ == (UbiquitousView { file_path: Some(file_path@), ..self@ }),
    {
        Ubiquitous { file_path: Some(file_path), ..self }
    }

    pub fn set_line_number(self, line_number: usize) -> (r: Self)
        ensures
            r@ == (UbiquitousView { line_number: Some(line_number as int), ..self@ }),
    {
        Ubiquitous { line_number: Some(line_number), ..self }
    }

    pub fn is_all_none(&self) -> (r: bool)
        ensures
            r == spec_is_all_none(self@),
    {
        self.class_name.is_none() && self.ubiquitous.as_str().is_empty() && self.context.is_none()
            && self.description.is_none()
    }

    /// Does the record carry none of the three tag values?
    pub fn no_tags(&self) -> (r: bool)
        ensures
            r == spec_no_tags(self@),
    {
        self.ubiquitous.as_str().is_empty() && self.context.is_none()
            && self.description.is_none()
    }
}

} // verus!
