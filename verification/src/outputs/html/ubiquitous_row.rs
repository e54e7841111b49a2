//! One row of the rendered glossary table.

use vstd::prelude::*;
use vstd::string::StringExecFns;
use crate::text::{
    chars_of, dec_chars, normalize_path_chars, spec_dec, spec_normalize_path, string_of,
};

verus! {

/// Ghost mirror of [`UbiquitousRow`].
pub struct UbiquitousRowView {
    pub class_name: Seq<char>,
    pub ubiquitous: Seq<char>,
    pub context: Seq<char>,
    pub description: Seq<char>,
    pub file_path: Seq<char>,
    pub line_number: int,
    pub github_url: Seq<char>,
}

/// One glossary row as the renderer takes it: every field a plain string,
/// the location already turned into a deep link.
pub struct UbiquitousRow {
    pub class_name: String,
    pub ubiquitous: String,
    pub context: String,
    pub description: String,
    pub file_path: String,
    pub line_number: usize,
    pub github_url: String,
}

impl View for UbiquitousRow {
    type V = UbiquitousRowView;

    open spec fn view(&self) -> UbiquitousRowView {
        UbiquitousRowView {
            class_name: self.class_name@,
            ubiquitous: self.ubiquitous@,
            context: self.context@,
            description: self.description@,
            file_path: self.file_path@,
            line_number: self.line_number as int,
            github_url: self.github_url@,
        }
    }
}

impl DeepView for UbiquitousRow {
    type V = UbiquitousRowView;

    open spec fn deep_view(&self) -> UbiquitousRowView {
        self.view()
    }
}

/// The row with every field empty and line number zero.
pub open spec fn spec_empty_row() -> UbiquitousRowView {
    UbiquitousRowView {
        class_name: Seq::empty(),
        ubiquitous: Seq::empty(),
        context: Seq::empty(),
        description: Seq::empty(),
        file_path: Seq::empty(),
        line_number: 0,
        github_url: Seq::empty(),
    }
}

/// The deep link to one annotated line of one file of one branch.
pub open spec fn spec_github_url(
    repo: Seq<char>,
    branch: Seq<char>,
    norm_path: Seq<char>,
    line: int,
) -> Seq<char> {
    "https://github.com/"@ + repo + "/blob/"@ + branch + "/"@ + norm_path + "#L"@ + spec_dec(line)
}

impl UbiquitousRow {
    pub fn new() -> (r: Self)
        ensures
            r@ == spec_empty_row(),
    {
        UbiquitousRow {
            class_name: String::new(),
            ubiquitous: String::new(),
            context: String::new(),
            description: String::new(),
            file_path: String::new(),
            line_number: 0,
            github_url: String::new(),
        }
    }

    pub fn set_class_name(self, class_name: String) -> (r: Self)
        ensures
            r@ == (UbiquitousRowView { class_name: class_name@, ..self@ }),
    {
        UbiquitousRow { class_name, ..self }
    }

    pub fn set_ubiquitous(self, ubiquitous: String) -> (r: Self)
        ensures
            r@ == (UbiquitousRowView { ubiquitous: ubiquitous@, ..self@ }),
    {
        UbiquitousRow { ubiquitous, ..self }
    }

    pub fn set_context(self, context: String) -> (r: Self)
        ensures
            r@ == (UbiquitousRowView { context: context@, ..self@ }),
    {
        UbiquitousRow { context, ..self }
    }

    pub fn set_description(self, description: String) -> (r: Self)
        ensures
            r@ == (UbiquitousRowView { description: description@, ..self@ }),
    {
        UbiquitousRow { description, ..self }
    }

    /// Fill in the location: the path is normalized — backslashes become
    /// forward slashes, leading `./` goes — and the deep link is built
    /// from repository, branch, normalized path and line number.
    pub fn set_github_url(
        self,
        repo: String,
        branch: String,
        file_path: String,
        line_number: usize,
    ) -> (r: Self)
        ensures
            r@ == (UbiquitousRowView {
                file_path: spec_normalize_path(file_path@),
                line_number: line_number as int,
                github_url: spec_github_url(
                    repo@,
                    branch@,
                    spec_normalize_path(file_path@),
                    line_number as int,
                ),
                ..self@
            }),
    {
        let p = chars_of(file_path.as_str());
        let norm = normalize_path_chars(&p);
        let norm_s = string_of(&norm);
        let digits = dec_chars(line_number);
        let digits_s = string_of(&digits);
        let mut url = String::new();
        url.append("https://github.com/");
        url.append(repo.as_str());
        url.append("/blob/");
        url.append(branch.as_str());
        url.append("/");
        url.append(norm_s.as_str());
        url.append("#L");
        url.append(digits_s.as_str());
        proof {
            assert(url@ =~= spec_github_url(
                repo@,
                branch@,
                spec_normalize_path(file_path@),
                line_number as int,
            ));
        }
        UbiquitousRow { file_path: norm_s, line_number, github_url: url, ..self }
    }
}

} // verus!
