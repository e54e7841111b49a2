//! The whole pipeline over a set of source files.
//!
//! Each file is classified by its extension and handed to its language's
//! pipeline; the per-file record lists are concatenated. Files of
//! unsupported extensions contribute nothing — a classification outcome,
//! not an error.

use vstd::prelude::*;
use vstd::seq_lib::{group_to_multiset_ensures, lemma_multiset_commutative};
use crate::parser::class_docs::lemma_tree_records_for_file;
use crate::parser::file_io::read_sources_from_dir::{CodeFile, CodeFileView};
use crate::parser::php::extract_ubiquitous::record_for_file;
use crate::parser::ubiquitous::{Ubiquitous, UbiquitousView};
use crate::text::{chars_of, eq_chars};

verus! {

/// Ghost mirror of [`FileType`].
pub enum FileTypeView {
    Php,
    Kotlin,
    Ruby,
    Java,
    Other(Seq<char>),
}

/// The language a file extension names, or the extension itself when it
/// names none.
#[derive(Debug)]
pub enum FileType {
    Php,
    Kotlin,
    Ruby,
    Java,
    Other(String),
}

impl View for FileType {
    type V = FileTypeView;

    open spec fn view(&self) -> FileTypeView {
        match self {
            FileType::Php => FileTypeView::Php,
            FileType::Kotlin => FileTypeView::Kotlin,
            FileType::Ruby => FileTypeView::Ruby,
            FileType::Java => FileTypeView::Java,
            FileType::Other(s) => FileTypeView::Other(s@),
        }
    }
}

/// The classification of an extension: `php`, `kt`, `rb` and `java` are
/// recognized.
pub open spec fn spec_file_type(e: Seq<char>) -> FileTypeView {
    if e == "php"@ {
        FileTypeView::Php
    } else if e == "kt"@ {
        FileTypeView::Kotlin
    } else if e == "rb"@ {
        FileTypeView::Ruby
    } else if e == "java"@ {
        FileTypeView::Java
    } else {
        FileTypeView::Other(e)
    }
}

impl FileType {
    /// Classify a file extension.
    pub fn from_extension(ext: &str) -> (r: Self)
        ensures
            r@ == spec_file_type(ext@),
    {
        let e = chars_of(ext);
        if eq_chars(&e, &chars_of("php")) {
            FileType::Php
        } else if eq_chars(&e, &chars_of("kt")) {
            FileType::Kotlin
        } else if eq_chars(&e, &chars_of("rb")) {
            FileType::Ruby
        } else if eq_chars(&e, &chars_of("java")) {
            FileType::Java
        } else {
            FileType::Other(ext.to_owned())
        }
    }
}

/// The record belongs to one of the files: it names that file's path,
/// carries its declaration's name, and is not all-empty.
pub open spec fn from_some_file(u: UbiquitousView, files: Seq<CodeFileView>) -> bool {
    exists|j: int| 0 <= j < files.len() && record_for_file(u, #[trigger] files[j].file_path)
}

/// The records of one file, by its extension: the language pipeline's
/// extraction for a recognized extension, nothing for an unrecognized one
/// — a classification outcome, not an error — and nothing for Kotlin,
/// whose grammar is not linked.
pub open spec fn spec_file_records(f: CodeFileView) -> Seq<UbiquitousView> {
    match spec_file_type(f.extension) {
        FileTypeView::Php => crate::parser::php::get_ubiquitous::spec_records(
            f.code,
            f.file_path,
        ),
        FileTypeView::Kotlin => Seq::empty(),
        FileTypeView::Ruby => crate::parser::ruby::get_ubiquitous::spec_records(
            f.code,
            f.file_path,
        ),
        FileTypeView::Java => crate::parser::java::get_ubiquitous::spec_records(
            f.code,
            f.file_path,
        ),
        FileTypeView::Other(_) => Seq::empty(),
    }
}

/// The records of a whole run: each file's records, concatenated in file
/// order.
pub open spec fn spec_records_of_files(files: Seq<CodeFileView>) -> Seq<UbiquitousView>
    decreases files.len(),
{
    if files.len() == 0 {
        Seq::empty()
    } else {
        spec_file_records(files[0]) + spec_records_of_files(files.drop_first())
    }
}

/// The determinism law: the record set is a function of the file list
/// alone — two runs over the same files yield the same records.
pub proof fn lemma_records_deterministic(a: Seq<CodeFileView>, b: Seq<CodeFileView>)
    requires
        a == b,
    ensures
        spec_records_of_files(a) == spec_records_of_files(b),
{
}

/// Taking one file out of the list splits off exactly that file's records,
/// as multisets.
proof fn lemma_records_remove(files: Seq<CodeFileView>, i: int)
    requires
        0 <= i < files.len(),
    ensures
        spec_records_of_files(files).to_multiset() == spec_records_of_files(
            files.remove(i),
        ).to_multiset().add(spec_file_records(files[i]).to_multiset()),
    decreases i,
{
    broadcast use vstd::multiset::group_multiset_axioms;

    let rest = files.drop_first();
    lemma_multiset_commutative(spec_file_records(files[0]), spec_records_of_files(rest));
    if i == 0 {
        assert(files.remove(0) =~= rest);
        assert(spec_records_of_files(files).to_multiset() =~= spec_records_of_files(
            rest,
        ).to_multiset().add(spec_file_records(files[0]).to_multiset()));
    } else {
        assert(files.remove(i).drop_first() =~= rest.remove(i - 1));
        assert(files.remove(i)[0] == files[0]);
        lemma_records_remove(rest, i - 1);
        lemma_multiset_commutative(
            spec_file_records(files[0]),
            spec_records_of_files(rest.remove(i - 1)),
        );
        assert(spec_records_of_files(files).to_multiset() =~= spec_records_of_files(
            files.remove(i),
        ).to_multiset().add(spec_file_records(files[i]).to_multiset()));
    }
}

/// The merge order law: per-file results are independent and the merge is
/// a plain concatenation, so file lists equal as multisets yield record
/// sets equal as multisets — presentation order is the sort stage's
/// business alone.
pub proof fn lemma_records_order_independent(a: Seq<CodeFileView>, b: Seq<CodeFileView>)
    requires
        a.to_multiset() == b.to_multiset(),
    ensures
        spec_records_of_files(a).to_multiset() == spec_records_of_files(b).to_multiset(),
    decreases a.len(),
{
    broadcast use group_to_multiset_ensures;
    broadcast use vstd::multiset::group_multiset_axioms;

    if a.len() == 0 {
        assert(a.to_multiset().len() == 0);
        assert(b.len() == 0);
        assert(spec_records_of_files(a).to_multiset() =~= spec_records_of_files(b).to_multiset());
    } else {
        let x = a[0];
        assert(a.contains(x));
        assert(b.to_multiset().count(x) > 0);
        assert(b.contains(x));
        let j = choose|j: int| 0 <= j < b.len() && b[j] == x;
        assert(a.drop_first() =~= a.remove(0));
        assert(a.remove(0).to_multiset() =~= a.to_multiset().remove(x));
        assert(b.remove(j).to_multiset() =~= b.to_multiset().remove(x));
        assert(a.drop_first().to_multiset() == b.remove(j).to_multiset());
        lemma_records_order_independent(a.drop_first(), b.remove(j));
        lemma_records_remove(b, j);
        lemma_multiset_commutative(spec_file_records(x), spec_records_of_files(a.drop_first()));
        assert(spec_records_of_files(a).to_multiset() =~= spec_records_of_files(b).to_multiset());
    }
}

/// Run every file through its language's pipeline and merge the records:
/// the result is the concatenation, in file order, of each file's records.
/// Every record names the path of the file it came from, carries its
/// declaration's name, and is never without glossary content.
pub fn get_ubiquitous_list(code_files: Vec<CodeFile>) -> (r: Vec<Ubiquitous>)
    ensures
        r.deep_view() == spec_records_of_files(code_files.deep_view()),
        forall|k: int|
            0 <= k < r.deep_view().len() ==> from_some_file(
                #[trigger] r.deep_view()[k],
                code_files.deep_view(),
            ),
{
    let ghost files = code_files.deep_view();
    let mut r: Vec<Ubiquitous> = Vec::new();
    let mut i: usize = 0;
    proof {
        assert(files.skip(0) =~= files);
    }
    while i < code_files.len()
        invariant
            i <= code_files@.len(),
            files == code_files.deep_view(),
            r.deep_view() + spec_records_of_files(files.skip(i as int)) =~~= spec_records_of_files(
                files,
            ),
            forall|k: int|
                0 <= k < r.deep_view().len() ==> from_some_file(
                    #[trigger] r.deep_view()[k],
                    files,
                ),
        decreases code_files@.len() - i,
    {
        let f = &code_files[i];
        let ghost fv = files[i as int];
        proof {
            assert(fv == code_files@[i as int].deep_view());
            assert(files.skip(i as int)[0] == fv);
            assert(files.skip(i as int).drop_first() =~= files.skip(i + 1));
        }
        let mut recs = match FileType::from_extension(f.extension.as_str()) {
            FileType::Php => {
                let v = crate::parser::php::get_ubiquitous::get_ubiquitous(
                    f.code.as_str(),
                    f.file_path.as_str(),
                );
                proof {
                    assert(v.deep_view() == spec_file_records(fv));
                }
                v
            },
            FileType::Kotlin => {
                let v = crate::parser::kotlin::get_ubiquitous::get_ubiquitous(
                    f.code.as_str(),
                    f.file_path.as_str(),
                );
                proof {
                    assert(v.deep_view() =~= spec_file_records(fv));
                }
                v
            },
            FileType::Ruby => {
                let v = crate::parser::ruby::get_ubiquitous::get_ubiquitous(
                    f.code.as_str(),
                    f.file_path.as_str(),
                );
                proof {
                    assert(v.deep_view() == spec_file_records(fv));
                }
                v
            },
            FileType::Java => {
                let v = crate::parser::java::get_ubiquitous::get_ubiquitous(
                    f.code.as_str(),
                    f.file_path.as_str(),
                );
                proof {
                    assert(v.deep_view() == spec_file_records(fv));
                }
                v
            },
            FileType::Other(_) => {
                let v: Vec<Ubiquitous> = Vec::new();
                proof {
                    assert(v.deep_view() =~= spec_file_records(fv));
                }
                v
            },
        };
        let ghost prev = r.deep_view();
        let ghost added = recs.deep_view();
        proof {
            lemma_file_records_for_file(fv);
        }
        r.append(&mut recs);
        i = i + 1;
        proof {
            assert(r.deep_view() =~~= prev + added);
            assert forall|k: int| 0 <= k < r.deep_view().len() implies from_some_file(
                #[trigger] r.deep_view()[k],
                files,
            ) by {
                if k >= prev.len() {
                    assert(0 <= i - 1 < files.len());
                    assert(record_for_file(r.deep_view()[k], files[i - 1].file_path));
                }
            }
        }
    }
    proof {
        assert(files.skip(files.len() as int) =~= Seq::<CodeFileView>::empty());
        assert(r.deep_view() =~~= spec_records_of_files(files));
    }
    r
}

/// Every record of one file's records belongs to that file.
pub proof fn lemma_file_records_for_file(f: CodeFileView)
    ensures
        forall|k: int|
            0 <= k < spec_file_records(f).len() ==> record_for_file(
                #[trigger] spec_file_records(f)[k],
                f.file_path,
            ),
{
    match spec_file_type(f.extension) {
        FileTypeView::Php => {
            match crate::parser::grammars::spec_php_parse(f.code) {
                Some(t) => {
                    lemma_tree_records_for_file(
                        crate::parser::php::collect_class_docs::php_caps_view(),
                        t,
                        f.file_path,
                    );
                },
                None => {},
            }
        },
        FileTypeView::Kotlin => {},
        FileTypeView::Ruby => {
            match crate::parser::grammars::spec_ruby_parse(f.code) {
                Some(t) => {
                    lemma_tree_records_for_file(
                        crate::parser::ruby::collect_class_docs::ruby_caps_view(),
                        t,
                        f.file_path,
                    );
                },
                None => {},
            }
        },
        FileTypeView::Java => {
            match crate::parser::grammars::spec_java_parse(f.code) {
                Some(t) => {
                    lemma_tree_records_for_file(
                        crate::parser::java::collect_class_docs::java_caps_view(),
                        t,
                        f.file_path,
                    );
                },
                None => {},
            }
        },
        FileTypeView::Other(_) => {},
    }
}

} // verus!
