//! Discovery of documented declarations in a syntax tree.
//!
//! Each supported language differs only in a small capability table: the
//! node kind of a class-like declaration, the node kind of its name, the
//! node kinds of comments, whether a documentation comment must start with
//! `/**`, and whether adjacent line comments are concatenated. One generic
//! traversal, driven by that table, visits every node of the tree in
//! pre-order; at each declaration it walks the preceding-sibling chain for
//! the associated comment and extracts the declared name.

use vstd::prelude::*;
use crate::parser::php::extract_ubiquitous::{
    extract_ubiquitous, lemma_extract_records_for_file, record_for_file, spec_extract_ubiquitous,
    ExtractParamView, ExtractUbiquitousParam,
};
use crate::parser::syntax_tree::SyntaxNode;
use crate::parser::tag_scan::{sat_add, sat_line};
use crate::parser::ubiquitous::{Ubiquitous, UbiquitousView};
use crate::text::{
    chars_of, has_prefix_at, join_nl, match_at, spec_join_nl, spec_trim_start, string_of,
    trim_start_chars,
};

verus! {

/// Ghost mirror of [`LanguageCaps`].
pub struct CapsView {
    pub decl_kind: Seq<char>,
    pub name_kind: Seq<char>,
    pub comment_kinds: Seq<Seq<char>>,
    pub require_doc: bool,
    pub concat: bool,
}

/// What distinguishes one language's grammar for this pipeline: the node
/// kind of a declaration, the node kind that carries its name, the node
/// kinds of comments, whether only `/**` comments document a declaration,
/// and whether a run of adjacent comments is concatenated.
pub struct LanguageCaps {
    pub decl_kind: String,
    pub name_kind: String,
    pub comment_kinds: Vec<String>,
    pub require_doc: bool,
    pub concat: bool,
}

impl View for LanguageCaps {
    type V = CapsView;

    open spec fn view(&self) -> CapsView {
        CapsView {
            decl_kind: self.decl_kind@,
            name_kind: self.name_kind@,
            comment_kinds: self.comment_kinds.deep_view(),
            require_doc: self.require_doc,
            concat: self.concat,
        }
    }
}

/// Ghost mirror of [`ClassDocRecord`].
pub struct ClassDocView {
    pub class_name: Seq<char>,
    pub doc_comment: Seq<char>,
    pub doc_comment_line: int,
}

/// A declaration name paired with the raw text of its associated comment
/// and the 1-based line on which that comment starts.
pub struct ClassDocRecord {
    pub class_name: String,
    pub doc_comment: String,
    pub doc_comment_line: usize,
}

impl View for ClassDocRecord {
    type V = ClassDocView;

    open spec fn view(&self) -> ClassDocView {
        ClassDocView {
            class_name: self.class_name@,
            doc_comment: self.doc_comment@,
            doc_comment_line: self.doc_comment_line as int,
        }
    }
}

impl DeepView for ClassDocRecord {
    type V = ClassDocView;

    open spec fn deep_view(&self) -> ClassDocView {
        self.view()
    }
}

/// Is `k` one of this language's comment node kinds?
pub open spec fn is_comment_kind(caps: CapsView, k: Seq<char>) -> bool {
    caps.comment_kinds.contains(k)
}

/// Does this comment node document a declaration? Where the language
/// requires it, the comment's text must start with `/**` after leading
/// whitespace.
pub open spec fn is_doc_comment(caps: CapsView, n: SyntaxNode) -> bool {
    is_comment_kind(caps, n.kind@) && (caps.require_doc ==> match_at(
        spec_trim_start(n.text@),
        seq!['/', '*', '*'],
        0,
    ))
}

/// The 1-based line on which a node starts; the sum saturates at the
/// machine limit.
pub open spec fn line_of(n: SyntaxNode) -> int {
    sat_line(n.start_row as int, 1)
}

/// Walking the preceding siblings of `children[j]` from nearest to
/// farthest: the first documentation comment, with its line, where a named
/// non-comment node ends the walk.
pub open spec fn find_single_doc(caps: CapsView, children: Seq<SyntaxNode>, j: int) -> Option<
    (Seq<char>, int),
>
    decreases j,
    when j <= children.len()
{
    if j <= 0 {
        None
    } else {
        let prev = children[j - 1];
        if is_doc_comment(caps, prev) {
            Some((prev.text@, line_of(prev)))
        } else if prev.named && !is_comment_kind(caps, prev.kind@) {
            None
        } else {
            find_single_doc(caps, children, j - 1)
        }
    }
}

/// The contiguous run of comment nodes preceding `children[j]`, nearest
/// first, ended by the first named non-comment sibling.
pub open spec fn collect_run(caps: CapsView, children: Seq<SyntaxNode>, j: int) -> Seq<SyntaxNode>
    decreases j,
    when j <= children.len()
{
    if j <= 0 {
        Seq::empty()
    } else {
        let prev = children[j - 1];
        if is_comment_kind(caps, prev.kind@) {
            collect_run(caps, children, j - 1).push(prev)
        } else if prev.named {
            Seq::empty()
        } else {
            collect_run(caps, children, j - 1)
        }
    }
}

/// The texts of a run in source order: the run is nearest-last here, so
/// this is the texts as they stand.
pub open spec fn run_texts(run: Seq<SyntaxNode>) -> Seq<Seq<char>>
    decreases run.len(),
{
    if run.len() == 0 {
        Seq::empty()
    } else {
        run_texts(run.drop_last()).push(run.last().text@)
    }
}

/// The smallest 1-based start line among the run's comments.
pub open spec fn min_line(run: Seq<SyntaxNode>) -> int
    decreases run.len(),
    when run.len() >= 1
{
    if run.len() == 1 {
        line_of(run.last())
    } else {
        let rest = min_line(run.drop_last());
        if line_of(run.last()) < rest {
            line_of(run.last())
        } else {
            rest
        }
    }
}

/// The concatenated comment run preceding `children[j]`: texts joined in
/// source order with line feeds, starting at the earliest line observed.
pub open spec fn concat_doc(caps: CapsView, children: Seq<SyntaxNode>, j: int) -> Option<
    (Seq<char>, int),
> {
    let run = collect_run(caps, children, j);
    if run.len() == 0 {
        None
    } else {
        Some((spec_join_nl(run_texts(run)), min_line(run)))
    }
}

/// The comment associated with `children[j]`, by this language's policy.
pub open spec fn find_doc(caps: CapsView, children: Seq<SyntaxNode>, j: int) -> Option<
    (Seq<char>, int),
> {
    if caps.concat {
        concat_doc(caps, children, j)
    } else {
        find_single_doc(caps, children, j)
    }
}

/// The text of the first child of the declaration whose kind is the
/// language's name kind, searching from `i` on.
pub open spec fn find_name_from(caps: CapsView, children: Seq<SyntaxNode>, i: int) -> Option<
    Seq<char>,
>
    decreases children.len() - i,
    when 0 <= i
{
    if i >= children.len() {
        None
    } else if children[i].kind@ == caps.name_kind {
        Some(children[i].text@)
    } else {
        find_name_from(caps, children, i + 1)
    }
}

/// The declared name of a declaration node.
pub open spec fn find_name(caps: CapsView, decl: SyntaxNode) -> Option<Seq<char>> {
    find_name_from(caps, decl.children@, 0)
}

/// The records that `n.children[j]` itself yields: one, when it is a
/// declaration with a name and an associated comment; none otherwise.
pub open spec fn node_doc(caps: CapsView, n: SyntaxNode, j: int) -> Seq<ClassDocView> {
    let child = n.children[j];
    if child.kind@ == caps.decl_kind {
        match find_name(caps, child) {
            Some(name) => match find_doc(caps, n.children@, j) {
                Some(d) => seq![
                    ClassDocView { class_name: name, doc_comment: d.0, doc_comment_line: d.1 },
                ],
                None => Seq::empty(),
            },
            None => Seq::empty(),
        }
    } else {
        Seq::empty()
    }
}

/// The records of the subtrees of `n.children[j..]`, in pre-order: each
/// child's own record first, then its subtree's.
pub open spec fn docs_from(caps: CapsView, n: SyntaxNode, j: int) -> Seq<ClassDocView>
    decreases n, n.children.len() - j,
    when 0 <= j
{
    if j >= n.children.len() {
        Seq::empty()
    } else {
        node_doc(caps, n, j) + docs_in_node(caps, n.children[j]) + docs_from(caps, n, j + 1)
    }
}

/// The records of every declaration strictly below `n`, in pre-order.
/// The root node itself has no siblings, so it never yields a record.
pub open spec fn docs_in_node(caps: CapsView, n: SyntaxNode) -> Seq<ClassDocView>
    decreases n, n.children.len() + 1,
{
    docs_from(caps, n, 0)
}

/// A class-doc record with its line as the languages publish it.
pub struct ClassDocOptView {
    pub class_name: Seq<char>,
    pub doc_comment: Seq<char>,
    pub doc_comment_line: Option<int>,
}

/// The published form of an engine record: the line is always known here.
pub open spec fn with_line(d: ClassDocView) -> ClassDocOptView {
    ClassDocOptView {
        class_name: d.class_name,
        doc_comment: d.doc_comment,
        doc_comment_line: Some(d.doc_comment_line),
    }
}

/// An engine record as the extraction takes it, for one file.
pub open spec fn param_of(d: ClassDocView, path: Seq<char>) -> ExtractParamView {
    ExtractParamView {
        class_name: d.class_name,
        doc_comment: d.doc_comment,
        file_path: path,
        line_number: d.doc_comment_line,
    }
}

/// The glossary records of a whole tree, for one language and one file:
/// every documented declaration, run through the tag extraction.
pub open spec fn spec_records_in_tree(caps: CapsView, n: SyntaxNode, path: Seq<char>) -> Seq<
    UbiquitousView,
> {
    spec_extract_ubiquitous(
        docs_in_node(caps, n).map_values(|d: ClassDocView| param_of(d, path)),
    )
}

/// Every record of a tree's extraction names the file it was extracted
/// for, carries its declaration's name, and is never without glossary
/// content.
pub proof fn lemma_tree_records_for_file(caps: CapsView, n: SyntaxNode, path: Seq<char>)
    ensures
        forall|k: int|
            0 <= k < spec_records_in_tree(caps, n, path).len() ==> record_for_file(
                spec_records_in_tree(caps, n, path)[k],
                path,
            ),
{
    let params = docs_in_node(caps, n).map_values(|d: ClassDocView| param_of(d, path));
    assert(forall|i: int| 0 <= i < params.len() ==> params[i].file_path == path);
    lemma_extract_records_for_file(params, path);
}

/// Extract the glossary records of a whole tree, for one language and one
/// file.
pub fn records_in_tree(root: &SyntaxNode, caps: &LanguageCaps, file_path: &str) -> (r: Vec<
    Ubiquitous,
>)
    ensures
        r.deep_view() == spec_records_in_tree(caps@, *root, file_path@),
        forall|k: int|
            0 <= k < r.deep_view().len() ==> record_for_file(r.deep_view()[k], file_path@),
{
    let docs = collect_docs(root, caps);
    let mut params: Vec<ExtractUbiquitousParam> = Vec::new();
    let mut i: usize = 0;
    while i < docs.len()
        invariant
            i <= docs@.len(),
            docs.deep_view() == docs_in_node(caps@, *root),
            params.deep_view().len() == i,
            forall|k: int|
                0 <= k < i ==> params.deep_view()[k] == param_of(
                    docs.deep_view()[k],
                    file_path@,
                ),
        decreases docs@.len() - i,
    {
        let ghost prev = params.deep_view();
        let p = ExtractUbiquitousParam {
            class_name: docs[i].class_name.clone(),
            doc_comment: docs[i].doc_comment.clone(),
            file_path: file_path.to_owned(),
            line_number: docs[i].doc_comment_line,
        };
        proof {
            assert(docs.deep_view()[i as int] == docs@[i as int].deep_view());
            assert(p@ == param_of(docs.deep_view()[i as int], file_path@));
        }
        params.push(p);
        i = i + 1;
        proof {
            assert(params.deep_view() =~~= prev.push(p@));
        }
    }
    proof {
        assert(params.deep_view() =~= docs_in_node(caps@, *root).map_values(
            |d: ClassDocView| param_of(d, file_path@),
        ));
        assert(forall|q: int|
            0 <= q < params.deep_view().len() ==> params.deep_view()[q].file_path == file_path@);
        lemma_extract_records_for_file(params.deep_view(), file_path@);
    }
    extract_ubiquitous(params)
}

/// The doc-style law: where the language requires the documentation
/// prefix, whatever comment the walk associates with a declaration starts
/// with `/**` after leading whitespace — a plain comment directly before a
/// class never becomes its documentation.
pub proof fn lemma_doc_requires_prefix(caps: CapsView, children: Seq<SyntaxNode>, j: int)
    requires
        caps.require_doc,
        !caps.concat,
        0 <= j <= children.len(),
        find_doc(caps, children, j) is Some,
    ensures
        match_at(
            spec_trim_start((find_doc(caps, children, j)->0).0),
            seq!['/', '*', '*'],
            0,
        ),
    decreases j,
{
    if j > 0 {
        let prev = children[j - 1];
        if !is_doc_comment(caps, prev) && !(prev.named && !is_comment_kind(caps, prev.kind@)) {
            lemma_doc_requires_prefix(caps, children, j - 1);
        }
    }
}

proof fn lemma_single_doc_boundary(
    caps: CapsView,
    children: Seq<SyntaxNode>,
    y: SyntaxNode,
    k: int,
    m: int,
    j: int,
)
    requires
        0 <= k < m < j <= children.len(),
        children[m].named && !is_comment_kind(caps, children[m].kind@),
    ensures
        find_single_doc(caps, children, j) == find_single_doc(caps, children.update(k, y), j),
    decreases j,
{
    let w = children.update(k, y);
    assert(w[j - 1] == children[j - 1]);
    assert(w[m] == children[m]);
    if j - 1 > m && !is_doc_comment(caps, children[j - 1]) && !(children[j - 1].named
        && !is_comment_kind(caps, children[j - 1].kind@)) {
        lemma_single_doc_boundary(caps, children, y, k, m, j - 1);
    }
}

proof fn lemma_collect_run_boundary(
    caps: CapsView,
    children: Seq<SyntaxNode>,
    y: SyntaxNode,
    k: int,
    m: int,
    j: int,
)
    requires
        0 <= k < m < j <= children.len(),
        children[m].named && !is_comment_kind(caps, children[m].kind@),
    ensures
        collect_run(caps, children, j) == collect_run(caps, children.update(k, y), j),
    decreases j,
{
    let w = children.update(k, y);
    assert(w[j - 1] == children[j - 1]);
    assert(w[m] == children[m]);
    if j - 1 > m {
        lemma_collect_run_boundary(caps, children, y, k, m, j - 1);
    }
}

/// The association boundary law: a comment separated from a declaration by
/// any other named node is never associated with that declaration. Here:
/// when a named non-comment sibling stands at `m`, between `k` and the
/// declaration at `j`, the comment found for `j` does not depend on what
/// stands at `k` at all.
pub proof fn lemma_association_boundary(
    caps: CapsView,
    children: Seq<SyntaxNode>,
    y: SyntaxNode,
    k: int,
    m: int,
    j: int,
)
    requires
        0 <= k < m < j <= children.len(),
        children[m].named && !is_comment_kind(caps, children[m].kind@),
    ensures
        find_doc(caps, children, j) == find_doc(caps, children.update(k, y), j),
{
    lemma_single_doc_boundary(caps, children, y, k, m, j);
    lemma_collect_run_boundary(caps, children, y, k, m, j);
}

proof fn lemma_run_texts_prepend(x: SyntaxNode, run: Seq<SyntaxNode>)
    ensures
        run_texts(seq![x] + run) == seq![x.text@] + run_texts(run),
    decreases run.len(),
{
    if run.len() == 0 {
        assert((seq![x] + run) =~= seq![x]);
        assert(seq![x].drop_last() =~= Seq::<SyntaxNode>::empty());
        assert(seq![x].last() == x);
        assert(run_texts(seq![x]) == run_texts(Seq::<SyntaxNode>::empty()).push(x.text@));
        assert(run_texts(Seq::<SyntaxNode>::empty()).push(x.text@) =~= seq![x.text@]);
        assert(run_texts(seq![x]) =~= seq![x.text@] + run_texts(run));
    } else {
        let w = seq![x] + run;
        assert(w.drop_last() =~= seq![x] + run.drop_last());
        assert(w.last() == run.last());
        lemma_run_texts_prepend(x, run.drop_last());
        assert(run_texts(w) =~= seq![x.text@] + run_texts(run));
    }
}

proof fn lemma_min_line_prepend(x: SyntaxNode, run: Seq<SyntaxNode>)
    requires
        run.len() >= 1,
    ensures
        min_line(seq![x] + run) == if line_of(x) < min_line(run) {
            line_of(x)
        } else {
            min_line(run)
        },
    decreases run.len(),
{
    let w = seq![x] + run;
    assert(w.last() == run.last());
    if run.len() == 1 {
        assert(w.drop_last() =~= seq![x]);
        assert(seq![x].last() == x);
        assert(min_line(seq![x]) == line_of(x));
    } else {
        assert(w.drop_last() =~= seq![x] + run.drop_last());
        lemma_min_line_prepend(x, run.drop_last());
    }
}

fn kind_in(caps: &LanguageCaps, k: &String) -> (r: bool)
    ensures
        r == is_comment_kind(caps@, k@),
{
    let mut i: usize = 0;
    while i < caps.comment_kinds.len()
        invariant
            i <= caps.comment_kinds@.len(),
            forall|m: int| 0 <= m < i ==> caps.comment_kinds.deep_view()[m] != k@,
        decreases caps.comment_kinds@.len() - i,
    {
        if caps.comment_kinds[i].eq(k) {
            proof {
                assert(caps@.comment_kinds[i as int] == k@);
            }
            return true;
        }
        i = i + 1;
    }
    proof {
        assert(!caps@.comment_kinds.contains(k@));
    }
    false
}

fn doc_marker() -> (r: Vec<char>)
    ensures
        r@ == seq!['/', '*', '*'],
{
    let mut v: Vec<char> = Vec::new();
    v.push('/');
    v.push('*');
    v.push('*');
    proof {
        assert(v@ =~= seq!['/', '*', '*']);
    }
    v
}

fn is_doc_comment_node(caps: &LanguageCaps, n: &SyntaxNode) -> (r: bool)
    ensures
        r == is_doc_comment(caps@, *n),
{
    if !kind_in(caps, &n.kind) {
        return false;
    }
    if !caps.require_doc {
        return true;
    }
    let cs = chars_of(n.text.as_str());
    let t = trim_start_chars(&cs);
    let marker = doc_marker();
    has_prefix_at(&t, 0, &marker)
}

fn find_doc_single(caps: &LanguageCaps, children: &Vec<SyntaxNode>, j: usize) -> (r: Option<
    (String, usize),
>)
    requires
        j <= children@.len(),
    ensures
        match r {
            Some(d) => find_single_doc(caps@, children@, j as int) == Some((d.0@, d.1 as int)),
            None => find_single_doc(caps@, children@, j as int) is None,
        },
{
    let mut cur = j;
    while cur > 0
        invariant
            cur <= j <= children@.len(),
            find_single_doc(caps@, children@, j as int) == find_single_doc(
                caps@,
                children@,
                cur as int,
            ),
        decreases cur,
    {
        let prev = &children[cur - 1];
        if is_doc_comment_node(caps, prev) {
            let line = sat_add(prev.start_row, 1);
            return Some((prev.text.clone(), line));
        }
        if prev.named && !kind_in(caps, &prev.kind) {
            return None;
        }
        cur = cur - 1;
    }
    None
}

fn find_doc_concat(caps: &LanguageCaps, children: &Vec<SyntaxNode>, j: usize) -> (r: Option<
    (String, usize),
>)
    requires
        j <= children@.len(),
    ensures
        match r {
            Some(d) => concat_doc(caps@, children@, j as int) == Some((d.0@, d.1 as int)),
            None => concat_doc(caps@, children@, j as int) is None,
        },
{
    let ghost target = collect_run(caps@, children@, j as int);
    let mut texts: Vec<Vec<char>> = Vec::new();
    let mut min_l: usize = 0;
    let mut found = false;
    let ghost mut run_g = Seq::<SyntaxNode>::empty();
    let mut cur = j;
    proof {
        assert(target =~= collect_run(caps@, children@, j as int) + run_g);
    }
    while cur > 0
        invariant
            cur <= j <= children@.len(),
            target == collect_run(caps@, children@, j as int),
            target =~= collect_run(caps@, children@, cur as int) + run_g,
            texts.deep_view() =~~= run_texts(run_g),
            found <==> run_g.len() >= 1,
            found ==> min_l as int == min_line(run_g),
        decreases cur,
    {
        let prev = &children[cur - 1];
        if kind_in(caps, &prev.kind) {
            let line = sat_add(prev.start_row, 1);
            texts.insert(0, chars_of(prev.text.as_str()));
            proof {
                if run_g.len() >= 1 {
                    lemma_min_line_prepend(*prev, run_g);
                }
                lemma_run_texts_prepend(*prev, run_g);
            }
            if !found || line < min_l {
                min_l = line;
            }
            found = true;
            proof {
                run_g = seq![*prev] + run_g;
                assert(collect_run(caps@, children@, cur as int) == collect_run(
                    caps@,
                    children@,
                    cur - 1,
                ).push(*prev));
                assert(collect_run(caps@, children@, cur - 1).push(*prev) + run_g.skip(1)
                    =~= collect_run(caps@, children@, cur - 1) + run_g);
                assert(texts.deep_view() =~~= run_texts(run_g));
            }
            cur = cur - 1;
        } else if prev.named {
            proof {
                assert(collect_run(caps@, children@, cur as int) =~= Seq::<SyntaxNode>::empty());
            }
            cur = 0;
        } else {
            cur = cur - 1;
        }
    }
    proof {
        assert(collect_run(caps@, children@, 0) =~= Seq::<SyntaxNode>::empty());
        assert(target =~= run_g);
    }
    if found {
        let joined = join_nl(&texts);
        Some((string_of(&joined), min_l))
    } else {
        None
    }
}

fn find_doc_node(caps: &LanguageCaps, children: &Vec<SyntaxNode>, j: usize) -> (r: Option<
    (String, usize),
>)
    requires
        j <= children@.len(),
    ensures
        match r {
            Some(d) => find_doc(caps@, children@, j as int) == Some((d.0@, d.1 as int)),
            None => find_doc(caps@, children@, j as int) is None,
        },
{
    if caps.concat {
        find_doc_concat(caps, children, j)
    } else {
        find_doc_single(caps, children, j)
    }
}

fn find_name_child(caps: &LanguageCaps, decl: &SyntaxNode) -> (r: Option<String>)
    ensures
        match r {
            Some(s) => find_name(caps@, *decl) == Some(s@),
            None => find_name(caps@, *decl) is None,
        },
{
    let mut i: usize = 0;
    while i < decl.children.len()
        invariant
            i <= decl.children@.len(),
            find_name_from(caps@, decl.children@, 0) == find_name_from(
                caps@,
                decl.children@,
                i as int,
            ),
        decreases decl.children@.len() - i,
    {
        if decl.children[i].kind.eq(&caps.name_kind) {
            return Some(decl.children[i].text.clone());
        }
        i = i + 1;
    }
    None
}

/// Every documented declaration below `root`, in pre-order, by the given
/// language capabilities.
pub fn collect_docs(root: &SyntaxNode, caps: &LanguageCaps) -> (r: Vec<ClassDocRecord>)
    ensures
        r.deep_view() == docs_in_node(caps@, *root),
    decreases *root,
{
    let mut r: Vec<ClassDocRecord> = Vec::new();
    let n_children = root.children.len();
    let mut j: usize = 0;
    while j < n_children
        invariant
            j <= n_children,
            n_children == root.children@.len(),
            r.deep_view() + docs_from(caps@, *root, j as int) =~~= docs_in_node(caps@, *root),
        decreases n_children - j,
    {
        let ghost prev = r.deep_view();
        let child = &root.children[j];
        if child.kind.eq(&caps.decl_kind) {
            if let Some(name) = find_name_child(caps, child) {
                if let Some(d) = find_doc_node(caps, &root.children, j) {
                    r.push(
                        ClassDocRecord {
                            class_name: name,
                            doc_comment: d.0,
                            doc_comment_line: d.1,
                        },
                    );
                }
            }
        }
        proof {
            assert(r.deep_view() =~~= prev + node_doc(caps@, *root, j as int));
        }
        let ghost prev2 = r.deep_view();
        proof {
            assert(decreases_to!(*root => root.children));
            assert(decreases_to!(root.children => root.children@[j as int]));
            assert(decreases_to!(*root => root.children@[j as int]));
        }
        let mut sub = collect_docs(child, caps);
        r.append(&mut sub);
        proof {
            assert(r.deep_view() =~~= prev + node_doc(caps@, *root, j as int) + docs_in_node(
                caps@,
                root.children@[j as int],
            ));
        }
        j = j + 1;
    }
    proof {
        assert(r.deep_view() =~~= docs_in_node(caps@, *root));
    }
    r
}

} // verus!
