//! Construction of the library's syntax trees by the tree-sitter parsers.
//!
//! Parsing is the one step the library takes on trust: each grammar is a
//! generated C parser behind the `tree_sitter` crate. Parsing is a
//! function of the source text alone — no timeout, cancellation,
//! randomness or environment enters — so each grammar's mirrored tree is
//! given a name (`spec_php_tagged_parse` and its siblings), and every
//! contract downstream is exact in that name. The worklist conversion at
//! the bottom is verified and mirrors a parse tree, node for node, into
//! [`SyntaxNode`]; nothing is assumed about the shape of the result, and
//! every function that reads a tree is verified for all trees.
//!
//! A grammar that cannot be loaded is a build defect, not a runtime
//! condition: the wrappers abort on it, as the error design demands.

use vstd::prelude::*;
use crate::parser::syntax_tree::SyntaxNode;
use crate::text::{chars_of, find_sub, spec_find};

verus! {

#[verifier::external_type_specification]
#[verifier::external_body]
pub struct ExNode<'a>(tree_sitter::Node<'a>);

/// The mirrored parse of PHP text under the tagged-PHP grammar; None only
/// when the mirroring budget runs out.
pub uninterp spec fn spec_php_tagged_parse(code: Seq<char>) -> Option<SyntaxNode>;

/// The mirrored parse of PHP text under the bare-PHP grammar.
pub uninterp spec fn spec_php_only_parse(code: Seq<char>) -> Option<SyntaxNode>;

/// The mirrored parse of Java text.
pub uninterp spec fn spec_java_parse(code: Seq<char>) -> Option<SyntaxNode>;

/// The mirrored parse of Ruby text.
pub uninterp spec fn spec_ruby_parse(code: Seq<char>) -> Option<SyntaxNode>;

/// Relies on tree_sitter::Parser::{new, set_language, parse} and
/// Tree::root_node with tree_sitter_php's tagged-PHP grammar
/// (`LANGUAGE_PHP`). With a grammar set and neither cancellation nor
/// timeout in use, parsing is deterministic and error-tolerant: it returns
/// a (possibly partial) tree for any input, so the mirrored result is a
/// function of the text alone. An unloadable grammar aborts the process —
/// a build defect, fatal by design.
#[verifier::external_body]
fn parse_php_tagged(code: &str) -> (r: Option<SyntaxNode>)
    ensures
        r == spec_php_tagged_parse(code@),
{
    let mut parser = tree_sitter::Parser::new();
    parser
        .set_language(&tree_sitter_php::LANGUAGE_PHP.into())
        .expect("Error loading PHP parser");
    match parser.parse(code, None) {
        Some(tree) => node_to_syntax(tree.root_node(), code),
        None => None,
    }
}

/// Relies on tree_sitter::Parser::{new, set_language, parse} and
/// Tree::root_node with tree_sitter_php's bare-PHP grammar
/// (`LANGUAGE_PHP_ONLY`), which reads the whole text as PHP code with no
/// `<?php` tag, as the tagged wrapper does otherwise.
#[verifier::external_body]
fn parse_php_only(code: &str) -> (r: Option<SyntaxNode>)
    ensures
        r == spec_php_only_parse(code@),
{
    let mut parser = tree_sitter::Parser::new();
    parser
        .set_language(&tree_sitter_php::LANGUAGE_PHP_ONLY.into())
        .expect("Error loading PHP parser");
    match parser.parse(code, None) {
        Some(tree) => node_to_syntax(tree.root_node(), code),
        None => None,
    }
}

/// Relies on tree_sitter::Parser::{new, set_language, parse} and
/// Tree::root_node with tree_sitter_java's grammar, as the PHP wrappers
/// do.
#[verifier::external_body]
fn parse_java(code: &str) -> (r: Option<SyntaxNode>)
    ensures
        r == spec_java_parse(code@),
{
    let mut parser = tree_sitter::Parser::new();
    parser
        .set_language(&tree_sitter_java::LANGUAGE.into())
        .expect("Error loading Java grammar");
    match parser.parse(code, None) {
        Some(tree) => node_to_syntax(tree.root_node(), code),
        None => None,
    }
}

/// Relies on tree_sitter::Parser::{new, set_language, parse} and
/// Tree::root_node with tree_sitter_ruby's grammar, as the PHP wrappers
/// do.
#[verifier::external_body]
fn parse_ruby(code: &str) -> (r: Option<SyntaxNode>)
    ensures
        r == spec_ruby_parse(code@),
{
    let mut parser = tree_sitter::Parser::new();
    parser
        .set_language(&tree_sitter_ruby::LANGUAGE.into())
        .expect("Error loading Ruby grammar");
    match parser.parse(code, None) {
        Some(tree) => node_to_syntax(tree.root_node(), code),
        None => None,
    }
}

/// Relies on tree_sitter::Node::kind: the node's grammar-kind string.
#[verifier::external_body]
fn node_kind(n: &tree_sitter::Node<'_>) -> (r: String) {
    n.kind().to_string()
}

/// Relies on tree_sitter::Node::is_named.
#[verifier::external_body]
fn node_is_named(n: &tree_sitter::Node<'_>) -> (r: bool) {
    n.is_named()
}

/// Relies on tree_sitter::Node::child_count.
#[verifier::external_body]
fn node_child_count(n: &tree_sitter::Node<'_>) -> (r: usize) {
    n.child_count()
}

/// Relies on tree_sitter::Node::child: the child at the given index, when
/// there is one.
#[verifier::external_body]
fn node_child<'t>(n: &tree_sitter::Node<'t>, i: usize) -> (r: Option<tree_sitter::Node<'t>>) {
    n.child(i)
}

/// Relies on tree_sitter::Node::start_position: the 0-based row on which
/// the node starts.
#[verifier::external_body]
fn node_start_row(n: &tree_sitter::Node<'_>) -> (r: usize) {
    n.start_position().row
}

/// Relies on tree_sitter::Node::byte_range: the node's source text, read
/// from the given text; a span that lies out of range or is not UTF-8
/// yields the empty string.
#[verifier::external_body]
fn node_text(n: &tree_sitter::Node<'_>, code: &str) -> (r: String) {
    match code.as_bytes().get(n.byte_range()) {
        Some(bytes) => core::str::from_utf8(bytes).unwrap_or("").to_string(),
        None => String::new(),
    }
}

struct ConvFrame<'t> {
    node: tree_sitter::Node<'t>,
    kind: String,
    named: bool,
    text: String,
    start_row: usize,
    count: usize,
    next: usize,
    kids: Vec<SyntaxNode>,
}

fn new_frame<'t>(node: tree_sitter::Node<'t>, code: &str) -> ConvFrame<'t> {
    let kind = node_kind(&node);
    let named = node_is_named(&node);
    let text = node_text(&node, code);
    let start_row = node_start_row(&node);
    let count = node_child_count(&node);
    ConvFrame { node, kind, named, text, start_row, count, next: 0, kids: Vec::new() }
}

/// Mirror a parse tree into the library's tree type, iteratively with an
/// explicit frame stack, so that a deep tree cannot exhaust the call
/// stack. The step budget bounds the loop for the termination checker; no
/// real tree comes near it, and a tree that would is not mirrored.
fn node_to_syntax<'t>(root: tree_sitter::Node<'t>, code: &str) -> Option<SyntaxNode> {
    let mut stack: Vec<ConvFrame<'t>> = Vec::new();
    stack.push(new_frame(root, code));
    let mut budget: usize = usize::MAX;
    while budget > 0
        invariant
            stack@.len() >= 1,
        decreases budget,
    {
        budget = budget - 1;
        let mut f = stack.pop().unwrap();
        if f.next < f.count {
            let i = f.next;
            f.next = i + 1;
            let c = node_child(&f.node, i);
            stack.push(f);
            if let Some(cn) = c {
                let frame = new_frame(cn, code);
                stack.push(frame);
            }
        } else {
            let done = SyntaxNode {
                kind: f.kind,
                named: f.named,
                text: f.text,
                start_row: f.start_row,
                children: f.kids,
            };
            if stack.len() == 0 {
                return Some(done);
            }
            let mut parent = stack.pop().unwrap();
            parent.kids.push(done);
            stack.push(parent);
        }
    }
    None
}

/// The mirrored syntax tree of PHP source text: text that carries an
/// opening `<?` tag is read under the tagged-PHP grammar, text without one
/// as bare PHP code.
pub open spec fn spec_php_parse(code: Seq<char>) -> Option<SyntaxNode> {
    if spec_find(code, seq!['<', '?']) is Some {
        spec_php_tagged_parse(code)
    } else {
        spec_php_only_parse(code)
    }
}

fn php_open_tag() -> (r: Vec<char>)
    ensures
        r@ == seq!['<', '?'],
{
    let mut v: Vec<char> = Vec::new();
    v.push('<');
    v.push('?');
    proof {
        assert(v@ =~= seq!['<', '?']);
    }
    v
}

/// The syntax tree of PHP source text, as `spec_php_parse` says.
pub fn php_syntax_tree(code: &str) -> (r: Option<SyntaxNode>)
    ensures
        r == spec_php_parse(code@),
{
    let cs = chars_of(code);
    let tag = php_open_tag();
    if find_sub(&cs, &tag).is_some() {
        parse_php_tagged(code)
    } else {
        parse_php_only(code)
    }
}

/// The syntax tree of Java source text.
pub fn java_syntax_tree(code: &str) -> (r: Option<SyntaxNode>)
    ensures
        r == spec_java_parse(code@),
{
    parse_java(code)
}

/// The syntax tree of Ruby source text.
pub fn ruby_syntax_tree(code: &str) -> (r: Option<SyntaxNode>)
    ensures
        r == spec_ruby_parse(code@),
{
    parse_ruby(code)
}

} // verus!
