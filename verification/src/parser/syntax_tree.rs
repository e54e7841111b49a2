//! The library's own representation of a parsed syntax tree.
//!
//! A `SyntaxNode` holds, as plain values, exactly what the extraction
//! pipeline reads from a parse: the node-kind string, whether the node is
//! named in the grammar, its source text, the 0-based row on which it
//! starts, and its children in source order. Every traversal in the
//! library is verified against this type; only the construction of a tree
//! from a grammar's parse is taken on trust.

use vstd::prelude::*;

verus! {

/// One node of a parsed syntax tree, children in source order.
pub struct SyntaxNode {
    pub kind: String,
    pub named: bool,
    pub text: String,
    pub start_row: usize,
    pub children: Vec<SyntaxNode>,
}

} // verus!
