//! Collection of every comment node's text below a node, in pre-order.

use vstd::prelude::*;
use crate::parser::syntax_tree::SyntaxNode;

verus! {

/// The texts of the comment nodes of the subtrees of `n.children[j..]`.
pub open spec fn comments_from(n: SyntaxNode, j: int) -> Seq<Seq<char>>
    decreases n, n.children.len() - j,
    when 0 <= j
{
    if j >= n.children.len() {
        Seq::empty()
    } else {
        comments_in(n.children[j]) + comments_from(n, j + 1)
    }
}

/// The texts of the comment nodes of the subtree rooted at `n`, in
/// pre-order: `n` itself first, then its children's subtrees in order.
pub open spec fn comments_in(n: SyntaxNode) -> Seq<Seq<char>>
    decreases n, n.children.len() + 1,
{
    let own = if n.kind@ == "comment"@ {
        seq![n.text@]
    } else {
        Seq::<Seq<char>>::empty()
    };
    own + comments_from(n, 0)
}

fn collect_comments(node: &SyntaxNode, comment_kind: &String) -> (r: Vec<String>)
    requires
        comment_kind@ == "comment"@,
    ensures
        r.deep_view() == comments_in(*node),
    decreases *node,
{
    let mut r: Vec<String> = Vec::new();
    if node.kind.eq(comment_kind) {
        r.push(node.text.clone());
    }
    proof {
        assert(r.deep_view() =~~= if node.kind@ == "comment"@ {
            seq![node.text@]
        } else {
            Seq::<Seq<char>>::empty()
        });
    }
    let ghost own = r.deep_view();
    let n_children = node.children.len();
    let mut j: usize = 0;
    while j < n_children
        invariant
            j <= n_children,
            n_children == node.children@.len(),
            comment_kind@ == "comment"@,
            r.deep_view() + comments_from(*node, j as int) =~~= own + comments_from(*node, 0),
        decreases n_children - j,
    {
        let ghost prev = r.deep_view();
        let child = &node.children[j];
        proof {
            assert(decreases_to!(*node => node.children));
            assert(decreases_to!(node.children => node.children@[j as int]));
            assert(decreases_to!(*node => node.children@[j as int]));
        }
        let mut sub = collect_comments(child, comment_kind);
        r.append(&mut sub);
        proof {
            assert(r.deep_view() =~~= prev + comments_in(node.children@[j as int]));
        }
        j = j + 1;
    }
    proof {
        assert(r.deep_view() =~~= comments_in(*node));
    }
    r
}

/// Every comment node's text below `node` (and of `node` itself), in
/// pre-order.
pub fn comment_node_collect(node: &SyntaxNode) -> (r: Vec<String>)
    ensures
        r.deep_view() == comments_in(*node),
{
    let comment_kind = "comment".to_owned();
    collect_comments(node, &comment_kind)
}

} // verus!
