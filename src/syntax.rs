//! A syntax tree held as an arena of nodes in depth-first pre-order: each
//! node comes before its descendants, which fill the indices up to its
//! `subtree_end`.

use crate::rule::{rule_of_kind, Rule};
use crate::text::Point;
use vstd::prelude::*;

verus! {

/// One node of a syntax tree.
#[derive(Clone, Debug)]
pub struct SyntaxNode {
    /// The grammar kind of the node, as the parser names it.
    pub kind: String,
    /// The node is named in the grammar (not an anonymous token).
    pub is_named: bool,
    /// The parser could not make sense of this text.
    pub is_error: bool,
    /// The parser inserted this node where the text lacked it.
    pub is_missing: bool,
    pub start_byte: usize,
    pub end_byte: usize,
    pub start: Point,
    pub end: Point,
    /// One past the index of the node's last descendant.
    pub subtree_end: usize,
}

/// The rule of a node, if its kind is one that the analysis knows.
pub open spec fn node_rule(n: SyntaxNode) -> Option<Rule> {
    rule_of_kind(n.kind@)
}

/// `a` comes at or before `b`, row first.
pub open spec fn point_le(a: Point, b: Point) -> bool {
    a.row < b.row || (a.row == b.row && a.column <= b.column)
}

/// Node `n` covers point `p`.
pub open spec fn covers(n: SyntaxNode, p: Point) -> bool {
    point_le(n.start, p) && point_le(p, n.end)
}

/// The last named node before index `i` in pre-order that covers `p`.
pub open spec fn deepest_at(nodes: Seq<SyntaxNode>, p: Point, i: int) -> Option<int>
    decreases i,
{
    if i <= 0 || i > nodes.len() {
        None
    } else if nodes[i - 1].is_named && covers(nodes[i - 1], p) {
        Some(i - 1)
    } else {
        deepest_at(nodes, p, i - 1)
    }
}

/// A syntax tree in pre-order.
#[derive(Clone, Debug)]
pub struct SyntaxTree {
    pub nodes: Vec<SyntaxNode>,
}

impl SyntaxTree {
    /// Every subtree ends within the tree and after its root, and the
    /// subtrees of descendants end within their ancestor's.
    pub open spec fn wf(&self) -> bool {
        &&& forall|i: int|
            0 <= i < self.nodes@.len() ==> i < #[trigger] self.nodes@[i].subtree_end
                <= self.nodes@.len()
        &&& forall|i: int, j: int|
            0 <= i < j < self.nodes@[i].subtree_end && j < self.nodes@.len()
                ==> #[trigger] self.nodes@[j].subtree_end <= #[trigger] self.nodes@[i].subtree_end
    }

    /// An empty tree.
    pub fn empty() -> (t: SyntaxTree)
        ensures
            t.wf(),
            t.nodes@.len() == 0,
    {
        SyntaxTree { nodes: Vec::new() }
    }

    /// Checks the shape that `wf` describes.
    pub fn check(&self) -> (ok: bool)
        ensures
            ok == self.wf(),
    {
        let n = self.nodes.len();
        let mut i: usize = 0;
        while i < n
            invariant
                n == self.nodes@.len(),
                i <= n,
                forall|k: int|
                    0 <= k < i ==> k < #[trigger] self.nodes@[k].subtree_end <= self.nodes@.len(),
                forall|k: int, j: int|
                    0 <= k < i && k < j < self.nodes@[k].subtree_end && j < self.nodes@.len()
                        ==> #[trigger] self.nodes@[j].subtree_end
                        <= #[trigger] self.nodes@[k].subtree_end,
            decreases n - i,
        {
            let end = self.nodes[i].subtree_end;
            if end <= i || end > n {
                return false;
            }
            let mut j: usize = i + 1;
            while j < end
                invariant
                    n == self.nodes@.len(),
                    i < n,
                    end == self.nodes@[i as int].subtree_end,
                    i < end <= n,
                    i + 1 <= j <= end,
                    forall|m: int|
                        i < m < j ==> #[trigger] self.nodes@[m].subtree_end <= end,
                decreases end - j,
            {
                if self.nodes[j].subtree_end > end {
                    assert(i < j < self.nodes@[i as int].subtree_end);
                    return false;
                }
                j += 1;
            }
            i += 1;
        }
        true
    }

    /// The last named node in pre-order that covers `p`: the deepest one.
    pub fn node_at(&self, p: Point) -> (r: Option<usize>)
        ensures
            r matches Some(i) ==> deepest_at(self.nodes@, p, self.nodes@.len() as int) == Some(
                i as int,
            ),
            r is None ==> deepest_at(self.nodes@, p, self.nodes@.len() as int) is None,
            r matches Some(i) ==> i < self.nodes@.len() && self.nodes@[i as int].is_named
                && covers(self.nodes@[i as int], p) && forall|j: int|
                i < j < self.nodes@.len() ==> !(#[trigger] self.nodes@[j].is_named && covers(
                    self.nodes@[j],
                    p,
                )),
            r is None ==> forall|j: int|
                0 <= j < self.nodes@.len() ==> !(#[trigger] self.nodes@[j].is_named && covers(
                    self.nodes@[j],
                    p,
                )),
    {
        let n = self.nodes.len();
        let mut i: usize = n;
        while i > 0
            invariant
                n == self.nodes@.len(),
                i <= n,
                deepest_at(self.nodes@, p, n as int) == deepest_at(self.nodes@, p, i as int),
                forall|j: int|
                    i <= j < n ==> !(#[trigger] self.nodes@[j].is_named && covers(
                        self.nodes@[j],
                        p,
                    )),
            decreases i,
        {
            let k = i - 1;
            let node = &self.nodes[k];
            let starts_before = node.start.row < p.row || (node.start.row == p.row
                && node.start.column <= p.column);
            let ends_after = p.row < node.end.row || (p.row == node.end.row && p.column
                <= node.end.column);
            if node.is_named && starts_before && ends_after {
                return Some(k);
            }
            i = k;
        }
        None
    }
}

} // verus!
