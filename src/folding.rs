//! The folding pass: block-like clauses and comments fold from their first
//! line to the line before their last.

use crate::rule::Rule;
use crate::syntax::{node_rule, SyntaxNode};
use vstd::prelude::*;

verus! {

/// A foldable span of lines.
#[derive(Clone, Copy, Debug, PartialEq, Eq, Structural)]
pub struct FoldingRange {
    pub start_line: u32,
    pub end_line: u32,
}

/// The rules that fold: comments and the clauses that indent their body.
pub open spec fn folds(r: Rule) -> bool {
    matches!(
        r,
        Rule::Comment | Rule::AssignClause | Rule::CaseClause | Rule::DefaultClause
            | Rule::ElseClause | Rule::FunctionClause | Rule::IfClause | Rule::ListClause
            | Rule::LocalClause | Rule::MacroClause | Rule::OnClause | Rule::SwitchClause
    )
}

/// The folding range of a node, if it folds: from its first line to the
/// line before its last (0 for a node that ends on the first line).
pub open spec fn node_fold(n: SyntaxNode) -> Option<FoldingRange> {
    if n.is_error || n.is_missing {
        None
    } else {
        match node_rule(n) {
            Some(r) => if folds(r) {
                Some(
                    FoldingRange {
                        start_line: n.start.row as u32,
                        end_line: (if n.end.row > 0 {
                            n.end.row - 1
                        } else {
                            0
                        }) as u32,
                    },
                )
            } else {
                None
            },
            None => None,
        }
    }
}

/// The folding pass: the nodes already folded, by index in the tree.
pub struct FoldingRangeAnalyzer {
    pub folded: Vec<usize>,
}

impl FoldingRangeAnalyzer {
    /// A pass that has folded nothing.
    pub fn new() -> (a: FoldingRangeAnalyzer)
        ensures
            a.folded@.len() == 0,
    {
        FoldingRangeAnalyzer { folded: Vec::new() }
    }

    /// Visits node `index`: appends its folding range to `out` unless that
    /// node was folded already.
    pub fn analyze_node(&mut self, index: usize, n: &SyntaxNode, out: &mut Vec<FoldingRange>)
        ensures
            old(self).folded@.contains(index) ==> final(out)@ == old(out)@ && final(self).folded@
                == old(self).folded@,
            !old(self).folded@.contains(index) ==> match node_fold(*n) {
                Some(f) => final(out)@ == old(out)@.push(f) && final(self).folded@ == old(
                    self,
                ).folded@.push(index),
                None => final(out)@ == old(out)@ && final(self).folded@ == old(self).folded@,
            },
    {
        let mut i: usize = 0;
        while i < self.folded.len()
            invariant
                i <= self.folded@.len(),
                forall|k: int| 0 <= k < i ==> self.folded@[k] != index,
            decreases self.folded@.len() - i,
        {
            if self.folded[i] == index {
                return;
            }
            i += 1;
        }
        if n.is_error || n.is_missing {
            return;
        }
        let rule = match Rule::from_kind(n.kind.as_str()) {
            Some(r) => r,
            None => {
                return;
            },
        };
        let foldable = match rule {
            Rule::Comment | Rule::AssignClause | Rule::CaseClause | Rule::DefaultClause
            | Rule::ElseClause | Rule::FunctionClause | Rule::IfClause | Rule::ListClause
            | Rule::LocalClause | Rule::MacroClause | Rule::OnClause | Rule::SwitchClause => true,
            _ => false,
        };
        if foldable {
            let end_line = if n.end.row > 0 {
                n.end.row - 1
            } else {
                0
            };
            out.push(FoldingRange { start_line: n.start.row as u32, end_line: end_line as u32 });
            self.folded.push(index);
        }
    }
}

} // verus!
