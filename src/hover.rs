//! Hover: documentation of literals and built-ins from the assets, and the
//! definition line of a macro namespace.

use crate::analysis::{symbols_named, AnalysisView};
use crate::assets::{hover_catalog, hover_lookup, hover_markdown};
use crate::diagnosis::{node_range, node_text, range_of, text_of};
use crate::reactor::Reactor;
use crate::rule::{rule_name, Rule};
use crate::syntax::{deepest_at, node_rule, SyntaxNode};
use crate::text::{Point, Range};
use crate::utils::{ftl_code, ftl_to_rust, line_of, line_text};
use vstd::prelude::*;

verus! {

/// What a hover shows.
#[derive(Clone, Debug)]
pub enum HoverContent {
    /// Markdown text.
    Markdown(String),
    /// A line of code.
    Code(String),
}

/// A hover: its content and the range of the node it is about.
#[derive(Clone, Debug)]
pub struct HoverInfo {
    pub content: HoverContent,
    pub range: Range,
}

/// What a hover shows, as a mathematical value.
pub enum HoverContentView {
    Markdown(Seq<char>),
    Code(Seq<char>),
}

impl View for HoverInfo {
    type V = (HoverContentView, Range);

    open spec fn view(&self) -> (HoverContentView, Range) {
        (
            match self.content {
                HoverContent::Markdown(m) => HoverContentView::Markdown(m@),
                HoverContent::Code(c) => HoverContentView::Code(c@),
            },
            self.range,
        )
    }
}

/// The hover on node `n`: a literal's type documentation, a built-in's
/// documentation, or the definition line of a macro namespace as code.
pub open spec fn hover_of(s: Seq<char>, a: AnalysisView, n: SyntaxNode) -> Option<(HoverContentView, Range)> {
    match node_rule(n) {
        Some(r) => if r == Rule::Number || r == Rule::StringLiteral || r == Rule::BooleanTrue || r
            == Rule::BooleanFalse {
            let key = if r == Rule::BooleanTrue || r == Rule::BooleanFalse {
                "boolean"@
            } else {
                rule_name(r)
            };
            match hover_lookup(hover_catalog(), "types"@, key) {
                Some(m) => Some((HoverContentView::Markdown(m), node_range(n))),
                None => None,
            }
        } else if r == Rule::BuiltinName {
            match hover_lookup(hover_catalog(), "built-in"@, node_text(s, n)) {
                Some(m) => Some((HoverContentView::Markdown(m), node_range(n))),
                None => None,
            }
        } else if r == Rule::MacroNamespace {
            let defs = symbols_named(a.symbols, node_text(s, n));
            if defs.len() > 0 {
                Some(
                    (
                        HoverContentView::Code(ftl_code(line_text(s, defs[0].range.start.line as nat))),
                        node_range(n),
                    ),
                )
            } else {
                None
            }
        } else {
            None
        },
        None => None,
    }
}

/// The hover at point `p`: that of the deepest named node there.
pub fn hover_at(reactor: &Reactor, p: Point) -> (r: Option<HoverInfo>)
    ensures
        match deepest_at(reactor@.nodes, p, reactor@.nodes.len() as int) {
            Some(i) => match hover_of(reactor@.text, reactor@.analysis, reactor@.nodes[i]) {
                Some(h) => r matches Some(x) && x@ == h,
                None => r is None,
            },
            None => r is None,
        },
{
    let tree = reactor.get_tree();
    let doc = reactor.get_document();
    let i = match tree.node_at(p) {
        Some(i) => i,
        None => {
            return None;
        },
    };
    let n = &tree.nodes[i];
    let rule = match Rule::from_kind(n.kind.as_str()) {
        Some(r) => r,
        None => {
            return None;
        },
    };
    match rule {
        Rule::Number | Rule::StringLiteral | Rule::BooleanTrue | Rule::BooleanFalse => {
            let key = match rule {
                Rule::BooleanTrue | Rule::BooleanFalse => "boolean",
                _ => rule.name(),
            };
            match hover_markdown("types", key) {
                Some(m) => Some(HoverInfo { content: HoverContent::Markdown(m), range: range_of(n) }),
                None => None,
            }
        },
        Rule::BuiltinName => {
            let name = text_of(doc, n);
            match hover_markdown("built-in", name.as_str()) {
                Some(m) => Some(HoverInfo { content: HoverContent::Markdown(m), range: range_of(n) }),
                None => None,
            }
        },
        Rule::MacroNamespace => {
            let name = text_of(doc, n);
            match reactor.get_analysis().find_symbol_definition(name.as_str()) {
                Ok(defs) => {
                    let line = line_of(doc, defs[0].range.start.line as usize);
                    Some(
                        HoverInfo {
                            content: HoverContent::Code(ftl_to_rust(line.as_str())),
                            range: range_of(n),
                        },
                    )
                },
                Err(_) => None,
            }
        },
        _ => None,
    }
}

} // verus!
