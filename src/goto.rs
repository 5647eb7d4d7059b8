//! Go to definition: from the node under the cursor to the file that an
//! import names, or to the place where a macro namespace is defined.

use crate::analysis::AnalysisView;
use crate::diagnosis::{node_text, text_of};
use crate::reactor::Reactor;
use crate::rule::Rule;
use crate::symbol::{
    find_first_symbol, first_symbol, lookup_text, unquote, unquoted, ImportMacro,
};
use crate::syntax::{deepest_at, node_rule, SyntaxNode};
use crate::text::{Point, Range};
use vstd::prelude::*;

verus! {

/// Where a definition is.
#[derive(Clone, Debug)]
pub enum Definition {
    /// A file that an import resolved to, by its canonical path.
    File(String),
    /// The file of a valid import, by its literal path, relative to the
    /// document's directory unless absolute.
    Import(String),
    /// A range of this document.
    Here(Range),
}

/// A definition as a mathematical value.
pub enum DefinitionView {
    File(Seq<char>),
    Import(Seq<char>),
    Here(Range),
}

impl View for Definition {
    type V = DefinitionView;

    open spec fn view(&self) -> DefinitionView {
        match self {
            Definition::File(p) => DefinitionView::File(p@),
            Definition::Import(p) => DefinitionView::Import(p@),
            Definition::Here(r) => DefinitionView::Here(*r),
        }
    }
}

/// The first import whose alias lies at `r`.
pub open spec fn import_with_alias(imports: Seq<(Range, Seq<char>, Range, bool)>, r: Range) -> Option<
    (Range, Seq<char>, Range, bool),
>
    decreases imports.len(),
{
    if imports.len() == 0 {
        None
    } else if imports[0].0 == r {
        Some(imports[0])
    } else {
        import_with_alias(imports.skip(1), r)
    }
}

/// The definition of what the node `n` names.
pub open spec fn definition_of(s: Seq<char>, a: AnalysisView, n: SyntaxNode) -> Option<DefinitionView> {
    if n.is_error || n.is_missing {
        None
    } else {
        match node_rule(n) {
            Some(Rule::ImportPath) => match lookup_text(a.resolved, unquote(node_text(s, n))) {
                Some(c) => Some(DefinitionView::File(c)),
                None => None,
            },
            Some(Rule::MacroNamespace) => match first_symbol(a.symbols, node_text(s, n)) {
                None => None,
                Some(f) => if f.rule == Rule::ImportAlias {
                    match import_with_alias(a.imports, f.range) {
                        Some(im) => if im.3 {
                            Some(DefinitionView::Import(im.1))
                        } else {
                            Some(DefinitionView::Here(im.0))
                        },
                        None => Some(DefinitionView::Here(f.range)),
                    }
                } else {
                    Some(DefinitionView::Here(f.range))
                },
            },
            _ => None,
        }
    }
}

/// The first import whose alias lies at `r`.
pub fn find_import_by_alias(imports: &Vec<ImportMacro>, r: Range) -> (k: Option<usize>)
    ensures
        k matches Some(i) ==> i < imports@.len() && import_with_alias(
            imports@.map_values(|e: ImportMacro| e@),
            r,
        ) == Some(imports@[i as int]@),
        k is None ==> import_with_alias(imports@.map_values(|e: ImportMacro| e@), r) is None,
{
    let ghost v = imports@.map_values(|e: ImportMacro| e@);
    assert(v.skip(0) =~= v);
    let mut i: usize = 0;
    while i < imports.len()
        invariant
            i <= imports@.len(),
            v == imports@.map_values(|e: ImportMacro| e@),
            import_with_alias(v, r) == import_with_alias(v.skip(i as int), r),
        decreases imports@.len() - i,
    {
        assert(v.skip(i as int).skip(1) =~= v.skip(i + 1));
        if imports[i].alias_range == r {
            return Some(i);
        }
        i += 1;
    }
    None
}

/// The definition of what the cursor at `p` names: a resolved import path
/// leads to its file; a macro namespace to its local definition, to the
/// file of its valid import, or to the alias of an import that is not.
pub fn definition_at(reactor: &Reactor, p: Point) -> (r: Option<Definition>)
    ensures
        match deepest_at(reactor@.nodes, p, reactor@.nodes.len() as int) {
            Some(i) => match definition_of(reactor@.text, reactor@.analysis, reactor@.nodes[i]) {
                Some(d) => r matches Some(x) && x@ == d,
                None => r is None,
            },
            None => r is None,
        },
{
    let tree = reactor.get_tree();
    let doc = reactor.get_document();
    let analysis = reactor.get_analysis();
    let i = match tree.node_at(p) {
        Some(i) => i,
        None => {
            return None;
        },
    };
    let n = &tree.nodes[i];
    if n.is_error || n.is_missing {
        return None;
    }
    match Rule::from_kind(n.kind.as_str()) {
        Some(Rule::ImportPath) => {
            let literal = unquoted(doc, n);
            match analysis.get_valid_import(literal.as_str()) {
                Some(c) => Some(Definition::File(c)),
                None => None,
            }
        },
        Some(Rule::MacroNamespace) => {
            let name = text_of(doc, n);
            match find_first_symbol(analysis.symbols(), &name) {
                None => None,
                Some(f) => {
                    if f.rule == Rule::ImportAlias {
                        let imports = analysis.imports();
                        match find_import_by_alias(imports, f.range) {
                            Some(k) => {
                                if imports[k].path_valid {
                                    Some(Definition::Import(imports[k].path.clone()))
                                } else {
                                    Some(Definition::Here(imports[k].alias_range))
                                }
                            },
                            None => Some(Definition::Here(f.range)),
                        }
                    } else {
                        Some(Definition::Here(f.range))
                    }
                },
            }
        },
        _ => None,
    }
}

} // verus!
