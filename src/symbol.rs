//! The symbol pass: macro definitions and import statements fill a
//! name-keyed symbol table in order of appearance, imports are checked
//! against the resolution of their paths, and macro call sites are gathered
//! for the check against the finished table.

use crate::diagnosis::{
    node_range, node_text, range_of, scenario_diagnostic, scenario_view, text_of, Diagnostic,
    DiagnosticView, RelatedKind, RelatedLocation, Scenario,
};
use crate::rule::Rule;
use crate::syntax::{node_rule, SyntaxNode, SyntaxTree};
use crate::text::{Range, TextDocument};
use vstd::prelude::*;

verus! {

/// One occurrence of a name: the rule of the node that holds it, its bytes
/// and its range.
#[derive(Clone, Copy, Debug, PartialEq, Eq, Structural)]
pub struct Symbol {
    pub rule: Rule,
    pub start_byte: usize,
    pub end_byte: usize,
    pub range: Range,
}

/// A symbol under its name.
#[derive(Clone, Debug)]
pub struct SymbolEntry {
    pub name: String,
    pub symbol: Symbol,
}

impl View for SymbolEntry {
    type V = (Seq<char>, Symbol);

    open spec fn view(&self) -> (Seq<char>, Symbol) {
        (self.name@, self.symbol)
    }
}

/// What the file system says of an import path.
#[derive(Clone, Copy, Debug, PartialEq, Eq, Structural)]
pub enum PathStatus {
    /// Nothing is there.
    Missing,
    /// Something is there, but not a file.
    NotAFile,
    /// A file, whose canonical path comes with the status.
    File,
}

/// How an import's literal path resolved: its status and, for a file, its
/// canonical absolute path.
#[derive(Clone, Debug)]
pub struct ResolvedImport {
    pub literal: String,
    pub status: PathStatus,
    pub canonical: String,
}

impl View for ResolvedImport {
    type V = (Seq<char>, PathStatus, Seq<char>);

    open spec fn view(&self) -> (Seq<char>, PathStatus, Seq<char>) {
        (self.literal@, self.status, self.canonical@)
    }
}

/// An import statement as recorded.
#[derive(Clone, Debug)]
pub struct ImportMacro {
    pub alias_range: Range,
    pub path: String,
    pub path_range: Range,
    pub path_valid: bool,
}

impl View for ImportMacro {
    type V = (Range, Seq<char>, Range, bool);

    open spec fn view(&self) -> (Range, Seq<char>, Range, bool) {
        (self.alias_range, self.path@, self.path_range, self.path_valid)
    }
}

/// A pair of strings: a key and its value.
#[derive(Clone, Debug)]
pub struct TextPair {
    pub key: String,
    pub value: String,
}

impl View for TextPair {
    type V = (Seq<char>, Seq<char>);

    open spec fn view(&self) -> (Seq<char>, Seq<char>) {
        (self.key@, self.value@)
    }
}

/// A string and a range.
#[derive(Clone, Debug)]
pub struct RangedText {
    pub text: String,
    pub range: Range,
}

impl View for RangedText {
    type V = (Seq<char>, Range);

    open spec fn view(&self) -> (Seq<char>, Range) {
        (self.text@, self.range)
    }
}

/// The first symbol recorded under `name`.
pub open spec fn first_symbol(entries: Seq<(Seq<char>, Symbol)>, name: Seq<char>) -> Option<Symbol>
    decreases entries.len(),
{
    if entries.len() == 0 {
        None
    } else if entries[0].0 == name {
        Some(entries[0].1)
    } else {
        first_symbol(entries.skip(1), name)
    }
}

/// The value of the first pair whose key is `key`.
pub open spec fn lookup_text(pairs: Seq<(Seq<char>, Seq<char>)>, key: Seq<char>) -> Option<Seq<char>>
    decreases pairs.len(),
{
    if pairs.len() == 0 {
        None
    } else if pairs[0].0 == key {
        Some(pairs[0].1)
    } else {
        lookup_text(pairs.skip(1), key)
    }
}

/// The range of the first entry whose text is `text`.
pub open spec fn lookup_range(entries: Seq<(Seq<char>, Range)>, text: Seq<char>) -> Option<Range>
    decreases entries.len(),
{
    if entries.len() == 0 {
        None
    } else if entries[0].0 == text {
        Some(entries[0].1)
    } else {
        lookup_range(entries.skip(1), text)
    }
}

/// The status and canonical path of a literal: the first resolution for
/// it, or a missing path when the table has none.
pub open spec fn resolution_of(table: Seq<(Seq<char>, PathStatus, Seq<char>)>, literal: Seq<char>) -> (
    PathStatus,
    Seq<char>,
)
    decreases table.len(),
{
    if table.len() == 0 {
        (PathStatus::Missing, Seq::empty())
    } else if table[0].0 == literal {
        (table[0].1, table[0].2)
    } else {
        resolution_of(table.skip(1), literal)
    }
}

/// The index of the first node of rule `r` among nodes `j..end`.
pub open spec fn find_rule(nodes: Seq<SyntaxNode>, j: int, end: int, r: Rule) -> Option<int>
    decreases end - j,
{
    if j >= end || j < 0 || j >= nodes.len() {
        None
    } else if node_rule(nodes[j]) == Some(r) {
        Some(j)
    } else {
        find_rule(nodes, j + 1, end, r)
    }
}

/// The text of an import path without its quotes.
pub open spec fn unquote(t: Seq<char>) -> Seq<char> {
    if t.len() >= 2 {
        t.subrange(1, t.len() - 1)
    } else {
        Seq::empty()
    }
}

/// The symbol pass's tables, diagnostics and call sites so far.
pub struct SymbolState {
    pub symbols: Seq<(Seq<char>, Symbol)>,
    pub imports: Seq<(Range, Seq<char>, Range, bool)>,
    pub paths: Seq<(Seq<char>, Range)>,
    pub resolved: Seq<(Seq<char>, Seq<char>)>,
    pub calls: Seq<(Seq<char>, Range)>,
    pub diags: Seq<DiagnosticView>,
}

/// The diagnostic, if any, for a name that is defined again: at the new
/// occurrence, pointing at the first.
pub open spec fn redefinition(symbols: Seq<(Seq<char>, Symbol)>, name: Seq<char>, range: Range) -> Seq<
    DiagnosticView,
> {
    match first_symbol(symbols, name) {
        Some(f) => seq![
            scenario_view(
                Scenario::ImportNamespaceDuplicated,
                range,
                Some(RelatedLocation { range: f.range, kind: RelatedKind::FirstDefined }),
            ),
        ],
        None => Seq::empty(),
    }
}

/// The diagnostics of an import's path: missing or not a file; a file that
/// is the document itself; a file imported before.
pub open spec fn path_diagnostics(
    st: SymbolState,
    self_path: Seq<char>,
    status: PathStatus,
    canonical: Seq<char>,
    path_range: Range,
) -> Seq<DiagnosticView> {
    match status {
        PathStatus::Missing => seq![scenario_view(Scenario::ImportPathNotExist, path_range, None)],
        PathStatus::NotAFile => seq![scenario_view(Scenario::ImportPathNotFile, path_range, None)],
        PathStatus::File => (if canonical == self_path {
            seq![scenario_view(Scenario::SelfImport, path_range, None)]
        } else {
            Seq::empty()
        }) + match lookup_range(st.paths, canonical) {
            Some(r0) => seq![
                scenario_view(
                    Scenario::ImportPathDuplicated,
                    path_range,
                    Some(RelatedLocation { range: r0, kind: RelatedKind::FirstImported }),
                ),
            ],
            None => Seq::empty(),
        },
    }
}

/// The symbol pass on an import statement whose path and alias nodes are
/// `p` and `a`.
pub open spec fn import_step(
    s: Seq<char>,
    table: Seq<(Seq<char>, PathStatus, Seq<char>)>,
    self_path: Seq<char>,
    st: SymbolState,
    p: SyntaxNode,
    a: SyntaxNode,
) -> SymbolState {
    let literal = unquote(node_text(s, p));
    let alias = node_text(s, a);
    let path_range = node_range(p);
    let alias_range = node_range(a);
    let (status, canonical) = resolution_of(table, literal);
    let is_file = status == PathStatus::File;
    SymbolState {
        symbols: st.symbols.push(
            (
                alias,
                Symbol {
                    rule: Rule::ImportAlias,
                    start_byte: a.start_byte,
                    end_byte: a.end_byte,
                    range: alias_range,
                },
            ),
        ),
        imports: st.imports.push((alias_range, literal, path_range, is_file)),
        paths: if is_file && lookup_range(st.paths, canonical) is None {
            st.paths.push((canonical, path_range))
        } else {
            st.paths
        },
        resolved: if is_file && canonical != self_path && lookup_text(st.resolved, literal) is None {
            st.resolved.push((literal, canonical))
        } else {
            st.resolved
        },
        calls: st.calls,
        diags: st.diags + path_diagnostics(st, self_path, status, canonical, path_range)
            + redefinition(st.symbols, alias, alias_range),
    }
}

/// The symbol pass on node `i` of a tree.
pub open spec fn symbol_step(
    s: Seq<char>,
    nodes: Seq<SyntaxNode>,
    i: int,
    table: Seq<(Seq<char>, PathStatus, Seq<char>)>,
    self_path: Seq<char>,
    st: SymbolState,
) -> SymbolState {
    let n = nodes[i];
    if n.is_error || n.is_missing {
        st
    } else {
        match node_rule(n) {
            Some(Rule::MacroName) => {
                let name = node_text(s, n);
                let range = node_range(n);
                SymbolState {
                    symbols: st.symbols.push(
                        (
                            name,
                            Symbol {
                                rule: Rule::MacroName,
                                start_byte: n.start_byte,
                                end_byte: n.end_byte,
                                range,
                            },
                        ),
                    ),
                    diags: st.diags + redefinition(st.symbols, name, range),
                    ..st
                }
            },
            Some(Rule::MacroNamespace) => SymbolState {
                calls: st.calls.push((node_text(s, n), node_range(n))),
                ..st
            },
            Some(Rule::ImportStmt) => {
                let end = n.subtree_end as int;
                match (
                    find_rule(nodes, i + 1, end, Rule::ImportPath),
                    find_rule(nodes, i + 1, end, Rule::ImportAlias),
                ) {
                    (Some(pi), Some(ai)) => import_step(
                        s,
                        table,
                        self_path,
                        st,
                        nodes[pi],
                        nodes[ai],
                    ),
                    _ => st,
                }
            },
            _ => st,
        }
    }
}

/// The symbol pass: its input (the document's own path and the resolution
/// of import paths) and what it has gathered.
pub struct SymbolAnalyzer {
    pub self_path: String,
    pub table: Vec<ResolvedImport>,
    pub symbols: Vec<SymbolEntry>,
    pub import_list: Vec<ImportMacro>,
    pub path_map: Vec<RangedText>,
    pub resolved: Vec<TextPair>,
    pub calls: Vec<RangedText>,
    pub diagnostics: Vec<Diagnostic>,
}

impl SymbolAnalyzer {
    /// What the pass has gathered.
    pub open spec fn state(&self) -> SymbolState {
        SymbolState {
            symbols: self.symbols@.map_values(|e: SymbolEntry| e@),
            imports: self.import_list@.map_values(|e: ImportMacro| e@),
            paths: self.path_map@.map_values(|e: RangedText| e@),
            resolved: self.resolved@.map_values(|e: TextPair| e@),
            calls: self.calls@.map_values(|e: RangedText| e@),
            diags: self.diagnostics@.map_values(|d: Diagnostic| d@),
        }
    }

    /// The resolution table.
    pub open spec fn table_view(&self) -> Seq<(Seq<char>, PathStatus, Seq<char>)> {
        self.table@.map_values(|e: ResolvedImport| e@)
    }

    /// A pass for the document at `self_path` that has gathered nothing.
    pub fn new(self_path: String, table: Vec<ResolvedImport>) -> (a: SymbolAnalyzer)
        ensures
            a.self_path@ == self_path@,
            a.table@ == table@,
            a.state() == (SymbolState {
                symbols: Seq::empty(),
                imports: Seq::empty(),
                paths: Seq::empty(),
                resolved: Seq::empty(),
                calls: Seq::empty(),
                diags: Seq::empty(),
            }),
    {
        let a = SymbolAnalyzer {
            self_path,
            table,
            symbols: Vec::new(),
            import_list: Vec::new(),
            path_map: Vec::new(),
            resolved: Vec::new(),
            calls: Vec::new(),
            diagnostics: Vec::new(),
        };
        proof {
            assert(a.state().symbols =~= Seq::empty());
            assert(a.state().imports =~= Seq::empty());
            assert(a.state().paths =~= Seq::empty());
            assert(a.state().resolved =~= Seq::empty());
            assert(a.state().calls =~= Seq::empty());
            assert(a.state().diags =~= Seq::empty());
        }
        a
    }

    fn push_diagnostic(&mut self, d: Diagnostic)
        ensures
            final(self).state() == (SymbolState {
                diags: old(self).state().diags.push(d@),
                ..old(self).state()
            }),
            final(self).self_path == old(self).self_path,
            final(self).table == old(self).table,
    {
        self.diagnostics.push(d);
        proof {
            assert(self.state().diags =~= old(self).state().diags.push(d@));
        }
    }

    /// Visits an import statement whose path and alias nodes are `p` and `a`.
    pub fn analyze_import(&mut self, doc: &TextDocument, p: &SyntaxNode, a: &SyntaxNode)
        ensures
            final(self).state() == import_step(
                doc@,
                old(self).table_view(),
                old(self).self_path@,
                old(self).state(),
                *p,
                *a,
            ),
            final(self).self_path == old(self).self_path,
            final(self).table == old(self).table,
    {
        let ghost st = self.state();
        let literal = unquoted(doc, p);
        let alias = text_of(doc, a);
        let path_range = range_of(p);
        let alias_range = range_of(a);
        let (status, canonical) = resolve_literal(&self.table, &literal);
        let is_file = status == PathStatus::File;
        let first_import = find_range(&self.path_map, &canonical);
        let first_definition = find_first_symbol(&self.symbols, &alias);
        let already_resolved = find_text(&self.resolved, &literal);
        let is_self = canonical == self.self_path;
        match status {
            PathStatus::Missing => {
                self.push_diagnostic(
                    scenario_diagnostic(Scenario::ImportPathNotExist, path_range, None),
                );
            },
            PathStatus::NotAFile => {
                self.push_diagnostic(
                    scenario_diagnostic(Scenario::ImportPathNotFile, path_range, None),
                );
            },
            PathStatus::File => {
                if is_self {
                    self.push_diagnostic(scenario_diagnostic(Scenario::SelfImport, path_range, None));
                }
                match first_import {
                    Some(r0) => {
                        self.push_diagnostic(
                            scenario_diagnostic(
                                Scenario::ImportPathDuplicated,
                                path_range,
                                Some(RelatedLocation { range: r0, kind: RelatedKind::FirstImported }),
                            ),
                        );
                    },
                    None => {},
                }
            },
        }
        match first_definition {
            Some(f) => {
                self.push_diagnostic(
                    scenario_diagnostic(
                        Scenario::ImportNamespaceDuplicated,
                        alias_range,
                        Some(RelatedLocation { range: f.range, kind: RelatedKind::FirstDefined }),
                    ),
                );
            },
            None => {},
        }
        let ghost mid = self.state();
        assert(mid.diags =~= st.diags + path_diagnostics(
            st,
            self.self_path@,
            status,
            canonical@,
            path_range,
        ) + redefinition(st.symbols, alias@, alias_range));
        let entry = SymbolEntry {
            name: alias,
            symbol: Symbol {
                rule: Rule::ImportAlias,
                start_byte: a.start_byte,
                end_byte: a.end_byte,
                range: alias_range,
            },
        };
        self.symbols.push(entry);
        self.import_list.push(
            ImportMacro { alias_range, path: literal.clone(), path_range, path_valid: is_file },
        );
        if is_file && first_import.is_none() {
            self.path_map.push(RangedText { text: canonical.clone(), range: path_range });
        }
        if is_file && !is_self && already_resolved.is_none() {
            self.resolved.push(TextPair { key: literal, value: canonical });
        }
        proof {
            let r = import_step(doc@, self.table_view(), self.self_path@, st, *p, *a);
            assert(self.state().symbols =~= r.symbols);
            assert(self.state().imports =~= r.imports);
            assert(self.state().paths =~= r.paths);
            assert(self.state().resolved =~= r.resolved);
            assert(self.state().calls =~= r.calls);
            assert(self.state().diags =~= r.diags);
        }
    }

    /// Visits node `i` of the tree.
    pub fn analyze_node(&mut self, doc: &TextDocument, tree: &SyntaxTree, i: usize)
        requires
            i < tree.nodes@.len(),
        ensures
            final(self).state() == symbol_step(
                doc@,
                tree.nodes@,
                i as int,
                old(self).table_view(),
                old(self).self_path@,
                old(self).state(),
            ),
            final(self).self_path == old(self).self_path,
            final(self).table == old(self).table,
    {
        let ghost st = self.state();
        // the length of the tree bounds `i + 1` below
        let _count = tree.nodes.len();
        let n = &tree.nodes[i];
        if n.is_error || n.is_missing {
            return;
        }
        match Rule::from_kind(n.kind.as_str()) {
            Some(Rule::MacroName) => {
                let name = text_of(doc, n);
                let range = range_of(n);
                match find_first_symbol(&self.symbols, &name) {
                    Some(f) => {
                        self.push_diagnostic(
                            scenario_diagnostic(
                                Scenario::ImportNamespaceDuplicated,
                                range,
                                Some(RelatedLocation { range: f.range, kind: RelatedKind::FirstDefined }),
                            ),
                        );
                    },
                    None => {},
                }
                self.symbols.push(
                    SymbolEntry {
                        name,
                        symbol: Symbol {
                            rule: Rule::MacroName,
                            start_byte: n.start_byte,
                            end_byte: n.end_byte,
                            range,
                        },
                    },
                );
                proof {
                    let r = symbol_step(
                        doc@,
                        tree.nodes@,
                        i as int,
                        self.table_view(),
                        self.self_path@,
                        st,
                    );
                    assert(self.state().symbols =~= r.symbols);
                    assert(self.state().diags =~= r.diags);
                }
            },
            Some(Rule::MacroNamespace) => {
                let name = text_of(doc, n);
                self.calls.push(RangedText { text: name, range: range_of(n) });
                proof {
                    assert(self.state().calls =~= st.calls.push((node_text(doc@, *n), node_range(*n))));
                }
            },
            Some(Rule::ImportStmt) => {
                let end = n.subtree_end;
                let pi = find_rule_in(tree, i + 1, end, Rule::ImportPath);
                let ai = find_rule_in(tree, i + 1, end, Rule::ImportAlias);
                match (pi, ai) {
                    (Some(pi), Some(ai)) => {
                        proof {
                            lemma_find_rule_in_range(tree.nodes@, i + 1, end as int, Rule::ImportPath);
                            lemma_find_rule_in_range(tree.nodes@, i + 1, end as int, Rule::ImportAlias);
                        }
                        self.analyze_import(doc, &tree.nodes[pi], &tree.nodes[ai]);
                    },
                    _ => {},
                }
            },
            _ => {},
        }
    }
}

/// A node that `find_rule` returns lies in the tree.
pub proof fn lemma_find_rule_in_range(nodes: Seq<SyntaxNode>, j: int, end: int, r: Rule)
    ensures
        find_rule(nodes, j, end, r) matches Some(k) ==> j <= k < nodes.len(),
    decreases end - j,
{
    if !(j >= end || j < 0 || j >= nodes.len()) && node_rule(nodes[j]) != Some(r) {
        lemma_find_rule_in_range(nodes, j + 1, end, r);
    }
}

/// The literal paths, without quotes, of the import statements among the
/// first `i` nodes, in order.
pub open spec fn import_literals(s: Seq<char>, nodes: Seq<SyntaxNode>, i: nat) -> Seq<Seq<char>>
    decreases i,
{
    if i == 0 || i > nodes.len() {
        Seq::empty()
    } else {
        let rest = import_literals(s, nodes, (i - 1) as nat);
        let n = nodes[i - 1];
        if !n.is_error && !n.is_missing && node_rule(n) == Some(Rule::ImportStmt) {
            match find_rule(nodes, i as int, n.subtree_end as int, Rule::ImportPath) {
                Some(p) => rest.push(unquote(node_text(s, nodes[p]))),
                None => rest,
            }
        } else {
            rest
        }
    }
}

/// The literal paths of a tree's import statements, in order: what the
/// file system must resolve before the symbol pass runs.
pub fn import_paths(doc: &TextDocument, tree: &SyntaxTree) -> (v: Vec<String>)
    ensures
        v@.map_values(|t: String| t@) == import_literals(doc@, tree.nodes@, tree.nodes@.len()),
{
    let mut v: Vec<String> = Vec::new();
    let n = tree.nodes.len();
    let mut i: usize = 0;
    proof {
        assert(v@.map_values(|t: String| t@) =~= Seq::<Seq<char>>::empty());
    }
    while i < n
        invariant
            n == tree.nodes@.len(),
            i <= n,
            v@.map_values(|t: String| t@) == import_literals(doc@, tree.nodes@, i as nat),
        decreases n - i,
    {
        let node = &tree.nodes[i];
        let ghost before = v@;
        if !node.is_error && !node.is_missing && Rule::from_kind(node.kind.as_str()) == Some(
            Rule::ImportStmt,
        ) {
            match find_rule_in(tree, i + 1, node.subtree_end, Rule::ImportPath) {
                Some(p) => {
                    proof {
                        lemma_find_rule_in_range(
                            tree.nodes@,
                            i + 1,
                            node.subtree_end as int,
                            Rule::ImportPath,
                        );
                    }
                    v.push(unquoted(doc, &tree.nodes[p]));
                    proof {
                        assert(v@.map_values(|t: String| t@) =~= before.map_values(
                            |t: String| t@,
                        ).push(v@.last()@));
                    }
                },
                None => {},
            }
        }
        i += 1;
    }
    v
}

pub proof fn lemma_lookup_range_push(entries: Seq<(Seq<char>, Range)>, text: Seq<char>, r: Range)
    requires
        lookup_range(entries, text) is None,
    ensures
        lookup_range(entries.push((text, r)), text) == Some(r),
    decreases entries.len(),
{
    if entries.len() > 0 {
        assert(entries.push((text, r)).skip(1) =~= entries.skip(1).push((text, r)));
        lemma_lookup_range_push(entries.skip(1), text, r);
    }
}

/// Importing the same literal path twice, to a file not imported before,
/// puts a duplicate-import warning on the second import, pointing at the
/// first import's path, and none on the first. `import_step` is what
/// `SymbolAnalyzer::analyze_import` does, so this holds of two calls of it.
pub proof fn lemma_duplicate_import(
    s: Seq<char>,
    table: Seq<(Seq<char>, PathStatus, Seq<char>)>,
    self_path: Seq<char>,
    st: SymbolState,
    first_path: SyntaxNode,
    first_alias: SyntaxNode,
    second_path: SyntaxNode,
    second_alias: SyntaxNode,
)
    requires
        unquote(node_text(s, first_path)) == unquote(node_text(s, second_path)),
        resolution_of(table, unquote(node_text(s, first_path))).0 == PathStatus::File,
        lookup_range(st.paths, resolution_of(table, unquote(node_text(s, first_path))).1) is None,
    ensures
        ({
            let st1 = import_step(s, table, self_path, st, first_path, first_alias);
            let st2 = import_step(s, table, self_path, st1, second_path, second_alias);
            &&& forall|k: int|
                st.diags.len() <= k < st1.diags.len() ==> #[trigger] st1.diags[k].scenario != Some(
                    Scenario::ImportPathDuplicated,
                )
            &&& st2.diags.skip(st1.diags.len() as int).contains(
                scenario_view(
                    Scenario::ImportPathDuplicated,
                    node_range(second_path),
                    Some(RelatedLocation { range: node_range(first_path), kind: RelatedKind::FirstImported }),
                ),
            )
        }),
{
    let lit = unquote(node_text(s, first_path));
    let c = resolution_of(table, lit).1;
    let st1 = import_step(s, table, self_path, st, first_path, first_alias);
    let st2 = import_step(s, table, self_path, st1, second_path, second_alias);
    lemma_lookup_range_push(st.paths, c, node_range(first_path));
    let dup = scenario_view(
        Scenario::ImportPathDuplicated,
        node_range(second_path),
        Some(RelatedLocation { range: node_range(first_path), kind: RelatedKind::FirstImported }),
    );
    let pd2 = path_diagnostics(st1, self_path, PathStatus::File, c, node_range(second_path));
    let tail = st2.diags.skip(st1.diags.len() as int);
    assert(tail =~= pd2 + redefinition(st1.symbols, node_text(s, second_alias), node_range(second_alias)));
    assert(pd2[pd2.len() - 1] == dup);
    assert(tail[pd2.len() - 1] == dup);
}

/// A copy of a resolution table.
pub fn copy_table(table: &Vec<ResolvedImport>) -> (r: Vec<ResolvedImport>)
    ensures
        r@.map_values(|e: ResolvedImport| e@) == table@.map_values(|e: ResolvedImport| e@),
{
    let mut r: Vec<ResolvedImport> = Vec::new();
    let mut i: usize = 0;
    while i < table.len()
        invariant
            i <= table@.len(),
            r@.map_values(|e: ResolvedImport| e@) =~= table@.take(i as int).map_values(
                |e: ResolvedImport| e@,
            ),
        decreases table@.len() - i,
    {
        let e = &table[i];
        let ghost before = r@;
        r.push(
            ResolvedImport {
                literal: e.literal.clone(),
                status: e.status,
                canonical: e.canonical.clone(),
            },
        );
        assert(r@.map_values(|e: ResolvedImport| e@) =~= before.map_values(
            |e: ResolvedImport| e@,
        ).push(table@[i as int]@));
        assert(table@.take(i + 1).map_values(|e: ResolvedImport| e@) =~= table@.take(
            i as int,
        ).map_values(|e: ResolvedImport| e@).push(table@[i as int]@));
        i += 1;
    }
    assert(table@.take(table@.len() as int) =~= table@);
    r
}

/// The first symbol recorded under `name`.
pub fn find_first_symbol(entries: &Vec<SymbolEntry>, name: &String) -> (r: Option<Symbol>)
    ensures
        r == first_symbol(entries@.map_values(|e: SymbolEntry| e@), name@),
{
    let ghost v = entries@.map_values(|e: SymbolEntry| e@);
    assert(v.skip(0) =~= v);
    let mut i: usize = 0;
    while i < entries.len()
        invariant
            i <= entries@.len(),
            v == entries@.map_values(|e: SymbolEntry| e@),
            first_symbol(v, name@) == first_symbol(v.skip(i as int), name@),
        decreases entries@.len() - i,
    {
        assert(v.skip(i as int).skip(1) =~= v.skip(i + 1));
        if entries[i].name == *name {
            return Some(entries[i].symbol);
        }
        i += 1;
    }
    None
}

/// The value of the first pair whose key is `key`.
pub fn find_text(pairs: &Vec<TextPair>, key: &String) -> (r: Option<String>)
    ensures
        r matches Some(v) ==> lookup_text(pairs@.map_values(|e: TextPair| e@), key@) == Some(v@),
        r is None ==> lookup_text(pairs@.map_values(|e: TextPair| e@), key@) is None,
{
    let ghost v = pairs@.map_values(|e: TextPair| e@);
    assert(v.skip(0) =~= v);
    let mut i: usize = 0;
    while i < pairs.len()
        invariant
            i <= pairs@.len(),
            v == pairs@.map_values(|e: TextPair| e@),
            lookup_text(v, key@) == lookup_text(v.skip(i as int), key@),
        decreases pairs@.len() - i,
    {
        assert(v.skip(i as int).skip(1) =~= v.skip(i + 1));
        if pairs[i].key == *key {
            return Some(pairs[i].value.clone());
        }
        i += 1;
    }
    None
}

/// The index of the first pair whose key is `key`.
pub fn find_key_index(pairs: &Vec<TextPair>, key: &String) -> (r: Option<usize>)
    ensures
        r matches Some(i) ==> i < pairs@.len() && pairs@[i as int].key@ == key@ && forall|j: int|
            0 <= j < i ==> #[trigger] pairs@[j].key@ != key@,
        r is None ==> forall|j: int| 0 <= j < pairs@.len() ==> #[trigger] pairs@[j].key@ != key@,
{
    let mut i: usize = 0;
    while i < pairs.len()
        invariant
            i <= pairs@.len(),
            forall|j: int| 0 <= j < i ==> #[trigger] pairs@[j].key@ != key@,
        decreases pairs@.len() - i,
    {
        if pairs[i].key == *key {
            return Some(i);
        }
        i += 1;
    }
    None
}

/// Replacing the value of the first pair under `key` makes `key` look up
/// the new value and leaves every other key as it was.
pub proof fn lemma_lookup_text_update(
    pairs: Seq<(Seq<char>, Seq<char>)>,
    i: int,
    key: Seq<char>,
    value: Seq<char>,
    k: Seq<char>,
)
    requires
        0 <= i < pairs.len(),
        pairs[i].0 == key,
        forall|j: int| 0 <= j < i ==> #[trigger] pairs[j].0 != key,
    ensures
        lookup_text(pairs.update(i, (key, value)), k) == if k == key {
            Some(value)
        } else {
            lookup_text(pairs, k)
        },
    decreases pairs.len(),
{
    let u = pairs.update(i, (key, value));
    if i == 0 {
        assert(u[0] == (key, value));
        assert(u.skip(1) =~= pairs.skip(1));
    } else {
        assert(pairs[0].0 != key);
        assert(u[0] == pairs[0]);
        assert(u.skip(1) =~= pairs.skip(1).update(i - 1, (key, value)));
        assert forall|j: int| 0 <= j < i - 1 implies #[trigger] pairs.skip(1)[j].0 != key by {
            assert(pairs.skip(1)[j] == pairs[j + 1]);
        }
        lemma_lookup_text_update(pairs.skip(1), i - 1, key, value, k);
    }
}

/// Adding a pair under a key that no pair holds makes that key look up the
/// new value and leaves every other key as it was.
pub proof fn lemma_lookup_text_push(
    pairs: Seq<(Seq<char>, Seq<char>)>,
    key: Seq<char>,
    value: Seq<char>,
    k: Seq<char>,
)
    requires
        forall|j: int| 0 <= j < pairs.len() ==> #[trigger] pairs[j].0 != key,
    ensures
        lookup_text(pairs.push((key, value)), k) == if k == key {
            Some(value)
        } else {
            lookup_text(pairs, k)
        },
    decreases pairs.len(),
{
    let u = pairs.push((key, value));
    if pairs.len() > 0 {
        assert(u[0] == pairs[0]);
        assert(pairs[0].0 != key);
        assert(u.skip(1) =~= pairs.skip(1).push((key, value)));
        assert(u.len() > 0);
        assert forall|j: int| 0 <= j < pairs.skip(1).len() implies #[trigger] pairs.skip(1)[j].0
            != key by {
            assert(pairs.skip(1)[j] == pairs[j + 1]);
        }
        lemma_lookup_text_push(pairs.skip(1), key, value, k);
    } else {
        assert(u[0] == (key, value));
        assert(u.skip(1) =~= Seq::<(Seq<char>, Seq<char>)>::empty());
        assert(lookup_text(u.skip(1), k) is None);
        assert(lookup_text(pairs, k) is None);
    }
}

/// The range of the first entry whose text is `text`.
pub fn find_range(entries: &Vec<RangedText>, text: &String) -> (r: Option<Range>)
    ensures
        r == lookup_range(entries@.map_values(|e: RangedText| e@), text@),
{
    let ghost v = entries@.map_values(|e: RangedText| e@);
    assert(v.skip(0) =~= v);
    let mut i: usize = 0;
    while i < entries.len()
        invariant
            i <= entries@.len(),
            v == entries@.map_values(|e: RangedText| e@),
            lookup_range(v, text@) == lookup_range(v.skip(i as int), text@),
        decreases entries@.len() - i,
    {
        assert(v.skip(i as int).skip(1) =~= v.skip(i + 1));
        if entries[i].text == *text {
            return Some(entries[i].range);
        }
        i += 1;
    }
    None
}

/// The resolution of a literal path: the first for it in the table, or a
/// missing path.
pub fn resolve_literal(table: &Vec<ResolvedImport>, literal: &String) -> (r: (PathStatus, String))
    ensures
        (r.0, r.1@) == resolution_of(table@.map_values(|e: ResolvedImport| e@), literal@),
{
    let ghost v = table@.map_values(|e: ResolvedImport| e@);
    assert(v.skip(0) =~= v);
    let mut i: usize = 0;
    while i < table.len()
        invariant
            i <= table@.len(),
            v == table@.map_values(|e: ResolvedImport| e@),
            resolution_of(v, literal@) == resolution_of(v.skip(i as int), literal@),
        decreases table@.len() - i,
    {
        assert(v.skip(i as int).skip(1) =~= v.skip(i + 1));
        if table[i].literal == *literal {
            return (table[i].status, table[i].canonical.clone());
        }
        i += 1;
    }
    (PathStatus::Missing, String::new())
}

/// The index of the first node of rule `r` among nodes `from..end`.
pub fn find_rule_in(tree: &SyntaxTree, from: usize, end: usize, r: Rule) -> (k: Option<usize>)
    ensures
        k matches Some(j) ==> find_rule(tree.nodes@, from as int, end as int, r) == Some(j as int),
        k is None ==> find_rule(tree.nodes@, from as int, end as int, r) is None,
{
    let mut j = from;
    while j < end && j < tree.nodes.len()
        invariant
            from <= j,
            find_rule(tree.nodes@, from as int, end as int, r) == find_rule(
                tree.nodes@,
                j as int,
                end as int,
                r,
            ),
        decreases end - j,
    {
        if Rule::from_kind(tree.nodes[j].kind.as_str()) == Some(r) {
            return Some(j);
        }
        j += 1;
    }
    None
}

/// The text of an import path without its quotes.
pub fn unquoted(doc: &TextDocument, n: &SyntaxNode) -> (t: String)
    ensures
        t@ == unquote(node_text(doc@, *n)),
{
    let quoted = text_of(doc, n);
    let len = quoted.as_str().unicode_len();
    if len >= 2 {
        quoted.as_str().substring_char(1, len - 1).to_owned()
    } else {
        String::new()
    }
}

} // verus!
