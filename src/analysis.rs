//! The analysis pipeline: one pre-order walk over the tree drives the
//! token, folding, symbol and diagnostic passes; a post-pass then checks
//! every macro call site against the finished symbol table.

use crate::diagnosis::{
    node_diagnostic, node_range, node_text, scenario_diagnostic, scenario_severity,
    scenario_view, scope_after, Diagnostic, DiagnosticAnalyzer, DiagnosticView, RelatedKind,
    RelatedLocation, Scenario, Severity,
};
use crate::folding::{node_fold, FoldingRange, FoldingRangeAnalyzer};
use crate::goto::{find_import_by_alias, import_with_alias};
use crate::rule::Rule;
use crate::symbol::{
    find_first_symbol, find_key_index, find_text, first_symbol, lemma_lookup_text_push,
    lemma_lookup_text_update, lookup_text, find_rule, resolution_of, symbol_step, unquote, ImportMacro, PathStatus,
    RangedText, ResolvedImport, Symbol, SymbolAnalyzer, SymbolEntry, SymbolState, TextPair,
};
use crate::syntax::{node_rule, point_le, SyntaxNode, SyntaxTree};
use crate::text::{line_bytes, Point, Range, TextDocument};
use crate::tokenizer::{
    node_tokens, token_class, token_step, SemanticToken, SemanticTokenAnalyzer, TokenState,
};
use vstd::prelude::*;

verus! {

/// A name that the symbol table does not hold.
#[derive(Clone, Debug)]
pub enum AnalysisError {
    Undefined(String),
}

/// The state of all passes after some nodes.
pub struct PassesState {
    pub tokens: TokenState,
    pub scope: Seq<Rule>,
    pub diags: Seq<DiagnosticView>,
    pub folding: Seq<FoldingRange>,
    pub symbols: SymbolState,
}

/// A present value as a one-element sequence, an absent one as empty.
pub open spec fn opt_seq<T>(o: Option<T>) -> Seq<T> {
    match o {
        Some(x) => seq![x],
        None => Seq::empty(),
    }
}

/// The state of all passes after the first `i` nodes in pre-order.
pub open spec fn passes(
    s: Seq<char>,
    nodes: Seq<SyntaxNode>,
    table: Seq<(Seq<char>, PathStatus, Seq<char>)>,
    self_path: Seq<char>,
    i: nat,
) -> PassesState
    decreases i,
{
    if i == 0 {
        PassesState {
            tokens: TokenState { tokens: Seq::empty(), prev: Point { row: 0, column: 0 } },
            scope: Seq::empty(),
            diags: Seq::empty(),
            folding: Seq::empty(),
            symbols: SymbolState {
                symbols: Seq::empty(),
                imports: Seq::empty(),
                paths: Seq::empty(),
                resolved: Seq::empty(),
                calls: Seq::empty(),
                diags: Seq::empty(),
            },
        }
    } else {
        let p = passes(s, nodes, table, self_path, (i - 1) as nat);
        let n = nodes[i - 1];
        PassesState {
            tokens: token_step(s, p.tokens, n),
            scope: scope_after(p.scope, n),
            diags: p.diags + opt_seq(node_diagnostic(s, p.scope, n)),
            folding: p.folding + opt_seq(node_fold(n)),
            symbols: symbol_step(s, nodes, i - 1, table, self_path, p.symbols),
        }
    }
}

/// The undefined-macro errors of the call sites whose name the table does
/// not hold, in call order.
pub open spec fn undefined_macros(symbols: Seq<(Seq<char>, Symbol)>, calls: Seq<(Seq<char>, Range)>) -> Seq<
    DiagnosticView,
>
    decreases calls.len(),
{
    if calls.len() == 0 {
        Seq::empty()
    } else {
        let rest = undefined_macros(symbols, calls.drop_last());
        if first_symbol(symbols, calls.last().0) is None {
            rest.push(scenario_view(Scenario::UndefinedMacro, calls.last().1, None))
        } else {
            rest
        }
    }
}

/// An analysis as a mathematical value.
pub struct AnalysisView {
    pub tokens: Seq<SemanticToken>,
    pub diagnostics: Seq<DiagnosticView>,
    pub folding: Seq<FoldingRange>,
    pub symbols: Seq<(Seq<char>, Symbol)>,
    pub imports: Seq<(Range, Seq<char>, Range, bool)>,
    pub resolved: Seq<(Seq<char>, Seq<char>)>,
}

/// The analysis of a tree over a text: the passes' output, the diagnostics
/// of the diagnostic pass first, then the symbol pass's, then the
/// undefined macros.
pub open spec fn analysis_of(
    s: Seq<char>,
    nodes: Seq<SyntaxNode>,
    table: Seq<(Seq<char>, PathStatus, Seq<char>)>,
    self_path: Seq<char>,
) -> AnalysisView {
    let p = passes(s, nodes, table, self_path, nodes.len());
    AnalysisView {
        tokens: p.tokens.tokens,
        diagnostics: p.diags + p.symbols.diags + undefined_macros(p.symbols.symbols, p.symbols.calls),
        folding: p.folding,
        symbols: p.symbols.symbols,
        imports: p.symbols.imports,
        resolved: p.symbols.resolved,
    }
}

/// What the analysis of one document state found.
pub struct Analysis {
    semantic_tokens: Vec<SemanticToken>,
    diagnostics: Vec<Diagnostic>,
    folding_ranges: Vec<FoldingRange>,
    symbols: Vec<SymbolEntry>,
    imports: Vec<ImportMacro>,
    resolved: Vec<TextPair>,
}

impl View for Analysis {
    type V = AnalysisView;

    closed spec fn view(&self) -> AnalysisView {
        AnalysisView {
            tokens: self.semantic_tokens@,
            diagnostics: self.diagnostics@.map_values(|d: Diagnostic| d@),
            folding: self.folding_ranges@,
            symbols: self.symbols@.map_values(|e: SymbolEntry| e@),
            imports: self.imports@.map_values(|e: ImportMacro| e@),
            resolved: self.resolved@.map_values(|e: TextPair| e@),
        }
    }
}

/// The undefined-macro errors of the call sites whose name the table does
/// not hold.
fn check_calls(symbols: &Vec<SymbolEntry>, calls: &Vec<RangedText>, out: &mut Vec<Diagnostic>)
    ensures
        final(out)@.map_values(|d: Diagnostic| d@) == old(out)@.map_values(|d: Diagnostic| d@)
            + undefined_macros(
            symbols@.map_values(|e: SymbolEntry| e@),
            calls@.map_values(|e: RangedText| e@),
        ),
{
    let ghost start = out@.map_values(|d: Diagnostic| d@);
    let ghost sv = symbols@.map_values(|e: SymbolEntry| e@);
    let ghost cv = calls@.map_values(|e: RangedText| e@);
    let mut i: usize = 0;
    proof {
        assert(cv.take(0) =~= Seq::<(Seq<char>, Range)>::empty());
        assert(out@.map_values(|d: Diagnostic| d@) =~= start + undefined_macros(sv, cv.take(0)));
    }
    while i < calls.len()
        invariant
            i <= calls@.len(),
            sv == symbols@.map_values(|e: SymbolEntry| e@),
            cv == calls@.map_values(|e: RangedText| e@),
            out@.map_values(|d: Diagnostic| d@) == start + undefined_macros(sv, cv.take(i as int)),
        decreases calls@.len() - i,
    {
        assert(cv.take(i + 1).drop_last() =~= cv.take(i as int));
        let ghost before = out@;
        match find_first_symbol(symbols, &calls[i].text) {
            None => {
                out.push(scenario_diagnostic(Scenario::UndefinedMacro, calls[i].range, None));
                assert(out@.map_values(|d: Diagnostic| d@) =~= before.map_values(
                    |d: Diagnostic| d@,
                ).push(out@.last()@));
            },
            Some(_) => {},
        }
        i += 1;
    }
    assert(cv.take(calls@.len() as int) =~= cv);
}

impl Analysis {
    /// Analyzes a tree over a document: the document at `self_path`, with
    /// `table` giving how its import paths resolve.
    pub fn new(doc: &TextDocument, tree: &SyntaxTree, self_path: String, table: Vec<ResolvedImport>) -> (a:
        Analysis)
        ensures
            a@ == analysis_of(
                doc@,
                tree.nodes@,
                table@.map_values(|e: ResolvedImport| e@),
                self_path@,
            ),
    {
        let ghost s = doc@;
        let ghost nodes = tree.nodes@;
        let ghost tv = table@.map_values(|e: ResolvedImport| e@);
        let ghost sp = self_path@;
        let mut tk = SemanticTokenAnalyzer::new();
        let mut dg = DiagnosticAnalyzer::new();
        let mut fr = FoldingRangeAnalyzer::new();
        let mut sa = SymbolAnalyzer::new(self_path, table);
        let mut tokens: Vec<SemanticToken> = Vec::new();
        let mut diagnostics: Vec<Diagnostic> = Vec::new();
        let mut folding: Vec<FoldingRange> = Vec::new();
        let n = tree.nodes.len();
        let mut i: usize = 0;
        proof {
            assert(diagnostics@.map_values(|d: Diagnostic| d@) =~= Seq::<DiagnosticView>::empty());
        }
        while i < n
            invariant
                n == nodes.len(),
                nodes == tree.nodes@,
                s == doc@,
                i <= n,
                sa.table_view() == tv,
                sa.self_path@ == sp,
                ({
                    let p = passes(s, nodes, tv, sp, i as nat);
                    &&& p.tokens == (TokenState { tokens: tokens@, prev: tk.prev_start })
                    &&& p.scope == dg.scope@
                    &&& p.diags == diagnostics@.map_values(|d: Diagnostic| d@)
                    &&& p.folding == folding@
                    &&& p.symbols == sa.state()
                }),
                forall|k: int| 0 <= k < fr.folded@.len() ==> #[trigger] fr.folded@[k] < i,
            decreases n - i,
        {
            let node = &tree.nodes[i];
            tk.analyze_node(doc, node, &mut tokens);
            proof {
                assert(!fr.folded@.contains(i));
            }
            fr.analyze_node(i, node, &mut folding);
            let ghost before = diagnostics@;
            match dg.analyze_node(doc, node) {
                Some(d) => {
                    diagnostics.push(d);
                },
                None => {},
            }
            proof {
                assert(diagnostics@.map_values(|d: Diagnostic| d@) =~= before.map_values(
                    |d: Diagnostic| d@,
                ) + opt_seq(node_diagnostic(s, passes(s, nodes, tv, sp, i as nat).scope, *node)));
            }
            sa.analyze_node(doc, tree, i);
            i += 1;
        }
        let mut all = diagnostics;
        let ghost first = all@.map_values(|d: Diagnostic| d@);
        let mut symbol_diags = sa.diagnostics;
        let ghost second = symbol_diags@.map_values(|d: Diagnostic| d@);
        all.append(&mut symbol_diags);
        proof {
            assert(all@.map_values(|d: Diagnostic| d@) =~= first + second);
        }
        check_calls(&sa.symbols, &sa.calls, &mut all);
        Analysis {
            semantic_tokens: tokens,
            diagnostics: all,
            folding_ranges: folding,
            symbols: sa.symbols,
            imports: sa.import_list,
            resolved: sa.resolved,
        }
    }
}

/// The symbols recorded under `name`, in order of appearance.
pub open spec fn symbols_named(entries: Seq<(Seq<char>, Symbol)>, name: Seq<char>) -> Seq<Symbol>
    decreases entries.len(),
{
    if entries.len() == 0 {
        Seq::empty()
    } else {
        let rest = symbols_named(entries.drop_last(), name);
        if entries.last().0 == name {
            rest.push(entries.last().1)
        } else {
            rest
        }
    }
}

impl Analysis {
    /// Every occurrence of `name`, first definition first; an error when
    /// the name has none.
    pub fn find_symbol_definition(&self, name: &str) -> (r: Result<Vec<Symbol>, AnalysisError>)
        ensures
            symbols_named(self@.symbols, name@).len() > 0 ==> (r matches Ok(v) && v@
                == symbols_named(self@.symbols, name@)),
            symbols_named(self@.symbols, name@).len() == 0 ==> (r matches Err(
                AnalysisError::Undefined(n),
            ) && n@ == name@),
    {
        let ghost sv = self.symbols@.map_values(|e: SymbolEntry| e@);
        let key = name.to_owned();
        let mut found: Vec<Symbol> = Vec::new();
        let mut i: usize = 0;
        proof {
            assert(sv.take(0) =~= Seq::<(Seq<char>, Symbol)>::empty());
        }
        while i < self.symbols.len()
            invariant
                i <= self.symbols@.len(),
                sv == self.symbols@.map_values(|e: SymbolEntry| e@),
                key@ == name@,
                found@ == symbols_named(sv.take(i as int), name@),
            decreases self.symbols@.len() - i,
        {
            assert(sv.take(i + 1).drop_last() =~= sv.take(i as int));
            if self.symbols[i].name == key {
                found.push(self.symbols[i].symbol);
            }
            i += 1;
        }
        assert(sv.take(self.symbols@.len() as int) =~= sv);
        if found.len() > 0 {
            Ok(found)
        } else {
            Err(AnalysisError::Undefined(key))
        }
    }

    /// The canonical path that an import's literal path resolved to, for an
    /// import of a file other than the document itself.
    pub fn get_valid_import(&self, path: &str) -> (r: Option<String>)
        ensures
            r matches Some(v) ==> lookup_text(self@.resolved, path@) == Some(v@),
            r is None ==> lookup_text(self@.resolved, path@) is None,
    {
        find_text(&self.resolved, &path.to_owned())
    }

    /// The diagnostics.
    pub fn get_analyzed_full_diagnostics(&self) -> (r: &Vec<Diagnostic>)
        ensures
            r@.map_values(|d: Diagnostic| d@) == self@.diagnostics,
    {
        &self.diagnostics
    }

    /// The folding ranges.
    pub fn get_analyzed_folding_ranges(&self) -> (r: &Vec<FoldingRange>)
        ensures
            r@ == self@.folding,
    {
        &self.folding_ranges
    }

    /// The semantic tokens, in delta form.
    pub fn get_analyzed_semantic_tokens(&self) -> (r: &Vec<SemanticToken>)
        ensures
            r@ == self@.tokens,
    {
        &self.semantic_tokens
    }

    /// The symbol table, in order of appearance.
    pub fn symbols(&self) -> (r: &Vec<SymbolEntry>)
        ensures
            r@.map_values(|e: SymbolEntry| e@) == self@.symbols,
    {
        &self.symbols
    }

    /// The import statements, in order of appearance.
    pub fn imports(&self) -> (r: &Vec<ImportMacro>)
        ensures
            r@.map_values(|e: ImportMacro| e@) == self@.imports,
    {
        &self.imports
    }
}

/// A macro defined in the document: the range of its name and its line.
#[derive(Clone, Copy, Debug, PartialEq, Eq, Structural)]
pub struct LocalMacro {
    pub alias_range: Range,
    pub row: usize,
}

/// What a macro namespace is bound to: a local definition or an import.
#[derive(Clone, Debug)]
pub enum MacroNamespace {
    Local(LocalMacro),
    Import(ImportMacro),
}

/// What a macro namespace is bound to, as a mathematical value.
pub enum MacroNamespaceView {
    Local(LocalMacro),
    Import((Range, Seq<char>, Range, bool)),
}

impl View for MacroNamespace {
    type V = MacroNamespaceView;

    open spec fn view(&self) -> MacroNamespaceView {
        match self {
            MacroNamespace::Local(l) => MacroNamespaceView::Local(*l),
            MacroNamespace::Import(i) => MacroNamespaceView::Import(i@),
        }
    }
}

/// The binding of `name`: its first definition, an import when that is an
/// import alias with a recorded import statement, a local macro otherwise.
pub open spec fn namespace_of(a: AnalysisView, name: Seq<char>) -> Option<MacroNamespaceView> {
    match first_symbol(a.symbols, name) {
        None => None,
        Some(f) => if f.rule == Rule::ImportAlias && import_with_alias(a.imports, f.range) is Some {
            Some(MacroNamespaceView::Import(import_with_alias(a.imports, f.range).unwrap()))
        } else {
            Some(
                MacroNamespaceView::Local(
                    LocalMacro { alias_range: f.range, row: f.range.start.line as usize },
                ),
            )
        },
    }
}

impl Analysis {
    /// The binding of a macro namespace.
    pub fn macro_namespace(&self, name: &str) -> (r: Option<MacroNamespace>)
        ensures
            r matches Some(m) ==> namespace_of(self@, name@) == Some(m@),
            r is None ==> namespace_of(self@, name@) is None,
    {
        match find_first_symbol(&self.symbols, &name.to_owned()) {
            None => None,
            Some(f) => {
                if f.rule == Rule::ImportAlias {
                    match find_import_by_alias(&self.imports, f.range) {
                        Some(k) => {
                            let im = &self.imports[k];
                            return Some(
                                MacroNamespace::Import(
                                    ImportMacro {
                                        alias_range: im.alias_range,
                                        path: im.path.clone(),
                                        path_range: im.path_range,
                                        path_valid: im.path_valid,
                                    },
                                ),
                            );
                        },
                        None => {},
                    }
                }
                Some(
                    MacroNamespace::Local(
                        LocalMacro { alias_range: f.range, row: f.range.start.line as usize },
                    ),
                )
            },
        }
    }

    /// Records one more occurrence of `name`.
    pub fn add_symbol(&mut self, name: &str, symbol: Symbol)
        ensures
            final(self)@ == (AnalysisView {
                symbols: old(self)@.symbols.push((name@, symbol)),
                ..old(self)@
            }),
    {
        self.symbols.push(SymbolEntry { name: name.to_owned(), symbol });
        proof {
            assert(self@.symbols =~= old(self)@.symbols.push((name@, symbol)));
        }
    }

    /// Records the canonical path that an import's literal path resolved
    /// to: the literal then looks up that path, replacing what it was
    /// recorded with before; every other literal looks up what it did.
    pub fn record_valid_import(&mut self, path: &str, canonical: String)
        ensures
            lookup_text(final(self)@.resolved, path@) == Some(canonical@),
            forall|k: Seq<char>|
                k != path@ ==> #[trigger] lookup_text(final(self)@.resolved, k) == lookup_text(
                    old(self)@.resolved,
                    k,
                ),
            final(self)@.tokens == old(self)@.tokens,
            final(self)@.diagnostics == old(self)@.diagnostics,
            final(self)@.folding == old(self)@.folding,
            final(self)@.symbols == old(self)@.symbols,
            final(self)@.imports == old(self)@.imports,
    {
        let key = path.to_owned();
        let ghost v = old(self)@.resolved;
        let ghost cv = canonical@;
        match find_key_index(&self.resolved, &key) {
            Some(i) => {
                self.resolved.set(i, TextPair { key, value: canonical });
                proof {
                    assert(self@.resolved =~= v.update(i as int, (path@, cv)));
                    assert forall|j: int| 0 <= j < i implies #[trigger] v[j].0 != path@ by {
                        assert(v[j] == old(self).resolved@[j]@);
                    }
                    lemma_lookup_text_update(v, i as int, path@, cv, path@);
                    assert forall|k: Seq<char>| k != path@ implies #[trigger] lookup_text(
                        self@.resolved,
                        k,
                    ) == lookup_text(v, k) by {
                        lemma_lookup_text_update(v, i as int, path@, cv, k);
                    }
                }
            },
            None => {
                self.resolved.push(TextPair { key, value: canonical });
                proof {
                    assert(self@.resolved =~= v.push((path@, cv)));
                    assert forall|j: int| 0 <= j < v.len() implies #[trigger] v[j].0 != path@ by {
                        assert(v[j] == old(self).resolved@[j]@);
                    }
                    lemma_lookup_text_push(v, path@, cv, path@);
                    assert forall|k: Seq<char>| k != path@ implies #[trigger] lookup_text(
                        self@.resolved,
                        k,
                    ) == lookup_text(v, k) by {
                        lemma_lookup_text_push(v, path@, cv, k);
                    }
                }
            },
        }
    }

    /// Adds a diagnostic.
    pub fn add_diagnostic(&mut self, item: Diagnostic)
        ensures
            final(self)@ == (AnalysisView {
                diagnostics: old(self)@.diagnostics.push(item@),
                ..old(self)@
            }),
    {
        self.diagnostics.push(item);
        proof {
            assert(self@.diagnostics =~= old(self)@.diagnostics.push(item@));
        }
    }

    /// Adds diagnostics, in order.
    pub fn add_diagnostics(&mut self, items: Vec<Diagnostic>)
        ensures
            final(self)@ == (AnalysisView {
                diagnostics: old(self)@.diagnostics + items@.map_values(|d: Diagnostic| d@),
                ..old(self)@
            }),
    {
        let mut items = items;
        let ghost added = items@.map_values(|d: Diagnostic| d@);
        self.diagnostics.append(&mut items);
        proof {
            assert(self@.diagnostics =~= old(self)@.diagnostics + added);
        }
    }

    /// Adds a folding range.
    pub fn add_folding_range(&mut self, range: FoldingRange)
        ensures
            final(self)@ == (AnalysisView { folding: old(self)@.folding.push(range), ..old(self)@ }),
    {
        self.folding_ranges.push(range);
    }

    /// Adds semantic tokens, in order.
    pub fn add_semantic_tokens(&mut self, tokens: Vec<SemanticToken>)
        ensures
            final(self)@ == (AnalysisView { tokens: old(self)@.tokens + tokens@, ..old(self)@ }),
    {
        let mut tokens = tokens;
        self.semantic_tokens.append(&mut tokens);
    }
}

/// A node that the parser produced normally, of the given rule (or of a
/// kind that no rule names).
pub open spec fn plain(n: SyntaxNode, r: Option<Rule>) -> bool {
    !n.is_error && !n.is_missing && node_rule(n) == r
}

/// A document that is a loop holding a break statement and nothing else
/// has exactly one diagnostic: the deprecation of that break.
pub proof fn lemma_loop_with_break(
    s: Seq<char>,
    nodes: Seq<SyntaxNode>,
    table: Seq<(Seq<char>, PathStatus, Seq<char>)>,
    self_path: Seq<char>,
)
    requires
        nodes.len() == 5,
        plain(nodes[0], None),
        plain(nodes[1], Some(Rule::ListClause)),
        plain(nodes[2], Some(Rule::ListBegin)),
        plain(nodes[3], Some(Rule::BreakStmt)),
        plain(nodes[4], Some(Rule::ListClose)),
    ensures
        analysis_of(s, nodes, table, self_path).diagnostics == seq![
            scenario_view(Scenario::DeprecatedListBreak, node_range(nodes[3]), None),
        ],
{
    reveal_with_fuel(passes, 6);
    let p = passes(s, nodes, table, self_path, 5);
    assert(p.symbols.diags =~= Seq::<DiagnosticView>::empty());
    assert(p.symbols.calls =~= Seq::<(Seq<char>, Range)>::empty());
    assert(analysis_of(s, nodes, table, self_path).diagnostics =~= seq![
        scenario_view(Scenario::DeprecatedListBreak, node_range(nodes[3]), None),
    ]);
}

/// A document that is a break statement outside any loop or switch has
/// exactly one diagnostic: the error on that break.
pub proof fn lemma_lone_break(
    s: Seq<char>,
    nodes: Seq<SyntaxNode>,
    table: Seq<(Seq<char>, PathStatus, Seq<char>)>,
    self_path: Seq<char>,
)
    requires
        nodes.len() == 2,
        plain(nodes[0], None),
        plain(nodes[1], Some(Rule::BreakStmt)),
    ensures
        analysis_of(s, nodes, table, self_path).diagnostics == seq![
            scenario_view(Scenario::UnexpectedBreakStmt, node_range(nodes[1]), None),
        ],
{
    reveal_with_fuel(passes, 3);
    let p = passes(s, nodes, table, self_path, 2);
    assert(p.symbols.diags =~= Seq::<DiagnosticView>::empty());
    assert(p.symbols.calls =~= Seq::<(Seq<char>, Range)>::empty());
    assert(analysis_of(s, nodes, table, self_path).diagnostics =~= seq![
        scenario_view(Scenario::UnexpectedBreakStmt, node_range(nodes[1]), None),
    ]);
}

/// A document that is one import statement whose path does not exist has
/// exactly one diagnostic, an error at the path literal, and the import is
/// absent from the resolved-import table.
pub proof fn lemma_missing_import(
    s: Seq<char>,
    nodes: Seq<SyntaxNode>,
    table: Seq<(Seq<char>, PathStatus, Seq<char>)>,
    self_path: Seq<char>,
)
    requires
        nodes.len() == 5,
        plain(nodes[0], None),
        plain(nodes[1], Some(Rule::ImportStmt)),
        nodes[1].subtree_end == 5,
        plain(nodes[2], Some(Rule::ImportBegin)),
        plain(nodes[3], Some(Rule::ImportPath)),
        plain(nodes[4], Some(Rule::ImportAlias)),
        resolution_of(table, unquote(node_text(s, nodes[3]))).0 == PathStatus::Missing,
    ensures
        analysis_of(s, nodes, table, self_path).diagnostics == seq![
            scenario_view(Scenario::ImportPathNotExist, node_range(nodes[3]), None),
        ],
        scenario_severity(Scenario::ImportPathNotExist) == Severity::Error,
        lookup_text(analysis_of(s, nodes, table, self_path).resolved, unquote(node_text(s, nodes[3])))
            is None,
{
    reveal_with_fuel(passes, 6);
    reveal_with_fuel(find_rule, 4);
    let p = passes(s, nodes, table, self_path, 5);
    assert(find_rule(nodes, 2, 5, Rule::ImportPath) == Some(3int));
    assert(find_rule(nodes, 2, 5, Rule::ImportAlias) == Some(4int));
    assert(p.symbols.calls =~= Seq::<(Seq<char>, Range)>::empty());
    assert(p.symbols.resolved =~= Seq::<(Seq<char>, Seq<char>)>::empty());
    assert(p.diags =~= Seq::<DiagnosticView>::empty());
    assert(analysis_of(s, nodes, table, self_path).diagnostics =~= seq![
        scenario_view(Scenario::ImportPathNotExist, node_range(nodes[3]), None),
    ]);
}

/// A document that defines a macro and then another macro of the same
/// name has exactly one diagnostic: a duplicate definition at the second
/// name, pointing at the first.
pub proof fn lemma_macro_defined_twice(
    s: Seq<char>,
    nodes: Seq<SyntaxNode>,
    table: Seq<(Seq<char>, PathStatus, Seq<char>)>,
    self_path: Seq<char>,
)
    requires
        nodes.len() == 3,
        plain(nodes[0], None),
        plain(nodes[1], Some(Rule::MacroName)),
        plain(nodes[2], Some(Rule::MacroName)),
        node_text(s, nodes[1]) == node_text(s, nodes[2]),
    ensures
        analysis_of(s, nodes, table, self_path).diagnostics == seq![
            scenario_view(
                Scenario::ImportNamespaceDuplicated,
                node_range(nodes[2]),
                Some(RelatedLocation { range: node_range(nodes[1]), kind: RelatedKind::FirstDefined }),
            ),
        ],
{
    reveal_with_fuel(passes, 4);
    let p = passes(s, nodes, table, self_path, 3);
    let p1 = passes(s, nodes, table, self_path, 2);
    assert(p1.symbols.symbols.len() == 1);
    assert(first_symbol(p1.symbols.symbols, node_text(s, nodes[2])) == Some(
        p1.symbols.symbols[0].1,
    ));
    assert(p.symbols.calls =~= Seq::<(Seq<char>, Range)>::empty());
    assert(p.diags =~= Seq::<DiagnosticView>::empty());
    assert(analysis_of(s, nodes, table, self_path).diagnostics =~= seq![
        scenario_view(
            Scenario::ImportNamespaceDuplicated,
            node_range(nodes[2]),
            Some(RelatedLocation { range: node_range(nodes[1]), kind: RelatedKind::FirstDefined }),
        ),
    ]);
}

/// The token pass on one node reads the text only through the byte
/// lengths of the lines before the node's last.
pub proof fn lemma_token_step_local(
    s1: Seq<char>,
    s2: Seq<char>,
    st: TokenState,
    n: SyntaxNode,
    bound: nat,
)
    requires
        n.end.row <= bound,
        forall|r: nat| r < bound ==> #[trigger] line_bytes(s1, r) == line_bytes(s2, r),
    ensures
        token_step(s1, st, n) == token_step(s2, st, n),
{
    if !(n.is_error || n.is_missing || !point_le(st.prev, n.start) || n.end.row < n.start.row) {
        match node_rule(n) {
            Some(r) => match token_class(r) {
                Some((t, m)) => {
                    if n.start.row < n.end.row {
                        assert(line_bytes(s1, n.start.row as nat) == line_bytes(
                            s2,
                            n.start.row as nat,
                        ));
                    }
                    assert(node_tokens(s1, st.prev, n, t, m) =~= node_tokens(s2, st.prev, n, t, m));
                },
                None => {},
            },
            None => {},
        }
    }
}

/// The token pass only appends.
pub proof fn lemma_token_step_extends(s: Seq<char>, st: TokenState, n: SyntaxNode)
    ensures
        token_step(s, st, n).tokens.len() >= st.tokens.len(),
        token_step(s, st, n).tokens.take(st.tokens.len() as int) == st.tokens,
{
    let r = token_step(s, st, n);
    assert(r.tokens.take(st.tokens.len() as int) =~= st.tokens);
}

/// The tokens after `k` nodes begin the tokens after `n` nodes.
pub proof fn lemma_tokens_grow(
    s: Seq<char>,
    nodes: Seq<SyntaxNode>,
    table: Seq<(Seq<char>, PathStatus, Seq<char>)>,
    self_path: Seq<char>,
    k: nat,
    n: nat,
)
    requires
        k <= n,
    ensures
        ({
            let a = passes(s, nodes, table, self_path, k).tokens.tokens;
            let b = passes(s, nodes, table, self_path, n).tokens.tokens;
            a.len() <= b.len() && b.take(a.len() as int) == a
        }),
    decreases n,
{
    let a = passes(s, nodes, table, self_path, k).tokens.tokens;
    if k < n {
        lemma_tokens_grow(s, nodes, table, self_path, k, (n - 1) as nat);
        let p = passes(s, nodes, table, self_path, (n - 1) as nat);
        lemma_token_step_extends(s, p.tokens, nodes[n - 1]);
        let b = passes(s, nodes, table, self_path, n).tokens.tokens;
        assert(b.take(a.len() as int) =~= p.tokens.tokens.take(a.len() as int));
    } else {
        assert(a.take(a.len() as int) =~= a);
    }
}

/// Two documents whose first `k` nodes are the same, on lines of the same
/// byte lengths, have the same token pass state after those nodes.
pub proof fn lemma_tokens_same_prefix(
    s1: Seq<char>,
    nodes1: Seq<SyntaxNode>,
    table1: Seq<(Seq<char>, PathStatus, Seq<char>)>,
    self_path1: Seq<char>,
    s2: Seq<char>,
    nodes2: Seq<SyntaxNode>,
    table2: Seq<(Seq<char>, PathStatus, Seq<char>)>,
    self_path2: Seq<char>,
    k: nat,
    bound: nat,
)
    requires
        k <= nodes1.len(),
        k <= nodes2.len(),
        forall|j: int| 0 <= j < k ==> #[trigger] nodes1[j] == nodes2[j] && nodes1[j].end.row <= bound,
        forall|r: nat| r < bound ==> #[trigger] line_bytes(s1, r) == line_bytes(s2, r),
    ensures
        passes(s1, nodes1, table1, self_path1, k).tokens == passes(
            s2,
            nodes2,
            table2,
            self_path2,
            k,
        ).tokens,
    decreases k,
{
    if k > 0 {
        lemma_tokens_same_prefix(
            s1,
            nodes1,
            table1,
            self_path1,
            s2,
            nodes2,
            table2,
            self_path2,
            (k - 1) as nat,
            bound,
        );
        assert(nodes1[k - 1] == nodes2[k - 1]);
        lemma_token_step_local(
            s1,
            s2,
            passes(s1, nodes1, table1, self_path1, (k - 1) as nat).tokens,
            nodes1[k - 1],
            bound,
        );
    }
}

/// Token stability under a local edit: when the nodes before an edit are
/// the same in the trees before and after it, and the lines they cover
/// keep their byte lengths, the tokens of those nodes begin both token
/// sequences unchanged.
pub proof fn lemma_tokens_stable_before_edit(
    s1: Seq<char>,
    nodes1: Seq<SyntaxNode>,
    table1: Seq<(Seq<char>, PathStatus, Seq<char>)>,
    self_path1: Seq<char>,
    s2: Seq<char>,
    nodes2: Seq<SyntaxNode>,
    table2: Seq<(Seq<char>, PathStatus, Seq<char>)>,
    self_path2: Seq<char>,
    k: nat,
    bound: nat,
)
    requires
        k <= nodes1.len(),
        k <= nodes2.len(),
        forall|j: int| 0 <= j < k ==> #[trigger] nodes1[j] == nodes2[j] && nodes1[j].end.row <= bound,
        forall|r: nat| r < bound ==> #[trigger] line_bytes(s1, r) == line_bytes(s2, r),
    ensures
        ({
            let before = passes(s1, nodes1, table1, self_path1, k).tokens.tokens;
            let t1 = analysis_of(s1, nodes1, table1, self_path1).tokens;
            let t2 = analysis_of(s2, nodes2, table2, self_path2).tokens;
            &&& before.len() <= t1.len()
            &&& before.len() <= t2.len()
            &&& t1.take(before.len() as int) == before
            &&& t2.take(before.len() as int) == before
        }),
{
    lemma_tokens_same_prefix(
        s1,
        nodes1,
        table1,
        self_path1,
        s2,
        nodes2,
        table2,
        self_path2,
        k,
        bound,
    );
    lemma_tokens_grow(s1, nodes1, table1, self_path1, k, nodes1.len());
    lemma_tokens_grow(s2, nodes2, table2, self_path2, k, nodes2.len());
}

/// Running the pipeline twice on the same tree, text and import
/// resolution gives identical tokens, diagnostics, folding ranges and
/// symbols.
pub proof fn lemma_rerun_identical(
    a: Analysis,
    b: Analysis,
    s: Seq<char>,
    nodes: Seq<SyntaxNode>,
    table: Seq<(Seq<char>, PathStatus, Seq<char>)>,
    self_path: Seq<char>,
)
    requires
        a@ == analysis_of(s, nodes, table, self_path),
        b@ == analysis_of(s, nodes, table, self_path),
    ensures
        a@.tokens == b@.tokens,
        a@.diagnostics == b@.diagnostics,
        a@.folding == b@.folding,
        a@.symbols == b@.symbols,
        a@.resolved == b@.resolved,
{
}

} // verus!
