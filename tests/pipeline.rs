use freemarker_lsp::analysis::{Analysis, AnalysisError};
use freemarker_lsp::diagnosis::{RelatedKind, Scenario, Severity};
use freemarker_lsp::folding::{FoldingRange, FoldingRangeAnalyzer};
use freemarker_lsp::reactor::Reactor;
use freemarker_lsp::symbol::{import_paths, PathStatus, ResolvedImport};
use freemarker_lsp::syntax::{SyntaxNode, SyntaxTree};
use freemarker_lsp::text::{
    ContentChange, Point, Position, PositionEncodingKind, Range, TextDocument,
};
use freemarker_lsp::tokenizer::SemanticToken;

fn node(kind: &str, bytes: (usize, usize), start: (usize, usize), end: (usize, usize), subtree_end: usize) -> SyntaxNode {
    SyntaxNode {
        kind: kind.to_string(),
        is_named: true,
        is_error: false,
        is_missing: false,
        start_byte: bytes.0,
        end_byte: bytes.1,
        start: Point { row: start.0, column: start.1 },
        end: Point { row: end.0, column: end.1 },
        subtree_end,
    }
}

fn span(l0: u32, c0: u32, l1: u32, c1: u32) -> Range {
    Range {
        start: Position { line: l0, character: c0 },
        end: Position { line: l1, character: c1 },
    }
}

fn analyze(text: &str, nodes: Vec<SyntaxNode>, table: Vec<ResolvedImport>) -> Analysis {
    let doc = TextDocument::new(text);
    let tree = SyntaxTree { nodes };
    assert!(tree.check());
    Analysis::new(&doc, &tree, "/work/page.ftl".to_string(), table)
}

fn tok(dl: u32, ds: u32, len: u32, ty: u32, m: u32) -> SemanticToken {
    SemanticToken { delta_line: dl, delta_start: ds, length: len, token_type: ty, token_modifiers_bitset: m }
}

#[test]
fn break_inside_list_is_one_deprecation() {
    let text = "<#list xs as x><#break></#list>";
    let a = analyze(
        text,
        vec![
            node("template", (0, 31), (0, 0), (0, 31), 5),
            node("list_clause", (0, 31), (0, 0), (0, 31), 5),
            node("list_begin", (0, 6), (0, 0), (0, 6), 3),
            node("break_stmt", (15, 23), (0, 15), (0, 23), 4),
            node("list_close", (23, 31), (0, 23), (0, 31), 5),
        ],
        vec![],
    );
    let d = a.get_analyzed_full_diagnostics();
    assert_eq!(d.len(), 1);
    assert_eq!(d[0].code(), Some("deprecated_list_break"));
    assert_eq!(d[0].severity, Severity::Warning);
    assert_eq!(d[0].range, span(0, 15, 0, 23));
    assert_eq!(
        a.get_analyzed_semantic_tokens(),
        &vec![tok(0, 0, 6, 5, 0), tok(0, 15, 8, 5, 0), tok(0, 8, 8, 5, 0)]
    );
}

#[test]
fn break_outside_any_scope_is_one_error() {
    let a = analyze(
        "<#break>",
        vec![
            node("template", (0, 8), (0, 0), (0, 8), 2),
            node("break_stmt", (0, 8), (0, 0), (0, 8), 2),
        ],
        vec![],
    );
    let d = a.get_analyzed_full_diagnostics();
    assert_eq!(d.len(), 1);
    assert_eq!(d[0].code(), Some("unexpected_break_stmt"));
    assert_eq!(d[0].severity, Severity::Error);
}

#[test]
fn break_inside_switch_is_accepted() {
    let a = analyze(
        "<#switch x><#break></#switch>",
        vec![
            node("template", (0, 29), (0, 0), (0, 29), 4),
            node("switch_begin", (0, 8), (0, 0), (0, 8), 2),
            node("break_stmt", (11, 19), (0, 11), (0, 19), 3),
            node("switch_close", (19, 29), (0, 19), (0, 29), 4),
        ],
        vec![],
    );
    assert_eq!(a.get_analyzed_full_diagnostics().len(), 0);
}

#[test]
fn break_after_closed_list_is_an_error() {
    let a = analyze(
        "<#list xs as x></#list><#break>",
        vec![
            node("template", (0, 31), (0, 0), (0, 31), 4),
            node("list_begin", (0, 6), (0, 0), (0, 6), 2),
            node("list_close", (15, 23), (0, 15), (0, 23), 3),
            node("break_stmt", (23, 31), (0, 23), (0, 31), 4),
        ],
        vec![],
    );
    let d = a.get_analyzed_full_diagnostics();
    assert_eq!(d.len(), 1);
    assert_eq!(d[0].scenario, Some(Scenario::UnexpectedBreakStmt));
}

fn import_nodes(base: usize, row: usize, path_len: usize) -> Vec<SyntaxNode> {
    // <#import "<path>" as m>
    let path_start = base + 9;
    let path_end = path_start + path_len;
    vec![
        node("import_stmt", (base, path_end + 6), (row, 0), (row, path_end - base + 6), 0),
        node("import_begin", (base, base + 8), (row, 0), (row, 8), 0),
        node("import_path", (path_start, path_end), (row, 9), (row, path_end - base), 0),
        node("keyword_as", (path_end + 1, path_end + 3), (row, path_end - base + 1), (row, path_end - base + 3), 0),
        node("import_alias", (path_end + 4, path_end + 5), (row, path_end - base + 4), (row, path_end - base + 5), 0),
    ]
}

fn with_subtrees(mut nodes: Vec<SyntaxNode>, offset: usize) -> Vec<SyntaxNode> {
    let n = nodes.len();
    nodes[0].subtree_end = offset + n;
    for i in 1..n {
        nodes[i].subtree_end = offset + i + 1;
    }
    nodes
}

#[test]
fn missing_import_is_one_error_at_the_literal() {
    let text = "<#import \"./missing.inc\" as m>";
    let mut nodes = vec![node("template", (0, 30), (0, 0), (0, 30), 6)];
    nodes.extend(with_subtrees(import_nodes(0, 0, 15), 1));
    let table = vec![ResolvedImport {
        literal: "./missing.inc".to_string(),
        status: PathStatus::Missing,
        canonical: String::new(),
    }];
    let doc = TextDocument::new(text);
    let tree = SyntaxTree { nodes };
    assert!(tree.check());
    assert_eq!(import_paths(&doc, &tree), vec!["./missing.inc".to_string()]);
    let a = Analysis::new(&doc, &tree, "/work/page.ftl".to_string(), table);
    let d = a.get_analyzed_full_diagnostics();
    assert_eq!(d.len(), 1);
    assert_eq!(d[0].severity, Severity::Error);
    assert_eq!(d[0].code(), Some("import_path_not_exist"));
    assert_eq!(d[0].range, span(0, 9, 0, 24));
    assert_eq!(a.get_valid_import("./missing.inc"), None);
}

#[test]
fn import_of_a_directory_and_of_the_document_itself() {
    let text = "<#import \"./d\" as m>";
    let mut nodes = vec![node("template", (0, 20), (0, 0), (0, 20), 6)];
    nodes.extend(with_subtrees(import_nodes(0, 0, 5), 1));
    let dir = vec![ResolvedImport {
        literal: "./d".to_string(),
        status: PathStatus::NotAFile,
        canonical: String::new(),
    }];
    let a = analyze(text, nodes.clone(), dir);
    assert_eq!(a.get_analyzed_full_diagnostics()[0].code(), Some("import_path_not_file"));
    let itself = vec![ResolvedImport {
        literal: "./d".to_string(),
        status: PathStatus::File,
        canonical: "/work/page.ftl".to_string(),
    }];
    let a = analyze(text, nodes, itself);
    let d = a.get_analyzed_full_diagnostics();
    assert_eq!(d.len(), 1);
    assert_eq!(d[0].code(), Some("self_import"));
    assert_eq!(a.get_valid_import("./d"), None);
}

#[test]
fn second_import_of_a_path_is_flagged_pointing_at_the_first() {
    let line = "<#import \"./a.ftl\" as m>";
    let text = format!("{}\n{}", line, line.replace(" m>", " n>"));
    let mut nodes = vec![node("template", (0, text.len()), (0, 0), (1, line.len()), 11)];
    nodes.extend(with_subtrees(import_nodes(0, 0, 9), 1));
    nodes.extend(with_subtrees(import_nodes(line.len() + 1, 1, 9), 6));
    let table = vec![ResolvedImport {
        literal: "./a.ftl".to_string(),
        status: PathStatus::File,
        canonical: "/work/a.ftl".to_string(),
    }];
    let a = analyze(&text, nodes, table);
    let d = a.get_analyzed_full_diagnostics();
    assert_eq!(d.len(), 1);
    assert_eq!(d[0].code(), Some("import_path_duplicated"));
    assert_eq!(d[0].severity, Severity::Warning);
    assert_eq!(d[0].range, span(1, 9, 1, 18));
    let related = d[0].related.unwrap();
    assert_eq!(related.range, span(0, 9, 0, 18));
    assert_eq!(related.kind, RelatedKind::FirstImported);
    assert_eq!(a.get_valid_import("./a.ftl"), Some("/work/a.ftl".to_string()));
}

#[test]
fn redefined_macro_is_flagged_once_pointing_at_the_first() {
    let text = "<#macro foo></#macro><#macro foo></#macro>";
    let a = analyze(
        text,
        vec![
            node("template", (0, 42), (0, 0), (0, 42), 7),
            node("macro_clause", (0, 21), (0, 0), (0, 21), 4),
            node("macro_begin", (0, 7), (0, 0), (0, 7), 3),
            node("macro_name", (8, 11), (0, 8), (0, 11), 4),
            node("macro_clause", (21, 42), (0, 21), (0, 42), 7),
            node("macro_begin", (21, 28), (0, 21), (0, 28), 6),
            node("macro_name", (29, 32), (0, 29), (0, 32), 7),
        ],
        vec![],
    );
    let d = a.get_analyzed_full_diagnostics();
    assert_eq!(d.len(), 1);
    assert_eq!(d[0].range, span(0, 29, 0, 32));
    assert_eq!(d[0].code(), Some("import_namespace_duplicated"));
    let related = d[0].related.unwrap();
    assert_eq!(related.range, span(0, 8, 0, 11));
    assert_eq!(related.kind, RelatedKind::FirstDefined);
    let defs = a.find_symbol_definition("foo").unwrap();
    assert_eq!(defs.len(), 2);
    assert_eq!(defs[0].range, span(0, 8, 0, 11));
    assert!(matches!(a.find_symbol_definition("bar"), Err(AnalysisError::Undefined(n)) if n == "bar"));
}

#[test]
fn macro_call_needs_a_defined_namespace() {
    let text = "<@ns.m/>";
    let nodes = vec![
        node("template", (0, 8), (0, 0), (0, 8), 3),
        node("macro_call_begin", (0, 2), (0, 0), (0, 2), 2),
        node("macro_namespace", (2, 4), (0, 2), (0, 4), 3),
    ];
    let a = analyze(text, nodes, vec![]);
    let d = a.get_analyzed_full_diagnostics();
    assert_eq!(d.len(), 1);
    assert_eq!(d[0].code(), Some("undefined_macro"));
    assert_eq!(d[0].range, span(0, 2, 0, 4));
}

#[test]
fn parse_errors_and_style_rules_raise_diagnostics() {
    let text = "a\\b x = y ?";
    let mut missing = node(">", (11, 11), (0, 11), (0, 11), 5);
    missing.is_missing = true;
    let mut error = node("ERROR", (10, 11), (0, 10), (0, 11), 4);
    error.is_error = true;
    let a = analyze(
        text,
        vec![
            node("template", (0, 11), (0, 0), (0, 11), 5),
            node("identifier", (0, 3), (0, 0), (0, 3), 2),
            node("deprecated_equal_operator", (6, 7), (0, 6), (0, 7), 3),
            error,
            missing,
        ],
        vec![],
    );
    let d = a.get_analyzed_full_diagnostics();
    assert_eq!(d.len(), 4);
    assert_eq!(d[0].code(), Some("identifier_has_backslash"));
    assert_eq!(d[0].severity, Severity::Information);
    assert_eq!(d[1].code(), Some("deprecated_equal_operator"));
    assert_eq!(d[2].message, "ERROR: Unexpected '?'.\n");
    assert_eq!(d[3].message, "Missing > here");
    assert_eq!(d[3].code(), None);
}

#[test]
fn multi_line_nodes_give_one_token_per_line_and_fold() {
    let text = "<#-- a\nbb\nc -->";
    let a = analyze(
        text,
        vec![
            node("template", (0, 15), (0, 0), (2, 5), 2),
            node("comment", (0, 15), (0, 0), (2, 5), 2),
        ],
        vec![],
    );
    assert_eq!(
        a.get_analyzed_semantic_tokens(),
        &vec![tok(0, 0, 6, 2, 0), tok(1, 0, 2, 2, 0), tok(1, 0, 5, 2, 0)]
    );
    assert_eq!(a.get_analyzed_folding_ranges(), &vec![FoldingRange { start_line: 0, end_line: 1 }]);
}

#[test]
fn folding_pass_skips_a_node_already_folded() {
    let n = node("if_clause", (0, 10), (0, 0), (3, 2), 1);
    let mut fr = FoldingRangeAnalyzer::new();
    let mut out = vec![];
    fr.analyze_node(0, &n, &mut out);
    fr.analyze_node(0, &n, &mut out);
    assert_eq!(out, vec![FoldingRange { start_line: 0, end_line: 2 }]);
}

#[test]
fn rerunning_the_pipeline_gives_identical_results() {
    let text = "<#list xs as x><#break></#list>";
    let nodes = vec![
        node("template", (0, 31), (0, 0), (0, 31), 5),
        node("list_clause", (0, 31), (0, 0), (0, 31), 5),
        node("list_begin", (0, 6), (0, 0), (0, 6), 3),
        node("break_stmt", (15, 23), (0, 15), (0, 23), 4),
        node("list_close", (23, 31), (0, 23), (0, 31), 5),
    ];
    let a = analyze(text, nodes.clone(), vec![]);
    let b = analyze(text, nodes, vec![]);
    assert_eq!(a.get_analyzed_semantic_tokens(), b.get_analyzed_semantic_tokens());
    assert_eq!(a.get_analyzed_folding_ranges(), b.get_analyzed_folding_ranges());
    assert_eq!(
        format!("{:?}", a.get_analyzed_full_diagnostics()),
        format!("{:?}", b.get_analyzed_full_diagnostics())
    );
}

fn stability_nodes(extra: usize) -> Vec<SyntaxNode> {
    vec![
        node("template", (0, 29 + extra), (0, 0), (1, 13 + extra), 11),
        node("assign_clause", (0, 15), (0, 0), (0, 15), 6),
        node("assign_begin", (0, 8), (0, 0), (0, 8), 3),
        node("variable", (9, 10), (0, 9), (0, 10), 4),
        node("assign_operator", (11, 12), (0, 11), (0, 12), 5),
        node("number", (13, 14), (0, 13), (0, 14), 6),
        node("if_clause", (16, 29 + extra), (1, 0), (1, 13 + extra), 11),
        node("if_begin", (16, 20), (1, 0), (1, 4), 8),
        node("variable", (21, 22 + extra), (1, 5), (1, 6 + extra), 9),
        node("close_tag", (22 + extra, 23 + extra), (1, 6 + extra), (1, 7 + extra), 10),
        node("if_close", (23 + extra, 29 + extra), (1, 7 + extra), (1, 13 + extra), 11),
    ]
}

#[test]
fn tokens_away_from_a_local_edit_stay_the_same() {
    let text = "<#assign x = 1>\n<#if y></#if>";
    let mut reactor = Reactor::new(
        "/work/page.ftl".to_string(),
        text,
        1,
        SyntaxTree { nodes: stability_nodes(0) },
        vec![],
    );
    let before = reactor.get_analysis().get_analyzed_semantic_tokens().clone();
    let change = ContentChange {
        range: Some(span(1, 5, 1, 5)),
        text: "z".to_string(),
    };
    let (doc, edit) = reactor.preview_change(&change, PositionEncodingKind::UTF16).unwrap();
    assert_eq!(reactor.get_document().to_text(), text);
    assert_eq!(doc.to_text(), "<#assign x = 1>\n<#if zy></#if>");
    let edit = edit.unwrap();
    assert_eq!(edit.start_byte, 21);
    assert_eq!(edit.new_end_byte, 22);
    assert_eq!(edit.start_position, Point { row: 1, column: 5 });
    reactor.install(2, doc, SyntaxTree { nodes: stability_nodes(1) }, vec![]);
    assert_eq!(reactor.version(), 2);
    let after = reactor.get_analysis().get_analyzed_semantic_tokens();
    assert_eq!(before.len(), after.len());
    // the whole first line and the `<#if` before the edit are unchanged
    assert_eq!(&before[..5], &after[..5]);
    assert_eq!(before[5].length + 1, after[5].length);
    assert_eq!(before[6].delta_start + 1, after[6].delta_start);
    assert_eq!(before[7], after[7]);
}

#[test]
fn refused_edit_leaves_the_reactor_as_it_was() {
    let text = "<#break>";
    let reactor = Reactor::new(
        "/work/page.ftl".to_string(),
        text,
        3,
        SyntaxTree {
            nodes: vec![
                node("template", (0, 8), (0, 0), (0, 8), 2),
                node("break_stmt", (0, 8), (0, 0), (0, 8), 2),
            ],
        },
        vec![],
    );
    let change = ContentChange { range: Some(span(4, 0, 4, 0)), text: "x".to_string() };
    assert!(reactor.preview_change(&change, PositionEncodingKind::UTF8).is_err());
    assert_eq!(reactor.get_document().to_text(), text);
    assert_eq!(reactor.get_analysis().get_analyzed_full_diagnostics().len(), 1);
}

#[test]
fn node_lookup_finds_the_deepest_named_node() {
    let tree = SyntaxTree { nodes: stability_nodes(0) };
    assert_eq!(tree.node_at(Point { row: 1, column: 5 }), Some(8));
    assert_eq!(tree.node_at(Point { row: 0, column: 15 }), Some(1));
    assert_eq!(tree.node_at(Point { row: 5, column: 0 }), None);
    let bad = SyntaxTree { nodes: vec![node("template", (0, 1), (0, 0), (0, 1), 3)] };
    assert!(!bad.check());
}

#[test]
fn empty_tree_gives_an_empty_analysis() {
    let a = analyze("", vec![], vec![]);
    assert!(a.get_analyzed_full_diagnostics().is_empty());
    assert!(a.get_analyzed_semantic_tokens().is_empty());
    assert!(a.get_analyzed_folding_ranges().is_empty());
    assert!(a.symbols().is_empty());
}
