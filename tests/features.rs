use freemarker_lsp::action::{fix_text, quick_fix};
use freemarker_lsp::analysis::{Analysis, MacroNamespace};
use freemarker_lsp::folding::FoldingRange;
use freemarker_lsp::rule::Rule;
use freemarker_lsp::symbol::Symbol;
use freemarker_lsp::tokenizer::SemanticToken;
use freemarker_lsp::assets::{builtin_completions, directive_completions};
use freemarker_lsp::completion::{completion_kind, macro_completions, trigger_prefix, CompletionKind};
use freemarker_lsp::diagnosis::{scenario_diagnostic, Scenario};
use freemarker_lsp::format::{format_source, reset_state, FormatState};
use freemarker_lsp::goto::{definition_at, Definition};
use freemarker_lsp::hover::{hover_at, HoverContent};
use freemarker_lsp::reactor::Reactor;
use freemarker_lsp::symbol::{PathStatus, ResolvedImport};
use freemarker_lsp::syntax::{SyntaxNode, SyntaxTree};
use freemarker_lsp::text::{Point, Position, Range, TextDocument};
use freemarker_lsp::utils::{ftl_to_rust, trimmed};

fn node(kind: &str, bytes: (usize, usize), start: (usize, usize), end: (usize, usize), subtree_end: usize) -> SyntaxNode {
    SyntaxNode {
        kind: kind.to_string(),
        is_named: true,
        is_error: false,
        is_missing: false,
        start_byte: bytes.0,
        end_byte: bytes.1,
        start: Point { row: start.0, column: start.1 },
        end: Point { row: end.0, column: end.1 },
        subtree_end,
    }
}

fn span(l0: u32, c0: u32, l1: u32, c1: u32) -> Range {
    Range {
        start: Position { line: l0, character: c0 },
        end: Position { line: l1, character: c1 },
    }
}

// <#import "./a.ftl" as m>
// <#macro foo></#macro><@m.x/><@foo.y/>
fn sample() -> Reactor {
    let text = "<#import \"./a.ftl\" as m>\n<#macro foo></#macro><@m.x/><@foo.y/>";
    let nodes = vec![
        node("template", (0, 62), (0, 0), (1, 37), 12),
        node("import_stmt", (0, 24), (0, 0), (0, 24), 6),
        node("import_begin", (0, 8), (0, 0), (0, 8), 3),
        node("import_path", (9, 18), (0, 9), (0, 18), 4),
        node("keyword_as", (19, 21), (0, 19), (0, 21), 5),
        node("import_alias", (22, 23), (0, 22), (0, 23), 6),
        node("macro_clause", (25, 46), (1, 0), (1, 21), 9),
        node("macro_begin", (25, 32), (1, 0), (1, 7), 8),
        node("macro_name", (33, 36), (1, 8), (1, 11), 9),
        node("macro_call_begin", (46, 48), (1, 21), (1, 23), 10),
        node("macro_namespace", (48, 49), (1, 23), (1, 24), 11),
        node("macro_namespace", (55, 58), (1, 30), (1, 33), 12),
    ];
    let table = vec![ResolvedImport {
        literal: "./a.ftl".to_string(),
        status: PathStatus::File,
        canonical: "/work/a.ftl".to_string(),
    }];
    Reactor::new("/work/page.ftl".to_string(), text, 1, SyntaxTree { nodes }, table)
}

#[test]
fn sample_has_no_diagnostics() {
    let r = sample();
    assert!(r.get_tree().check());
    assert_eq!(r.get_analysis().get_analyzed_full_diagnostics().len(), 0);
}

#[test]
fn definitions_of_import_path_and_namespaces() {
    let r = sample();
    match definition_at(&r, Point { row: 0, column: 12 }) {
        Some(Definition::File(p)) => assert_eq!(p, "/work/a.ftl"),
        other => panic!("{:?}", other),
    }
    match definition_at(&r, Point { row: 1, column: 23 }) {
        Some(Definition::Import(p)) => assert_eq!(p, "./a.ftl"),
        other => panic!("{:?}", other),
    }
    match definition_at(&r, Point { row: 1, column: 31 }) {
        Some(Definition::Here(range)) => assert_eq!(range, span(1, 8, 1, 11)),
        other => panic!("{:?}", other),
    }
    assert!(definition_at(&r, Point { row: 0, column: 3 }).is_none());
}

#[test]
fn hover_on_a_namespace_shows_its_definition_line() {
    let r = sample();
    let h = hover_at(&r, Point { row: 1, column: 23 }).unwrap();
    assert_eq!(h.range, span(1, 23, 1, 24));
    match h.content {
        HoverContent::Code(c) => assert_eq!(c, "import \"./a.ftl\" as m"),
        other => panic!("{:?}", other),
    }
    assert!(hover_at(&r, Point { row: 0, column: 20 }).is_none());
}

#[test]
fn hover_on_a_builtin_shows_its_documentation() {
    let text = "${n?c}";
    let nodes = vec![
        node("template", (0, 6), (0, 0), (0, 6), 2),
        node("builtin_name", (4, 5), (0, 4), (0, 5), 2),
    ];
    let r = Reactor::new("/w/p.ftl".to_string(), text, 1, SyntaxTree { nodes }, vec![]);
    let h = hover_at(&r, Point { row: 0, column: 4 }).unwrap();
    match h.content {
        HoverContent::Markdown(m) => assert!(m.contains("?c")),
        other => panic!("{:?}", other),
    }
}

#[test]
fn ftl_lines_render_as_code() {
    assert_eq!(ftl_to_rust("  <#import \"a.ftl\" as a>  "), "import \"a.ftl\" as a");
    assert_eq!(ftl_to_rust("<#macro greet name>"), "macro greet name");
    assert_eq!(ftl_to_rust("<#assign x = 1>"), "<#assign x = 1");
    assert_eq!(ftl_to_rust(""), "");
    assert_eq!(trimmed("\t a b \n"), "a b");
}

#[test]
fn completion_triggers() {
    assert_eq!(completion_kind('#', Some('<')), Some(CompletionKind::Directive));
    assert_eq!(completion_kind('@', Some('<')), Some(CompletionKind::Macro));
    assert_eq!(completion_kind('?', None), Some(CompletionKind::Builtin));
    assert_eq!(completion_kind('#', Some('$')), None);
    assert_eq!(completion_kind('{', Some('$')), None);
    let doc = TextDocument::new("a <#\n<@");
    assert_eq!(trigger_prefix(&doc, Position { line: 0, character: 4 }), Some('<'));
    assert_eq!(trigger_prefix(&doc, Position { line: 1, character: 2 }), Some('<'));
    assert_eq!(trigger_prefix(&doc, Position { line: 1, character: 1 }), None);
}

#[test]
fn macro_completion_lists_each_namespace_once() {
    let r = sample();
    let items = macro_completions(&r);
    assert_eq!(items.len(), 2);
    assert_eq!(items[0].label, "m");
    assert_eq!(items[0].documentation, "```python\nimport \"./a.ftl\" as m\n```");
    assert_eq!(items[1].label, "foo");
    assert_eq!(items[1].documentation, "<#macro foo></#macro><@m.x/><@foo.y/>");
}

#[test]
fn asset_lists() {
    let d = directive_completions();
    assert_eq!(d.len(), 2);
    assert_eq!(d[0].label, "assign");
    assert_eq!(builtin_completions(), vec!["c".to_string()]);
}

#[test]
fn quick_fixes_for_style_diagnostics() {
    assert_eq!(fix_text("deprecated_equal_operator"), Some("=="));
    assert_eq!(fix_text("undocumented_close_tag"), Some(">"));
    assert_eq!(fix_text("unexpected_break_stmt"), None);
    let d = scenario_diagnostic(Scenario::DeprecatedEqualOperator, span(0, 4, 0, 5), None);
    let e = quick_fix(&d).unwrap();
    assert_eq!(e.new_text, "==");
    assert_eq!(e.range, span(0, 4, 0, 5));
    let d = scenario_diagnostic(Scenario::UndefinedMacro, span(0, 4, 0, 5), None);
    assert!(quick_fix(&d).is_none());
}

#[test]
fn formatting_indents_by_enclosing_clauses() {
    let text = "<#if a>\n<#assign x = 1>\n  text\n</#if>\n";
    let nodes = vec![
        node("template", (0, 38), (0, 0), (4, 0), 7),
        node("if_clause", (0, 37), (0, 0), (3, 6), 7),
        node("if_begin", (0, 4), (0, 0), (0, 4), 3),
        node("assign_clause", (8, 23), (1, 0), (1, 15), 5),
        node("assign_begin", (8, 16), (1, 0), (1, 8), 5),
        node("text", (24, 30), (2, 0), (2, 6), 6),
        node("if_close", (31, 37), (3, 0), (3, 6), 7),
    ];
    let doc = TextDocument::new(text);
    let tree = SyntaxTree { nodes };
    assert!(tree.check());
    let edits = format_source(&doc, &tree);
    assert_eq!(edits.len(), 1);
    assert_eq!(edits[0].new_text, "    <#if a>\n        <#assign x = 1>\n  text\n    </#if>\n");
    assert_eq!(edits[0].range, span(0, 0, 4, 6));
}

#[test]
fn reset_keeps_the_preset() {
    let s = reset_state(FormatState { preset: Some(3), indent: 2, has_directive: true });
    assert_eq!(s, FormatState { preset: Some(3), indent: 0, has_directive: false });
}

#[test]
fn namespaces_bind_to_imports_or_local_macros() {
    let r = sample();
    match r.get_analysis().macro_namespace("m") {
        Some(MacroNamespace::Import(im)) => {
            assert_eq!(im.path, "./a.ftl");
            assert!(im.path_valid);
            assert_eq!(im.alias_range, span(0, 22, 0, 23));
        }
        other => panic!("{:?}", other),
    }
    match r.get_analysis().macro_namespace("foo") {
        Some(MacroNamespace::Local(l)) => {
            assert_eq!(l.alias_range, span(1, 8, 1, 11));
            assert_eq!(l.row, 1);
        }
        other => panic!("{:?}", other),
    }
    assert!(r.get_analysis().macro_namespace("zzz").is_none());
}

#[test]
fn analysis_builders_append() {
    let r = sample();
    let mut a = Analysis::new(
        r.get_document(),
        r.get_tree(),
        "/work/page.ftl".to_string(),
        vec![],
    );
    let before = a.get_analyzed_full_diagnostics().len();
    a.add_diagnostic(scenario_diagnostic(Scenario::UndefinedMacro, span(0, 0, 0, 1), None));
    a.add_diagnostics(vec![scenario_diagnostic(Scenario::SelfImport, span(0, 0, 0, 1), None)]);
    assert_eq!(a.get_analyzed_full_diagnostics().len(), before + 2);
    a.add_folding_range(FoldingRange { start_line: 2, end_line: 3 });
    assert_eq!(a.get_analyzed_folding_ranges().last(), Some(&FoldingRange { start_line: 2, end_line: 3 }));
    let n = a.get_analyzed_semantic_tokens().len();
    a.add_semantic_tokens(vec![SemanticToken { delta_line: 1, delta_start: 0, length: 2, token_type: 5, token_modifiers_bitset: 0 }]);
    assert_eq!(a.get_analyzed_semantic_tokens().len(), n + 1);
    a.add_symbol("bar", Symbol { rule: Rule::MacroName, start_byte: 0, end_byte: 3, range: span(0, 0, 0, 3) });
    assert_eq!(a.find_symbol_definition("bar").unwrap().len(), 1);
    a.record_valid_import("./b.ftl", "/work/b.ftl".to_string());
    a.record_valid_import("./b.ftl", "/work/other.ftl".to_string());
    assert_eq!(a.get_valid_import("./b.ftl"), Some("/work/other.ftl".to_string()));
    assert_eq!(a.get_valid_import("./a.ftl"), None);
}
