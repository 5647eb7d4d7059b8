//! Diagnostics: their records, the fixed table of scenarios, and the
//! per-node diagnostic pass with its loop/switch scope stack.

use crate::rule::Rule;
use crate::syntax::{node_rule, SyntaxNode};
use crate::text::{text_between, Position, Range, TextDocument};
use crate::unicode::utf8_width;
use vstd::prelude::*;
use vstd::string::StringExecFns;

verus! {

/// Documentation page.
pub const DIRECTIVE_ASSIGN: &'static str = "https://freemarker.apache.org/docs/ref_directive_assign.html";

/// Documentation page.
pub const DIRECTIVE_IMPORT: &'static str = "https://freemarker.apache.org/docs/ref_directive_import.html";

/// Documentation page.
pub const DIRECTIVE_LIST_BREAK: &'static str = "https://freemarker.apache.org/docs/ref_directive_list.html#ref_list_break";

/// Documentation page.
pub const COMPARISON_EXPRESSION: &'static str = "https://freemarker.apache.org/docs/dgui_template_exp.html#dgui_template_exp_comparison";

/// Documentation page.
pub const TOPLEVEL_VARIABLE: &'static str = "https://freemarker.apache.org/docs/dgui_template_exp.html#dgui_template_exp_var_toplevel";

/// The source tag of diagnostics about syntax.
pub const SYNTAX: &'static str = "freemarker syntax";

/// The source tag of diagnostics about meaning (symbols, imports).
pub const SEMANTICS: &'static str = "freemarker semantics";

/// How serious a diagnostic is.
#[derive(Clone, Copy, Debug, PartialEq, Eq, Structural)]
pub enum Severity {
    Error,
    Warning,
    Information,
    Hint,
}

/// Which family of checks raised a diagnostic.
#[derive(Clone, Copy, Debug, PartialEq, Eq, Structural)]
pub enum Source {
    Syntax,
    Semantics,
}

/// The source tag of a diagnostic source.
pub open spec fn source_tag(s: Source) -> Seq<char> {
    match s {
        Source::Syntax => SYNTAX@,
        Source::Semantics => SEMANTICS@,
    }
}

impl Source {
    /// The source tag shown to the user.
    pub fn tag(&self) -> (r: &'static str)
        ensures
            r@ == source_tag(*self),
    {
        match self {
            Source::Syntax => SYNTAX,
            Source::Semantics => SEMANTICS,
        }
    }
}

/// A diagnostic with a stable code, severity, message and documentation link.
#[derive(Clone, Copy, Debug, PartialEq, Eq, Structural)]
pub enum Scenario {
    UndefinedMacro,
    BackslashedIdentifier,
    AmbiguousStringLiteral,
    DeprecatedEqualOperator,
    UndocumentedCloseTag,
    DeprecatedListBreak,
    UnexpectedBreakStmt,
    ImportPathNotExist,
    ImportPathNotFile,
    SelfImport,
    ImportPathDuplicated,
    ImportNamespaceDuplicated,
}

/// The stable code of a scenario.
pub open spec fn scenario_code(s: Scenario) -> Seq<char> {
    match s {
        Scenario::UndefinedMacro => "undefined_macro"@,
        Scenario::BackslashedIdentifier => "identifier_has_backslash"@,
        Scenario::AmbiguousStringLiteral => "ambiguous_string_literal"@,
        Scenario::DeprecatedEqualOperator => "deprecated_equal_operator"@,
        Scenario::UndocumentedCloseTag => "undocumented_close_tag"@,
        Scenario::DeprecatedListBreak => "deprecated_list_break"@,
        Scenario::UnexpectedBreakStmt => "unexpected_break_stmt"@,
        Scenario::ImportPathNotExist => "import_path_not_exist"@,
        Scenario::ImportPathNotFile => "import_path_not_file"@,
        Scenario::SelfImport => "self_import"@,
        Scenario::ImportPathDuplicated => "import_path_duplicated"@,
        Scenario::ImportNamespaceDuplicated => "import_namespace_duplicated"@,
    }
}

/// The severity of a scenario.
pub open spec fn scenario_severity(s: Scenario) -> Severity {
    match s {
        Scenario::UndefinedMacro => Severity::Error,
        Scenario::BackslashedIdentifier => Severity::Information,
        Scenario::AmbiguousStringLiteral => Severity::Warning,
        Scenario::DeprecatedEqualOperator => Severity::Warning,
        Scenario::UndocumentedCloseTag => Severity::Warning,
        Scenario::DeprecatedListBreak => Severity::Warning,
        Scenario::UnexpectedBreakStmt => Severity::Error,
        Scenario::ImportPathNotExist => Severity::Error,
        Scenario::ImportPathNotFile => Severity::Error,
        Scenario::SelfImport => Severity::Error,
        Scenario::ImportPathDuplicated => Severity::Warning,
        Scenario::ImportNamespaceDuplicated => Severity::Error,
    }
}

/// The source of a scenario.
pub open spec fn scenario_source(s: Scenario) -> Source {
    match s {
        Scenario::UndefinedMacro => Source::Semantics,
        Scenario::BackslashedIdentifier => Source::Syntax,
        Scenario::AmbiguousStringLiteral => Source::Syntax,
        Scenario::DeprecatedEqualOperator => Source::Syntax,
        Scenario::UndocumentedCloseTag => Source::Syntax,
        Scenario::DeprecatedListBreak => Source::Syntax,
        Scenario::UnexpectedBreakStmt => Source::Syntax,
        Scenario::ImportPathNotExist => Source::Semantics,
        Scenario::ImportPathNotFile => Source::Semantics,
        Scenario::SelfImport => Source::Semantics,
        Scenario::ImportPathDuplicated => Source::Semantics,
        Scenario::ImportNamespaceDuplicated => Source::Semantics,
    }
}

/// The message of a scenario.
pub open spec fn scenario_message(s: Scenario) -> Seq<char> {
    match s {
        Scenario::UndefinedMacro => "macro definition not found"@,
        Scenario::BackslashedIdentifier => "Reserved characters in the identifier must be escaped with a preceding backslash (\\), which decrease the readability, try best to avoid it."@,
        Scenario::AmbiguousStringLiteral => "Even though it is a valid syntax for <#assign> and <#local>, using string literal as L-value is still toxic."@,
        Scenario::DeprecatedEqualOperator => "In the context of comparisons, use '==' for equality checks, '=' is a deprecated alternative."@,
        Scenario::UndocumentedCloseTag => "Suggest using '>' as the close tag for non-capture <#assign>, '/>' is undocumented and wastes 1 more character."@,
        Scenario::DeprecatedListBreak => "break is deprecated for most use cases, as it doesn't work well with <#sep> and item?has_next. Instead, use sequence?take_while(predicate) to cut the sequence before you list it."@,
        Scenario::UnexpectedBreakStmt => "<#break> can only be used within <#list> or <#switch>."@,
        Scenario::ImportPathNotExist => "import path does not exist"@,
        Scenario::ImportPathNotFile => "import path is not a file"@,
        Scenario::SelfImport => "do not import the template itself"@,
        Scenario::ImportPathDuplicated => "import path is duplicated"@,
        Scenario::ImportNamespaceDuplicated => "import namespace is duplicated"@,
    }
}

/// The documentation page of a scenario.
pub open spec fn scenario_href(s: Scenario) -> Seq<char> {
    match s {
        Scenario::UndefinedMacro => DIRECTIVE_IMPORT@,
        Scenario::BackslashedIdentifier => TOPLEVEL_VARIABLE@,
        Scenario::AmbiguousStringLiteral => DIRECTIVE_ASSIGN@,
        Scenario::DeprecatedEqualOperator => COMPARISON_EXPRESSION@,
        Scenario::UndocumentedCloseTag => DIRECTIVE_ASSIGN@,
        Scenario::DeprecatedListBreak => DIRECTIVE_LIST_BREAK@,
        Scenario::UnexpectedBreakStmt => DIRECTIVE_LIST_BREAK@,
        Scenario::ImportPathNotExist => DIRECTIVE_IMPORT@,
        Scenario::ImportPathNotFile => DIRECTIVE_IMPORT@,
        Scenario::SelfImport => DIRECTIVE_IMPORT@,
        Scenario::ImportPathDuplicated => DIRECTIVE_IMPORT@,
        Scenario::ImportNamespaceDuplicated => DIRECTIVE_IMPORT@,
    }
}

impl Scenario {
    /// The stable code.
    pub fn code(&self) -> (r: &'static str)
        ensures
            r@ == scenario_code(*self),
    {
        match self {
            Scenario::UndefinedMacro => "undefined_macro",
            Scenario::BackslashedIdentifier => "identifier_has_backslash",
            Scenario::AmbiguousStringLiteral => "ambiguous_string_literal",
            Scenario::DeprecatedEqualOperator => "deprecated_equal_operator",
            Scenario::UndocumentedCloseTag => "undocumented_close_tag",
            Scenario::DeprecatedListBreak => "deprecated_list_break",
            Scenario::UnexpectedBreakStmt => "unexpected_break_stmt",
            Scenario::ImportPathNotExist => "import_path_not_exist",
            Scenario::ImportPathNotFile => "import_path_not_file",
            Scenario::SelfImport => "self_import",
            Scenario::ImportPathDuplicated => "import_path_duplicated",
            Scenario::ImportNamespaceDuplicated => "import_namespace_duplicated",
        }
    }

    /// The severity.
    pub fn severity(&self) -> (r: Severity)
        ensures
            r == scenario_severity(*self),
    {
        match self {
            Scenario::UndefinedMacro => Severity::Error,
            Scenario::BackslashedIdentifier => Severity::Information,
            Scenario::AmbiguousStringLiteral => Severity::Warning,
            Scenario::DeprecatedEqualOperator => Severity::Warning,
            Scenario::UndocumentedCloseTag => Severity::Warning,
            Scenario::DeprecatedListBreak => Severity::Warning,
            Scenario::UnexpectedBreakStmt => Severity::Error,
            Scenario::ImportPathNotExist => Severity::Error,
            Scenario::ImportPathNotFile => Severity::Error,
            Scenario::SelfImport => Severity::Error,
            Scenario::ImportPathDuplicated => Severity::Warning,
            Scenario::ImportNamespaceDuplicated => Severity::Error,
        }
    }

    /// The source.
    pub fn source(&self) -> (r: Source)
        ensures
            r == scenario_source(*self),
    {
        match self {
            Scenario::UndefinedMacro => Source::Semantics,
            Scenario::BackslashedIdentifier => Source::Syntax,
            Scenario::AmbiguousStringLiteral => Source::Syntax,
            Scenario::DeprecatedEqualOperator => Source::Syntax,
            Scenario::UndocumentedCloseTag => Source::Syntax,
            Scenario::DeprecatedListBreak => Source::Syntax,
            Scenario::UnexpectedBreakStmt => Source::Syntax,
            Scenario::ImportPathNotExist => Source::Semantics,
            Scenario::ImportPathNotFile => Source::Semantics,
            Scenario::SelfImport => Source::Semantics,
            Scenario::ImportPathDuplicated => Source::Semantics,
            Scenario::ImportNamespaceDuplicated => Source::Semantics,
        }
    }

    /// The message.
    pub fn message(&self) -> (r: &'static str)
        ensures
            r@ == scenario_message(*self),
    {
        match self {
            Scenario::UndefinedMacro => "macro definition not found",
            Scenario::BackslashedIdentifier => "Reserved characters in the identifier must be escaped with a preceding backslash (\\), which decrease the readability, try best to avoid it.",
            Scenario::AmbiguousStringLiteral => "Even though it is a valid syntax for <#assign> and <#local>, using string literal as L-value is still toxic.",
            Scenario::DeprecatedEqualOperator => "In the context of comparisons, use '==' for equality checks, '=' is a deprecated alternative.",
            Scenario::UndocumentedCloseTag => "Suggest using '>' as the close tag for non-capture <#assign>, '/>' is undocumented and wastes 1 more character.",
            Scenario::DeprecatedListBreak => "break is deprecated for most use cases, as it doesn't work well with <#sep> and item?has_next. Instead, use sequence?take_while(predicate) to cut the sequence before you list it.",
            Scenario::UnexpectedBreakStmt => "<#break> can only be used within <#list> or <#switch>.",
            Scenario::ImportPathNotExist => "import path does not exist",
            Scenario::ImportPathNotFile => "import path is not a file",
            Scenario::SelfImport => "do not import the template itself",
            Scenario::ImportPathDuplicated => "import path is duplicated",
            Scenario::ImportNamespaceDuplicated => "import namespace is duplicated",
        }
    }

    /// The documentation page.
    pub fn href(&self) -> (r: &'static str)
        ensures
            r@ == scenario_href(*self),
    {
        match self {
            Scenario::UndefinedMacro => DIRECTIVE_IMPORT,
            Scenario::BackslashedIdentifier => TOPLEVEL_VARIABLE,
            Scenario::AmbiguousStringLiteral => DIRECTIVE_ASSIGN,
            Scenario::DeprecatedEqualOperator => COMPARISON_EXPRESSION,
            Scenario::UndocumentedCloseTag => DIRECTIVE_ASSIGN,
            Scenario::DeprecatedListBreak => DIRECTIVE_LIST_BREAK,
            Scenario::UnexpectedBreakStmt => DIRECTIVE_LIST_BREAK,
            Scenario::ImportPathNotExist => DIRECTIVE_IMPORT,
            Scenario::ImportPathNotFile => DIRECTIVE_IMPORT,
            Scenario::SelfImport => DIRECTIVE_IMPORT,
            Scenario::ImportPathDuplicated => DIRECTIVE_IMPORT,
            Scenario::ImportNamespaceDuplicated => DIRECTIVE_IMPORT,
        }
    }
}
/// What a related location points at.
#[derive(Clone, Copy, Debug, PartialEq, Eq, Structural)]
pub enum RelatedKind {
    /// The first definition of a name.
    FirstDefined,
    /// The first import of a path.
    FirstImported,
}

/// The message shown beside a related location.
pub open spec fn related_message(k: RelatedKind) -> Seq<char> {
    match k {
        RelatedKind::FirstDefined => "first defined here"@,
        RelatedKind::FirstImported => "first imported here"@,
    }
}

impl RelatedKind {
    /// The message shown beside the related location.
    pub fn message(&self) -> (r: &'static str)
        ensures
            r@ == related_message(*self),
    {
        match self {
            RelatedKind::FirstDefined => "first defined here",
            RelatedKind::FirstImported => "first imported here",
        }
    }
}

/// Another place in the same document that a diagnostic refers to.
#[derive(Clone, Copy, Debug, PartialEq, Eq, Structural)]
pub struct RelatedLocation {
    pub range: Range,
    pub kind: RelatedKind,
}

/// A diagnostic record.
#[derive(Clone, Debug)]
pub struct Diagnostic {
    pub range: Range,
    pub severity: Severity,
    /// The scenario, whose code is the diagnostic's stable code; parse errors
    /// have none.
    pub scenario: Option<Scenario>,
    pub source: Source,
    pub message: String,
    pub related: Option<RelatedLocation>,
}

/// A diagnostic as a mathematical value.
pub struct DiagnosticView {
    pub range: Range,
    pub severity: Severity,
    pub scenario: Option<Scenario>,
    pub source: Source,
    pub message: Seq<char>,
    pub related: Option<RelatedLocation>,
}

impl View for Diagnostic {
    type V = DiagnosticView;

    open spec fn view(&self) -> DiagnosticView {
        DiagnosticView {
            range: self.range,
            severity: self.severity,
            scenario: self.scenario,
            source: self.source,
            message: self.message@,
            related: self.related,
        }
    }
}

impl Diagnostic {
    /// The stable code, if the diagnostic has one.
    pub fn code(&self) -> (r: Option<&'static str>)
        ensures
            r matches Some(c) ==> self.scenario matches Some(s) && c@ == scenario_code(s),
            r is None ==> self.scenario is None,
    {
        match self.scenario {
            Some(s) => Some(s.code()),
            None => None,
        }
    }
}

/// The diagnostic of a scenario at a range.
pub open spec fn scenario_view(s: Scenario, range: Range, related: Option<RelatedLocation>) -> DiagnosticView {
    DiagnosticView {
        range,
        severity: scenario_severity(s),
        scenario: Some(s),
        source: scenario_source(s),
        message: scenario_message(s),
        related,
    }
}

/// Builds the diagnostic of a scenario at a range.
pub fn scenario_diagnostic(s: Scenario, range: Range, related: Option<RelatedLocation>) -> (d: Diagnostic)
    ensures
        d@ == scenario_view(s, range, related),
{
    Diagnostic {
        range,
        severity: s.severity(),
        scenario: Some(s),
        source: s.source(),
        message: String::from_str(s.message()),
        related,
    }
}

/// The protocol range of a node.
pub open spec fn node_range(n: SyntaxNode) -> Range {
    Range {
        start: Position { line: n.start.row as u32, character: n.start.column as u32 },
        end: Position { line: n.end.row as u32, character: n.end.column as u32 },
    }
}

/// The protocol range of a node.
pub fn range_of(n: &SyntaxNode) -> (r: Range)
    ensures
        r == node_range(*n),
{
    Range {
        start: Position { line: n.start.row as u32, character: n.start.column as u32 },
        end: Position { line: n.end.row as u32, character: n.end.column as u32 },
    }
}

/// A node's bytes lie within the text, in order.
pub open spec fn node_in_text(s: Seq<char>, n: SyntaxNode) -> bool {
    n.start_byte <= n.end_byte <= utf8_width(s)
}

/// The text of a node; empty for a node whose bytes lie outside the text.
pub open spec fn node_text(s: Seq<char>, n: SyntaxNode) -> Seq<char> {
    if node_in_text(s, n) {
        text_between(s, n.start_byte as int, n.end_byte as int)
    } else {
        Seq::empty()
    }
}

/// The text of a node; empty for a node whose bytes lie outside the text.
pub fn text_of(doc: &TextDocument, n: &SyntaxNode) -> (t: String)
    ensures
        t@ == node_text(doc@, *n),
{
    let len = doc.len_bytes();
    if n.start_byte <= n.end_byte && n.end_byte <= len {
        doc.get_text_range(n.start_byte, n.end_byte)
    } else {
        String::new()
    }
}

/// The loop/switch scopes after a node: a list or switch opening pushes its
/// rule, a closing pops. Erroneous and missing nodes change nothing.
pub open spec fn scope_after(scope: Seq<Rule>, n: SyntaxNode) -> Seq<Rule> {
    if n.is_missing || n.is_error {
        scope
    } else {
        match node_rule(n) {
            Some(Rule::ListBegin) => scope.push(Rule::ListBegin),
            Some(Rule::SwitchBegin) => scope.push(Rule::SwitchBegin),
            Some(Rule::ListClose) | Some(Rule::SwitchClose) => if scope.len() > 0 {
                scope.drop_last()
            } else {
                scope
            },
            _ => scope,
        }
    }
}

/// What a break statement raises under the given scopes: a deprecation in
/// a loop, nothing in a switch, an error outside both.
pub open spec fn break_scenario(scope: Seq<Rule>) -> Option<Scenario> {
    if scope.len() == 0 {
        Some(Scenario::UnexpectedBreakStmt)
    } else if scope.last() == Rule::ListBegin {
        Some(Scenario::DeprecatedListBreak)
    } else {
        None
    }
}

/// The diagnostic, if any, that the diagnostic pass raises on a node under
/// the given scopes.
pub open spec fn node_diagnostic(s: Seq<char>, scope: Seq<Rule>, n: SyntaxNode) -> Option<DiagnosticView> {
    let range = node_range(n);
    if n.is_missing {
        Some(
            DiagnosticView {
                range,
                severity: Severity::Error,
                scenario: None,
                source: Source::Syntax,
                message: "Missing "@ + n.kind@ + " here"@,
                related: None,
            },
        )
    } else if n.is_error {
        Some(
            DiagnosticView {
                range,
                severity: Severity::Error,
                scenario: None,
                source: Source::Syntax,
                message: "ERROR: Unexpected '"@ + node_text(s, n) + "'.\n"@,
                related: None,
            },
        )
    } else {
        match node_rule(n) {
            Some(Rule::Identifier) => if node_text(s, n).contains('\\') {
                Some(scenario_view(Scenario::BackslashedIdentifier, range, None))
            } else {
                None
            },
            Some(Rule::AmbiguousStringLiteral) => Some(
                scenario_view(Scenario::AmbiguousStringLiteral, range, None),
            ),
            Some(Rule::DeprecatedEqualOperator) => Some(
                scenario_view(Scenario::DeprecatedEqualOperator, range, None),
            ),
            Some(Rule::UndocumentedCloseTag) => Some(
                scenario_view(Scenario::UndocumentedCloseTag, range, None),
            ),
            Some(Rule::BreakStmt) => match break_scenario(scope) {
                Some(sc) => Some(scenario_view(sc, range, None)),
                None => None,
            },
            _ => None,
        }
    }
}

/// A break statement raises exactly one diagnostic when no loop or switch
/// encloses it, and when the nearest one is a loop; none when the nearest is
/// a switch. Only that nearest scope decides which.
pub proof fn lemma_break_diagnostic(s: Seq<char>, scope: Seq<Rule>, n: SyntaxNode)
    requires
        node_rule(n) == Some(Rule::BreakStmt),
        !n.is_missing,
        !n.is_error,
    ensures
        scope.len() == 0 ==> node_diagnostic(s, scope, n) == Some(
            scenario_view(Scenario::UnexpectedBreakStmt, node_range(n), None),
        ),
        scope.len() > 0 && scope.last() == Rule::ListBegin ==> node_diagnostic(s, scope, n)
            == Some(scenario_view(Scenario::DeprecatedListBreak, node_range(n), None)),
        scope.len() > 0 && scope.last() != Rule::ListBegin ==> node_diagnostic(s, scope, n)
            is None,
        forall|other: Seq<Rule>|
            (other.len() == 0) == (scope.len() == 0) && (scope.len() > 0 ==> other.last()
                == scope.last()) ==> node_diagnostic(s, other, n) == node_diagnostic(s, scope, n),
{
}

/// The diagnostic pass: a stack of the loop and switch scopes that enclose
/// the node being visited.
pub struct DiagnosticAnalyzer {
    pub scope: Vec<Rule>,
}

impl DiagnosticAnalyzer {
    /// A pass with no open scope.
    pub fn new() -> (d: DiagnosticAnalyzer)
        ensures
            d.scope@.len() == 0,
    {
        DiagnosticAnalyzer { scope: Vec::new() }
    }

    /// Visits one node: returns its diagnostic and updates the scopes.
    pub fn analyze_node(&mut self, doc: &TextDocument, n: &SyntaxNode) -> (r: Option<Diagnostic>)
        ensures
            final(self).scope@ == scope_after(old(self).scope@, *n),
            r matches Some(d) ==> node_diagnostic(doc@, old(self).scope@, *n) == Some(d@),
            r is None ==> node_diagnostic(doc@, old(self).scope@, *n) is None,
    {
        let range = range_of(n);
        if n.is_missing {
            let mut message = String::from_str("Missing ");
            message.append(n.kind.as_str());
            message.append(" here");
            return Some(
                Diagnostic {
                    range,
                    severity: Severity::Error,
                    scenario: None,
                    source: Source::Syntax,
                    message,
                    related: None,
                },
            );
        }
        if n.is_error {
            let snippet = text_of(doc, n);
            let mut message = String::from_str("ERROR: Unexpected '");
            message.append(snippet.as_str());
            message.append("'.\n");
            return Some(
                Diagnostic {
                    range,
                    severity: Severity::Error,
                    scenario: None,
                    source: Source::Syntax,
                    message,
                    related: None,
                },
            );
        }
        match Rule::from_kind(n.kind.as_str()) {
            Some(Rule::Identifier) => {
                if doc.contains_char(n.start_byte, n.end_byte, '\\') {
                    Some(scenario_diagnostic(Scenario::BackslashedIdentifier, range, None))
                } else {
                    None
                }
            },
            Some(Rule::AmbiguousStringLiteral) => Some(
                scenario_diagnostic(Scenario::AmbiguousStringLiteral, range, None),
            ),
            Some(Rule::DeprecatedEqualOperator) => Some(
                scenario_diagnostic(Scenario::DeprecatedEqualOperator, range, None),
            ),
            Some(Rule::UndocumentedCloseTag) => Some(
                scenario_diagnostic(Scenario::UndocumentedCloseTag, range, None),
            ),
            Some(Rule::ListBegin) => {
                self.scope.push(Rule::ListBegin);
                None
            },
            Some(Rule::SwitchBegin) => {
                self.scope.push(Rule::SwitchBegin);
                None
            },
            Some(Rule::ListClose) | Some(Rule::SwitchClose) => {
                if self.scope.len() > 0 {
                    self.scope.pop();
                }
                None
            },
            Some(Rule::BreakStmt) => {
                let n_scopes = self.scope.len();
                if n_scopes == 0 {
                    Some(scenario_diagnostic(Scenario::UnexpectedBreakStmt, range, None))
                } else if self.scope[n_scopes - 1] == Rule::ListBegin {
                    Some(scenario_diagnostic(Scenario::DeprecatedListBreak, range, None))
                } else {
                    None
                }
            },
            _ => None,
        }
    }
}

} // verus!
