//! The kinds of syntax-tree nodes that the analysis tells apart, and their
//! names in the grammar.

use vstd::prelude::*;
use vstd::string::StringExecFns;

verus! {

/// A grammar rule: the kind of a syntax-tree node.
#[derive(Clone, Copy, Debug, PartialEq, Eq, Structural)]
pub enum Rule {
    Comment,
    FunctionBegin,
    FunctionClose,
    FunctionName,
    BuiltinName,
    MacroName,
    KeywordAs,
    AssignBegin,
    AssignClose,
    LocalBegin,
    LocalClose,
    FtlBegin,
    IfBegin,
    ElseBegin,
    ElseifBegin,
    IfClose,
    ImportBegin,
    CloseTag,
    ListBegin,
    ListClose,
    SepBegin,
    SepClose,
    SwitchBegin,
    SwitchClose,
    BreakStmt,
    OnBegin,
    CaseBegin,
    DefaultBegin,
    ReturnBegin,
    UndocumentedCloseTag,
    MacroBegin,
    MacroClose,
    MacroCallBegin,
    MacroCallEnd,
    InterpolationPrepend,
    ImportAlias,
    MacroNamespace,
    Number,
    EqualOperator,
    AssignOperator,
    BinaryOperator,
    DefaultOperator,
    NegationOperator,
    GreaterThanOperator,
    GreaterThanEqualOperator,
    DeprecatedEqualOperator,
    ParameterName,
    Variable,
    Identifier,
    StringLiteral,
    ImportPath,
    AmbiguousStringLiteral,
    BooleanTrue,
    BooleanFalse,
    AssignClause,
    CaseClause,
    DefaultClause,
    ElseClause,
    FunctionClause,
    IfClause,
    ListClause,
    LocalClause,
    MacroClause,
    OnClause,
    SwitchClause,
    ImportStmt,
}

/// The name of a rule in the grammar.
pub open spec fn rule_name(r: Rule) -> Seq<char> {
    match r {
        Rule::Comment => "comment"@,
        Rule::FunctionBegin => "function_begin"@,
        Rule::FunctionClose => "function_close"@,
        Rule::FunctionName => "function_name"@,
        Rule::BuiltinName => "builtin_name"@,
        Rule::MacroName => "macro_name"@,
        Rule::KeywordAs => "keyword_as"@,
        Rule::AssignBegin => "assign_begin"@,
        Rule::AssignClose => "assign_close"@,
        Rule::LocalBegin => "local_begin"@,
        Rule::LocalClose => "local_close"@,
        Rule::FtlBegin => "ftl_begin"@,
        Rule::IfBegin => "if_begin"@,
        Rule::ElseBegin => "else_begin"@,
        Rule::ElseifBegin => "elseif_begin"@,
        Rule::IfClose => "if_close"@,
        Rule::ImportBegin => "import_begin"@,
        Rule::CloseTag => "close_tag"@,
        Rule::ListBegin => "list_begin"@,
        Rule::ListClose => "list_close"@,
        Rule::SepBegin => "sep_begin"@,
        Rule::SepClose => "sep_close"@,
        Rule::SwitchBegin => "switch_begin"@,
        Rule::SwitchClose => "switch_close"@,
        Rule::BreakStmt => "break_stmt"@,
        Rule::OnBegin => "on_begin"@,
        Rule::CaseBegin => "case_begin"@,
        Rule::DefaultBegin => "default_begin"@,
        Rule::ReturnBegin => "return_begin"@,
        Rule::UndocumentedCloseTag => "undocumented_close_tag"@,
        Rule::MacroBegin => "macro_begin"@,
        Rule::MacroClose => "macro_close"@,
        Rule::MacroCallBegin => "macro_call_begin"@,
        Rule::MacroCallEnd => "macro_call_end"@,
        Rule::InterpolationPrepend => "interpolation_prepend"@,
        Rule::ImportAlias => "import_alias"@,
        Rule::MacroNamespace => "macro_namespace"@,
        Rule::Number => "number"@,
        Rule::EqualOperator => "equal_operator"@,
        Rule::AssignOperator => "assign_operator"@,
        Rule::BinaryOperator => "binary_operator"@,
        Rule::DefaultOperator => "default_operator"@,
        Rule::NegationOperator => "negation_operator"@,
        Rule::GreaterThanOperator => "greater_than_operator"@,
        Rule::GreaterThanEqualOperator => "greater_than_equal_operator"@,
        Rule::DeprecatedEqualOperator => "deprecated_equal_operator"@,
        Rule::ParameterName => "parameter_name"@,
        Rule::Variable => "variable"@,
        Rule::Identifier => "identifier"@,
        Rule::StringLiteral => "string_literal"@,
        Rule::ImportPath => "import_path"@,
        Rule::AmbiguousStringLiteral => "ambiguous_string_literal"@,
        Rule::BooleanTrue => "boolean_true"@,
        Rule::BooleanFalse => "boolean_false"@,
        Rule::AssignClause => "assign_clause"@,
        Rule::CaseClause => "case_clause"@,
        Rule::DefaultClause => "default_clause"@,
        Rule::ElseClause => "else_clause"@,
        Rule::FunctionClause => "function_clause"@,
        Rule::IfClause => "if_clause"@,
        Rule::ListClause => "list_clause"@,
        Rule::LocalClause => "local_clause"@,
        Rule::MacroClause => "macro_clause"@,
        Rule::OnClause => "on_clause"@,
        Rule::SwitchClause => "switch_clause"@,
        Rule::ImportStmt => "import_stmt"@,
    }
}

/// The rule whose grammar name is `k`, if any.
pub open spec fn rule_of_kind(k: Seq<char>) -> Option<Rule> {
    if k == "comment"@ {
        Some(Rule::Comment)
    } else if k == "function_begin"@ {
        Some(Rule::FunctionBegin)
    } else if k == "function_close"@ {
        Some(Rule::FunctionClose)
    } else if k == "function_name"@ {
        Some(Rule::FunctionName)
    } else if k == "builtin_name"@ {
        Some(Rule::BuiltinName)
    } else if k == "macro_name"@ {
        Some(Rule::MacroName)
    } else if k == "keyword_as"@ {
        Some(Rule::KeywordAs)
    } else if k == "assign_begin"@ {
        Some(Rule::AssignBegin)
    } else if k == "assign_close"@ {
        Some(Rule::AssignClose)
    } else if k == "local_begin"@ {
        Some(Rule::LocalBegin)
    } else if k == "local_close"@ {
        Some(Rule::LocalClose)
    } else if k == "ftl_begin"@ {
        Some(Rule::FtlBegin)
    } else if k == "if_begin"@ {
        Some(Rule::IfBegin)
    } else if k == "else_begin"@ {
        Some(Rule::ElseBegin)
    } else if k == "elseif_begin"@ {
        Some(Rule::ElseifBegin)
    } else if k == "if_close"@ {
        Some(Rule::IfClose)
    } else if k == "import_begin"@ {
        Some(Rule::ImportBegin)
    } else if k == "close_tag"@ {
        Some(Rule::CloseTag)
    } else if k == "list_begin"@ {
        Some(Rule::ListBegin)
    } else if k == "list_close"@ {
        Some(Rule::ListClose)
    } else if k == "sep_begin"@ {
        Some(Rule::SepBegin)
    } else if k == "sep_close"@ {
        Some(Rule::SepClose)
    } else if k == "switch_begin"@ {
        Some(Rule::SwitchBegin)
    } else if k == "switch_close"@ {
        Some(Rule::SwitchClose)
    } else if k == "break_stmt"@ {
        Some(Rule::BreakStmt)
    } else if k == "on_begin"@ {
        Some(Rule::OnBegin)
    } else if k == "case_begin"@ {
        Some(Rule::CaseBegin)
    } else if k == "default_begin"@ {
        Some(Rule::DefaultBegin)
    } else if k == "return_begin"@ {
        Some(Rule::ReturnBegin)
    } else if k == "undocumented_close_tag"@ {
        Some(Rule::UndocumentedCloseTag)
    } else if k == "macro_begin"@ {
        Some(Rule::MacroBegin)
    } else if k == "macro_close"@ {
        Some(Rule::MacroClose)
    } else if k == "macro_call_begin"@ {
        Some(Rule::MacroCallBegin)
    } else if k == "macro_call_end"@ {
        Some(Rule::MacroCallEnd)
    } else if k == "interpolation_prepend"@ {
        Some(Rule::InterpolationPrepend)
    } else if k == "import_alias"@ {
        Some(Rule::ImportAlias)
    } else if k == "macro_namespace"@ {
        Some(Rule::MacroNamespace)
    } else if k == "number"@ {
        Some(Rule::Number)
    } else if k == "equal_operator"@ {
        Some(Rule::EqualOperator)
    } else if k == "assign_operator"@ {
        Some(Rule::AssignOperator)
    } else if k == "binary_operator"@ {
        Some(Rule::BinaryOperator)
    } else if k == "default_operator"@ {
        Some(Rule::DefaultOperator)
    } else if k == "negation_operator"@ {
        Some(Rule::NegationOperator)
    } else if k == "greater_than_operator"@ {
        Some(Rule::GreaterThanOperator)
    } else if k == "greater_than_equal_operator"@ {
        Some(Rule::GreaterThanEqualOperator)
    } else if k == "deprecated_equal_operator"@ {
        Some(Rule::DeprecatedEqualOperator)
    } else if k == "parameter_name"@ {
        Some(Rule::ParameterName)
    } else if k == "variable"@ {
        Some(Rule::Variable)
    } else if k == "identifier"@ {
        Some(Rule::Identifier)
    } else if k == "string_literal"@ {
        Some(Rule::StringLiteral)
    } else if k == "import_path"@ {
        Some(Rule::ImportPath)
    } else if k == "ambiguous_string_literal"@ {
        Some(Rule::AmbiguousStringLiteral)
    } else if k == "boolean_true"@ {
        Some(Rule::BooleanTrue)
    } else if k == "boolean_false"@ {
        Some(Rule::BooleanFalse)
    } else if k == "assign_clause"@ {
        Some(Rule::AssignClause)
    } else if k == "case_clause"@ {
        Some(Rule::CaseClause)
    } else if k == "default_clause"@ {
        Some(Rule::DefaultClause)
    } else if k == "else_clause"@ {
        Some(Rule::ElseClause)
    } else if k == "function_clause"@ {
        Some(Rule::FunctionClause)
    } else if k == "if_clause"@ {
        Some(Rule::IfClause)
    } else if k == "list_clause"@ {
        Some(Rule::ListClause)
    } else if k == "local_clause"@ {
        Some(Rule::LocalClause)
    } else if k == "macro_clause"@ {
        Some(Rule::MacroClause)
    } else if k == "on_clause"@ {
        Some(Rule::OnClause)
    } else if k == "switch_clause"@ {
        Some(Rule::SwitchClause)
    } else if k == "import_stmt"@ {
        Some(Rule::ImportStmt)
    } else {
        None
    }
}

/// Two strings hold the same characters.
pub fn same_text(a: &str, b: &str) -> (r: bool)
    ensures
        r == (a@ == b@),
{
    a.to_owned() == b.to_owned()
}

impl Rule {
    /// The rule's name in the grammar.
    pub fn name(&self) -> (s: &'static str)
        ensures
            s@ == rule_name(*self),
    {
        match self {
            Rule::Comment => "comment",
            Rule::FunctionBegin => "function_begin",
            Rule::FunctionClose => "function_close",
            Rule::FunctionName => "function_name",
            Rule::BuiltinName => "builtin_name",
            Rule::MacroName => "macro_name",
            Rule::KeywordAs => "keyword_as",
            Rule::AssignBegin => "assign_begin",
            Rule::AssignClose => "assign_close",
            Rule::LocalBegin => "local_begin",
            Rule::LocalClose => "local_close",
            Rule::FtlBegin => "ftl_begin",
            Rule::IfBegin => "if_begin",
            Rule::ElseBegin => "else_begin",
            Rule::ElseifBegin => "elseif_begin",
            Rule::IfClose => "if_close",
            Rule::ImportBegin => "import_begin",
            Rule::CloseTag => "close_tag",
            Rule::ListBegin => "list_begin",
            Rule::ListClose => "list_close",
            Rule::SepBegin => "sep_begin",
            Rule::SepClose => "sep_close",
            Rule::SwitchBegin => "switch_begin",
            Rule::SwitchClose => "switch_close",
            Rule::BreakStmt => "break_stmt",
            Rule::OnBegin => "on_begin",
            Rule::CaseBegin => "case_begin",
            Rule::DefaultBegin => "default_begin",
            Rule::ReturnBegin => "return_begin",
            Rule::UndocumentedCloseTag => "undocumented_close_tag",
            Rule::MacroBegin => "macro_begin",
            Rule::MacroClose => "macro_close",
            Rule::MacroCallBegin => "macro_call_begin",
            Rule::MacroCallEnd => "macro_call_end",
            Rule::InterpolationPrepend => "interpolation_prepend",
            Rule::ImportAlias => "import_alias",
            Rule::MacroNamespace => "macro_namespace",
            Rule::Number => "number",
            Rule::EqualOperator => "equal_operator",
            Rule::AssignOperator => "assign_operator",
            Rule::BinaryOperator => "binary_operator",
            Rule::DefaultOperator => "default_operator",
            Rule::NegationOperator => "negation_operator",
            Rule::GreaterThanOperator => "greater_than_operator",
            Rule::GreaterThanEqualOperator => "greater_than_equal_operator",
            Rule::DeprecatedEqualOperator => "deprecated_equal_operator",
            Rule::ParameterName => "parameter_name",
            Rule::Variable => "variable",
            Rule::Identifier => "identifier",
            Rule::StringLiteral => "string_literal",
            Rule::ImportPath => "import_path",
            Rule::AmbiguousStringLiteral => "ambiguous_string_literal",
            Rule::BooleanTrue => "boolean_true",
            Rule::BooleanFalse => "boolean_false",
            Rule::AssignClause => "assign_clause",
            Rule::CaseClause => "case_clause",
            Rule::DefaultClause => "default_clause",
            Rule::ElseClause => "else_clause",
            Rule::FunctionClause => "function_clause",
            Rule::IfClause => "if_clause",
            Rule::ListClause => "list_clause",
            Rule::LocalClause => "local_clause",
            Rule::MacroClause => "macro_clause",
            Rule::OnClause => "on_clause",
            Rule::SwitchClause => "switch_clause",
            Rule::ImportStmt => "import_stmt",
        }
    }

    /// The rule's name in the grammar, as an owned string.
    pub fn to_string(&self) -> (s: String)
        ensures
            s@ == rule_name(*self),
    {
        String::from_str(self.name())
    }

    /// The rule whose grammar name is `kind`, if any.
    pub fn from_kind(kind: &str) -> (r: Option<Rule>)
        ensures
            r == rule_of_kind(kind@),
            r matches Some(x) ==> rule_name(x) == kind@,
            r is None ==> forall|x: Rule| rule_name(x) != kind@,
    {
        if same_text(kind, "comment") {
            Some(Rule::Comment)
        } else if same_text(kind, "function_begin") {
            Some(Rule::FunctionBegin)
        } else if same_text(kind, "function_close") {
            Some(Rule::FunctionClose)
        } else if same_text(kind, "function_name") {
            Some(Rule::FunctionName)
        } else if same_text(kind, "builtin_name") {
            Some(Rule::BuiltinName)
        } else if same_text(kind, "macro_name") {
            Some(Rule::MacroName)
        } else if same_text(kind, "keyword_as") {
            Some(Rule::KeywordAs)
        } else if same_text(kind, "assign_begin") {
            Some(Rule::AssignBegin)
        } else if same_text(kind, "assign_close") {
            Some(Rule::AssignClose)
        } else if same_text(kind, "local_begin") {
            Some(Rule::LocalBegin)
        } else if same_text(kind, "local_close") {
            Some(Rule::LocalClose)
        } else if same_text(kind, "ftl_begin") {
            Some(Rule::FtlBegin)
        } else if same_text(kind, "if_begin") {
            Some(Rule::IfBegin)
        } else if same_text(kind, "else_begin") {
            Some(Rule::ElseBegin)
        } else if same_text(kind, "elseif_begin") {
            Some(Rule::ElseifBegin)
        } else if same_text(kind, "if_close") {
            Some(Rule::IfClose)
        } else if same_text(kind, "import_begin") {
            Some(Rule::ImportBegin)
        } else if same_text(kind, "close_tag") {
            Some(Rule::CloseTag)
        } else if same_text(kind, "list_begin") {
            Some(Rule::ListBegin)
        } else if same_text(kind, "list_close") {
            Some(Rule::ListClose)
        } else if same_text(kind, "sep_begin") {
            Some(Rule::SepBegin)
        } else if same_text(kind, "sep_close") {
            Some(Rule::SepClose)
        } else if same_text(kind, "switch_begin") {
            Some(Rule::SwitchBegin)
        } else if same_text(kind, "switch_close") {
            Some(Rule::SwitchClose)
        } else if same_text(kind, "break_stmt") {
            Some(Rule::BreakStmt)
        } else if same_text(kind, "on_begin") {
            Some(Rule::OnBegin)
        } else if same_text(kind, "case_begin") {
            Some(Rule::CaseBegin)
        } else if same_text(kind, "default_begin") {
            Some(Rule::DefaultBegin)
        } else if same_text(kind, "return_begin") {
            Some(Rule::ReturnBegin)
        } else if same_text(kind, "undocumented_close_tag") {
            Some(Rule::UndocumentedCloseTag)
        } else if same_text(kind, "macro_begin") {
            Some(Rule::MacroBegin)
        } else if same_text(kind, "macro_close") {
            Some(Rule::MacroClose)
        } else if same_text(kind, "macro_call_begin") {
            Some(Rule::MacroCallBegin)
        } else if same_text(kind, "macro_call_end") {
            Some(Rule::MacroCallEnd)
        } else if same_text(kind, "interpolation_prepend") {
            Some(Rule::InterpolationPrepend)
        } else if same_text(kind, "import_alias") {
            Some(Rule::ImportAlias)
        } else if same_text(kind, "macro_namespace") {
            Some(Rule::MacroNamespace)
        } else if same_text(kind, "number") {
            Some(Rule::Number)
        } else if same_text(kind, "equal_operator") {
            Some(Rule::EqualOperator)
        } else if same_text(kind, "assign_operator") {
            Some(Rule::AssignOperator)
        } else if same_text(kind, "binary_operator") {
            Some(Rule::BinaryOperator)
        } else if same_text(kind, "default_operator") {
            Some(Rule::DefaultOperator)
        } else if same_text(kind, "negation_operator") {
            Some(Rule::NegationOperator)
        } else if same_text(kind, "greater_than_operator") {
            Some(Rule::GreaterThanOperator)
        } else if same_text(kind, "greater_than_equal_operator") {
            Some(Rule::GreaterThanEqualOperator)
        } else if same_text(kind, "deprecated_equal_operator") {
            Some(Rule::DeprecatedEqualOperator)
        } else if same_text(kind, "parameter_name") {
            Some(Rule::ParameterName)
        } else if same_text(kind, "variable") {
            Some(Rule::Variable)
        } else if same_text(kind, "identifier") {
            Some(Rule::Identifier)
        } else if same_text(kind, "string_literal") {
            Some(Rule::StringLiteral)
        } else if same_text(kind, "import_path") {
            Some(Rule::ImportPath)
        } else if same_text(kind, "ambiguous_string_literal") {
            Some(Rule::AmbiguousStringLiteral)
        } else if same_text(kind, "boolean_true") {
            Some(Rule::BooleanTrue)
        } else if same_text(kind, "boolean_false") {
            Some(Rule::BooleanFalse)
        } else if same_text(kind, "assign_clause") {
            Some(Rule::AssignClause)
        } else if same_text(kind, "case_clause") {
            Some(Rule::CaseClause)
        } else if same_text(kind, "default_clause") {
            Some(Rule::DefaultClause)
        } else if same_text(kind, "else_clause") {
            Some(Rule::ElseClause)
        } else if same_text(kind, "function_clause") {
            Some(Rule::FunctionClause)
        } else if same_text(kind, "if_clause") {
            Some(Rule::IfClause)
        } else if same_text(kind, "list_clause") {
            Some(Rule::ListClause)
        } else if same_text(kind, "local_clause") {
            Some(Rule::LocalClause)
        } else if same_text(kind, "macro_clause") {
            Some(Rule::MacroClause)
        } else if same_text(kind, "on_clause") {
            Some(Rule::OnClause)
        } else if same_text(kind, "switch_clause") {
            Some(Rule::SwitchClause)
        } else if same_text(kind, "import_stmt") {
            Some(Rule::ImportStmt)
        } else {
            None
        }
    }
}

impl std::str::FromStr for Rule {
    type Err = ();

    fn from_str(s: &str) -> Result<Rule, ()> {
        match Rule::from_kind(s) {
            Some(r) => Ok(r),
            None => Err(()),
        }
    }
}

} // verus!
