use freemarker_lsp::rule::Rule;
use std::str::FromStr;

#[test]
fn test_freemarker_rule() {
    let rule_variant = Rule::from_str("nokia");
    assert!(rule_variant.is_err());
    let assign_clause = Rule::from_str("assign_clause").unwrap();
    assert_eq!(assign_clause, Rule::AssignClause);
    assert_eq!(assign_clause.to_string(), "assign_clause");
}

#[test]
fn rule_names_round_trip() {
    for r in [Rule::ImportStmt, Rule::BreakStmt, Rule::GreaterThanEqualOperator, Rule::MacroNamespace] {
        assert_eq!(Rule::from_kind(r.name()), Some(r));
    }
    assert_eq!(Rule::ImportStmt.name(), "import_stmt");
    assert_eq!(Rule::from_kind("ERROR"), None);
}
