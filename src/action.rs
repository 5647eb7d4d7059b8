//! Quick fixes: the replacement that clears a diagnostic, for the codes
//! that have one.

use crate::diagnosis::{scenario_code, Diagnostic};
use crate::rule::{rule_of_kind, Rule};
use crate::text::Range;
use vstd::prelude::*;
use vstd::string::StringExecFns;

verus! {

/// The text that replaces the range of a diagnostic with code `code`: the
/// code names the grammar rule that it reports.
pub open spec fn fix_text_of(code: Seq<char>) -> Option<Seq<char>> {
    match rule_of_kind(code) {
        Some(Rule::DeprecatedEqualOperator) => Some("=="@),
        Some(Rule::UndocumentedCloseTag) => Some(">"@),
        _ => None,
    }
}

/// The text that replaces the range of a diagnostic with code `code`.
pub fn fix_text(code: &str) -> (r: Option<&'static str>)
    ensures
        r matches Some(t) ==> fix_text_of(code@) == Some(t@),
        r is None ==> fix_text_of(code@) is None,
{
    match Rule::from_kind(code) {
        Some(Rule::DeprecatedEqualOperator) => Some("=="),
        Some(Rule::UndocumentedCloseTag) => Some(">"),
        _ => None,
    }
}

/// A replacement of a range of the document.
#[derive(Clone, Debug)]
pub struct TextEdit {
    pub range: Range,
    pub new_text: String,
}

/// The edit that fixes a diagnostic, for the codes that have one.
pub fn quick_fix(d: &Diagnostic) -> (r: Option<TextEdit>)
    ensures
        r matches Some(e) ==> d.scenario matches Some(s) && fix_text_of(scenario_code(s)) == Some(
            e.new_text@,
        ) && e.range == d.range,
        r is None ==> (d.scenario matches Some(s) ==> fix_text_of(scenario_code(s)) is None),
{
    match d.code() {
        Some(code) => match fix_text(code) {
            Some(t) => Some(TextEdit { range: d.range, new_text: String::from_str(t) }),
            None => None,
        },
        None => None,
    }
}

} // verus!
