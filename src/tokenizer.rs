//! The semantic-token pass: grammar kinds to highlighting categories, and
//! the delta encoding of tokens, one per line that a node covers.

use crate::rule::Rule;
use crate::syntax::{node_rule, point_le, SyntaxNode};
use crate::text::{line_bytes, Point, TextDocument};
use vstd::prelude::*;

verus! {

/// A highlighting category; its index is its place in the legend.
#[derive(Clone, Copy, Debug, PartialEq, Eq, Structural)]
pub enum TokenType {
    Boolean,
    Call,
    Comment,
    Decorator,
    Function,
    Keyword,
    Macro,
    Namespace,
    Number,
    Operator,
    Parameter,
    String,
    Variable,
}

/// The index of a category in the legend.
pub open spec fn token_type_index(t: TokenType) -> u32 {
    match t {
        TokenType::Boolean => 0,
        TokenType::Call => 1,
        TokenType::Comment => 2,
        TokenType::Decorator => 3,
        TokenType::Function => 4,
        TokenType::Keyword => 5,
        TokenType::Macro => 6,
        TokenType::Namespace => 7,
        TokenType::Number => 8,
        TokenType::Operator => 9,
        TokenType::Parameter => 10,
        TokenType::String => 11,
        TokenType::Variable => 12,
    }
}

impl TokenType {
    /// The index of the category in the legend.
    pub fn index(&self) -> (r: u32)
        ensures
            r == token_type_index(*self),
    {
        match self {
            TokenType::Boolean => 0,
            TokenType::Call => 1,
            TokenType::Comment => 2,
            TokenType::Decorator => 3,
            TokenType::Function => 4,
            TokenType::Keyword => 5,
            TokenType::Macro => 6,
            TokenType::Namespace => 7,
            TokenType::Number => 8,
            TokenType::Operator => 9,
            TokenType::Parameter => 10,
            TokenType::String => 11,
            TokenType::Variable => 12,
        }
    }

    /// The categories in legend order.
    pub fn legend() -> (v: Vec<TokenType>)
        ensures
            v@.len() == 13,
            forall|i: int| 0 <= i < 13 ==> token_type_index(#[trigger] v@[i]) == i,
    {
        vec![TokenType::Boolean, TokenType::Call, TokenType::Comment, TokenType::Decorator, TokenType::Function, TokenType::Keyword, TokenType::Macro, TokenType::Namespace, TokenType::Number, TokenType::Operator, TokenType::Parameter, TokenType::String, TokenType::Variable]
    }
}

/// A token modifier; its bit is `1 << index`.
#[derive(Clone, Copy, Debug, PartialEq, Eq, Structural)]
pub enum Modifier {
    Deprecated,
    Readonly,
}

/// The modifier bit of deprecated text.
pub const DEPRECATED: u32 = 1;

/// The modifier bit of read-only values.
pub const READONLY: u32 = 2;

/// The category and modifier bits of the tokens of a rule, if it has any.
pub open spec fn token_class(r: Rule) -> Option<(TokenType, u32)> {
    match r {
        Rule::Comment => Some((TokenType::Comment, 0)),
        Rule::FunctionBegin | Rule::FunctionClose => Some((TokenType::Keyword, 0)),
        Rule::FunctionName | Rule::BuiltinName | Rule::MacroName => Some((TokenType::Call, 0)),
        Rule::KeywordAs | Rule::AssignBegin | Rule::AssignClose | Rule::LocalBegin | Rule::LocalClose | Rule::FtlBegin | Rule::IfBegin | Rule::ElseBegin | Rule::ElseifBegin | Rule::IfClose | Rule::ImportBegin | Rule::CloseTag | Rule::ListBegin | Rule::ListClose | Rule::SepBegin | Rule::SepClose | Rule::SwitchBegin | Rule::SwitchClose | Rule::BreakStmt | Rule::OnBegin | Rule::CaseBegin | Rule::DefaultBegin | Rule::ReturnBegin => Some((TokenType::Keyword, 0)),
        Rule::UndocumentedCloseTag => Some((TokenType::Keyword, DEPRECATED)),
        Rule::MacroBegin | Rule::MacroClose | Rule::MacroCallBegin | Rule::MacroCallEnd | Rule::InterpolationPrepend => Some((TokenType::Macro, 0)),
        Rule::ImportAlias | Rule::MacroNamespace => Some((TokenType::Namespace, 0)),
        Rule::Number => Some((TokenType::Number, 0)),
        Rule::EqualOperator | Rule::AssignOperator | Rule::BinaryOperator | Rule::DefaultOperator | Rule::NegationOperator | Rule::GreaterThanOperator | Rule::GreaterThanEqualOperator => Some((TokenType::Operator, 0)),
        Rule::DeprecatedEqualOperator => Some((TokenType::Operator, DEPRECATED)),
        Rule::ParameterName => Some((TokenType::Parameter, 0)),
        Rule::Variable | Rule::Identifier => Some((TokenType::Variable, 0)),
        Rule::StringLiteral | Rule::ImportPath | Rule::AmbiguousStringLiteral => Some((TokenType::String, 0)),
        Rule::BooleanTrue | Rule::BooleanFalse => Some((TokenType::Boolean, READONLY)),
        _ => None,
    }
}

/// The category and modifier bits of the tokens of a rule, if it has any.
pub fn classify(r: Rule) -> (c: Option<(TokenType, u32)>)
    ensures
        c == token_class(r),
{
    match r {
        Rule::Comment => Some((TokenType::Comment, 0)),
        Rule::FunctionBegin | Rule::FunctionClose => Some((TokenType::Keyword, 0)),
        Rule::FunctionName | Rule::BuiltinName | Rule::MacroName => Some((TokenType::Call, 0)),
        Rule::KeywordAs | Rule::AssignBegin | Rule::AssignClose | Rule::LocalBegin | Rule::LocalClose | Rule::FtlBegin | Rule::IfBegin | Rule::ElseBegin | Rule::ElseifBegin | Rule::IfClose | Rule::ImportBegin | Rule::CloseTag | Rule::ListBegin | Rule::ListClose | Rule::SepBegin | Rule::SepClose | Rule::SwitchBegin | Rule::SwitchClose | Rule::BreakStmt | Rule::OnBegin | Rule::CaseBegin | Rule::DefaultBegin | Rule::ReturnBegin => Some((TokenType::Keyword, 0)),
        Rule::UndocumentedCloseTag => Some((TokenType::Keyword, DEPRECATED)),
        Rule::MacroBegin | Rule::MacroClose | Rule::MacroCallBegin | Rule::MacroCallEnd | Rule::InterpolationPrepend => Some((TokenType::Macro, 0)),
        Rule::ImportAlias | Rule::MacroNamespace => Some((TokenType::Namespace, 0)),
        Rule::Number => Some((TokenType::Number, 0)),
        Rule::EqualOperator | Rule::AssignOperator | Rule::BinaryOperator | Rule::DefaultOperator | Rule::NegationOperator | Rule::GreaterThanOperator | Rule::GreaterThanEqualOperator => Some((TokenType::Operator, 0)),
        Rule::DeprecatedEqualOperator => Some((TokenType::Operator, DEPRECATED)),
        Rule::ParameterName => Some((TokenType::Parameter, 0)),
        Rule::Variable | Rule::Identifier => Some((TokenType::Variable, 0)),
        Rule::StringLiteral | Rule::ImportPath | Rule::AmbiguousStringLiteral => Some((TokenType::String, 0)),
        Rule::BooleanTrue | Rule::BooleanFalse => Some((TokenType::Boolean, READONLY)),
        _ => None,
    }
}
/// A token in delta form: its line relative to the previous token, its
/// start relative to the previous token's start on the same line (or to
/// the line start), its length, category index and modifier bits.
#[derive(Clone, Copy, Debug, PartialEq, Eq, Structural)]
pub struct SemanticToken {
    pub delta_line: u32,
    pub delta_start: u32,
    pub length: u32,
    pub token_type: u32,
    pub token_modifiers_bitset: u32,
}

/// The token at `at` of length `len`, encoded after a token at `prev`.
pub open spec fn encode(prev: Point, at: Point, len: int, t: TokenType, m: u32) -> SemanticToken {
    SemanticToken {
        delta_line: (at.row - prev.row) as u32,
        delta_start: (if at.row == prev.row {
            at.column - prev.column
        } else {
            at.column as int
        }) as u32,
        length: len as u32,
        token_type: token_type_index(t),
        token_modifiers_bitset: m,
    }
}

/// `a - b`, or 0 when `b` is larger.
pub open spec fn sat_sub(a: int, b: int) -> int {
    if a >= b {
        a - b
    } else {
        0
    }
}

/// A token that fills line `row` from its start, right below the previous.
pub open spec fn line_token(s: Seq<char>, row: int, t: TokenType, m: u32) -> SemanticToken {
    SemanticToken {
        delta_line: 1,
        delta_start: 0,
        length: line_bytes(s, row as nat) as u32,
        token_type: token_type_index(t),
        token_modifiers_bitset: m,
    }
}

/// The tokens of a node, after a token at `prev`: one for a node on one
/// line; otherwise one for the rest of the first line, one for each whole
/// line between, and one for the last line up to the node's end.
pub open spec fn node_tokens(s: Seq<char>, prev: Point, n: SyntaxNode, t: TokenType, m: u32) -> Seq<
    SemanticToken,
> {
    if n.start.row == n.end.row {
        seq![encode(prev, n.start, sat_sub(n.end_byte as int, n.start_byte as int), t, m)]
    } else {
        let r0 = n.start.row as int;
        let first = encode(
            prev,
            n.start,
            sat_sub(line_bytes(s, r0 as nat) as int, n.start.column as int),
            t,
            m,
        );
        let last = SemanticToken {
            delta_line: 1,
            delta_start: 0,
            length: n.end.column as u32,
            token_type: token_type_index(t),
            token_modifiers_bitset: m,
        };
        seq![first] + Seq::new(
            (n.end.row - n.start.row - 1) as nat,
            |k: int| line_token(s, r0 + 1 + k, t, m),
        ) + seq![last]
    }
}

/// Where the last token of a node starts.
pub open spec fn node_token_end(n: SyntaxNode) -> Point {
    if n.start.row == n.end.row {
        n.start
    } else {
        Point { row: n.end.row, column: 0 }
    }
}

/// The token pass's output so far and the start of the last token.
pub struct TokenState {
    pub tokens: Seq<SemanticToken>,
    pub prev: Point,
}

/// The token pass on one node. Erroneous and missing nodes, kinds without a
/// category, nodes that end before they start, and nodes that start before
/// the previous token (which the delta form cannot express) add nothing.
pub open spec fn token_step(s: Seq<char>, st: TokenState, n: SyntaxNode) -> TokenState {
    if n.is_error || n.is_missing || !point_le(st.prev, n.start) || n.end.row < n.start.row {
        st
    } else {
        match node_rule(n) {
            Some(r) => match token_class(r) {
                Some((t, m)) => TokenState {
                    tokens: st.tokens + node_tokens(s, st.prev, n, t, m),
                    prev: node_token_end(n),
                },
                None => st,
            },
            None => st,
        }
    }
}

/// The token pass: the start of the last token emitted.
pub struct SemanticTokenAnalyzer {
    pub prev_start: Point,
}

impl SemanticTokenAnalyzer {
    /// A pass that has emitted nothing: the first token is encoded from the
    /// document start.
    pub fn new() -> (a: SemanticTokenAnalyzer)
        ensures
            a.prev_start == (Point { row: 0, column: 0 }),
    {
        SemanticTokenAnalyzer { prev_start: Point { row: 0, column: 0 } }
    }

    /// Visits one node, appending its tokens to `out`.
    pub fn analyze_node(&mut self, doc: &TextDocument, n: &SyntaxNode, out: &mut Vec<SemanticToken>)
        ensures
            token_step(doc@, TokenState { tokens: old(out)@, prev: old(self).prev_start }, *n)
                == (TokenState { tokens: final(out)@, prev: final(self).prev_start }),
    {
        let prev = self.prev_start;
        if n.is_error || n.is_missing {
            return;
        }
        if !(prev.row < n.start.row || (prev.row == n.start.row && prev.column <= n.start.column)) {
            return;
        }
        if n.end.row < n.start.row {
            return;
        }
        let rule = match Rule::from_kind(n.kind.as_str()) {
            Some(r) => r,
            None => {
                return;
            },
        };
        let (t, m) = match classify(rule) {
            Some(c) => c,
            None => {
                return;
            },
        };
        let ghost s = doc@;
        let ghost old_out = out@;
        let ti = t.index();
        let delta_line = (n.start.row - prev.row) as u32;
        let delta_start = if n.start.row == prev.row {
            (n.start.column - prev.column) as u32
        } else {
            n.start.column as u32
        };
        if n.start.row == n.end.row {
            let len = if n.end_byte >= n.start_byte {
                n.end_byte - n.start_byte
            } else {
                0
            };
            out.push(
                SemanticToken {
                    delta_line,
                    delta_start,
                    length: len as u32,
                    token_type: ti,
                    token_modifiers_bitset: m,
                },
            );
            self.prev_start = n.start;
            proof {
                assert(out@ =~= old_out + node_tokens(s, prev, *n, t, m));
            }
            return;
        }
        let first_line = doc.line_byte_len(n.start.row);
        let first_len = if first_line >= n.start.column {
            first_line - n.start.column
        } else {
            0
        };
        out.push(
            SemanticToken {
                delta_line,
                delta_start,
                length: first_len as u32,
                token_type: ti,
                token_modifiers_bitset: m,
            },
        );
        let ghost first = out@.last();
        let r0 = n.start.row;
        let mut row = r0 + 1;
        while row < n.end.row
            invariant
                r0 == n.start.row,
                r0 < row <= n.end.row,
                s == doc@,
                ti == token_type_index(t),
                out@ =~= old_out + seq![first] + Seq::new(
                    (row - r0 - 1) as nat,
                    |k: int| line_token(s, r0 + 1 + k, t, m),
                ),
            decreases n.end.row - row,
        {
            let len = doc.line_byte_len(row);
            out.push(
                SemanticToken {
                    delta_line: 1,
                    delta_start: 0,
                    length: len as u32,
                    token_type: ti,
                    token_modifiers_bitset: m,
                },
            );
            row += 1;
        }
        out.push(
            SemanticToken {
                delta_line: 1,
                delta_start: 0,
                length: n.end.column as u32,
                token_type: ti,
                token_modifiers_bitset: m,
            },
        );
        self.prev_start = Point { row: n.end.row, column: 0 };
        proof {
            assert(out@ =~= old_out + node_tokens(s, prev, *n, t, m));
        }
    }
}

} // verus!
