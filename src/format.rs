//! Formatting: each line that starts a directive is re-indented by the
//! number of clauses that enclose it, four spaces each, after the
//! indentation that the top-level directives had.

use crate::action::TextEdit;
use crate::syntax::{covers, SyntaxNode, SyntaxTree};
use crate::completion::line_body;
use crate::text::{line_bytes, Point, Position, Range, TextDocument};
use crate::unicode::{newline_count, utf8_len};
use crate::utils::{
    char_is_whitespace, is_space, line_of, line_text, starts_with, trim, trim_start, trimmed,
};
use vstd::prelude::*;
use vstd::string::{StrSliceExecFns, StringExecFns};

verus! {

/// The formatter's state between lines.
#[derive(Clone, Copy, Debug, PartialEq, Eq, Structural)]
pub struct FormatState {
    /// The column of the top-level directives, once known.
    pub preset: Option<usize>,
    /// The number of clauses around the current line's directive.
    pub indent: usize,
    /// The current line starts a directive.
    pub has_directive: bool,
}

/// The state for the next line: the preset is kept.
pub open spec fn reset_spec(st: FormatState) -> FormatState {
    FormatState { preset: st.preset, indent: 0, has_directive: false }
}

/// The state for the next line: the preset is kept.
pub fn reset_state(state: FormatState) -> (r: FormatState)
    ensures
        r == reset_spec(state),
{
    FormatState { preset: state.preset, indent: 0, has_directive: false }
}

/// The last node before index `i` in pre-order that spans from `a` to `b`:
/// the smallest one.
pub open spec fn deepest_spanning(nodes: Seq<SyntaxNode>, a: Point, b: Point, i: int) -> Option<int>
    decreases i,
{
    if i <= 0 || i > nodes.len() {
        None
    } else if covers(nodes[i - 1], a) && covers(nodes[i - 1], b) {
        Some(i - 1)
    } else {
        deepest_spanning(nodes, a, b, i - 1)
    }
}

/// The parent of node `j`: the last node before index `i` whose subtree
/// holds `j`.
pub open spec fn parent_before(nodes: Seq<SyntaxNode>, j: int, i: int) -> Option<int>
    decreases i,
{
    if i <= 0 || i > nodes.len() {
        None
    } else if j < nodes[i - 1].subtree_end {
        Some(i - 1)
    } else {
        parent_before(nodes, j, i - 1)
    }
}

/// The kind of node `n` names a clause.
pub open spec fn is_clause(n: SyntaxNode) -> bool {
    n.kind@.len() >= 7 && n.kind@.skip(n.kind@.len() - 7) == "_clause"@
}

/// The number of clauses among node `j` and its ancestors, the root left
/// out, looking for the parent of `j` among the nodes before index `i`.
pub open spec fn clause_depth(nodes: Seq<SyntaxNode>, j: int, i: int) -> nat
    decreases i,
{
    if i <= 0 || i > nodes.len() || j < 0 || j >= nodes.len() {
        0
    } else if j < nodes[i - 1].subtree_end {
        (if is_clause(nodes[j]) {
            1nat
        } else {
            0nat
        }) + clause_depth(nodes, i - 1, i - 1)
    } else {
        clause_depth(nodes, j, i - 1)
    }
}

/// The bytes of white space at the start of `line`.
pub open spec fn leading_bytes(line: Seq<char>) -> nat
    decreases line.len(),
{
    if line.len() > 0 && is_space(line[0]) {
        utf8_len(line[0]) + leading_bytes(line.skip(1))
    } else {
        0
    }
}

/// The state after line `index`, `line`, of the document.
pub open spec fn update_spec(nodes: Seq<SyntaxNode>, index: nat, line: Seq<char>, st: FormatState) -> FormatState {
    let t = trim_start(line);
    let col = leading_bytes(line);
    if (starts_with(t, "</#"@) || starts_with(t, "<#"@)) && col + 2 <= usize::MAX {
        let a = Point { row: index as usize, column: col as usize };
        let b = Point { row: index as usize, column: (col + 2) as usize };
        match deepest_spanning(nodes, a, b, nodes.len() as int) {
            None => st,
            Some(k) => if nodes[k].kind@ == "comment"@ {
                FormatState { has_directive: false, ..st }
            } else {
                let total = st.indent + clause_depth(nodes, k, k);
                let indent = if total <= usize::MAX {
                    total
                } else {
                    usize::MAX as int
                };
                let preset = if indent == 0 {
                    match parent_before(nodes, k, k) {
                        Some(p) => if nodes[p].end.row > nodes[p].start.row {
                            if st.preset is None {
                                Some(col as usize)
                            } else {
                                st.preset
                            }
                        } else if col > 0 {
                            Some(col as usize)
                        } else {
                            None
                        },
                        None => st.preset,
                    }
                } else {
                    st.preset
                };
                FormatState { preset, indent: indent as usize, has_directive: true }
            },
        }
    } else {
        st
    }
}

fn char_utf8_len(c: char) -> (n: usize)
    ensures
        n == utf8_len(c),
{
    let v = c as u32;
    if v < 0x80 {
        1
    } else if v < 0x800 {
        2
    } else if v < 0x10000 {
        3
    } else {
        4
    }
}

fn is_clause_kind(kind: &str) -> (r: bool)
    ensures
        r == (kind@.len() >= 7 && kind@.skip(kind@.len() - 7) == "_clause"@),
{
    let len = kind.unicode_len();
    if len < 7 {
        return false;
    }
    let tail = kind.substring_char(len - 7, len).to_owned();
    proof {
        assert(kind@.subrange(len - 7, len as int) =~= kind@.skip(len - 7));
    }
    tail == "_clause".to_owned()
}

impl SyntaxTree {
    /// The last node in pre-order that spans from `a` to `b`.
    pub fn descendant_for_range(&self, a: Point, b: Point) -> (r: Option<usize>)
        ensures
            r matches Some(k) ==> deepest_spanning(self.nodes@, a, b, self.nodes@.len() as int)
                == Some(k as int) && k < self.nodes@.len(),
            r is None ==> deepest_spanning(self.nodes@, a, b, self.nodes@.len() as int) is None,
    {
        let n = self.nodes.len();
        let mut i: usize = n;
        while i > 0
            invariant
                n == self.nodes@.len(),
                i <= n,
                deepest_spanning(self.nodes@, a, b, n as int) == deepest_spanning(
                    self.nodes@,
                    a,
                    b,
                    i as int,
                ),
            decreases i,
        {
            let k = i - 1;
            let node = &self.nodes[k];
            let a_in = (node.start.row < a.row || (node.start.row == a.row && node.start.column
                <= a.column)) && (a.row < node.end.row || (a.row == node.end.row && a.column
                <= node.end.column));
            let b_in = (node.start.row < b.row || (node.start.row == b.row && node.start.column
                <= b.column)) && (b.row < node.end.row || (b.row == node.end.row && b.column
                <= node.end.column));
            if a_in && b_in {
                return Some(k);
            }
            i = k;
        }
        None
    }

    /// The parent of node `j`, if it has one.
    pub fn parent(&self, j: usize) -> (r: Option<usize>)
        requires
            j < self.nodes@.len(),
        ensures
            r matches Some(p) ==> parent_before(self.nodes@, j as int, j as int) == Some(p as int)
                && p < j,
            r is None ==> parent_before(self.nodes@, j as int, j as int) is None,
    {
        let mut i: usize = j;
        while i > 0
            invariant
                j < self.nodes@.len(),
                i <= j,
                parent_before(self.nodes@, j as int, j as int) == parent_before(
                    self.nodes@,
                    j as int,
                    i as int,
                ),
            decreases i,
        {
            if j < self.nodes[i - 1].subtree_end {
                return Some(i - 1);
            }
            i -= 1;
        }
        None
    }

    /// The number of clauses among node `j` and its ancestors, the root
    /// left out.
    pub fn clause_depth(&self, j: usize) -> (d: usize)
        requires
            j < self.nodes@.len(),
        ensures
            d == clause_depth(self.nodes@, j as int, j as int),
    {
        let mut cur = j;
        let mut i = j;
        let mut depth: usize = 0;
        while i > 0
            invariant
                j < self.nodes@.len(),
                i <= cur <= j,
                depth <= j - cur,
                depth + clause_depth(self.nodes@, cur as int, i as int) == clause_depth(
                    self.nodes@,
                    j as int,
                    j as int,
                ),
            decreases i,
        {
            if cur < self.nodes[i - 1].subtree_end {
                if is_clause_kind(self.nodes[cur].kind.as_str()) {
                    depth += 1;
                }
                cur = i - 1;
            }
            i -= 1;
        }
        depth
    }
}

/// The state after line `index`, `line`, of the document.
pub fn update_state(tree: &SyntaxTree, index: usize, line: &str, state: FormatState) -> (r: FormatState)
    ensures
        r == update_spec(tree.nodes@, index as nat, line@, state),
{
    let len = line.unicode_len();
    let mut k: usize = 0;
    let mut col: usize = 0;
    let mut too_wide = false;
    assert(line@.skip(0) =~= line@);
    while k < len && char_is_whitespace(line.get_char(k))
        invariant
            len == line@.len(),
            k <= len,
            trim_start(line@) == trim_start(line@.skip(k as int)),
            !too_wide ==> col + leading_bytes(line@.skip(k as int)) == leading_bytes(line@),
            !too_wide ==> col + 2 <= usize::MAX,
            too_wide ==> leading_bytes(line@) + 2 > usize::MAX,
        decreases len - k,
    {
        assert(line@.skip(k as int).skip(1) =~= line@.skip(k + 1));
        let w = char_utf8_len(line.get_char(k));
        if !too_wide {
            if col <= usize::MAX - 2 - w {
                col += w;
            } else {
                too_wide = true;
            }
        }
        k += 1;
    }
    let t = line.substring_char(k, len);
    proof {
        assert(t@ =~= line@.skip(k as int));
        assert(leading_bytes(line@.skip(k as int)) == 0);
    }
    let is_directive = {
        let tl = t.unicode_len();
        let close = tl >= 3 && t.substring_char(0, 3).to_owned() == "</#".to_owned();
        let open = tl >= 2 && t.substring_char(0, 2).to_owned() == "<#".to_owned();
        proof {
            if tl >= 3 {
                assert(t@.subrange(0, 3) =~= t@.take(3));
            }
            if tl >= 2 {
                assert(t@.subrange(0, 2) =~= t@.take(2));
            }
            reveal_strlit("</#");
            reveal_strlit("<#");
        }
        close || open
    };
    if !is_directive || too_wide {
        return state;
    }
    let a = Point { row: index, column: col };
    let b = Point { row: index, column: col + 2 };
    let found = tree.descendant_for_range(a, b);
    let node_index = match found {
        Some(n) => n,
        None => {
            return state;
        },
    };
    let node = &tree.nodes[node_index];
    if node.kind == "comment".to_owned() {
        return FormatState { has_directive: false, ..state };
    }
    let depth = tree.clause_depth(node_index);
    let indent = if depth <= usize::MAX - state.indent {
        state.indent + depth
    } else {
        usize::MAX
    };
    let preset = if indent == 0 {
        match tree.parent(node_index) {
            Some(p) => {
                let parent = &tree.nodes[p];
                if parent.end.row > parent.start.row {
                    if state.preset.is_none() {
                        Some(col)
                    } else {
                        state.preset
                    }
                } else if col > 0 {
                    Some(col)
                } else {
                    None
                }
            },
            None => state.preset,
        }
    } else {
        state.preset
    };
    FormatState { preset, indent, has_directive: true }
}

/// The number of lines as `str::lines` yields them: a final empty line,
/// after a closing line feed or in an empty text, is left out.
pub open spec fn source_line_count(s: Seq<char>) -> nat {
    if s.len() == 0 {
        0
    } else if s.last() == '\n' {
        newline_count(s)
    } else {
        newline_count(s) + 1
    }
}

/// Line `r` as `str::lines` yields it: without its line feed, nor a
/// carriage return before that.
pub open spec fn source_line(s: Seq<char>, r: nat) -> Seq<char> {
    let b = line_body(s, r);
    if b.len() > 0 && b.last() == '\r' {
        b.drop_last()
    } else {
        b
    }
}

/// The width of a directive line's indentation, capped at `usize::MAX`.
pub open spec fn indent_width(st: FormatState) -> nat {
    let w = (match st.preset {
        Some(p) => p as int,
        None => 0,
    }) + 4 * st.indent;
    if w <= usize::MAX {
        w as nat
    } else {
        usize::MAX as nat
    }
}

/// `n` spaces.
pub open spec fn spaces(n: nat) -> Seq<char> {
    Seq::new(n, |i: int| ' ')
}

/// The formatted text of the first `r` lines, and the state after them.
pub open spec fn format_rows(nodes: Seq<SyntaxNode>, s: Seq<char>, r: nat) -> (Seq<char>, FormatState)
    decreases r,
{
    if r == 0 {
        (Seq::empty(), FormatState { preset: None, indent: 0, has_directive: false })
    } else {
        let (out, st) = format_rows(nodes, s, (r - 1) as nat);
        let line = source_line(s, (r - 1) as nat);
        let st2 = update_spec(nodes, (r - 1) as nat, line, st);
        let piece = if st2.has_directive {
            spaces(indent_width(st2)) + trim(line) + "\n"@
        } else {
            line + "\n"@
        };
        (out + piece, reset_spec(st2))
    }
}

/// The byte length of the last line as `str::lines` yields it; 0 for a
/// text without lines.
pub open spec fn last_line_bytes(s: Seq<char>) -> nat {
    let n = source_line_count(s);
    if n == 0 {
        0
    } else {
        let b = line_bytes(s, (n - 1) as nat);
        let l = line_body(s, (n - 1) as nat);
        if l.len() > 0 && l.last() == '\r' && b >= 1 {
            (b - 1) as nat
        } else {
            b
        }
    }
}

/// Line `r` as `str::lines` yields it.
fn source_line_of(doc: &TextDocument, r: usize) -> (t: String)
    ensures
        t@ == source_line(doc@, r as nat),
{
    let line = line_of(doc, r);
    let ls = line.as_str();
    let mut end = ls.unicode_len();
    if end > 0 && ls.get_char(end - 1) == '\n' {
        end -= 1;
    }
    if end > 0 && ls.get_char(end - 1) == '\r' {
        end -= 1;
    }
    let t = ls.substring_char(0, end).to_owned();
    proof {
        let l = line_text(doc@, r as nat);
        let b = line_body(doc@, r as nat);
        assert(l.subrange(0, l.len() as int) =~= l);
        if l.len() > 0 && l.last() == '\n' {
            assert(b =~= l.subrange(0, l.len() - 1));
        }
        if b.len() > 0 && b.last() == '\r' {
            assert(b.drop_last() =~= l.subrange(0, end as int));
        } else {
            assert(b =~= l.subrange(0, end as int));
        }
    }
    t
}

/// The formatting of the whole document: one edit that replaces every line
/// with its formatted text.
pub fn format_source(doc: &TextDocument, tree: &SyntaxTree) -> (edits: Vec<TextEdit>)
    ensures
        edits@.len() == 1,
        edits@[0].new_text@ == format_rows(tree.nodes@, doc@, source_line_count(doc@)).0,
        edits@[0].range == (Range {
            start: Position { line: 0, character: 0 },
            end: Position {
                line: source_line_count(doc@) as u32,
                character: last_line_bytes(doc@) as u32,
            },
        }),
{
    let ghost s = doc@;
    let ghost nodes = tree.nodes@;
    let chars = doc.len_chars();
    let lines = doc.len_lines();
    let count = if chars == 0 {
        0
    } else if doc.last_char() == Some('\n') {
        lines - 1
    } else {
        lines
    };
    let mut formatted = String::new();
    let mut state = FormatState { preset: None, indent: 0, has_directive: false };
    let mut r: usize = 0;
    while r < count
        invariant
            s == doc@,
            nodes == tree.nodes@,
            r <= count,
            count == source_line_count(s),
            (formatted@, state) == format_rows(nodes, s, r as nat),
        decreases count - r,
    {
        let line = source_line_of(doc, r);
        let st2 = update_state(tree, r, line.as_str(), state);
        let p = match st2.preset {
            Some(p) => p,
            None => 0,
        };
        let width: usize = if st2.indent <= (usize::MAX - p) / 4 {
            p + st2.indent * 4
        } else {
            usize::MAX
        };
        proof {
            let pi = p as int;
            let ii = st2.indent as int;
            let m = usize::MAX as int;
            if ii <= (m - pi) / 4 {
                assert(pi + 4 * ii <= m) by (nonlinear_arith)
                    requires
                        ii <= (m - pi) / 4,
                        0 <= pi <= m,
                        0 <= ii,
                ;
            } else {
                assert(pi + 4 * ii > m) by (nonlinear_arith)
                    requires
                        ii > (m - pi) / 4,
                        0 <= pi <= m,
                ;
            }
            assert(width == indent_width(st2));
        }
        let ghost before = formatted@;
        if st2.has_directive {
            let mut k: usize = 0;
            while k < width
                invariant
                    k <= width,
                    formatted@ == before + spaces(k as nat),
                decreases width - k,
            {
                formatted.append(" ");
                proof {
                    reveal_strlit(" ");
                    assert(before + spaces(k as nat) + " "@ =~= before + spaces((k + 1) as nat));
                }
                k += 1;
            }
            let t = trimmed(line.as_str());
            formatted.append(t.as_str());
            formatted.append("\n");
        } else {
            formatted.append(line.as_str());
            formatted.append("\n");
        }
        state = reset_state(st2);
        proof {
            assert(formatted@ =~= format_rows(nodes, s, (r + 1) as nat).0);
        }
        r += 1;
    }
    let last = if count == 0 {
        0
    } else {
        let b = doc.line_byte_len(count - 1);
        let line = line_of(doc, count - 1);
        let lt = line.as_str();
        let mut end = lt.unicode_len();
        if end > 0 && lt.get_char(end - 1) == '\n' {
            end -= 1;
        }
        proof {
            let l = line_text(s, (count - 1) as nat);
            if l.len() > 0 && l.last() == '\n' {
                assert(line_body(s, (count - 1) as nat) =~= l.drop_last());
            }
        }
        if end > 0 && lt.get_char(end - 1) == '\r' && b >= 1 {
            b - 1
        } else {
            b
        }
    };
    let range = Range {
        start: Position { line: 0, character: 0 },
        end: Position { line: count as u32, character: last as u32 },
    };
    vec![TextEdit { range, new_text: formatted }]
}

} // verus!
