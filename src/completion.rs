//! Completion: which list a typed trigger asks for, and the macro
//! namespaces that the document defines or imports.

use crate::goto::{find_import_by_alias, import_with_alias};
use crate::reactor::Reactor;
use crate::rule::Rule;
use crate::symbol::{first_symbol, Symbol, SymbolEntry};
use crate::text::{resolve_position, Position, PositionEncodingKind, TextDocument};
use crate::utils::{line_of, line_text};
use vstd::prelude::*;
use vstd::string::{StrSliceExecFns, StringExecFns};

verus! {

/// Which list a completion request asks for.
#[derive(Clone, Copy, Debug, PartialEq, Eq, Structural)]
pub enum CompletionKind {
    /// `<#`: directive keywords.
    Directive,
    /// `<@`: macro namespaces.
    Macro,
    /// `?`: built-ins.
    Builtin,
}

/// The list that `trigger`, typed after `prev`, asks for.
pub open spec fn completion_kind_of(trigger: char, prev: Option<char>) -> Option<CompletionKind> {
    if trigger == '#' && prev == Some('<') {
        Some(CompletionKind::Directive)
    } else if trigger == '@' && prev == Some('<') {
        Some(CompletionKind::Macro)
    } else if trigger == '?' {
        Some(CompletionKind::Builtin)
    } else {
        None
    }
}

/// The list that `trigger`, typed after `prev`, asks for.
pub fn completion_kind(trigger: char, prev: Option<char>) -> (r: Option<CompletionKind>)
    ensures
        r == completion_kind_of(trigger, prev),
{
    if trigger == '#' && prev == Some('<') {
        Some(CompletionKind::Directive)
    } else if trigger == '@' && prev == Some('<') {
        Some(CompletionKind::Macro)
    } else if trigger == '?' {
        Some(CompletionKind::Builtin)
    } else {
        None
    }
}

/// The character typed before the trigger that precedes the cursor at
/// `p` (offsets in characters), if the line has one there.
pub open spec fn before_trigger(s: Seq<char>, p: Position) -> Option<char> {
    if p.character < 2 {
        None
    } else {
        match resolve_position(
            s,
            Position { line: p.line, character: (p.character - 1) as u32 },
            PositionEncodingKind::UTF32,
        ) {
            Some(i) => if i > 0 {
                Some(s[i - 1])
            } else {
                None
            },
            None => None,
        }
    }
}

/// The character typed before the trigger that precedes the cursor at
/// `p` (offsets in characters), if the line has one there.
pub fn trigger_prefix(doc: &TextDocument, p: Position) -> (r: Option<char>)
    ensures
        r == before_trigger(doc@, p),
{
    if p.character < 2 {
        return None;
    }
    doc.char_before(Position { line: p.line, character: p.character - 1 }, PositionEncodingKind::UTF32)
}

/// A line without its line feed.
pub open spec fn line_body(s: Seq<char>, row: nat) -> Seq<char> {
    let l = line_text(s, row);
    if l.len() > 0 && l.last() == '\n' {
        l.drop_last()
    } else {
        l
    }
}

/// The documentation of a macro namespace: its definition line, or the
/// import statement that brings it in.
pub open spec fn macro_doc(
    s: Seq<char>,
    imports: Seq<(crate::text::Range, Seq<char>, crate::text::Range, bool)>,
    e: (Seq<char>, Symbol),
) -> Seq<char> {
    if e.1.rule == Rule::ImportAlias {
        let path = match import_with_alias(imports, e.1.range) {
            Some(im) => im.1,
            None => Seq::empty(),
        };
        "```python\nimport \""@ + path + "\" as "@ + e.0 + "\n```"@
    } else {
        line_body(s, e.1.range.start.line as nat)
    }
}

/// The completion items of the first `k` symbols: one per name, at its
/// first occurrence, with its documentation.
pub open spec fn macro_items(
    s: Seq<char>,
    symbols: Seq<(Seq<char>, Symbol)>,
    imports: Seq<(crate::text::Range, Seq<char>, crate::text::Range, bool)>,
    k: nat,
) -> Seq<(Seq<char>, Seq<char>)>
    decreases k,
{
    if k == 0 || k > symbols.len() {
        Seq::empty()
    } else {
        let rest = macro_items(s, symbols, imports, (k - 1) as nat);
        let e = symbols[k - 1];
        if first_symbol(symbols.take(k - 1), e.0) is None {
            rest.push((e.0, macro_doc(s, imports, e)))
        } else {
            rest
        }
    }
}

/// A completion item for a macro namespace.
pub struct MacroCompletion {
    pub label: String,
    pub documentation: String,
}

/// Whether the name of entry `k` occurs among the entries before it.
fn seen_before(entries: &Vec<SymbolEntry>, k: usize) -> (r: bool)
    requires
        k < entries@.len(),
    ensures
        r == (first_symbol(
            entries@.map_values(|e: SymbolEntry| e@).take(k as int),
            entries@[k as int].name@,
        ) is Some),
{
    let ghost v = entries@.map_values(|e: SymbolEntry| e@).take(k as int);
    let ghost name = entries@[k as int].name@;
    assert(v.skip(0) =~= v);
    let mut j: usize = 0;
    while j < k
        invariant
            k < entries@.len(),
            j <= k,
            v == entries@.map_values(|e: SymbolEntry| e@).take(k as int),
            name == entries@[k as int].name@,
            first_symbol(v, name) == first_symbol(v.skip(j as int), name),
        decreases k - j,
    {
        assert(v.skip(j as int).skip(1) =~= v.skip(j + 1));
        if entries[j].name == entries[k].name {
            return true;
        }
        j += 1;
    }
    false
}

/// The macro namespaces of the document, each once, in order of first
/// occurrence: local macros documented by their definition line, imports
/// by their import statement.
pub fn macro_completions(reactor: &Reactor) -> (v: Vec<MacroCompletion>)
    ensures
        v@.map_values(|c: MacroCompletion| (c.label@, c.documentation@)) == macro_items(
            reactor@.text,
            reactor@.analysis.symbols,
            reactor@.analysis.imports,
            reactor@.analysis.symbols.len(),
        ),
{
    let doc = reactor.get_document();
    let analysis = reactor.get_analysis();
    let symbols = analysis.symbols();
    let imports = analysis.imports();
    let ghost s = doc@;
    let ghost sv = symbols@.map_values(|e: SymbolEntry| e@);
    let ghost iv = imports@.map_values(|e: crate::symbol::ImportMacro| e@);
    let mut v: Vec<MacroCompletion> = Vec::new();
    let mut k: usize = 0;
    assert(v@.map_values(|c: MacroCompletion| (c.label@, c.documentation@)) =~= Seq::<
        (Seq<char>, Seq<char>),
    >::empty());
    while k < symbols.len()
        invariant
            k <= symbols@.len(),
            s == reactor@.text,
            sv == symbols@.map_values(|e: SymbolEntry| e@),
            sv == reactor@.analysis.symbols,
            iv == imports@.map_values(|e: crate::symbol::ImportMacro| e@),
            iv == reactor@.analysis.imports,
            doc@ == s,
            v@.map_values(|c: MacroCompletion| (c.label@, c.documentation@)) == macro_items(
                s,
                sv,
                iv,
                k as nat,
            ),
        decreases symbols@.len() - k,
    {
        let ghost before = v@;
        if !seen_before(symbols, k) {
            let e = &symbols[k];
            let documentation = if e.symbol.rule == Rule::ImportAlias {
                let mut d = String::from_str("```python\nimport \"");
                match find_import_by_alias(imports, e.symbol.range) {
                    Some(i) => {
                        d.append(imports[i].path.as_str());
                    },
                    None => {},
                }
                d.append("\" as ");
                d.append(e.name.as_str());
                d.append("\n```");
                d
            } else {
                let line = line_of(doc, e.symbol.range.start.line as usize);
                let len = line.as_str().unicode_len();
                if len > 0 && line.as_str().get_char(len - 1) == '\n' {
                    line.as_str().substring_char(0, len - 1).to_owned()
                } else {
                    line
                }
            };
            proof {
                assert(sv[k as int] == e@);
                if e.symbol.rule != Rule::ImportAlias {
                    let l = line_text(s, e.symbol.range.start.line as nat);
                    if l.len() > 0 && l.last() == '\n' {
                        assert(l.subrange(0, l.len() - 1) =~= l.drop_last());
                    }
                }
            }
            v.push(MacroCompletion { label: e.name.clone(), documentation });
            proof {
                assert(v@.map_values(|c: MacroCompletion| (c.label@, c.documentation@)) =~= before.map_values(
                    |c: MacroCompletion| (c.label@, c.documentation@),
                ).push((sv[k as int].0, macro_doc(s, iv, sv[k as int]))));
            }
        }
        assert(sv.take(k as int) =~= sv.take(k + 1).take(k as int));
        k += 1;
    }
    v
}

} // verus!
