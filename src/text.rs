//! The text buffer of a document: protocol positions in three encodings,
//! range edits, and the byte-oriented edit descriptor handed to the parser.

use crate::rope::{
    rope_chars, rope_char_at, rope_char_to_byte, rope_char_to_line, rope_char_to_utf16_cu,
    rope_byte_to_char, rope_from_str, rope_insert, rope_len_chars, rope_len_lines,
    rope_line_to_char, rope_clone, rope_remove, rope_text, rope_utf16_cu_to_char,
};
use crate::unicode::{
    byte_offset, char_at_byte, char_at_unit, lemma_byte_offset_mono, lemma_char_at_byte_mono,
    lemma_char_at_byte_bound, lemma_char_at_byte_offset, lemma_char_at_unit_mono, lemma_char_at_unit_offset,
    lemma_line_of_char_start, lemma_line_start_bound, lemma_line_start_mono,
    lemma_line_start_step, lemma_newline_count_prefix, lemma_unit_offset_mono,
    lemma_byte_offset_diff, lemma_char_at_byte_prefix, lemma_char_at_byte_shift,
    lemma_char_at_unit_prefix, lemma_char_at_unit_shift, utf16_width,
    lemma_utf8_width_concat, line_count, line_end, line_start, newline_count, unit_offset,
    utf8_width,
};
use ropey::Rope;
use vstd::prelude::*;

verus! {

/// A protocol position: a line and a character offset in that line, counted
/// in the session's position encoding.
#[derive(Clone, Copy, Debug, PartialEq, Eq, Structural)]
pub struct Position {
    pub line: u32,
    pub character: u32,
}

/// A protocol range between two positions.
#[derive(Clone, Copy, Debug, PartialEq, Eq, Structural)]
pub struct Range {
    pub start: Position,
    pub end: Position,
}

/// The unit in which a position's character offset is counted.
#[derive(Clone, Copy, Debug, PartialEq, Eq, Structural)]
pub enum PositionEncodingKind {
    /// UTF-8 bytes.
    UTF8,
    /// UTF-16 code units.
    UTF16,
    /// Unicode scalar values.
    UTF32,
}

/// Why an edit was refused.
#[derive(Clone, Copy, Debug, PartialEq, Eq, Structural)]
pub enum DocumentError {
    /// The position (line, character) lies outside the buffer.
    PositionOutOfBounds(u32, u32),
    /// The range starts (line, character) after it ends.
    InvertedRange(u32, u32),
}

/// A row and a byte column in it.
#[derive(Clone, Copy, Debug, PartialEq, Eq, Structural)]
pub struct Point {
    pub row: usize,
    pub column: usize,
}

/// How an edit changed the text, in bytes and byte-column points: the
/// description that an incremental parser needs.
#[derive(Clone, Copy, Debug, PartialEq, Eq, Structural)]
pub struct EditDescriptor {
    pub start_byte: usize,
    pub old_end_byte: usize,
    pub new_end_byte: usize,
    pub start_position: Point,
    pub old_end_position: Point,
    pub new_end_position: Point,
}

/// A change sent by the editor: a range and its replacement, or, with no
/// range, the whole new text.
#[derive(Clone, Debug)]
pub struct ContentChange {
    pub range: Option<Range>,
    pub text: String,
}

/// `a` comes after `b` in line-major, then character-major order.
pub open spec fn position_after(a: Position, b: Position) -> bool {
    a.line > b.line || (a.line == b.line && a.character > b.character)
}

/// The character index that a position designates in `s`, or `None` when
/// its line or its offset lies outside the text. An offset may reach the
/// end of its line, line feed included; one inside a character designates
/// that character.
pub open spec fn resolve_position(s: Seq<char>, p: Position, enc: PositionEncodingKind) -> Option<
    nat,
> {
    let l = p.line as nat;
    if l >= line_count(s) {
        None
    } else {
        let ls = line_start(s, l);
        let le = line_end(s, l);
        match enc {
            PositionEncodingKind::UTF8 => {
                let lb = byte_offset(s, ls as int);
                if p.character > byte_offset(s, le as int) - lb {
                    None
                } else {
                    Some(char_at_byte(s, lb + p.character))
                }
            },
            PositionEncodingKind::UTF16 => {
                let lu = unit_offset(s, ls as int);
                if p.character > unit_offset(s, le as int) - lu {
                    None
                } else {
                    Some(char_at_unit(s, lu + p.character))
                }
            },
            PositionEncodingKind::UTF32 => {
                if p.character > le - ls {
                    None
                } else {
                    Some((ls + p.character) as nat)
                }
            },
        }
    }
}

/// The text after replacing characters `start..end` of `s` with `t`.
pub open spec fn splice(s: Seq<char>, start: int, end: int, t: Seq<char>) -> Seq<char> {
    s.take(start) + t + s.skip(end)
}

/// The byte column of character index `c` in its line.
pub open spec fn column_of(s: Seq<char>, row: nat, c: int) -> int {
    byte_offset(s, c) - byte_offset(s, line_start(s, row) as int)
}

/// The descriptor of replacing characters `sc..ec` of `s`, which the range
/// from `start` to `end` designates, with `t`.
pub open spec fn describe_edit(
    s: Seq<char>,
    start: Position,
    end: Position,
    sc: int,
    ec: int,
    t: Seq<char>,
) -> EditDescriptor {
    let n = splice(s, sc, ec, t);
    let nec = sc + t.len();
    let new_row = newline_count(n.take(nec));
    EditDescriptor {
        start_byte: byte_offset(s, sc) as usize,
        old_end_byte: byte_offset(s, ec) as usize,
        new_end_byte: (byte_offset(s, sc) + utf8_width(t)) as usize,
        start_position: Point {
            row: start.line as usize,
            column: column_of(s, start.line as nat, sc) as usize,
        },
        old_end_position: Point { row: end.line as usize, column: column_of(s, end.line as nat, ec) as usize },
        new_end_position: Point { row: new_row as usize, column: column_of(n, new_row, nec) as usize },
    }
}

/// The characters between two byte offsets, each rounded down to the start of
/// the character that holds it.
pub open spec fn text_between(s: Seq<char>, start_byte: int, end_byte: int) -> Seq<char> {
    s.subrange(char_at_byte(s, start_byte) as int, char_at_byte(s, end_byte) as int)
}

/// The length in bytes of line `row`, its line feed left out; 0 past the
/// last line.
pub open spec fn line_bytes(s: Seq<char>, row: nat) -> nat {
    if row >= line_count(s) {
        0
    } else {
        let w = byte_offset(s, line_end(s, row) as int) - byte_offset(s, line_start(s, row) as int);
        if row + 1 < line_count(s) {
            if w >= 1 {
                (w - 1) as nat
            } else {
                0
            }
        } else {
            w as nat
        }
    }
}

/// A position that resolves lies in its own line.
pub proof fn lemma_resolve_in_line(s: Seq<char>, p: Position, enc: PositionEncodingKind)
    requires
        resolve_position(s, p, enc) is Some,
    ensures
        line_start(s, p.line as nat) <= resolve_position(s, p, enc).unwrap(),
        resolve_position(s, p, enc).unwrap() <= line_end(s, p.line as nat),
        line_end(s, p.line as nat) <= s.len(),
{
    let l = p.line as nat;
    let ls = line_start(s, l);
    let le = line_end(s, l);
    lemma_line_start_step(s, l);
    lemma_line_start_bound(s, l + 1);
    match enc {
        PositionEncodingKind::UTF8 => {
            let lb = byte_offset(s, ls as int);
            lemma_char_at_byte_offset(s, ls as int);
            lemma_char_at_byte_offset(s, le as int);
            lemma_char_at_byte_mono(s, lb as int, lb + p.character);
            lemma_char_at_byte_mono(s, lb + p.character, byte_offset(s, le as int) as int);
        },
        PositionEncodingKind::UTF16 => {
            let lu = unit_offset(s, ls as int);
            lemma_char_at_unit_offset(s, ls as int);
            lemma_char_at_unit_offset(s, le as int);
            lemma_char_at_unit_mono(s, lu as int, lu + p.character);
            lemma_char_at_unit_mono(s, lu + p.character, unit_offset(s, le as int) as int);
        },
        PositionEncodingKind::UTF32 => {},
    }
}

/// Position translation read within the position's line: a UTF-8 offset
/// names the character of the line that holds that byte, a UTF-16 offset
/// the one that holds that code unit, a UTF-32 offset counts characters;
/// an offset past the line, its line feed included, is out of bounds.
pub proof fn lemma_resolve_line_relative(s: Seq<char>, p: Position, enc: PositionEncodingKind)
    requires
        p.line < line_count(s),
    ensures
        ({
            let ls = line_start(s, p.line as nat);
            let line = s.subrange(ls as int, line_end(s, p.line as nat) as int);
            resolve_position(s, p, enc) == match enc {
                PositionEncodingKind::UTF8 => if p.character > utf8_width(line) {
                    None
                } else {
                    Some(ls + char_at_byte(line, p.character as int))
                },
                PositionEncodingKind::UTF16 => if p.character > utf16_width(line) {
                    None
                } else {
                    Some(ls + char_at_unit(line, p.character as int))
                },
                PositionEncodingKind::UTF32 => if p.character > line.len() {
                    None
                } else {
                    Some((ls + p.character) as nat)
                },
            }
        }),
{
    let l = p.line as nat;
    let ls = line_start(s, l) as int;
    let le = line_end(s, l) as int;
    let line = s.subrange(ls, le);
    let x = p.character as int;
    lemma_line_start_step(s, l);
    lemma_line_start_bound(s, l + 1);
    lemma_byte_offset_diff(s, ls, le);
    assert(s.skip(ls).take(le - ls) =~= line);
    match enc {
        PositionEncodingKind::UTF8 => {
            if x <= utf8_width(line) {
                lemma_char_at_byte_shift(s, ls, x);
                lemma_char_at_byte_prefix(s.skip(ls), le - ls, x);
            }
        },
        PositionEncodingKind::UTF16 => {
            if x <= utf16_width(line) {
                lemma_char_at_unit_shift(s, ls, x);
                lemma_char_at_unit_prefix(s.skip(ls), le - ls, x);
            }
        },
        PositionEncodingKind::UTF32 => {},
    }
}

/// Positions in order resolve to character indices in order.
pub proof fn lemma_resolve_ordered(s: Seq<char>, a: Position, b: Position, enc: PositionEncodingKind)
    requires
        !position_after(a, b),
        resolve_position(s, a, enc) is Some,
        resolve_position(s, b, enc) is Some,
    ensures
        resolve_position(s, a, enc).unwrap() <= resolve_position(s, b, enc).unwrap(),
{
    lemma_resolve_in_line(s, a, enc);
    lemma_resolve_in_line(s, b, enc);
    if a.line < b.line {
        lemma_line_start_mono(s, (a.line + 1) as nat, b.line as nat);
    } else {
        let ls = line_start(s, a.line as nat);
        match enc {
            PositionEncodingKind::UTF8 => {
                let lb = byte_offset(s, ls as int);
                lemma_char_at_byte_mono(s, lb + a.character, lb + b.character);
            },
            PositionEncodingKind::UTF16 => {
                let lu = unit_offset(s, ls as int);
                lemma_char_at_unit_mono(s, lu + a.character, lu + b.character);
            },
            PositionEncodingKind::UTF32 => {},
        }
    }
}

/// The outcome of an editor change on `s`: the new text and the edit
/// descriptor (none for a full replacement), or the error that refuses it.
pub open spec fn content_change_result(
    s: Seq<char>,
    range: Option<Range>,
    t: Seq<char>,
    enc: PositionEncodingKind,
) -> Result<(Seq<char>, Option<EditDescriptor>), DocumentError> {
    match range {
        None => Ok((t, None)),
        Some(range) => {
            let sc = resolve_position(s, range.start, enc);
            let ec = resolve_position(s, range.end, enc);
            if position_after(range.start, range.end) {
                Err(DocumentError::InvertedRange(range.start.line, range.start.character))
            } else if sc is None {
                Err(DocumentError::PositionOutOfBounds(range.start.line, range.start.character))
            } else if ec is None {
                Err(DocumentError::PositionOutOfBounds(range.end.line, range.end.character))
            } else {
                let a = sc.unwrap() as int;
                let b = ec.unwrap() as int;
                Ok(
                    (
                        splice(s, a, b, t),
                        Some(describe_edit(s, range.start, range.end, a, b, t)),
                    ),
                )
            }
        },
    }
}

/// Replacing the whole text and then reading the bytes from the start to its
/// byte length gives back the text exactly.
pub proof fn lemma_full_replace_round_trip(text: Seq<char>)
    ensures
        text_between(text, 0, utf8_width(text) as int) == text,
{
    lemma_char_at_byte_offset(text, text.len() as int);
    assert(text.take(text.len() as int) =~= text);
    assert(text.subrange(0, text.len() as int) =~= text);
}

/// A document's text.
pub struct TextDocument {
    rope: Rope,
}

impl View for TextDocument {
    type V = Seq<char>;

    closed spec fn view(&self) -> Seq<char> {
        rope_chars(self.rope)
    }
}

impl TextDocument {
    /// A buffer that holds `text`.
    pub fn new(text: &str) -> (d: TextDocument)
        ensures
            d@ == text@,
    {
        TextDocument { rope: rope_from_str(text) }
    }

    /// A second buffer with the same text.
    pub fn duplicate(&self) -> (d: TextDocument)
        ensures
            d@ == self@,
    {
        TextDocument { rope: rope_clone(&self.rope) }
    }

    /// The number of characters.
    pub fn len_chars(&self) -> (n: usize)
        ensures
            n == self@.len(),
    {
        rope_len_chars(&self.rope)
    }

    /// The length of the text in UTF-8 bytes.
    pub fn len_bytes(&self) -> (n: usize)
        ensures
            n == utf8_width(self@),
    {
        let n = rope_len_chars(&self.rope);
        proof {
            assert(self@.take(n as int) =~= self@);
        }
        rope_char_to_byte(&self.rope, n)
    }

    /// The last character, if the text has one.
    pub fn last_char(&self) -> (c: Option<char>)
        ensures
            self@.len() == 0 ==> c is None,
            self@.len() > 0 ==> c == Some(self@.last()),
    {
        let n = rope_len_chars(&self.rope);
        if n == 0 {
            None
        } else {
            Some(rope_char_at(&self.rope, n - 1))
        }
    }

    /// The number of lines: one more than the line feeds.
    pub fn len_lines(&self) -> (n: usize)
        ensures
            n == line_count(self@),
    {
        rope_len_lines(&self.rope)
    }

    /// The whole text.
    pub fn to_text(&self) -> (t: String)
        ensures
            t@ == self@,
    {
        let n = rope_len_chars(&self.rope);
        proof {
            assert(self@.subrange(0, n as int) =~= self@);
        }
        rope_text(&self.rope, 0, n)
    }

    /// The character index that a position designates, or `None` when it
    /// lies outside the text.
    pub fn resolve(&self, p: Position, enc: PositionEncodingKind) -> (r: Option<usize>)
        ensures
            r matches Some(c) ==> resolve_position(self@, p, enc) == Some(c as nat),
            r is None ==> resolve_position(self@, p, enc) is None,
    {
        let s = Ghost(self@);
        let lines = rope_len_lines(&self.rope);
        if p.line as usize >= lines {
            return None;
        }
        let l = p.line as usize;
        let ls = rope_line_to_char(&self.rope, l);
        let le = rope_line_to_char(&self.rope, l + 1);
        proof {
            lemma_line_start_step(s@, l as nat);
            lemma_line_start_bound(s@, (l + 1) as nat);
        }
        match enc {
            PositionEncodingKind::UTF8 => {
                let lb = rope_char_to_byte(&self.rope, ls);
                let lbe = rope_char_to_byte(&self.rope, le);
                proof {
                    lemma_byte_offset_mono(s@, ls as int, le as int);
                    lemma_byte_offset_mono(s@, le as int, s@.len() as int);
                    assert(s@.take(s@.len() as int) =~= s@);
                }
                if p.character as usize > lbe - lb {
                    None
                } else {
                    Some(rope_byte_to_char(&self.rope, lb + p.character as usize))
                }
            },
            PositionEncodingKind::UTF16 => {
                let lu = rope_char_to_utf16_cu(&self.rope, ls);
                let lue = rope_char_to_utf16_cu(&self.rope, le);
                proof {
                    lemma_unit_offset_mono(s@, ls as int, le as int);
                    lemma_unit_offset_mono(s@, le as int, s@.len() as int);
                    assert(s@.take(s@.len() as int) =~= s@);
                }
                if p.character as usize > lue - lu {
                    None
                } else {
                    Some(rope_utf16_cu_to_char(&self.rope, lu + p.character as usize))
                }
            },
            PositionEncodingKind::UTF32 => {
                if p.character as usize > le - ls {
                    None
                } else {
                    Some(ls + p.character as usize)
                }
            },
        }
    }

    /// Replaces the whole text.
    pub fn apply_full_replace(&mut self, text: &str)
        ensures
            final(self)@ == text@,
    {
        self.rope = rope_from_str(text);
    }

    /// Applies an editor change: a range edit, described in bytes, or, with
    /// no range, a full replacement, which has no descriptor.
    pub fn apply_content_change(&mut self, change: &ContentChange, enc: PositionEncodingKind) -> (r:
        Result<Option<EditDescriptor>, DocumentError>)
        ensures
            match content_change_result(old(self)@, change.range, change.text@, enc) {
                Ok((t, e)) => r == Ok::<Option<EditDescriptor>, DocumentError>(e) && final(self)@ == t,
                Err(err) => r == Err::<Option<EditDescriptor>, DocumentError>(err) && final(self)@
                    == old(self)@,
            },
    {
        match change.range {
            Some(range) => match self.apply_range_edit(range, change.text.as_str(), enc) {
                Ok(edit) => Ok(Some(edit)),
                Err(e) => Err(e),
            },
            None => {
                self.apply_full_replace(change.text.as_str());
                Ok(None)
            },
        }
    }

    /// The text between two byte offsets, each taken to the start of the
    /// character that holds it.
    pub fn get_text_range(&self, start_byte: usize, end_byte: usize) -> (t: String)
        requires
            start_byte <= end_byte <= utf8_width(self@),
        ensures
            t@ == text_between(self@, start_byte as int, end_byte as int),
    {
        proof {
            lemma_char_at_byte_mono(self@, start_byte as int, end_byte as int);
            lemma_char_at_byte_bound(self@, end_byte as int);
        }
        let a = rope_byte_to_char(&self.rope, start_byte);
        let b = rope_byte_to_char(&self.rope, end_byte);
        rope_text(&self.rope, a, b)
    }

    /// Whether the text between two byte offsets (as `get_text_range` takes
    /// it) holds `c`; false for offsets out of order or past the end.
    pub fn contains_char(&self, start_byte: usize, end_byte: usize, c: char) -> (r: bool)
        ensures
            r == (start_byte <= end_byte <= utf8_width(self@) && text_between(
                self@,
                start_byte as int,
                end_byte as int,
            ).contains(c)),
    {
        let len = self.len_bytes();
        if start_byte > end_byte || end_byte > len {
            return false;
        }
        proof {
            lemma_char_at_byte_mono(self@, start_byte as int, end_byte as int);
            lemma_char_at_byte_bound(self@, end_byte as int);
        }
        let a = rope_byte_to_char(&self.rope, start_byte);
        let b = rope_byte_to_char(&self.rope, end_byte);
        let ghost t = text_between(self@, start_byte as int, end_byte as int);
        let mut i = a;
        while i < b
            invariant
                a <= i <= b <= self@.len(),
                start_byte <= end_byte <= utf8_width(self@),
                t == text_between(self@, start_byte as int, end_byte as int),
                t == self@.subrange(a as int, b as int),
                forall|k: int| a <= k < i ==> self@[k] != c,
            decreases b - i,
        {
            if rope_char_at(&self.rope, i) == c {
                assert(t[i - a] == c);
                assert(t.contains(c));
                return true;
            }
            i += 1;
        }
        proof {
            if t.contains(c) {
                let k = choose|k: int| 0 <= k < t.len() && t[k] == c;
                assert(self@[a + k] == c);
            }
        }
        false
    }

    /// The length in bytes of line `row`, its line feed left out; 0 past
    /// the last line.
    pub fn line_byte_len(&self, row: usize) -> (n: usize)
        ensures
            n == line_bytes(self@, row as nat),
    {
        let lines = rope_len_lines(&self.rope);
        if row >= lines {
            return 0;
        }
        let a = rope_line_to_char(&self.rope, row);
        let b = rope_line_to_char(&self.rope, row + 1);
        proof {
            lemma_line_start_step(self@, row as nat);
            lemma_line_start_bound(self@, (row + 1) as nat);
            lemma_byte_offset_mono(self@, a as int, b as int);
        }
        let ab = rope_char_to_byte(&self.rope, a);
        let bb = rope_char_to_byte(&self.rope, b);
        let w = bb - ab;
        if row + 1 < lines && w >= 1 {
            w - 1
        } else if row + 1 < lines {
            0
        } else {
            w
        }
    }

    /// Line `index`, its line feed included, or `None` past the last line.
    pub fn get_line(&self, index: usize) -> (t: Option<String>)
        ensures
            index >= line_count(self@) ==> t is None,
            index < line_count(self@) ==> (t matches Some(l) && l@ == self@.subrange(
                line_start(self@, index as nat) as int,
                line_end(self@, index as nat) as int,
            )),
    {
        let lines = rope_len_lines(&self.rope);
        if index >= lines {
            return None;
        }
        let a = rope_line_to_char(&self.rope, index);
        let b = rope_line_to_char(&self.rope, index + 1);
        proof {
            lemma_line_start_step(self@, index as nat);
            lemma_line_start_bound(self@, (index + 1) as nat);
        }
        Some(rope_text(&self.rope, a, b))
    }

    /// The character just before the one that a position designates, or
    /// `None` at the start of the text or for a position outside it.
    pub fn char_before(&self, p: Position, enc: PositionEncodingKind) -> (c: Option<char>)
        ensures
            c == (match resolve_position(self@, p, enc) {
                Some(i) => if i > 0 {
                    Some(self@[i - 1])
                } else {
                    None
                },
                None => None,
            }),
    {
        match self.resolve(p, enc) {
            Some(i) => {
                if i > 0 {
                    proof {
                        lemma_resolve_in_line(self@, p, enc);
                    }
                    Some(rope_char_at(&self.rope, i - 1))
                } else {
                    None
                }
            },
            None => None,
        }
    }

    /// Replaces the characters that `range` designates with `text`, and
    /// describes the change in bytes. A range that starts after it ends, or
    /// a position outside the text, is refused and leaves the text as it was.
    pub fn apply_range_edit(&mut self, range: Range, text: &str, enc: PositionEncodingKind) -> (r:
        Result<EditDescriptor, DocumentError>)
        ensures
            position_after(range.start, range.end) ==> r == Err::<EditDescriptor, DocumentError>(
                DocumentError::InvertedRange(range.start.line, range.start.character),
            ),
            !position_after(range.start, range.end) && resolve_position(
                old(self)@,
                range.start,
                enc,
            ) is None ==> r == Err::<EditDescriptor, DocumentError>(
                DocumentError::PositionOutOfBounds(range.start.line, range.start.character),
            ),
            !position_after(range.start, range.end) && resolve_position(
                old(self)@,
                range.start,
                enc,
            ) is Some && resolve_position(old(self)@, range.end, enc) is None ==> r == Err::<
                EditDescriptor,
                DocumentError,
            >(DocumentError::PositionOutOfBounds(range.end.line, range.end.character)),
            r is Err ==> final(self)@ == old(self)@,
            !position_after(range.start, range.end) && resolve_position(
                old(self)@,
                range.start,
                enc,
            ) is Some && resolve_position(old(self)@, range.end, enc) is Some ==> r is Ok,
            r is Ok ==> {
                let sc = resolve_position(old(self)@, range.start, enc).unwrap() as int;
                let ec = resolve_position(old(self)@, range.end, enc).unwrap() as int;
                &&& !position_after(range.start, range.end)
                &&& resolve_position(old(self)@, range.start, enc) is Some
                &&& resolve_position(old(self)@, range.end, enc) is Some
                &&& sc <= ec
                &&& final(self)@ == splice(old(self)@, sc, ec, text@)
                &&& r == Ok::<EditDescriptor, DocumentError>(
                    describe_edit(old(self)@, range.start, range.end, sc, ec, text@),
                )
            },
    {
        let start = range.start;
        let end = range.end;
        if start.line > end.line || (start.line == end.line && start.character > end.character) {
            return Err(DocumentError::InvertedRange(start.line, start.character));
        }
        let sc = match self.resolve(start, enc) {
            Some(c) => c,
            None => {
                return Err(DocumentError::PositionOutOfBounds(start.line, start.character));
            },
        };
        let ec = match self.resolve(end, enc) {
            Some(c) => c,
            None => {
                return Err(DocumentError::PositionOutOfBounds(end.line, end.character));
            },
        };
        let s = Ghost(self@);
        proof {
            lemma_resolve_ordered(s@, start, end, enc);
            lemma_resolve_in_line(s@, start, enc);
            lemma_resolve_in_line(s@, end, enc);
            lemma_line_start_step(s@, start.line as nat);
            lemma_line_start_step(s@, end.line as nat);
            lemma_byte_offset_mono(s@, line_start(s@, start.line as nat) as int, sc as int);
            lemma_byte_offset_mono(s@, line_start(s@, end.line as nat) as int, ec as int);
        }
        let old_len = rope_len_chars(&self.rope);
        let start_byte = rope_char_to_byte(&self.rope, sc);
        let old_end_byte = rope_char_to_byte(&self.rope, ec);
        let start_line_char = rope_line_to_char(&self.rope, start.line as usize);
        let start_line_byte = rope_char_to_byte(&self.rope, start_line_char);
        let end_line_char = rope_line_to_char(&self.rope, end.line as usize);
        let end_line_byte = rope_char_to_byte(&self.rope, end_line_char);

        rope_remove(&mut self.rope, sc, ec);
        let m = Ghost(self@);
        proof {
            assert(m@.take(sc as int) =~= s@.take(sc as int));
            assert(m@.skip(sc as int) =~= s@.skip(ec as int));
        }
        rope_insert(&mut self.rope, sc, text);

        let n = Ghost(self@);
        let new_len = rope_len_chars(&self.rope);
        let new_end_char = sc + (new_len - (old_len - (ec - sc)));
        proof {
            assert(new_end_char == sc + text@.len());
            assert(n@.take(new_end_char as int) =~= s@.take(sc as int) + text@);
            lemma_utf8_width_concat(s@.take(sc as int), text@);
            lemma_newline_count_prefix(n@, new_end_char as int);
            lemma_line_of_char_start(n@, new_end_char as int);
        }
        let new_end_byte = rope_char_to_byte(&self.rope, new_end_char);
        let new_end_row = rope_char_to_line(&self.rope, new_end_char);
        let new_line_char = rope_line_to_char(&self.rope, new_end_row);
        proof {
            lemma_byte_offset_mono(n@, new_line_char as int, new_end_char as int);
        }
        let new_line_byte = rope_char_to_byte(&self.rope, new_line_char);
        proof {
            assert(n@ =~= splice(s@, sc as int, ec as int, text@));
        }
        Ok(EditDescriptor {
            start_byte,
            old_end_byte,
            new_end_byte,
            start_position: Point { row: start.line as usize, column: start_byte - start_line_byte },
            old_end_position: Point { row: end.line as usize, column: old_end_byte - end_line_byte },
            new_end_position: Point { row: new_end_row, column: new_end_byte - new_line_byte },
        })
    }
}

} // verus!
