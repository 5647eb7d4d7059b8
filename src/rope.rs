//! The rope that holds a document's characters, behind trusted wrappers
//! around `ropey`. Lines break at line feeds only (ropey is built without its
//! `cr_lines` and `unicode_lines` features).

use crate::unicode::{
    char_at_byte, char_at_unit, line_count, line_start, newline_count, utf16_width, utf8_width,
};
use ropey::Rope;
use vstd::prelude::*;

verus! {

#[verifier::external_type_specification]
#[verifier::external_body]
pub struct ExRope(ropey::Rope);

/// The characters that a rope holds.
pub uninterp spec fn rope_chars(r: Rope) -> Seq<char>;

/// Relies on `Rope::from_str`: the rope holds the characters of `text`.
#[verifier::external_body]
pub(crate) fn rope_from_str(text: &str) -> (r: Rope)
    ensures
        rope_chars(r) == text@,
{
    Rope::from_str(text)
}

/// Relies on `Rope::clone`: the copy holds the same characters.
#[verifier::external_body]
pub(crate) fn rope_clone(r: &Rope) -> (c: Rope)
    ensures
        rope_chars(c) == rope_chars(*r),
{
    r.clone()
}

/// Relies on `Rope::len_chars`: the number of characters.
#[verifier::external_body]
pub(crate) fn rope_len_chars(r: &Rope) -> (n: usize)
    ensures
        n == rope_chars(*r).len(),
{
    r.len_chars()
}

/// Relies on `Rope::len_lines`: one more than the number of line feeds.
#[verifier::external_body]
pub(crate) fn rope_len_lines(r: &Rope) -> (n: usize)
    ensures
        n == line_count(rope_chars(*r)),
{
    r.len_lines()
}

/// Relies on `Rope::line_to_char`: the character index where a line starts
/// (one past the end for the line one past the last).
#[verifier::external_body]
pub(crate) fn rope_line_to_char(r: &Rope, line: usize) -> (c: usize)
    requires
        line <= line_count(rope_chars(*r)),
    ensures
        c == line_start(rope_chars(*r), line as nat),
{
    r.line_to_char(line)
}

/// Relies on `Rope::char_to_byte`: the UTF-8 byte offset of a character index.
#[verifier::external_body]
pub(crate) fn rope_char_to_byte(r: &Rope, c: usize) -> (b: usize)
    requires
        c <= rope_chars(*r).len(),
    ensures
        b == utf8_width(rope_chars(*r).take(c as int)),
{
    r.char_to_byte(c)
}

/// Relies on `Rope::byte_to_char`: the index of the character that holds a
/// byte, one past the end for the end.
#[verifier::external_body]
pub(crate) fn rope_byte_to_char(r: &Rope, b: usize) -> (c: usize)
    requires
        b <= utf8_width(rope_chars(*r)),
    ensures
        c == char_at_byte(rope_chars(*r), b as int),
{
    r.byte_to_char(b)
}

/// Relies on `Rope::char_to_utf16_cu`: the UTF-16 code unit offset of a
/// character index.
#[verifier::external_body]
pub(crate) fn rope_char_to_utf16_cu(r: &Rope, c: usize) -> (u: usize)
    requires
        c <= rope_chars(*r).len(),
    ensures
        u == utf16_width(rope_chars(*r).take(c as int)),
{
    r.char_to_utf16_cu(c)
}

/// Relies on `Rope::utf16_cu_to_char`: the index of the character that holds
/// a UTF-16 code unit, one past the end for the end.
#[verifier::external_body]
pub(crate) fn rope_utf16_cu_to_char(r: &Rope, u: usize) -> (c: usize)
    requires
        u <= utf16_width(rope_chars(*r)),
    ensures
        c == char_at_unit(rope_chars(*r), u as int),
{
    r.utf16_cu_to_char(u)
}

/// Relies on `Rope::char_to_line`: the number of line feeds before a
/// character index.
#[verifier::external_body]
pub(crate) fn rope_char_to_line(r: &Rope, c: usize) -> (l: usize)
    requires
        c <= rope_chars(*r).len(),
    ensures
        l == newline_count(rope_chars(*r).take(c as int)),
{
    r.char_to_line(c)
}

/// Relies on `Rope::remove`: the characters in `start..end` are taken out.
#[verifier::external_body]
pub(crate) fn rope_remove(r: &mut Rope, start: usize, end: usize)
    requires
        start <= end <= rope_chars(*old(r)).len(),
    ensures
        rope_chars(*final(r)) == rope_chars(*old(r)).take(start as int) + rope_chars(
            *old(r),
        ).skip(end as int),
{
    r.remove(start..end)
}

/// Relies on `Rope::insert`: `text` is put in at character index `at`.
#[verifier::external_body]
pub(crate) fn rope_insert(r: &mut Rope, at: usize, text: &str)
    requires
        at <= rope_chars(*old(r)).len(),
    ensures
        rope_chars(*final(r)) == rope_chars(*old(r)).take(at as int) + text@ + rope_chars(
            *old(r),
        ).skip(at as int),
{
    r.insert(at, text)
}

/// Relies on `Rope::slice` and its `Display`: the characters in `start..end`
/// as a string.
#[verifier::external_body]
pub(crate) fn rope_text(r: &Rope, start: usize, end: usize) -> (t: String)
    requires
        start <= end <= rope_chars(*r).len(),
    ensures
        t@ == rope_chars(*r).subrange(start as int, end as int),
{
    r.slice(start..end).to_string()
}

/// Relies on `Rope::char`: the character at an index.
#[verifier::external_body]
pub(crate) fn rope_char_at(r: &Rope, c: usize) -> (ch: char)
    requires
        c < rope_chars(*r).len(),
    ensures
        ch == rope_chars(*r)[c as int],
{
    r.char(c)
}

} // verus!
