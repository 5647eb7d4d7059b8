//! Small text helpers: trimming, the text of a line, and the rendering of a
//! directive line as code for hover.

use crate::text::TextDocument;
use crate::unicode::{line_count, line_end, line_start};
use vstd::prelude::*;
use vstd::string::{StrSliceExecFns, StringExecFns};

verus! {

/// Whether `c` is white space: a character with Unicode's `White_Space`
/// property, as `char::is_whitespace` documents it.
pub open spec fn is_space(c: char) -> bool {
    let v = c as u32;
    (0x09 <= v && v <= 0x0D) || v == 0x20 || v == 0x85 || v == 0xA0 || v == 0x1680 || (0x2000
        <= v && v <= 0x200A) || v == 0x2028 || v == 0x2029 || v == 0x202F || v == 0x205F || v
        == 0x3000
}

/// Whether `c` is white space.
pub fn char_is_whitespace(c: char) -> (r: bool)
    ensures
        r == is_space(c),
{
    let v = c as u32;
    (0x09 <= v && v <= 0x0D) || v == 0x20 || v == 0x85 || v == 0xA0 || v == 0x1680 || (0x2000
        <= v && v <= 0x200A) || v == 0x2028 || v == 0x2029 || v == 0x202F || v == 0x205F || v
        == 0x3000
}

/// `s` without its leading white space.
pub open spec fn trim_start(s: Seq<char>) -> Seq<char>
    decreases s.len(),
{
    if s.len() > 0 && is_space(s[0]) {
        trim_start(s.skip(1))
    } else {
        s
    }
}

/// `s` without its trailing white space.
pub open spec fn trim_end(s: Seq<char>) -> Seq<char>
    decreases s.len(),
{
    if s.len() > 0 && is_space(s.last()) {
        trim_end(s.drop_last())
    } else {
        s
    }
}

/// `s` without its leading and trailing white space.
pub open spec fn trim(s: Seq<char>) -> Seq<char> {
    trim_end(trim_start(s))
}

/// `s` without its leading and trailing white space.
pub fn trimmed(s: &str) -> (t: String)
    ensures
        t@ == trim(s@),
{
    let len = s.unicode_len();
    let mut a: usize = 0;
    assert(s@.skip(0) =~= s@);
    while a < len && char_is_whitespace(s.get_char(a))
        invariant
            len == s@.len(),
            a <= len,
            trim_start(s@) == trim_start(s@.skip(a as int)),
        decreases len - a,
    {
        assert(s@.skip(a as int).skip(1) =~= s@.skip(a + 1));
        a += 1;
    }
    let ghost front = s@.skip(a as int);
    assert(trim_start(s@) == front);
    let mut b: usize = len;
    assert(front =~= s@.subrange(a as int, b as int));
    while b > a && char_is_whitespace(s.get_char(b - 1))
        invariant
            len == s@.len(),
            a <= b <= len,
            trim_end(front) == trim_end(s@.subrange(a as int, b as int)),
        decreases b,
    {
        assert(s@.subrange(a as int, b as int).drop_last() =~= s@.subrange(a as int, b - 1));
        b -= 1;
    }
    s.substring_char(a, b).to_owned()
}

/// Line `row` of `s`, its line feed included; empty past the last line.
pub open spec fn line_text(s: Seq<char>, row: nat) -> Seq<char> {
    if row < line_count(s) {
        s.subrange(line_start(s, row) as int, line_end(s, row) as int)
    } else {
        Seq::empty()
    }
}

/// Line `row` of the document, its line feed included; empty past the
/// last line.
pub fn line_of(doc: &TextDocument, row: usize) -> (t: String)
    ensures
        t@ == line_text(doc@, row as nat),
{
    match doc.get_line(row) {
        Some(l) => l,
        None => String::new(),
    }
}

/// `t` starts with `prefix`.
pub open spec fn starts_with(t: Seq<char>, prefix: Seq<char>) -> bool {
    t.len() >= prefix.len() && t.take(prefix.len() as int) == prefix
}

/// A directive line shown as code: trimmed, the `<#` of an import or a
/// macro definition dropped, and a closing `>` dropped.
pub open spec fn ftl_code(line: Seq<char>) -> Seq<char> {
    let t = trim(line);
    let u = if starts_with(t, "<#import"@) || starts_with(t, "<#macro"@) {
        t.skip(2)
    } else {
        t
    };
    if u.len() > 0 && u.last() == '>' {
        u.drop_last()
    } else {
        u
    }
}

fn has_prefix(t: &str, prefix: &str) -> (r: bool)
    ensures
        r == starts_with(t@, prefix@),
{
    let n = prefix.unicode_len();
    if t.unicode_len() < n {
        return false;
    }
    let head = t.substring_char(0, n).to_owned();
    proof {
        assert(t@.subrange(0, n as int) =~= t@.take(n as int));
    }
    head == prefix.to_owned()
}

/// A directive line shown as code: trimmed, the `<#` of an import or a
/// macro definition dropped, and a closing `>` dropped.
pub fn ftl_to_rust(ftl_text: &str) -> (r: String)
    ensures
        r@ == ftl_code(ftl_text@),
{
    let t = trimmed(ftl_text);
    let ts = t.as_str();
    let len = ts.unicode_len();
    let start: usize = if has_prefix(ts, "<#import") || has_prefix(ts, "<#macro") {
        proof {
            reveal_strlit("<#import");
            reveal_strlit("<#macro");
        }
        2
    } else {
        0
    };
    let mut end = len;
    if end > start && ts.get_char(end - 1) == '>' {
        end -= 1;
    }
    let r = ts.substring_char(start, end).to_owned();
    proof {
        let u = if start == 2 {
            t@.skip(2)
        } else {
            t@
        };
        assert(u =~= t@.subrange(start as int, len as int));
        if end < len {
            assert(r@ =~= u.drop_last());
        } else {
            assert(r@ =~= u);
        }
    }
    r
}

} // verus!
