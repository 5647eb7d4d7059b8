use vstd::prelude::*;

verus! {

/// Number of UTF-8 bytes that encode `c`.
pub open spec fn utf8_len(c: char) -> nat {
    if (c as u32) < 0x80 {
        1
    } else if (c as u32) < 0x800 {
        2
    } else if (c as u32) < 0x10000 {
        3
    } else {
        4
    }
}

/// Number of UTF-16 code units that encode `c`.
pub open spec fn utf16_len(c: char) -> nat {
    if (c as u32) < 0x10000 {
        1
    } else {
        2
    }
}

/// Length in UTF-8 bytes of a character sequence.
pub open spec fn utf8_width(s: Seq<char>) -> nat
    decreases s.len(),
{
    if s.len() == 0 {
        0
    } else {
        utf8_len(s[0]) + utf8_width(s.skip(1))
    }
}

/// Length in UTF-16 code units of a character sequence.
pub open spec fn utf16_width(s: Seq<char>) -> nat
    decreases s.len(),
{
    if s.len() == 0 {
        0
    } else {
        utf16_len(s[0]) + utf16_width(s.skip(1))
    }
}

/// Index of the character that holds byte `b` of the UTF-8 encoding of `s`;
/// `s.len()` when `b` is at or past the end.
pub open spec fn char_at_byte(s: Seq<char>, b: int) -> nat
    decreases s.len(),
{
    if s.len() == 0 || b < utf8_len(s[0]) {
        0
    } else {
        1 + char_at_byte(s.skip(1), b - utf8_len(s[0]))
    }
}

/// Index of the character that holds UTF-16 code unit `u` of `s`;
/// `s.len()` when `u` is at or past the end.
pub open spec fn char_at_unit(s: Seq<char>, u: int) -> nat
    decreases s.len(),
{
    if s.len() == 0 || u < utf16_len(s[0]) {
        0
    } else {
        1 + char_at_unit(s.skip(1), u - utf16_len(s[0]))
    }
}

/// Number of line feeds in `s`.
pub open spec fn newline_count(s: Seq<char>) -> nat
    decreases s.len(),
{
    if s.len() == 0 {
        0
    } else {
        (if s[0] == '\n' {
            1nat
        } else {
            0nat
        }) + newline_count(s.skip(1))
    }
}

/// Number of lines of `s`: one more than its line feeds.
pub open spec fn line_count(s: Seq<char>) -> nat {
    newline_count(s) + 1
}

/// Character index at which line `l` of `s` starts; `s.len()` for the line
/// one past the last.
pub open spec fn line_start(s: Seq<char>, l: nat) -> nat
    decreases s.len(),
{
    if l == 0 || s.len() == 0 {
        0
    } else if s[0] == '\n' {
        1 + line_start(s.skip(1), (l - 1) as nat)
    } else {
        1 + line_start(s.skip(1), l)
    }
}

/// Character index one past the end of line `l`, its line feed included.
pub open spec fn line_end(s: Seq<char>, l: nat) -> nat {
    line_start(s, l + 1)
}

/// UTF-8 byte offset of character index `c`.
pub open spec fn byte_offset(s: Seq<char>, c: int) -> nat {
    utf8_width(s.take(c))
}

/// UTF-16 code unit offset of character index `c`.
pub open spec fn unit_offset(s: Seq<char>, c: int) -> nat {
    utf16_width(s.take(c))
}

pub proof fn lemma_line_start_bound(s: Seq<char>, l: nat)
    ensures
        line_start(s, l) <= s.len(),
    decreases s.len(),
{
    if l != 0 && s.len() != 0 {
        if s[0] == '\n' {
            lemma_line_start_bound(s.skip(1), (l - 1) as nat);
        } else {
            lemma_line_start_bound(s.skip(1), l);
        }
    }
}

pub proof fn lemma_line_start_step(s: Seq<char>, l: nat)
    ensures
        line_start(s, l) <= line_start(s, l + 1),
    decreases s.len(),
{
    if s.len() != 0 && l != 0 {
        if s[0] == '\n' {
            lemma_line_start_step(s.skip(1), (l - 1) as nat);
        } else {
            lemma_line_start_step(s.skip(1), l);
        }
    }
}

pub proof fn lemma_line_start_mono(s: Seq<char>, a: nat, b: nat)
    requires
        a <= b,
    ensures
        line_start(s, a) <= line_start(s, b),
    decreases b - a,
{
    if a < b {
        lemma_line_start_mono(s, a, (b - 1) as nat);
        lemma_line_start_step(s, (b - 1) as nat);
    }
}

pub proof fn lemma_take_skip(s: Seq<char>, c: int)
    requires
        0 < c <= s.len(),
    ensures
        s.take(c).skip(1) =~= s.skip(1).take(c - 1),
        s.take(c)[0] == s[0],
{
}

/// The line of character index `c` starts at or before `c`.
pub proof fn lemma_line_of_char_start(s: Seq<char>, c: int)
    requires
        0 <= c <= s.len(),
    ensures
        line_start(s, newline_count(s.take(c))) <= c,
    decreases s.len(),
{
    if c > 0 {
        lemma_take_skip(s, c);
        lemma_line_of_char_start(s.skip(1), c - 1);
    }
}

pub proof fn lemma_char_at_byte_mono(s: Seq<char>, a: int, b: int)
    requires
        a <= b,
    ensures
        char_at_byte(s, a) <= char_at_byte(s, b),
    decreases s.len(),
{
    if s.len() != 0 && a >= utf8_len(s[0]) {
        lemma_char_at_byte_mono(s.skip(1), a - utf8_len(s[0]), b - utf8_len(s[0]));
    }
}

pub proof fn lemma_char_at_unit_mono(s: Seq<char>, a: int, b: int)
    requires
        a <= b,
    ensures
        char_at_unit(s, a) <= char_at_unit(s, b),
    decreases s.len(),
{
    if s.len() != 0 && a >= utf16_len(s[0]) {
        lemma_char_at_unit_mono(s.skip(1), a - utf16_len(s[0]), b - utf16_len(s[0]));
    }
}

/// The byte offset of a character index leads back to that index.
pub proof fn lemma_char_at_byte_offset(s: Seq<char>, c: int)
    requires
        0 <= c <= s.len(),
    ensures
        char_at_byte(s, byte_offset(s, c) as int) == c,
    decreases s.len(),
{
    if c > 0 {
        lemma_take_skip(s, c);
        lemma_char_at_byte_offset(s.skip(1), c - 1);
    } else {
        assert(s.take(0).len() == 0);
    }
}

/// The code unit offset of a character index leads back to that index.
pub proof fn lemma_char_at_unit_offset(s: Seq<char>, c: int)
    requires
        0 <= c <= s.len(),
    ensures
        char_at_unit(s, unit_offset(s, c) as int) == c,
    decreases s.len(),
{
    if c > 0 {
        lemma_take_skip(s, c);
        lemma_char_at_unit_offset(s.skip(1), c - 1);
    } else {
        assert(s.take(0).len() == 0);
    }
}

pub proof fn lemma_byte_offset_mono(s: Seq<char>, a: int, b: int)
    requires
        0 <= a <= b <= s.len(),
    ensures
        byte_offset(s, a) <= byte_offset(s, b),
    decreases s.len(),
{
    if a > 0 {
        lemma_take_skip(s, a);
        lemma_take_skip(s, b);
        lemma_byte_offset_mono(s.skip(1), a - 1, b - 1);
    } else {
        assert(s.take(0).len() == 0);
    }
}

pub proof fn lemma_unit_offset_mono(s: Seq<char>, a: int, b: int)
    requires
        0 <= a <= b <= s.len(),
    ensures
        unit_offset(s, a) <= unit_offset(s, b),
    decreases s.len(),
{
    if a > 0 {
        lemma_take_skip(s, a);
        lemma_take_skip(s, b);
        lemma_unit_offset_mono(s.skip(1), a - 1, b - 1);
    } else {
        assert(s.take(0).len() == 0);
    }
}

/// Any byte up to the end lies in a character at or before the end.
pub proof fn lemma_char_at_byte_bound(s: Seq<char>, b: int)
    ensures
        char_at_byte(s, b) <= s.len(),
    decreases s.len(),
{
    if s.len() != 0 && b >= utf8_len(s[0]) {
        lemma_char_at_byte_bound(s.skip(1), b - utf8_len(s[0]));
    }
}

pub proof fn lemma_utf8_width_concat(a: Seq<char>, b: Seq<char>)
    ensures
        utf8_width(a + b) == utf8_width(a) + utf8_width(b),
    decreases a.len(),
{
    if a.len() != 0 {
        assert((a + b).skip(1) =~= a.skip(1) + b);
        lemma_utf8_width_concat(a.skip(1), b);
    } else {
        assert(a + b =~= b);
    }
}

/// A prefix holds no more line feeds than the whole.
pub proof fn lemma_newline_count_prefix(s: Seq<char>, c: int)
    requires
        0 <= c <= s.len(),
    ensures
        newline_count(s.take(c)) <= newline_count(s),
    decreases s.len(),
{
    if c > 0 {
        lemma_take_skip(s, c);
        lemma_newline_count_prefix(s.skip(1), c - 1);
    } else {
        assert(s.take(0).len() == 0);
    }
}

pub proof fn lemma_utf16_width_concat(a: Seq<char>, b: Seq<char>)
    ensures
        utf16_width(a + b) == utf16_width(a) + utf16_width(b),
    decreases a.len(),
{
    if a.len() != 0 {
        assert((a + b).skip(1) =~= a.skip(1) + b);
        lemma_utf16_width_concat(a.skip(1), b);
    } else {
        assert(a + b =~= b);
    }
}

/// The bytes between two character indices are those of the characters
/// between them.
pub proof fn lemma_byte_offset_diff(s: Seq<char>, a: int, b: int)
    requires
        0 <= a <= b <= s.len(),
    ensures
        byte_offset(s, b) - byte_offset(s, a) == utf8_width(s.subrange(a, b)),
        unit_offset(s, b) - unit_offset(s, a) == utf16_width(s.subrange(a, b)),
{
    assert(s.take(b) =~= s.take(a) + s.subrange(a, b));
    lemma_utf8_width_concat(s.take(a), s.subrange(a, b));
    lemma_utf16_width_concat(s.take(a), s.subrange(a, b));
}

/// A byte counted from the start of character `k` lies `k` characters on.
pub proof fn lemma_char_at_byte_shift(s: Seq<char>, k: int, x: int)
    requires
        0 <= k <= s.len(),
        0 <= x,
    ensures
        char_at_byte(s, byte_offset(s, k) + x) == k + char_at_byte(s.skip(k), x),
    decreases k,
{
    if k == 0 {
        assert(s.take(0).len() == 0);
        assert(s.skip(0) =~= s);
    } else {
        lemma_take_skip(s, k);
        lemma_char_at_byte_shift(s.skip(1), k - 1, x);
        assert(s.skip(1).skip(k - 1) =~= s.skip(k));
    }
}

/// A code unit counted from the start of character `k` lies `k`
/// characters on.
pub proof fn lemma_char_at_unit_shift(s: Seq<char>, k: int, x: int)
    requires
        0 <= k <= s.len(),
        0 <= x,
    ensures
        char_at_unit(s, unit_offset(s, k) + x) == k + char_at_unit(s.skip(k), x),
    decreases k,
{
    if k == 0 {
        assert(s.take(0).len() == 0);
        assert(s.skip(0) =~= s);
    } else {
        lemma_take_skip(s, k);
        lemma_char_at_unit_shift(s.skip(1), k - 1, x);
        assert(s.skip(1).skip(k - 1) =~= s.skip(k));
    }
}

/// A byte within a prefix lies in the same character of the prefix.
pub proof fn lemma_char_at_byte_prefix(t: Seq<char>, m: int, x: int)
    requires
        0 <= m <= t.len(),
        x <= utf8_width(t.take(m)),
    ensures
        char_at_byte(t, x) == char_at_byte(t.take(m), x),
    decreases t.len(),
{
    if m == 0 {
        assert(t.take(0).len() == 0);
    } else {
        lemma_take_skip(t, m);
        if x >= utf8_len(t[0]) {
            lemma_char_at_byte_prefix(t.skip(1), m - 1, x - utf8_len(t[0]));
        }
    }
}

/// A code unit within a prefix lies in the same character of the prefix.
pub proof fn lemma_char_at_unit_prefix(t: Seq<char>, m: int, x: int)
    requires
        0 <= m <= t.len(),
        x <= utf16_width(t.take(m)),
    ensures
        char_at_unit(t, x) == char_at_unit(t.take(m), x),
    decreases t.len(),
{
    if m == 0 {
        assert(t.take(0).len() == 0);
    } else {
        lemma_take_skip(t, m);
        if x >= utf16_len(t[0]) {
            lemma_char_at_unit_prefix(t.skip(1), m - 1, x - utf16_len(t[0]));
        }
    }
}

} // verus!
