//! Writing text as a JSON string: the escaping of its characters, and the
//! reading that undoes it.

use vstd::prelude::*;
use crate::text::push_char;

verus! {

/// The lower-case hexadecimal digit for `d`, for `0 <= d < 16`.
pub open spec fn hex_char(d: int) -> char {
    if d < 10 {
        (d + 48) as char
    } else {
        (d + 87) as char
    }
}

/// Whether `c` is a control character, which JSON does not allow bare inside
/// a string.
pub open spec fn is_control(c: char) -> bool {
    (c as int) < 32
}

/// Whether `c` can stand for itself inside a JSON string.
pub open spec fn is_plain(c: char) -> bool {
    c != '"' && c != '\\' && !is_control(c)
}

/// How one character is written inside a JSON string: the quotation mark and
/// the backslash behind a backslash, line feed, carriage return and tab by
/// their letters, any other control character as `\u00` and two hexadecimal
/// digits, and every other character as itself.
pub open spec fn escape_char(c: char) -> Seq<char> {
    if c == '"' {
        seq!['\\', '"']
    } else if c == '\\' {
        seq!['\\', '\\']
    } else if c == '\n' {
        seq!['\\', 'n']
    } else if c == '\r' {
        seq!['\\', 'r']
    } else if c == '\t' {
        seq!['\\', 't']
    } else if is_control(c) {
        seq!['\\', 'u', '0', '0', hex_char(c as int / 16), hex_char(c as int % 16)]
    } else {
        seq![c]
    }
}

/// The content of the JSON string that denotes `s`, without the surrounding
/// quotation marks.
pub open spec fn escape(s: Seq<char>) -> Seq<char>
    decreases s.len(),
{
    if s.len() == 0 {
        Seq::empty()
    } else {
        escape_char(s[0]) + escape(s.drop_first())
    }
}

/// The JSON string that denotes `s`, quotation marks included.
pub open spec fn quoted(s: Seq<char>) -> Seq<char> {
    seq!['"'] + escape(s) + seq!['"']
}

/// The number that a hexadecimal digit stands for, in either case.
pub open spec fn hex_value(c: char) -> Option<int> {
    if '0' <= c <= '9' {
        Some(c as int - 48)
    } else if 'a' <= c <= 'f' {
        Some(c as int - 87)
    } else if 'A' <= c <= 'F' {
        Some(c as int - 55)
    } else {
        None
    }
}

/// The number that four hexadecimal digits stand for.
pub open spec fn code_unit(h: Seq<char>) -> Option<int> {
    if h.len() == 4 && hex_value(h[0]) is Some && hex_value(h[1]) is Some && hex_value(h[2]) is Some
        && hex_value(h[3]) is Some {
        Some(
            ((hex_value(h[0])->0 * 16 + hex_value(h[1])->0) * 16 + hex_value(h[2])->0) * 16
                + hex_value(h[3])->0,
        )
    } else {
        None
    }
}

/// The character that a backslash and the letter `c` stand for in a JSON
/// string, for the two-character escapes.
pub open spec fn short_escape(c: char) -> Option<char> {
    if c == '"' || c == '\\' || c == '/' {
        Some(c)
    } else if c == 'b' {
        Some('\u{8}')
    } else if c == 'f' {
        Some('\u{c}')
    } else if c == 'n' {
        Some('\n')
    } else if c == 'r' {
        Some('\r')
    } else if c == 't' {
        Some('\t')
    } else {
        None
    }
}

/// Whether `code` is one of the surrogate codes, which are no characters.
pub open spec fn is_surrogate(code: int) -> bool {
    0xD800 <= code <= 0xDFFF
}

/// `c` in front of `rest`, where there is a rest.
pub open spec fn prepend(c: char, rest: Option<Seq<char>>) -> Option<Seq<char>> {
    match rest {
        Some(r) => Some(seq![c] + r),
        None => None,
    }
}

/// What a JSON reader takes the content `t` of a string to denote: `None`
/// where `t` holds a bare quotation mark or control character, or a backslash
/// that starts no escape. A `\u` escape is read where its four digits give a
/// code outside the surrogates.
pub open spec fn unescape(t: Seq<char>) -> Option<Seq<char>>
    decreases t.len(),
{
    if t.len() == 0 {
        Some(Seq::empty())
    } else if t[0] == '\\' {
        if t.len() >= 2 && short_escape(t[1]) is Some {
            prepend(short_escape(t[1])->0, unescape(t.skip(2)))
        } else if t.len() >= 6 && t[1] == 'u' && code_unit(t.subrange(2, 6)) is Some
            && !is_surrogate(code_unit(t.subrange(2, 6))->0) {
            prepend(code_unit(t.subrange(2, 6))->0 as char, unescape(t.skip(6)))
        } else {
            None
        }
    } else if !is_plain(t[0]) {
        None
    } else {
        prepend(t[0], unescape(t.skip(1)))
    }
}

/// Text made of plain characters only is written unchanged.
pub proof fn lemma_escape_plain(s: Seq<char>)
    requires
        forall|i: int| 0 <= i < s.len() ==> is_plain(#[trigger] s[i]),
    ensures
        escape(s) == s,
    decreases s.len(),
{
    if s.len() > 0 {
        lemma_escape_plain(s.drop_first());
    }
}

/// A hexadecimal digit stands for the number it was written from.
pub proof fn lemma_hex_round_trip(d: int)
    requires
        0 <= d < 16,
    ensures
        hex_value(hex_char(d)) == Some(d),
{
}

/// Reading the escaped form of one character gives that character, and goes
/// on with what follows it.
pub proof fn lemma_unescape_step(c: char, tail: Seq<char>)
    ensures
        unescape(escape_char(c) + tail) == prepend(c, unescape(tail)),
{
    let head = escape_char(c);
    let t = head + tail;
    assert(t.skip(head.len() as int) =~= tail);
    if is_control(c) && c != '\n' && c != '\r' && c != '\t' {
        let hi = c as int / 16;
        let lo = c as int % 16;
        lemma_hex_round_trip(hi);
        lemma_hex_round_trip(lo);
    }
}

/// What was escaped reads back as it was.
pub proof fn lemma_unescape_escape(s: Seq<char>)
    ensures
        unescape(escape(s)) == Some(s),
    decreases s.len(),
{
    if s.len() > 0 {
        lemma_unescape_escape(s.drop_first());
        lemma_unescape_step(s[0], escape(s.drop_first()));
    }
}

/// Appends to `out` the way `c` is written inside a JSON string.
pub fn push_escaped_char(out: &mut String, c: char)
    ensures
        final(out)@ == old(out)@ + escape_char(c),
{
    if c == '"' {
        push_char(out, '\\');
        push_char(out, '"');
    } else if c == '\\' {
        push_char(out, '\\');
        push_char(out, '\\');
    } else if c == '\n' {
        push_char(out, '\\');
        push_char(out, 'n');
    } else if c == '\r' {
        push_char(out, '\\');
        push_char(out, 'r');
    } else if c == '\t' {
        push_char(out, '\\');
        push_char(out, 't');
    } else if (c as u32) < 32 {
        let code: u8 = c as u8;
        push_char(out, '\\');
        push_char(out, 'u');
        push_char(out, '0');
        push_char(out, '0');
        push_char(out, hex_digit(code / 16));
        push_char(out, hex_digit(code % 16));
    } else {
        push_char(out, c);
    }
}

/// The lower-case hexadecimal digit for `d`.
fn hex_digit(d: u8) -> (c: char)
    requires
        d < 16,
    ensures
        c == hex_char(d as int),
{
    if d < 10 {
        (d + 48u8) as char
    } else {
        (d + 87u8) as char
    }
}

/// Appends to `out` the content of the JSON string that denotes `s`.
pub fn push_escaped(out: &mut String, s: &str)
    ensures
        final(out)@ == old(out)@ + escape(s@),
{
    let ghost start = out@;
    assert(s@.skip(0) =~= s@);
    for c in it: s.chars()
        invariant
            it.seq() == s@,
            start + escape(s@) == out@ + escape(s@.skip(it.index())),
    {
        assert(s@.skip(it.index()).drop_first() =~= s@.skip(it.index() + 1));
        push_escaped_char(out, c);
    }
}

/// Appends to `out` the JSON string that denotes `s`, quotation marks
/// included.
pub fn push_quoted(out: &mut String, s: &str)
    ensures
        final(out)@ == old(out)@ + quoted(s@),
{
    push_char(out, '"');
    push_escaped(out, s);
    push_char(out, '"');
}

} // verus!
