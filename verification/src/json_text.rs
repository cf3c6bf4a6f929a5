//! Writing JSON text: decimal numbers and string literals in the form that
//! `serde_json` writes them.

use vstd::prelude::*;

use crate::text::{chars_of, string_append, string_push};

verus! {

/// The character of the decimal digit `d`.
pub open spec fn digit_char(d: int) -> char {
    (48 + d) as char
}

/// The decimal digits of `n`, most significant first, without leading
/// zeros.
pub open spec fn decimal(n: nat) -> Seq<char>
    decreases n,
{
    if n < 10 {
        seq![digit_char(n as int)]
    } else {
        decimal(n / 10).push(digit_char((n % 10) as int))
    }
}

/// The lower-case hexadecimal digit of `d`.
pub open spec fn hex_lower(d: int) -> char {
    if d < 10 {
        (48 + d) as char
    } else {
        (87 + d) as char
    }
}

/// How one character is written inside a JSON string: quotes, backslashes
/// and control characters are escaped, the short forms where JSON has them.
pub open spec fn json_escape(c: char) -> Seq<char> {
    if c == '"' {
        seq!['\\', '"']
    } else if c == '\\' {
        seq!['\\', '\\']
    } else if c == '\n' {
        seq!['\\', 'n']
    } else if c == '\r' {
        seq!['\\', 'r']
    } else if c == '\t' {
        seq!['\\', 't']
    } else if c == '\u{8}' {
        seq!['\\', 'b']
    } else if c == '\u{c}' {
        seq!['\\', 'f']
    } else if (c as int) < 0x20 {
        seq!['\\', 'u', '0', '0', hex_lower((c as int) / 16), hex_lower((c as int) % 16)]
    } else {
        seq![c]
    }
}

/// The characters of `s` as written inside a JSON string.
pub open spec fn json_escaped(s: Seq<char>) -> Seq<char>
    decreases s.len(),
{
    if s.len() == 0 {
        Seq::empty()
    } else {
        json_escaped(s.drop_last()) + json_escape(s.last())
    }
}

/// The JSON string literal of `s`.
pub open spec fn json_quoted(s: Seq<char>) -> Seq<char> {
    seq!['"'] + json_escaped(s) + seq!['"']
}

fn digit(d: u64) -> (c: char)
    requires
        d < 10,
    ensures
        c == digit_char(d as int),
{
    let b: u8 = 48u8 + d as u8;
    b as char
}

fn hex_digit_lower(d: u32) -> (c: char)
    requires
        d < 16,
    ensures
        c == hex_lower(d as int),
{
    if d < 10 {
        let b: u8 = 48u8 + d as u8;
        b as char
    } else {
        let b: u8 = 87u8 + d as u8;
        b as char
    }
}

/// Appends the decimal digits of `n`.
pub fn push_decimal(out: &mut String, n: u64)
    ensures
        final(out)@ == old(out)@ + decimal(n as nat),
    decreases n,
{
    if n < 10 {
        string_push(out, digit(n));
        assert(decimal(n as nat) == seq![digit_char(n as int)]);
    } else {
        push_decimal(out, n / 10);
        string_push(out, digit(n % 10));
    }
}

/// Appends `c` as written inside a JSON string.
fn push_escaped_char(out: &mut String, c: char)
    ensures
        final(out)@ == old(out)@ + json_escape(c),
{
    if c == '"' {
        string_push(out, '\\');
        string_push(out, '"');
    } else if c == '\\' {
        string_push(out, '\\');
        string_push(out, '\\');
    } else if c == '\n' {
        string_push(out, '\\');
        string_push(out, 'n');
    } else if c == '\r' {
        string_push(out, '\\');
        string_push(out, 'r');
    } else if c == '\t' {
        string_push(out, '\\');
        string_push(out, 't');
    } else if c == '\u{8}' {
        string_push(out, '\\');
        string_push(out, 'b');
    } else if c == '\u{c}' {
        string_push(out, '\\');
        string_push(out, 'f');
    } else if (c as u32) < 0x20 {
        let v = c as u32;
        string_push(out, '\\');
        string_push(out, 'u');
        string_push(out, '0');
        string_push(out, '0');
        string_push(out, hex_digit_lower(v / 16));
        string_push(out, hex_digit_lower(v % 16));
    } else {
        string_push(out, c);
    }
}

/// Appends the JSON string literal of `s`.
pub fn push_json_quoted(out: &mut String, s: &str)
    ensures
        final(out)@ == old(out)@ + json_quoted(s@),
{
    let chars = chars_of(s);
    let ghost start = out@;
    string_push(out, '"');
    let mut i: usize = 0;
    while i < chars.len()
        invariant
            chars@ == s@,
            i <= chars@.len(),
            out@ == start + seq!['"'] + json_escaped(s@.take(i as int)),
        decreases chars@.len() - i,
    {
        push_escaped_char(out, chars[i]);
        assert(s@.take(i + 1).drop_last() == s@.take(i as int));
        i = i + 1;
    }
    assert(s@.take(chars@.len() as int) == s@);
    string_push(out, '"');
    assert(out@ == start + json_quoted(s@));
}

} // verus!
