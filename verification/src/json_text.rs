//! JSON string literals, as `serde_json` writes them.
use vstd::prelude::*;

verus! {

/// The lowercase hexadecimal digit for a value below sixteen.
pub open spec fn hex_digit(d: int) -> char {
    if d < 10 {
        crate::text::digit_char(d as nat)
    } else if d == 10 {
        'a'
    } else if d == 11 {
        'b'
    } else if d == 12 {
        'c'
    } else if d == 13 {
        'd'
    } else if d == 14 {
        'e'
    } else {
        'f'
    }
}

/// How one character is written inside a JSON string literal: `"` and `\`
/// behind a backslash, the control characters U+0008, U+0009, U+000A, U+000C
/// and U+000D as `\b`, `\t`, `\n`, `\f` and `\r`, the other control characters
/// below U+0020 as `\u00` and two lowercase hexadecimal digits, and every
/// other character as itself.
pub open spec fn json_escaped_char(c: char) -> Seq<char> {
    if c == '"' {
        seq!['\\', '"']
    } else if c == '\\' {
        seq!['\\', '\\']
    } else if c == '\u{8}' {
        seq!['\\', 'b']
    } else if c == '\t' {
        seq!['\\', 't']
    } else if c == '\n' {
        seq!['\\', 'n']
    } else if c == '\u{c}' {
        seq!['\\', 'f']
    } else if c == '\r' {
        seq!['\\', 'r']
    } else if (c as int) < 0x20 {
        seq!['\\', 'u', '0', '0', hex_digit((c as int) / 16), hex_digit((c as int) % 16)]
    } else {
        seq![c]
    }
}

/// The escaped characters of a text, in order.
pub open spec fn json_escaped(s: Seq<char>) -> Seq<char>
    decreases s.len(),
{
    if s.len() == 0 {
        Seq::empty()
    } else {
        json_escaped(s.drop_last()) + json_escaped_char(s.last())
    }
}

/// A text as a JSON string literal: its escaped characters between double quotes.
pub open spec fn json_quoted(s: Seq<char>) -> Seq<char> {
    seq!['"'] + json_escaped(s) + seq!['"']
}

/// The JSON string literal of a text, written by `serde_json::to_string`.
///
/// Trusted: serde_json serializes a `str` through its escape table (the
/// `ESCAPE` table and `format_escaped_str` in its `ser` module), which escapes
/// exactly as [`json_escaped_char`] states, between double quotes; writing to
/// a `Vec<u8>` cannot fail, so the error branch is never taken.
#[verifier::external_body]
pub(crate) fn json_string(value: &str) -> (res: String)
    ensures
        res@ == json_quoted(value@),
{
    serde_json::to_string(value).unwrap_or_default()
}

} // verus!
