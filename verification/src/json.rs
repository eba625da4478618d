//! JSON text: string literals, base64 text, and re-encoding of JSON
//! documents through `serde_json`.
//!
//! A JSON document is held here as its text. Whatever `serde_json` computes
//! on such a text (parsing it and writing it back, compactly or indented) is
//! named by a spec function; what is short enough to state (string literals,
//! base64) is stated in full.
use base64::Engine;
use vstd::prelude::*;
use vstd::utf8::encode_utf8;

verus! {

/// The lower-case hexadecimal digit for `d < 16`.
pub open spec fn hex_digit(d: int) -> char {
    if d < 10 {
        (48 + d) as char
    } else {
        (87 + d) as char
    }
}

/// How `serde_json` writes one character inside a string literal: `"` and
/// `\` are escaped with a backslash, the control characters U+0008, U+0009,
/// U+000A, U+000C and U+000D by their short escapes, every other control
/// character below U+0020 as `\u00XX` with lower-case hex digits, and all
/// other characters as themselves.
pub open spec fn escaped_char(c: char) -> Seq<char> {
    if c == '"' {
        seq!['\\', '"']
    } else if c == '\\' {
        seq!['\\', '\\']
    } else if c == '\u{8}' {
        seq!['\\', 'b']
    } else if c == '\t' {
        seq!['\\', 't']
    } else if c == '\n' {
        seq!['\\', 'n']
    } else if c == '\u{c}' {
        seq!['\\', 'f']
    } else if c == '\r' {
        seq!['\\', 'r']
    } else if (c as int) < 0x20 {
        seq!['\\', 'u', '0', '0', hex_digit((c as int) / 16), hex_digit((c as int) % 16)]
    } else {
        seq![c]
    }
}

/// The escaped body of a JSON string literal for `s`.
pub open spec fn escaped(s: Seq<char>) -> Seq<char>
    decreases s.len(),
{
    if s.len() == 0 {
        seq![]
    } else {
        escaped_char(s[0]) + escaped(s.drop_first())
    }
}

/// The JSON string literal for `s`, quotes included.
pub open spec fn string_literal(s: Seq<char>) -> Seq<char> {
    seq!['"'] + escaped(s) + seq!['"']
}

/// The character of the standard base64 alphabet for `i < 64`.
pub open spec fn base64_char(i: int) -> char {
    if i < 26 {
        (65 + i) as char
    } else if i < 52 {
        (97 + (i - 26)) as char
    } else if i < 62 {
        (48 + (i - 52)) as char
    } else if i == 62 {
        '+'
    } else {
        '/'
    }
}

/// Standard base64 (RFC 4648, standard alphabet) with `=` padding: every
/// three bytes become four characters, and a last group of one or two bytes
/// is padded to four characters.
pub open spec fn base64(s: Seq<u8>) -> Seq<char>
    decreases s.len(),
{
    if s.len() == 0 {
        seq![]
    } else {
        let a = s[0] as int;
        if s.len() == 1 {
            seq![base64_char(a / 4), base64_char((a % 4) * 16), '=', '=']
        } else {
            let b = s[1] as int;
            if s.len() == 2 {
                seq![
                    base64_char(a / 4),
                    base64_char((a % 4) * 16 + b / 16),
                    base64_char((b % 16) * 4),
                    '=',
                ]
            } else {
                let c = s[2] as int;
                seq![
                    base64_char(a / 4),
                    base64_char((a % 4) * 16 + b / 16),
                    base64_char((b % 16) * 4 + c / 64),
                    base64_char(c % 64),
                ] + base64(s.skip(3))
            }
        }
    }
}

/// The view of an optional string.
pub open spec fn opt_view(o: Option<String>) -> Option<Seq<char>> {
    match o {
        Some(s) => Some(s@),
        None => None,
    }
}

/// The UTF-8 bytes of a text.
pub open spec fn utf8(text: Seq<char>) -> Seq<u8> {
    encode_utf8(text)
}

/// What `serde_json` gives for `bytes` read as one JSON document
/// (`serde_json::from_slice` into a `serde_json::Value`) and written back
/// compactly (`Value`'s `Display`): `None` when the bytes are no JSON
/// document.
pub uninterp spec fn json_compact(bytes: Seq<u8>) -> Option<Seq<char>>;

/// What `serde_json` gives for `bytes` read as one JSON document and
/// written back by `serde_json::to_string_pretty` (two-space indentation):
/// `None` when the bytes are no JSON document.
pub uninterp spec fn json_pretty(bytes: Seq<u8>) -> Option<Seq<char>>;

/// The JSON string literal for `s`.
///
/// Trusted: calls `serde_json::to_string` on a `&str`. Its source
/// (`format_escaped_str_contents` and the `ESCAPE` table in `ser.rs`) writes
/// a quote, each character as `escaped_char` states, and a closing quote;
/// writing into a `Vec` cannot fail, so the error arm is never taken. The
/// literal is a JSON document that `serde_json` reads back as the string
/// `s`, which it writes compactly as this very literal.
#[verifier::external_body]
pub(crate) fn quote(s: &str) -> (r: String)
    ensures
        r@ == string_literal(s@),
        json_compact(utf8(r@)) == Some(r@),
{
    match serde_json::to_string(s) {
        Ok(t) => t,
        Err(_) => String::new(),
    }
}

/// Standard base64 of `bytes`, padded.
///
/// Trusted: calls `base64::engine::general_purpose::STANDARD.encode`, the
/// engine built from the standard alphabet with padding, which encodes as
/// `base64` states.
#[verifier::external_body]
pub(crate) fn base64_encode(bytes: &[u8]) -> (r: String)
    ensures
        r@ == base64(bytes@),
{
    base64::engine::general_purpose::STANDARD.encode(bytes)
}

/// Reads `bytes` as a JSON document and writes it back compactly.
///
/// Trusted: calls `serde_json::from_slice::<serde_json::Value>` and turns
/// the value into text with its `Display` (compact) form; the result is
/// named `json_compact`. Nothing more of it is stated here.
#[verifier::external_body]
pub(crate) fn compact_of(bytes: &[u8]) -> (r: Option<String>)
    ensures
        opt_view(r) == json_compact(bytes@),
{
    match serde_json::from_slice::<serde_json::Value>(bytes) {
        Ok(v) => Some(v.to_string()),
        Err(_) => None,
    }
}

/// Reads `bytes` as a JSON document and writes it back indented.
///
/// Trusted: calls `serde_json::from_slice::<serde_json::Value>`, then
/// `serde_json::to_string_pretty` on the value; the result is named
/// `json_pretty`. Writing a `Value` cannot fail (its map keys are strings),
/// so there is a result exactly when the bytes parse, which is also when
/// `compact_of` gives one.
#[verifier::external_body]
pub(crate) fn pretty_of(bytes: &[u8]) -> (r: Option<String>)
    ensures
        opt_view(r) == json_pretty(bytes@),
        r is Some <==> json_compact(bytes@) is Some,
{
    match serde_json::from_slice::<serde_json::Value>(bytes) {
        Ok(v) => serde_json::to_string_pretty(&v).ok(),
        Err(_) => None,
    }
}

} // verus!
