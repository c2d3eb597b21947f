//! JSON text that serde_json writes and reads.
use vstd::prelude::*;

use crate::ids::hex_digit;
use crate::values::{InputValue, InputValueView};

verus! {

/// How serde_json writes one character inside a string literal: a quote, a backslash
/// and the controls with a short form are escaped by a backslash, other controls below
/// U+0020 as `\u00` and two lowercase hexadecimal digits, and any other character as it
/// is.
pub open spec fn json_char_text(c: char) -> Seq<char> {
    if c == '"' {
        seq!['\\', '"']
    } else if c == '\\' {
        seq!['\\', '\\']
    } else if c == '\u{8}' {
        seq!['\\', 'b']
    } else if c == '\t' {
        seq!['\\', 't']
    } else if c == '\n' {
        seq!['\\', 'n']
    } else if c == '\u{c}' {
        seq!['\\', 'f']
    } else if c == '\r' {
        seq!['\\', 'r']
    } else if (c as u32) < 0x20 {
        seq!['\\', 'u', '0', '0', hex_digit(((c as u32) / 16) as nat), hex_digit(((c as u32) % 16) as nat)]
    } else {
        seq![c]
    }
}

/// The characters of `s` as serde_json writes them inside a string literal.
pub open spec fn json_escaped(s: Seq<char>) -> Seq<char>
    decreases s.len(),
{
    if s.len() == 0 {
        seq![]
    } else {
        json_char_text(s[0]) + json_escaped(s.drop_first())
    }
}

/// The JSON string literal that serde_json writes for `s`: the escaped characters
/// between double quotes.
pub open spec fn json_quoted(s: Seq<char>) -> Seq<char> {
    seq!['"'] + json_escaped(s) + seq!['"']
}

/// Calls `serde_json::to_string` on a string slice, which cannot fail for a string.
#[verifier::external_body]
pub(crate) fn json_string(s: &str) -> (r: String)
    ensures
        r@ == json_quoted(s@),
{
    match serde_json::to_string(s) {
        Ok(text) => text,
        Err(_) => String::new(),
    }
}

/// What serde_json reads from `text` as one input value, or `None` where `text` is not
/// one JSON document. Numbers, arrays and objects are held in the compact JSON text
/// that serde_json writes for them.
pub uninterp spec fn json_input(text: Seq<char>) -> Option<InputValueView>;

/// Calls `serde_json::from_str` for a `serde_json::Value` and takes the value as an
/// input value: null, a boolean or a string as it is, a number, an array or an object
/// as its `to_string()` text.
#[verifier::external_body]
pub(crate) fn parse_json_input(text: &str) -> (r: Option<InputValue>)
    ensures
        match json_input(text@) {
            Some(v) => r matches Some(x) && x@ == v,
            None => r is None,
        },
{
    match serde_json::from_str::<serde_json::Value>(text) {
        Ok(serde_json::Value::Null) => Some(InputValue::Null),
        Ok(serde_json::Value::Bool(b)) => Some(InputValue::Bool(b)),
        Ok(serde_json::Value::Number(n)) => Some(InputValue::Number(n.to_string())),
        Ok(serde_json::Value::String(s)) => Some(InputValue::String(s)),
        Ok(other) => Some(InputValue::Composite(other.to_string())),
        Err(_) => None,
    }
}

/// What serde_json reads from the bytes of a chat answer: `None` where they are not one
/// JSON document; else the string at JSON pointer `content_pointer` and the string
/// under the top-level key `model`, each `None` where absent or not a string.
pub uninterp spec fn json_chat_reply(body: Seq<u8>, content_pointer: Seq<char>) -> Option<(Option<Seq<char>>, Option<Seq<char>>)>;

/// Calls `serde_json::from_slice` for a `serde_json::Value`, then `pointer` and `get`
/// with `as_str` on the result.
#[verifier::external_body]
pub(crate) fn parse_chat_reply(body: &[u8], content_pointer: &str) -> (r: Option<(Option<String>, Option<String>)>)
    ensures
        match json_chat_reply(body@, content_pointer@) {
            Some((c, m)) => r matches Some((x, y)) && crate::text::opt_view(x) == c && crate::text::opt_view(y) == m,
            None => r is None,
        },
{
    match serde_json::from_slice::<serde_json::Value>(body) {
        Ok(value) => Some((
            value.pointer(content_pointer).and_then(serde_json::Value::as_str).map(str::to_owned),
            value.get("model").and_then(serde_json::Value::as_str).map(str::to_owned),
        )),
        Err(_) => None,
    }
}

/// Whether serde_json reads `text` as one JSON document that is an object.
pub uninterp spec fn json_object_text(text: Seq<char>) -> bool;

/// Calls `serde_json::from_str` for a `serde_json::Value` and tells whether it read an
/// object.
#[verifier::external_body]
pub(crate) fn is_json_object(text: &str) -> (r: bool)
    ensures
        r == json_object_text(text@),
{
    matches!(serde_json::from_str::<serde_json::Value>(text), Ok(serde_json::Value::Object(_)))
}

} // verus!
