//! JSON text, by way of `serde_json`.

use serde_json::Value;
use vstd::prelude::*;

use crate::json::{FloatText, Json, JsonView, NegativeInt};
use crate::text::Chars;

verus! {

/// `serde_json::Value`, carried between the calls of this module.
#[verifier::external_type_specification]
#[verifier::external_body]
pub struct ExValue(serde_json::Value);

/// What a `serde_json::Value` holds.
pub uninterp spec fn value_model(value: serde_json::Value) -> JsonView;

/// Compact JSON text of a value: what `serde_json` prints for it.
pub uninterp spec fn compact_json(value: JsonView) -> Chars;

/// The value that `serde_json` reads from a text, where the text is JSON.
pub uninterp spec fn parsed_json(text: Chars) -> Option<JsonView>;

/// Builds the `serde_json::Value` of the same content, variant by variant.
#[verifier::external_body]
fn to_value(json: &Json) -> (r: Value)
    ensures
        value_model(r) == json@,
{
    match json {
        Json::Null => Value::Null,
        Json::Bool(b) => Value::Bool(*b),
        Json::Uint(n) => Value::from(*n),
        Json::Int(n) => Value::from(n.value),
        Json::Float(t) => t.text.parse().ok().and_then(serde_json::Number::from_f64).map_or(
            Value::Null,
            Value::Number,
        ),
        Json::Str(s) => Value::String(s.clone()),
        Json::Array(items) => items.iter().map(to_value).collect(),
        Json::Object(entries) => entries.iter().map(|(k, v)| (k.clone(), to_value(v))).collect(),
    }
}

/// Reads the content of a `serde_json::Value`, variant by variant. A number that
/// is an integer of 64 bits but not one without sign is below zero; of any other
/// the text that it prints is kept.
#[verifier::external_body]
fn from_value(value: Value) -> (r: Json)
    ensures
        r@ == value_model(value),
{
    match value {
        Value::Null => Json::Null,
        Value::Bool(b) => Json::Bool(b),
        Value::Number(n) => match (n.as_u64(), n.as_i64()) {
            (Some(u), _) => Json::Uint(u),
            (None, Some(value)) => Json::Int(NegativeInt { value }),
            (None, None) => Json::Float(FloatText { text: n.to_string() }),
        },
        Value::String(s) => Json::Str(s),
        Value::Array(items) => Json::Array(items.into_iter().map(from_value).collect()),
        Value::Object(members) => Json::Object(
            members.into_iter().map(|(k, v)| (k, from_value(v))).collect(),
        ),
    }
}

/// `serde_json::Value` displays as compact JSON, which depends on its content
/// alone.
#[verifier::external_body]
fn value_text(value: &serde_json::Value) -> (r: String)
    ensures
        r@ == compact_json(value_model(*value)),
{
    value.to_string()
}

/// `serde_json::from_str` reads the whole text as one JSON value; what it
/// yields, or that it yields nothing, depends on the text alone.
#[verifier::external_body]
fn parse_value(text: &str) -> (r: Option<serde_json::Value>)
    ensures
        match r {
            Some(value) => parsed_json(text@) == Some(value_model(value)),
            None => parsed_json(text@) is None,
        },
{
    serde_json::from_str::<serde_json::Value>(text).ok()
}

/// Compact JSON text of a value.
pub fn json_text(json: &Json) -> (r: String)
    ensures
        r@ == compact_json(json@),
{
    value_text(&to_value(json))
}

/// The value that a JSON text stands for.
pub fn parse_json(text: &str) -> (r: Option<Json>)
    ensures
        r.deep_view() == parsed_json(text@),
{
    match parse_value(text) {
        Some(value) => Some(from_value(value)),
        None => None,
    }
}

/// Lower-case hexadecimal digit.
pub open spec fn hex_digit(n: int) -> char {
    if n < 10 {
        ('0' as int + n) as char
    } else {
        ('a' as int + n - 10) as char
    }
}

/// How one character stands in a JSON string.
pub open spec fn json_escape(c: char) -> Chars {
    if c == '"' {
        seq!['\\', '"']
    } else if c == '\\' {
        seq!['\\', '\\']
    } else if c == '\u{8}' {
        seq!['\\', 'b']
    } else if c == '\u{c}' {
        seq!['\\', 'f']
    } else if c == '\n' {
        seq!['\\', 'n']
    } else if c == '\r' {
        seq!['\\', 'r']
    } else if c == '\t' {
        seq!['\\', 't']
    } else if (c as u32) < 0x20 {
        seq!['\\', 'u', '0', '0', hex_digit(c as int / 16), hex_digit(c as int % 16)]
    } else {
        seq![c]
    }
}

/// A text as a JSON string literal.
pub open spec fn json_quote(s: Chars) -> Chars {
    seq!['"'] + s.flat_map(|c: char| json_escape(c)) + seq!['"']
}

/// `serde_json::to_string` of a string writes the literal between quotes, with
/// the quote, the backslash and the control characters below U+0020 escaped.
/// Writing into memory does not fail.
#[verifier::external_body]
pub(crate) fn quoted(s: &str) -> (r: Result<String, serde_json::Error>)
    ensures
        r is Ok,
        r->Ok_0@ == json_quote(s@),
{
    serde_json::to_string(s)
}

/// `serde_json::Error`, which a failed serialization would carry.
#[verifier::external_type_specification]
#[verifier::external_body]
pub struct ExJsonError(serde_json::Error);

/// The string as a JSON string literal, which is also a JavaScript one.
pub fn quote(s: &str) -> (r: String)
    ensures
        r@ == json_quote(s@),
{
    match quoted(s) {
        Ok(text) => text,
        Err(_) => String::new(),
    }
}

} // verus!
