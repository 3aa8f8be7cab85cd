//! A JSON value as plain data, and lookups in it.

use crate::text::push_str;
use vstd::prelude::*;

verus! {

/// A JSON value.
#[derive(Debug)]
pub enum JsonValue {
    Null,
    Bool(bool),
    /// A number, by its text.
    Number(String),
    String(String),
    Array(Vec<JsonValue>),
    /// An object, by its entries in order; keys do not repeat.
    Object(Vec<(String, JsonValue)>),
}

/// The value under `key` in the entries of an object, from index `i` on.
pub open spec fn entry_value(entries: Seq<(String, JsonValue)>, key: Seq<char>, i: int) -> Option<JsonValue>
    decreases entries.len() - i,
{
    if i < 0 || i >= entries.len() {
        None
    } else if entries[i].0@ == key {
        Some(entries[i].1)
    } else {
        entry_value(entries, key, i + 1)
    }
}

/// The value under `key`, if `v` is an object that has one.
pub open spec fn json_get_spec(v: JsonValue, key: Seq<char>) -> Option<JsonValue> {
    match v {
        JsonValue::Object(entries) => entry_value(entries@, key, 0),
        _ => None,
    }
}

/// Looks up `key` in the entries of an object.
pub fn map_get<'a>(entries: &'a Vec<(String, JsonValue)>, key: &str) -> (r: Option<&'a JsonValue>)
    ensures
        match r {
            Some(x) => entry_value(entries@, key@, 0) == Some(*x),
            None => entry_value(entries@, key@, 0) is None,
        },
{
    let mut i: usize = 0;
    while i < entries.len()
        invariant
            i <= entries@.len(),
            entry_value(entries@, key@, i as int) == entry_value(entries@, key@, 0),
        decreases entries@.len() - i,
    {
        if crate::xml::str_eq(entries[i].0.as_str(), key) {
            return Some(&entries[i].1);
        }
        i = i + 1;
    }
    None
}

/// Looks up `key` in `v`, if `v` is an object.
pub fn json_get<'a>(v: &'a JsonValue, key: &str) -> (r: Option<&'a JsonValue>)
    ensures
        match r {
            Some(x) => json_get_spec(*v, key@) == Some(*x),
            None => json_get_spec(*v, key@) is None,
        },
{
    match v {
        JsonValue::Object(entries) => map_get(entries, key),
        _ => None,
    }
}

#[verifier::external_type_specification]
#[verifier::external_body]
pub struct ExSerdeValue(serde_json::Value);

/// What serde_json makes of `bytes`: the JSON value they hold, or none if
/// they are not one valid JSON text.
pub uninterp spec fn json_of_bytes(bytes: Seq<u8>) -> Option<JsonValue>;

/// The library's form of a serde_json value: the same value, a number by its
/// text, an object by its entries in serde_json's order.
#[verifier::external_body]
fn from_serde(v: &serde_json::Value) -> JsonValue {
    match v {
        serde_json::Value::Null => JsonValue::Null,
        serde_json::Value::Bool(b) => JsonValue::Bool(*b),
        serde_json::Value::Number(n) => JsonValue::Number(n.to_string()),
        serde_json::Value::String(s) => JsonValue::String(s.clone()),
        serde_json::Value::Array(items) => JsonValue::Array(items.iter().map(from_serde).collect()),
        serde_json::Value::Object(m) => JsonValue::Object(m.iter().map(|(k, x)| (k.clone(), from_serde(x))).collect()),
    }
}

/// Parses a JSON text.
///
/// Calls `serde_json::from_slice::<serde_json::Value>` and converts the value
/// one for one; the error is serde_json's message. The result depends on the
/// bytes alone, and is named by [`json_of_bytes`].
#[verifier::external_body]
pub(crate) fn parse_json(bytes: &[u8]) -> (r: Result<JsonValue, String>)
    ensures
        match r {
            Ok(v) => json_of_bytes(bytes@) == Some(v),
            Err(_) => json_of_bytes(bytes@) is None,
        },
{
    match serde_json::from_slice::<serde_json::Value>(bytes) {
        Ok(v) => Ok(from_serde(&v)),
        Err(e) => Err(e.to_string()),
    }
}

/// Decodes the JSON text of the file named `name`: its value, or the message
/// `decode <name>: <serde_json's message>`.
pub fn decode_json(bytes: &[u8], name: &str) -> (r: Result<JsonValue, String>)
    ensures
        match json_of_bytes(bytes@) {
            Some(v) => r == Ok::<JsonValue, String>(v),
            None => r matches Err(m) && exists|e: Seq<char>| m@ == "decode "@ + name@ + ": "@ + e,
        },
{
    match parse_json(bytes) {
        Ok(v) => Ok(v),
        Err(e) => {
            let mut m = String::new();
            push_str(&mut m, "decode ");
            push_str(&mut m, name);
            push_str(&mut m, ": ");
            push_str(&mut m, e.as_str());
            assert(m@ =~= "decode "@ + name@ + ": "@ + e@);
            Err(m)
        },
    }
}

/// The string that `v` holds under `key`, empty if it holds none there.
pub open spec fn string_or_empty(v: JsonValue, key: Seq<char>) -> Seq<char> {
    match json_get_spec(v, key) {
        Some(JsonValue::String(s)) => s@,
        _ => seq![],
    }
}

/// The string that `v` holds under `key`, empty if it holds none there (as
/// the version of a fixture is read from its expectation).
pub fn json_str_or_empty<'a>(v: &'a JsonValue, key: &str) -> (r: &'a str)
    ensures
        r@ == string_or_empty(*v, key@),
{
    proof {
        reveal_strlit("");
    }
    match json_get(v, key) {
        Some(JsonValue::String(s)) => s.as_str(),
        _ => "",
    }
}

} // verus!
