//! A JSON value as the transcript logic reads it, parsed by serde_json, and
//! field lookups with exact contracts.

use vstd::prelude::*;
use vstd::string::StringSliceAdditionalSpecFns;
use crate::text::str_eq;

verus! {

#[verifier::external_type_specification]
#[verifier::external_body]
pub struct ExSerdeJsonValue(serde_json::Value);

/// One JSON value. Numbers keep the decimal text that serde_json writes for
/// them; object members keep the order in which serde_json hands them out.
#[derive(Debug)]
pub enum JsonValue {
    Null,
    Bool(bool),
    Number(String),
    Str(String),
    Array(Vec<JsonValue>),
    Object(Vec<(String, JsonValue)>),
}

/// What serde_json parses from the bytes `b`: `None` when they are not one
/// JSON text.
pub uninterp spec fn parsed_json(b: Seq<u8>) -> Option<JsonValue>;

/// Relies on serde_json's `Value` variants: each becomes the variant of the
/// same name here, a number as the text that its `Display` writes.
#[verifier::external_body]
fn from_serde(v: serde_json::Value) -> JsonValue {
    match v {
        serde_json::Value::Null => JsonValue::Null,
        serde_json::Value::Bool(b) => JsonValue::Bool(b),
        serde_json::Value::Number(n) => JsonValue::Number(n.to_string()),
        serde_json::Value::String(s) => JsonValue::Str(s),
        serde_json::Value::Array(a) => JsonValue::Array(a.into_iter().map(from_serde).collect()),
        serde_json::Value::Object(m) => JsonValue::Object(
            m.into_iter().map(|(k, v)| (k, from_serde(v))).collect(),
        ),
    }
}

/// Relies on serde_json::from_slice: the parse of one JSON text, which
/// depends on the bytes alone.
#[verifier::external_body]
pub(crate) fn parse_json_bytes(b: &[u8]) -> (r: Option<JsonValue>)
    ensures
        r == parsed_json(b@),
{
    serde_json::from_slice::<serde_json::Value>(b).ok().map(from_serde)
}

/// Parses one JSON text given as a string.
pub fn parse_json(text: &str) -> (r: Option<JsonValue>)
    ensures
        r == parsed_json(text.spec_bytes()),
{
    parse_json_bytes(text.as_bytes())
}

/// The value of the first member named `key` among `fields`.
pub open spec fn lookup(fields: Seq<(String, JsonValue)>, key: Seq<char>) -> Option<JsonValue>
    decreases fields.len(),
{
    if fields.len() == 0 {
        None
    } else if fields[0].0@ == key {
        Some(fields[0].1)
    } else {
        lookup(fields.drop_first(), key)
    }
}

/// The member `key` of `v`, when `v` is an object that has one.
pub open spec fn get(v: JsonValue, key: Seq<char>) -> Option<JsonValue> {
    match v {
        JsonValue::Object(fields) => lookup(fields@, key),
        _ => None,
    }
}

/// The member `key` of `v`, when it is a string.
pub open spec fn get_str(v: JsonValue, key: Seq<char>) -> Option<Seq<char>> {
    match get(v, key) {
        Some(JsonValue::Str(s)) => Some(s@),
        _ => None,
    }
}

/// The member `key` of `v`, when `v` is an object that has one.
pub fn get_field<'a>(v: &'a JsonValue, key: &str) -> (r: Option<&'a JsonValue>)
    ensures
        match r {
            Some(x) => get(*v, key@) == Some(*x),
            None => get(*v, key@) is None,
        },
{
    match v {
        JsonValue::Object(fields) => {
            assert(get(*v, key@) == lookup(fields@, key@));
            let n = fields.len();
            let mut i: usize = 0;
            assert(fields@.subrange(0, n as int) =~= fields@);
            while i < n
                invariant
                    n == fields@.len(),
                    i <= n,
                    get(*v, key@) == lookup(fields@, key@),
                    lookup(fields@.subrange(i as int, n as int), key@) == lookup(fields@, key@),
                decreases n - i,
            {
                assert(fields@.subrange(i as int, n as int).drop_first() =~= fields@.subrange(
                    i + 1,
                    n as int,
                ));
                assert(fields@.subrange(i as int, n as int)[0] == fields@[i as int]);
                if str_eq(fields[i].0.as_str(), key) {
                    return Some(&fields[i].1);
                }
                i += 1;
            }
            None
        },
        _ => None,
    }
}

/// The member `key` of `v`, when it is a string.
pub fn get_string<'a>(v: &'a JsonValue, key: &str) -> (r: Option<&'a String>)
    ensures
        match r {
            Some(s) => get_str(*v, key@) == Some(s@),
            None => get_str(*v, key@) is None,
        },
{
    match get_field(v, key) {
        Some(JsonValue::Str(s)) => Some(s),
        _ => None,
    }
}

/// True when the member `key` of `v` is the string `expected`.
pub fn field_is(v: &JsonValue, key: &str, expected: &str) -> (r: bool)
    ensures
        r == (get_str(*v, key@) == Some(expected@)),
{
    match get_string(v, key) {
        Some(s) => str_eq(s.as_str(), expected),
        None => false,
    }
}

} // verus!
