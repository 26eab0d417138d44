//! JSON documents, read through `serde_json`.
//!
//! `serde_json::Value` is opaque to the verifier; `json_of` names the JSON
//! value that one holds, as a `JsonValue`, and each wrapper below states what
//! the `serde_json` method does in terms of that name. What a text parses to
//! is named by `json_parse`: its definition is the JSON grammar as
//! `serde_json` implements it, which is not restated here.
use serde_json::Error as JsonError;
use vstd::prelude::*;

verus! {

/// `serde_json::Value`, held opaque.
#[verifier::external_type_specification]
#[verifier::external_body]
pub struct ExValue(serde_json::Value);

/// `serde_json::Map`, held opaque.
#[verifier::external_type_specification]
#[verifier::external_body]
#[verifier::reject_recursive_types(K)]
#[verifier::reject_recursive_types(V)]
pub struct ExMap<K, V>(serde_json::Map<K, V>);

/// `serde_json::Error`, held opaque.
#[verifier::external_type_specification]
#[verifier::external_body]
pub struct ExError(JsonError);

/// A JSON value. A number is `Number(Some(i))` when it is held as an integer
/// (`serde_json` keeps integers that fit in `u64` or `i64` exactly) and
/// `Number(None)` when it is held as a float.
pub enum JsonValue {
    Null,
    Bool(bool),
    Number(Option<int>),
    Str(Seq<char>),
    Array(Seq<JsonValue>),
    Object(Map<Seq<char>, JsonValue>),
}

/// The JSON value that a `serde_json::Value` holds.
pub uninterp spec fn json_of(value: serde_json::Value) -> JsonValue;

/// The members of a `serde_json::Map`, by key.
pub uninterp spec fn json_map_of(map: serde_json::Map<String, serde_json::Value>) -> Map<
    Seq<char>,
    JsonValue,
>;

/// The JSON value that a whole text denotes, or `None` where `serde_json`
/// rejects the text.
pub uninterp spec fn json_parse(text: Seq<char>) -> Option<JsonValue>;

/// The JSON value that a whole byte text denotes, or `None` where
/// `serde_json` rejects the bytes.
pub uninterp spec fn json_parse_bytes(bytes: Seq<u8>) -> Option<JsonValue>;

/// The JSON values of a list of `serde_json` values.
pub open spec fn jsons_of(items: Seq<serde_json::Value>) -> Seq<JsonValue> {
    items.map_values(|v: serde_json::Value| json_of(v))
}

/// The member `key` of an object; `None` for a missing key or a non-object.
pub open spec fn member(value: JsonValue, key: Seq<char>) -> Option<JsonValue> {
    match value {
        JsonValue::Object(members) => if members.dom().contains(key) {
            Some(members[key])
        } else {
            None
        },
        _ => None,
    }
}

/// `Value::as_i64`: an integer number that fits in `i64`.
pub open spec fn as_i64(value: JsonValue) -> Option<i64> {
    match value {
        JsonValue::Number(Some(i)) => if i64::MIN <= i <= i64::MAX {
            Some(i as i64)
        } else {
            None
        },
        _ => None,
    }
}

/// `Value::as_str`: the text of a string.
pub open spec fn as_text(value: JsonValue) -> Option<Seq<char>> {
    match value {
        JsonValue::Str(s) => Some(s),
        _ => None,
    }
}

/// `serde_json::from_str::<Value>`: parses the whole text as one JSON value;
/// the claim is that the result is what `json_parse` names for the text, and
/// `None` exactly where it names none.
#[verifier::external_body]
pub(crate) fn parse_value(text: &str) -> (r: Option<serde_json::Value>)
    ensures
        match r {
            Some(v) => json_parse(text@) == Some(json_of(v)),
            None => json_parse(text@) is None,
        },
{
    serde_json::from_str(text).ok()
}

/// `Value::get` with a string key: the member of an object, `None` for a
/// missing key or a value that is not an object.
#[verifier::external_body]
pub(crate) fn value_get<'a>(value: &'a serde_json::Value, key: &str) -> (r: Option<&'a serde_json::Value>)
    ensures
        match r {
            Some(m) => member(json_of(*value), key@) == Some(json_of(*m)),
            None => member(json_of(*value), key@) is None,
        },
{
    value.get(key)
}

/// `Value::as_i64`: the number, where it is an integer that fits in `i64`.
#[verifier::external_body]
pub(crate) fn value_as_i64(value: &serde_json::Value) -> (r: Option<i64>)
    ensures
        r == as_i64(json_of(*value)),
{
    value.as_i64()
}

/// `Value::as_str`: the text of a string value.
#[verifier::external_body]
pub(crate) fn value_as_str(value: &serde_json::Value) -> (r: Option<&str>)
    ensures
        match r {
            Some(s) => as_text(json_of(*value)) == Some(s@),
            None => as_text(json_of(*value)) is None,
        },
{
    value.as_str()
}

/// `Value::as_object`: the members of an object value.
#[verifier::external_body]
pub(crate) fn value_as_object(value: &serde_json::Value) -> (r: Option<
    &serde_json::Map<String, serde_json::Value>,
>)
    ensures
        match r {
            Some(m) => json_of(*value) == JsonValue::Object(json_map_of(*m)),
            None => !(json_of(*value) is Object),
        },
{
    value.as_object()
}

/// `Map::len`: the number of members.
#[verifier::external_body]
pub(crate) fn map_len(map: &serde_json::Map<String, serde_json::Value>) -> (r: usize)
    ensures
        r == json_map_of(*map).dom().len(),
{
    map.len()
}

/// `Map::get`: the member stored under `key`.
#[verifier::external_body]
pub(crate) fn map_get<'a>(map: &'a serde_json::Map<String, serde_json::Value>, key: &str) -> (r: Option<
    &'a serde_json::Value,
>)
    ensures
        match r {
            Some(m) => json_map_of(*map).dom().contains(key@) && json_map_of(*map)[key@] == json_of(
                *m,
            ),
            None => !json_map_of(*map).dom().contains(key@),
        },
{
    map.get(key)
}

/// `serde_json::from_slice::<Value>`: parses the whole byte text as one
/// JSON value; the claim is that the result is what `json_parse_bytes`
/// names for the bytes, and an error exactly where it names none.
#[verifier::external_body]
pub(crate) fn parse_bytes(bytes: &[u8]) -> (r: Result<serde_json::Value, JsonError>)
    ensures
        match r {
            Ok(v) => json_parse_bytes(bytes@) == Some(json_of(v)),
            Err(_) => json_parse_bytes(bytes@) is None,
        },
{
    serde_json::from_slice(bytes)
}

/// The message of a `serde_json::Error`, as its `Display` writes it. Nothing
/// is claimed of the text.
#[verifier::external_body]
pub(crate) fn error_message(error: &JsonError) -> (r: String) {
    error.to_string()
}

/// The members of an empty object.
pub open spec fn no_members() -> Map<Seq<char>, JsonValue> {
    Map::empty()
}

/// `Map::new`: a map without members.
#[verifier::external_body]
pub(crate) fn new_map() -> (r: serde_json::Map<String, serde_json::Value>)
    ensures
        json_map_of(r) == no_members(),
{
    serde_json::Map::new()
}

/// `Value::Null`.
#[verifier::external_body]
pub(crate) fn null_value() -> (r: serde_json::Value)
    ensures
        json_of(r) == JsonValue::Null,
{
    serde_json::Value::Null
}

/// `Value::String`: a string value with the text.
#[verifier::external_body]
pub(crate) fn text_value(text: String) -> (r: serde_json::Value)
    ensures
        json_of(r) == JsonValue::Str(text@),
{
    serde_json::Value::String(text)
}

/// The members of an object value; a value of another kind is handed back.
#[verifier::external_body]
pub(crate) fn into_object(value: serde_json::Value) -> (r: Result<
    serde_json::Map<String, serde_json::Value>,
    serde_json::Value,
>)
    ensures
        match r {
            Ok(m) => json_of(value) == JsonValue::Object(json_map_of(m)),
            Err(v) => !(json_of(value) is Object) && v == value,
        },
{
    match value {
        serde_json::Value::Object(members) => Ok(members),
        other => Err(other),
    }
}

/// `Value::Object`: the object value with the members.
#[verifier::external_body]
pub(crate) fn from_object(members: serde_json::Map<String, serde_json::Value>) -> (r: serde_json::Value)
    ensures
        json_of(r) == JsonValue::Object(json_map_of(members)),
{
    serde_json::Value::Object(members)
}

/// The items of an array value; a value of another kind is handed back.
#[verifier::external_body]
pub(crate) fn into_array(value: serde_json::Value) -> (r: Result<Vec<serde_json::Value>, serde_json::Value>)
    ensures
        match r {
            Ok(items) => json_of(value) == JsonValue::Array(jsons_of(items@)),
            Err(v) => !(json_of(value) is Array) && v == value,
        },
{
    match value {
        serde_json::Value::Array(items) => Ok(items),
        other => Err(other),
    }
}

/// `Value::Array`: the array value with the items.
#[verifier::external_body]
pub(crate) fn from_array(items: Vec<serde_json::Value>) -> (r: serde_json::Value)
    ensures
        json_of(r) == JsonValue::Array(jsons_of(items@)),
{
    serde_json::Value::Array(items)
}

/// `Map::remove`: takes out the member stored under `key`.
#[verifier::external_body]
pub(crate) fn map_remove(map: &mut serde_json::Map<String, serde_json::Value>, key: &str) -> (r: Option<
    serde_json::Value,
>)
    ensures
        json_map_of(*final(map)) == json_map_of(*old(map)).remove(key@),
        match r {
            Some(v) => json_map_of(*old(map)).dom().contains(key@) && json_map_of(*old(map))[key@]
                == json_of(v),
            None => !json_map_of(*old(map)).dom().contains(key@),
        },
{
    map.remove(key)
}

/// `Map::insert`: stores `value` under `key`, in place of any member there.
#[verifier::external_body]
pub(crate) fn map_insert(
    map: &mut serde_json::Map<String, serde_json::Value>,
    key: String,
    value: serde_json::Value,
) -> (r: Option<serde_json::Value>)
    ensures
        json_map_of(*final(map)) == json_map_of(*old(map)).insert(key@, json_of(value)),
        match r {
            Some(v) => json_map_of(*old(map)).dom().contains(key@) && json_map_of(*old(map))[key@]
                == json_of(v),
            None => !json_map_of(*old(map)).dom().contains(key@),
        },
{
    map.insert(key, value)
}

/// The lowercase hexadecimal digit of `d`.
pub open spec fn hex_digit(d: int) -> char {
    if d < 10 {
        (('0' as int) + d) as char
    } else {
        (('a' as int) + d - 10) as char
    }
}

/// How `serde_json` writes one character inside a string: `"` and `\` and
/// the control characters below U+0020 are escaped (the usual short forms,
/// else `\u00XX` in lowercase hex); every other character is written as is.
pub open spec fn escape_char(c: char) -> Seq<char> {
    if c == '"' {
        seq!['\\', '"']
    } else if c == '\\' {
        seq!['\\', '\\']
    } else if c == '\u{8}' {
        seq!['\\', 'b']
    } else if c == '\t' {
        seq!['\\', 't']
    } else if c == '\n' {
        seq!['\\', 'n']
    } else if c == '\u{c}' {
        seq!['\\', 'f']
    } else if c == '\r' {
        seq!['\\', 'r']
    } else if (c as u32) < 32 {
        seq!['\\', 'u', '0', '0', hex_digit((c as int) / 16), hex_digit((c as int) % 16)]
    } else {
        seq![c]
    }
}

/// The escaped characters of a text.
pub open spec fn escape_text(s: Seq<char>) -> Seq<char>
    decreases s.len(),
{
    if s.len() == 0 {
        Seq::empty()
    } else {
        escape_text(s.drop_last()) + escape_char(s.last())
    }
}

/// A text as a JSON string literal.
pub open spec fn json_quote(s: Seq<char>) -> Seq<char> {
    seq!['"'] + escape_text(s) + seq!['"']
}

/// `serde_json::to_string` of a `str`: the text as a JSON string literal.
/// Writing a string into memory does not fail.
#[verifier::external_body]
pub(crate) fn quote(text: &str) -> (r: String)
    ensures
        r@ == json_quote(text@),
{
    match serde_json::to_string(text) {
        Ok(quoted) => quoted,
        Err(_) => String::new(),
    }
}

} // verus!
