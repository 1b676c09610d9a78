//! The boundary to `serde_json`.
//!
//! JSON text is read and written by `serde_json`; this module states what the
//! library relies on. A `serde_json::Value` is opaque to the verifier, so each
//! contract below speaks of the mathematical document [`Json`] that a value
//! stands for. Nothing in this module is proved: every function here is a
//! single call into `serde_json`, and its contract restates that function's
//! documentation.
//!
//! The contracts hold of `serde_json` as this crate builds it, with its
//! default features: an object keeps one entry for each key, sorted by key
//! (no `preserve_order`), and a number is a `u64`, an `i64` or a finite
//! double (no `arbitrary_precision`).
use vstd::prelude::*;

verus! {

/// A JSON document as a mathematical value.
pub enum Json {
    Null,
    Bool(bool),
    /// A number that `serde_json` holds as an integer.
    Integer(int),
    /// A number that `serde_json` holds as a double, by its IEEE-754 bits.
    Double(u64),
    Text(Seq<char>),
    Array(Seq<Json>),
    /// An object; a key occurs at most once.
    Object(Map<Seq<char>, Json>),
}

/// `serde_json::Value`, a JSON document in memory.
#[verifier::external_type_specification]
#[verifier::external_body]
pub struct ExValue(serde_json::Value);

/// `serde_json::Error`, the reason why a text was not read or a document not
/// written. Nothing here looks into it.
#[verifier::external_type_specification]
#[verifier::external_body]
pub struct ExError(serde_json::Error);

/// `serde_json::Map`, the entries of a JSON object in memory.
#[verifier::external_type_specification]
#[verifier::external_body]
#[verifier::reject_recursive_types(K)]
#[verifier::reject_recursive_types(V)]
pub struct ExMap<K, V>(serde_json::Map<K, V>);

/// The document that a `serde_json::Value` stands for.
pub uninterp spec fn json_of(value: serde_json::Value) -> Json;

/// The entries that a `serde_json::Map` holds, each value as the document it
/// stands for.
pub uninterp spec fn entries_of(entries: serde_json::Map<String, serde_json::Value>) -> Map<Seq<char>, Json>;

/// What `serde_json::from_str` reads from a text: the document, or `None`
/// where it reports an error.
pub uninterp spec fn parsed_json(text: Seq<char>) -> Option<Json>;

/// What `serde_json::to_vec` writes for a document: its bytes, or `None` where
/// it reports an error.
pub uninterp spec fn encoded_json(document: Json) -> Option<Seq<u8>>;

/// The entries of an object without fields.
pub open spec fn no_entries() -> Map<Seq<char>, Json> {
    Map::empty()
}

/// The entry of a document under a key: the entry where the document is an
/// object that has one, and `None` otherwise.
pub open spec fn entry_of(document: Json, key: Seq<char>) -> Option<Json> {
    match document {
        Json::Object(entries) => if entries.contains_key(key) {
            Some(entries[key])
        } else {
            None
        },
        _ => None,
    }
}

/// The document that a value stands for, if there is a value.
pub open spec fn json_of_optional(value: Option<&serde_json::Value>) -> Option<Json> {
    match value {
        Some(value) => Some(json_of(*value)),
        None => None,
    }
}

/// The documents that a list of values stands for, in order.
pub open spec fn jsons_of(values: Seq<serde_json::Value>) -> Seq<Json> {
    values.map_values(|value: serde_json::Value| json_of(value))
}

/// `serde_json::from_str` at `serde_json::Value`. The outcome depends on the
/// text alone, and the empty text is refused, as it holds no value.
#[verifier::external_body]
pub(crate) fn parse_json(text: &str) -> (outcome: Result<serde_json::Value, serde_json::Error>)
    ensures
        match outcome {
            Ok(value) => parsed_json(text@) == Some(json_of(value)),
            Err(_) => parsed_json(text@) is None,
        },
        text@.len() == 0 ==> outcome is Err,
{
    serde_json::from_str::<serde_json::Value>(text)
}

/// `serde_json::to_vec` at `serde_json::Value`. The outcome depends on the
/// document alone.
#[verifier::external_body]
pub(crate) fn encode_json(value: &serde_json::Value) -> (outcome: Result<Vec<u8>, serde_json::Error>)
    ensures
        match outcome {
            Ok(bytes) => encoded_json(json_of(*value)) == Some(bytes@),
            Err(_) => encoded_json(json_of(*value)) is None,
        },
{
    serde_json::to_vec(value)
}

/// `Value::get` with a string index: the entry under `key` where the value is
/// an object that has one, and `None` otherwise.
#[verifier::external_body]
pub(crate) fn field_of<'a>(value: &'a serde_json::Value, key: &str) -> (field: Option<&'a serde_json::Value>)
    ensures
        json_of_optional(field) == entry_of(json_of(*value), key@),
{
    value.get(key)
}

/// `Value::is_null`.
#[verifier::external_body]
pub(crate) fn is_null(value: &serde_json::Value) -> (null: bool)
    ensures
        null == (json_of(*value) is Null),
{
    value.is_null()
}

/// `Value::as_u64`: the number where the value is an integer that a `u64`
/// can hold, and `None` otherwise.
#[verifier::external_body]
pub(crate) fn unsigned_of(value: &serde_json::Value) -> (number: Option<u64>)
    ensures
        match number {
            Some(n) => json_of(*value) == Json::Integer(n as int),
            None => !(json_of(*value) matches Json::Integer(n) && 0 <= n <= u64::MAX),
        },
{
    value.as_u64()
}

/// `Value::as_str`: the text where the value is a string, and `None`
/// otherwise.
#[verifier::external_body]
pub(crate) fn text_of<'a>(value: &'a serde_json::Value) -> (text: Option<&'a str>)
    ensures
        match text {
            Some(s) => json_of(*value) == Json::Text(s@),
            None => !(json_of(*value) is Text),
        },
{
    value.as_str()
}

/// `Value::as_array`: the elements where the value is an array, and `None`
/// otherwise.
#[verifier::external_body]
pub(crate) fn items_of<'a>(value: &'a serde_json::Value) -> (items: Option<&'a Vec<serde_json::Value>>)
    ensures
        match items {
            Some(list) => json_of(*value) == Json::Array(jsons_of(list@)),
            None => !(json_of(*value) is Array),
        },
{
    value.as_array()
}

/// `Value::String`: the value that holds a string.
#[verifier::external_body]
pub(crate) fn text_value(text: String) -> (value: serde_json::Value)
    ensures
        json_of(value) == Json::Text(text@),
{
    serde_json::Value::String(text)
}

/// `Value::Bool`: the value that holds a boolean.
#[verifier::external_body]
pub(crate) fn bool_value(flag: bool) -> (value: serde_json::Value)
    ensures
        json_of(value) == Json::Bool(flag),
{
    serde_json::Value::Bool(flag)
}

/// `Value::Object`: the value that holds the entries of a map.
#[verifier::external_body]
pub(crate) fn object_value(entries: serde_json::Map<String, serde_json::Value>) -> (value: serde_json::Value)
    ensures
        json_of(value) == Json::Object(entries_of(entries)),
{
    serde_json::Value::Object(entries)
}

/// `Map::new`: a map without entries.
#[verifier::external_body]
pub(crate) fn new_entries() -> (entries: serde_json::Map<String, serde_json::Value>)
    ensures
        entries_of(entries) == no_entries(),
{
    serde_json::Map::new()
}

/// `Map::insert`: the entry under `key` is set to `value`, replacing an
/// earlier one; the other entries stay.
#[verifier::external_body]
pub(crate) fn insert_entry(entries: &mut serde_json::Map<String, serde_json::Value>, key: String, value: serde_json::Value)
    ensures
        entries_of(*final(entries)) == entries_of(*old(entries)).insert(key@, json_of(value)),
{
    entries.insert(key, value);
}

} // verus!
