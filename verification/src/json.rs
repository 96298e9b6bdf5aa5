//! JSON documents, read through `serde_json`.
//!
//! Documents are `serde_json::Value`s. Verified code sees them through the
//! mathematical model `Json`: `json_of` names what a value holds, and the
//! accessors below say, in terms of that model, what `serde_json` hands back.

use serde_json::Value;
use vstd::prelude::*;

verus! {

/// `serde_json::Value`, a parsed JSON value. Its content is read through `json_of`.
#[verifier::external_type_specification]
#[verifier::external_body]
pub struct ExValue(serde_json::Value);

/// `serde_json::Map`, the mapping inside a JSON object.
#[verifier::external_type_specification]
#[verifier::external_body]
#[verifier::reject_recursive_types(K)]
#[verifier::reject_recursive_types(V)]
pub struct ExMap<K, V>(serde_json::Map<K, V>);

/// `serde_json::Error`, what parsing reports about text that is not JSON.
#[verifier::external_type_specification]
#[verifier::external_body]
pub struct ExError(serde_json::Error);

/// What a JSON value holds.
pub enum Json {
    Null,
    Bool(bool),
    /// A number, held as the text that stands for it.
    Number(Seq<char>),
    Text(Seq<char>),
    List(Seq<Json>),
    /// The entries of an object, in the order in which the object is walked.
    Table(Seq<(Seq<char>, Json)>),
}

/// What `v` holds.
pub uninterp spec fn json_of(v: Value) -> Json;

/// The entries of `m`, in the order in which `serde_json::Map::iter` walks them.
pub uninterp spec fn table_of(m: serde_json::Map<String, Value>) -> Seq<(Seq<char>, Json)>;

/// The compact JSON text that `serde_json` writes for a value holding `j`.
pub uninterp spec fn json_text(j: Json) -> Seq<char>;

/// What `serde_json::from_str` reads from `text`: the value's content, or
/// `None` where `text` is not one JSON value.
pub uninterp spec fn parsed(text: Seq<char>) -> Option<Json>;

/// The value of the first entry of `entries` filed under `key`.
pub open spec fn lookup(entries: Seq<(Seq<char>, Json)>, key: Seq<char>) -> Option<Json>
    decreases entries.len(),
{
    if entries.len() == 0 {
        None
    } else if entries[0].0 == key {
        Some(entries[0].1)
    } else {
        lookup(entries.drop_first(), key)
    }
}

/// What each of `values` holds.
pub open spec fn jsons_of(values: Seq<Value>) -> Seq<Json> {
    values.map_values(|v: Value| json_of(v))
}

/// `Value::as_str`: the text of a JSON string, `None` for every other kind of value.
#[verifier::external_body]
pub(crate) fn as_text<'a>(v: &'a Value) -> (r: Option<&'a str>)
    ensures
        match json_of(*v) {
            Json::Text(s) => r is Some && r->0@ == s,
            _ => r is None,
        },
{
    v.as_str()
}

/// `Value::as_array`: the elements of a JSON array, `None` for every other kind of value.
#[verifier::external_body]
pub(crate) fn as_list<'a>(v: &'a Value) -> (r: Option<&'a Vec<Value>>)
    ensures
        match json_of(*v) {
            Json::List(items) => r is Some && jsons_of(r->0@) == items,
            _ => r is None,
        },
{
    v.as_array()
}

/// `Value::as_object`: the mapping of a JSON object, `None` for every other kind of value.
#[verifier::external_body]
pub(crate) fn as_table<'a>(v: &'a Value) -> (r: Option<&'a serde_json::Map<String, Value>>)
    ensures
        match json_of(*v) {
            Json::Table(entries) => r is Some && table_of(*r->0) == entries,
            _ => r is None,
        },
{
    v.as_object()
}

/// `serde_json::Map::get`: the value filed under `key`, `None` where the
/// mapping has no such key. A mapping holds each key once.
#[verifier::external_body]
pub(crate) fn table_get<'a>(
    m: &'a serde_json::Map<String, Value>,
    key: &str,
) -> (r: Option<&'a Value>)
    ensures
        match lookup(table_of(*m), key@) {
            Some(j) => r is Some && json_of(*r->0) == j,
            None => r is None,
        },
{
    m.get(key)
}

/// `serde_json::Map::iter`, collected: every entry of the mapping, in the
/// order in which the mapping is walked.
#[verifier::external_body]
pub(crate) fn table_entries<'a>(
    m: &'a serde_json::Map<String, Value>,
) -> (r: Vec<(&'a String, &'a Value)>)
    ensures
        r@.len() == table_of(*m).len(),
        forall|i: int|
            0 <= i < r@.len() ==> (#[trigger] r@[i]).0@ == table_of(*m)[i].0 && json_of(*r@[i].1)
                == table_of(*m)[i].1,
{
    m.iter().collect()
}

/// `Value`'s `Display`: the compact JSON text of the value. Only named here.
#[verifier::external_body]
pub(crate) fn compact_text(v: &Value) -> (r: String)
    ensures
        r@ == json_text(json_of(*v)),
{
    v.to_string()
}

/// `serde_json::from_str`: the value that `text` spells, or the reason why it
/// spells none. What is read depends on `text` alone, and is only named here.
#[verifier::external_body]
fn parse_value(text: &str) -> (r: Result<Value, serde_json::Error>)
    ensures
        match r {
            Ok(v) => parsed(text@) == Some(json_of(v)),
            Err(_) => parsed(text@) is None,
        },
{
    serde_json::from_str(text)
}

/// Reads `text` as one JSON document; `None` where it is malformed.
pub fn parse_document(text: &str) -> (r: Option<Value>)
    ensures
        match r {
            Some(v) => parsed(text@) == Some(json_of(v)),
            None => parsed(text@) is None,
        },
{
    match parse_value(text) {
        Ok(v) => Some(v),
        Err(_) => None,
    }
}

/// The entries of a JSON object; anything else counts as an empty mapping.
pub open spec fn table(j: Json) -> Seq<(Seq<char>, Json)> {
    match j {
        Json::Table(entries) => entries,
        _ => Seq::empty(),
    }
}

/// The elements of a JSON array; anything else counts as an empty sequence.
pub open spec fn list(j: Json) -> Seq<Json> {
    match j {
        Json::List(items) => items,
        _ => Seq::empty(),
    }
}

/// The value filed under `key` in `entries`, `Null` where there is none.
pub open spec fn field(entries: Seq<(Seq<char>, Json)>, key: Seq<char>) -> Json {
    match lookup(entries, key) {
        Some(v) => v,
        None => Json::Null,
    }
}

/// The value filed under `key` in the object `j`, `Null` where `j` is no
/// object or has no such key.
pub open spec fn member(j: Json, key: Seq<char>) -> Json {
    field(table(j), key)
}

/// The element of `items` at `i`, `Null` beyond the end.
pub open spec fn element(items: Seq<Json>, i: int) -> Json {
    if 0 <= i < items.len() {
        items[i]
    } else {
        Json::Null
    }
}

/// What an optional value holds: `Null` where there is none.
pub open spec fn opt_json(v: Option<&Value>) -> Json {
    match v {
        Some(v) => json_of(*v),
        None => Json::Null,
    }
}

/// The entries of an optional mapping: none where there is no mapping.
pub open spec fn opt_table(m: Option<&serde_json::Map<String, Value>>) -> Seq<(Seq<char>, Json)> {
    match m {
        Some(m) => table_of(*m),
        None => Seq::empty(),
    }
}

/// The elements of an optional array: none where there is no array.
pub open spec fn opt_list(items: Option<&Vec<Value>>) -> Seq<Json> {
    match items {
        Some(items) => jsons_of(items@),
        None => Seq::empty(),
    }
}

/// What an optional value holds, where there is one.
pub open spec fn held(v: Option<&Value>) -> Option<Json> {
    match v {
        Some(v) => Some(json_of(*v)),
        None => None,
    }
}

/// The mapping of an optional value: `Some` exactly where there is a value
/// and it is an object.
pub fn table_in<'a>(v: Option<&'a Value>) -> (r: Option<&'a serde_json::Map<String, Value>>)
    ensures
        r is Some <==> opt_json(v) is Table,
        opt_table(r) == table(opt_json(v)),
{
    match v {
        Some(v) => as_table(v),
        None => None,
    }
}

/// The elements of an optional value: `Some` exactly where there is a value
/// and it is an array.
pub fn list_in<'a>(v: Option<&'a Value>) -> (r: Option<&'a Vec<Value>>)
    ensures
        r is Some <==> opt_json(v) is List,
        opt_list(r) == list(opt_json(v)),
{
    match v {
        Some(v) => as_list(v),
        None => None,
    }
}

/// The value filed under `key` in an optional mapping: `Some` exactly where
/// there is a mapping and it has the key.
pub fn value_in<'a>(
    m: Option<&'a serde_json::Map<String, Value>>,
    key: &str,
) -> (r: Option<&'a Value>)
    ensures
        held(r) == lookup(opt_table(m), key@),
        opt_json(r) == field(opt_table(m), key@),
{
    match m {
        Some(m) => table_get(m, key),
        None => None,
    }
}

/// The mapping at index `i` of an optional array: `Some` exactly where there
/// is an array, `i` lies within it, and the element there is an object.
pub fn table_at<'a>(
    items: Option<&'a Vec<Value>>,
    i: usize,
) -> (r: Option<&'a serde_json::Map<String, Value>>)
    ensures
        r is Some <==> element(opt_list(items), i as int) is Table,
        opt_table(r) == table(element(opt_list(items), i as int)),
{
    match items {
        Some(items) => if i < items.len() {
            as_table(&items[i])
        } else {
            None
        },
        None => None,
    }
}

} // verus!
