//! JSON values as serde_json holds them, and what they stand for.

use vstd::prelude::*;

verus! {

/// What a JSON value holds.
pub enum JsonDoc {
    Null,
    Bool(bool),
    Int(int),
    Text(Seq<char>),
    Array(Seq<JsonDoc>),
    Object(Map<Seq<char>, JsonDoc>),
}

/// `serde_json::Value`: a JSON value.
#[verifier::external_type_specification]
#[verifier::external_body]
pub struct ExValue(serde_json::Value);

/// `serde_json::Map`: the members of a JSON object.
#[verifier::external_type_specification]
#[verifier::external_body]
#[verifier::reject_recursive_types(K)]
#[verifier::reject_recursive_types(V)]
pub struct ExJsonMap<K, V>(serde_json::Map<K, V>);

/// A JSON object under construction.
pub type Members = serde_json::Map<String, serde_json::Value>;

/// The members of an object that has none.
pub open spec fn no_members() -> Map<Seq<char>, JsonDoc> {
    Map::empty()
}

/// The document that a `serde_json::Value` holds.
pub uninterp spec fn doc_of(v: serde_json::Value) -> JsonDoc;

/// The members that a `serde_json::Map` holds, by key.
pub uninterp spec fn members_of(m: Members) -> Map<Seq<char>, JsonDoc>;

/// The documents that a list of JSON values holds, in order.
pub open spec fn docs_of(vs: Seq<serde_json::Value>) -> Seq<JsonDoc> {
    vs.map_values(|v: serde_json::Value| doc_of(v))
}

/// `serde_json::Value::Null`: the JSON null.
#[verifier::external_body]
pub(crate) fn json_null() -> (v: serde_json::Value)
    ensures
        doc_of(v) == JsonDoc::Null,
{
    serde_json::Value::Null
}

/// `serde_json::Value::Bool`: a JSON truth value.
#[verifier::external_body]
pub(crate) fn json_bool(b: bool) -> (v: serde_json::Value)
    ensures
        doc_of(v) == JsonDoc::Bool(b),
{
    serde_json::Value::Bool(b)
}

/// `serde_json::Value::from` on an `i32`: the JSON number with that value.
#[verifier::external_body]
pub(crate) fn json_int(n: i32) -> (v: serde_json::Value)
    ensures
        doc_of(v) == JsonDoc::Int(n as int),
{
    serde_json::Value::from(n)
}

/// `serde_json::Value::from` on a `&str`: the JSON string with those
/// characters.
#[verifier::external_body]
pub(crate) fn json_text(s: &str) -> (v: serde_json::Value)
    ensures
        doc_of(v) == JsonDoc::Text(s@),
{
    serde_json::Value::from(s)
}

/// `serde_json::Value::Array`: the JSON array of the values, in order.
#[verifier::external_body]
pub(crate) fn json_array(items: Vec<serde_json::Value>) -> (v: serde_json::Value)
    ensures
        doc_of(v) == JsonDoc::Array(docs_of(items@)),
{
    serde_json::Value::Array(items)
}

/// `serde_json::Map::new`: no members.
#[verifier::external_body]
pub(crate) fn members_new() -> (m: Members)
    ensures
        members_of(m) == no_members(),
{
    serde_json::Map::new()
}

/// `serde_json::Map::insert`: the member under `key` is `value`
/// afterwards, whether or not there was one before; the other members
/// stay.
#[verifier::external_body]
pub(crate) fn members_insert(m: &mut Members, key: &str, value: serde_json::Value)
    ensures
        members_of(*final(m)) == members_of(*old(m)).insert(key@, doc_of(value)),
{
    m.insert(key.to_owned(), value);
}

/// `serde_json::Value::Object`: the JSON object with those members.
#[verifier::external_body]
pub(crate) fn json_object(m: Members) -> (v: serde_json::Value)
    ensures
        doc_of(v) == JsonDoc::Object(members_of(m)),
{
    serde_json::Value::Object(m)
}

} // verus!
