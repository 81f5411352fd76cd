//! A mathematical model of JSON documents, and the trusted boundary to
//! `serde_json`: the opaque value and map types, names for what they
//! hold and for the pretty printer's output, and one wrapper for each
//! `serde_json` operation the builders use.

use vstd::prelude::*;

verus! {

/// Mathematical image of a JSON document. Object entries carry their
/// iteration order; a number is carried as the decimal text it prints
/// as. The builders create only strings, arrays and objects; the other
/// variants keep `value_rep` total over every `serde_json::Value`.
#[verifier::ext_equal]
pub ghost enum JsonData {
    Null,
    Bool(bool),
    Number(Seq<char>),
    Str(Seq<char>),
    Arr(Seq<JsonData>),
    Obj(Seq<(Seq<char>, JsonData)>),
}

/// Does the entry list hold the key `k`?
pub open spec fn has_key(entries: Seq<(Seq<char>, JsonData)>, k: Seq<char>) -> bool {
    exists|i: int| 0 <= i < entries.len() && entries[i].0 == k
}

/// The index of key `k` in the entry list (unique when the keys are
/// distinct).
pub open spec fn key_index(entries: Seq<(Seq<char>, JsonData)>, k: Seq<char>) -> int {
    choose|i: int| 0 <= i < entries.len() && entries[i].0 == k
}

/// The value stored under key `k` (meaningful when the key is there
/// and the keys are distinct).
pub open spec fn entry_of(entries: Seq<(Seq<char>, JsonData)>, k: Seq<char>) -> JsonData {
    entries[key_index(entries, k)].1
}

/// Insertion as an insertion-ordered JSON object performs it: an
/// existing key keeps its place and its value is replaced; a new key
/// goes last.
pub open spec fn upsert(
    entries: Seq<(Seq<char>, JsonData)>,
    k: Seq<char>,
    v: JsonData,
) -> Seq<(Seq<char>, JsonData)> {
    if has_key(entries, k) {
        entries.update(key_index(entries, k), (k, v))
    } else {
        entries.push((k, v))
    }
}

/// No two entries share a key.
pub open spec fn distinct_keys(entries: Seq<(Seq<char>, JsonData)>) -> bool {
    forall|i: int, j: int|
        0 <= i < j < entries.len() ==> entries[i].0 != entries[j].0
}

/// `serde_json::Value`, opaque to the verifier.
#[verifier::external_type_specification]
#[verifier::external_body]
pub struct ExValue(serde_json::Value);

/// `serde_json::Map`, opaque to the verifier.
#[verifier::external_type_specification]
#[verifier::external_body]
#[verifier::reject_recursive_types(K)]
#[verifier::reject_recursive_types(V)]
pub struct ExMap<K, V>(serde_json::Map<K, V>);

/// `serde_json::Error`, opaque to the verifier.
#[verifier::external_type_specification]
#[verifier::external_body]
pub struct ExError(serde_json::Error);

/// What a `serde_json::Value` holds.
pub uninterp spec fn value_rep(v: serde_json::Value) -> JsonData;

/// What a `serde_json::Map` holds, in iteration order.
pub uninterp spec fn obj_rep(
    m: serde_json::Map<String, serde_json::Value>,
) -> Seq<(Seq<char>, JsonData)>;

/// What `serde_json::to_string_pretty` prints for a document.
pub uninterp spec fn pretty_of(d: JsonData) -> Seq<char>;

/// What a list of `serde_json::Value` holds, element by element.
pub open spec fn seq_rep(items: Seq<serde_json::Value>) -> Seq<JsonData> {
    items.map_values(|x: serde_json::Value| value_rep(x))
}

/// Appending a value appends what it holds.
pub proof fn lemma_seq_rep_push(items: Seq<serde_json::Value>, v: serde_json::Value)
    ensures
        seq_rep(items.push(v)) == seq_rep(items).push(value_rep(v)),
{
    assert(seq_rep(items.push(v)) =~= seq_rep(items).push(value_rep(v)));
}

/// Relies on `serde_json::Map::new`: a fresh map holds no entries.
#[verifier::external_body]
pub(crate) fn map_new() -> (r: serde_json::Map<String, serde_json::Value>)
    ensures
        obj_rep(r) == Seq::<(Seq<char>, JsonData)>::empty(),
{
    serde_json::Map::new()
}

/// Relies on `serde_json::Map::insert` with the `preserve_order`
/// feature, under which the map is an `indexmap::IndexMap`: an existing
/// key keeps its place in the order and its value is replaced; a new
/// key goes last.
#[verifier::external_body]
pub(crate) fn map_insert(
    m: &mut serde_json::Map<String, serde_json::Value>,
    k: String,
    v: serde_json::Value,
)
    ensures
        obj_rep(*final(m)) == upsert(obj_rep(*old(m)), k@, value_rep(v)),
{
    m.insert(k, v);
}

/// Relies on the constructor `serde_json::Value::String`.
#[verifier::external_body]
pub(crate) fn value_string(s: String) -> (r: serde_json::Value)
    ensures
        value_rep(r) == JsonData::Str(s@),
{
    serde_json::Value::String(s)
}

/// Relies on the constructor `serde_json::Value::Array`.
#[verifier::external_body]
pub(crate) fn value_array(items: Vec<serde_json::Value>) -> (r: serde_json::Value)
    ensures
        value_rep(r) == JsonData::Arr(seq_rep(items@)),
{
    serde_json::Value::Array(items)
}

/// Relies on the constructor `serde_json::Value::Object`.
#[verifier::external_body]
pub(crate) fn value_object(m: serde_json::Map<String, serde_json::Value>) -> (r: serde_json::Value)
    ensures
        value_rep(r) == JsonData::Obj(obj_rep(m)),
{
    serde_json::Value::Object(m)
}

/// Relies on `serde_json::to_string_pretty`. On a `Value` it cannot
/// fail: per its documentation it errors only when a `Serialize`
/// implementation decides to fail or a map has non-string keys, and
/// `Value` has neither.
#[verifier::external_body]
pub(crate) fn to_pretty_string(v: &serde_json::Value) -> (r: Result<String, serde_json::Error>)
    ensures
        r is Ok,
        r matches Ok(s) ==> s@ == pretty_of(value_rep(*v)),
{
    serde_json::to_string_pretty(v)
}

} // verus!
