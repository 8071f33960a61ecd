//! JSON values of namespace properties, held in serde_json's types.
use vstd::prelude::*;

verus! {

#[verifier::external_type_specification]
#[verifier::external_body]
pub struct ExValue(serde_json::Value);

#[verifier::external_type_specification]
#[verifier::external_body]
#[verifier::reject_recursive_types(K)]
#[verifier::reject_recursive_types(V)]
pub struct ExJsonMap<K, V>(serde_json::Map<K, V>);

/// A JSON object: string keys, each with a JSON value.
pub type Properties = serde_json::Map<String, serde_json::Value>;

/// What a JSON object holds: each key with its value.
pub uninterp spec fn entries_of(m: serde_json::Map<String, serde_json::Value>) -> Map<Seq<char>, serde_json::Value>;

/// The JSON string value that holds the given characters.
pub uninterp spec fn json_string(s: Seq<char>) -> serde_json::Value;

/// Relies on `serde_json::Map::new`: a new map is empty.
#[verifier::external_body]
pub(crate) fn empty_properties() -> (r: Properties)
    ensures
        entries_of(r).dom() == Set::<Seq<char>>::empty(),
{
    serde_json::Map::new()
}

/// Relies on `serde_json::Map::insert`: the key is then mapped to the value.
#[verifier::external_body]
pub(crate) fn insert_property(m: &mut Properties, k: String, v: serde_json::Value)
    ensures
        entries_of(*final(m)) == entries_of(*old(m)).insert(k@, v),
{
    m.insert(k, v);
}

/// Relies on `serde_json::Map::remove`: the key leaves the map, and its value
/// (if it was there) is handed back.
#[verifier::external_body]
pub(crate) fn remove_property(m: &mut Properties, k: &String) -> (r: Option<serde_json::Value>)
    ensures
        entries_of(*final(m)) == entries_of(*old(m)).remove(k@),
        r == (if entries_of(*old(m)).contains_key(k@) {
            Some(entries_of(*old(m))[k@])
        } else {
            None
        }),
{
    m.remove(k.as_str())
}

/// Relies on `serde_json::Map::contains_key`: whether the key is present.
#[verifier::external_body]
pub(crate) fn has_property(m: &Properties, k: &String) -> (r: bool)
    ensures
        r == entries_of(*m).contains_key(k@),
{
    m.contains_key(k.as_str())
}

/// Relies on `Clone` for `serde_json::Map`: the copy holds the same entries.
pub assume_specification[ <serde_json::Map<String, serde_json::Value> as Clone>::clone ](
    m: &serde_json::Map<String, serde_json::Value>,
) -> (r: serde_json::Map<String, serde_json::Value>)
    ensures
        entries_of(r) == entries_of(*m),
;

/// Relies on `IntoIterator` for `serde_json::Map`: each entry comes out once.
#[verifier::external_body]
pub(crate) fn into_entries(m: Properties) -> (r: Vec<(String, serde_json::Value)>)
    ensures
        forall|i: int|
            0 <= i < r@.len() ==> entries_of(m).contains_key(#[trigger] r@[i].0@)
                && entries_of(m)[r@[i].0@] == r@[i].1,
        forall|i: int, j: int|
            0 <= i < j < r@.len() ==> #[trigger] r@[i].0@ != #[trigger] r@[j].0@,
        forall|k: Seq<char>|
            #[trigger] entries_of(m).contains_key(k) ==> exists|i: int|
                0 <= i < r@.len() && #[trigger] r@[i].0@ == k,
{
    m.into_iter().collect()
}

/// Relies on `From<String>` for `serde_json::Value`: it makes the JSON
/// string that holds those characters.
#[verifier::external_body]
pub(crate) fn string_value(s: String) -> (r: serde_json::Value)
    ensures
        r == json_string(s@),
{
    serde_json::Value::from(s)
}

} // verus!
