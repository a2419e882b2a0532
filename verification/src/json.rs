//! JSON documents as `serde_json` reads and writes them, and what this
//! library takes on trust about that crate.
//!
//! A [`serde_json::Value`] is opaque to the verifier. What it holds has a
//! name, [`json_of`], and every contract below says in terms of that name
//! what one function of the crate returns. None of them is proved: each
//! restates what the crate's source shows.

use vstd::prelude::*;

verus! {

/// A parsed JSON value of `serde_json`, opaque to the verifier.
#[verifier::external_type_specification]
#[verifier::external_body]
pub struct ExValue(serde_json::Value);

/// The error of `serde_json`, opaque to the verifier.
#[verifier::external_type_specification]
#[verifier::external_body]
pub struct ExError(serde_json::Error);

/// A JSON number of `serde_json`, opaque to the verifier.
#[verifier::external_type_specification]
#[verifier::external_body]
pub struct ExNumber(serde_json::Number);

/// What a JSON value holds. A number is held as `serde_json` holds it:
/// nothing here reads one.
pub enum Json {
    Null,
    Bool(bool),
    Number(serde_json::Number),
    Text(Seq<char>),
    Array(Seq<Json>),
    Object(Map<Seq<char>, Json>),
}

/// What the value `value` holds.
pub uninterp spec fn json_of(value: serde_json::Value) -> Json;

/// What the JSON text `text` holds once parsed, or `None` where `text` is
/// not one JSON value.
pub uninterp spec fn json_in(text: Seq<char>) -> Option<Json>;

/// What each of `values` holds.
pub open spec fn jsons_of(values: Seq<serde_json::Value>) -> Seq<Json> {
    values.map_values(|value: serde_json::Value| json_of(value))
}

/// The member of the object `json` under `key`; `None` where `json` is no
/// object or has no such member.
pub open spec fn member_of(json: Json, key: Seq<char>) -> Option<Json> {
    match json {
        Json::Object(members) => if members.contains_key(key) {
            Some(members[key])
        } else {
            None
        },
        _ => None,
    }
}

/// The JSON text that `serde_json` writes for `json`, indented for reading,
/// or `None` where it fails to write one.
pub uninterp spec fn pretty_text(json: Json) -> Option<Seq<char>>;

/// The members that the pairs of `pairs` give an object: each key with the
/// value beside it, a later pair taking the place of an earlier one with the
/// same key.
pub open spec fn members_from(pairs: Seq<(String, serde_json::Value)>) -> Map<Seq<char>, Json>
    decreases pairs.len(),
{
    if pairs.len() == 0 {
        Map::empty()
    } else {
        members_from(pairs.drop_last()).insert(pairs.last().0@, json_of(pairs.last().1))
    }
}

/// Whether no two pairs of `pairs` have the same key.
pub open spec fn distinct_keys(pairs: Seq<(String, serde_json::Value)>) -> bool {
    forall|i: int, j: int|
        0 <= i < j < pairs.len() ==> (#[trigger] pairs[i]).0@ != (#[trigger] pairs[j]).0@
}

/// Parses `text` as one JSON value.
///
/// Trusted: the body calls `serde_json::from_str` for `serde_json::Value`.
/// The contract names what the text holds, [`json_in`], and says nothing of
/// which texts are JSON: only that the call succeeds exactly where the text
/// holds a value, and that the value handed back holds it.
#[verifier::external_body]
pub(crate) fn read_json(text: &str) -> (r: Result<serde_json::Value, serde_json::Error>)
    ensures
        match r {
            Ok(value) => json_in(text@) == Some(json_of(value)),
            Err(_) => json_in(text@) is None,
        },
{
    serde_json::from_str::<serde_json::Value>(text)
}

/// Looks up the member of `value` under `key`.
///
/// Trusted: the body calls `serde_json::Value::get` with a string index,
/// which gives the member of an object under that key and `None` for a value
/// that is no object or an object without the key.
#[verifier::external_body]
pub(crate) fn member<'a>(value: &'a serde_json::Value, key: &str) -> (r: Option<
    &'a serde_json::Value,
>)
    ensures
        match r {
            Some(found) => member_of(json_of(*value), key@) == Some(json_of(*found)),
            None => member_of(json_of(*value), key@) is None,
        },
{
    value.get(key)
}

/// `serde_json::Value::as_array` gives the elements of an array, and `None`
/// for any other value.
pub assume_specification[ serde_json::Value::as_array ](value: &serde_json::Value) -> (r: Option<
    &Vec<serde_json::Value>,
>)
    ensures
        match r {
            Some(elements) => json_of(*value) == Json::Array(jsons_of(elements@)),
            None => !(json_of(*value) is Array),
        },
;

/// `serde_json::Value::as_str` gives the text of a string, and `None` for
/// any other value.
pub assume_specification[ serde_json::Value::as_str ](value: &serde_json::Value) -> (r: Option<
    &str,
>)
    ensures
        match r {
            Some(text) => json_of(*value) == Json::Text(text@),
            None => !(json_of(*value) is Text),
        },
;

/// The JSON string that holds `text`.
///
/// Trusted: the body builds `serde_json::Value::String` from a copy of
/// `text`.
#[verifier::external_body]
pub(crate) fn text_value(text: &str) -> (value: serde_json::Value)
    ensures
        json_of(value) == Json::Text(text@),
{
    serde_json::Value::String(text.to_owned())
}

/// The JSON boolean `flag`.
///
/// Trusted: the body builds `serde_json::Value::Bool`.
#[verifier::external_body]
pub(crate) fn flag_value(flag: bool) -> (value: serde_json::Value)
    ensures
        json_of(value) == Json::Bool(flag),
{
    serde_json::Value::Bool(flag)
}

/// The JSON array of `elements`, in their order.
///
/// Trusted: the body builds `serde_json::Value::Array` from the vector.
#[verifier::external_body]
pub(crate) fn array_value(elements: Vec<serde_json::Value>) -> (value: serde_json::Value)
    ensures
        json_of(value) == Json::Array(jsons_of(elements@)),
{
    serde_json::Value::Array(elements)
}

/// The JSON object with one member for each pair of `pairs`.
///
/// Trusted: the body collects the pairs into a `serde_json::Map`, which
/// hands them to the ordered map of the standard library, and builds
/// `serde_json::Value::Object` from it. Of two pairs with one key the
/// standard library keeps one and does not say which, so `requires` leaves
/// such input out.
#[verifier::external_body]
pub(crate) fn object_value(pairs: Vec<(String, serde_json::Value)>) -> (value: serde_json::Value)
    requires
        distinct_keys(pairs@),
    ensures
        json_of(value) == Json::Object(members_from(pairs@)),
{
    serde_json::Value::Object(pairs.into_iter().collect())
}

/// Writes `value` as indented JSON text.
///
/// Trusted: the body calls `serde_json::to_string_pretty`. The contract
/// names the outcome, [`pretty_text`], as a function of what the value
/// holds; it says neither what the text looks like nor when the call
/// succeeds.
#[verifier::external_body]
pub(crate) fn write_pretty(value: &serde_json::Value) -> (r: Result<String, serde_json::Error>)
    ensures
        match r {
            Ok(text) => pretty_text(json_of(*value)) == Some(text@),
            Err(_) => pretty_text(json_of(*value)) is None,
        },
{
    serde_json::to_string_pretty(value)
}

} // verus!
