//! A mathematical model of decoded JSON documents, together with the trusted
//! declarations for the outside JSON library that produces them.
//!
//! A decoded document is modelled by [`JsonVal`], a ghost tree of plain
//! values.  Two uninterpreted names tie the model to the outside library:
//! `json_tree_of` names what decoding a byte sequence yields, and
//! `value_tree` names the tree that a decoded value holds.  Every trusted
//! wrapper below states what one library function does over those names.

use vstd::prelude::*;

verus! {

/// Ghost model of one JSON value.  Numbers carry no payload: nothing in this
/// library reads a numeric field.
#[verifier::ext_equal]
pub enum JsonVal {
    Null,
    Bool(bool),
    Num,
    Str(Seq<char>),
    Arr(Seq<JsonVal>),
    Obj(Map<Seq<char>, JsonVal>),
}

/// What decoding `bytes` as one JSON document yields: `None` when the bytes
/// are not a well-formed document, otherwise the tree of the decoded value.
/// The result depends on the bytes alone.
pub uninterp spec fn json_tree_of(bytes: Seq<u8>) -> Option<JsonVal>;

/// The tree that a decoded JSON value holds.
pub uninterp spec fn value_tree(v: serde_json::Value) -> JsonVal;

#[verifier::external_type_specification]
#[verifier::external_body]
pub struct ExValue(serde_json::Value);

/// Relies on serde_json::from_slice::<Value>: decodes one JSON document from
/// bytes; the result is a function of the bytes alone.
#[verifier::external_body]
pub fn json_from_slice(bytes: &[u8]) -> (r: Option<serde_json::Value>)
    ensures
        match r {
            Some(v) => json_tree_of(bytes@) == Some(value_tree(v)),
            None => json_tree_of(bytes@) is None,
        },
{
    serde_json::from_slice::<serde_json::Value>(bytes).ok()
}

/// Relies on serde_json::Value::is_object: true exactly on the Object variant.
#[verifier::external_body]
pub fn value_is_object(v: &serde_json::Value) -> (r: bool)
    ensures
        r == (value_tree(*v) is Obj),
{
    v.is_object()
}

/// Relies on serde_json::Value::get with a string index: on an Object, looks
/// the key up; on anything else, returns None.
#[verifier::external_body]
pub fn value_get<'a>(v: &'a serde_json::Value, key: &str) -> (r: Option<&'a serde_json::Value>)
    ensures
        match value_tree(*v) {
            JsonVal::Obj(m) => {
                if m.contains_key(key@) {
                    r matches Some(x) && value_tree(*x) == m[key@]
                } else {
                    r is None
                }
            },
            _ => r is None,
        },
{
    v.get(key)
}

/// Relies on serde_json::Value::as_str: Some exactly on the String variant.
#[verifier::external_body]
pub fn value_as_str<'a>(v: &'a serde_json::Value) -> (r: Option<&'a str>)
    ensures
        match value_tree(*v) {
            JsonVal::Str(s) => r matches Some(t) && t@ == s,
            _ => r is None,
        },
{
    v.as_str()
}

/// Relies on serde_json::Value::as_bool: Some exactly on the Bool variant.
#[verifier::external_body]
pub fn value_as_bool(v: &serde_json::Value) -> (r: Option<bool>)
    ensures
        r == (match value_tree(*v) {
            JsonVal::Bool(b) => Some(b),
            _ => None,
        }),
{
    v.as_bool()
}

/// Relies on serde_json::Value::as_array: Some exactly on the Array variant,
/// whose elements hold the trees of the model array, in order.
#[verifier::external_body]
pub fn value_as_array<'a>(v: &'a serde_json::Value) -> (r: Option<&'a Vec<serde_json::Value>>)
    ensures
        match value_tree(*v) {
            JsonVal::Arr(s) => r matches Some(a) && a@.len() == s.len() && (forall|i: int|
                0 <= i < s.len() ==> value_tree(a@[i]) == s[i]),
            _ => r is None,
        },
{
    v.as_array()
}

/// Key lookup on the model: Some exactly when the tree is an object that
/// holds the key.
pub open spec fn jget(j: JsonVal, key: Seq<char>) -> Option<JsonVal> {
    match j {
        JsonVal::Obj(m) => if m.contains_key(key) {
            Some(m[key])
        } else {
            None
        },
        _ => None,
    }
}

/// Key lookup through an optional tree.
pub open spec fn opt_jget(j: Option<JsonVal>, key: Seq<char>) -> Option<JsonVal> {
    match j {
        Some(v) => jget(v, key),
        None => None,
    }
}

/// The characters of a string tree, or the empty sequence for anything else.
pub open spec fn jstr_or_empty(j: Option<JsonVal>) -> Seq<char> {
    match j {
        Some(JsonVal::Str(s)) => s,
        _ => Seq::empty(),
    }
}

} // verus!
