//! Trusted view of `serde_json`: the parsed JSON document is opaque, and the
//! contracts speak of it through two names — the key set of its top-level
//! object and the string value of a top-level field.

use vstd::prelude::*;

verus! {

#[verifier::external_type_specification]
#[verifier::external_body]
pub struct ExValue(serde_json::Value);

/// Whether this text is one well-formed JSON document, as `serde_json::from_str`
/// decides it.
pub uninterp spec fn parses_as_json(s: Seq<char>) -> bool;

/// The document that `serde_json::from_str` parses out of a well-formed
/// text: the parse is deterministic in the text alone.
pub uninterp spec fn json_value_of(s: Seq<char>) -> serde_json::Value;

/// The text that `serde_json::to_string_pretty` renders a document as:
/// deterministic in the document alone.
pub uninterp spec fn json_pretty_text(v: serde_json::Value) -> Seq<char>;

/// The keys of the document's top-level object; `None` when the document is
/// not an object.
pub uninterp spec fn json_obj_keys(v: serde_json::Value) -> Option<Set<Seq<char>>>;

/// The string value of a top-level field; `None` when the document is not an
/// object, the key is absent, or the value is not a string.
pub uninterp spec fn json_str_field(v: serde_json::Value, key: Seq<char>) -> Option<Seq<char>>;

/// Relies on `serde_json::from_str::<Value>`: parses exactly the well-formed
/// JSON documents, deterministically in the text.
#[verifier::external_body]
pub(crate) fn json_parse(text: &str) -> (r: Result<serde_json::Value, String>)
    ensures
        r.is_ok() == parses_as_json(text@),
        r matches Ok(v) ==> v == json_value_of(text@),
{
    match serde_json::from_str::<serde_json::Value>(text) {
        Ok(v) => Ok(v),
        Err(e) => Err(e.to_string()),
    }
}

/// Relies on `serde_json::Value::get`: `Some` exactly when the document is an
/// object with this key.
#[verifier::external_body]
pub(crate) fn json_has_key(v: &serde_json::Value, key: &str) -> (r: bool)
    ensures
        r == match json_obj_keys(*v) {
            Some(ks) => ks.contains(key@),
            None => false,
        },
{
    v.get(key).is_some()
}

/// Relies on `serde_json::Value::is_object`.
#[verifier::external_body]
pub(crate) fn json_is_object(v: &serde_json::Value) -> (r: bool)
    ensures
        r == (json_obj_keys(*v) is Some),
{
    v.is_object()
}

/// Relies on `serde_json::Value::get` and `Value::as_str`: returns the string
/// value of a top-level field when there is one.
#[verifier::external_body]
pub(crate) fn json_str_value(v: &serde_json::Value, key: &str) -> (r: Option<String>)
    ensures
        (r is Some) == (json_str_field(*v, key@) is Some),
        r matches Some(s) ==> json_str_field(*v, key@) == Some(s@),
{
    match v.get(key) {
        Some(serde_json::Value::String(s)) => Some(s.clone()),
        _ => None,
    }
}

/// Relies on `serde_json::Map::insert`: sets a top-level field to a string,
/// leaving every other field as it was.
#[verifier::external_body]
pub(crate) fn json_insert_str(v: &mut serde_json::Value, key: &str, value: &str)
    requires
        json_obj_keys(*old(v)) is Some,
    ensures
        json_obj_keys(*final(v)) == Some(json_obj_keys(*old(v)).unwrap().insert(key@)),
        json_str_field(*final(v), key@) == Some(value@),
        forall|k: Seq<char>| k != key@ ==> json_str_field(*final(v), k) == json_str_field(
            *old(v),
            k,
        ),
{
    if let Some(obj) = v.as_object_mut() {
        obj.insert(key.to_string(), serde_json::Value::String(value.to_string()));
    }
}

/// Relies on `serde_json::to_string_pretty`: the rendering is a function of
/// the document alone.  Serializing a `Value` cannot fail: every map key in
/// a `Value` is a string.
#[verifier::external_body]
pub(crate) fn json_to_pretty(v: &serde_json::Value) -> (r: String)
    ensures
        r@ == json_pretty_text(*v),
{
    serde_json::to_string_pretty(v).unwrap()
}

} // verus!
