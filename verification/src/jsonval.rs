//! Trusted boundary to serde_json for the raw-output mode, which starts from
//! the event's original JSON payload. A `serde_json::Value` is opaque here;
//! its content is tracked through `json_text_of`, its compact serialization,
//! which with serde_json's ordered maps is a deterministic function of the
//! value and determines it (parsing the text gives the value back).

use vstd::prelude::*;

verus! {

#[verifier::external_type_specification]
#[verifier::external_body]
pub struct ExValue(serde_json::Value);

/// The compact serialization of a JSON value.
pub uninterp spec fn json_text_of(v: serde_json::Value) -> Seq<char>;

/// Whether a JSON value is an object.
pub uninterp spec fn value_is_obj(v: serde_json::Value) -> bool;

/// The compact serialization of the object serialized as `t`, after its key
/// `k` is set to the string `v`.
pub uninterp spec fn obj_set(t: Seq<char>, k: Seq<char>, v: Seq<char>) -> Seq<char>;

/// The pretty-printed rendering of the value whose compact serialization
/// is `t`.
pub uninterp spec fn pretty_of(t: Seq<char>) -> Seq<char>;

/// Relies on `serde_json::Value::is_object`.
#[verifier::external_body]
pub fn value_is_object(v: &serde_json::Value) -> (r: bool)
    ensures
        r == value_is_obj(*v),
{
    v.is_object()
}

/// Relies on `Clone` for `serde_json::Value`: the clone is the same value,
/// so it serializes identically.
#[verifier::external_body]
pub fn value_clone(v: &serde_json::Value) -> (r: serde_json::Value)
    ensures
        json_text_of(r) == json_text_of(*v),
        value_is_obj(r) == value_is_obj(*v),
{
    v.clone()
}

/// Relies on `IndexMut<&str>` for `serde_json::Value`, which on an object
/// inserts or replaces the key, keeping the value an object.
#[verifier::external_body]
pub fn value_set_str(v: &mut serde_json::Value, key: &str, val: &str)
    requires
        value_is_obj(*old(v)),
    ensures
        value_is_obj(*final(v)),
        json_text_of(*final(v)) == obj_set(json_text_of(*old(v)), key@, val@),
{
    v[key] = serde_json::Value::String(val.to_string());
}

/// An empty JSON object.
#[verifier::external_body]
pub fn new_object() -> (r: serde_json::Value)
    ensures
        value_is_obj(r),
        json_text_of(r) == "{}"@,
{
    serde_json::Value::Object(serde_json::Map::new())
}

/// Relies on `serde_json::to_string`, which cannot fail on a `Value` (every
/// object key is already a string).
#[verifier::external_body]
pub fn value_to_compact(v: &serde_json::Value) -> (r: String)
    ensures
        r@ == json_text_of(*v),
{
    match serde_json::to_string(v) {
        Ok(s) => s,
        Err(_) => String::new(),
    }
}

/// Relies on `serde_json::to_string_pretty`; the pretty form is determined
/// by the value, hence by its compact serialization.
#[verifier::external_body]
pub fn value_to_pretty(v: &serde_json::Value) -> (r: String)
    ensures
        r@ == pretty_of(json_text_of(*v)),
{
    match serde_json::to_string_pretty(v) {
        Ok(s) => s,
        Err(_) => String::new(),
    }
}

} // verus!
