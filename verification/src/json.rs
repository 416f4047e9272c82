//! Trusted view of the slice of serde_json that response decoding relies on:
//! parsing a body to a `Value` and reading object members, array elements and
//! primitive payloads out of it. Each operation is a pure function of its
//! arguments, so its result is given a name that the decoding contracts are
//! stated over.

use vstd::prelude::*;

verus! {

#[verifier::external_type_specification]
#[verifier::external_body]
pub struct ExJsonValue(serde_json::Value);

/// What `serde_json::from_str::<Value>` yields on this text; `None` when the
/// text is not valid JSON.
pub uninterp spec fn json_parsed(s: Seq<char>) -> Option<serde_json::Value>;

/// Relies on `serde_json::from_str::<Value>`: a deterministic parse of the
/// text into serde_json's document value.
#[verifier::external_body]
pub fn json_parse(s: &str) -> (r: Option<serde_json::Value>)
    ensures
        r == json_parsed(s@),
{
    serde_json::from_str(s).ok()
}

/// The member of a JSON object under this key; `None` when the value is not
/// an object or has no such member.
pub uninterp spec fn json_field(v: serde_json::Value, key: Seq<char>) -> Option<serde_json::Value>;

/// Relies on `serde_json::Value::get` with a string index: the object member
/// under the key, a function of the value and the key alone.
#[verifier::external_body]
pub fn json_get<'a>(v: &'a serde_json::Value, key: &str) -> (r: Option<&'a serde_json::Value>)
    ensures
        match r {
            Some(f) => json_field(*v, key@) == Some(*f),
            None => json_field(*v, key@) is None,
        },
{
    v.get(key)
}

/// The element of a JSON array at this position; `None` when the value is not
/// an array or the position is out of bounds.
pub uninterp spec fn json_item(v: serde_json::Value, i: int) -> Option<serde_json::Value>;

/// Relies on `serde_json::Value::get` with a `usize` index: the array element
/// at the position, a function of the value and the position alone.
#[verifier::external_body]
pub fn json_at<'a>(v: &'a serde_json::Value, i: usize) -> (r: Option<&'a serde_json::Value>)
    ensures
        match r {
            Some(f) => json_item(*v, i as int) == Some(*f),
            None => json_item(*v, i as int) is None,
        },
{
    v.get(i)
}

/// The text of a JSON string value; `None` for any other kind of value.
pub uninterp spec fn json_text(v: serde_json::Value) -> Option<Seq<char>>;

/// Relies on `serde_json::Value::as_str`: the payload of a `Value::String`,
/// nothing for the other variants.
#[verifier::external_body]
pub fn json_as_str<'a>(v: &'a serde_json::Value) -> (r: Option<&'a str>)
    ensures
        match r {
            Some(s) => json_text(*v) == Some(s@),
            None => json_text(*v) is None,
        },
{
    v.as_str()
}

/// The payload of a JSON boolean value; `None` for any other kind of value.
pub uninterp spec fn json_flag(v: serde_json::Value) -> Option<bool>;

/// Relies on `serde_json::Value::as_bool`: the payload of a `Value::Bool`,
/// nothing for the other variants.
#[verifier::external_body]
pub fn json_as_bool(v: &serde_json::Value) -> (r: Option<bool>)
    ensures
        r == json_flag(*v),
{
    v.as_bool()
}

} // verus!
