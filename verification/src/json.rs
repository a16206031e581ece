//! JSON documents. Decoding and reading are `serde_json`'s; this module declares its types and
//! gives the results of its functions the names that the rest of the library states its
//! contracts with. Nothing here is proved of `serde_json`: each function below with a body
//! that Verus does not read says in its comment what it takes on trust.
use vstd::prelude::*;

verus! {

/// `serde_json::Value`, a JSON document. Nothing of its inside is visible here: it is read
/// through the functions below.
#[verifier::external_type_specification]
#[verifier::external_body]
pub struct ExValue(serde_json::Value);

/// `serde_json::Error`, the reason why bytes were not decoded.
#[verifier::external_type_specification]
#[verifier::external_body]
pub struct ExError(serde_json::Error);

/// The document that `serde_json` decodes a byte string to, if it accepts the bytes: they are
/// JSON text, one value with nothing but white space around it, and not nested beyond the
/// depth that `serde_json` follows.
pub uninterp spec fn json_document(bytes: Seq<u8>) -> Option<serde_json::Value>;

/// The member that a value holds under a key, if the value is an object with such a member.
pub uninterp spec fn json_member(value: serde_json::Value, key: Seq<char>) -> Option<
    serde_json::Value,
>;

/// Whether a value is an object.
pub uninterp spec fn json_is_object(value: serde_json::Value) -> bool;

/// The characters of a value, if it is a string.
pub uninterp spec fn json_string(value: serde_json::Value) -> Option<Seq<char>>;

/// The elements of a value, if it is an array.
pub uninterp spec fn json_elements(value: serde_json::Value) -> Option<Seq<serde_json::Value>>;

/// The number that a value holds, if it is an integer from 0 to `u64::MAX`.
pub uninterp spec fn json_u64(value: serde_json::Value) -> Option<u64>;

/// The truth value of a value, if it is `true` or `false`.
pub uninterp spec fn json_bool(value: serde_json::Value) -> Option<bool>;

/// Whether a value is `null`.
pub uninterp spec fn json_is_null(value: serde_json::Value) -> bool;

/// The compact JSON text of a value.
pub uninterp spec fn json_text(value: serde_json::Value) -> Seq<char>;

/// `serde_json::from_slice` at type `Value`. Taken on trust: decoding depends on the bytes
/// alone, so the result is the document of the bytes, and an error means that there is none.
#[verifier::external_body]
pub(crate) fn decode(bytes: &[u8]) -> (decoded: Result<serde_json::Value, serde_json::Error>)
    ensures
        match decoded {
            Ok(value) => json_document(bytes@) == Some(value),
            Err(_) => json_document(bytes@) is None,
        },
{
    serde_json::from_slice(bytes)
}

/// `Value::get` with a string index. Taken on trust: the result is the member under `key`.
#[verifier::external_body]
pub(crate) fn member<'a>(value: &'a serde_json::Value, key: &str) -> (found: Option<
    &'a serde_json::Value,
>)
    ensures
        match found {
            Some(inner) => json_member(*value, key@) == Some(*inner),
            None => json_member(*value, key@) is None,
        },
{
    value.get(key)
}

/// `Value::is_object`. Taken on trust: the result says whether the value is an object.
#[verifier::external_body]
pub(crate) fn is_object(value: &serde_json::Value) -> (object: bool)
    ensures
        object == json_is_object(*value),
{
    value.is_object()
}

/// `Value::as_str`. Taken on trust: the result holds the characters of a string value.
#[verifier::external_body]
pub(crate) fn string<'a>(value: &'a serde_json::Value) -> (text: Option<&'a str>)
    ensures
        match text {
            Some(s) => json_string(*value) == Some(s@),
            None => json_string(*value) is None,
        },
{
    value.as_str()
}

/// `Value::as_array`. Taken on trust: the result holds the elements of an array value.
#[verifier::external_body]
pub(crate) fn elements<'a>(value: &'a serde_json::Value) -> (items: Option<
    &'a Vec<serde_json::Value>,
>)
    ensures
        match items {
            Some(array) => json_elements(*value) == Some(array@),
            None => json_elements(*value) is None,
        },
{
    value.as_array()
}

/// `Value::as_u64`. Taken on trust: the result is the value's number where it has one.
#[verifier::external_body]
pub(crate) fn unsigned(value: &serde_json::Value) -> (number: Option<u64>)
    ensures
        number == json_u64(*value),
{
    value.as_u64()
}

/// `Value::as_bool`. Taken on trust: the result is the value's truth value where it has one.
#[verifier::external_body]
pub(crate) fn boolean(value: &serde_json::Value) -> (truth: Option<bool>)
    ensures
        truth == json_bool(*value),
{
    value.as_bool()
}

/// `Value::is_null`. Taken on trust: the result says whether the value is `null`.
#[verifier::external_body]
pub(crate) fn is_null(value: &serde_json::Value) -> (null: bool)
    ensures
        null == json_is_null(*value),
{
    value.is_null()
}

/// `Value`'s `to_string`, which writes the value as compact JSON. Taken on trust: the text
/// depends on the value alone.
#[verifier::external_body]
pub(crate) fn text(value: &serde_json::Value) -> (written: String)
    ensures
        written@ == json_text(*value),
{
    value.to_string()
}

/// The characters of the member under `key`, if `value` is an object whose member `key` is a
/// string.
pub open spec fn string_member(value: serde_json::Value, key: Seq<char>) -> Option<Seq<char>> {
    match json_member(value, key) {
        Some(inner) => json_string(inner),
        None => None,
    }
}

/// The member under `key`, if `value` is an object whose member `key` is an object.
pub open spec fn object_member(value: serde_json::Value, key: Seq<char>) -> Option<
    serde_json::Value,
> {
    match json_member(value, key) {
        Some(inner) => if json_is_object(inner) {
            Some(inner)
        } else {
            None
        },
        None => None,
    }
}

/// Reads the string member under `key`.
pub fn get_string<'a>(value: &'a serde_json::Value, key: &str) -> (text: Option<&'a str>)
    ensures
        match text {
            Some(s) => string_member(*value, key@) == Some(s@),
            None => string_member(*value, key@) is None,
        },
{
    match member(value, key) {
        Some(inner) => string(inner),
        None => None,
    }
}

/// Reads the object member under `key`.
pub fn get_object<'a>(value: &'a serde_json::Value, key: &str) -> (object: Option<
    &'a serde_json::Value,
>)
    ensures
        match object {
            Some(inner) => object_member(*value, key@) == Some(*inner),
            None => object_member(*value, key@) is None,
        },
{
    match member(value, key) {
        Some(inner) => if is_object(inner) {
            Some(inner)
        } else {
            None
        },
        None => None,
    }
}

} // verus!
