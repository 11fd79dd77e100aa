//! The JSON text form of a document, written and read by `serde_json`.

use crate::json::{Json, JsonView};
use vstd::pervasive::unreached;
use vstd::prelude::*;

verus! {

#[verifier::external_type_specification]
#[verifier::external_body]
pub struct ExValue(serde_json::Value);

#[verifier::external_type_specification]
#[verifier::external_body]
pub struct ExError(serde_json::Error);

/// The compact JSON text that `serde_json` writes for a document.
pub uninterp spec fn encoded_text(v: JsonView) -> Seq<char>;

/// The compact JSON bytes that `serde_json::to_vec` writes for a document.
pub uninterp spec fn encoded_bytes(v: JsonView) -> Seq<u8>;

/// The document that `serde_json::from_slice` reads from bytes, where it
/// accepts them.
pub uninterp spec fn decoded_bytes(bytes: Seq<u8>) -> Option<JsonView>;

/// The document that `serde_json::from_str` reads from text, where it
/// accepts it.
pub uninterp spec fn decoded_text(text: Seq<char>) -> Option<JsonView>;

/// Builds the `serde_json::Value` that holds what `v` holds, variant for
/// variant; a `serde_json::Map` takes the fields in their order.
#[verifier::external_body]
pub(crate) fn to_outside(v: &Json) -> serde_json::Value {
    match v {
        Json::Null => serde_json::Value::Null,
        Json::Bool(b) => serde_json::Value::Bool(*b),
        Json::Number(n) => serde_json::Value::Number(n.clone()),
        Json::String(s) => serde_json::Value::String(s.clone()),
        Json::Array(items) => serde_json::Value::Array(items.iter().map(to_outside).collect()),
        Json::Object(fields) => serde_json::Value::Object(
            fields.iter().map(|f| (f.0.clone(), to_outside(&f.1))).collect(),
        ),
    }
}

/// Takes a `serde_json::Value` apart into the [`Json`] that holds the same,
/// variant for variant, the fields of a map in the map's own order.
#[verifier::external_body]
pub(crate) fn from_outside(v: serde_json::Value) -> Json {
    match v {
        serde_json::Value::Null => Json::Null,
        serde_json::Value::Bool(b) => Json::Bool(b),
        serde_json::Value::Number(n) => Json::Number(n),
        serde_json::Value::String(s) => Json::String(s),
        serde_json::Value::Array(items) => Json::Array(items.into_iter().map(from_outside).collect()),
        serde_json::Value::Object(fields) => Json::Object(
            fields.into_iter().map(|f| (f.0, from_outside(f.1))).collect(),
        ),
    }
}

/// Calls `to_string` of `serde_json::Value`, which writes the value as
/// compact JSON and cannot fail on a value tree. The text is a function of
/// the document alone.
#[verifier::external_body]
fn value_to_string(v: &Json) -> (r: String)
    ensures
        r@ == encoded_text(v@),
{
    to_outside(v).to_string()
}

/// Calls `serde_json::to_vec`. On a value tree it succeeds: it writes into
/// a vector, every key of a map is a string and every number is finite.
/// What it writes is a function of the document alone.
#[verifier::external_body]
fn value_to_vec(v: &Json) -> (r: Result<Vec<u8>, serde_json::Error>)
    ensures
        match r {
            Ok(bytes) => bytes@ == encoded_bytes(v@),
            Err(_) => false,
        },
{
    serde_json::to_vec(&to_outside(v))
}

/// Calls `serde_json::from_slice` for a `serde_json::Value`. Whether it
/// accepts the bytes and what it reads are functions of the bytes alone.
#[verifier::external_body]
fn value_from_slice(bytes: &[u8]) -> (r: Result<Json, serde_json::Error>)
    ensures
        match r {
            Ok(v) => decoded_bytes(bytes@) == Some(v@),
            Err(_) => decoded_bytes(bytes@) is None,
        },
{
    serde_json::from_slice::<serde_json::Value>(bytes).map(from_outside)
}

/// Calls `serde_json::from_str` for a `serde_json::Value`. Whether it accepts
/// the text and what it reads are functions of the text alone.
#[verifier::external_body]
fn value_from_str(text: &str) -> (r: Result<Json, serde_json::Error>)
    ensures
        match r {
            Ok(v) => decoded_text(text@) == Some(v@),
            Err(_) => decoded_text(text@) is None,
        },
{
    serde_json::from_str::<serde_json::Value>(text).map(from_outside)
}

/// The message of a `serde_json::Error`, as its `Display` writes it.
#[verifier::external_body]
pub(crate) fn error_text(e: &serde_json::Error) -> (r: String) {
    e.to_string()
}

/// Why a text or byte sequence was not read as JSON.
#[derive(Debug)]
pub struct JsonError {
    pub message: String,
}

/// The compact JSON text of a document.
pub fn to_text(v: &Json) -> (r: String)
    ensures
        r@ == encoded_text(v@),
{
    value_to_string(v)
}

/// The compact JSON text of a document, as UTF-8 bytes.
pub fn to_payload(v: &Json) -> (r: Vec<u8>)
    ensures
        r@ == vstd::utf8::encode_utf8(encoded_text(v@)),
{
    let text = value_to_string(v);
    text.as_str().as_bytes_vec()
}

/// The compact JSON bytes of a document.
pub fn to_bytes(v: &Json) -> (r: Vec<u8>)
    ensures
        r@ == encoded_bytes(v@),
{
    match value_to_vec(v) {
        Ok(bytes) => bytes,
        Err(_) => unreached(),
    }
}

/// Reads a document from JSON bytes.
pub fn from_bytes(bytes: &[u8]) -> (r: Result<Json, JsonError>)
    ensures
        match r {
            Ok(v) => decoded_bytes(bytes@) == Some(v@),
            Err(_) => decoded_bytes(bytes@) is None,
        },
{
    match value_from_slice(bytes) {
        Ok(v) => Ok(v),
        Err(e) => Err(JsonError { message: error_text(&e) }),
    }
}

/// Reads a document from JSON text.
pub fn from_text(text: &str) -> (r: Result<Json, JsonError>)
    ensures
        match r {
            Ok(v) => decoded_text(text@) == Some(v@),
            Err(_) => decoded_text(text@) is None,
        },
{
    match value_from_str(text) {
        Ok(v) => Ok(v),
        Err(e) => Err(JsonError { message: error_text(&e) }),
    }
}

} // verus!
