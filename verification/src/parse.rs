//! Reading documents from their text.

use crate::json::{Doc, Json, Number};
use serde_json::Value;
use vstd::prelude::*;

verus! {

/// `serde_json::Value`, a document as the parser gives it.
#[verifier::external_type_specification]
#[verifier::external_body]
pub struct ExValue(serde_json::Value);

/// The document that some bytes are, none where they are none: what `serde_json::from_slice` reads.
pub uninterp spec fn json_doc(bytes: Seq<u8>) -> Option<Doc>;

/// What a `serde_json::Value` holds.
pub uninterp spec fn held(v: Value) -> Doc;

/// `serde_json::from_slice` into a `Value`: the value holds the document that the bytes are; an
/// error where they are none, as its text, of which nothing is claimed.
#[verifier::external_body]
fn parse_value(bytes: &[u8]) -> (r: Result<Value, String>)
    ensures
        match r {
            Ok(v) => json_doc(bytes@) == Some(held(v)),
            Err(_) => json_doc(bytes@) is None,
        },
{
    serde_json::from_slice::<Value>(bytes).map_err(|e| e.to_string())
}

/// The document that a `serde_json::Value` holds, variant by variant; a number that is not whole is
/// kept as `serde_json::Number` writes it.
#[verifier::external_body]
fn from_value(v: &Value) -> (j: Json)
    ensures
        j.doc() == held(*v),
{
    match v {
        Value::Null => Json::Null,
        Value::Bool(b) => Json::Bool(*b),
        Value::Number(n) => Json::Number(match (n.as_u64(), n.as_i64()) {
            (Some(u), _) => Number::Unsigned(u),
            (None, Some(i)) => Number::Negative(i),
            (None, None) => Number::Other(n.to_string()),
        }),
        Value::String(s) => Json::Text(s.clone()),
        Value::Array(a) => Json::Array(a.iter().map(from_value).collect()),
        Value::Object(o) => Json::Object(o.iter().map(|(k, x)| (k.clone(), from_value(x))).collect()),
    }
}

/// Reads a document; the error says why the bytes are none.
pub fn parse_json(bytes: &[u8]) -> (r: Result<Json, String>)
    ensures
        match r {
            Ok(j) => json_doc(bytes@) == Some(j.doc()),
            Err(_) => json_doc(bytes@) is None,
        },
{
    match parse_value(bytes) {
        Ok(v) => Ok(from_value(&v)),
        Err(e) => Err(e),
    }
}

/// The document that a text is, none where it is none.
pub open spec fn text_doc(s: Seq<char>) -> Option<Doc> {
    json_doc(vstd::utf8::encode_utf8(s))
}

/// Reads a document from a text.
pub fn parse_text(s: &str) -> (r: Result<Json, String>)
    ensures
        match r {
            Ok(j) => text_doc(s@) == Some(j.doc()),
            Err(_) => text_doc(s@) is None,
        },
{
    parse_json(s.as_bytes())
}

} // verus!
