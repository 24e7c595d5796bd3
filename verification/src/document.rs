//! Reading a JSON document from its text.
use crate::value::{JsonModel, JsonValue, Number};
use vstd::prelude::*;

verus! {

/// A document as the JSON reader holds it.
#[verifier::external_type_specification]
#[verifier::external_body]
pub struct ExDocument(serde_json::Value);

/// The error of the JSON reader.
#[verifier::external_type_specification]
#[verifier::external_body]
pub struct ExDocumentError(serde_json::Error);

/// The document that a text denotes, where it is a JSON document. The fields
/// of an object stand in the order in which their names first occur, and of
/// several fields of one name the last gives the value.
pub uninterp spec fn json_document(text: Seq<char>) -> Option<JsonModel>;

/// What a document of the JSON reader holds. A whole number in the range of
/// `i64` is held as such; any other number is held by the text that the
/// reader prints it with.
pub uninterp spec fn document_content(v: serde_json::Value) -> JsonModel;

/// `serde_json::from_str`: reads a text as one JSON document. It succeeds
/// on the texts that are JSON documents, and on no other.
#[verifier::external_body]
pub(crate) fn parse_document(text: &str) -> (r: Result<serde_json::Value, serde_json::Error>)
    ensures
        r is Ok <==> json_document(text@) is Some,
        r is Ok ==> document_content(r->Ok_0) == json_document(text@)->0,
{
    serde_json::from_str::<serde_json::Value>(text)
}

/// One document of the JSON reader as a value of the library, part for
/// part: nothing is added, left out or put in another order.
#[verifier::external_body]
pub(crate) fn own_value(v: serde_json::Value) -> (r: JsonValue)
    ensures
        r@ == document_content(v),
{
    match v {
        serde_json::Value::Null => JsonValue::Null,
        serde_json::Value::Bool(b) => JsonValue::Bool(b),
        serde_json::Value::Number(n) => JsonValue::Number(
            n.as_i64().map_or_else(|| Number::Decimal(n.to_string()), Number::Int),
        ),
        serde_json::Value::String(s) => JsonValue::String(s),
        serde_json::Value::Array(a) => JsonValue::Array(a.into_iter().map(own_value).collect()),
        serde_json::Value::Object(m) => JsonValue::Object(
            m.into_iter().map(|(k, x)| (k, own_value(x))).collect(),
        ),
    }
}

/// The reader's error in words: what is wrong, and the line and column.
#[verifier::external_body]
pub(crate) fn document_error_text(e: &serde_json::Error) -> (s: String) {
    e.to_string()
}

/// Reads a text as one JSON document.
pub(crate) fn read_document(text: &str) -> (r: Result<JsonValue, serde_json::Error>)
    ensures
        r is Ok <==> json_document(text@) is Some,
        r is Ok ==> r->Ok_0@ == json_document(text@)->0,
{
    match parse_document(text) {
        Ok(v) => Ok(own_value(v)),
        Err(e) => Err(e),
    }
}

} // verus!
