//! The JSON documents that a completion response carries, read through
//! `serde_json`. Nothing in this file is proved: each item states what the
//! library relies on from that crate.

use vstd::prelude::*;

verus! {

/// `serde_json::Value`: a parsed JSON document, opaque to the verifier.
#[verifier::external_type_specification]
#[verifier::external_body]
pub struct ExJsonValue(serde_json::Value);

/// `serde_json::Error`: why a byte string is no JSON document.
#[verifier::external_type_specification]
#[verifier::external_body]
pub struct ExJsonError(serde_json::Error);

/// What a `Value` holds: its document, as the compact JSON text that stands
/// for it. Values that compare equal hold the same document.
pub uninterp spec fn document_of(value: serde_json::Value) -> Seq<char>;

/// The document that `serde_json::from_slice` reads from `bytes`, or `None`
/// where it rejects them.
pub uninterp spec fn parsed_document(bytes: Seq<u8>) -> Option<Seq<char>>;

/// The document that indexing `document` with the string `key` yields.
pub uninterp spec fn member_of(document: Seq<char>, key: Seq<char>) -> Seq<char>;

/// The document that indexing `document` with the position `index` yields.
pub uninterp spec fn element_of(document: Seq<char>, index: nat) -> Seq<char>;

/// The text of `document` where it is a JSON string, `None` for every other
/// kind of document.
pub uninterp spec fn string_of(document: Seq<char>) -> Option<Seq<char>>;

/// Calls `serde_json::from_slice` for a `Value`. Trusted: whether it
/// succeeds, and the document it yields, depend on the bytes alone.
#[verifier::external_body]
pub(crate) fn parse_document(bytes: &[u8]) -> (r: Result<serde_json::Value, serde_json::Error>)
    ensures
        r matches Ok(value) ==> parsed_document(bytes@) == Some(document_of(value)),
        r is Err ==> parsed_document(bytes@) is None,
{
    serde_json::from_slice(bytes)
}

/// Indexes a `Value` by a string key (`Index<&str>`). Trusted: never panics
/// on a shared reference (a missing key or a non-object yields JSON null),
/// and what comes out depends on the document and the key alone.
#[verifier::external_body]
pub(crate) fn member<'a>(value: &'a serde_json::Value, key: &str) -> (r: &'a serde_json::Value)
    ensures
        document_of(*r) == member_of(document_of(*value), key@),
{
    &value[key]
}

/// Indexes a `Value` by a position (`Index<usize>`). Trusted: never panics
/// on a shared reference (out of range or a non-array yields JSON null), and
/// what comes out depends on the document and the position alone.
#[verifier::external_body]
pub(crate) fn element<'a>(value: &'a serde_json::Value, index: usize) -> (r: &'a serde_json::Value)
    ensures
        document_of(*r) == element_of(document_of(*value), index as nat),
{
    &value[index]
}

/// Calls `Value::as_str`. Trusted: `Some` exactly for a JSON string, with
/// the string's text, which depends on the document alone.
#[verifier::external_body]
pub(crate) fn text<'a>(value: &'a serde_json::Value) -> (r: Option<&'a str>)
    ensures
        r matches Some(s) ==> string_of(document_of(*value)) == Some(s@),
        r is None ==> string_of(document_of(*value)) is None,
{
    value.as_str()
}

} // verus!
