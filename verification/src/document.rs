//! JSON documents, read through `serde_json`.
//!
//! Nothing in this module is proved: each item states what the library
//! relies on from `serde_json`. A document stays a `serde_json::Value`; the
//! rest of the crate sees of it only the text that it holds under a key.

use vstd::prelude::*;

verus! {

#[verifier::external_type_specification]
#[verifier::external_body]
pub struct ExValue(serde_json::Value);

#[verifier::external_type_specification]
#[verifier::external_body]
pub struct ExError(serde_json::Error);

/// The text members of a document: where the document is an object, each key
/// under which it holds a string, with that string. Any other document has
/// none.
pub uninterp spec fn text_members(document: serde_json::Value) -> Map<Seq<char>, Seq<char>>;

/// The text members of the JSON document that `bytes` spell, or `None` where
/// `bytes` are not exactly one JSON document.
pub uninterp spec fn json_text_members(bytes: Seq<u8>) -> Option<Map<Seq<char>, Seq<char>>>;

/// The text that `members` hold under `key`, if any.
pub open spec fn member(members: Map<Seq<char>, Seq<char>>, key: Seq<char>) -> Option<Seq<char>> {
    if members.contains_key(key) {
        Some(members[key])
    } else {
        None
    }
}

/// Calls `serde_json::from_slice` for a `serde_json::Value`. The contract
/// claims that whether the bytes parse, and which text members the document
/// then has, depends on the bytes alone.
#[verifier::external_body]
pub(crate) fn parse_document(bytes: &[u8]) -> (parsed: Result<
    serde_json::Value,
    serde_json::Error,
>)
    ensures
        match parsed {
            Ok(document) => json_text_members(bytes@) == Some(text_members(document)),
            Err(_) => json_text_members(bytes@) is None,
        },
{
    serde_json::from_slice::<serde_json::Value>(bytes)
}

/// Indexes a `serde_json::Value` by a string key and calls `Value::as_str`
/// on what is found. The index yields null for a missing key and for a
/// document that is no object, and `as_str` yields a string only for a JSON
/// string: the contract claims that the result is the text member under
/// `key`.
#[verifier::external_body]
pub(crate) fn text_member<'a>(document: &'a serde_json::Value, key: &str) -> (text: Option<
    &'a str,
>)
    ensures
        match text {
            Some(found) => member(text_members(*document), key@) == Some(found@),
            None => member(text_members(*document), key@) is None,
        },
{
    document[key].as_str()
}

/// Renders a `serde_json::Error` through its `Display` impl. Nothing is
/// claimed of the text.
#[verifier::external_body]
pub(crate) fn error_text(error: &serde_json::Error) -> (text: String) {
    error.to_string()
}

} // verus!
