//! JSON texts: reading a text as a JSON document and writing the document
//! back, in compact form for a command and indented for the eye. Reading and
//! writing are done by `serde_json`; what they give is taken on trust and
//! goes by the names declared here.

use vstd::prelude::*;
use vstd::utf8::{decode_utf8, valid_utf8};

verus! {

/// `serde_json::Value`, a JSON document. Nothing is known of what is in it.
#[verifier::external_type_specification]
#[verifier::external_body]
pub struct ExJsonValue(serde_json::Value);

/// `serde_json::Error`, the error of reading or writing JSON. Nothing is
/// known of what is in it.
#[verifier::external_type_specification]
#[verifier::external_body]
pub struct ExJsonError(serde_json::Error);

/// The text that `String::from_utf8_lossy` reads from `bytes`.
pub uninterp spec fn utf8_lossy(bytes: Seq<u8>) -> Seq<char>;

/// Calls `String::from_utf8_lossy`: the text that the bytes encode in UTF-8,
/// with U+FFFD in the place of whatever is no UTF-8. The result is the text
/// named by [`utf8_lossy`]; bytes that are valid UTF-8 come out as the
/// characters they encode.
#[verifier::external_body]
pub(crate) fn lossy_text(bytes: &[u8]) -> (text: String)
    ensures
        text@ == utf8_lossy(bytes@),
        valid_utf8(bytes@) ==> text@ == decode_utf8(bytes@),
{
    String::from_utf8_lossy(bytes).into_owned()
}

/// The document that `serde_json::from_str` reads from `text`, or `None`
/// where it reports an error.
pub uninterp spec fn json_document(text: Seq<char>) -> Option<serde_json::Value>;

/// The compact text that `serde_json::to_string` writes for `value`, or
/// `None` where it reports an error.
pub uninterp spec fn json_text(value: serde_json::Value) -> Option<Seq<char>>;

/// Calls `serde_json::from_str` for a `serde_json::Value`. The result is the
/// document named by [`json_document`]; an error stands for `None`.
#[verifier::external_body]
pub(crate) fn parse_document(text: &str) -> (r: Result<serde_json::Value, serde_json::Error>)
    ensures
        match r {
            Ok(value) => json_document(text@) == Some(value),
            Err(_) => json_document(text@) is None,
        },
{
    serde_json::from_str::<serde_json::Value>(text)
}

/// Calls `serde_json::to_string`. The result is the text named by
/// [`json_text`]; an error stands for `None`.
#[verifier::external_body]
pub(crate) fn write_document(value: &serde_json::Value) -> (r: Result<String, serde_json::Error>)
    ensures
        match r {
            Ok(text) => json_text(*value) == Some(text@),
            Err(_) => json_text(*value) is None,
        },
{
    serde_json::to_string(value)
}

/// The indented text that `serde_json::to_string_pretty` writes for `value`,
/// or `None` where it reports an error.
pub uninterp spec fn json_pretty_text(value: serde_json::Value) -> Option<Seq<char>>;

/// Calls `serde_json::to_string_pretty`. The result is the text named by
/// [`json_pretty_text`]; an error stands for `None`.
#[verifier::external_body]
pub(crate) fn write_document_pretty(value: &serde_json::Value) -> (r: Result<
    String,
    serde_json::Error,
>)
    ensures
        match r {
            Ok(text) => json_pretty_text(*value) == Some(text@),
            Err(_) => json_pretty_text(*value) is None,
        },
{
    serde_json::to_string_pretty(value)
}

/// The compact form of the JSON document written in `text`, or `None` where
/// `text` is no JSON document.
pub open spec fn compact_json(text: Seq<char>) -> Option<Seq<char>> {
    match json_document(text) {
        Some(value) => json_text(value),
        None => None,
    }
}

/// Reads `text` as JSON and writes it back in compact form.
pub fn compact(text: &str) -> (r: Option<String>)
    ensures
        match r {
            Some(s) => compact_json(text@) == Some(s@),
            None => compact_json(text@) is None,
        },
{
    match parse_document(text) {
        Ok(value) => match write_document(&value) {
            Ok(s) => Some(s),
            Err(_) => None,
        },
        Err(_) => None,
    }
}

/// The indented form of the JSON document written in `text`, or `None`
/// where `text` is no JSON document.
pub open spec fn pretty_json(text: Seq<char>) -> Option<Seq<char>> {
    match json_document(text) {
        Some(value) => json_pretty_text(value),
        None => None,
    }
}

/// Reads `text` as JSON and writes it back with one member on each line.
pub fn pretty(text: &str) -> (r: Option<String>)
    ensures
        match r {
            Some(s) => pretty_json(text@) == Some(s@),
            None => pretty_json(text@) is None,
        },
{
    match parse_document(text) {
        Ok(value) => match write_document_pretty(&value) {
            Ok(s) => Some(s),
            Err(_) => None,
        },
        Err(_) => None,
    }
}

} // verus!
