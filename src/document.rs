//! The embedded document: reversing the string escaping, parsing the JSON,
//! and reading values out of the parsed tree.
use vstd::prelude::*;

use crate::error::{Failure, PipelineError};

verus! {

/// A parsed JSON document, opaque to proofs; read through the accessors below.
#[verifier::external_type_specification]
#[verifier::external_body]
pub struct ExValue(serde_json::Value);

/// A JSON number, carried through unchanged into the track.
#[verifier::external_type_specification]
#[verifier::external_body]
pub struct ExNumber(serde_json::Number);

/// The parser's error, whose message is kept in `MalformedDocument`.
#[verifier::external_type_specification]
#[verifier::external_body]
pub struct ExError(serde_json::Error);

/// What `unescape::unescape` makes of a text: `None` for a malformed escape.
pub uninterp spec fn unescaped_of(s: Seq<char>) -> Option<Seq<char>>;

/// The JSON document that `serde_json::from_str` reads from a text, if it is one.
pub uninterp spec fn parsed_of(s: Seq<char>) -> Option<serde_json::Value>;

/// The member under `key` of an object value; `None` for a missing key or a
/// value that is not an object.
pub uninterp spec fn member_of(v: serde_json::Value, key: Seq<char>) -> Option<serde_json::Value>;

/// The elements of an array value; `None` for a value that is not an array.
pub uninterp spec fn elements_of(v: serde_json::Value) -> Option<Seq<serde_json::Value>>;

/// The text of a string value; `None` for a value that is not a string.
pub uninterp spec fn text_of(v: serde_json::Value) -> Option<Seq<char>>;

/// The number of a number value; `None` for a value that is not a number.
pub uninterp spec fn number_of(v: serde_json::Value) -> Option<serde_json::Number>;

/// Relies on `unescape::unescape`, which undoes backslash escapes and returns
/// `None` on a malformed one; a text without a backslash comes back unchanged.
#[verifier::external_body]
fn unescape_text(s: &str) -> (r: Option<String>)
    ensures
        match r {
            Some(t) => unescaped_of(s@) == Some(t@),
            None => unescaped_of(s@) is None,
        },
        !s@.contains('\\') ==> r is Some && r->0@ == s@,
{
    unescape::unescape(s)
}

/// Relies on `serde_json::from_str` to parse a text into a JSON value.
#[verifier::external_body]
fn parse_json(s: &str) -> (r: Result<serde_json::Value, serde_json::Error>)
    ensures
        match r {
            Ok(v) => parsed_of(s@) == Some(v),
            Err(_) => parsed_of(s@) is None,
        },
{
    serde_json::from_str(s)
}

/// Relies on `serde_json::Value::get` with a string key: the member of an
/// object, `None` for a missing key or a value of another kind.
#[verifier::external_body]
pub(crate) fn member<'a>(v: &'a serde_json::Value, key: &str) -> (r: Option<&'a serde_json::Value>)
    ensures
        match r {
            Some(m) => member_of(*v, key@) == Some(*m),
            None => member_of(*v, key@) is None,
        },
{
    v.get(key)
}

/// Relies on `serde_json::Value::as_array`: the elements of an array value.
pub assume_specification[ serde_json::Value::as_array ](v: &serde_json::Value) -> (r: Option<
    &Vec<serde_json::Value>,
>)
    ensures
        match r {
            Some(a) => elements_of(*v) == Some(a@),
            None => elements_of(*v) is None,
        },
;

/// Relies on `serde_json::Value::as_str`: the text of a string value.
pub assume_specification[ serde_json::Value::as_str ](v: &serde_json::Value) -> (r: Option<&str>)
    ensures
        match r {
            Some(t) => text_of(*v) == Some(t@),
            None => text_of(*v) is None,
        },
;

/// Relies on `serde_json::Value::as_number`: the number of a number value.
pub assume_specification[ serde_json::Value::as_number ](v: &serde_json::Value) -> (r: Option<
    &serde_json::Number,
>)
    ensures
        match r {
            Some(n) => number_of(*v) == Some(*n),
            None => number_of(*v) is None,
        },
;

/// Relies on the derived `Clone` of `serde_json::Number`: a copy equal to the original.
pub assume_specification[ <serde_json::Number as Clone>::clone ](n: &serde_json::Number) -> (r:
    serde_json::Number)
    ensures
        r == *n,
;

/// The document held by an unescaped payload text.
pub open spec fn parsed(text: Seq<char>) -> Result<serde_json::Value, Failure> {
    match parsed_of(text) {
        Some(v) => Ok(v),
        None => Err(Failure::MalformedDocument),
    }
}

/// The document held by an escaped payload.
pub open spec fn decoded(payload: Seq<char>) -> Result<serde_json::Value, Failure> {
    match unescaped_of(payload) {
        Some(text) => parsed(text),
        None => Err(Failure::UnescapeError),
    }
}

/// A result of the library, seen as plain values.
pub open spec fn outcome<T>(r: Result<T, PipelineError>) -> Result<T, Failure> {
    match r {
        Ok(v) => Ok(v),
        Err(e) => Err(e@),
    }
}

/// Parses unescaped payload text as a JSON document.
pub fn parse_document(text: &str) -> (r: Result<serde_json::Value, PipelineError>)
    ensures
        outcome(r) == parsed(text@),
{
    match parse_json(text) {
        Ok(v) => Ok(v),
        Err(e) => Err(PipelineError::MalformedDocument(e.to_string())),
    }
}

/// Undoes the string escaping of a payload and parses the result.
pub fn decode_payload(payload: &str) -> (r: Result<serde_json::Value, PipelineError>)
    ensures
        outcome(r) == decoded(payload@),
{
    match unescape_text(payload) {
        Some(text) => parse_document(text.as_str()),
        None => Err(PipelineError::UnescapeError),
    }
}

/// Decoding depends on the payload alone: two decodings of one payload fail
/// alike or yield the same document.
pub proof fn decoding_is_deterministic(
    payload: Seq<char>,
    first: Result<serde_json::Value, PipelineError>,
    second: Result<serde_json::Value, PipelineError>,
)
    requires
        outcome(first) == decoded(payload),
        outcome(second) == decoded(payload),
    ensures
        first is Ok <==> second is Ok,
        first is Ok ==> first->Ok_0 == second->Ok_0,
        first is Err ==> first->Err_0@ == second->Err_0@,
{
}

} // verus!
