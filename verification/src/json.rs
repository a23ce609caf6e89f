//! The trusted boundary around `serde_json` and `chrono`.
//!
//! Every interaction with an arbitrary JSON document goes through this
//! module.  A document is carried as an opaque `serde_json::Value`; what
//! the outside crate computes from one is given a name (an uninterpreted
//! spec function) and the wrappers below relate their results to those
//! names.  Nothing else in the crate calls `serde_json` or `chrono`
//! directly.

use vstd::prelude::*;

verus! {

#[verifier::external_type_specification]
#[verifier::external_body]
pub struct ExValue(serde_json::Value);

/// Relies on `serde_json::Value`'s `Clone`: a clone is the same document.
pub assume_specification[ <serde_json::Value as Clone>::clone ](
    v: &serde_json::Value,
) -> (r: serde_json::Value)
    ensures
        r == *v,
;

/// The text that `serde_json::to_string` produces for a document.
pub uninterp spec fn json_text(v: serde_json::Value) -> Seq<char>;

/// The document that `serde_json::from_str` parses out of a text, or
/// `None` when the text is not a single well-formed JSON value.
pub uninterp spec fn parsed_json(s: Seq<char>) -> Option<serde_json::Value>;

/// The member a JSON object holds under a key, or `None` when the
/// document is not an object or has no such member.
pub uninterp spec fn member(v: serde_json::Value, key: Seq<char>) -> Option<serde_json::Value>;

/// The characters of a JSON string, or `None` when the document is not a
/// string.
pub uninterp spec fn text_of(v: serde_json::Value) -> Option<Seq<char>>;

/// The elements of a JSON array, or `None` when the document is not an
/// array.
pub uninterp spec fn elements(v: serde_json::Value) -> Option<Seq<serde_json::Value>>;

/// Whether the document is JSON `null`.
pub uninterp spec fn is_json_null(v: serde_json::Value) -> bool;

/// Whether `chrono` accepts a text as an RFC 3339 timestamp.
pub uninterp spec fn rfc3339(s: Seq<char>) -> bool;

/// Relies on `serde_json::to_string`: one compact JSON rendering per
/// document, containing no raw newline (the compact formatter emits no
/// whitespace and escapes every control character inside strings).
/// Serializing a `Value` cannot fail: its maps are string-keyed.
#[verifier::external_body]
pub fn to_json_text(v: &serde_json::Value) -> (r: String)
    ensures
        r@ == json_text(*v),
        forall|i: int| 0 <= i < r@.len() ==> r@[i] != '\n',
        r@.len() > 0,
{
    serde_json::to_string(v).expect("a serde_json::Value always serializes")
}

/// Relies on `serde_json::from_str`: parses a text as one JSON document,
/// failing exactly on text that is not well-formed JSON.
#[verifier::external_body]
pub fn parse_json(s: &str) -> (r: Result<serde_json::Value, String>)
    ensures
        r is Ok <==> parsed_json(s@) is Some,
        r is Ok ==> Some(r->Ok_0) == parsed_json(s@),
{
    serde_json::from_str::<serde_json::Value>(s).map_err(|e| e.to_string())
}

/// Relies on `serde_json::Value::get`: looks a member up by key in an
/// object, `None` for non-objects and missing keys.
#[verifier::external_body]
pub fn get_member<'a>(v: &'a serde_json::Value, key: &str) -> (r: Option<&'a serde_json::Value>)
    ensures
        match r {
            Some(m) => member(*v, key@) == Some(*m),
            None => member(*v, key@) is None,
        },
{
    v.get(key)
}

/// Relies on `serde_json::Value::as_str`: the characters of a JSON
/// string, `None` for every other document.
#[verifier::external_body]
pub fn get_text(v: &serde_json::Value) -> (r: Option<String>)
    ensures
        match r {
            Some(s) => text_of(*v) == Some(s@),
            None => text_of(*v) is None,
        },
{
    v.as_str().map(String::from)
}

/// Relies on `serde_json::Value::as_array`: the elements of a JSON
/// array, `None` for every other document.
#[verifier::external_body]
pub fn get_elements(v: &serde_json::Value) -> (r: Option<Vec<serde_json::Value>>)
    ensures
        match r {
            Some(a) => elements(*v) == Some(a@),
            None => elements(*v) is None,
        },
{
    v.as_array().cloned()
}

/// Relies on `serde_json::Value::is_null`.
#[verifier::external_body]
pub fn json_is_null(v: &serde_json::Value) -> (r: bool)
    ensures
        r == is_json_null(*v),
{
    v.is_null()
}

/// Relies on `chrono::DateTime::parse_from_rfc3339`: accepts a text
/// exactly when it is an RFC 3339 timestamp.
#[verifier::external_body]
pub fn is_rfc3339(s: &str) -> (r: bool)
    ensures
        r == rfc3339(s@),
{
    chrono::DateTime::parse_from_rfc3339(s).is_ok()
}

/// Relies on `str::chars`: the characters of a text, in order.
#[verifier::external_body]
pub fn chars_of(s: &str) -> (r: Vec<char>)
    ensures
        r@ == s@,
{
    s.chars().collect()
}

/// Relies on `String::from_iter` over characters: the text whose
/// characters are exactly the given ones, in order.
#[verifier::external_body]
pub fn string_from_chars(v: &Vec<char>) -> (r: String)
    ensures
        r@ == v@,
{
    v.iter().collect()
}

} // verus!
