//! JSON text, read and written by `serde_json`.
//!
//! The tree of `serde_json` is carried through as it is; [`parse`] and
//! [`render`] turn it into the library's [`Json`] and back. What the text of a
//! document looks like is `serde_json`'s business: the contracts here only give
//! its results a name.

use crate::json::{Json, JsonValue};
use vstd::prelude::*;

verus! {

/// `serde_json::Value`: the tree that `serde_json` reads text into and writes
/// text from.
#[verifier::external_type_specification]
#[verifier::external_body]
pub struct ExValue(serde_json::Value);

/// The document that a `serde_json::Value` holds: its numbers, texts, items and
/// members, the members in the order in which the value keeps them.
pub uninterp spec fn value_json(v: serde_json::Value) -> JsonValue;

/// The document that `serde_json::from_str` reads from `text` into a
/// `serde_json::Value`, or `None` where it reports an error.
pub uninterp spec fn parsed_json(text: Seq<char>) -> Option<JsonValue>;

/// The compact text that `serde_json::Value::to_string` writes for a value
/// that holds the document.
pub uninterp spec fn json_text(j: JsonValue) -> Seq<char>;

/// Calls `serde_json::from_str` for a `Value`. The contract claims that the
/// outcome depends on the text alone: an error is `None`, and the value that
/// was read holds the document named `parsed_json(text)`.
#[verifier::external_body]
fn read_value(text: &str) -> (r: Option<serde_json::Value>)
    ensures
        match r {
            Some(v) => parsed_json(text@) == Some(value_json(v)),
            None => parsed_json(text@) is None,
        },
{
    serde_json::from_str::<serde_json::Value>(text).ok()
}

/// Calls `Value::to_string`, which writes the value in compact form. The
/// contract claims that the text depends only on the document that the value
/// holds.
#[verifier::external_body]
fn write_value(v: &serde_json::Value) -> (s: String)
    ensures
        s@ == json_text(value_json(*v)),
{
    v.to_string()
}

/// Rebuilds a `serde_json::Value` as a [`Json`], variant by variant: a number
/// that `Number::as_i128` gives becomes an integer, any other number its
/// `to_string`; the members of a `Map` are taken in the order of `Map::iter`.
/// The contract gives the result the name `value_json`.
#[verifier::external_body]
fn json_of_value(v: &serde_json::Value) -> (j: Json)
    ensures
        j@ == value_json(*v),
{
    match v {
        serde_json::Value::Null => Json::Null,
        serde_json::Value::Bool(b) => Json::Bool(*b),
        serde_json::Value::Number(n) => match n.as_i128() {
            Some(i) => Json::Integer(i),
            None => Json::Real(n.to_string()),
        },
        serde_json::Value::String(s) => Json::Text(s.clone()),
        serde_json::Value::Array(a) => Json::Array(a.iter().map(json_of_value).collect()),
        serde_json::Value::Object(o) => Json::Object(
            o.iter().map(|(k, v)| (k.clone(), json_of_value(v))).collect(),
        ),
    }
}

/// Builds the `serde_json::Value` of a [`Json`], variant by variant, with
/// `Number::from_i128` for an integer and a `Map` collected from the members in
/// order. The contract claims that the value holds the same document again. It
/// rests on `serde_json` being built with `preserve_order`, so that a `Map`
/// keeps its members as they were added, and on the document being
/// representable: `from_i128` then succeeds and no key is added twice.
#[verifier::external_body]
fn value_of_json(j: &Json) -> (v: serde_json::Value)
    requires
        j@.representable(),
    ensures
        value_json(v) == j@,
{
    match j {
        Json::Null => serde_json::Value::Null,
        Json::Bool(b) => serde_json::Value::Bool(*b),
        Json::Integer(i) => serde_json::Value::Number(serde_json::Number::from_i128(*i).unwrap()),
        Json::Real(t) => serde_json::Value::Number(t.parse().unwrap()),
        Json::Text(s) => serde_json::Value::String(s.clone()),
        Json::Array(a) => serde_json::Value::Array(a.iter().map(value_of_json).collect()),
        Json::Object(o) => serde_json::Value::Object(
            o.iter().map(|(k, v)| (k.clone(), value_of_json(v))).collect(),
        ),
    }
}

/// Reads a JSON text. `None` where the text is not JSON.
pub fn parse(text: &str) -> (r: Option<Json>)
    ensures
        match r {
            Some(j) => parsed_json(text@) == Some(j@),
            None => parsed_json(text@) is None,
        },
{
    match read_value(text) {
        Some(v) => Some(json_of_value(&v)),
        None => None,
    }
}

/// Writes a document as compact JSON text.
pub fn render(j: &Json) -> (s: String)
    requires
        j@.representable(),
    ensures
        s@ == json_text(j@),
{
    let v = value_of_json(j);
    write_value(&v)
}

/// Writes a document as compact JSON text, if it can be written out.
pub fn render_checked(j: &Json) -> (r: Option<String>)
    ensures
        match r {
            Some(s) => j@.representable() && s@ == json_text(j@),
            None => !j@.representable(),
        },
{
    if j.is_representable() {
        Some(render(j))
    } else {
        None
    }
}

/// Whether the text that is written for a document is read as that document
/// again. This is put to the test: the document is written, the text is read,
/// and what was read is held against the document.
pub fn reads_back(j: &Json) -> (r: bool)
    ensures
        r == (j@.representable() && parsed_json(json_text(j@)) == Some(j@)),
{
    match render_checked(j) {
        Some(text) => match parse(text.as_str()) {
            Some(back) => back.same(j),
            None => false,
        },
        None => false,
    }
}

} // verus!
