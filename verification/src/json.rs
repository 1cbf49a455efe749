//! JSON documents, read through `serde_json` and `json_dotpath`. Nothing in
//! this file is proved: each item states what the outside function does, and
//! the rest of the library is proved from these statements.
//!
//! A document is opaque here. What it holds is named by its compact JSON
//! text, and what the outside functions find in a document is named as a
//! function of that text.

use vstd::prelude::*;
use json_dotpath::DotPaths;

verus! {

/// A parsed JSON document.
#[verifier::external_type_specification]
#[verifier::external_body]
pub struct ExJsonValue(serde_json::Value);

/// Why a text is no JSON document.
#[verifier::external_type_specification]
#[verifier::external_body]
pub struct ExJsonSyntaxError(serde_json::Error);

/// Why a dotted path could not be followed.
#[verifier::external_type_specification]
#[verifier::external_body]
pub struct ExDotPathError(json_dotpath::Error);

/// What a document holds: its compact JSON text.
pub uninterp spec fn json_text(doc: serde_json::Value) -> Seq<char>;

/// The compact text of the document that `text` parses to, or `None` where
/// `text` is not JSON.
pub uninterp spec fn parsed_json(text: Seq<char>) -> Option<Seq<char>>;

/// The string that the document with compact text `doc` has under the dotted
/// path `path`: `Ok(None)` where nothing or `null` is there, `Err` where the
/// path cannot be followed or what is there is no string.
pub uninterp spec fn string_at_path(doc: Seq<char>, path: Seq<char>) -> Result<Option<Seq<char>>, ()>;

/// The compact text of what the document with compact text `doc` has under
/// the dotted path `path`: `Ok(None)` where nothing or `null` is there, `Err`
/// where the path cannot be followed.
pub uninterp spec fn value_at_path(doc: Seq<char>, path: Seq<char>) -> Result<Option<Seq<char>>, ()>;

/// The string that the document with compact text `doc` is, or `None` where
/// it is anything but a string.
pub uninterp spec fn json_string(doc: Seq<char>) -> Option<Seq<char>>;

/// The members of the object that the document with compact text `doc` is,
/// each as its name and the compact text of its value, or `None` where the
/// document is no object.
pub uninterp spec fn json_members(doc: Seq<char>) -> Option<Seq<(Seq<char>, Seq<char>)>>;

/// A member of an object, as plain values.
pub open spec fn member_pair(m: (String, serde_json::Value)) -> (Seq<char>, Seq<char>) {
    (m.0@, json_text(m.1))
}

/// `serde_json::from_str` at `serde_json::Value`: the document that `text`
/// holds, or the error where `text` is not JSON. Which of the two, and which
/// document, depends on `text` alone.
#[verifier::external_body]
pub(crate) fn parse_json(text: &str) -> (r: Result<serde_json::Value, serde_json::Error>)
    ensures
        match r {
            Ok(doc) => parsed_json(text@) == Some(json_text(doc)),
            Err(_) => parsed_json(text@) is None,
        },
{
    serde_json::from_str::<serde_json::Value>(text)
}

/// `DotPaths::dot_get` at `String`, on a `serde_json::Value`. The result
/// depends on the document and the path alone.
#[verifier::external_body]
pub(crate) fn dot_get_string(doc: &serde_json::Value, path: &str) -> (r: Result<
    Option<String>,
    json_dotpath::Error,
>)
    ensures
        match r {
            Ok(Some(s)) => string_at_path(json_text(*doc), path@) == Ok::<Option<Seq<char>>, ()>(
                Some(s@),
            ),
            Ok(None) => string_at_path(json_text(*doc), path@) == Ok::<Option<Seq<char>>, ()>(None),
            Err(_) => string_at_path(json_text(*doc), path@) is Err,
        },
{
    doc.dot_get::<String>(path)
}

/// `DotPaths::dot_get` at `serde_json::Value`, on a `serde_json::Value`. The
/// result depends on the document and the path alone.
#[verifier::external_body]
pub(crate) fn dot_get_value(doc: &serde_json::Value, path: &str) -> (r: Result<
    Option<serde_json::Value>,
    json_dotpath::Error,
>)
    ensures
        match r {
            Ok(Some(v)) => value_at_path(json_text(*doc), path@) == Ok::<Option<Seq<char>>, ()>(
                Some(json_text(v)),
            ),
            Ok(None) => value_at_path(json_text(*doc), path@) == Ok::<Option<Seq<char>>, ()>(None),
            Err(_) => value_at_path(json_text(*doc), path@) is Err,
        },
{
    doc.dot_get::<serde_json::Value>(path)
}

/// `to_string` of a `serde_json::Value`: its compact JSON text.
#[verifier::external_body]
pub(crate) fn json_to_text(doc: &serde_json::Value) -> (r: String)
    ensures
        r@ == json_text(*doc),
{
    doc.to_string()
}

/// `serde_json::Value::as_str`: the string that the document is, if it is one.
#[verifier::external_body]
pub(crate) fn json_as_string(doc: &serde_json::Value) -> (r: Option<String>)
    ensures
        match r {
            Some(s) => json_string(json_text(*doc)) == Some(s@),
            None => json_string(json_text(*doc)) is None,
        },
{
    doc.as_str().map(str::to_owned)
}

/// `serde_json::Value::as_object`: the members of the object that the
/// document is, in the order in which the object holds them, if it is one.
#[verifier::external_body]
pub(crate) fn json_object_members(doc: &serde_json::Value) -> (r: Option<
    Vec<(String, serde_json::Value)>,
>)
    ensures
        match r {
            Some(members) => json_members(json_text(*doc)) == Some(
                members@.map_values(|m: (String, serde_json::Value)| member_pair(m)),
            ),
            None => json_members(json_text(*doc)) is None,
        },
{
    doc.as_object().map(|object| object.iter().map(|(k, v)| (k.clone(), v.clone())).collect())
}

} // verus!
