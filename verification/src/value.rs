//! From fetched text to entries of the secret: a value taken as it is, a
//! string found under a dotted path of a JSON document, or every member of a
//! JSON object.

use vstd::prelude::*;
use vstd::string::StrSliceExecFns;
use vstd::utf8::encode_utf8;
use crate::crd::SecretData;
use crate::json::{
    dot_get_string, json_as_string, json_members, json_object_members, json_string, json_text,
    json_to_text, member_pair, parse_json, parsed_json, string_at_path,
};
use crate::sorted_map::{pairs_map, SecretMap};

verus! {

/// Why a fetched text yields no value.
#[derive(Clone, Copy, Debug, PartialEq, Eq, Structural)]
pub enum ValueError {
    /// The text is not JSON.
    NotJson,
    /// The document is not a JSON object.
    NotAnObject,
    /// A dotted path cannot be followed through the document.
    BadPath,
    /// Nothing is there under the name or path asked for.
    NotFound,
}

/// The views of a result that holds a string.
pub open spec fn text_result(r: Result<String, ValueError>) -> Result<Seq<char>, ValueError> {
    match r {
        Ok(s) => Ok(s@),
        Err(e) => Err(e),
    }
}

/// The string that a lookup by path has found; the empty string where it has
/// found nothing, no string, or could not follow the path.
pub open spec fn found_or_empty(found: Result<Option<Seq<char>>, ()>) -> Seq<char> {
    match found {
        Ok(Some(s)) => s,
        _ => Seq::empty(),
    }
}

/// The string under `path` in the JSON text `text`; the empty string where
/// the document has none there; an error where `text` is not JSON.
pub open spec fn nested_value(text: Seq<char>, path: Seq<char>) -> Result<Seq<char>, ValueError> {
    match parsed_json(text) {
        None => Err(ValueError::NotJson),
        Some(doc) => Ok(found_or_empty(string_at_path(doc, path))),
    }
}

/// The string under the dotted path `path` in the JSON text `json_string`.
/// A path that leads nowhere, or to something that is no string, gives the
/// empty string.
pub fn get_json_string_nested_value(json_string: &str, path: &str) -> (r: Result<String, ValueError>)
    ensures
        text_result(r) == nested_value(json_string@, path@),
{
    match parse_json(json_string) {
        Err(_) => Err(ValueError::NotJson),
        Ok(doc) => match dot_get_string(&doc, path) {
            Ok(Some(s)) => Ok(s),
            Ok(None) => Ok(String::new()),
            Err(_) => Ok(String::new()),
        },
    }
}

/// The entry that one declaration makes of a fetched value, given what was
/// found under its path:
/// - without a key, none;
/// - not marked as JSON, the value as it is;
/// - marked as JSON, with a path, the string found there unless it is empty
///   or the value is not JSON;
/// - marked as JSON, without a path, none.
pub open spec fn field_entry(
    field: SecretData,
    value: Seq<char>,
    extracted: Result<Seq<char>, ValueError>,
) -> Map<Seq<char>, Seq<u8>> {
    match field.key {
        None => Map::empty(),
        Some(key) => if field.is_json_string == Some(true) {
            match (field.remote_path, extracted) {
                (Some(_), Ok(found)) => if found.len() > 0 {
                    Map::empty().insert(key@, encode_utf8(found))
                } else {
                    Map::empty()
                },
                _ => Map::empty(),
            }
        } else {
            Map::empty().insert(key@, encode_utf8(value))
        },
    }
}

/// The path under which a declaration looks into a fetched JSON value.
pub open spec fn field_path(field: SecretData) -> Seq<char> {
    match field.remote_path {
        Some(p) => p@,
        None => Seq::empty(),
    }
}

/// The entry that one declaration makes of a fetched value.
pub open spec fn field_map(field: SecretData, value: Seq<char>) -> Map<Seq<char>, Seq<u8>> {
    field_entry(field, value, nested_value(value, field_path(field)))
}

/// The entry that `rsecret_data` makes of the fetched `value_string`, where
/// `extracted` is what was found under its path.
pub fn secret_data_from_extracted(
    rsecret_data: &SecretData,
    value_string: &str,
    extracted: Result<String, ValueError>,
) -> (r: SecretMap)
    ensures
        r@ == field_entry(*rsecret_data, value_string@, text_result(extracted)),
{
    let mut secrets = SecretMap::new();
    match &rsecret_data.key {
        None => {},
        Some(key) => {
            let is_json = match rsecret_data.is_json_string {
                Some(b) => b,
                None => false,
            };
            if is_json {
                match (&rsecret_data.remote_path, extracted) {
                    (Some(_), Ok(found)) => {
                        if !found.as_str().is_empty() {
                            secrets.insert(key.clone(), found.as_str().as_bytes_vec());
                        }
                    },
                    _ => {},
                }
            } else {
                secrets.insert(key.clone(), value_string.as_bytes_vec());
            }
        },
    }
    secrets
}

/// The entry that `rsecret_data` makes of the fetched `value_string`.
pub fn rsecret_data_to_secret_data(rsecret_data: &SecretData, value_string: &str) -> (r: SecretMap)
    ensures
        r@ == field_map(*rsecret_data, value_string@),
{
    let is_json = match rsecret_data.is_json_string {
        Some(b) => b,
        None => false,
    };
    let extracted = match &rsecret_data.remote_path {
        Some(path) => if is_json && rsecret_data.key.is_some() {
            get_json_string_nested_value(value_string, path.as_str())
        } else {
            Err(ValueError::NotJson)
        },
        None => Err(ValueError::NotJson),
    };
    secret_data_from_extracted(rsecret_data, value_string, extracted)
}

/// A name beside the text of its value.
#[derive(Clone, Debug)]
pub struct NamedValue {
    pub name: String,
    pub value: String,
}

/// A named value as an entry of a secret: the name beside the bytes of the text.
pub open spec fn named_value_pair(v: NamedValue) -> (Seq<char>, Seq<u8>) {
    (v.name@, encode_utf8(v.value@))
}

/// The entries that a list of named values makes; of two with one name the
/// later stays.
pub open spec fn named_values_map(values: Seq<NamedValue>) -> Map<Seq<char>, Seq<u8>> {
    pairs_map(values.map_values(|v: NamedValue| named_value_pair(v)))
}

/// The secret map of a list of named values; of two with one name the later
/// stays.
pub fn secret_data_from_named_values(values: &Vec<NamedValue>) -> (r: SecretMap)
    ensures
        r@ == named_values_map(values@),
{
    let mut secrets = SecretMap::new();
    let ghost pairs = values@.map_values(|v: NamedValue| named_value_pair(v));
    let mut i: usize = 0;
    assert(pairs.take(0) =~= Seq::empty());
    while i < values.len()
        invariant
            i <= values@.len(),
            pairs == values@.map_values(|v: NamedValue| named_value_pair(v)),
            secrets@ == pairs_map(pairs.take(i as int)),
        decreases values@.len() - i,
    {
        secrets.insert(values[i].name.clone(), values[i].value.as_str().as_bytes_vec());
        proof {
            assert(pairs.take(i + 1).drop_last() =~= pairs.take(i as int));
            assert(pairs.take(i + 1).last() == named_value_pair(values@[i as int]));
        }
        i = i + 1;
    }
    assert(pairs.take(i as int) =~= pairs);
    secrets
}

/// What a member of a JSON object is worth: the string itself where the
/// member is a string, else the compact JSON text of the member.
pub open spec fn member_text(member: Seq<char>) -> Seq<char> {
    match json_string(member) {
        Some(s) => s,
        None => member,
    }
}

/// The entry that a member of a JSON object makes.
pub open spec fn member_entry(m: (Seq<char>, Seq<char>)) -> (Seq<char>, Seq<u8>) {
    (m.0, encode_utf8(member_text(m.1)))
}

/// The entries that the members of the JSON object with compact text `doc`
/// make, or the error where the document is no object.
pub open spec fn document_entries(doc: Seq<char>) -> Result<Map<Seq<char>, Seq<u8>>, ValueError> {
    match json_members(doc) {
        None => Err(ValueError::NotAnObject),
        Some(members) => Ok(
            pairs_map(members.map_values(|m: (Seq<char>, Seq<char>)| member_entry(m))),
        ),
    }
}

/// The entries that the members of the JSON object in `text` make, or the
/// error where `text` is not JSON or holds no object.
pub open spec fn expanded(text: Seq<char>) -> Result<Map<Seq<char>, Seq<u8>>, ValueError> {
    match parsed_json(text) {
        None => Err(ValueError::NotJson),
        Some(doc) => document_entries(doc),
    }
}

/// The views of a result that holds a secret map.
pub open spec fn map_result(r: Result<SecretMap, ValueError>) -> Result<
    Map<Seq<char>, Seq<u8>>,
    ValueError,
> {
    match r {
        Ok(m) => Ok(m@),
        Err(e) => Err(e),
    }
}

/// Every member of the object that `doc` is, as an entry of a secret.
pub(crate) fn document_as_secret_data(doc: &serde_json::Value) -> (r: Result<SecretMap, ValueError>)
    ensures
        map_result(r) == document_entries(json_text(*doc)),
{
    match json_object_members(doc) {
        None => Err(ValueError::NotAnObject),
        Some(members) => {
            let ghost named = members@.map_values(|m: (String, serde_json::Value)| member_pair(m));
            let ghost pairs = named.map_values(|m: (Seq<char>, Seq<char>)| member_entry(m));
            let mut values: Vec<NamedValue> = Vec::new();
            let mut i: usize = 0;
            while i < members.len()
                invariant
                    i <= members@.len(),
                    named == members@.map_values(|m: (String, serde_json::Value)| member_pair(m)),
                    pairs == named.map_values(|m: (Seq<char>, Seq<char>)| member_entry(m)),
                    values@.map_values(|v: NamedValue| named_value_pair(v)) == pairs.take(i as int),
                decreases members@.len() - i,
            {
                let value = match json_as_string(&members[i].1) {
                    Some(s) => s,
                    None => json_to_text(&members[i].1),
                };
                let ghost before = values@.map_values(|v: NamedValue| named_value_pair(v));
                let named_value = NamedValue { name: members[i].0.clone(), value };
                assert(named_value_pair(named_value) == pairs[i as int]);
                values.push(named_value);
                assert(values@.map_values(|v: NamedValue| named_value_pair(v)) =~= before.push(
                    pairs[i as int],
                ));
                assert(pairs.take(i + 1) =~= pairs.take(i as int).push(pairs[i as int]));
                i = i + 1;
            }
            assert(pairs.take(i as int) =~= pairs);
            Ok(secret_data_from_named_values(&values))
        },
    }
}

/// Every member of the JSON object in `json_string` as an entry of a secret:
/// the member's name beside the string that it is, or beside its compact JSON
/// text where it is no string.
pub fn get_json_string_as_secret_data(json_string: &str) -> (r: Result<SecretMap, ValueError>)
    ensures
        map_result(r) == expanded(json_string@),
{
    match parse_json(json_string) {
        Err(_) => Err(ValueError::NotJson),
        Ok(doc) => document_as_secret_data(&doc),
    }
}

/// The entries of `backend_data` beneath those of `secrets`: where both have
/// a key, the entry of `secrets` stays.
pub fn merge_secret_data(backend_data: SecretMap, secrets: SecretMap) -> (r: SecretMap)
    ensures
        r@ == backend_data@.union_prefer_right(secrets@),
{
    let mut merged = secrets;
    merged.merge_under(backend_data);
    merged
}

} // verus!
