//! Stack outputs of an infrastructure service that exports a stack as one
//! JSON document: each declaration names a stack, and the lookup brings back
//! the body of the export. A declaration with a key and a path takes what
//! the outputs hold under that path; any other takes every output.

use vstd::prelude::*;
use vstd::string::StringExecFns;
use crate::backend::{
    earlier_wins, lookups_of, plan_lookups, resolve_each, Fetched, Lookup, LookupView, RemoteValue,
};
use crate::crd::{copy_opt_string, copy_secret_data, Backend, BackendType, SecretData};
use crate::json::{dot_get_value, json_text, json_to_text, parse_json, parsed_json, value_at_path};
use crate::plugins::aws_cfn::{takes_one_output, text_or_empty};
use crate::plugins::aws_common::ConfigError;
use crate::sorted_map::SecretMap;
use crate::value::{
    document_as_secret_data, document_entries, field_map, map_result, rsecret_data_to_secret_data,
    text_result, ValueError,
};

verus! {

/// Where the export of a stack holds its outputs.
pub const PULUMI_OUTPUTS_PATH: &'static str = "deployment.resources.0.outputs";

/// Where the service exports stacks unless told otherwise.
pub const PULUMI_ENDPOINT: &'static str = "https://api.pulumi.com/api/stacks";

/// Where the service exports stacks: where it was told to, else at its usual
/// place.
pub fn get_pulumi_endpoint(pulumi_endpoint: Option<String>) -> (r: String)
    ensures
        r@ == match pulumi_endpoint {
            Some(endpoint) => endpoint@,
            None => PULUMI_ENDPOINT@,
        },
{
    match pulumi_endpoint {
        Some(endpoint) => endpoint,
        None => String::from_str(PULUMI_ENDPOINT),
    }
}

/// The access token to use: the one that the resource declares, else the
/// one that the environment gives; an error where there is neither.
pub fn get_pulumi_token(pulumi_token: Option<String>, access_token: Option<String>) -> (r: Result<
    String,
    ConfigError,
>)
    ensures
        match (pulumi_token, access_token) {
            (Some(token), _) => r == Ok::<String, ConfigError>(token),
            (None, Some(token)) => r == Ok::<String, ConfigError>(token),
            (None, None) => r == Err::<String, ConfigError>(ConfigError::NotSet),
        },
{
    match pulumi_token {
        Some(token) => Ok(token),
        None => match access_token {
            Some(token) => Ok(token),
            None => Err(ConfigError::NotSet),
        },
    }
}

/// The address of the export of the stack `path`.
pub fn get_pulumi_export_url(endpoint: String, path: &str) -> (r: String)
    ensures
        r@ == endpoint@ + "/"@ + path@ + "/export"@,
{
    endpoint.concat("/").concat(path).concat("/export")
}

/// The authorization to show to the service for an access token.
pub fn get_pulumi_authorization(token: &str) -> (r: String)
    ensures
        r@ == "token "@ + token@,
{
    String::from_str("token ").concat(token)
}

/// The outputs in the export of a stack, as compact JSON text; an error
/// where the export is not JSON or holds no outputs.
pub open spec fn pulumi_outputs(body: Seq<char>) -> Result<Seq<char>, ValueError> {
    match parsed_json(body) {
        None => Err(ValueError::NotJson),
        Some(doc) => match value_at_path(doc, PULUMI_OUTPUTS_PATH@) {
            Err(_) => Err(ValueError::BadPath),
            Ok(None) => Err(ValueError::NotFound),
            Ok(Some(outputs)) => Ok(outputs),
        },
    }
}

/// What the outputs in the export of a stack hold under `path`, as compact
/// JSON text; an error where there are no outputs or nothing is under `path`.
pub open spec fn pulumi_output(body: Seq<char>, path: Seq<char>) -> Result<Seq<char>, ValueError> {
    match pulumi_outputs(body) {
        Err(e) => Err(e),
        Ok(outputs) => match value_at_path(outputs, path) {
            Err(_) => Err(ValueError::BadPath),
            Ok(None) => Err(ValueError::NotFound),
            Ok(Some(value)) => Ok(value),
        },
    }
}

/// The entries that the outputs in the export of a stack make, one for each
/// output; an error where there are no outputs or they are no JSON object.
pub open spec fn pulumi_outputs_map(body: Seq<char>) -> Result<Map<Seq<char>, Seq<u8>>, ValueError> {
    match pulumi_outputs(body) {
        Err(e) => Err(e),
        Ok(outputs) => document_entries(outputs),
    }
}

/// The outputs in the export of a stack.
fn outputs_document(response_body: &str) -> (r: Result<serde_json::Value, ValueError>)
    ensures
        match r {
            Ok(outputs) => pulumi_outputs(response_body@) == Ok::<Seq<char>, ValueError>(
                json_text(outputs),
            ),
            Err(e) => pulumi_outputs(response_body@) == Err::<Seq<char>, ValueError>(e),
        },
{
    match parse_json(response_body) {
        Err(_) => Err(ValueError::NotJson),
        Ok(doc) => match dot_get_value(&doc, PULUMI_OUTPUTS_PATH) {
            Err(_) => Err(ValueError::BadPath),
            Ok(None) => Err(ValueError::NotFound),
            Ok(Some(outputs)) => Ok(outputs),
        },
    }
}

/// The outputs in the export of a stack, as compact JSON text.
pub fn get_pulumi_outputs(response_body: &str) -> (r: Result<String, ValueError>)
    ensures
        text_result(r) == pulumi_outputs(response_body@),
{
    match outputs_document(response_body) {
        Err(e) => Err(e),
        Ok(outputs) => Ok(json_to_text(&outputs)),
    }
}

/// What the outputs in the export of a stack hold under `remote_path`, as
/// compact JSON text.
pub fn get_pulumi_output(response_body: &str, remote_path: &str) -> (r: Result<String, ValueError>)
    ensures
        text_result(r) == pulumi_output(response_body@, remote_path@),
{
    match outputs_document(response_body) {
        Err(e) => Err(e),
        Ok(outputs) => match dot_get_value(&outputs, remote_path) {
            Err(_) => Err(ValueError::BadPath),
            Ok(None) => Err(ValueError::NotFound),
            Ok(Some(value)) => Ok(json_to_text(&value)),
        },
    }
}

/// Every output in the export of a stack as an entry of a secret: the name
/// of the output beside the string that it is, or beside its compact JSON
/// text where it is no string.
pub fn get_pulumi_outputs_as_secret_data(response_body: &str) -> (r: Result<SecretMap, ValueError>)
    ensures
        map_result(r) == pulumi_outputs_map(response_body@),
{
    match outputs_document(response_body) {
        Err(e) => Err(e),
        Ok(outputs) => document_as_secret_data(&outputs),
    }
}

/// The entries that a declaration makes of the export of its stack; none
/// where the lookup failed or the export lacks what the declaration asks for.
pub open spec fn pulumi_part(field: SecretData, fetched: Fetched) -> Map<Seq<char>, Seq<u8>> {
    match fetched {
        Fetched::Text(body) => if takes_one_output(field) {
            match pulumi_output(body@, text_or_empty(field.remote_path)) {
                Ok(value) => field_map(field, value),
                Err(_) => Map::empty(),
            }
        } else {
            match pulumi_outputs_map(body@) {
                Ok(entries) => entries,
                Err(_) => Map::empty(),
            }
        },
        _ => Map::empty(),
    }
}

/// The entries that `field` makes of the export of its stack.
pub fn pulumi_entries(field: &SecretData, fetched: &Fetched) -> (r: SecretMap)
    ensures
        r@ == pulumi_part(*field, *fetched),
{
    match fetched {
        Fetched::Text(body) => match &field.remote_path {
            Some(path) => if field.key.is_some() {
                match get_pulumi_output(body.as_str(), path.as_str()) {
                    Ok(value) => rsecret_data_to_secret_data(field, value.as_str()),
                    Err(_) => SecretMap::new(),
                }
            } else {
                match get_pulumi_outputs_as_secret_data(body.as_str()) {
                    Ok(entries) => entries,
                    Err(_) => SecretMap::new(),
                }
            },
            None => match get_pulumi_outputs_as_secret_data(body.as_str()) {
                Ok(entries) => entries,
                Err(_) => SecretMap::new(),
            },
        },
        _ => SecretMap::new(),
    }
}

/// The resolver of exported stack outputs.
#[derive(Clone, Debug)]
pub struct Pulumi {
    data: Vec<SecretData>,
    token: Option<String>,
}

impl Pulumi {
    /// The access token that the resolver was made with.
    pub closed spec fn access_token(&self) -> Option<String> {
        self.token
    }
}

impl RemoteValue for Pulumi {
    closed spec fn declared(&self) -> Seq<SecretData> {
        self.data@
    }

    open spec fn planned(&self) -> Seq<LookupView> {
        lookups_of(BackendType::Pulumi, self.declared(), self.access_token())
    }

    open spec fn resolved(&self, fetched: Seq<Fetched>) -> Map<Seq<char>, Seq<u8>> {
        earlier_wins(self.declared(), fetched, |d: SecretData, f: Fetched| pulumi_part(d, f))
    }

    fn from_backend(backend: &Backend) -> (r: Pulumi)
        ensures
            r.access_token() == backend.pulumi_token,
    {
        Pulumi { data: copy_secret_data(&backend.data), token: copy_opt_string(&backend.pulumi_token) }
    }

    fn lookups(&self) -> (r: Vec<Lookup>) {
        plan_lookups(BackendType::Pulumi, &self.data, &self.token)
    }

    fn get_value(&self, fetched: &Vec<Fetched>) -> (r: SecretMap) {
        resolve_each(
            &self.data,
            fetched,
            pulumi_entries,
            Ghost(|d: SecretData, f: Fetched| pulumi_part(d, f)),
        )
    }
}

/// The entries that the declarations of an exported stack backend make of
/// what was fetched for them.
pub fn get_pulumi_secret_data(backend: &Backend, fetched: &Vec<Fetched>) -> (r: SecretMap)
    ensures
        r@ == earlier_wins(backend.data@, fetched@, |d: SecretData, f: Fetched| pulumi_part(d, f)),
{
    Pulumi::from_backend(backend).get_value(fetched)
}

} // verus!
