//! The key/value vault: each declaration names a secret, and the lookup
//! brings back the body of the vault's response, a JSON document that holds
//! the value under `data.data.value`.

use vstd::prelude::*;
use vstd::string::StrSliceExecFns;
use vstd::string::StringExecFns;
use crate::backend::{
    earlier_wins, lookups_of, plan_lookups, resolve_each, Fetched, Lookup, LookupView, RemoteValue,
};
use crate::crd::{copy_secret_data, Backend, BackendType, SecretData};
use crate::json::{dot_get_value, json_to_text, parse_json, parsed_json, value_at_path};
use crate::plugins::aws_common::{get_setting, setting_or_default, ConfigError};
use crate::sorted_map::SecretMap;
use crate::value::{field_map, rsecret_data_to_secret_data, text_result, ValueError};

verus! {

/// Where a response of the vault holds the value.
pub const VAULT_VALUE_PATH: &'static str = "data.data.value";

/// Where a local vault listens.
pub const LOCAL_VAULT_ADDR: &'static str = "http://localhost:8200";

/// The token of a local vault.
pub const LOCAL_VAULT_TOKEN: &'static str = "vault-plaintext-root-token";

/// Whether a text ends with a slash.
pub open spec fn ends_with_slash(s: Seq<char>) -> bool {
    s.len() > 0 && s.last() == '/'
}

/// The address under which a vault at `addr` keeps its secrets.
pub open spec fn secret_endpoint(addr: Seq<char>) -> Seq<char> {
    if ends_with_slash(addr) {
        addr + "v1/secret/data/"@
    } else {
        addr + "/v1/secret/data/"@
    }
}

/// The views of a result that holds a setting.
pub open spec fn setting_result(r: Result<String, ConfigError>) -> Result<Seq<char>, ConfigError> {
    match r {
        Ok(s) => Ok(s@),
        Err(e) => Err(e),
    }
}

/// The address under which the vault keeps its secrets, where `vault_addr`
/// is the address of the vault as the environment gives it. In a test
/// environment a vault without an address is the local one.
pub fn get_vault_secret_endpoint(test_env: bool, vault_addr: Option<String>) -> (r: Result<
    String,
    ConfigError,
>)
    ensures
        setting_result(r) == match setting_or_default(test_env, vault_addr, LOCAL_VAULT_ADDR@) {
            Ok(addr) => Ok::<Seq<char>, ConfigError>(secret_endpoint(addr)),
            Err(e) => Err::<Seq<char>, ConfigError>(e),
        },
{
    match get_setting(test_env, vault_addr, LOCAL_VAULT_ADDR) {
        Err(e) => Err(e),
        Ok(url) => {
            let n = url.as_str().unicode_len();
            if n > 0 && url.as_str().get_char(n - 1) == '/' {
                Ok(url.concat("v1/secret/data/"))
            } else {
                Ok(url.concat("/v1/secret/data/"))
            }
        },
    }
}

/// The token to show to the vault, as the environment gives it. In a test
/// environment a vault without a token takes the local one.
pub fn get_vault_token(test_env: bool, vault_token: Option<String>) -> (r: Result<String, ConfigError>)
    ensures
        setting_result(r) == setting_or_default(test_env, vault_token, LOCAL_VAULT_TOKEN@),
{
    get_setting(test_env, vault_token, LOCAL_VAULT_TOKEN)
}

/// The address of the secret `key` in a vault that keeps its secrets under
/// `endpoint`.
pub fn get_vault_secret_url(endpoint: String, key: &str) -> (r: String)
    ensures
        r@ == endpoint@ + key@,
{
    endpoint.concat(key)
}

/// The value in the body of a response of the vault, as compact JSON text:
/// `null` where the body holds none; an error where the body is not JSON or
/// the path to the value cannot be followed.
pub open spec fn vault_value(body: Seq<char>) -> Result<Seq<char>, ValueError> {
    match parsed_json(body) {
        None => Err(ValueError::NotJson),
        Some(doc) => match value_at_path(doc, VAULT_VALUE_PATH@) {
            Err(_) => Err(ValueError::BadPath),
            Ok(None) => Ok("null"@),
            Ok(Some(value)) => Ok(value),
        },
    }
}

/// The value in the body of a response of the vault, as compact JSON text.
pub fn get_vault_value(response_body: &str) -> (r: Result<String, ValueError>)
    ensures
        text_result(r) == vault_value(response_body@),
{
    match parse_json(response_body) {
        Err(_) => Err(ValueError::NotJson),
        Ok(doc) => match dot_get_value(&doc, VAULT_VALUE_PATH) {
            Err(_) => Err(ValueError::BadPath),
            Ok(None) => Ok(String::from_str("null")),
            Ok(Some(value)) => Ok(json_to_text(&value)),
        },
    }
}

/// The entry that a declaration makes of a response of the vault; none where
/// the lookup failed or the response holds no value.
pub open spec fn vault_part(field: SecretData, fetched: Fetched) -> Map<Seq<char>, Seq<u8>> {
    match fetched {
        Fetched::Text(body) => match vault_value(body@) {
            Ok(value) => field_map(field, value),
            Err(_) => Map::empty(),
        },
        _ => Map::empty(),
    }
}

/// The entry that `field` makes of a response of the vault.
pub fn vault_entries(field: &SecretData, fetched: &Fetched) -> (r: SecretMap)
    ensures
        r@ == vault_part(*field, *fetched),
{
    match fetched {
        Fetched::Text(body) => match get_vault_value(body.as_str()) {
            Ok(value) => rsecret_data_to_secret_data(field, value.as_str()),
            Err(_) => SecretMap::new(),
        },
        _ => SecretMap::new(),
    }
}

/// The resolver of the vault.
#[derive(Clone, Debug)]
pub struct Vault {
    data: Vec<SecretData>,
}

impl RemoteValue for Vault {
    closed spec fn declared(&self) -> Seq<SecretData> {
        self.data@
    }

    open spec fn planned(&self) -> Seq<LookupView> {
        lookups_of(BackendType::Vault, self.declared(), None)
    }

    open spec fn resolved(&self, fetched: Seq<Fetched>) -> Map<Seq<char>, Seq<u8>> {
        earlier_wins(self.declared(), fetched, |d: SecretData, f: Fetched| vault_part(d, f))
    }

    fn from_backend(backend: &Backend) -> (r: Vault) {
        Vault { data: copy_secret_data(&backend.data) }
    }

    fn lookups(&self) -> (r: Vec<Lookup>) {
        plan_lookups(BackendType::Vault, &self.data, &None)
    }

    fn get_value(&self, fetched: &Vec<Fetched>) -> (r: SecretMap) {
        resolve_each(
            &self.data,
            fetched,
            vault_entries,
            Ghost(|d: SecretData, f: Fetched| vault_part(d, f)),
        )
    }
}

/// The entries that the declarations of a vault backend make of what was
/// fetched for them.
pub fn get_vault_secret_data(backend: &Backend, fetched: &Vec<Fetched>) -> (r: SecretMap)
    ensures
        r@ == earlier_wins(backend.data@, fetched@, |d: SecretData, f: Fetched| vault_part(d, f)),
{
    Vault::from_backend(backend).get_value(fetched)
}

} // verus!
