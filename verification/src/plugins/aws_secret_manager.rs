//! The secret manager: each declaration names a secret, and the lookup
//! brings back its text.

use vstd::prelude::*;
use crate::backend::{
    earlier_wins, lookups_of, plan_lookups, resolve_each, Fetched, Lookup, LookupView, RemoteValue,
};
use crate::crd::{copy_secret_data, Backend, BackendType, SecretData};
use crate::plugins::aws_ssm::{text_entries, text_part};
use crate::sorted_map::SecretMap;

verus! {

/// The text of a secret as the secret manager answers: the empty text where
/// the secret has none.
pub fn get_secretsmanager_parameter(secret_string: Option<String>) -> (r: String)
    ensures
        r@ == match secret_string {
            Some(text) => text@,
            None => Seq::<char>::empty(),
        },
{
    match secret_string {
        Some(text) => text,
        None => String::new(),
    }
}

/// The resolver of the secret manager.
#[derive(Clone, Debug)]
pub struct SecretManager {
    data: Vec<SecretData>,
}

impl RemoteValue for SecretManager {
    closed spec fn declared(&self) -> Seq<SecretData> {
        self.data@
    }

    open spec fn planned(&self) -> Seq<LookupView> {
        lookups_of(BackendType::SecretManager, self.declared(), None)
    }

    open spec fn resolved(&self, fetched: Seq<Fetched>) -> Map<Seq<char>, Seq<u8>> {
        earlier_wins(self.declared(), fetched, |d: SecretData, f: Fetched| text_part(d, f))
    }

    fn from_backend(backend: &Backend) -> (r: SecretManager) {
        SecretManager { data: copy_secret_data(&backend.data) }
    }

    fn lookups(&self) -> (r: Vec<Lookup>) {
        plan_lookups(BackendType::SecretManager, &self.data, &None)
    }

    fn get_value(&self, fetched: &Vec<Fetched>) -> (r: SecretMap) {
        resolve_each(
            &self.data,
            fetched,
            text_entries,
            Ghost(|d: SecretData, f: Fetched| text_part(d, f)),
        )
    }
}

/// The entries that the declarations of a secret manager backend make of
/// what was fetched for them.
pub fn get_secret_manager_secret_data(backend: &Backend, fetched: &Vec<Fetched>) -> (r: SecretMap)
    ensures
        r@ == earlier_wins(backend.data@, fetched@, |d: SecretData, f: Fetched| text_part(d, f)),
{
    SecretManager::from_backend(backend).get_value(fetched)
}

} // verus!
