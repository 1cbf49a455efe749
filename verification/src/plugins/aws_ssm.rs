//! The parameter store: each declaration names a parameter, and the lookup
//! brings back its value.

use vstd::prelude::*;
use crate::backend::{
    earlier_wins, lookups_of, plan_lookups, resolve_each, Fetched, Lookup, LookupView, RemoteValue,
};
use crate::crd::{copy_secret_data, Backend, BackendType, SecretData};
use crate::sorted_map::SecretMap;
use crate::value::{field_map, rsecret_data_to_secret_data, ValueError};

verus! {

/// The entry that a declaration makes of a fetched value; none where the
/// lookup failed.
pub open spec fn text_part(field: SecretData, fetched: Fetched) -> Map<Seq<char>, Seq<u8>> {
    match fetched {
        Fetched::Text(value) => field_map(field, value@),
        _ => Map::empty(),
    }
}

/// The entry that `field` makes of a fetched value; none where the lookup
/// failed.
pub fn text_entries(field: &SecretData, fetched: &Fetched) -> (r: SecretMap)
    ensures
        r@ == text_part(*field, *fetched),
{
    match fetched {
        Fetched::Text(value) => rsecret_data_to_secret_data(field, value.as_str()),
        _ => SecretMap::new(),
    }
}

/// The value of a parameter as the parameter store answers: an error where
/// the answer holds no parameter, the empty text where the parameter has no
/// value.
pub fn get_ssm_parameter(parameter: Option<Option<String>>) -> (r: Result<String, ValueError>)
    ensures
        match parameter {
            None => r == Err::<String, ValueError>(ValueError::NotFound),
            Some(None) => r matches Ok(value) && value@ == Seq::<char>::empty(),
            Some(Some(value)) => r == Ok::<String, ValueError>(value),
        },
{
    match parameter {
        None => Err(ValueError::NotFound),
        Some(None) => Ok(String::new()),
        Some(Some(value)) => Ok(value),
    }
}

/// The resolver of the parameter store.
#[derive(Clone, Debug)]
pub struct SSM {
    data: Vec<SecretData>,
}

impl RemoteValue for SSM {
    closed spec fn declared(&self) -> Seq<SecretData> {
        self.data@
    }

    open spec fn planned(&self) -> Seq<LookupView> {
        lookups_of(BackendType::SSM, self.declared(), None)
    }

    open spec fn resolved(&self, fetched: Seq<Fetched>) -> Map<Seq<char>, Seq<u8>> {
        earlier_wins(self.declared(), fetched, |d: SecretData, f: Fetched| text_part(d, f))
    }

    fn from_backend(backend: &Backend) -> (r: SSM) {
        SSM { data: copy_secret_data(&backend.data) }
    }

    fn lookups(&self) -> (r: Vec<Lookup>) {
        plan_lookups(BackendType::SSM, &self.data, &None)
    }

    fn get_value(&self, fetched: &Vec<Fetched>) -> (r: SecretMap) {
        resolve_each(
            &self.data,
            fetched,
            text_entries,
            Ghost(|d: SecretData, f: Fetched| text_part(d, f)),
        )
    }
}

/// The entries that the declarations of a parameter store backend make of
/// what was fetched for them.
pub fn get_ssm_secret_data(backend: &Backend, fetched: &Vec<Fetched>) -> (r: SecretMap)
    ensures
        r@ == earlier_wins(backend.data@, fetched@, |d: SecretData, f: Fetched| text_part(d, f)),
{
    SSM::from_backend(backend).get_value(fetched)
}

} // verus!
