//! The plaintext backend: each declaration holds the value of its entry.

use vstd::prelude::*;
use vstd::string::StrSliceExecFns;
use vstd::utf8::encode_utf8;
use crate::backend::{Fetched, Lookup, LookupView, RemoteValue};
use crate::crd::{copy_secret_data, Backend, SecretData};
use crate::sorted_map::SecretMap;

verus! {

/// The entries that plaintext declarations make: each one with a key makes
/// the entry of that key, and of two with one key the later stays.
pub open spec fn plain_text_entries(data: Seq<SecretData>) -> Map<Seq<char>, Seq<u8>>
    decreases data.len(),
{
    if data.len() == 0 {
        Map::empty()
    } else {
        let earlier = plain_text_entries(data.drop_last());
        match data.last().key {
            Some(key) => earlier.insert(key@, encode_utf8(data.last().value@)),
            None => earlier,
        }
    }
}

/// The resolver of the plaintext backend.
#[derive(Clone, Debug)]
pub struct PlainText {
    data: Vec<SecretData>,
}

impl RemoteValue for PlainText {
    closed spec fn declared(&self) -> Seq<SecretData> {
        self.data@
    }

    open spec fn planned(&self) -> Seq<LookupView> {
        Seq::empty()
    }

    open spec fn resolved(&self, fetched: Seq<Fetched>) -> Map<Seq<char>, Seq<u8>> {
        plain_text_entries(self.declared())
    }

    fn from_backend(backend: &Backend) -> (r: PlainText) {
        PlainText { data: copy_secret_data(&backend.data) }
    }

    /// Nothing: the backend is not remote.
    fn lookups(&self) -> (r: Vec<Lookup>) {
        let r: Vec<Lookup> = Vec::new();
        assert(r@.map_values(|l: Lookup| l@) =~= Seq::empty());
        r
    }

    fn get_value(&self, fetched: &Vec<Fetched>) -> (r: SecretMap) {
        let mut secrets = SecretMap::new();
        let mut i: usize = 0;
        assert(self.data@.take(0) =~= Seq::empty());
        while i < self.data.len()
            invariant
                i <= self.data@.len(),
                secrets@ == plain_text_entries(self.data@.take(i as int)),
            decreases self.data@.len() - i,
        {
            proof {
                assert(self.data@.take(i + 1).drop_last() =~= self.data@.take(i as int));
                assert(self.data@.take(i + 1).last() == self.data@[i as int]);
            }
            match &self.data[i].key {
                Some(key) => {
                    secrets.insert(key.clone(), self.data[i].value.as_str().as_bytes_vec());
                },
                None => {},
            }
            i = i + 1;
        }
        assert(self.data@.take(i as int) =~= self.data@);
        secrets
    }
}

/// The entries that the declarations of a plaintext backend make.
pub fn get_plain_text_secret_data(backend: &Backend) -> (r: SecretMap)
    ensures
        r@ == plain_text_entries(backend.data@),
{
    PlainText::from_backend(backend).get_value(&Vec::new())
}

} // verus!
