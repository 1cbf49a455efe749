//! What the resolvers of all backends share: the lookup that a declaration
//! asks for, what a lookup brought back, and the resolver's interface.

use vstd::prelude::*;
use crate::crd::{copy_opt_string, Backend, BackendType, SecretData};
use crate::sorted_map::SecretMap;

verus! {

/// One lookup in a remote backend. Two lookups that agree in every field
/// fetch the same content.
#[derive(Clone, Debug)]
pub struct Lookup {
    pub backend: BackendType,
    /// The name of the parameter, secret, stack or application.
    pub name: String,
    pub configuration_profile_id: Option<String>,
    pub version_number: Option<i32>,
    /// An access token that overrides the configured one.
    pub token: Option<String>,
}

/// A lookup as plain values.
pub struct LookupView {
    pub backend: BackendType,
    pub name: Seq<char>,
    pub configuration_profile_id: Option<Seq<char>>,
    pub version_number: Option<i32>,
    pub token: Option<Seq<char>>,
}

/// An optional string as plain values.
pub open spec fn opt_text(s: Option<String>) -> Option<Seq<char>> {
    match s {
        Some(t) => Some(t@),
        None => None,
    }
}

impl View for Lookup {
    type V = LookupView;

    open spec fn view(&self) -> LookupView {
        LookupView {
            backend: self.backend,
            name: self.name@,
            configuration_profile_id: opt_text(self.configuration_profile_id),
            version_number: self.version_number,
            token: opt_text(self.token),
        }
    }
}

/// Whether two optional strings are the same.
pub fn same_opt_string(a: &Option<String>, b: &Option<String>) -> (r: bool)
    ensures
        r == (opt_text(*a) == opt_text(*b)),
{
    match a {
        Some(x) => match b {
            Some(y) => *x == *y,
            None => false,
        },
        None => b.is_none(),
    }
}

impl Lookup {
    /// Whether two lookups ask for the same content.
    pub fn same(&self, other: &Lookup) -> (r: bool)
        ensures
            r == (self@ == other@),
    {
        self.backend == other.backend && self.name == other.name && same_opt_string(
            &self.configuration_profile_id,
            &other.configuration_profile_id,
        ) && self.version_number == other.version_number && same_opt_string(
            &self.token,
            &other.token,
        )
    }

    /// A copy of the lookup.
    pub fn duplicate(&self) -> (r: Lookup)
        ensures
            r == *self,
    {
        Lookup {
            backend: self.backend,
            name: self.name.clone(),
            configuration_profile_id: copy_opt_string(&self.configuration_profile_id),
            version_number: self.version_number,
            token: copy_opt_string(&self.token),
        }
    }
}

/// One output of a stack.
#[derive(Clone, Debug)]
pub struct StackOutput {
    pub output_key: Option<String>,
    pub output_value: Option<String>,
}

/// What a lookup brought back.
#[derive(Clone, Debug)]
pub enum Fetched {
    /// Nothing: the lookup failed.
    Failed,
    /// A value, or the body of a response.
    Text(String),
    /// The outputs of a stack.
    Outputs(Vec<StackOutput>),
}

/// What the lookup for the declaration at `i` brought back; a lookup that
/// the list does not reach counts as failed.
pub open spec fn fetched_at(fetched: Seq<Fetched>, i: int) -> Fetched {
    if 0 <= i < fetched.len() {
        fetched[i]
    } else {
        Fetched::Failed
    }
}

/// The lookup that a declaration asks of a backend.
pub open spec fn lookup_of(backend: BackendType, field: SecretData, token: Option<String>) -> LookupView {
    LookupView {
        backend,
        name: field.value@,
        configuration_profile_id: opt_text(field.configuration_profile_id),
        version_number: field.version_number,
        token: opt_text(token),
    }
}

/// The lookups that a list of declarations asks of a backend, one for each.
pub open spec fn lookups_of(backend: BackendType, data: Seq<SecretData>, token: Option<String>) -> Seq<
    LookupView,
> {
    Seq::new(data.len(), |i: int| lookup_of(backend, data[i], token))
}

/// The entries that a list of declarations makes of what was fetched for
/// them, where `part` says what one declaration makes of what was fetched
/// for it. Where two declarations make the same key, the earlier one's entry
/// stays.
pub open spec fn earlier_wins(
    data: Seq<SecretData>,
    fetched: Seq<Fetched>,
    part: spec_fn(SecretData, Fetched) -> Map<Seq<char>, Seq<u8>>,
) -> Map<Seq<char>, Seq<u8>>
    decreases data.len(),
{
    if data.len() == 0 {
        Map::empty()
    } else {
        let last = data.len() - 1;
        part(data[last], fetched_at(fetched, last)).union_prefer_right(
            earlier_wins(data.drop_last(), fetched, part),
        )
    }
}

/// The lookups that `data` asks of `backend`, one for each declaration.
pub fn plan_lookups(backend: BackendType, data: &Vec<SecretData>, token: &Option<String>) -> (r: Vec<
    Lookup,
>)
    ensures
        r@.map_values(|l: Lookup| l@) == lookups_of(backend, data@, *token),
{
    let mut r: Vec<Lookup> = Vec::new();
    let mut i: usize = 0;
    while i < data.len()
        invariant
            i <= data@.len(),
            r@.map_values(|l: Lookup| l@) == lookups_of(backend, data@, *token).take(i as int),
        decreases data@.len() - i,
    {
        let ghost before = r@.map_values(|l: Lookup| l@);
        let lookup = Lookup {
            backend,
            name: data[i].value.clone(),
            configuration_profile_id: copy_opt_string(&data[i].configuration_profile_id),
            version_number: data[i].version_number,
            token: copy_opt_string(token),
        };
        assert(lookup@ == lookup_of(backend, data@[i as int], *token));
        r.push(lookup);
        assert(r@.map_values(|l: Lookup| l@) =~= before.push(lookup@));
        assert(lookups_of(backend, data@, *token).take(i + 1) =~= lookups_of(
            backend,
            data@,
            *token,
        ).take(i as int).push(lookup@));
        i = i + 1;
    }
    assert(lookups_of(backend, data@, *token).take(i as int) =~= lookups_of(backend, data@, *token));
    r
}

/// Makes the entries of every declaration with `part_fn` and keeps, of two
/// entries under one key, the one of the earlier declaration.
pub(crate) fn resolve_each<F: Fn(&SecretData, &Fetched) -> SecretMap>(
    data: &Vec<SecretData>,
    fetched: &Vec<Fetched>,
    part_fn: F,
    Ghost(part): Ghost<spec_fn(SecretData, Fetched) -> Map<Seq<char>, Seq<u8>>>,
) -> (r: SecretMap)
    requires
        forall|d: &SecretData, f: &Fetched| call_requires(part_fn, (d, f)),
        forall|d: &SecretData, f: &Fetched, m: SecretMap|
            call_ensures(part_fn, (d, f), m) ==> m@ == part(*d, *f),
    ensures
        r@ == earlier_wins(data@, fetched@, part),
{
    let mut secrets = SecretMap::new();
    let failed = Fetched::Failed;
    let mut i: usize = 0;
    assert(data@.take(0) =~= Seq::empty());
    while i < data.len()
        invariant
            i <= data@.len(),
            failed == Fetched::Failed,
            forall|d: &SecretData, f: &Fetched| call_requires(part_fn, (d, f)),
            forall|d: &SecretData, f: &Fetched, m: SecretMap|
                call_ensures(part_fn, (d, f), m) ==> m@ == part(*d, *f),
            secrets@ == earlier_wins(data@.take(i as int), fetched@, part),
        decreases data@.len() - i,
    {
        let got = if i < fetched.len() {
            &fetched[i]
        } else {
            &failed
        };
        let entries = part_fn(&data[i], got);
        proof {
            assert(data@.take(i + 1).drop_last() =~= data@.take(i as int));
            assert(data@.take(i + 1).last() == data@[i as int]);
        }
        secrets.merge_under(entries);
        i = i + 1;
    }
    assert(data@.take(i as int) =~= data@);
    secrets
}

/// The resolver of one backend: it says what to look up for its
/// declarations, and makes the entries of the secret from what the lookups
/// brought back.
pub trait RemoteValue: Sized {
    /// The declarations that the resolver was made from.
    spec fn declared(&self) -> Seq<SecretData>;

    /// The lookups that the resolver asks for.
    spec fn planned(&self) -> Seq<LookupView>;

    /// The entries that the resolver makes of what was fetched.
    spec fn resolved(&self, fetched: Seq<Fetched>) -> Map<Seq<char>, Seq<u8>>;

    /// The resolver for the declarations of `backend`.
    fn from_backend(backend: &Backend) -> (r: Self)
        ensures
            r.declared() == backend.data@,
    ;

    /// What to look up, one lookup for each declaration, in their order.
    fn lookups(&self) -> (r: Vec<Lookup>)
        ensures
            r@.map_values(|l: Lookup| l@) == self.planned(),
    ;

    /// The entries of the secret, where `fetched` holds what each lookup
    /// brought back, in the order of the lookups.
    fn get_value(&self, fetched: &Vec<Fetched>) -> (r: SecretMap)
        ensures
            r@ == self.resolved(fetched@),
    ;
}

} // verus!
