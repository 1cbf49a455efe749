//! The target object: the fingerprint of its content, its labels, and what
//! to create or patch so that it holds a resolved secret map.

use std::collections::hash_map::DefaultHasher;
use std::hash::Hasher;
use vstd::prelude::*;
use vstd::std_specs::hash::DefaultHasherAdditionalSpecFns;
use vstd::string::StringExecFns;
use vstd::utf8::encode_utf8;
use crate::backend::{earlier_wins, lookups_of, Fetched, Lookup, LookupView, RemoteValue};
use crate::crd::{Backend, BackendType, ObjectMeta, RSecret};
use crate::decimal::{decimal, format_u64, lemma_decimal_round_trip, parse_decimal, parse_u64};
use crate::key_order::{key_lt, lemma_encoding_injective, lemma_key_lt_irreflexive};
use crate::plugins::aws_cfn::{
    cloudformation_part, get_cloudformation_stack_secret_data, Cloudformation,
};
use crate::plugins::aws_secret_manager::{get_secret_manager_secret_data, SecretManager};
use crate::plugins::aws_ssm::{get_ssm_secret_data, text_part, SSM};
use crate::plugins::plaintext::{get_plain_text_secret_data, plain_text_entries, PlainText};
use crate::plugins::pulumi::{get_pulumi_secret_data, pulumi_part, Pulumi};
use crate::plugins::vault::{get_vault_secret_data, vault_part, Vault};
use crate::sorted_map::{
    entry_pairs, is_listing, keys_distinct, lemma_listing_unique, lemma_order_of_pairs,
    lemma_pairs_map_contains, pairs_map, sorted_pairs, Labels, SecretMap,
};
use crate::value::merge_secret_data;

verus! {

/// The byte that ends a text in what is fed to a hasher. No text holds it,
/// so no text that is fed is the beginning of another.
pub const TEXT_END: u8 = 0xff;

/// What a hasher is fed for a text: its bytes, then the byte that ends it.
pub open spec fn text_feed(text: Seq<char>) -> Seq<Seq<u8>> {
    seq![encode_utf8(text), seq![TEXT_END]]
}

/// Feeds a text to a hasher.
fn hash_text(state: &mut DefaultHasher, text: &str)
    ensures
        final(state)@ == old(state)@ + text_feed(text@),
{
    let end: [u8; 1] = [TEXT_END];
    state.write(text.as_bytes());
    state.write(end.as_slice());
    assert(end@ =~= seq![TEXT_END]);
    assert(state@ =~= old(state)@ + text_feed(text@));
}

/// The hash of a text.
pub open spec fn text_hash(text: Seq<char>) -> u64 {
    DefaultHasher::spec_finish(text_feed(text))
}

/// The hash of a text.
pub fn calculate_hash(t: &str) -> (r: u64)
    ensures
        r == text_hash(t@),
{
    let mut s = DefaultHasher::new();
    hash_text(&mut s, t);
    assert(s@ =~= text_feed(t@));
    s.finish()
}

/// What a hasher is fed for a list of pairs: for each pair its key as a
/// text, then the bytes of its value.
pub open spec fn hash_feed(pairs: Seq<(Seq<char>, Seq<u8>)>) -> Seq<Seq<u8>>
    decreases pairs.len(),
{
    if pairs.len() == 0 {
        Seq::empty()
    } else {
        (hash_feed(pairs.drop_last()) + text_feed(pairs.last().0)).push(pairs.last().1)
    }
}

/// The fingerprint of a secret map: the hash of its keys and values, taken
/// in the order of the keys.
pub open spec fn fingerprint(m: Map<Seq<char>, Seq<u8>>) -> u64 {
    DefaultHasher::spec_finish(hash_feed(sorted_pairs(m)))
}

/// The fingerprint of a resolved secret map. It depends on the keys and
/// values of the map alone.
pub fn calculate_secret_hash(data: &SecretMap) -> (r: u64)
    ensures
        r == fingerprint(data@),
{
    let entries = data.entries();
    let ghost pairs = entry_pairs(entries@);
    let mut hasher = DefaultHasher::new();
    let mut i: usize = 0;
    assert(pairs.take(0) =~= Seq::empty());
    while i < entries.len()
        invariant
            i <= entries@.len(),
            pairs == entry_pairs(entries@),
            hasher@ == hash_feed(pairs.take(i as int)),
        decreases entries@.len() - i,
    {
        proof {
            assert(pairs.take(i + 1).drop_last() =~= pairs.take(i as int));
            assert(pairs.take(i + 1).last() == (entries@[i as int].key@, entries@[i as int].value@));
        }
        hash_text(&mut hasher, entries[i].key.as_str());
        hasher.write(entries[i].value.as_slice());
        i = i + 1;
    }
    proof {
        assert(pairs.take(i as int) =~= pairs);
        lemma_listing_unique(sorted_pairs(data@), pairs);
    }
    hasher.finish()
}

/// What is fed to the hasher tells the lists of pairs apart: two lists for
/// which the hasher is fed the same writes are the same list. (That their
/// hashes differ does not follow: two feeds may have one hash.)
pub proof fn lemma_hash_feed_injective(a: Seq<(Seq<char>, Seq<u8>)>, b: Seq<(Seq<char>, Seq<u8>)>)
    requires
        hash_feed(a) == hash_feed(b),
    ensures
        a == b,
    decreases a.len(),
{
    lemma_hash_feed_len(a);
    lemma_hash_feed_len(b);
    if a.len() > 0 {
        let fa = hash_feed(a.drop_last()) + text_feed(a.last().0);
        let fb = hash_feed(b.drop_last()) + text_feed(b.last().0);
        assert(fa.push(a.last().1).last() == a.last().1);
        assert(fb.push(b.last().1).last() == b.last().1);
        assert(fa =~= fa.push(a.last().1).drop_last());
        assert(fb =~= fb.push(b.last().1).drop_last());
        lemma_hash_feed_len(a.drop_last());
        lemma_hash_feed_len(b.drop_last());
        let n = hash_feed(a.drop_last()).len() as int;
        assert(fa[n] == encode_utf8(a.last().0));
        assert(fb[n] == encode_utf8(b.last().0));
        lemma_encoding_injective(a.last().0, b.last().0);
        assert(hash_feed(a.drop_last()) =~= fa.take(n));
        assert(hash_feed(b.drop_last()) =~= fb.take(n));
        lemma_hash_feed_injective(a.drop_last(), b.drop_last());
        assert(a =~= a.drop_last().push(a.last()));
        assert(b =~= b.drop_last().push(b.last()));
    } else {
        assert(a =~= b);
    }
}

/// The hasher is fed three writes for each pair.
pub proof fn lemma_hash_feed_len(pairs: Seq<(Seq<char>, Seq<u8>)>)
    ensures
        hash_feed(pairs).len() == 3 * pairs.len(),
    decreases pairs.len(),
{
    if pairs.len() > 0 {
        lemma_hash_feed_len(pairs.drop_last());
    }
}

/// The fingerprint of a map is that of its pairs in key order, whichever
/// list of pairs the map was made from: two lists of the same pairs, none of
/// whose keys occurs twice, give one fingerprint in whatever order each holds
/// them.
pub proof fn lemma_fingerprint_ignores_order(a: Seq<(Seq<char>, Seq<u8>)>, b: Seq<(Seq<char>, Seq<u8>)>)
    requires
        keys_distinct(a),
        forall|p: (Seq<char>, Seq<u8>)| a.contains(p) <==> b.contains(p),
    ensures
        fingerprint(pairs_map(a)) == fingerprint(pairs_map(b)),
{
    lemma_order_of_pairs(a, b);
}

/// The name of the label that holds the name of the source resource.
pub const APP_LABEL: &'static str = "app";

/// The name of the label that holds the fingerprint.
pub const HASH_LABEL: &'static str = "hash_id";

/// The labels of the target object of the resource `name` whose content has
/// the fingerprint `hash_id`.
pub open spec fn labels_for(name: Seq<char>, hash_id: u64) -> Map<Seq<char>, Seq<char>> {
    Map::empty().insert(APP_LABEL@, name).insert(HASH_LABEL@, decimal(hash_id as nat))
}

/// The labels of the target object of the resource `name` whose content has
/// the fingerprint `hash_id`.
pub fn build_labels(name: &str, hash_id: u64) -> (r: Labels)
    ensures
        r@ == labels_for(name@, hash_id),
{
    let mut labels = Labels::new();
    labels.insert(String::from_str(APP_LABEL), String::from_str(name));
    labels.insert(String::from_str(HASH_LABEL), format_u64(hash_id));
    labels
}

/// The platform's secret object, as far as the operator reads and writes it.
#[derive(Clone, Debug)]
pub struct Secret {
    pub metadata: ObjectMeta,
    pub type_: Option<String>,
    pub data: Option<SecretMap>,
    pub immutable: Option<bool>,
}

impl Default for Secret {
    fn default() -> (r: Secret)
        ensures
            r.metadata.name is None,
            r.metadata.namespace is None,
            r.metadata.labels is None,
            r.metadata.finalizers is None,
            r.metadata.deletion_timestamp is None,
            r.type_ is None,
            r.data is None,
            r.immutable is None,
    {
        Secret { metadata: ObjectMeta::default(), type_: None, data: None, immutable: None }
    }
}

/// The fingerprint that a set of labels records: the number that the
/// fingerprint label stands for, if the label is there and stands for one.
pub open spec fn recorded_hash(labels: Option<Labels>) -> Option<u64> {
    match labels {
        None => None,
        Some(l) => if l@.contains_key(HASH_LABEL@) {
            parse_decimal(l@[HASH_LABEL@])
        } else {
            None
        },
    }
}

/// The fingerprint that the labels of a secret record, if they record one.
pub fn get_hash_id(secret: &Secret) -> (r: Option<u64>)
    ensures
        r == recorded_hash(secret.metadata.labels),
{
    match &secret.metadata.labels {
        None => None,
        Some(labels) => match labels.get(HASH_LABEL) {
            None => None,
            Some(hash_id) => parse_u64(hash_id.as_str()),
        },
    }
}

/// The labels that `build_labels` makes record the fingerprint they were
/// made for.
pub proof fn lemma_labels_record_hash(labels: Labels, name: Seq<char>, hash_id: u64)
    requires
        labels@ == labels_for(name, hash_id),
    ensures
        recorded_hash(Some(labels)) == Some(hash_id),
{
    lemma_decimal_round_trip(hash_id);
}

/// The namespace of an object that names none.
pub const DEFAULT_NAMESPACE: &'static str = "default";

/// The type of the secrets that the operator creates.
pub const SECRET_TYPE: &'static str = "Opaque";

/// The name under which the target object of a resource is kept: the name of
/// the resource, empty where it has none.
pub open spec fn target_name(rsecret: RSecret) -> Seq<char> {
    match rsecret.metadata.name {
        Some(name) => name@,
        None => Seq::empty(),
    }
}

/// The namespace in which the target object of a resource is kept: that of
/// the resource, `default` where it has none.
pub open spec fn target_namespace(rsecret: RSecret) -> Seq<char> {
    match rsecret.metadata.namespace {
        Some(namespace) => namespace@,
        None => DEFAULT_NAMESPACE@,
    }
}

/// `secret` is the target object of `rsecret` with the content `data`: it
/// has the resource's name and namespace, the content, and the labels that
/// name the resource and record the fingerprint of the content.
pub open spec fn is_target_of(secret: Secret, rsecret: RSecret, data: Map<Seq<char>, Seq<u8>>) -> bool {
    &&& secret.metadata.name matches Some(name) && name@ == target_name(rsecret)
    &&& secret.metadata.namespace matches Some(namespace) && namespace@ == target_namespace(rsecret)
    &&& secret.metadata.labels matches Some(labels) && labels@ == labels_for(
        target_name(rsecret),
        fingerprint(data),
    )
    &&& secret.metadata.finalizers is None
    &&& secret.metadata.deletion_timestamp is None
    &&& secret.type_ matches Some(t) && t@ == SECRET_TYPE@
    &&& secret.data matches Some(content) && content@ == data
    &&& secret.immutable == Some(false)
}

/// The name under which the target object of `rsecret` is kept.
pub fn secret_name(rsecret: &RSecret) -> (r: String)
    ensures
        r@ == target_name(*rsecret),
{
    match &rsecret.metadata.name {
        Some(name) => name.clone(),
        None => String::new(),
    }
}

/// The namespace in which the target object of `rsecret` is kept.
pub fn secret_namespace(rsecret: &RSecret) -> (r: String)
    ensures
        r@ == target_namespace(*rsecret),
{
    match &rsecret.metadata.namespace {
        Some(namespace) => namespace.clone(),
        None => String::from_str(DEFAULT_NAMESPACE),
    }
}

/// The target object to create for `rsecret`, with the content `data`.
pub fn create_k8s_secret(rsecret: &RSecret, data: &SecretMap) -> (r: Secret)
    ensures
        is_target_of(r, *rsecret, data@),
        recorded_hash(r.metadata.labels) == Some(fingerprint(data@)),
{
    let name = secret_name(rsecret);
    let ns = secret_namespace(rsecret);
    let hash_id = calculate_secret_hash(data);
    let labels = build_labels(name.as_str(), hash_id);
    proof {
        lemma_labels_record_hash(labels, name@, hash_id);
    }
    Secret {
        metadata: ObjectMeta {
            name: Some(name),
            namespace: Some(ns),
            labels: Some(labels),
            finalizers: None,
            deletion_timestamp: None,
        },
        type_: Some(String::from_str(SECRET_TYPE)),
        data: Some(data.duplicate()),
        immutable: Some(false),
    }
}

/// What to change in a target object so that it holds new content.
#[derive(Clone, Debug)]
pub struct SecretPatch {
    /// The new value of the fingerprint label.
    pub hash_id: String,
    /// The entries to set.
    pub data: SecretMap,
    /// The keys to take away.
    pub removed: Vec<String>,
}

/// The content of a secret; one without content has none.
pub open spec fn content_of(data: Option<SecretMap>) -> Map<Seq<char>, Seq<u8>> {
    match data {
        Some(content) => content@,
        None => Map::empty(),
    }
}

/// The texts of a list of strings.
pub open spec fn texts(list: Seq<String>) -> Seq<Seq<char>> {
    list.map_values(|s: String| s@)
}

/// The content that a patch leaves: the old entries without the removed
/// keys, beneath the entries that the patch sets.
pub open spec fn patched_content(
    old_content: Map<Seq<char>, Seq<u8>>,
    set: Map<Seq<char>, Seq<u8>>,
    removed: Seq<Seq<char>>,
) -> Map<Seq<char>, Seq<u8>> {
    old_content.remove_keys(removed.to_set()).union_prefer_right(set)
}

/// The labels that a patch leaves: the old ones, with the fingerprint label
/// set anew.
pub open spec fn patched_labels(old_labels: Map<Seq<char>, Seq<char>>, hash_id: Seq<char>) -> Map<
    Seq<char>,
    Seq<char>,
> {
    old_labels.insert(HASH_LABEL@, hash_id)
}

/// `patch` turns the content `old_content` into `data` and records the
/// fingerprint of `data`: it sets the entries of `data`, takes away each key
/// of the old content that `data` lacks, each once, and no other.
pub open spec fn is_patch_to(
    patch: SecretPatch,
    old_content: Map<Seq<char>, Seq<u8>>,
    data: Map<Seq<char>, Seq<u8>>,
) -> bool {
    &&& patch.hash_id@ == decimal(fingerprint(data) as nat)
    &&& patch.data@ == data
    &&& texts(patch.removed@).no_duplicates()
    &&& forall|k: Seq<char>|
        texts(patch.removed@).contains(k) <==> old_content.contains_key(k) && !data.contains_key(k)
}

/// A patch to new content leaves exactly that content, and labels that
/// record its fingerprint.
pub proof fn lemma_patch_replaces_content(
    patch: SecretPatch,
    old_content: Map<Seq<char>, Seq<u8>>,
    old_labels: Map<Seq<char>, Seq<char>>,
    data: Map<Seq<char>, Seq<u8>>,
)
    requires
        is_patch_to(patch, old_content, data),
    ensures
        patched_content(old_content, patch.data@, texts(patch.removed@)) == data,
        parse_decimal(patched_labels(old_labels, patch.hash_id@)[HASH_LABEL@]) == Some(fingerprint(data)),
{
    let removed = texts(patch.removed@);
    assert forall|k: Seq<char>| removed.to_set().contains(k) <==> removed.contains(k) by {}
    assert(patched_content(old_content, patch.data@, removed) =~= data);
    lemma_decimal_round_trip(fingerprint(data));
}

/// The keys of `old_content` that `data` lacks.
pub fn stale_keys(old_content: &SecretMap, data: &SecretMap) -> (r: Vec<String>)
    ensures
        texts(r@).no_duplicates(),
        forall|k: Seq<char>|
            texts(r@).contains(k) <==> old_content@.contains_key(k) && !data@.contains_key(k),
{
    let entries = old_content.entries();
    let ghost pairs = entry_pairs(entries@);
    let mut stale: Vec<String> = Vec::new();
    let mut i: usize = 0;
    assert(texts(stale@) =~= Seq::empty());
    while i < entries.len()
        invariant
            i <= entries@.len(),
            pairs == entry_pairs(entries@),
            is_listing(pairs, old_content@),
            texts(stale@).no_duplicates(),
            forall|k: Seq<char>|
                texts(stale@).contains(k) <==> !data@.contains_key(k) && exists|j: int|
                    0 <= j < i && (#[trigger] pairs[j]).0 == k,
        decreases entries@.len() - i,
    {
        let ghost before = texts(stale@);
        let ghost key = entries@[i as int].key@;
        assert(pairs[i as int].0 == key);
        if !data.contains_key(entries[i].key.as_str()) {
            stale.push(entries[i].key.clone());
            proof {
                assert(texts(stale@) =~= before.push(key));
                if before.contains(key) {
                    let j = choose|j: int| 0 <= j < i && (#[trigger] pairs[j]).0 == key;
                    assert(key_lt(pairs[j].0, pairs[i as int].0));
                    lemma_key_lt_irreflexive(key);
                }
                assert forall|k: Seq<char>|
                    texts(stale@).contains(k) <==> !data@.contains_key(k) && exists|j: int|
                        0 <= j < i + 1 && (#[trigger] pairs[j]).0 == k by {
                    if texts(stale@).contains(k) {
                        let n = choose|n: int| 0 <= n < texts(stale@).len() && texts(stale@)[n] == k;
                        if n < before.len() {
                            assert(before[n] == k);
                            assert(before.contains(k));
                            let j = choose|j: int| 0 <= j < i && (#[trigger] pairs[j]).0 == k;
                            assert(0 <= j < i + 1 && pairs[j].0 == k);
                        } else {
                            assert(pairs[i as int].0 == k);
                        }
                    }
                    if !data@.contains_key(k) && exists|j: int|
                        0 <= j < i + 1 && (#[trigger] pairs[j]).0 == k {
                        let j = choose|j: int| 0 <= j < i + 1 && (#[trigger] pairs[j]).0 == k;
                        if j < i {
                            assert(before.contains(k));
                            let n = choose|n: int| 0 <= n < before.len() && before[n] == k;
                            assert(texts(stale@)[n] == k);
                        } else {
                            assert(texts(stale@)[before.len() as int] == k);
                        }
                    }
                }
            }
        } else {
            proof {
                assert forall|k: Seq<char>|
                    texts(stale@).contains(k) <==> !data@.contains_key(k) && exists|j: int|
                        0 <= j < i + 1 && (#[trigger] pairs[j]).0 == k by {
                    if !data@.contains_key(k) && exists|j: int|
                        0 <= j < i + 1 && (#[trigger] pairs[j]).0 == k {
                        let j = choose|j: int| 0 <= j < i + 1 && (#[trigger] pairs[j]).0 == k;
                        assert(j < i);
                    }
                    if texts(stale@).contains(k) {
                        let j = choose|j: int| 0 <= j < i && (#[trigger] pairs[j]).0 == k;
                        assert(0 <= j < i + 1 && pairs[j].0 == k);
                    }
                }
            }
        }
        i = i + 1;
    }
    proof {
        assert forall|k: Seq<char>|
            texts(stale@).contains(k) <==> old_content@.contains_key(k) && !data@.contains_key(k) by {
            lemma_pairs_map_contains(pairs, k);
        }
    }
    stale
}

/// The patch that gives the target object `existing` the content `data`.
pub fn update_k8s_secret(existing: &Secret, data: &SecretMap) -> (r: SecretPatch)
    ensures
        is_patch_to(r, content_of(existing.data), data@),
{
    let hash_id = calculate_secret_hash(data);
    let removed = match &existing.data {
        Some(old_content) => stale_keys(old_content, data),
        None => {
            let none: Vec<String> = Vec::new();
            assert(texts(none@) =~= Seq::empty());
            none
        },
    };
    SecretPatch { hash_id: format_u64(hash_id), data: data.duplicate(), removed }
}

/// The entries that one backend makes of what was fetched for its
/// declarations. A backend of a kind that has no resolver makes none.
pub open spec fn backend_entries(backend: Backend, fetched: Seq<Fetched>) -> Map<Seq<char>, Seq<u8>> {
    match backend.backend {
        BackendType::Plaintext => plain_text_entries(backend.data@),
        BackendType::SecretManager => earlier_wins(
            backend.data@,
            fetched,
            |d, f| text_part(d, f),
        ),
        BackendType::SSM => earlier_wins(backend.data@, fetched, |d, f| text_part(d, f)),
        BackendType::Cloudformation => earlier_wins(
            backend.data@,
            fetched,
            |d, f| cloudformation_part(d, f),
        ),
        BackendType::Pulumi => earlier_wins(backend.data@, fetched, |d, f| pulumi_part(d, f)),
        BackendType::Vault => earlier_wins(backend.data@, fetched, |d, f| vault_part(d, f)),
        BackendType::AppConfig => Map::empty(),
    }
}

/// The lookups that one backend asks for, one for each declaration. A backend
/// that is not remote, or of a kind that has no resolver, asks for none.
pub open spec fn backend_lookups(backend: Backend) -> Seq<LookupView> {
    match backend.backend {
        BackendType::Plaintext => Seq::empty(),
        BackendType::AppConfig => Seq::empty(),
        BackendType::Pulumi => lookups_of(backend.backend, backend.data@, backend.pulumi_token),
        _ => lookups_of(backend.backend, backend.data@, None),
    }
}

/// What to look up for the declarations of `backend`.
pub fn resolve_backend_lookups(backend: &Backend) -> (r: Vec<Lookup>)
    ensures
        r@.map_values(|l: Lookup| l@) == backend_lookups(*backend),
{
    match backend.backend {
        BackendType::Plaintext => PlainText::from_backend(backend).lookups(),
        BackendType::SecretManager => SecretManager::from_backend(backend).lookups(),
        BackendType::SSM => SSM::from_backend(backend).lookups(),
        BackendType::Cloudformation => Cloudformation::from_backend(backend).lookups(),
        BackendType::Pulumi => Pulumi::from_backend(backend).lookups(),
        BackendType::Vault => Vault::from_backend(backend).lookups(),
        BackendType::AppConfig => {
            let none: Vec<Lookup> = Vec::new();
            assert(none@.map_values(|l: Lookup| l@) =~= Seq::empty());
            none
        },
    }
}

/// The entries that `backend` makes, where `fetched` holds what each of its
/// lookups brought back.
pub fn resolve_backend_data(backend: &Backend, fetched: &Vec<Fetched>) -> (r: SecretMap)
    ensures
        r@ == backend_entries(*backend, fetched@),
{
    match backend.backend {
        BackendType::Plaintext => get_plain_text_secret_data(backend),
        BackendType::SecretManager => get_secret_manager_secret_data(backend, fetched),
        BackendType::SSM => get_ssm_secret_data(backend, fetched),
        BackendType::Cloudformation => get_cloudformation_stack_secret_data(backend, fetched),
        BackendType::Pulumi => get_pulumi_secret_data(backend, fetched),
        BackendType::Vault => get_vault_secret_data(backend, fetched),
        BackendType::AppConfig => SecretMap::new(),
    }
}

/// What was fetched for the backend at `i`; nothing where the list does not
/// reach it.
pub open spec fn fetched_for(fetched: Seq<Vec<Fetched>>, i: int) -> Seq<Fetched> {
    if 0 <= i < fetched.len() {
        fetched[i]@
    } else {
        Seq::empty()
    }
}

/// The secret map of a list of backends: the entries of each backend, and
/// where two backends make the same key, the entry of the one that stands
/// earlier in the list.
pub open spec fn assembled(backends: Seq<Backend>, fetched: Seq<Vec<Fetched>>) -> Map<Seq<char>, Seq<u8>>
    decreases backends.len(),
{
    if backends.len() == 0 {
        Map::empty()
    } else {
        let last = backends.len() - 1;
        backend_entries(backends[last], fetched_for(fetched, last)).union_prefer_right(
            assembled(backends.drop_last(), fetched),
        )
    }
}

/// What to look up for `rsecret`: for each backend, in their order, one
/// lookup for each declaration.
pub fn collect_lookups(rsecret: &RSecret) -> (r: Vec<Vec<Lookup>>)
    ensures
        r@.len() == rsecret.spec.resources@.len(),
        forall|i: int|
            0 <= i < r@.len() ==> (#[trigger] r@[i])@.map_values(|l: Lookup| l@) == backend_lookups(
                rsecret.spec.resources@[i],
            ),
{
    let mut plan: Vec<Vec<Lookup>> = Vec::new();
    let mut i: usize = 0;
    while i < rsecret.spec.resources.len()
        invariant
            i <= rsecret.spec.resources@.len(),
            plan@.len() == i,
            forall|j: int|
                0 <= j < i ==> (#[trigger] plan@[j])@.map_values(|l: Lookup| l@) == backend_lookups(
                    rsecret.spec.resources@[j],
                ),
        decreases rsecret.spec.resources@.len() - i,
    {
        plan.push(resolve_backend_lookups(&rsecret.spec.resources[i]));
        i = i + 1;
    }
    plan
}

/// The resolved secret map of `rsecret`, where `fetched` holds, for each
/// backend in their order, what each of its lookups brought back.
pub fn collect_secret_data(rsecret: &RSecret, fetched: &Vec<Vec<Fetched>>) -> (r: SecretMap)
    ensures
        r@ == assembled(rsecret.spec.resources@, fetched@),
{
    let mut secrets = SecretMap::new();
    let nothing: Vec<Fetched> = Vec::new();
    let mut i: usize = 0;
    assert(rsecret.spec.resources@.take(0) =~= Seq::empty());
    while i < rsecret.spec.resources.len()
        invariant
            i <= rsecret.spec.resources@.len(),
            nothing@ == Seq::<Fetched>::empty(),
            secrets@ == assembled(rsecret.spec.resources@.take(i as int), fetched@),
        decreases rsecret.spec.resources@.len() - i,
    {
        let got = if i < fetched.len() {
            &fetched[i]
        } else {
            &nothing
        };
        let backend_data = resolve_backend_data(&rsecret.spec.resources[i], got);
        proof {
            let upto = rsecret.spec.resources@.take(i + 1);
            assert(upto.drop_last() =~= rsecret.spec.resources@.take(i as int));
            assert(upto.last() == rsecret.spec.resources@[i as int]);
        }
        secrets = merge_secret_data(backend_data, secrets);
        i = i + 1;
    }
    assert(rsecret.spec.resources@.take(i as int) =~= rsecret.spec.resources@);
    secrets
}

/// The first backend that makes a key decides its value: where the backend
/// at `a` makes the key `k` and no backend before it does, the assembled
/// secret map has under `k` what that backend made.
pub proof fn lemma_first_backend_wins(
    backends: Seq<Backend>,
    fetched: Seq<Vec<Fetched>>,
    a: int,
    k: Seq<char>,
)
    requires
        0 <= a < backends.len(),
        backend_entries(backends[a], fetched_for(fetched, a)).contains_key(k),
        forall|j: int|
            0 <= j < a ==> !backend_entries(
                #[trigger] backends[j],
                fetched_for(fetched, j),
            ).contains_key(k),
    ensures
        assembled(backends, fetched).contains_key(k),
        assembled(backends, fetched)[k] == backend_entries(backends[a], fetched_for(fetched, a))[k],
    decreases backends.len(),
{
    let last = backends.len() - 1;
    if a < last {
        let earlier = backends.drop_last();
        assert(earlier[a] == backends[a]);
        assert forall|j: int| 0 <= j < a implies !backend_entries(
            #[trigger] earlier[j],
            fetched_for(fetched, j),
        ).contains_key(k) by {
            assert(earlier[j] == backends[j]);
        }
        lemma_first_backend_wins(earlier, fetched, a, k);
    } else {
        lemma_assembled_keys(backends.drop_last(), fetched, k);
        if assembled(backends.drop_last(), fetched).contains_key(k) {
            let j = choose|j: int|
                0 <= j < backends.drop_last().len() && backend_entries(
                    #[trigger] backends.drop_last()[j],
                    fetched_for(fetched, j),
                ).contains_key(k);
            assert(backends.drop_last()[j] == backends[j]);
        }
    }
}

/// The assembled secret map has a key exactly if some backend makes it.
pub proof fn lemma_assembled_keys(backends: Seq<Backend>, fetched: Seq<Vec<Fetched>>, k: Seq<char>)
    ensures
        assembled(backends, fetched).contains_key(k) <==> exists|j: int|
            0 <= j < backends.len() && backend_entries(
                #[trigger] backends[j],
                fetched_for(fetched, j),
            ).contains_key(k),
    decreases backends.len(),
{
    if backends.len() > 0 {
        let last = backends.len() - 1;
        let earlier = backends.drop_last();
        lemma_assembled_keys(earlier, fetched, k);
        if assembled(backends, fetched).contains_key(k) {
            if assembled(earlier, fetched).contains_key(k) {
                let j = choose|j: int|
                    0 <= j < earlier.len() && backend_entries(
                        #[trigger] earlier[j],
                        fetched_for(fetched, j),
                    ).contains_key(k);
                assert(earlier[j] == backends[j]);
            } else {
                assert(backend_entries(backends[last], fetched_for(fetched, last)).contains_key(k));
            }
        }
        if exists|j: int|
            0 <= j < backends.len() && backend_entries(
                #[trigger] backends[j],
                fetched_for(fetched, j),
            ).contains_key(k) {
            let j = choose|j: int|
                0 <= j < backends.len() && backend_entries(
                    #[trigger] backends[j],
                    fetched_for(fetched, j),
                ).contains_key(k);
            if j < last {
                assert(earlier[j] == backends[j]);
            }
        }
    }
}

/// Of two backends that make the same key, the one declared first decides:
/// the assembled secret map has under the key what the first backend made.
pub proof fn lemma_merge_precedence(
    first: Backend,
    second: Backend,
    fetched: Seq<Vec<Fetched>>,
    k: Seq<char>,
)
    requires
        backend_entries(first, fetched_for(fetched, 0)).contains_key(k),
        backend_entries(second, fetched_for(fetched, 1)).contains_key(k),
    ensures
        assembled(seq![first, second], fetched)[k] == backend_entries(
            first,
            fetched_for(fetched, 0),
        )[k],
{
    lemma_first_backend_wins(seq![first, second], fetched, 0, k);
}

} // verus!
