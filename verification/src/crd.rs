//! The declaration of a source resource: which backends to read, and how
//! each fetched value becomes an entry of the secret.

use vstd::prelude::*;
use vstd::string::StringExecFns;
use crate::sorted_map::Labels;

verus! {

/// The kinds of backend that a resource can name.
#[derive(Clone, Copy, Debug, PartialEq, Eq, Structural)]
pub enum BackendType {
    SSM,
    SecretManager,
    Cloudformation,
    AppConfig,
    Pulumi,
    Plaintext,
    Vault,
}

/// One desired entry of the secret.
#[derive(Clone, Debug)]
pub struct SecretData {
    /// What to look up in the backend: a parameter or secret name, a stack
    /// name or path, an application id; for the plaintext backend the value
    /// of the entry itself.
    pub value: String,
    /// Whether the fetched value is JSON text.
    pub is_json_string: Option<bool>,
    /// The dotted path of the value within the fetched JSON, or the name of
    /// the stack output.
    pub remote_path: Option<String>,
    /// The key of the entry in the secret.
    pub key: Option<String>,
    /// The configuration profile, for the configuration service.
    pub configuration_profile_id: Option<String>,
    /// The version of the hosted configuration, for the configuration service.
    pub version_number: Option<i32>,
}

/// One backend of a resource, with the entries to take from it.
#[derive(Clone, Debug)]
pub struct Backend {
    pub backend: BackendType,
    pub data: Vec<SecretData>,
    /// An access token that overrides the configured one, for stack outputs.
    pub pulumi_token: Option<String>,
}

/// What a source resource declares.
#[derive(Clone, Debug)]
pub struct RSecretdSpec {
    pub resources: Vec<Backend>,
    pub description: Option<String>,
}

/// What the operator reports on a source resource.
#[derive(Clone, Debug)]
pub struct RSecretStatus {
    /// Seconds since the epoch.
    pub last_updated: Option<i64>,
}

/// The metadata of a platform object, as far as the operator reads it.
#[derive(Clone, Debug)]
pub struct ObjectMeta {
    pub name: Option<String>,
    pub namespace: Option<String>,
    pub labels: Option<Labels>,
    pub finalizers: Option<Vec<String>>,
    /// Set by the platform when it begins to tear the object down; seconds
    /// since the epoch.
    pub deletion_timestamp: Option<i64>,
}

impl Default for ObjectMeta {
    fn default() -> (r: ObjectMeta)
        ensures
            r.name is None,
            r.namespace is None,
            r.labels is None,
            r.finalizers is None,
            r.deletion_timestamp is None,
    {
        ObjectMeta {
            name: None,
            namespace: None,
            labels: None,
            finalizers: None,
            deletion_timestamp: None,
        }
    }
}

/// A source resource as the platform hands it over.
#[derive(Clone, Debug)]
pub struct RSecret {
    pub metadata: ObjectMeta,
    pub spec: RSecretdSpec,
    pub status: Option<RSecretStatus>,
}

impl RSecret {
    /// A resource of the given name that is in no namespace yet.
    pub fn new(name: &str, spec: RSecretdSpec) -> (r: RSecret)
        ensures
            r.metadata.name matches Some(n) && n@ == name@,
            r.metadata.namespace is None,
            r.metadata.labels is None,
            r.metadata.finalizers is None,
            r.metadata.deletion_timestamp is None,
            r.spec == spec,
            r.status is None,
    {
        RSecret {
            metadata: ObjectMeta {
                name: Some(String::from_str(name)),
                namespace: None,
                labels: None,
                finalizers: None,
                deletion_timestamp: None,
            },
            spec,
            status: None,
        }
    }
}

/// A copy of an optional string.
pub fn copy_opt_string(s: &Option<String>) -> (r: Option<String>)
    ensures
        r == *s,
{
    match s {
        Some(t) => Some(t.clone()),
        None => None,
    }
}

impl SecretData {
    /// A copy of the declaration.
    pub fn duplicate(&self) -> (r: SecretData)
        ensures
            r == *self,
    {
        SecretData {
            value: self.value.clone(),
            is_json_string: self.is_json_string,
            remote_path: copy_opt_string(&self.remote_path),
            key: copy_opt_string(&self.key),
            configuration_profile_id: copy_opt_string(&self.configuration_profile_id),
            version_number: self.version_number,
        }
    }
}

/// A copy of a list of declarations.
pub fn copy_secret_data(data: &Vec<SecretData>) -> (r: Vec<SecretData>)
    ensures
        r@ == data@,
{
    let mut r: Vec<SecretData> = Vec::new();
    let mut i: usize = 0;
    while i < data.len()
        invariant
            i <= data@.len(),
            r@ == data@.take(i as int),
        decreases data@.len() - i,
    {
        r.push(data[i].duplicate());
        assert(r@ =~= data@.take(i + 1));
        i = i + 1;
    }
    assert(data@.take(i as int) =~= data@);
    r
}

} // verus!
