use rsecrets::backend::{Fetched, Lookup, RemoteValue, StackOutput};
use rsecrets::crd::{Backend, BackendType, SecretData};
use rsecrets::plugins::aws_cfn::{
    get_cloudformation_output, get_cloudformation_outputs,
    get_cloudformation_outputs_as_secret_data, get_cloudformation_stack_secret_data,
    Cloudformation, Stack,
};
use rsecrets::plugins::aws_secret_manager::{get_secret_manager_secret_data, SecretManager};
use rsecrets::plugins::aws_ssm::{get_ssm_secret_data, SSM};
use rsecrets::plugins::plaintext::{get_plain_text_secret_data, PlainText};
use rsecrets::plugins::pulumi::{
    get_pulumi_output, get_pulumi_outputs, get_pulumi_outputs_as_secret_data,
    get_pulumi_secret_data, Pulumi,
};
use rsecrets::plugins::vault::{get_vault_secret_data, get_vault_value, Vault};
use rsecrets::sorted_map::SecretMap;
use rsecrets::value::ValueError;

fn field(value: &str, key: Option<&str>, is_json: Option<bool>, path: Option<&str>) -> SecretData {
    SecretData {
        value: value.to_string(),
        is_json_string: is_json,
        remote_path: path.map(|p| p.to_string()),
        key: key.map(|k| k.to_string()),
        configuration_profile_id: None,
        version_number: None,
    }
}

fn backend(kind: BackendType, data: Vec<SecretData>) -> Backend {
    Backend { backend: kind, data, pulumi_token: None }
}

fn entries_of(map: &SecretMap) -> Vec<(String, Vec<u8>)> {
    map.entries().iter().map(|e| (e.key.clone(), e.value.clone())).collect()
}

fn pair(k: &str, v: &[u8]) -> (String, Vec<u8>) {
    (k.to_string(), v.to_vec())
}

fn text(s: &str) -> Fetched {
    Fetched::Text(s.to_string())
}

fn output(key: Option<&str>, value: Option<&str>) -> StackOutput {
    StackOutput { output_key: key.map(|s| s.to_string()), output_value: value.map(|s| s.to_string()) }
}

const EXPORT: &str = r#"{"deployment":{"resources":[{"outputs":{"bucket":"my-bucket","count":3,"nested":{"url":"https://x"}}}]}}"#;

#[test]
fn test_plain_text() {
    let backend = backend(
        BackendType::Plaintext,
        vec![field("test1", Some("value1"), None, None), field("test2", Some("value2"), None, None)],
    );

    let plaintext = PlainText::from_backend(&backend);

    let value = plaintext.get_value(&vec![]);

    assert_eq!(entries_of(&value), vec![pair("value1", b"test1"), pair("value2", b"test2")]);
    assert!(plaintext.lookups().is_empty());
}

#[test]
fn plaintext_declaration_makes_its_entry() {
    let backend =
        backend(BackendType::Plaintext, vec![field("plain-value", Some("plain-key"), None, None)]);
    let value = PlainText::from_backend(&backend).get_value(&vec![]);
    assert_eq!(entries_of(&value), vec![pair("plain-key", b"plain-value")]);
}

#[test]
fn plaintext_later_declaration_of_a_key_stays() {
    let backend = backend(
        BackendType::Plaintext,
        vec![
            field("first", Some("k"), None, None),
            field("ignored", None, None, None),
            field("second", Some("k"), Some(true), Some("a.b")),
        ],
    );
    let value = PlainText::from_backend(&backend).get_value(&vec![Fetched::Failed]);
    assert_eq!(entries_of(&value), vec![pair("k", b"second")]);
}

#[test]
fn parameter_store_takes_each_fetched_value() {
    let backend = backend(
        BackendType::SSM,
        vec![
            field("MyStringParameter", Some("value1"), None, None),
            field("MyJson", Some("street"), Some(true), Some("address.street")),
            field("Broken", Some("broken"), None, None),
            field("NoKey", None, None, None),
            field("Late", Some("late"), None, None),
        ],
    );
    let ssm = SSM::from_backend(&backend);
    let lookups: Vec<Lookup> = ssm.lookups();
    assert_eq!(lookups.len(), 5);
    assert_eq!(lookups[0].backend, BackendType::SSM);
    assert_eq!(lookups[0].name, "MyStringParameter");
    assert_eq!(lookups[1].name, "MyJson");

    let fetched = vec![
        text("Vici"),
        text(r#"{"address":{"street":"Downing Street 10"}}"#),
        Fetched::Failed,
        text("unused"),
    ];
    let value = ssm.get_value(&fetched);
    assert_eq!(
        entries_of(&value),
        vec![pair("street", b"Downing Street 10"), pair("value1", b"Vici")]
    );
}

#[test]
fn within_a_remote_backend_the_earlier_declaration_of_a_key_stays() {
    let backend = backend(
        BackendType::SecretManager,
        vec![field("A", Some("k"), None, None), field("B", Some("k"), None, None)],
    );
    let manager = SecretManager::from_backend(&backend);
    assert_eq!(manager.lookups()[1].backend, BackendType::SecretManager);
    let value = manager.get_value(&vec![text("Vicd"), text("other")]);
    assert_eq!(entries_of(&value), vec![pair("k", b"Vicd")]);
    let value = manager.get_value(&vec![Fetched::Failed, text("other")]);
    assert_eq!(entries_of(&value), vec![pair("k", b"other")]);
    let value = manager.get_value(&vec![Fetched::Outputs(vec![]), Fetched::Failed]);
    assert!(value.is_empty());
}

#[test]
fn vault_value_is_the_json_text_under_data_data_value() {
    assert_eq!(
        get_vault_value(r#"{"data":{"data":{"value":"vaultString"}}}"#),
        Ok("\"vaultString\"".to_string())
    );
    assert_eq!(
        get_vault_value(r#"{"data":{"data":{"value":{"vaultJson1":"vaultJson1","vaultJson2":"vaultJson2"}}}}"#),
        Ok("{\"vaultJson1\":\"vaultJson1\",\"vaultJson2\":\"vaultJson2\"}".to_string())
    );
    assert_eq!(get_vault_value(r#"{"data":{"data":{"value":"bar"}}}"#), Ok("\"bar\"".to_string()));
    assert_eq!(get_vault_value(r#"{"data":{"data":{}}}"#), Ok("null".to_string()));
    assert_eq!(get_vault_value(r#"{"errors":[]}"#), Ok("null".to_string()));
    assert_eq!(get_vault_value(r#"{"data":5}"#), Err(ValueError::BadPath));
    assert_eq!(get_vault_value("<html>"), Err(ValueError::NotJson));
}

#[test]
fn vault_resolver_reads_the_response_body() {
    let backend = backend(
        BackendType::Vault,
        vec![
            field("baz", Some("plain"), None, None),
            field("json", Some("inner"), Some(true), Some("vaultJson1")),
            field("bad", Some("bad"), None, None),
        ],
    );
    let vault = Vault::from_backend(&backend);
    assert_eq!(vault.lookups()[0].backend, BackendType::Vault);
    let fetched = vec![
        text(r#"{"data":{"data":{"value":"bar"}}}"#),
        text(r#"{"data":{"data":{"value":{"vaultJson1":"one"}}}}"#),
        text("not json"),
    ];
    let value = vault.get_value(&fetched);
    assert_eq!(entries_of(&value), vec![pair("inner", b"one"), pair("plain", b"\"bar\"")]);
}

#[test]
fn stack_output_by_name() {
    let outputs = vec![
        output(Some("S3Bucket"), Some("bucket-1")),
        output(None, Some("nameless")),
        output(Some("S3Bucket"), Some("bucket-2")),
        output(Some("Empty"), None),
    ];
    assert_eq!(get_cloudformation_output(&outputs, "S3Bucket"), Ok("bucket-1".to_string()));
    assert_eq!(get_cloudformation_output(&outputs, "Empty"), Ok(String::new()));
    assert_eq!(get_cloudformation_output(&outputs, ""), Ok("nameless".to_string()));
    assert_eq!(get_cloudformation_output(&outputs, "Other"), Err(ValueError::NotFound));
    assert_eq!(get_cloudformation_output(&vec![], "S3Bucket"), Err(ValueError::NotFound));
}

#[test]
fn stack_outputs_as_secret_data() {
    let outputs = vec![
        output(Some("b"), Some("2")),
        output(Some("a"), Some("1")),
        output(Some("b"), Some("3")),
        output(None, None),
    ];
    let value = get_cloudformation_outputs_as_secret_data(&outputs);
    assert_eq!(entries_of(&value), vec![pair("", b""), pair("a", b"1"), pair("b", b"3")]);
}

#[test]
fn outputs_of_the_first_stack() {
    assert_eq!(get_cloudformation_outputs(None).err(), Some(ValueError::NotFound));
    assert_eq!(get_cloudformation_outputs(Some(vec![])).err(), Some(ValueError::NotFound));
    let none = get_cloudformation_outputs(Some(vec![Stack { outputs: None }])).unwrap();
    assert!(none.is_empty());
    let stacks = vec![
        Stack { outputs: Some(vec![output(Some("a"), Some("1"))]) },
        Stack { outputs: Some(vec![output(Some("b"), Some("2")), output(Some("c"), Some("3"))]) },
    ];
    let first = get_cloudformation_outputs(Some(stacks)).unwrap();
    assert_eq!(first.len(), 1);
    assert_eq!(first[0].output_key, Some("a".to_string()));
}

#[test]
fn stack_resolver_takes_one_output_or_all() {
    let backend = backend(
        BackendType::Cloudformation,
        vec![
            field("MyTestStack", Some("bucket"), None, Some("S3Bucket")),
            field("MyTestStack", Some("value1"), None, None),
            field("Other", Some("missing"), None, Some("Nope")),
            field("Gone", None, None, None),
        ],
    );
    let cfn = Cloudformation::from_backend(&backend);
    let lookups = cfn.lookups();
    assert_eq!(lookups.len(), 4);
    assert_eq!(lookups[0].backend, BackendType::Cloudformation);
    assert_eq!(lookups[0].name, "MyTestStack");
    assert!(lookups[0].same(&lookups[1]));
    assert!(!lookups[0].same(&lookups[2]));

    let outputs = vec![output(Some("S3Bucket"), Some("S3Bucket")), output(Some("bucket"), Some("x"))];
    let fetched = vec![
        Fetched::Outputs(outputs.clone()),
        Fetched::Outputs(outputs.clone()),
        Fetched::Outputs(outputs),
        Fetched::Failed,
    ];
    let value = cfn.get_value(&fetched);
    assert_eq!(entries_of(&value), vec![pair("S3Bucket", b"S3Bucket"), pair("bucket", b"S3Bucket")]);
}

#[test]
fn exported_outputs() {
    assert_eq!(
        get_pulumi_outputs(EXPORT),
        Ok(r#"{"bucket":"my-bucket","count":3,"nested":{"url":"https://x"}}"#.to_string())
    );
    assert_eq!(get_pulumi_outputs(r#"{"deployment":{}}"#), Err(ValueError::NotFound));
    assert_eq!(get_pulumi_outputs(r#"{"deployment":{"resources":[]}}"#), Err(ValueError::NotFound));
    assert_eq!(get_pulumi_outputs(r#"{"deployment":{"resources":7}}"#), Err(ValueError::BadPath));
    assert_eq!(get_pulumi_outputs("oops"), Err(ValueError::NotJson));

    assert_eq!(get_pulumi_output(EXPORT, "bucket"), Ok("\"my-bucket\"".to_string()));
    assert_eq!(get_pulumi_output(EXPORT, "count"), Ok("3".to_string()));
    assert_eq!(get_pulumi_output(EXPORT, "nested"), Ok(r#"{"url":"https://x"}"#.to_string()));
    assert_eq!(get_pulumi_output(EXPORT, "nested.url"), Ok("\"https://x\"".to_string()));
    assert_eq!(get_pulumi_output(EXPORT, "absent"), Err(ValueError::NotFound));
    assert_eq!(get_pulumi_output(EXPORT, "count.x"), Err(ValueError::BadPath));
    assert_eq!(get_pulumi_output("oops", "bucket"), Err(ValueError::NotJson));

    let all = get_pulumi_outputs_as_secret_data(EXPORT).unwrap();
    assert_eq!(
        entries_of(&all),
        vec![pair("bucket", b"my-bucket"), pair("count", b"3"), pair("nested", br#"{"url":"https://x"}"#)]
    );
    let no_object = r#"{"deployment":{"resources":[{"outputs":[1]}]}}"#;
    assert_eq!(get_pulumi_outputs_as_secret_data(no_object).err(), Some(ValueError::NotAnObject));
}

#[test]
fn exported_stack_resolver_takes_one_output_or_all() {
    let mut backend = backend(
        BackendType::Pulumi,
        vec![
            field("org/project/stack", Some("url"), Some(true), Some("nested")),
            field("org/project/stack", Some("bucket"), None, Some("bucket")),
            field("org/project/stack", None, None, Some("bucket")),
            field("org/project/stack", Some("count"), None, None),
            field("org/project/other", Some("k"), None, Some("bucket")),
        ],
    );
    backend.pulumi_token = Some("SECRET-REDACTED".to_string());
    let pulumi = Pulumi::from_backend(&backend);
    let lookups = pulumi.lookups();
    assert_eq!(lookups.len(), 5);
    assert_eq!(lookups[4].name, "org/project/other");
    assert_eq!(lookups[4].token, Some("SECRET-REDACTED".to_string()));

    let only_first = pulumi.get_value(&vec![text(EXPORT)]);
    assert!(only_first.is_empty());
    let first_two = pulumi.get_value(&vec![text(EXPORT), text(EXPORT)]);
    assert_eq!(entries_of(&first_two), vec![pair("bucket", b"\"my-bucket\"")]);
    let all = pulumi.get_value(&vec![text(EXPORT), text(EXPORT), text(EXPORT), text(EXPORT), Fetched::Failed]);
    assert_eq!(
        entries_of(&all),
        vec![pair("bucket", b"\"my-bucket\""), pair("count", b"3"), pair("nested", br#"{"url":"https://x"}"#)]
    );
}

#[test]
fn entries_of_a_backend_by_kind() {
    let declared = vec![field("looked-up", Some("k"), None, None)];
    let plain = get_plain_text_secret_data(&backend(BackendType::Plaintext, declared.clone()));
    assert_eq!(entries_of(&plain), vec![pair("k", b"looked-up")]);

    let fetched = vec![text("fetched")];
    let ssm = get_ssm_secret_data(&backend(BackendType::SSM, declared.clone()), &fetched);
    assert_eq!(entries_of(&ssm), vec![pair("k", b"fetched")]);
    let manager =
        get_secret_manager_secret_data(&backend(BackendType::SecretManager, declared.clone()), &fetched);
    assert_eq!(entries_of(&manager), vec![pair("k", b"fetched")]);

    let body = vec![text(r#"{"data":{"data":{"value":7}}}"#)];
    let vault = get_vault_secret_data(&backend(BackendType::Vault, declared.clone()), &body);
    assert_eq!(entries_of(&vault), vec![pair("k", b"7")]);

    let outputs = vec![Fetched::Outputs(vec![output(Some("o"), Some("v"))])];
    let stack =
        get_cloudformation_stack_secret_data(&backend(BackendType::Cloudformation, declared.clone()), &outputs);
    assert_eq!(entries_of(&stack), vec![pair("o", b"v")]);

    let export = vec![text(EXPORT)];
    let exported = get_pulumi_secret_data(&backend(BackendType::Pulumi, declared), &export);
    assert_eq!(exported.len(), 3);
    assert_eq!(exported.get("count"), Some(&b"3".to_vec()));
}
