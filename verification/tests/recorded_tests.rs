use std::collections::BTreeMap;

use k8s_openapi::ByteString;

use rsecrets::backend::{Fetched, RemoteValue, StackOutput};
use rsecrets::crd::{Backend, BackendType, SecretData};
use rsecrets::plugins::aws_cfn::{
    get_cloudformation_output, get_cloudformation_outputs_as_secret_data, Cloudformation,
};
use rsecrets::plugins::aws_secret_manager::{get_secretsmanager_parameter, SecretManager};
use rsecrets::plugins::aws_ssm::{get_ssm_parameter, SSM};
use rsecrets::plugins::vault::get_vault_value;
use rsecrets::sorted_map::SecretMap;

/// The outputs of the stack `MyTestStack`.
fn my_test_stack() -> Vec<StackOutput> {
    vec![StackOutput {
        output_key: Some("S3Bucket".to_string()),
        output_value: Some("S3Bucket".to_string()),
    }]
}

/// The response of the vault for the secret whose value is `value`.
fn vault_response(value: &str) -> String {
    format!(
        "{{\"request_id\":\"1\",\"data\":{{\"data\":{{\"value\":{}}},\"metadata\":{{\"version\":1}}}}}}",
        value
    )
}

fn backend(kind: BackendType, value: &str, key: &str) -> Backend {
    Backend {
        backend: kind,
        data: vec![SecretData {
            value: value.to_string(),
            is_json_string: None,
            remote_path: None,
            key: Some(key.to_string()),
            configuration_profile_id: None,
            version_number: None,
        }],
        pulumi_token: None,
    }
}

fn as_platform_data(map: &SecretMap) -> BTreeMap<String, ByteString> {
    map.entries().iter().map(|e| (e.key.clone(), ByteString(e.value.clone()))).collect()
}

#[test]
fn aws_cfn_test_get_cloudformation_stack() {
    let result = get_cloudformation_output(&my_test_stack(), "S3Bucket").unwrap();

    assert_eq!(result, "S3Bucket");
}

#[test]
fn aws_cfn_test_get_cloudformation_outputs() {
    let result = get_cloudformation_outputs_as_secret_data(&my_test_stack());

    let data_string = serde_json::to_string(&as_platform_data(&result)).unwrap();

    assert_eq!(data_string.contains("UzNCdWNrZXQ"), true);
}

#[test]
fn aws_test_get_cloudformation_stack() {
    let result = get_cloudformation_output(&my_test_stack(), "S3Bucket").unwrap();

    assert_eq!(result, "S3Bucket");
}

#[test]
fn aws_test_get_cloudformation_outputs() {
    let result = get_cloudformation_outputs_as_secret_data(&my_test_stack());

    let data_string = serde_json::to_string(&as_platform_data(&result)).unwrap();

    assert_eq!(data_string.contains("UzNCdWNrZXQ"), true);
}

#[test]
fn test_cloudformation() {
    let backend = backend(BackendType::Cloudformation, "MyTestStack", "value1");

    let cfn = Cloudformation::from_backend(&backend);

    let value = cfn.get_value(&vec![Fetched::Outputs(my_test_stack())]);

    println!("{:?}", value);

    assert_eq!(value.len(), 1);
    assert_eq!(value.get("S3Bucket"), Some(&b"S3Bucket".to_vec()));
}

#[test]
fn aws_secret_manager_test_get_secretsmanager_parameter() {
    let result = get_secretsmanager_parameter(Some("Vicd".to_string()));
    assert_eq!(result, "Vicd");
}

#[test]
fn aws_test_get_secretsmanager_parameter() {
    let result = get_secretsmanager_parameter(Some("Vicd".to_string()));
    assert_eq!(result, "Vicd");
}

#[test]
fn test_secret_manager() {
    let backend = backend(BackendType::SecretManager, "MyTestSecret", "value2");

    let client = SecretManager::from_backend(&backend);

    let value = client.get_value(&vec![Fetched::Text("Vicd".to_string())]);

    println!("{:?}", value);

    assert_eq!(value.len(), 1);
    assert_eq!(value.get("value2"), Some(&b"Vicd".to_vec()));
}

#[test]
fn aws_ssm_test_get_ssm_parameter() {
    let result = get_ssm_parameter(Some(Some("Vici".to_string()))).unwrap();
    assert_eq!(result, "Vici");
}

#[test]
fn aws_test_get_ssm_parameter() {
    let result = get_ssm_parameter(Some(Some("Vici".to_string()))).unwrap();
    assert_eq!(result, "Vici");
}

#[test]
fn test_ssm() {
    let backend = backend(BackendType::SSM, "MyStringParameter", "value1");

    let ssm = SSM::from_backend(&backend);

    let value = ssm.get_value(&vec![Fetched::Text("Vici".to_string())]);

    println!("{:?}", value);

    assert_eq!(value.len(), 1);
    assert_eq!(value.get("value1"), Some(&b"Vici".to_vec()));
}

#[test]
fn test_get_vault_string_value() {
    let rest = get_vault_value(&vault_response("\"vaultString\"")).unwrap();

    assert_eq!(rest, "\"vaultString\"".to_string());
}

#[test]
fn test_get_vault_json_value() {
    let rest = get_vault_value(&vault_response(
        "{\"vaultJson1\":\"vaultJson1\",\"vaultJson2\":\"vaultJson2\"}",
    ))
    .unwrap();

    assert_eq!(
        rest,
        "{\"vaultJson1\":\"vaultJson1\",\"vaultJson2\":\"vaultJson2\"}".to_string()
    );
}

#[test]
fn vault_test_get_vault_value() {
    let result2 = get_vault_value(&vault_response("\"bar\"")).unwrap();

    assert_eq!(result2, "\"bar\"".to_string());
}
