use artifex::service::{ModelConfigService, ServiceError};

fn service_with(providers: &[&str]) -> ModelConfigService {
    ModelConfigService::new(providers.iter().map(|p| p.to_string()).collect())
}

#[test]
fn test_credential_set_and_status() {
    let mut service = service_with(&["testprovider"]);
    service.set_credential("testprovider", "test-api-key-123");
    let status = service.get_credential_status("testprovider");
    assert_eq!(status.provider_id, "testprovider");
    assert!(status.has_credential, "Provider with credential should have has_credential: true");
}

#[test]
fn test_credential_delete_and_status() {
    let mut service = service_with(&["testprovider"]);
    service.set_credential("testprovider", "test-api-key-123");
    service.delete_credential("testprovider").expect("delete_credential should succeed");
    let status = service.get_credential_status("testprovider");
    assert!(!status.has_credential, "Provider after deleting credential should have has_credential: false");
}

#[test]
fn test_credential_status_unknown_provider() {
    let mut service = service_with(&[]);
    let status = service.get_credential_status("unknown_provider");
    assert!(!status.has_credential, "Unknown provider should have has_credential: false");
    service.set_credential("unknown_provider", "k");
    assert!(!service.get_credential_status("unknown_provider").has_credential);
}

#[test]
fn test_delete_without_reference_fails() {
    let mut service = service_with(&["fal"]);
    assert_eq!(
        service.delete_credential("fal"),
        Err(ServiceError::NotFound("Credential for provider fal not found".to_string()))
    );
}

#[test]
fn test_credentials_are_per_provider() {
    let mut service = service_with(&["fal", "replicate"]);
    service.set_credential("fal", "a");
    service.set_credential("replicate", "b");
    service.delete_credential("fal").unwrap();
    assert!(!service.get_credential_status("fal").has_credential);
    assert!(service.get_credential_status("replicate").has_credential);
    assert_eq!(service.connection_test_key("replicate"), Some("b".to_string()));
    assert_eq!(service.connection_test_key("fal"), None);
}

#[test]
fn test_set_credential_replaces_key() {
    let mut service = service_with(&["kie"]);
    service.set_credential("kie", "old");
    service.set_credential("kie", "new");
    assert_eq!(service.connection_test_key("kie"), Some("new".to_string()));
    service.delete_credential("kie").unwrap();
    assert_eq!(service.connection_test_key("kie"), None);
    assert!(service.delete_credential("kie").is_err());
}

#[test]
fn test_connection_key_needs_registration() {
    let mut service = service_with(&["fal"]);
    service.set_credential("other", "k");
    assert_eq!(service.connection_test_key("other"), None);
    assert_eq!(service.connection_test_key("fal"), None);
}

#[test]
fn test_provider_enable_switch() {
    let mut service = service_with(&["fal", "kie"]);
    assert!(service.is_provider_enabled("fal"));
    assert!(service.is_provider_enabled("kie"));
    assert_eq!(service.set_provider_enabled("fal", false), Ok(()));
    assert!(!service.is_provider_enabled("fal"));
    assert!(service.is_provider_enabled("kie"));
    assert_eq!(service.set_provider_enabled("fal", true), Ok(()));
    assert!(service.is_provider_enabled("fal"));
    assert_eq!(
        service.set_provider_enabled("nope", true),
        Err(ServiceError::NotFound("Provider nope not found".to_string()))
    );
    assert!(!service.is_provider_enabled("nope"));
    assert!(service.is_registered("kie"));
    assert!(!service.is_registered("nope"));
}

#[test]
fn switching_a_provider_switches_its_profiles() {
    let mut service = service_with(&["fal", "kie"]);
    service.add_model_profile("fal", true);
    service.add_model_profile("kie", true);
    service.add_model_profile("fal", false);
    service.set_provider_enabled("fal", false).unwrap();
    assert_eq!(service.model_profile(0), Some(("fal".to_string(), false)));
    assert_eq!(service.model_profile(1), Some(("kie".to_string(), true)));
    assert_eq!(service.model_profile(2), Some(("fal".to_string(), false)));
    service.set_provider_enabled("fal", true).unwrap();
    assert_eq!(service.model_profile(2), Some(("fal".to_string(), true)));
    assert!(service.set_provider_enabled("nope", false).is_err());
    assert_eq!(service.model_profile(1), Some(("kie".to_string(), true)));
    assert_eq!(service.model_profile(3), None);
}
