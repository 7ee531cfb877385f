use artifex::imagegen::ImageGenParams;
use artifex::providers::{map_fal_error, map_huggingface_error, map_replicate_error, map_together_error, ProviderError};

fn provider_of(err: &ProviderError) -> &str {
    match err {
        ProviderError::AuthFailed { provider, .. } => provider,
        ProviderError::RateLimited { provider, .. } => provider,
        ProviderError::QuotaExceeded { provider, .. } => provider,
        ProviderError::Timeout { provider, .. } => provider,
        ProviderError::ProviderSpecific(provider, _) => provider,
        ProviderError::ModelNotFound { .. } | ProviderError::NetworkError(_) => "",
    }
}

fn empty_prompt_params() -> ImageGenParams {
    ImageGenParams {
        prompt: "".to_string(),
        negative_prompt: None,
        width: 512,
        height: 512,
        steps: 20,
        seed: None,
        num_images: 1,
        model_id: None,
    }
}

#[test]
fn fal_image_test_map_fal_error_401() {
    let err = map_fal_error(401, "Unauthorized");
    assert!(matches!(err, ProviderError::AuthFailed { .. }), "Expected AuthFailed");
    assert_eq!(provider_of(&err), "fal");
}

#[test]
fn fal_image_test_map_fal_error_429() {
    let err = map_fal_error(429, "Rate limit exceeded");
    assert!(matches!(err, ProviderError::RateLimited { .. }), "Expected RateLimited");
    assert_eq!(provider_of(&err), "fal");
}

#[test]
fn fal_video_test_map_fal_error_401() {
    let err = map_fal_error(401, "Unauthorized");
    assert!(matches!(err, ProviderError::AuthFailed { .. }), "Expected AuthFailed");
    assert_eq!(provider_of(&err), "fal");
}

#[test]
fn fal_video_test_map_fal_error_429() {
    let err = map_fal_error(429, "Rate limit exceeded");
    assert!(matches!(err, ProviderError::RateLimited { .. }), "Expected RateLimited");
    assert_eq!(provider_of(&err), "fal");
}

#[test]
fn test_map_huggingface_error_401() {
    let err = map_huggingface_error(401, "Unauthorized");
    assert!(matches!(err, ProviderError::AuthFailed { .. }), "Expected AuthFailed");
    assert_eq!(provider_of(&err), "huggingface");
}

#[test]
fn test_map_huggingface_error_429() {
    let err = map_huggingface_error(429, "Rate limit exceeded");
    assert!(matches!(err, ProviderError::RateLimited { .. }), "Expected RateLimited");
    assert_eq!(provider_of(&err), "huggingface");
}

#[test]
fn test_map_huggingface_error_503() {
    let err = map_huggingface_error(503, "Model loading");
    assert!(matches!(err, ProviderError::ProviderSpecific(..)), "Expected ProviderSpecific");
    assert_eq!(provider_of(&err), "huggingface");
}

#[test]
fn replicate_image_test_map_replicate_error_401() {
    let err = map_replicate_error(401, "Unauthorized");
    assert!(matches!(err, ProviderError::AuthFailed { .. }), "Expected AuthFailed");
    assert_eq!(provider_of(&err), "replicate");
}

#[test]
fn replicate_image_test_map_replicate_error_429() {
    let err = map_replicate_error(429, "Rate limit exceeded");
    assert!(matches!(err, ProviderError::RateLimited { .. }), "Expected RateLimited");
    assert_eq!(provider_of(&err), "replicate");
}

#[test]
fn replicate_image_test_map_replicate_error_404() {
    let err = map_replicate_error(404, "Not found");
    assert_eq!(err, ProviderError::ModelNotFound { model_id: "unknown".to_string() }, "Expected ModelNotFound");
}

#[test]
fn replicate_video_test_map_replicate_error_401() {
    let err = map_replicate_error(401, "Unauthorized");
    assert!(matches!(err, ProviderError::AuthFailed { .. }), "Expected AuthFailed");
    assert_eq!(provider_of(&err), "replicate");
}

#[test]
fn replicate_video_test_map_replicate_error_429() {
    let err = map_replicate_error(429, "Rate limit exceeded");
    assert!(matches!(err, ProviderError::RateLimited { .. }), "Expected RateLimited");
    assert_eq!(provider_of(&err), "replicate");
}

#[test]
fn replicate_video_test_map_replicate_error_404() {
    let err = map_replicate_error(404, "Not found");
    assert_eq!(err, ProviderError::ModelNotFound { model_id: "unknown".to_string() }, "Expected ModelNotFound");
}

#[test]
fn test_map_together_error_401() {
    let err = map_together_error(401, "Unauthorized");
    assert!(matches!(err, ProviderError::AuthFailed { .. }), "Expected AuthFailed");
    assert_eq!(provider_of(&err), "together");
}

#[test]
fn test_map_together_error_429() {
    let err = map_together_error(429, "Rate limit exceeded");
    assert!(matches!(err, ProviderError::RateLimited { .. }), "Expected RateLimited");
    assert_eq!(provider_of(&err), "together");
}

#[test]
fn fal_image_test_image_gen_params_validation() {
    assert!(empty_prompt_params().validate().is_err());
}

#[test]
fn replicate_image_test_image_gen_params_validation() {
    assert!(empty_prompt_params().validate().is_err());
}

#[test]
fn huggingface_image_test_image_gen_params_validation() {
    assert!(empty_prompt_params().validate().is_err());
}

#[test]
fn kie_image_test_image_gen_params_validation() {
    assert!(empty_prompt_params().validate().is_err());
}
