use artifex::codegen::{check_engine, CodeEngine, code_files_from_response, codegen_operation_type, default_max_tokens, generation_summary, routing_error, CodegenError, RoutingFailure};
use artifex::agent::CodeFile;
use artifex::credentials::{credential_id, credential_status, CredentialError, KeychainCredentialStore, SERVICE_NAME};
use artifex::workers::{image_process_operation, ImageOperation};
use artifex::imagegen::{ImageGenParams, ImageGenResult};
use artifex::providers::{map_elevenlabs_status, map_fal_error, map_huggingface_error, map_replicate_error, map_together_error, ProviderError};
use artifex::renderer::{camera_preset, default_animation_fps, default_output_height, default_output_width, model_format, CameraPreset, ModelFormat};
use artifex::seeding::{codegen_operation_types, codegen_profile, seed_groups, ModelCapability};

#[test]
fn test_keychain_credential_store_creation() {
    let store = KeychainCredentialStore::new();
    let _ = store;
}

#[test]
fn keychain_outcomes() {
    let store = KeychainCredentialStore::new();
    assert_eq!(SERVICE_NAME, "com.artifex.game-ai-studio");
    assert_eq!(credential_id("replicate"), "replicate::api_key");
    assert_eq!(store.list(), Ok(vec![]));
    assert_eq!(store.get_outcome("fal::api_key", None, Some("s3".to_string())), Ok("s3".to_string()));
    assert_eq!(store.get_outcome("fal::api_key", None, None), Err(CredentialError::NotFound("fal::api_key".to_string())));
    assert_eq!(
        store.get_outcome("fal::api_key", Some("no keychain".to_string()), None),
        Err(CredentialError::Unavailable("no keychain".to_string()))
    );
    assert_eq!(store.set_outcome(None, Some("locked".to_string())), Err(CredentialError::StoreError("locked".to_string())));
    assert_eq!(store.delete_outcome("k", None, false), Err(CredentialError::NotFound("k".to_string())));
    assert_eq!(store.delete_outcome("k", None, true), Ok(()));
}

#[test]
fn credential_status_needs_registration_reference_and_secret() {
    let refs = vec!["fal".to_string(), "replicate".to_string()];
    assert!(credential_status("fal", true, &refs, true).has_credential);
    assert!(!credential_status("fal", false, &refs, true).has_credential);
    assert!(!credential_status("fal", true, &refs, false).has_credential);
    let s = credential_status("kie", true, &refs, true);
    assert_eq!(s.provider_id, "kie");
    assert!(!s.has_credential);
}

fn params(prompt: &str, width: u32, height: u32, steps: u32) -> ImageGenParams {
    ImageGenParams { prompt: prompt.to_string(), negative_prompt: None, width, height, steps, seed: None, num_images: 1, model_id: Some("m".to_string()) }
}

#[test]
fn image_gen_params_validation() {
    assert_eq!(params("a cat", 512, 512, 30).validate(), Ok(()));
    assert_eq!(params("", 512, 512, 30).validate(), Err("Prompt cannot be empty".to_string()));
    assert_eq!(params("a", 0, 512, 30).validate(), Err("Width and height must be non-zero".to_string()));
    assert_eq!(params("a", 512, 4097, 30).validate(), Err("Width and height must be at most 4096".to_string()));
    assert_eq!(params("a", 4096, 4096, 0).validate(), Err("Steps must be between 1 and 500".to_string()));
    assert_eq!(params("a", 1, 1, 501).validate(), Err("Steps must be between 1 and 500".to_string()));
    assert_eq!(params("a", 1, 1, 500).validate(), Ok(()));
    let r = ImageGenResult::new(vec![1, 2], 3, 4, "png".to_string());
    assert_eq!((r.image_data, r.width, r.height, r.format), (vec![1, 2], 3, 4, "png".to_string()));
}

#[test]
fn test_error_mapping_auth_failed() {
    let error = map_elevenlabs_status(401, "Invalid API key");
    assert!(matches!(error, ProviderError::AuthFailed { .. }));
}

#[test]
fn test_error_mapping_rate_limited() {
    let error = map_elevenlabs_status(429, "Rate limited");
    assert!(matches!(error, ProviderError::RateLimited { .. }));
}

#[test]
fn test_error_mapping_quota_exceeded() {
    let error = map_elevenlabs_status(402, "Quota exceeded");
    assert!(matches!(error, ProviderError::QuotaExceeded { .. }));
}

#[test]
fn provider_status_mapping() {
    assert_eq!(
        map_fal_error(403, "x".to_string().as_str()),
        ProviderError::AuthFailed { provider: "fal".to_string(), message: "Invalid or missing API key".to_string() }
    );
    assert_eq!(map_fal_error(404, "x"), ProviderError::ModelNotFound { model_id: "unknown".to_string() });
    assert_eq!(map_fal_error(500, "oops"), ProviderError::ProviderSpecific("fal".to_string(), "HTTP 500: oops".to_string()));
    assert_eq!(
        map_replicate_error(422, "bad"),
        ProviderError::ProviderSpecific("replicate".to_string(), "Invalid request: bad".to_string())
    );
    assert_eq!(
        map_huggingface_error(503, "x"),
        ProviderError::ProviderSpecific(
            "huggingface".to_string(),
            "Model is loading or temporarily unavailable. Please retry.".to_string()
        )
    );
    assert_eq!(
        map_together_error(429, "x"),
        ProviderError::RateLimited { provider: "together".to_string(), retry_after_secs: None }
    );
    assert_eq!(map_together_error(400, "q"), ProviderError::ProviderSpecific("together".to_string(), "Bad request: q".to_string()));
    assert_eq!(map_elevenlabs_status(422, "v"), ProviderError::ProviderSpecific("elevenlabs".to_string(), "v".to_string()));
}

#[test]
fn render_defaults_and_choices() {
    assert_eq!(default_output_width(), 256);
    assert_eq!(default_output_height(), 256);
    assert_eq!(default_animation_fps(), 12);
    assert_eq!(model_format("GLB"), Ok(ModelFormat::Gltf));
    assert_eq!(model_format("obj"), Ok(ModelFormat::Obj));
    assert_eq!(model_format("FBX"), Err("Unsupported model format: fbx (supported: gltf, glb, obj)".to_string()));
    assert_eq!(camera_preset("topdown"), Ok(CameraPreset::TopDown));
    assert_eq!(camera_preset("side"), Err("Invalid camera preset: side (valid: isometric, topdown, custom)".to_string()));
}

#[test]
fn code_generation_decisions() {
    assert_eq!(default_max_tokens(), 4096);
    assert_eq!(codegen_operation_type("godot"), "codegen.godot");
    assert_eq!(generation_summary(3), "Generated 3 file(s)");
    assert!(matches!(code_files_from_response(None), Err(e) if e == "Model returned invalid JSON output"));
    assert!(matches!(code_files_from_response(Some(vec![])), Err(e) if e == "Empty files array in response"));
    let f = CodeFile { path: "a.gd".to_string(), language: "gdscript".to_string(), description: "d".to_string(), content: "c".to_string() };
    assert_eq!(code_files_from_response(Some(vec![f.clone()])), Ok(vec![f]));
    assert!(matches!(
        routing_error(RoutingFailure::NoRuleForOperation, None, "codegen.unity", "x"),
        CodegenError::Validation(m) if m == "No routing rule configured for operation: codegen.unity"
    ));
    assert!(matches!(
        routing_error(RoutingFailure::ProfileNotFound, Some("abc"), "", "x"),
        CodegenError::Validation(m) if m == "Model profile not found: abc"
    ));
}

#[test]
fn seeded_catalog() {
    let all = seed_groups(true);
    assert_eq!(all.len(), 5);
    assert_eq!(all[0].profiles.len(), 4);
    assert_eq!(all[0].rules[0].operation_type, "imagegen.txt2img");
    assert_eq!(all[0].rules[0].fallback_profiles, vec!["FLUX.1 Dev (Fal)".to_string(), "Flux Kontext (Kie)".to_string()]);
    let later = seed_groups(false);
    assert_eq!(later.len(), 4);
    assert_eq!(later[0].profiles[0].model_id, "eleven_multilingual_v2");
    assert_eq!(later[3].rules[1].operation_type, "tilegen.basic");
    assert_eq!(codegen_operation_types(), vec!["codegen.godot", "codegen.unity"]);
    let caps = vec![vec![ModelCapability::ImageGen], vec![ModelCapability::Tts, ModelCapability::TextComplete], vec![ModelCapability::TextComplete]];
    assert_eq!(codegen_profile(&caps), Some(1));
    assert_eq!(codegen_profile(&vec![vec![ModelCapability::ImageGen]]), None);
}

#[test]
fn test_engine_from_str() {
    assert_eq!(CodeEngine::from_str("godot"), Some(CodeEngine::Godot));
    assert_eq!(CodeEngine::from_str("unity"), Some(CodeEngine::Unity));
    assert_eq!(CodeEngine::from_str("GODOT"), Some(CodeEngine::Godot));
    assert_eq!(CodeEngine::from_str("Unknown"), None);
}

#[test]
fn test_engine_properties() {
    let godot = CodeEngine::Godot;
    assert_eq!(godot.file_extension(), ".gd");
    assert_eq!(godot.language(), "GDScript");
    let unity = CodeEngine::Unity;
    assert_eq!(unity.file_extension(), ".cs");
    assert_eq!(unity.language(), "C#");
}

#[test]
fn unsupported_engine_is_a_bad_request() {
    assert!(matches!(check_engine("UnItY"), Ok(CodeEngine::Unity)));
    assert!(matches!(check_engine("bevy"), Err(CodegenError::Validation(m)) if m == "Unsupported engine: bevy"));
    assert_eq!(CodeEngine::from_str("godo"), None);
    assert_eq!(CodeEngine::from_str("godots"), None);
}

#[test]
fn image_worker_dispatches_by_job_type() {
    assert_eq!(image_process_operation("pixel_art_convert"), Ok(ImageOperation::PixelArt));
    assert_eq!(image_process_operation("image_outpaint"), Ok(ImageOperation::Outpaint));
    assert_eq!(image_process_operation("image_inpaint"), Ok(ImageOperation::Inpaint));
    assert_eq!(image_process_operation("image_remove_background"), Ok(ImageOperation::RemoveBackground));
    assert_eq!(
        image_process_operation("image_generate"),
        Err("Unknown job type for ImageProcessWorker: image_generate".to_string())
    );
}
