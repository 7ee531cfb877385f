//! Records the model-configuration commands hand to the frontend.

use vstd::prelude::*;

verus! {

/// DTO for provider information.
#[derive(Debug)]
pub struct ProviderDto {
    /// Canonical lowercase provider ID (e.g. "replicate", "fal").
    pub id: String,
    /// Human-readable display name (e.g. "Replicate", "Fal").
    pub name: String,
    pub kind: String,
    pub base_url: String,
    pub supported_capabilities: Vec<String>,
    pub auth_type: String,
    pub enabled: bool,
}

/// DTO for routing rule.
#[derive(Debug)]
pub struct RoutingRuleDto {
    pub id: String,
    pub operation_type: String,
    pub default_profile_id: String,
    pub fallback_profile_ids: Vec<String>,
    pub created_at: String,
    pub updated_at: String,
}

/// DTO for prompt template.
#[derive(Debug)]
pub struct PromptTemplateDto {
    pub id: String,
    pub name: String,
    pub template_text: String,
    pub variables: Vec<String>,
    pub created_at: String,
    pub updated_at: String,
}

} // verus!
