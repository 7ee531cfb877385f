//! How the remote AI providers' HTTP error statuses are reported: each
//! provider maps a failed response's status code and body to an error kind.

use vstd::prelude::*;
use crate::text::{decimal, decimal_string};

verus! {

/// Failure of a call to an AI provider.
#[derive(Debug, PartialEq, Eq)]
pub enum ProviderError {
    /// The API key was refused.
    AuthFailed { provider: String, message: String },
    /// The provider asked to slow down.
    RateLimited { provider: String, retry_after_secs: Option<u64> },
    /// The requested model does not exist.
    ModelNotFound { model_id: String },
    /// The account's quota is used up.
    QuotaExceeded { provider: String, message: String },
    /// The provider did not finish in the time allowed.
    Timeout { provider: String, message: String },
    /// The request could not be sent or its reply not read.
    NetworkError(String),
    /// Any other failure, with the provider's name and a message.
    ProviderSpecific(String, String),
}

/// The error texts of a provider error, for stating what a mapping gives.
pub enum ProviderErrorText {
    AuthFailed { provider: Seq<char>, message: Seq<char> },
    RateLimited { provider: Seq<char>, retry_after_secs: Option<u64> },
    ModelNotFound { model_id: Seq<char> },
    QuotaExceeded { provider: Seq<char>, message: Seq<char> },
    Timeout { provider: Seq<char>, message: Seq<char> },
    NetworkError(Seq<char>),
    ProviderSpecific(Seq<char>, Seq<char>),
}

/// The texts an error carries.
pub open spec fn error_text(e: ProviderError) -> ProviderErrorText {
    match e {
        ProviderError::AuthFailed { provider, message } => ProviderErrorText::AuthFailed {
            provider: provider@,
            message: message@,
        },
        ProviderError::RateLimited { provider, retry_after_secs } => ProviderErrorText::RateLimited {
            provider: provider@,
            retry_after_secs,
        },
        ProviderError::ModelNotFound { model_id } => ProviderErrorText::ModelNotFound { model_id: model_id@ },
        ProviderError::QuotaExceeded { provider, message } => ProviderErrorText::QuotaExceeded {
            provider: provider@,
            message: message@,
        },
        ProviderError::Timeout { provider, message } => ProviderErrorText::Timeout {
            provider: provider@,
            message: message@,
        },
        ProviderError::NetworkError(m) => ProviderErrorText::NetworkError(m@),
        ProviderError::ProviderSpecific(p, m) => ProviderErrorText::ProviderSpecific(p@, m@),
    }
}

/// `HTTP <status>: <body>`
pub open spec fn http_message(status: u16, body: Seq<char>) -> Seq<char> {
    "HTTP "@ + decimal(status as nat) + ": "@ + body
}

pub(crate) fn auth_failed(provider: &str, message: &str) -> (e: ProviderError)
    ensures
        error_text(e) == (ProviderErrorText::AuthFailed { provider: provider@, message: message@ }),
{
    ProviderError::AuthFailed { provider: String::from_str(provider), message: String::from_str(message) }
}

pub(crate) fn rate_limited(provider: &str) -> (e: ProviderError)
    ensures
        error_text(e) == (ProviderErrorText::RateLimited { provider: provider@, retry_after_secs: None }),
{
    ProviderError::RateLimited { provider: String::from_str(provider), retry_after_secs: None }
}

fn model_not_found() -> (e: ProviderError)
    ensures
        error_text(e) == (ProviderErrorText::ModelNotFound { model_id: "unknown"@ }),
{
    ProviderError::ModelNotFound { model_id: String::from_str("unknown") }
}

pub(crate) fn specific(provider: &str, prefix: &str, body: &str) -> (e: ProviderError)
    ensures
        error_text(e) == ProviderErrorText::ProviderSpecific(provider@, prefix@ + body@),
{
    let mut m = String::from_str(prefix);
    m.append(body);
    ProviderError::ProviderSpecific(String::from_str(provider), m)
}

pub(crate) fn http_error(provider: &str, status: u16, body: &str) -> (e: ProviderError)
    ensures
        error_text(e) == ProviderErrorText::ProviderSpecific(provider@, http_message(status, body@)),
{
    let mut m = String::from_str("HTTP ");
    m.append(decimal_string(status as u64).as_str());
    m.append(": ");
    m.append(body);
    ProviderError::ProviderSpecific(String::from_str(provider), m)
}

/// Maps a failed Fal response.
pub fn map_fal_error(status: u16, body: &str) -> (e: ProviderError)
    ensures
        error_text(e) == (if status == 401 || status == 403 {
            ProviderErrorText::AuthFailed { provider: "fal"@, message: "Invalid or missing API key"@ }
        } else if status == 429 {
            ProviderErrorText::RateLimited { provider: "fal"@, retry_after_secs: None }
        } else if status == 404 {
            ProviderErrorText::ModelNotFound { model_id: "unknown"@ }
        } else {
            ProviderErrorText::ProviderSpecific("fal"@, http_message(status, body@))
        }),
{
    if status == 401 || status == 403 {
        auth_failed("fal", "Invalid or missing API key")
    } else if status == 429 {
        rate_limited("fal")
    } else if status == 404 {
        model_not_found()
    } else {
        http_error("fal", status, body)
    }
}

/// Maps a failed Replicate response.
pub fn map_replicate_error(status: u16, body: &str) -> (e: ProviderError)
    ensures
        error_text(e) == (if status == 401 || status == 403 {
            ProviderErrorText::AuthFailed { provider: "replicate"@, message: "Invalid or missing API key"@ }
        } else if status == 429 {
            ProviderErrorText::RateLimited { provider: "replicate"@, retry_after_secs: None }
        } else if status == 404 {
            ProviderErrorText::ModelNotFound { model_id: "unknown"@ }
        } else if status == 422 {
            ProviderErrorText::ProviderSpecific("replicate"@, "Invalid request: "@ + body@)
        } else {
            ProviderErrorText::ProviderSpecific("replicate"@, http_message(status, body@))
        }),
{
    if status == 401 || status == 403 {
        auth_failed("replicate", "Invalid or missing API key")
    } else if status == 429 {
        rate_limited("replicate")
    } else if status == 404 {
        model_not_found()
    } else if status == 422 {
        specific("replicate", "Invalid request: ", body)
    } else {
        http_error("replicate", status, body)
    }
}

/// Maps a failed Hugging Face response.
pub fn map_huggingface_error(status: u16, body: &str) -> (e: ProviderError)
    ensures
        error_text(e) == (if status == 401 || status == 403 {
            ProviderErrorText::AuthFailed { provider: "huggingface"@, message: "Invalid or missing API key"@ }
        } else if status == 422 {
            ProviderErrorText::ProviderSpecific("huggingface"@, "Invalid request: "@ + body@)
        } else if status == 503 {
            ProviderErrorText::ProviderSpecific(
                "huggingface"@,
                "Model is loading or temporarily unavailable. Please retry."@,
            )
        } else if status == 429 {
            ProviderErrorText::RateLimited { provider: "huggingface"@, retry_after_secs: None }
        } else {
            ProviderErrorText::ProviderSpecific("huggingface"@, http_message(status, body@))
        }),
{
    if status == 401 || status == 403 {
        auth_failed("huggingface", "Invalid or missing API key")
    } else if status == 422 {
        specific("huggingface", "Invalid request: ", body)
    } else if status == 503 {
        ProviderError::ProviderSpecific(
            String::from_str("huggingface"),
            String::from_str("Model is loading or temporarily unavailable. Please retry."),
        )
    } else if status == 429 {
        rate_limited("huggingface")
    } else {
        http_error("huggingface", status, body)
    }
}

/// Maps a failed Together response.
pub fn map_together_error(status: u16, body: &str) -> (e: ProviderError)
    ensures
        error_text(e) == (if status == 401 || status == 403 {
            ProviderErrorText::AuthFailed { provider: "together"@, message: "Invalid or missing API key"@ }
        } else if status == 429 {
            ProviderErrorText::RateLimited { provider: "together"@, retry_after_secs: None }
        } else if status == 400 {
            ProviderErrorText::ProviderSpecific("together"@, "Bad request: "@ + body@)
        } else {
            ProviderErrorText::ProviderSpecific("together"@, http_message(status, body@))
        }),
{
    if status == 401 || status == 403 {
        auth_failed("together", "Invalid or missing API key")
    } else if status == 429 {
        rate_limited("together")
    } else if status == 400 {
        specific("together", "Bad request: ", body)
    } else {
        http_error("together", status, body)
    }
}

/// Maps a failed ElevenLabs response; the body is kept as the message.
pub fn map_elevenlabs_status(status: u16, body: &str) -> (e: ProviderError)
    ensures
        error_text(e) == (if status == 401 {
            ProviderErrorText::AuthFailed { provider: "elevenlabs"@, message: body@ }
        } else if status == 429 {
            ProviderErrorText::RateLimited { provider: "elevenlabs"@, retry_after_secs: None }
        } else if status == 402 {
            ProviderErrorText::QuotaExceeded { provider: "elevenlabs"@, message: body@ }
        } else if status == 422 {
            ProviderErrorText::ProviderSpecific("elevenlabs"@, body@)
        } else {
            ProviderErrorText::ProviderSpecific("elevenlabs"@, http_message(status, body@))
        }),
{
    if status == 401 {
        auth_failed("elevenlabs", body)
    } else if status == 429 {
        rate_limited("elevenlabs")
    } else if status == 402 {
        ProviderError::QuotaExceeded { provider: String::from_str("elevenlabs"), message: String::from_str(body) }
    } else if status == 422 {
        ProviderError::ProviderSpecific(String::from_str("elevenlabs"), String::from_str(body))
    } else {
        http_error("elevenlabs", status, body)
    }
}

} // verus!
