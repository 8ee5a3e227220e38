//! Label values for the metric events the dispatcher reports: one stable
//! lower-case tag per provider family and per error kind.

use crate::errors::LlmError;
use crate::types::ProviderType;
use vstd::prelude::*;

verus! {

/// The lower-case metric label of each provider family.
pub open spec fn spec_provider_label(p: ProviderType) -> Seq<char> {
    match p {
        ProviderType::Anthropic => "anthropic"@,
        ProviderType::OpenAI => "openai"@,
        ProviderType::Mistral => "mistral"@,
        ProviderType::Google => "google"@,
        ProviderType::Ollama => "ollama"@,
        ProviderType::LMStudio => "lmstudio"@,
        ProviderType::Groq => "groq"@,
        ProviderType::Cohere => "cohere"@,
        ProviderType::TogetherAI => "togetherai"@,
        ProviderType::Perplexity => "perplexity"@,
    }
}

/// The metric label of each error kind.
pub open spec fn spec_error_type_label(e: LlmError) -> Seq<char> {
    match e {
        LlmError::RequestError(_) => "request_error"@,
        LlmError::ApiError(_) => "api_error"@,
        LlmError::RateLimit(_) => "rate_limit"@,
        LlmError::ParseError(_) => "parse_error"@,
        LlmError::ProviderDisabled(_) => "provider_disabled"@,
        LlmError::ConfigError(_) => "config_error"@,
    }
}

/// Convert a provider family to its metric label value.
pub fn provider_label(provider: ProviderType) -> (r: &'static str)
    ensures
        r@ == spec_provider_label(provider),
{
    match provider {
        ProviderType::Anthropic => "anthropic",
        ProviderType::OpenAI => "openai",
        ProviderType::Mistral => "mistral",
        ProviderType::Google => "google",
        ProviderType::Ollama => "ollama",
        ProviderType::LMStudio => "lmstudio",
        ProviderType::Groq => "groq",
        ProviderType::Cohere => "cohere",
        ProviderType::TogetherAI => "togetherai",
        ProviderType::Perplexity => "perplexity",
    }
}

/// Convert an error to its metric label value.
pub fn error_type_label(error: &LlmError) -> (r: &'static str)
    ensures
        r@ == spec_error_type_label(*error),
{
    match error {
        LlmError::RequestError(_) => "request_error",
        LlmError::ApiError(_) => "api_error",
        LlmError::RateLimit(_) => "rate_limit",
        LlmError::ParseError(_) => "parse_error",
        LlmError::ProviderDisabled(_) => "provider_disabled",
        LlmError::ConfigError(_) => "config_error",
    }
}

} // verus!
