//! Tests for the metric label helpers.

use flyllm::keys;
use flyllm::labels::{error_type_label, provider_label};
use flyllm::{LlmError, ProviderType};

#[test]
fn test_provider_label_openai() {
    assert_eq!(provider_label(ProviderType::OpenAI), "openai");
}

#[test]
fn test_provider_label_anthropic() {
    assert_eq!(provider_label(ProviderType::Anthropic), "anthropic");
}

#[test]
fn test_provider_label_mistral() {
    assert_eq!(provider_label(ProviderType::Mistral), "mistral");
}

#[test]
fn test_provider_label_google() {
    assert_eq!(provider_label(ProviderType::Google), "google");
}

#[test]
fn test_provider_label_ollama() {
    assert_eq!(provider_label(ProviderType::Ollama), "ollama");
}

#[test]
fn test_provider_label_lmstudio() {
    assert_eq!(provider_label(ProviderType::LMStudio), "lmstudio");
}

#[test]
fn test_provider_label_groq() {
    assert_eq!(provider_label(ProviderType::Groq), "groq");
}

#[test]
fn test_provider_label_cohere() {
    assert_eq!(provider_label(ProviderType::Cohere), "cohere");
}

#[test]
fn test_provider_label_togetherai() {
    assert_eq!(provider_label(ProviderType::TogetherAI), "togetherai");
}

#[test]
fn test_provider_label_perplexity() {
    assert_eq!(provider_label(ProviderType::Perplexity), "perplexity");
}

#[test]
fn test_error_type_label_api_error() {
    let error = LlmError::ApiError("test".to_string());
    assert_eq!(error_type_label(&error), "api_error");
}

#[test]
fn test_error_type_label_rate_limit() {
    let error = LlmError::RateLimit("test".to_string());
    assert_eq!(error_type_label(&error), "rate_limit");
}

#[test]
fn test_error_type_label_parse_error() {
    let error = LlmError::ParseError("test".to_string());
    assert_eq!(error_type_label(&error), "parse_error");
}

#[test]
fn test_error_type_label_provider_disabled() {
    let error = LlmError::ProviderDisabled("test".to_string());
    assert_eq!(error_type_label(&error), "provider_disabled");
}

#[test]
fn test_error_type_label_config_error() {
    let error = LlmError::ConfigError("test".to_string());
    assert_eq!(error_type_label(&error), "config_error");
}

#[test]
fn test_error_type_label_request_error() {
    let error = LlmError::RequestError("test".to_string());
    assert_eq!(error_type_label(&error), "request_error");
}

#[test]
fn test_label_keys() {
    assert_eq!(keys::PROVIDER, "provider");
    assert_eq!(keys::MODEL, "model");
    assert_eq!(keys::TASK, "task");
    assert_eq!(keys::ERROR_TYPE, "error_type");
}

#[test]
fn test_error_display_messages() {
    assert_eq!(
        LlmError::ApiError("boom".to_string()).display_message(),
        "API error: boom"
    );
    assert_eq!(
        LlmError::RateLimit("slow down".to_string()).display_message(),
        "Rate limit: slow down"
    );
    assert_eq!(
        LlmError::RequestError("reset".to_string()).display_message(),
        "Request error: reset"
    );
    assert_eq!(
        LlmError::ParseError("bad json".to_string()).display_message(),
        "Parse error: bad json"
    );
    assert_eq!(
        LlmError::ProviderDisabled("openai".to_string()).display_message(),
        "Provider disabled: openai"
    );
    assert_eq!(
        LlmError::ConfigError("no providers".to_string()).display_message(),
        "Configuration error: no providers"
    );
}
