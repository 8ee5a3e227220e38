//! Tests for provider types and conversions.

use flyllm::ProviderType;

#[test]
fn test_provider_type_from_str_lowercase() {
    assert_eq!(ProviderType::from("anthropic"), ProviderType::Anthropic);
    assert_eq!(ProviderType::from("openai"), ProviderType::OpenAI);
    assert_eq!(ProviderType::from("mistral"), ProviderType::Mistral);
    assert_eq!(ProviderType::from("google"), ProviderType::Google);
    assert_eq!(ProviderType::from("ollama"), ProviderType::Ollama);
    assert_eq!(ProviderType::from("lmstudio"), ProviderType::LMStudio);
    assert_eq!(ProviderType::from("groq"), ProviderType::Groq);
    assert_eq!(ProviderType::from("cohere"), ProviderType::Cohere);
    assert_eq!(ProviderType::from("togetherai"), ProviderType::TogetherAI);
    assert_eq!(ProviderType::from("perplexity"), ProviderType::Perplexity);
}

#[test]
fn test_provider_type_from_str_mixed_case() {
    assert_eq!(ProviderType::from("Anthropic"), ProviderType::Anthropic);
    assert_eq!(ProviderType::from("OpenAI"), ProviderType::OpenAI);
    assert_eq!(ProviderType::from("MISTRAL"), ProviderType::Mistral);
    assert_eq!(ProviderType::from("Google"), ProviderType::Google);
    assert_eq!(ProviderType::from("OLLAMA"), ProviderType::Ollama);
    assert_eq!(ProviderType::from("LmStudio"), ProviderType::LMStudio);
    assert_eq!(ProviderType::from("GROQ"), ProviderType::Groq);
    assert_eq!(ProviderType::from("Cohere"), ProviderType::Cohere);
    assert_eq!(ProviderType::from("TogetherAI"), ProviderType::TogetherAI);
    assert_eq!(ProviderType::from("PERPLEXITY"), ProviderType::Perplexity);
}

#[test]
fn test_provider_type_display() {
    assert_eq!(ProviderType::Anthropic.display_name(), "Anthropic");
    assert_eq!(ProviderType::OpenAI.display_name(), "OpenAI");
    assert_eq!(ProviderType::Mistral.display_name(), "Mistral");
    assert_eq!(ProviderType::Google.display_name(), "Google");
    assert_eq!(ProviderType::Ollama.display_name(), "Ollama");
    assert_eq!(ProviderType::LMStudio.display_name(), "LMStudio");
    assert_eq!(ProviderType::Groq.display_name(), "Groq");
    assert_eq!(ProviderType::Cohere.display_name(), "Cohere");
    assert_eq!(ProviderType::TogetherAI.display_name(), "TogetherAI");
    assert_eq!(ProviderType::Perplexity.display_name(), "Perplexity");
}

#[test]
fn test_provider_type_equality() {
    assert_eq!(ProviderType::OpenAI, ProviderType::OpenAI);
    assert_ne!(ProviderType::OpenAI, ProviderType::Anthropic);
}

#[test]
fn test_provider_type_clone() {
    let provider = ProviderType::Anthropic;
    let cloned = provider.clone();
    assert_eq!(provider, cloned);
}

#[test]
fn test_provider_type_copy() {
    let provider = ProviderType::OpenAI;
    let copied = provider; // Copy, not move
    assert_eq!(provider, copied);
}

#[test]
fn test_provider_type_debug() {
    let debug_str = format!("{:?}", ProviderType::Anthropic);
    assert_eq!(debug_str, "Anthropic");
}

#[test]
fn test_all_providers_exist() {
    // Ensure we have all 10 providers
    let providers = vec![
        ProviderType::Anthropic,
        ProviderType::OpenAI,
        ProviderType::Mistral,
        ProviderType::Google,
        ProviderType::Ollama,
        ProviderType::LMStudio,
        ProviderType::Groq,
        ProviderType::Cohere,
        ProviderType::TogetherAI,
        ProviderType::Perplexity,
    ];
    assert_eq!(providers.len(), 10);
}

#[test]
fn test_parse_provider_type_unknown_is_none() {
    assert!(flyllm::types::parse_provider_type("unknown_provider").is_none());
    assert!(flyllm::types::parse_provider_type("").is_none());
}
