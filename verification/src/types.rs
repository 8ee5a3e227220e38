//! Core data types shared across the crate: provider identity, requests,
//! responses, token usage, and stream chunks.

use crate::text::{eq_ignore_case, str_eq_ignore_case};
use vstd::prelude::*;

verus! {

/// The ten provider families a configured instance can belong to.
#[derive(Debug, Clone, Copy, PartialEq, Eq, Hash, Structural)]
pub enum ProviderType {
    Anthropic,
    OpenAI,
    Mistral,
    Google,
    Ollama,
    LMStudio,
    Groq,
    Cohere,
    TogetherAI,
    Perplexity,
}

/// Which provider family a tag names, compared without regard to ASCII case;
/// `None` for an unknown tag.
pub open spec fn spec_parse_provider(s: Seq<char>) -> Option<ProviderType> {
    if eq_ignore_case(s, "anthropic"@) {
        Some(ProviderType::Anthropic)
    } else if eq_ignore_case(s, "openai"@) {
        Some(ProviderType::OpenAI)
    } else if eq_ignore_case(s, "mistral"@) {
        Some(ProviderType::Mistral)
    } else if eq_ignore_case(s, "google"@) {
        Some(ProviderType::Google)
    } else if eq_ignore_case(s, "ollama"@) {
        Some(ProviderType::Ollama)
    } else if eq_ignore_case(s, "lmstudio"@) {
        Some(ProviderType::LMStudio)
    } else if eq_ignore_case(s, "groq"@) {
        Some(ProviderType::Groq)
    } else if eq_ignore_case(s, "cohere"@) {
        Some(ProviderType::Cohere)
    } else if eq_ignore_case(s, "togetherai"@) {
        Some(ProviderType::TogetherAI)
    } else if eq_ignore_case(s, "perplexity"@) {
        Some(ProviderType::Perplexity)
    } else {
        None
    }
}

/// The capitalized display name of each provider family.
pub open spec fn spec_display_name(p: ProviderType) -> Seq<char> {
    match p {
        ProviderType::Anthropic => "Anthropic"@,
        ProviderType::OpenAI => "OpenAI"@,
        ProviderType::Mistral => "Mistral"@,
        ProviderType::Google => "Google"@,
        ProviderType::Ollama => "Ollama"@,
        ProviderType::LMStudio => "LMStudio"@,
        ProviderType::Groq => "Groq"@,
        ProviderType::Cohere => "Cohere"@,
        ProviderType::TogetherAI => "TogetherAI"@,
        ProviderType::Perplexity => "Perplexity"@,
    }
}

/// Parse a provider tag, accepting any ASCII casing.
pub fn parse_provider_type(value: &str) -> (r: Option<ProviderType>)
    ensures
        r == spec_parse_provider(value@),
{
    if str_eq_ignore_case(value, "anthropic") {
        Some(ProviderType::Anthropic)
    } else if str_eq_ignore_case(value, "openai") {
        Some(ProviderType::OpenAI)
    } else if str_eq_ignore_case(value, "mistral") {
        Some(ProviderType::Mistral)
    } else if str_eq_ignore_case(value, "google") {
        Some(ProviderType::Google)
    } else if str_eq_ignore_case(value, "ollama") {
        Some(ProviderType::Ollama)
    } else if str_eq_ignore_case(value, "lmstudio") {
        Some(ProviderType::LMStudio)
    } else if str_eq_ignore_case(value, "groq") {
        Some(ProviderType::Groq)
    } else if str_eq_ignore_case(value, "cohere") {
        Some(ProviderType::Cohere)
    } else if str_eq_ignore_case(value, "togetherai") {
        Some(ProviderType::TogetherAI)
    } else if str_eq_ignore_case(value, "perplexity") {
        Some(ProviderType::Perplexity)
    } else {
        None
    }
}

impl ProviderType {
    /// Parse a provider tag that is known to be valid; validation rejects the
    /// others before this conversion is reached.
    pub fn from(value: &str) -> (r: ProviderType)
        requires
            spec_parse_provider(value@) is Some,
        ensures
            Some(r) == spec_parse_provider(value@),
    {
        match parse_provider_type(value) {
            Some(p) => p,
            None => vstd::pervasive::unreached(),
        }
    }

    /// The capitalized display name of this provider family.
    pub fn display_name(&self) -> (r: &'static str)
        ensures
            r@ == spec_display_name(*self),
    {
        match self {
            ProviderType::Anthropic => "Anthropic",
            ProviderType::OpenAI => "OpenAI",
            ProviderType::Mistral => "Mistral",
            ProviderType::Google => "Google",
            ProviderType::Ollama => "Ollama",
            ProviderType::LMStudio => "LMStudio",
            ProviderType::Groq => "Groq",
            ProviderType::Cohere => "Cohere",
            ProviderType::TogetherAI => "TogetherAI",
            ProviderType::Perplexity => "Perplexity",
        }
    }
}

/// One chat message, a role (`system`, `user`, `assistant` or `model`) and
/// its content.
#[derive(Debug, Clone)]
pub struct Message {
    pub role: String,
    pub content: String,
}

/// The request handed to an adapter after parameter merging. The temperature
/// is carried in thousandths, so `700` stands for 0.7.
#[derive(Debug, Clone)]
pub struct LlmRequest {
    pub messages: Vec<Message>,
    pub model: Option<String>,
    pub max_tokens: Option<u32>,
    pub temperature: Option<u32>,
}

/// A full (non-streamed) completion returned by an adapter.
#[derive(Debug, Clone)]
pub struct LlmResponse {
    pub content: String,
    pub model: String,
    pub usage: Option<TokenUsage>,
}

/// Marker for the model-discovery listings: read-only queries that the
/// hosting process performs over plain HTTP, returning [`ModelInfo`]
/// records.
#[derive(Debug, Clone, Copy)]
pub struct ModelDiscovery;

/// The name of one model available from a provider family.
#[derive(Debug, Clone)]
pub struct ModelInfo {
    pub name: String,
    pub provider: ProviderType,
}

/// One delta of a streamed completion.
#[derive(Debug, Clone)]
pub struct StreamChunk {
    /// The text of this chunk, possibly empty.
    pub content: String,
    /// The generating model, usually known only at the final chunk.
    pub model: Option<String>,
    /// Whether this chunk ends the stream.
    pub is_final: bool,
    /// Usage totals, typically present only on the final chunk.
    pub usage: Option<TokenUsage>,
}

impl StreamChunk {
    /// A plain content chunk.
    pub fn content(text: &str) -> (r: StreamChunk)
        ensures
            r.content@ == text@,
            r.model is None,
            !r.is_final,
            r.usage is None,
    {
        StreamChunk { content: text.to_owned(), model: None, is_final: false, usage: None }
    }

    /// The closing chunk, carrying the model name and any usage totals.
    pub fn final_chunk(model: &str, usage: Option<TokenUsage>) -> (r: StreamChunk)
        ensures
            r.content@ == Seq::<char>::empty(),
            r.model matches Some(m) && m@ == model@,
            r.is_final,
            r.usage == usage,
    {
        StreamChunk { content: String::new(), model: Some(model.to_owned()), is_final: true, usage }
    }
}

/// Token usage reported by a provider for one call, and also the running
/// per-instance accumulation kept by the tracker.
#[derive(Debug, Clone, Copy, PartialEq, Eq, Structural)]
pub struct TokenUsage {
    pub prompt_tokens: u32,
    pub completion_tokens: u32,
    pub total_tokens: u32,
}

impl TokenUsage {
    /// The zero usage: starting point of every accumulation.
    pub fn new() -> (r: TokenUsage)
        ensures
            r.prompt_tokens == 0,
            r.completion_tokens == 0,
            r.total_tokens == 0,
    {
        TokenUsage { prompt_tokens: 0, completion_tokens: 0, total_tokens: 0 }
    }

    /// Fold another usage record into this one, field by field, saturating at
    /// the type's maximum.
    pub fn add(&mut self, other: &TokenUsage)
        ensures
            final(self).prompt_tokens == spec_sat_add_u32(
                old(self).prompt_tokens,
                other.prompt_tokens,
            ),
            final(self).completion_tokens == spec_sat_add_u32(
                old(self).completion_tokens,
                other.completion_tokens,
            ),
            final(self).total_tokens == spec_sat_add_u32(
                old(self).total_tokens,
                other.total_tokens,
            ),
    {
        self.prompt_tokens = self.prompt_tokens.saturating_add(other.prompt_tokens);
        self.completion_tokens = self.completion_tokens.saturating_add(other.completion_tokens);
        self.total_tokens = self.total_tokens.saturating_add(other.total_tokens);
    }
}

impl Default for TokenUsage {
    fn default() -> (r: TokenUsage)
        ensures
            r.prompt_tokens == 0,
            r.completion_tokens == 0,
            r.total_tokens == 0,
    {
        TokenUsage { prompt_tokens: 0, completion_tokens: 0, total_tokens: 0 }
    }
}

/// Addition on a `u32` that stops at the maximum instead of wrapping.
pub open spec fn spec_sat_add_u32(a: u32, b: u32) -> u32 {
    if a + b <= u32::MAX {
        (a + b) as u32
    } else {
        u32::MAX
    }
}

} // verus!
