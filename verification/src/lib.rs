//! A load-balanced, fault-tolerant client core for multiple LLM completion
//! services: instance registry, task routing, load-balancing strategies, a
//! retry/backoff dispatcher with rate-limit distinction, per-instance metric
//! tracking, and streaming (SSE) decoding.
//!
//! The network edge (HTTP, JSON wire formats, TOML files, the environment) is
//! supplied by the hosting process through the [`port::AdapterPort`] trait and
//! plain-value conversions; everything in this crate is verified.

pub mod adapters;
pub mod builder;
pub mod config;
pub mod constants;
pub mod dispatcher;
pub mod errors;
pub mod instance;
pub mod keys;
pub mod labels;
pub mod manager;
pub mod params;
pub mod port;
pub mod request;
pub mod sse;
pub mod strategies;
pub mod tasks;
pub mod text;
pub mod tracker;
pub mod types;
pub mod utils;

pub use builder::LlmManagerBuilder;
pub use config::{Config, ProviderConfig, Settings, TaskConfig};
pub use errors::{LlmError, LlmResult};
pub use instance::{create_instance, Instance};
pub use manager::LlmManager;
pub use params::{ParamMap, ParamValue};
pub use port::AdapterPort;
pub use request::{GenerationRequest, LlmManagerRequest, LlmManagerResponse};
pub use sse::{
    parse_sse_buffer, parse_sse_line, AnthropicContentBlock, AnthropicDelta, AnthropicError,
    AnthropicMessage, AnthropicMessageDelta, AnthropicStreamEvent, AnthropicUsage,
    CohereStreamEvent, CohereStreamUsage, CohereTokenCounts, GoogleStreamCandidate,
    GoogleStreamEvent, OpenAIStreamChoice, OpenAIStreamChunk, OpenAIStreamDelta,
    OpenAIStreamUsage,
};
pub use strategies::{
    LeastRecentlyUsedStrategy, LowestLatencyStrategy, RandomStrategy, StrategyKind,
};
pub use tasks::TaskDefinition;
pub use tracker::InstanceTracker;
pub use types::{
    LlmRequest, LlmResponse, Message, ModelDiscovery, ModelInfo, ProviderType, StreamChunk,
    TokenUsage,
};
