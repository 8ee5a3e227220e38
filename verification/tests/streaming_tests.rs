//! Tests for the SSE decoding pipeline and the stream chunk conversions.

use flyllm::adapters::{GoogleContent, GooglePart};
use flyllm::sse::{
    parse_sse_buffer, parse_sse_line, AnthropicDelta, AnthropicMessage, AnthropicMessageDelta,
    AnthropicStreamEvent, AnthropicUsage, CohereStreamEvent, CohereStreamUsage,
    CohereTokenCounts, GoogleStreamCandidate, GoogleStreamEvent, OpenAIStreamChoice,
    OpenAIStreamChunk, OpenAIStreamDelta, OpenAIStreamUsage,
};
use flyllm::{StreamChunk, TokenUsage};

#[test]
fn test_parse_sse_line_strips_prefix() {
    assert_eq!(parse_sse_line("data: hello"), Some("hello"));
    assert_eq!(parse_sse_line("  data: hello  "), Some("hello"));
    assert_eq!(parse_sse_line("data: [DONE]"), Some("[DONE]"));
    assert_eq!(parse_sse_line("event: ping"), None);
    assert_eq!(parse_sse_line(""), None);
    // the prefix needs no space, and the payload's leading whitespace goes
    assert_eq!(parse_sse_line("data:no space"), Some("no space"));
    assert_eq!(parse_sse_line("data:   padded"), Some("padded"));
}

#[test]
fn test_parse_sse_buffer_collects_events() {
    let buffer = "data: one\nevent: ping\ndata: two\ndata: [DONE]\n";
    let (events, remaining) = parse_sse_buffer(buffer);
    assert_eq!(events, vec!["one".to_string(), "two".to_string()]);
    assert_eq!(remaining, "");
}

#[test]
fn test_parse_sse_buffer_keeps_partial_line() {
    let buffer = "data: one\ndata: par";
    let (events, remaining) = parse_sse_buffer(buffer);
    // the partial line still contributes its payload and stays buffered
    assert_eq!(events, vec!["one".to_string(), "par".to_string()]);
    assert_eq!(remaining, "data: par");
}

#[test]
fn test_parse_sse_buffer_empty() {
    let (events, remaining) = parse_sse_buffer("");
    assert!(events.is_empty());
    assert_eq!(remaining, "");
}

fn openai_chunk(
    content: Option<&str>,
    finish: Option<&str>,
    usage: Option<OpenAIStreamUsage>,
) -> OpenAIStreamChunk {
    OpenAIStreamChunk {
        id: None,
        object: None,
        created: None,
        model: Some("gpt-4".to_string()),
        choices: vec![OpenAIStreamChoice {
            index: 0,
            delta: OpenAIStreamDelta { role: None, content: content.map(|c| c.to_string()) },
            finish_reason: finish.map(|f| f.to_string()),
        }],
        usage,
    }
}

#[test]
fn test_openai_to_stream_chunk_content() {
    let chunk = openai_chunk(Some("hel"), None, None).to_stream_chunk().unwrap();
    assert_eq!(chunk.content, "hel");
    assert_eq!(chunk.model.as_deref(), Some("gpt-4"));
    assert!(!chunk.is_final);
    assert!(chunk.usage.is_none());
}

#[test]
fn test_openai_to_stream_chunk_final_with_usage() {
    let usage = OpenAIStreamUsage { prompt_tokens: 3, completion_tokens: 7, total_tokens: 10 };
    let chunk = openai_chunk(None, Some("stop"), Some(usage)).to_stream_chunk().unwrap();
    assert_eq!(chunk.content, "");
    assert!(chunk.is_final);
    assert_eq!(
        chunk.usage,
        Some(TokenUsage { prompt_tokens: 3, completion_tokens: 7, total_tokens: 10 })
    );
}

#[test]
fn test_openai_to_stream_chunk_no_choices() {
    let chunk = OpenAIStreamChunk {
        id: None,
        object: None,
        created: None,
        model: None,
        choices: vec![],
        usage: None,
    };
    assert!(chunk.to_stream_chunk().is_none());
}

#[test]
fn test_anthropic_content_delta_to_chunk() {
    let event = AnthropicStreamEvent::ContentBlockDelta {
        index: 0,
        delta: AnthropicDelta { delta_type: "text_delta".to_string(), text: Some("hi".to_string()) },
    };
    let chunk = event.to_stream_chunk().unwrap();
    assert_eq!(chunk.content, "hi");
    assert!(!chunk.is_final);
}

#[test]
fn test_anthropic_message_delta_final_sums_usage() {
    let event = AnthropicStreamEvent::MessageDelta {
        delta: AnthropicMessageDelta { stop_reason: Some("end_turn".to_string()) },
        usage: Some(AnthropicUsage { input_tokens: Some(4), output_tokens: Some(6) }),
    };
    let chunk = event.to_stream_chunk().unwrap();
    assert!(chunk.is_final);
    assert_eq!(
        chunk.usage,
        Some(TokenUsage { prompt_tokens: 4, completion_tokens: 6, total_tokens: 10 })
    );
}

#[test]
fn test_anthropic_message_start_announces_model() {
    let event = AnthropicStreamEvent::MessageStart {
        message: AnthropicMessage {
            id: "msg_1".to_string(),
            model: "nimbus-3".to_string(),
            usage: None,
        },
    };
    let chunk = event.to_stream_chunk().unwrap();
    assert_eq!(chunk.model.as_deref(), Some("nimbus-3"));
    assert!(!chunk.is_final);
    assert_eq!(chunk.content, "");
}

#[test]
fn test_anthropic_ping_is_skipped() {
    assert!(AnthropicStreamEvent::Ping.to_stream_chunk().is_none());
    assert!(AnthropicStreamEvent::MessageStop.to_stream_chunk().is_none());
}

#[test]
fn test_stream_chunk_constructors() {
    let content = StreamChunk::content("abc");
    assert_eq!(content.content, "abc");
    assert!(!content.is_final);
    assert!(content.model.is_none());
    assert!(content.usage.is_none());

    let done = StreamChunk::final_chunk(
        "gpt-4",
        Some(TokenUsage { prompt_tokens: 1, completion_tokens: 2, total_tokens: 3 }),
    );
    assert_eq!(done.content, "");
    assert!(done.is_final);
    assert_eq!(done.model.as_deref(), Some("gpt-4"));
    assert_eq!(done.usage.unwrap().total_tokens, 3);
}

#[test]
fn test_cohere_content_delta_to_chunk() {
    let chunk = CohereStreamEvent::ContentDelta { text: Some("hey".to_string()) }
        .to_stream_chunk()
        .unwrap();
    assert_eq!(chunk.content, "hey");
    assert!(!chunk.is_final);
    assert!(chunk.usage.is_none());
    assert!(CohereStreamEvent::ContentDelta { text: None }.to_stream_chunk().is_none());
    assert!(CohereStreamEvent::Other.to_stream_chunk().is_none());
}

#[test]
fn test_cohere_message_end_prefers_tokens() {
    let usage = CohereStreamUsage {
        tokens: Some(CohereTokenCounts { input_tokens: Some(3), output_tokens: Some(4) }),
        billed_units: Some(CohereTokenCounts { input_tokens: Some(9), output_tokens: Some(9) }),
    };
    let chunk = CohereStreamEvent::MessageEnd { usage: Some(usage) }.to_stream_chunk().unwrap();
    assert!(chunk.is_final);
    assert_eq!(
        chunk.usage,
        Some(TokenUsage { prompt_tokens: 3, completion_tokens: 4, total_tokens: 7 })
    );
}

#[test]
fn test_cohere_message_end_billed_units_fallback() {
    let usage = CohereStreamUsage {
        tokens: None,
        billed_units: Some(CohereTokenCounts { input_tokens: Some(2), output_tokens: None }),
    };
    let chunk = CohereStreamEvent::MessageEnd { usage: Some(usage) }.to_stream_chunk().unwrap();
    assert_eq!(
        chunk.usage,
        Some(TokenUsage { prompt_tokens: 2, completion_tokens: 0, total_tokens: 2 })
    );
    let bare = CohereStreamEvent::MessageEnd { usage: None }.to_stream_chunk().unwrap();
    assert!(bare.is_final);
    assert!(bare.usage.is_none());
}

#[test]
fn test_google_stream_event_joins_parts() {
    let event = GoogleStreamEvent {
        candidates: vec![GoogleStreamCandidate {
            content: Some(GoogleContent {
                role: "model".to_string(),
                parts: vec![
                    GooglePart { text: "Hel".to_string() },
                    GooglePart { text: "lo".to_string() },
                ],
            }),
            finish_reason: Some("STOP".to_string()),
        }],
    };
    let chunk = event.to_stream_chunk().unwrap();
    assert_eq!(chunk.content, "Hello");
    assert!(chunk.is_final);

    let empty = GoogleStreamEvent { candidates: vec![] };
    assert!(empty.to_stream_chunk().is_none());
    let contentless = GoogleStreamEvent {
        candidates: vec![GoogleStreamCandidate { content: None, finish_reason: None }],
    };
    assert!(contentless.to_stream_chunk().is_none());
}
