//! Tests for the per-instance tracker, the backoff schedule, the failure
//! classification, and the transcript path helper.

use flyllm::adapters::{
    classify_http_failure, convert_messages_to_cohere, extract_cohere_content,
    extract_google_response, extract_openai_response, map_messages_to_google_contents,
    prepare_anthropic_messages, CohereContentBlock, GoogleContent, GooglePart, GoogleResponse,
    GoogleResponseCandidate, OpenAIResponse, OpenAIResponseChoice,
};
use flyllm::dispatcher::{backoff_secs, build_llm_request};
use flyllm::utils::get_debug_path;
use flyllm::{InstanceTracker, LlmError, Message, TaskDefinition, TokenUsage};

#[test]
fn test_tracker_starts_zeroed() {
    let t = InstanceTracker::new(7);
    assert_eq!(t.last_used, 7);
    assert_eq!(t.request_count, 0);
    assert_eq!(t.error_count, 0);
    assert!(t.response_times.is_empty());
    assert_eq!(t.usage, TokenUsage::new());
}

#[test]
fn test_tracker_counts_and_errors() {
    let mut t = InstanceTracker::new(0);
    t.record_result(10, 100, true);
    t.record_result(20, 100, false);
    assert_eq!(t.request_count, 2);
    assert_eq!(t.error_count, 1);
    assert_eq!(t.last_used, 20);
    assert!(t.error_count <= t.request_count);
}

#[test]
fn test_tracker_window_evicts_oldest() {
    let mut t = InstanceTracker::new(0);
    for d in 0..12u64 {
        t.record_result(d, d + 1, true);
    }
    // the window holds the last ten latencies: 3, 4, ..., 12
    assert_eq!(t.response_times.len(), 10);
    assert_eq!(t.response_times[0], 3);
    assert_eq!(t.response_times[9], 12);
}

#[test]
fn test_tracker_average_latency() {
    let mut t = InstanceTracker::new(0);
    assert_eq!(t.avg_response_time(), 0);
    t.record_result(1, 100, true);
    t.record_result(2, 200, true);
    assert_eq!(t.avg_response_time(), 150);
}

#[test]
fn test_tracker_error_rate_percent() {
    let mut t = InstanceTracker::new(0);
    assert_eq!(t.get_error_rate(), 0);
    t.record_result(1, 10, true);
    t.record_result(2, 10, false);
    t.record_result(3, 10, false);
    t.record_result(4, 10, false);
    assert_eq!(t.get_error_rate(), 75);
}

#[test]
fn test_backoff_doubles_then_caps() {
    assert_eq!(backoff_secs(1), 2);
    assert_eq!(backoff_secs(2), 4);
    assert_eq!(backoff_secs(3), 8);
    assert_eq!(backoff_secs(4), 16);
    assert_eq!(backoff_secs(5), 32);
    assert_eq!(backoff_secs(6), 60);
    assert_eq!(backoff_secs(7), 60);
    assert_eq!(backoff_secs(100), 60);
}

#[test]
fn test_classify_429_is_rate_limit() {
    assert!(matches!(
        classify_http_failure(429, "whatever"),
        LlmError::RateLimit(_)
    ));
}

#[test]
fn test_classify_keywords_are_rate_limits() {
    for body in [
        "Rate Limit exceeded",
        "TOO MANY REQUESTS",
        "your quota exceeded today",
        "model is Overloaded",
        "request throttled",
    ] {
        assert!(
            matches!(classify_http_failure(500, body), LlmError::RateLimit(_)),
            "expected a rate limit for {:?}",
            body
        );
    }
}

#[test]
fn test_classify_other_bodies_are_api_errors() {
    match classify_http_failure(500, "internal server error") {
        LlmError::ApiError(msg) => assert_eq!(msg, "internal server error"),
        other => panic!("expected an API error, got {:?}", other),
    }
}

#[test]
fn test_debug_path_shape() {
    let path = get_debug_path("logs", 1736900000, 3, "openai", "gpt-4");
    assert_eq!(path, "logs/1736900000/3_openai_gpt-4/debug.json");
}

#[test]
fn test_build_llm_request_merges_parameters() {
    let task = TaskDefinition::new("chat").with_max_tokens(100).with_temperature(300);
    let overrides = flyllm::GenerationRequest::builder("hi").max_tokens(999).build();
    let request = build_llm_request("hi", Some(&task), overrides.params.as_ref());
    assert_eq!(request.messages.len(), 1);
    assert_eq!(request.messages[0].role, "user");
    assert_eq!(request.messages[0].content, "hi");
    assert!(request.model.is_none());
    // the per-request override wins; the task default fills the rest
    assert_eq!(request.max_tokens, Some(999));
    assert_eq!(request.temperature, Some(300));
}

#[test]
fn test_build_llm_request_empty_prompt() {
    let request = build_llm_request("", None, None);
    assert_eq!(request.messages[0].content, "");
    assert_eq!(request.max_tokens, None);
    assert_eq!(request.temperature, None);
}

fn msg(role: &str, content: &str) -> Message {
    Message { role: role.to_string(), content: content.to_string() }
}

#[test]
fn test_anthropic_messages_lift_system() {
    let messages = vec![msg("system", "be terse"), msg("user", "hi")];
    let (system, regular) = prepare_anthropic_messages(&messages).unwrap();
    assert_eq!(system.as_deref(), Some("be terse"));
    assert_eq!(regular.len(), 1);
    assert_eq!(regular[0].role, "user");
}

#[test]
fn test_anthropic_messages_fold_lone_system() {
    let messages = vec![msg("system", "be terse")];
    let (system, regular) = prepare_anthropic_messages(&messages).unwrap();
    assert!(system.is_none());
    assert_eq!(regular.len(), 1);
    assert_eq!(regular[0].role, "user");
    assert_eq!(regular[0].content, "Using this context: be terse");
}

#[test]
fn test_anthropic_messages_reject_empty() {
    assert!(prepare_anthropic_messages(&vec![]).is_err());
}

#[test]
fn test_google_mapping_renames_assistant_and_folds_system() {
    let messages = vec![msg("system", "sys"), msg("user", "hi"), msg("assistant", "yo")];
    let contents = map_messages_to_google_contents(&messages).unwrap();
    assert_eq!(contents.len(), 2);
    assert_eq!(contents[0].role, "user");
    assert_eq!(contents[0].parts[0].text, "sys\n\nhi");
    assert_eq!(contents[1].role, "model");
}

#[test]
fn test_google_mapping_rejects_system_without_user() {
    let messages = vec![msg("system", "sys"), msg("assistant", "yo")];
    assert!(map_messages_to_google_contents(&messages).is_err());
}

#[test]
fn test_google_mapping_rejects_leading_model_turn() {
    let messages = vec![msg("assistant", "yo"), msg("user", "hi")];
    assert!(map_messages_to_google_contents(&messages).is_err());
}

#[test]
fn test_cohere_conversion_and_extraction() {
    let messages = vec![msg("user", "hi"), msg("assistant", "yo")];
    let converted = convert_messages_to_cohere(&messages);
    assert_eq!(converted.len(), 2);
    assert_eq!(converted[1].role, "assistant");

    let blocks = vec![
        CohereContentBlock { content_type: "text".to_string(), text: Some("Hello".to_string()) },
        CohereContentBlock { content_type: "tool".to_string(), text: Some("skip".to_string()) },
        CohereContentBlock { content_type: "text".to_string(), text: Some(" world".to_string()) },
    ];
    assert_eq!(extract_cohere_content(&blocks), "Hello world");
}

#[test]
fn test_usage_addition_saturates() {
    let mut u = TokenUsage { prompt_tokens: u32::MAX - 1, completion_tokens: 0, total_tokens: 0 };
    u.add(&TokenUsage { prompt_tokens: 5, completion_tokens: 2, total_tokens: 7 });
    assert_eq!(u.prompt_tokens, u32::MAX);
    assert_eq!(u.completion_tokens, 2);
    assert_eq!(u.total_tokens, 7);
}

#[test]
fn test_extract_openai_response_maps_fields() {
    let wire = OpenAIResponse {
        model: Some("gpt-4-0613".to_string()),
        choices: vec![OpenAIResponseChoice {
            message: msg("assistant", "the answer"),
        }],
        usage: Some(flyllm::sse::OpenAIStreamUsage {
            prompt_tokens: 5,
            completion_tokens: 10,
            total_tokens: 15,
        }),
    };
    let resp = extract_openai_response(&wire, "gpt-4").unwrap();
    assert_eq!(resp.content, "the answer");
    assert_eq!(resp.model, "gpt-4-0613");
    assert_eq!(resp.usage.unwrap().total_tokens, 15);

    let no_model = OpenAIResponse { model: None, ..wire.clone() };
    assert_eq!(extract_openai_response(&no_model, "gpt-4").unwrap().model, "gpt-4");

    let empty = OpenAIResponse { model: None, choices: vec![], usage: None };
    assert!(matches!(
        extract_openai_response(&empty, "gpt-4"),
        Err(LlmError::ApiError(_))
    ));
}

#[test]
fn test_extract_google_response_joins_and_counts() {
    let wire = GoogleResponse {
        candidates: vec![GoogleResponseCandidate {
            content: GoogleContent {
                role: "model".to_string(),
                parts: vec![
                    GooglePart { text: "a".to_string() },
                    GooglePart { text: "b".to_string() },
                ],
            },
            token_count: 12,
        }],
    };
    let resp = extract_google_response(&wire, "gemini-pro").unwrap();
    assert_eq!(resp.content, "ab");
    assert_eq!(resp.model, "gemini-pro");
    // the upstream reports one total count; prompt and completion stay zero
    let usage = resp.usage.unwrap();
    assert_eq!(usage.prompt_tokens, 0);
    assert_eq!(usage.completion_tokens, 0);
    assert_eq!(usage.total_tokens, 12);

    let empty = GoogleResponse { candidates: vec![] };
    assert!(matches!(
        extract_google_response(&empty, "gemini-pro"),
        Err(LlmError::ApiError(_))
    ));
}
