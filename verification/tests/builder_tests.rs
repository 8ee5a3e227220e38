//! Tests for the manager builder and the task routing setup.

use flyllm::{
    LeastRecentlyUsedStrategy, LlmManager, LowestLatencyStrategy, ProviderType, RandomStrategy,
    StrategyKind, TaskDefinition,
};

#[test]
fn test_builder_creates_manager() {
    let manager = LlmManager::builder()
        .define_task(TaskDefinition::new("test"))
        .add_instance(ProviderType::OpenAI, "gpt-4", "fake-key")
        .supports("test")
        .build()
        .unwrap();

    assert_eq!(manager.get_provider_count(), 1);
}

#[test]
fn test_builder_multiple_providers() {
    let manager = LlmManager::builder()
        .define_task(TaskDefinition::new("chat"))
        .add_instance(ProviderType::OpenAI, "gpt-4", "key1")
        .supports("chat")
        .add_instance(ProviderType::Anthropic, "nimbus-3", "key2")
        .supports("chat")
        .add_instance(ProviderType::Mistral, "mistral-large", "key3")
        .supports("chat")
        .build()
        .unwrap();

    assert_eq!(manager.get_provider_count(), 3);
}

#[test]
fn test_builder_multiple_tasks() {
    let manager = LlmManager::builder()
        .define_task(TaskDefinition::new("summary").with_max_tokens(500))
        .define_task(TaskDefinition::new("creative").with_temperature(900))
        .define_task(TaskDefinition::new("code").with_max_tokens(4000))
        .add_instance(ProviderType::OpenAI, "gpt-4", "key")
        .supports_many(&["summary", "creative", "code"])
        .build()
        .unwrap();

    assert_eq!(manager.get_provider_count(), 1);
    assert_eq!(manager.task_instances("summary"), vec![0]);
    assert_eq!(manager.task_instances("creative"), vec![0]);
    assert_eq!(manager.task_instances("code"), vec![0]);
}

#[test]
fn test_builder_with_custom_endpoint() {
    let manager = LlmManager::builder()
        .define_task(TaskDefinition::new("chat"))
        .add_instance(ProviderType::Ollama, "llama3", "")
        .supports("chat")
        .custom_endpoint("http://localhost:11434")
        .build()
        .unwrap();

    assert_eq!(manager.get_provider_count(), 1);
    assert_eq!(
        manager.instances[0].endpoint.as_deref(),
        Some("http://localhost:11434")
    );
}

#[test]
fn test_builder_with_disabled_provider() {
    let manager = LlmManager::builder()
        .define_task(TaskDefinition::new("chat"))
        .add_instance(ProviderType::OpenAI, "gpt-4", "key")
        .supports("chat")
        .enabled(false)
        .build()
        .unwrap();

    // the provider is added but disabled
    assert_eq!(manager.get_provider_count(), 1);
    assert!(!manager.instances[0].enabled);
}

#[test]
fn test_builder_max_retries() {
    let manager = LlmManager::builder()
        .define_task(TaskDefinition::new("test"))
        .add_instance(ProviderType::OpenAI, "gpt-4", "key")
        .supports("test")
        .max_retries(10)
        .build()
        .unwrap();

    assert_eq!(manager.max_retries, 10);
}

#[test]
fn test_builder_empty_providers() {
    // building without providers succeeds; the first request reports the
    // empty registry
    let manager = LlmManager::builder()
        .define_task(TaskDefinition::new("test"))
        .build()
        .unwrap();

    assert_eq!(manager.get_provider_count(), 0);
}

#[test]
fn test_builder_undefined_task_error() {
    let result = LlmManager::builder()
        .add_instance(ProviderType::OpenAI, "gpt-4", "key")
        .supports("undefined_task") // Task not defined
        .build();

    assert!(result.is_err());
    if let Err(e) = result {
        let err = e.display_message();
        assert!(err.contains("undefined_task"));
    }
}

#[test]
fn test_initial_usage_zero() {
    let manager = LlmManager::builder()
        .define_task(TaskDefinition::new("test"))
        .add_instance(ProviderType::OpenAI, "gpt-4", "key")
        .supports("test")
        .build()
        .unwrap();

    let total = manager.get_total_usage();
    assert_eq!(total.prompt_tokens, 0);
    assert_eq!(total.completion_tokens, 0);
    assert_eq!(total.total_tokens, 0);
}

#[test]
fn test_instance_usage_none_initially() {
    let manager = LlmManager::builder()
        .define_task(TaskDefinition::new("test"))
        .add_instance(ProviderType::OpenAI, "gpt-4", "key")
        .supports("test")
        .build()
        .unwrap();

    // Instance 0 should exist but have zero usage
    let usage = manager.get_instance_usage(0);
    assert!(usage.is_some());
    let usage = usage.unwrap();
    assert_eq!(usage.total_tokens, 0);
}

#[test]
fn test_builder_with_each_strategy() {
    let lru = LlmManager::builder()
        .define_task(TaskDefinition::new("test"))
        .add_instance(ProviderType::OpenAI, "gpt-4", "key")
        .supports("test")
        .strategy(LeastRecentlyUsedStrategy::new().kind())
        .build()
        .unwrap();
    assert_eq!(lru.strategy, StrategyKind::LeastRecentlyUsed);

    let latency = LlmManager::builder()
        .define_task(TaskDefinition::new("test"))
        .add_instance(ProviderType::OpenAI, "gpt-4", "key")
        .supports("test")
        .strategy(LowestLatencyStrategy::new().kind())
        .build()
        .unwrap();
    assert_eq!(latency.strategy, StrategyKind::LowestLatency);

    let random = LlmManager::builder()
        .define_task(TaskDefinition::new("test"))
        .add_instance(ProviderType::OpenAI, "gpt-4", "key")
        .supports("test")
        .strategy(RandomStrategy::new().kind())
        .build()
        .unwrap();
    assert_eq!(random.strategy, StrategyKind::Random);
}

#[test]
fn test_overlapping_task_support() {
    let manager = LlmManager::builder()
        .define_task(TaskDefinition::new("chat"))
        .define_task(TaskDefinition::new("summary"))
        .add_instance(ProviderType::OpenAI, "gpt-4", "key1")
        .supports_many(&["chat", "summary"])
        .add_instance(ProviderType::Anthropic, "nimbus-3", "key2")
        .supports("chat")
        .add_instance(ProviderType::Mistral, "mistral-large", "key3")
        .supports("summary")
        .build()
        .unwrap();

    assert_eq!(manager.get_provider_count(), 3);
    assert_eq!(manager.task_instances("chat"), vec![0, 1]);
    assert_eq!(manager.task_instances("summary"), vec![0, 2]);
}
