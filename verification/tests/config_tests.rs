//! Tests for configuration validation and materialization.

use flyllm::config::{
    default_max_retries, default_strategy, default_true, get_provider_display_name,
    manager_from_config, parse_strategy, resolve_env_var_string, resolve_env_vars,
    validate_config,
};
use flyllm::{Config, ProviderConfig, Settings, StrategyKind, TaskConfig};

fn provider(ptype: &str, model: &str, tasks: &[&str]) -> ProviderConfig {
    ProviderConfig {
        provider_type: ptype.to_string(),
        model: model.to_string(),
        api_key: "key".to_string(),
        tasks: tasks.iter().map(|t| t.to_string()).collect(),
        enabled: true,
        endpoint: None,
        name: None,
    }
}

fn task(name: &str) -> TaskConfig {
    TaskConfig { name: name.to_string(), max_tokens: None, temperature: None }
}

fn minimal_config() -> Config {
    Config {
        settings: Settings::default(),
        tasks: vec![task("chat")],
        providers: vec![provider("openai", "gpt-4", &["chat"])],
    }
}

#[test]
fn test_default_settings_values() {
    let settings = Settings::default();
    assert_eq!(settings.strategy, "lru");
    assert_eq!(settings.max_retries, 5);
    assert!(settings.debug_folder.is_none());
    assert_eq!(default_strategy(), "lru");
    assert_eq!(default_max_retries(), 5);
    assert!(default_true());
}

#[test]
fn test_validate_minimal_config() {
    assert!(validate_config(&minimal_config()).is_ok());
}

#[test]
fn test_validate_invalid_provider_type() {
    let mut config = minimal_config();
    config.providers[0].provider_type = "invalid_provider".to_string();
    let result = validate_config(&config);
    assert!(result.is_err());
    let msg = result.unwrap_err().display_message();
    assert!(msg.contains("Unknown provider type"));
}

#[test]
fn test_validate_undefined_task_reference() {
    let mut config = minimal_config();
    config.providers[0].tasks.push("undefined_task".to_string());
    let result = validate_config(&config);
    assert!(result.is_err());
    let msg = result.unwrap_err().display_message();
    assert!(msg.contains("is not defined"));
}

#[test]
fn test_validate_invalid_strategy() {
    let mut config = minimal_config();
    config.settings.strategy = "round_robin".to_string();
    let result = validate_config(&config);
    assert!(result.is_err());
    let msg = result.unwrap_err().display_message();
    assert!(msg.contains("Unknown strategy"));
}

#[test]
fn test_parse_strategy_aliases() {
    assert_eq!(parse_strategy("lru"), Some(StrategyKind::LeastRecentlyUsed));
    assert_eq!(
        parse_strategy("least_recently_used"),
        Some(StrategyKind::LeastRecentlyUsed)
    );
    assert_eq!(parse_strategy("lowest_latency"), Some(StrategyKind::LowestLatency));
    assert_eq!(parse_strategy("latency"), Some(StrategyKind::LowestLatency));
    assert_eq!(parse_strategy("random"), Some(StrategyKind::Random));
    assert_eq!(parse_strategy("RANDOM"), Some(StrategyKind::Random));
    assert_eq!(parse_strategy("unknown"), None);
}

#[test]
fn test_provider_display_name_fallback() {
    let mut p = provider("openai", "gpt-4", &[]);
    assert_eq!(get_provider_display_name(&p), "openai/gpt-4");
    p.name = Some("primary".to_string());
    assert_eq!(get_provider_display_name(&p), "primary");
}

#[test]
fn test_config_round_trip() {
    let config = Config {
        settings: Settings {
            strategy: "random".to_string(),
            max_retries: 7,
            debug_folder: None,
        },
        tasks: vec![task("chat"), task("summary")],
        providers: vec![
            provider("openai", "gpt-4", &["chat", "summary"]),
            provider("anthropic", "nimbus-3", &["chat"]),
        ],
    };
    let manager = manager_from_config(&config).unwrap();

    assert_eq!(manager.get_provider_count(), 2);
    assert_eq!(manager.strategy, StrategyKind::Random);
    assert_eq!(manager.max_retries, 7);
    // the routing index reproduces the record's task lists
    assert_eq!(manager.task_instances("chat"), vec![0, 1]);
    assert_eq!(manager.task_instances("summary"), vec![0]);
    assert_eq!(manager.task_instances("absent"), Vec::<usize>::new());
}

#[test]
fn test_manager_from_config_invalid_provider() {
    let mut config = minimal_config();
    config.providers[0].provider_type = "invalid".to_string();
    assert!(manager_from_config(&config).is_err());
}

#[test]
fn test_manager_from_config_task_parameters() {
    let config = Config {
        settings: Settings::default(),
        tasks: vec![TaskConfig {
            name: "chat".to_string(),
            max_tokens: Some(512),
            temperature: Some(300),
        }],
        providers: vec![provider("groq", "llama-3", &["chat"])],
    };
    let manager = manager_from_config(&config).unwrap();
    let instance = &manager.instances[0];
    let td = instance.find_task("chat").unwrap();
    assert_eq!(
        td.parameters.get("max_tokens"),
        Some(&flyllm::ParamValue::Integer(512))
    );
    assert_eq!(
        td.parameters.get("temperature"),
        Some(&flyllm::ParamValue::Thousandths(300))
    );
}

#[test]
fn test_empty_api_key_allowed() {
    let mut config = minimal_config();
    config.providers[0].api_key = String::new();
    assert!(validate_config(&config).is_ok());
    assert!(manager_from_config(&config).is_ok());
}

#[test]
fn test_env_var_substitution() {
    let vars = vec![
        ("TEST_API_KEY".to_string(), "resolved-key".to_string()),
        ("HOST".to_string(), "example.com".to_string()),
    ];
    assert_eq!(
        resolve_env_var_string("${TEST_API_KEY}", &vars).unwrap(),
        "resolved-key"
    );
    assert_eq!(
        resolve_env_var_string("https://${HOST}/v1?key=${TEST_API_KEY}", &vars).unwrap(),
        "https://example.com/v1?key=resolved-key"
    );
    // text without a complete placeholder is copied through
    assert_eq!(resolve_env_var_string("plain-key", &vars).unwrap(), "plain-key");
    assert_eq!(resolve_env_var_string("${}", &vars).unwrap(), "${}");
    assert_eq!(resolve_env_var_string("${OPEN", &vars).unwrap(), "${OPEN");
}

#[test]
fn test_env_var_missing_fails() {
    let vars: Vec<(String, String)> = Vec::new();
    let result = resolve_env_var_string("${ABSENT_VAR}", &vars);
    let msg = result.unwrap_err().display_message();
    assert!(msg.contains("ABSENT_VAR"));
}

#[test]
fn test_env_vars_resolved_across_record() {
    let mut config = minimal_config();
    config.providers[0].api_key = "${KEY}".to_string();
    config.providers[0].endpoint = Some("${HOST}/v1".to_string());
    let vars = vec![
        ("KEY".to_string(), "secret".to_string()),
        ("HOST".to_string(), "http://localhost:1234".to_string()),
    ];
    resolve_env_vars(&mut config, &vars).unwrap();
    assert_eq!(config.providers[0].api_key, "secret");
    assert_eq!(
        config.providers[0].endpoint.as_deref(),
        Some("http://localhost:1234/v1")
    );
}
