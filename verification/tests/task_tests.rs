//! Tests for TaskDefinition and the parameter map.

use flyllm::{ParamMap, ParamValue, TaskDefinition};

#[test]
fn test_task_definition_new() {
    let task = TaskDefinition::new("summary");
    assert_eq!(task.name, "summary");
    assert!(task.parameters.is_empty());
}

#[test]
fn test_task_definition_with_max_tokens() {
    let task = TaskDefinition::new("summary").with_max_tokens(500);

    assert_eq!(
        task.parameters.get("max_tokens"),
        Some(&ParamValue::Integer(500))
    );
}

#[test]
fn test_task_definition_with_temperature() {
    // temperatures are carried in thousandths: 900 stands for 0.9
    let task = TaskDefinition::new("creative").with_temperature(900);

    assert_eq!(
        task.parameters.get("temperature"),
        Some(&ParamValue::Thousandths(900))
    );
}

#[test]
fn test_task_definition_with_custom_param() {
    let task = TaskDefinition::new("test")
        .with_param("custom_key", ParamValue::Text("custom_value".to_string()));

    assert_eq!(
        task.parameters.get("custom_key"),
        Some(&ParamValue::Text("custom_value".to_string()))
    );
}

#[test]
fn test_task_definition_chained_params() {
    let task = TaskDefinition::new("full")
        .with_max_tokens(1000)
        .with_temperature(700)
        .with_param("top_p", ParamValue::Thousandths(950));

    assert_eq!(
        task.parameters.get("max_tokens"),
        Some(&ParamValue::Integer(1000))
    );
    assert_eq!(
        task.parameters.get("temperature"),
        Some(&ParamValue::Thousandths(700))
    );
    assert_eq!(
        task.parameters.get("top_p"),
        Some(&ParamValue::Thousandths(950))
    );
}

#[test]
fn test_task_definition_clone() {
    let task = TaskDefinition::new("original").with_max_tokens(500);

    let cloned = task.clone();

    assert_eq!(cloned.name, "original");
    assert_eq!(
        cloned.parameters.get("max_tokens"),
        Some(&ParamValue::Integer(500))
    );
}

#[test]
fn test_task_definition_multiple_tasks() {
    let summary = TaskDefinition::new("summary")
        .with_max_tokens(500)
        .with_temperature(300);

    let creative = TaskDefinition::new("creative")
        .with_max_tokens(2000)
        .with_temperature(900);

    let code = TaskDefinition::new("code")
        .with_max_tokens(4000)
        .with_temperature(100);

    assert_ne!(summary.name, creative.name);
    assert_ne!(
        summary.parameters.get("max_tokens"),
        creative.parameters.get("max_tokens")
    );
    assert_eq!(
        code.parameters.get("temperature"),
        Some(&ParamValue::Thousandths(100))
    );
}

#[test]
fn test_task_builder_has_exactly_the_given_params() {
    let task = TaskDefinition::new("t").with_max_tokens(64).with_temperature(250);
    assert_eq!(task.parameters.len(), 2);
    assert_eq!(task.parameters.get("max_tokens"), Some(&ParamValue::Integer(64)));
    assert_eq!(task.parameters.get("temperature"), Some(&ParamValue::Thousandths(250)));
    assert_eq!(task.parameters.get("anything_else"), None);
}

#[test]
fn test_param_map_insert_replaces() {
    let mut map = ParamMap::new();
    map.insert("k", ParamValue::Integer(1));
    map.insert("k", ParamValue::Integer(2));
    assert_eq!(map.len(), 1);
    assert_eq!(map.get("k"), Some(&ParamValue::Integer(2)));
}

#[test]
fn test_param_map_merge_prefers_overrides() {
    let mut defaults = ParamMap::new();
    defaults.insert("max_tokens", ParamValue::Integer(100));
    defaults.insert("temperature", ParamValue::Thousandths(300));
    let mut overrides = ParamMap::new();
    overrides.insert("max_tokens", ParamValue::Integer(999));
    overrides.insert("top_p", ParamValue::Thousandths(950));

    let merged = ParamMap::merged(&defaults, &overrides);
    assert_eq!(merged.get("max_tokens"), Some(&ParamValue::Integer(999)));
    assert_eq!(merged.get("temperature"), Some(&ParamValue::Thousandths(300)));
    assert_eq!(merged.get("top_p"), Some(&ParamValue::Thousandths(950)));
    assert_eq!(merged.len(), 3);
}

#[test]
fn test_param_map_max_tokens_truncates() {
    let mut map = ParamMap::new();
    map.insert("max_tokens", ParamValue::Integer(0x1_0000_0000 + 7));
    assert_eq!(map.max_tokens(), Some(7));
    let mut neg = ParamMap::new();
    neg.insert("max_tokens", ParamValue::Integer(-1));
    assert_eq!(neg.max_tokens(), None);
}

#[test]
fn test_param_map_temperature_scales_integers() {
    let mut map = ParamMap::new();
    map.insert("temperature", ParamValue::Integer(1));
    assert_eq!(map.temperature(), Some(1000));
    let mut milli = ParamMap::new();
    milli.insert("temperature", ParamValue::Thousandths(450));
    assert_eq!(milli.temperature(), Some(450));
}
