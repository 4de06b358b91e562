use deskulpt::plugin::{effective_payload, PluginRegistry};
use serde_json::Value;

/// A mock plugin whose commands are identified by name.
struct MockPlugin {
    commands: Vec<String>,
}

fn mock_plugin() -> MockPlugin {
    MockPlugin {
        commands: vec!["mock_command".to_string(), "mock_command_with_payload".to_string()],
    }
}

/// Run a mock command on a JSON payload.
fn run_mock(command: &str, payload: &str) -> Result<Value, String> {
    let input: Value = serde_json::from_str(effective_payload(payload)).map_err(|e| e.to_string())?;
    match command {
        "mock_command" => Ok(serde_json::from_str("{\"message\": \"success\"}").unwrap()),
        "mock_command_with_payload" => {
            let value = input.get("value").and_then(Value::as_i64).ok_or("missing value")?;
            Ok(serde_json::from_str(&format!("{{\"doubled\": {}}}", value * 2)).unwrap())
        },
        other => Err(format!("no such mock command {other}")),
    }
}

/// Register the plugin and run one of its commands, as the plugin entry
/// point does.
fn call_plugin(plugin: MockPlugin, command: &str, _widget_id: String, payload: Option<Value>) -> Result<Value, String> {
    let mut registry = PluginRegistry::new();
    let names = plugin.commands.clone();
    registry
        .register_plugin("mock".to_string(), plugin, names)
        .map_err(|e| e.message())?;
    let (plugin, index) = registry.resolve_command(command).map_err(|e| e.message())?;
    let payload = payload.map(|v| v.to_string()).unwrap_or_default();
    run_mock(&plugin.commands[index], &payload)
}

#[test]
fn test_call_plugin_valid_command() {
    let result = call_plugin(mock_plugin(), "mock_command", "test_widget".to_string(), None);

    assert!(result.is_ok());
    let output = result.unwrap();
    assert_eq!(output.get("message").unwrap().as_str().unwrap(), "success");
}

#[test]
fn test_call_plugin_with_payload() {
    let input: Value = serde_json::from_str("{\"value\": 5}").unwrap();
    let result = call_plugin(mock_plugin(), "mock_command_with_payload", "test_widget".to_string(), Some(input));

    assert!(result.is_ok());
    let output = result.unwrap();
    assert_eq!(output.get("doubled").unwrap().as_i64().unwrap(), 10);
}

#[test]
fn test_call_plugin_invalid_command() {
    let result = call_plugin(mock_plugin(), "unknown_command", "test_widget".to_string(), None);

    assert!(result.is_err());
    let error_msg = result.unwrap_err();
    assert!(error_msg.contains("Unknown command"));
}

#[test]
fn test_call_plugin_null_payload() {
    let result = call_plugin(mock_plugin(), "mock_command", "test_widget".to_string(), Some(Value::Null));

    assert!(result.is_ok());
    let output = result.unwrap();
    assert_eq!(output.get("message").unwrap().as_str().unwrap(), "success");
}
