use deskulpt::plugin::{init_plugin, PluginRegistry, RegistryError};

#[derive(Debug)]
struct MockPlugin {
    name: String,
    commands: Vec<String>,
}

impl MockPlugin {
    fn new(name: &str, commands: Vec<&str>) -> Self {
        Self {
            name: name.to_string(),
            commands: commands.into_iter().map(|s| s.to_string()).collect(),
        }
    }
}

fn register(registry: &mut PluginRegistry<MockPlugin>, name: &str, plugin: MockPlugin) -> Result<(), RegistryError> {
    let names = plugin.commands.clone();
    registry.register_plugin(name.to_string(), plugin, names)
}

/// Run a mock command: echo back the command name and payload.
fn run_mock(command: &str, payload: &str) -> String {
    format!("{{\"command\": \"{}\", \"payload\": {}}}", command, payload)
}

fn call_command(registry: &PluginRegistry<MockPlugin>, command_name: &str, _widget_id: &str, payload: &str) -> Result<String, String> {
    let (plugin, index) = registry.resolve_command(command_name).map_err(|e| e.message())?;
    let command = plugin
        .commands
        .get(index)
        .ok_or_else(|| "Command index out of bounds".to_string())?;
    Ok(run_mock(command, payload))
}

#[test]
fn test_new_registry() {
    let registry: PluginRegistry<MockPlugin> = PluginRegistry::new();
    assert_eq!(registry.plugin_count(), 0);
    assert_eq!(registry.command_count(), 0);
}

#[test]
fn test_register_plugin() {
    let mut registry = PluginRegistry::new();
    let plugin = MockPlugin::new("test-plugin", vec!["cmd1", "cmd2"]);

    let result = register(&mut registry, "test-plugin", plugin);
    assert!(result.is_ok());

    assert_eq!(registry.plugin_count(), 1);
    assert_eq!(registry.command_count(), 2);
    assert!(registry.has_plugin("test-plugin"));
    assert!(registry.has_command("cmd1"));
    assert!(registry.has_command("cmd2"));
}

#[test]
fn test_register_duplicate_plugin() {
    let mut registry = PluginRegistry::new();
    let plugin1 = MockPlugin::new("test-plugin", vec!["cmd1"]);
    let plugin2 = MockPlugin::new("test-plugin", vec!["cmd2"]);

    register(&mut registry, "test-plugin", plugin1).unwrap();
    let result = register(&mut registry, "test-plugin", plugin2);

    assert!(result.is_err());
    assert_eq!(registry.plugin_count(), 1);
    assert_eq!(registry.command_count(), 1);
}

#[test]
fn test_register_duplicate_command() {
    let mut registry = PluginRegistry::new();
    let plugin1 = MockPlugin::new("plugin1", vec!["shared-cmd"]);
    let plugin2 = MockPlugin::new("plugin2", vec!["shared-cmd"]);

    register(&mut registry, "plugin1", plugin1).unwrap();
    let result = register(&mut registry, "plugin2", plugin2);

    assert!(result.is_err());
    assert_eq!(registry.plugin_count(), 1);
    assert_eq!(registry.command_count(), 1);
    assert!(registry.has_plugin("plugin1"));
    assert!(!registry.has_plugin("plugin2"));
}

#[test]
fn test_get_plugin() {
    let mut registry = PluginRegistry::new();
    let plugin = MockPlugin::new("test-plugin", vec!["cmd1"]);

    register(&mut registry, "test-plugin", plugin).unwrap();

    let retrieved = registry.get_plugin("test-plugin");
    assert!(retrieved.is_some());
    assert_eq!(retrieved.unwrap().name, "test-plugin");

    let not_found = registry.get_plugin("non-existent");
    assert!(not_found.is_none());
}

#[test]
fn test_call_command() {
    let mut registry = PluginRegistry::new();
    let plugin = MockPlugin::new("test-plugin", vec!["echo"]);

    register(&mut registry, "test-plugin", plugin).unwrap();

    let result = call_command(&registry, "echo", "widget123", "{\"test\": true}");

    assert!(result.is_ok());
    let response = result.unwrap();
    assert!(response.contains("echo"));
    assert!(response.contains("{\"test\": true}"));
}

#[test]
fn test_call_nonexistent_command() {
    let registry: PluginRegistry<MockPlugin> = PluginRegistry::new();

    let result = call_command(&registry, "nonexistent", "widget123", "{}");
    assert!(result.is_err());
}

#[test]
fn test_plugin_names() {
    let mut registry = PluginRegistry::new();
    let plugin1 = MockPlugin::new("plugin1", vec!["cmd1"]);
    let plugin2 = MockPlugin::new("plugin2", vec!["cmd2"]);

    register(&mut registry, "plugin1", plugin1).unwrap();
    register(&mut registry, "plugin2", plugin2).unwrap();

    let mut names = registry.plugin_names();
    names.sort();
    assert_eq!(names, vec!["plugin1", "plugin2"]);
}

#[test]
fn test_command_names() {
    let mut registry = PluginRegistry::new();
    let plugin1 = MockPlugin::new("plugin1", vec!["cmd1", "cmd2"]);
    let plugin2 = MockPlugin::new("plugin2", vec!["cmd3"]);

    register(&mut registry, "plugin1", plugin1).unwrap();
    register(&mut registry, "plugin2", plugin2).unwrap();

    let mut commands = registry.command_names();
    commands.sort();
    assert_eq!(commands, vec!["cmd1", "cmd2", "cmd3"]);
}

#[test]
fn test_clear() {
    let mut registry = PluginRegistry::new();
    let plugin = MockPlugin::new("test-plugin", vec!["cmd1"]);

    register(&mut registry, "test-plugin", plugin).unwrap();
    assert_eq!(registry.plugin_count(), 1);
    assert_eq!(registry.command_count(), 1);

    registry.clear();
    assert_eq!(registry.plugin_count(), 0);
    assert_eq!(registry.command_count(), 0);
    assert!(!registry.has_plugin("test-plugin"));
    assert!(!registry.has_command("cmd1"));
}

#[test]
fn test_multiple_commands_per_plugin() {
    let mut registry = PluginRegistry::new();
    let plugin = MockPlugin::new("multi-cmd-plugin", vec!["cmd1", "cmd2", "cmd3"]);

    register(&mut registry, "multi-cmd-plugin", plugin).unwrap();

    assert_eq!(registry.plugin_count(), 1);
    assert_eq!(registry.command_count(), 3);

    for cmd in ["cmd1", "cmd2", "cmd3"] {
        let result = call_command(&registry, cmd, "widget123", "{}");
        assert!(result.is_ok());
        assert!(result.unwrap().contains(cmd));
    }
}

#[test]
fn test_empty_plugin() {
    let mut registry = PluginRegistry::new();
    let plugin = MockPlugin::new("empty-plugin", vec![]);

    let result = register(&mut registry, "empty-plugin", plugin);
    assert!(result.is_ok());

    assert_eq!(registry.plugin_count(), 1);
    assert_eq!(registry.command_count(), 0);
    assert!(registry.has_plugin("empty-plugin"));
}

#[test]
fn duplicate_command_within_one_plugin_keeps_earlier_commands() {
    let mut registry = PluginRegistry::new();
    let plugin = MockPlugin::new("p", vec!["a", "b", "a", "c"]);
    let result = register(&mut registry, "p", plugin);
    match result {
        Err(RegistryError::CommandAlreadyRegistered(name)) => assert_eq!(name, "a"),
        other => panic!("unexpected result {:?}", other),
    }
    assert!(!registry.has_plugin("p"));
    assert!(registry.has_command("a"));
    assert!(registry.has_command("b"));
    assert!(!registry.has_command("c"));
}

#[test]
fn registry_error_messages() {
    assert_eq!(
        RegistryError::PluginAlreadyRegistered("fs".to_string()).message(),
        "Plugin 'fs' is already registered"
    );
    assert_eq!(
        RegistryError::CommandAlreadyRegistered("x".to_string()).message(),
        "Command 'x' is already registered by another plugin"
    );
    assert_eq!(RegistryError::UnknownCommand("y".to_string()).message(), "Unknown command: y");
    assert_eq!(RegistryError::PluginNotFound("z".to_string()).message(), "Plugin 'z' not found");
}

#[test]
fn resolving_an_unknown_command_names_it() {
    let registry: PluginRegistry<MockPlugin> = PluginRegistry::new();
    match registry.resolve_command("nope") {
        Err(RegistryError::UnknownCommand(n)) => assert_eq!(n, "nope"),
        _ => panic!("expected an unknown command"),
    }
}

#[test]
fn init_plugin_reports_info() {
    let plugin = MockPlugin::new("fs", vec!["read_file", "write_file"]);
    let names = plugin.commands.clone();
    let (registry, info) = init_plugin(plugin, "fs".to_string(), "1.2.3".to_string(), names).unwrap();
    assert_eq!(info.name, "fs");
    assert_eq!(info.version, "1.2.3");
    assert_eq!(info.commands, vec!["read_file", "write_file"]);
    assert!(registry.has_command("write_file"));
    let (_, index) = registry.resolve_command("write_file").unwrap();
    assert_eq!(index, 1);
}
