use agent::config::{
    InputConfig, LaunchError, LaunchPlan, McpConfig, ServerConfig,
};
use serde_json::Value;
use std::collections::HashMap;

fn text_of(value: &Value, key: &str) -> String {
    value.get(key).and_then(Value::as_str).unwrap().to_string()
}

fn optional_text_of(value: &Value, key: &str) -> Option<String> {
    value.get(key).and_then(Value::as_str).map(|text| text.to_string())
}

fn config_from_json(json: &str) -> McpConfig {
    let root: Value = serde_json::from_str(json).unwrap();
    let mut inputs = Vec::new();
    for input in root.get("inputs").and_then(Value::as_array).into_iter().flatten() {
        inputs.push(InputConfig {
            input_type: text_of(input, "type"),
            id: text_of(input, "id"),
            description: text_of(input, "description"),
            password: input.get("password").and_then(Value::as_bool).unwrap_or(false),
        });
    }
    let mut config = McpConfig::new(inputs);
    for (name, server) in root.get("servers").and_then(Value::as_object).unwrap() {
        let mut env = HashMap::new();
        for (key, value) in server.get("env").and_then(Value::as_object).into_iter().flatten() {
            env.insert(key.clone(), value.as_str().unwrap().to_string());
        }
        let args = server
            .get("args")
            .and_then(Value::as_array)
            .into_iter()
            .flatten()
            .map(|arg| arg.as_str().unwrap().to_string())
            .collect();
        config.insert_server(
            name.clone(),
            ServerConfig {
                server_type: text_of(server, "type"),
                command: text_of(server, "command"),
                args,
                env,
                env_file: optional_text_of(server, "envFile"),
                cwd: optional_text_of(server, "cwd"),
            },
        );
    }
    config
}

#[test]
fn test_parse_simple_config() {
    let json = r#"
        {
          "servers": {
            "test-server": {
              "type": "stdio",
              "command": "./target/release/server"
            }
          }
        }
        "#;

    let config = config_from_json(json);
    assert_eq!(config.servers.len(), 1);
    assert!(config.servers.iter().any(|entry| entry.name == "test-server"));

    let server = config.get_server("test-server").unwrap();
    assert_eq!(server.server_type, "stdio");
    assert_eq!(server.command, "./target/release/server");
    assert!(server.args.is_empty());
}

#[test]
fn test_parse_config_with_args_and_env() {
    let json = r#"
        {
          "servers": {
            "test-server": {
              "type": "stdio",
              "command": "cargo",
              "args": ["run", "--", "--debug"],
              "env": {
                "RUST_LOG": "debug"
              }
            }
          }
        }
        "#;

    let config = config_from_json(json);
    let server = config.get_server("test-server").unwrap();

    assert_eq!(server.args.len(), 3);
    assert_eq!(server.args[0], "run");
    assert_eq!(server.env.get("RUST_LOG"), Some(&"debug".to_string()));
}

fn server(server_type: &str, command: &str, args: &[&str]) -> ServerConfig {
    ServerConfig {
        server_type: server_type.to_string(),
        command: command.to_string(),
        args: args.iter().map(|arg| arg.to_string()).collect(),
        env: HashMap::new(),
        env_file: None,
        cwd: None,
    }
}

#[test]
fn test_resolve_workspace_folder() {
    let server = ServerConfig {
        server_type: "stdio".to_string(),
        command: "${workspaceFolder}/target/release/app".to_string(),
        args: vec![
            "--config".to_string(),
            "${workspaceFolder}/config.toml".to_string(),
        ],
        env: HashMap::new(),
        env_file: None,
        cwd: None,
    };

    let resolved_command = server.resolve_command(Some("/home/user/project"));
    assert_eq!(resolved_command, "/home/user/project/target/release/app");

    let resolved_args = server.resolve_args(Some("/home/user/project"));
    assert_eq!(resolved_args[1], "/home/user/project/config.toml");
}

#[test]
fn resolve_without_a_workspace_folder_changes_nothing() {
    let server = server("stdio", "${workspaceFolder}/app", &["${workspaceFolder}", "-v"]);
    assert_eq!(server.resolve_command(None), "${workspaceFolder}/app");
    assert_eq!(server.resolve_args(None), vec!["${workspaceFolder}".to_string(), "-v".to_string()]);
}

#[test]
fn resolve_args_keeps_number_and_order() {
    let server = server("stdio", "run", &["a", "${workspaceFolder}/b", "c${workspaceFolder}c"]);
    assert_eq!(
        server.resolve_args(Some("/w")),
        vec!["a".to_string(), "/w/b".to_string(), "c/wc".to_string()]
    );
    assert_eq!(server.resolve_args(Some("/w")).len(), 3);
    assert_eq!(server.resolve_command(Some("/w")), "run");
}

#[test]
fn resolve_expands_every_occurrence() {
    let server = server("stdio", "${workspaceFolder}:${workspaceFolder}", &[]);
    assert_eq!(server.resolve_command(Some("x")), "x:x");
    assert!(server.resolve_args(Some("x")).is_empty());
}

#[test]
fn a_simple_configuration_has_its_server() {
    let mut config = McpConfig::new(Vec::new());
    assert_eq!(config.insert_server(
        "test-server".to_string(),
        server("stdio", "./target/release/server", &[]),
    ).map(|old| old.command), None);
    assert_eq!(config.server_count(), 1);
    assert!(config.get_server("test-server").is_some());

    let server = config.get_server("test-server").unwrap();
    assert_eq!(server.server_type, "stdio");
    assert_eq!(server.command, "./target/release/server");
    assert!(server.args.is_empty());
}

#[test]
fn a_configuration_keeps_args_and_env() {
    let mut launched = server("stdio", "cargo", &["run", "--", "--debug"]);
    launched.env.insert("RUST_LOG".to_string(), "debug".to_string());
    let mut config = McpConfig::new(Vec::new());
    config.insert_server("test-server".to_string(), launched);
    let server = config.get_server("test-server").unwrap();

    assert_eq!(server.args.len(), 3);
    assert_eq!(server.args[0], "run");
    assert_eq!(server.env.get("RUST_LOG"), Some(&"debug".to_string()));
}

#[test]
fn get_server_finds_by_exact_name() {
    let mut config = McpConfig::new(Vec::new());
    config.insert_server("git".to_string(), server("stdio", "uvx", &["mcp-server-git"]));
    config.insert_server("files".to_string(), server("stdio", "npx", &[]));
    assert_eq!(config.get_server("git").unwrap().command, "uvx");
    assert_eq!(config.get_server("files").unwrap().command, "npx");
    assert!(config.get_server("Git").is_none());
    assert!(config.get_server("").is_none());
    assert!(config.get_server("gi").is_none());
}

#[test]
fn server_names_are_in_insertion_order() {
    let mut config = McpConfig::new(Vec::new());
    assert!(config.server_names().is_empty());
    config.insert_server("b".to_string(), server("stdio", "1", &[]));
    config.insert_server("a".to_string(), server("stdio", "2", &[]));
    config.insert_server("c".to_string(), server("stdio", "3", &[]));
    assert_eq!(config.server_names(), vec!["b", "a", "c"]);
    assert_eq!(config.server_count(), 3);
    assert_eq!(config.server_at(1).unwrap().name, "a");
    assert_eq!(config.server_at(1).unwrap().config.command, "2");
    assert!(config.server_at(3).is_none());
}

#[test]
fn insert_server_replaces_a_server_of_the_same_name() {
    let mut config = McpConfig::new(Vec::new());
    config.insert_server("a".to_string(), server("stdio", "old", &[]));
    config.insert_server("b".to_string(), server("stdio", "other", &[]));
    let replaced = config.insert_server("a".to_string(), server("sse", "new", &[]));
    assert_eq!(replaced.map(|old| old.command), Some("old".to_string()));
    assert_eq!(config.server_count(), 2);
    assert_eq!(config.server_names(), vec!["a", "b"]);
    for name in config.server_names() {
        assert!(config.get_server(name).is_some());
        assert_eq!(config.server_names().iter().filter(|other| **other == name).count(), 1);
    }
    assert_eq!(config.get_server("a").unwrap().command, "new");
    assert_eq!(config.get_server("b").unwrap().command, "other");
}

#[test]
fn new_keeps_the_inputs() {
    let config = McpConfig::new(vec![InputConfig {
        input_type: "promptString".to_string(),
        id: "token".to_string(),
        description: "API token".to_string(),
        password: true,
    }]);
    assert_eq!(config.inputs.len(), 1);
    assert_eq!(config.inputs[0].id, "token");
    assert!(config.inputs[0].password);
    assert_eq!(config.server_count(), 0);
}

#[test]
fn default_path_prefers_the_editor_folder() {
    assert_eq!(McpConfig::default_path(true, true), Some(".vscode/mcp.json"));
    assert_eq!(McpConfig::default_path(true, false), Some(".vscode/mcp.json"));
    assert_eq!(McpConfig::default_path(false, true), Some("mcp.json"));
    assert_eq!(McpConfig::default_path(false, false), None);
}

#[test]
fn load_default_hands_on_what_was_loaded() {
    let mut config = McpConfig::new(Vec::new());
    config.insert_server("a".to_string(), server("stdio", "x", &[]));
    let loaded = McpConfig::load_default::<String>(Some(Ok(config))).unwrap().unwrap();
    assert_eq!(loaded.server_names(), vec!["a"]);

    let missing = McpConfig::load_default::<String>(None);
    assert!(matches!(missing, Ok(None)));

    let broken = McpConfig::load_default(Some(Err("Failed to parse mcp.json: eof".to_string())));
    assert_eq!(broken.err(), Some("Failed to parse mcp.json: eof".to_string()));
}

#[test]
fn launch_plan_resolves_command_and_args() {
    let mut config = McpConfig::new(Vec::new());
    config.insert_server(
        "app".to_string(),
        server("stdio", "${workspaceFolder}/bin/app", &["--root", "${workspaceFolder}"]),
    );
    assert_eq!(
        config.launch_plan("app", Some("/home/me")),
        Ok(LaunchPlan {
            command: "/home/me/bin/app".to_string(),
            args: vec!["--root".to_string(), "/home/me".to_string()],
        })
    );
    assert_eq!(
        config.launch_plan("app", None),
        Ok(LaunchPlan {
            command: "${workspaceFolder}/bin/app".to_string(),
            args: vec!["--root".to_string(), "${workspaceFolder}".to_string()],
        })
    );
}

#[test]
fn launch_plan_refuses_unknown_servers_and_other_types() {
    let mut config = McpConfig::new(Vec::new());
    config.insert_server("web".to_string(), server("sse", "http://localhost", &[]));
    assert_eq!(
        config.launch_plan("nope", None),
        Err(LaunchError::UnknownServer { name: "nope".to_string() })
    );
    assert_eq!(
        config.launch_plan("web", Some("/w")),
        Err(LaunchError::UnsupportedType { server_type: "sse".to_string() })
    );
    assert!(!config.get_server("web").unwrap().is_stdio());
}
