use devcontainer::compose::uses_compose_config;
use devcontainer::json::JsonValue;
use devcontainer::workspace::{
    additional_mounts_for_workspace_target, configured_user, remote_user,
    remote_workspace_folder_for_args, workspace_mount_for_args, DerivedWorkspaceMount,
};

fn to_json(value: &serde_json::Value) -> JsonValue {
    match value {
        serde_json::Value::Null => JsonValue::Null,
        serde_json::Value::Bool(b) => JsonValue::Bool(*b),
        serde_json::Value::Number(n) => JsonValue::Number(n.to_string()),
        serde_json::Value::String(s) => JsonValue::String(s.clone()),
        serde_json::Value::Array(items) => JsonValue::Array(items.iter().map(to_json).collect()),
        serde_json::Value::Object(entries) => JsonValue::Object(
            entries.iter().map(|(k, v)| (k.clone(), to_json(v))).collect(),
        ),
    }
}

fn parse(text: &str) -> JsonValue {
    to_json(&serde_json::from_str(text).expect("json"))
}

fn derived_example() -> DerivedWorkspaceMount {
    DerivedWorkspaceMount {
        host_mount_folder: "/tmp/example".to_string(),
        container_mount_folder: "/workspaces/example".to_string(),
        remote_workspace_folder: "/workspaces/example".to_string(),
        additional_mounts: vec!["type=bind,source=/tmp/common,target=/workspaces/common".to_string()],
    }
}

#[test]
fn detects_compose_configs() {
    assert!(uses_compose_config(&parse(r#"{"dockerComposeFile":"docker-compose.yml","service":"app"}"#)));
    assert!(!uses_compose_config(&parse(r#"{"image":"alpine:3.20"}"#)));
    assert!(!uses_compose_config(&parse(r#"{"dockerComposeFile":"docker-compose.yml","service":1}"#)));
}

#[test]
fn remote_user_prefers_remote_user_then_container_user_then_root() {
    assert_eq!(remote_user(&parse(r#"{"remoteUser":"vscode"}"#)), "vscode");
    assert_eq!(configured_user(&parse(r#"{"containerUser":"node"}"#)), Some("node".to_string()));
    assert_eq!(remote_user(&parse("{}")), "root");
}

#[test]
fn compose_remote_workspace_folder_prefers_configured_workspace_folder() {
    let configuration = parse(r#"{"dockerComposeFile":"docker-compose.yml","service":"app","workspaceFolder":"/configured"}"#);
    assert_eq!(remote_workspace_folder_for_args(&configuration, &derived_example()), "/configured");
}

#[test]
fn compose_remote_workspace_folder_defaults_to_root() {
    let configuration = parse(r#"{"dockerComposeFile":"docker-compose.yml","service":"app"}"#);
    assert_eq!(remote_workspace_folder_for_args(&configuration, &derived_example()), "/");
}

#[test]
fn remote_workspace_folder_uses_compose_root_when_no_workspace_is_configured() {
    let configuration = parse(r#"{"dockerComposeFile":"docker-compose.yml","service":"app"}"#);
    assert_eq!(remote_workspace_folder_for_args(&configuration, &derived_example()), "/");
}

#[test]
fn compose_remote_workspace_folder_ignores_workspace_mount() {
    let configuration = parse(
        r#"{"dockerComposeFile":"docker-compose.yml","service":"app","workspaceMount":"type=bind,source=/tmp/example,target=/mounted"}"#,
    );
    assert_eq!(remote_workspace_folder_for_args(&configuration, &derived_example()), "/");
}

#[test]
fn remote_workspace_folder_prefers_configured_workspace_folder() {
    let configuration = parse(r#"{"workspaceFolder":"/configured"}"#);
    assert_eq!(remote_workspace_folder_for_args(&configuration, &derived_example()), "/configured");
}

#[test]
fn remote_workspace_folder_falls_back_to_workspace_mount_target() {
    let configuration = parse(r#"{"workspaceMount":"type=bind,source=/tmp/example,target=/mounted"}"#);
    assert_eq!(remote_workspace_folder_for_args(&configuration, &derived_example()), "/mounted");
    assert_eq!(remote_workspace_folder_for_args(&parse("{}"), &derived_example()), "/workspaces/example");
}

#[test]
fn workspace_mount_for_args_preserves_configured_mount() {
    let configuration = parse(r#"{"workspaceMount":"type=bind,source=/tmp/example,target=/workspace"}"#);
    assert_eq!(
        workspace_mount_for_args(&configuration, &derived_example(), "/ignored", &[], true),
        "type=bind,source=/tmp/example,target=/workspace"
    );
}

#[test]
fn workspace_mount_for_args_adds_requested_consistency_on_non_linux_hosts() {
    let args = vec!["--workspace-mount-consistency".to_string(), "delegated".to_string()];
    let linux = workspace_mount_for_args(&parse("{}"), &derived_example(), "/workspaces/example", &args, true);
    assert!(!linux.contains("consistency="));
    let other = workspace_mount_for_args(&parse("{}"), &derived_example(), "/workspaces/example", &args, false);
    assert_eq!(other, "type=bind,source=/tmp/example,target=/workspaces/example,consistency=delegated");
    let configured = workspace_mount_for_args(&parse(r#"{"workspaceFolder":"/w"}"#), &derived_example(), "/w", &[], true);
    assert_eq!(configured, "type=bind,source=/tmp/example,target=/w");
}

#[test]
fn additional_mounts_skip_common_dir_when_flag_is_disabled() {
    let configuration = parse(r#"{"workspaceFolder":"/workspace"}"#);
    assert!(additional_mounts_for_workspace_target(&configuration, &derived_example(), "/workspace", &[], true, None).is_empty());
    assert_eq!(
        additional_mounts_for_workspace_target(&parse("{}"), &derived_example(), "/workspace", &[], true, None),
        vec!["type=bind,source=/tmp/common,target=/workspaces/common".to_string()]
    );
}
