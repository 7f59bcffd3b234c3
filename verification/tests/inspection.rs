use devcontainer::engine::{normalize_process_error, ProcessError, ProcessRequest, ProcessResult};
use devcontainer::inspection::{inspect_container_context, inspect_workspace_mount, InspectedContainerContext};
use devcontainer::json::JsonValue;
use devcontainer::options::EnvDefaults;

fn to_json(value: &serde_json::Value) -> JsonValue {
    match value {
        serde_json::Value::Null => JsonValue::Null,
        serde_json::Value::Bool(b) => JsonValue::Bool(*b),
        serde_json::Value::Number(n) => JsonValue::Number(n.to_string()),
        serde_json::Value::String(s) => JsonValue::String(s.clone()),
        serde_json::Value::Array(items) => JsonValue::Array(items.iter().map(to_json).collect()),
        serde_json::Value::Object(entries) => JsonValue::Object(
            entries.iter().map(|(k, v)| (k.clone(), to_json(v))).collect(),
        ),
    }
}

fn from_json(value: &JsonValue) -> serde_json::Value {
    match value {
        JsonValue::Null => serde_json::Value::Null,
        JsonValue::Bool(b) => serde_json::Value::Bool(*b),
        JsonValue::Number(n) => serde_json::from_str(n).expect("number text"),
        JsonValue::String(s) => serde_json::Value::String(s.clone()),
        JsonValue::Array(items) => serde_json::Value::Array(items.iter().map(from_json).collect()),
        JsonValue::Object(entries) => serde_json::Value::Object(
            entries.iter().map(|(k, v)| (k.clone(), from_json(v))).collect(),
        ),
    }
}

fn parse_text(text: String) -> Result<JsonValue, String> {
    serde_json::from_str::<serde_json::Value>(&text).map(|v| to_json(&v)).map_err(|e| e.to_string())
}

fn substitute_folder(configuration: JsonValue, folder: String) -> JsonValue {
    match configuration {
        JsonValue::String(s) => JsonValue::String(s.replace("${localWorkspaceFolder}", &folder)),
        JsonValue::Array(items) => JsonValue::Array(items.into_iter().map(|v| substitute_folder(v, folder.clone())).collect()),
        JsonValue::Object(entries) => JsonValue::Object(
            entries.into_iter().map(|(k, v)| (k, substitute_folder(v, folder.clone()))).collect(),
        ),
        other => other,
    }
}

fn inspect_context_with_payload(payload: &str) -> Result<InspectedContainerContext, String> {
    let payload = payload.to_string();
    let engine = move |request: ProcessRequest| {
        assert_eq!(request.args, vec!["inspect".to_string(), "container-id".to_string()]);
        Ok(ProcessResult { status_code: 0, stdout: payload.clone(), stderr: String::new() })
    };
    inspect_container_context(&[], &EnvDefaults::default(), "linux", "container-id", &engine, &substitute_folder)
}

fn details(text: &str) -> JsonValue {
    parse_text(text.to_string()).expect("json")
}

#[test]
fn inspect_container_context_rejects_invalid_or_empty_inspect_json() {
    let invalid = inspect_context_with_payload("not json").err().expect("invalid json");
    assert!(invalid.contains("Invalid inspect JSON"));

    let empty = inspect_context_with_payload("[]").err().expect("empty inspect result");
    assert_eq!(empty, "Container engine did not return inspect details");
}

#[test]
fn inspect_container_context_reports_engine_stderr() {
    let engine = |_request: ProcessRequest| {
        Ok(ProcessResult { status_code: 1, stdout: String::new(), stderr: "no such container".to_string() })
    };
    let result = inspect_container_context(&[], &EnvDefaults::default(), "linux", "x", &engine, &substitute_folder);
    assert_eq!(result.err(), Some("no such container".to_string()));
}

#[test]
fn inspect_container_context_merges_metadata_labels_and_container_user() {
    let metadata = r#"{"workspaceFolder":"${localWorkspaceFolder}/inside","remoteEnv":{"FROM_METADATA":"yes"}}"#;
    let payload = serde_json::Value::Array(vec![serde_json::from_str::<serde_json::Value>(&format!(
        r#"{{"Config":{{"Labels":{{"devcontainer.local_folder":"/host/workspace","devcontainer.metadata":{}}},"User":"vscode"}},
            "Mounts":[{{"Source":"/host/workspace","Destination":"/workspace"}}]}}"#,
        serde_json::Value::String(metadata.to_string())
    ))
    .expect("payload")])
    .to_string();

    let context = inspect_context_with_payload(&payload).expect("inspect context");
    let configuration = from_json(&context.configuration);

    assert_eq!(context.local_workspace_folder.as_deref(), Some("/host/workspace"));
    assert_eq!(configuration["containerUser"], "vscode");
    assert_eq!(configuration["remoteEnv"]["FROM_METADATA"], "yes");
    assert_eq!(context.remote_workspace_folder.as_deref(), Some("/host/workspace/inside"));
}

#[test]
fn inspect_container_context_uses_mount_destination_without_metadata_workspace() {
    let payload = r#"[{"Config":{"Labels":{},"User":"vscode"},"Mounts":[{"Destination":"/fallback"}]}]"#;

    let context = inspect_context_with_payload(payload).expect("inspect context");

    assert_eq!(from_json(&context.configuration)["containerUser"], "vscode");
    assert_eq!(context.remote_workspace_folder.as_deref(), Some("/fallback"));
}

#[test]
fn inspect_container_context_preserves_metadata_user_over_inspected_user() {
    let payload = r#"[{"Config":{"Labels":{"devcontainer.metadata":"{\"remoteUser\":\"metadata-user\"}"},"User":"image-user"},
        "Mounts":[{"Destination":"/workspace"}]}]"#;

    let context = inspect_context_with_payload(payload).expect("inspect context");
    let configuration = from_json(&context.configuration);

    assert_eq!(configuration["remoteUser"], "metadata-user");
    assert!(configuration.get("containerUser").is_none());
}

#[test]
fn inspect_workspace_mount_prefers_matching_local_source() {
    let details = details(
        r#"{"Mounts":[{"Source":"/other","Destination":"/other-container"},{"Source":"/host/project","Destination":"/workspace/project"}]}"#,
    );

    assert_eq!(
        inspect_workspace_mount(&details, Some("/host/project"), "linux").as_deref(),
        Some("/workspace/project")
    );
}

#[test]
fn inspect_workspace_mount_falls_back_to_first_destination() {
    let mounts = details(r#"{"Mounts":[{"Source":"/other","Destination":"/fallback"}]}"#);

    assert_eq!(inspect_workspace_mount(&mounts, Some("/host/project"), "linux").as_deref(), Some("/fallback"));
    assert_eq!(inspect_workspace_mount(&details("{}"), Some("/host/project"), "linux"), None);
}

#[test]
fn inspect_workspace_mount_normalizes_windows_sources() {
    let mounts = details(r#"{"Mounts":[{"Source":"/x","Destination":"/first"},{"Source":"C:/Work","Destination":"/work"}]}"#);
    assert_eq!(inspect_workspace_mount(&mounts, Some("c:\\Work"), "windows").as_deref(), Some("/work"));
}

#[test]
fn inspect_container_context_reports_engine_spawn_errors() {
    let args = vec!["--docker-path".to_string(), "/definitely/missing/container-engine".to_string()];
    let env = EnvDefaults::default();
    let engine = |request: ProcessRequest| -> Result<ProcessResult, String> {
        Err(normalize_process_error(
            &args,
            &env,
            &request,
            &ProcessError { not_found: true, message: "No such file or directory".to_string() },
        ))
    };
    let error = inspect_container_context(&args, &env, "linux", "container-id", &engine, &substitute_folder)
        .err()
        .expect("engine spawn failure");

    assert!(error.contains("Container engine executable not found"));
}
