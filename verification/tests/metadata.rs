use devcontainer::json::JsonValue;
use devcontainer::metadata::{container_metadata, merged_container_metadata, metadata_entries, serialized_container_metadata};

fn to_json(value: &serde_json::Value) -> JsonValue {
    match value {
        serde_json::Value::Null => JsonValue::Null,
        serde_json::Value::Bool(b) => JsonValue::Bool(*b),
        serde_json::Value::Number(n) => JsonValue::Number(n.to_string()),
        serde_json::Value::String(s) => JsonValue::String(s.clone()),
        serde_json::Value::Array(items) => JsonValue::Array(items.iter().map(to_json).collect()),
        serde_json::Value::Object(entries) => JsonValue::Object(
            entries.iter().map(|(k, v)| (k.clone(), to_json(v))).collect(),
        ),
    }
}

fn from_json(value: &JsonValue) -> serde_json::Value {
    match value {
        JsonValue::Null => serde_json::Value::Null,
        JsonValue::Bool(b) => serde_json::Value::Bool(*b),
        JsonValue::Number(n) => serde_json::from_str(n).expect("number text"),
        JsonValue::String(s) => serde_json::Value::String(s.clone()),
        JsonValue::Array(items) => serde_json::Value::Array(items.iter().map(from_json).collect()),
        JsonValue::Object(entries) => serde_json::Value::Object(
            entries.iter().map(|(k, v)| (k.clone(), from_json(v))).collect(),
        ),
    }
}

fn parsed_label(label: &str) -> Option<JsonValue> {
    serde_json::from_str::<serde_json::Value>(label).ok().map(|v| to_json(&v))
}

#[test]
fn merged_container_metadata_prefers_last_scalar_and_merges_objects() {
    let metadata = r#"[{"workspaceFolder":"/first","remoteEnv":{"A":"1"}},{"workspaceFolder":"/second","remoteEnv":{"B":"2"}}]"#;

    let merged = from_json(&merged_container_metadata(&metadata_entries(parsed_label(metadata))));

    assert_eq!(merged["workspaceFolder"], "/second");
    assert_eq!(merged["remoteEnv"]["A"], "1");
    assert_eq!(merged["remoteEnv"]["B"], "2");
}

#[test]
fn metadata_entries_accepts_single_object_labels() {
    let entries = metadata_entries(parsed_label(r#"{"postCreateCommand":"echo ready"}"#));

    assert_eq!(entries.len(), 1);
    assert_eq!(from_json(&entries[0])["postCreateCommand"], "echo ready");
    assert!(metadata_entries(parsed_label("not json")).is_empty());
    assert!(metadata_entries(parsed_label("42")).is_empty());
    assert_eq!(metadata_entries(parsed_label("[1, 2]")).len(), 2);
}

#[test]
fn serialized_container_metadata_omits_remote_env_when_requested() {
    let configuration = to_json(&serde_json::from_str(r#"{"remoteEnv":{"A":"1"},"remoteUser":"vscode"}"#).unwrap());
    let metadata = serialized_container_metadata(&configuration, "/workspace", true).expect("metadata");
    let parsed: serde_json::Value = serde_json::from_str(&metadata).expect("metadata json");
    let entries = parsed.as_array().expect("metadata array");

    assert_eq!(entries[0]["remoteUser"], "vscode");
    assert!(entries[0].get("remoteEnv").is_none(), "{parsed}");
}

#[test]
fn serialized_container_metadata_wraps_single_metadata_entry_in_array() {
    let configuration = to_json(&serde_json::from_str(r#"{"remoteUser":"vscode"}"#).unwrap());
    let metadata = serialized_container_metadata(&configuration, "/workspace", false).expect("metadata");
    let parsed: serde_json::Value = serde_json::from_str(&metadata).expect("metadata json");
    let entries = parsed.as_array().expect("metadata array");

    assert_eq!(entries.len(), 1);
    assert_eq!(entries[0]["remoteUser"], "vscode");
    assert_eq!(entries[0]["workspaceFolder"], "/workspace");
}

#[test]
fn serialized_container_metadata_keeps_numbers_and_nesting() {
    let configuration = to_json(
        &serde_json::from_str(r#"{"waitFor":"onCreateCommand","postCreateCommand":["echo",1.5,{"a":null,"b":true}]}"#).unwrap(),
    );
    let metadata = serialized_container_metadata(&configuration, "/w", false).expect("metadata");
    assert_eq!(
        metadata,
        r#"[{"postCreateCommand":["echo",1.5,{"a":null,"b":true}],"waitFor":"onCreateCommand","workspaceFolder":"/w"}]"#
    );
}

#[test]
fn container_metadata_keeps_a_configured_workspace_folder() {
    let configuration = to_json(
        &serde_json::from_str(r#"{"workspaceFolder":"/configured","remoteEnv":{"A":"1"},"image":"ubuntu"}"#).unwrap(),
    );
    let entry = from_json(&JsonValue::Object(container_metadata(&configuration, "/workspace", false)));
    let expected: serde_json::Value = serde_json::from_str(r#"{"workspaceFolder":"/configured","remoteEnv":{"A":"1"}}"#).unwrap();
    assert_eq!(entry, expected);
}
