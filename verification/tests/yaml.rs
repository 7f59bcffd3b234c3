use devcontainer::compose_definition::service_definition_from_texts;
use devcontainer::compose_profiles::{compose_profiled_services_from_texts, compose_service_entries, ProfilesValue};
use devcontainer::discovery::ResolvedTargetContainer;
use devcontainer::inspection::{existing_container_context, existing_context_uses_compose, InspectedContainerContext};
use devcontainer::json::JsonValue;
use devcontainer::yaml::{parse_yaml_json, YamlValue};

fn to_serde(value: &JsonValue) -> serde_json::Value {
    match value {
        JsonValue::Null => serde_json::Value::Null,
        JsonValue::Bool(b) => serde_json::Value::Bool(*b),
        JsonValue::Number(n) => serde_json::from_str(n).expect("number text"),
        JsonValue::String(s) => serde_json::Value::String(s.clone()),
        JsonValue::Array(items) => serde_json::Value::Array(items.iter().map(to_serde).collect()),
        JsonValue::Object(entries) => {
            serde_json::Value::Object(entries.iter().map(|(k, v)| (k.clone(), to_serde(v))).collect())
        }
    }
}

fn from_serde(value: &serde_json::Value) -> JsonValue {
    match value {
        serde_json::Value::Null => JsonValue::Null,
        serde_json::Value::Bool(b) => JsonValue::Bool(*b),
        serde_json::Value::Number(n) => JsonValue::Number(n.to_string()),
        serde_json::Value::String(s) => JsonValue::String(s.clone()),
        serde_json::Value::Array(items) => JsonValue::Array(items.iter().map(from_serde).collect()),
        serde_json::Value::Object(entries) => {
            JsonValue::Object(entries.iter().map(|(k, v)| (k.clone(), from_serde(v))).collect())
        }
    }
}

fn json(text: &str) -> JsonValue {
    from_serde(&serde_json::from_str(text).expect("json"))
}

fn text(s: &str) -> YamlValue {
    YamlValue::String(s.to_string())
}

fn expected(text: &str) -> serde_json::Value {
    serde_json::from_str(text).expect("expected json")
}

fn keys(value: &JsonValue) -> Vec<String> {
    match value {
        JsonValue::Object(entries) => entries.iter().map(|(k, _)| k.clone()).collect(),
        _ => panic!("object expected"),
    }
}

fn strings(values: &[&str]) -> Vec<String> {
    values.iter().map(|v| v.to_string()).collect()
}

#[test]
fn yaml_text_of_json_parses_into_library_values() {
    let value = parse_yaml_json(r#"{"a":[1,true,null,"x"],"b":{"c":2.5}}"#).expect("json as yaml");
    assert_eq!(to_serde(&value), expected(r#"{"a":[1,true,null,"x"],"b":{"c":2.5}}"#));
    assert!(parse_yaml_json("{").is_err());
}

#[test]
fn yaml_text_stands_for_json_without_tags_and_non_string_keys() {
    let value = parse_yaml_json("z: !reset [1]\n2: dropped\na:\n  c: d\n").expect("yaml");
    assert_eq!(keys(&value), strings(&["z", "a"]));
    assert_eq!(to_serde(&value), expected(r#"{"z":[1],"a":{"c":"d"}}"#));
    assert!(parse_yaml_json("a: [").is_err());
}

#[test]
fn service_definitions_are_read_from_compose_texts() {
    let texts = strings(&["services:\n  app:\n    image: base:1\n", "services:\n  app:\n    user: vscode\n"]);
    let definition = service_definition_from_texts(&texts, "app", "/w").expect("definition");
    assert_eq!(definition.image.as_deref(), Some("base:1"));
    assert_eq!(definition.user.as_deref(), Some("vscode"));
    let broken = strings(&["services:\n  app:\n    image: base:1\n", "services: [\n"]);
    assert!(service_definition_from_texts(&broken, "app", "/w").is_err());
    let missing = strings(&["services:\n  db:\n    image: pg\n"]);
    assert!(service_definition_from_texts(&missing, "app", "/w").is_err());
}

#[test]
fn profiled_services_are_read_from_compose_texts() {
    let texts = strings(&[
        "services:\n  app:\n    profiles: [dev]\n  db:\n    image: x\n",
        "services:\n  app:\n    profiles: !reset []\n  worker:\n    profiles: [x]\n",
    ]);
    assert_eq!(compose_profiled_services_from_texts(&texts), Ok(strings(&["worker"])));
    assert!(compose_profiled_services_from_texts(&strings(&["services: ["])).is_err());
    let document = YamlValue::Mapping(vec![(
        text("services"),
        YamlValue::Mapping(vec![
            (
                text("app"),
                YamlValue::Mapping(vec![(
                    text("profiles"),
                    YamlValue::Tagged("!reset".to_string(), Box::new(YamlValue::Sequence(Vec::new()))),
                )]),
            ),
            (YamlValue::Number("7".to_string()), YamlValue::Mapping(Vec::new())),
            (text("db"), text("plain")),
        ]),
    )]);
    let entries = compose_service_entries(&document);
    assert_eq!(entries.len(), 3);
    assert_eq!(entries[0].name.as_deref(), Some("app"));
    assert!(entries[0].is_mapping);
    assert!(matches!(
        &entries[0].profiles,
        Some(ProfilesValue::Tagged(tag, inner)) if tag == "!reset" && matches!(**inner, ProfilesValue::Sequence(0))
    ));
    assert_eq!(entries[1].name, None);
    assert!(!entries[2].is_mapping);
    assert!(entries[2].profiles.is_none());
}

#[test]
fn existing_context_takes_the_compose_container_or_the_matched_one() {
    let configuration = JsonValue::Object(vec![("remoteUser".to_string(), JsonValue::String("me".to_string()))]);
    let not_found = existing_container_context(Some(Ok(None)), None, Some(Ok((JsonValue::Null, "/r".to_string()))), None, None);
    assert_eq!(not_found.map(|c| c.container_id), Err("Dev container not found.".to_string()));
    let lookup_error = existing_container_context(Some(Err("ps failed".to_string())), None, None, None, None);
    assert_eq!(lookup_error.map(|c| c.container_id), Err("ps failed".to_string()));
    let compose = existing_container_context(Some(Ok(Some("c1".to_string()))), None, Some(Ok((configuration, "/".to_string()))), None, None)
        .expect("context");
    assert_eq!((compose.container_id.as_str(), compose.remote_workspace_folder.as_str()), ("c1", "/"));
    let target = ResolvedTargetContainer { container_id: "c2".to_string(), id_labels: None };
    let inspected = InspectedContainerContext {
        configuration: JsonValue::Object(Vec::new()),
        local_workspace_folder: Some("/home/me/proj".to_string()),
        remote_workspace_folder: None,
    };
    let matched = existing_container_context(None, Some(Ok(target)), None, Some(Ok(inspected)), Some("/elsewhere/other")).expect("context");
    assert_eq!((matched.container_id.as_str(), matched.remote_workspace_folder.as_str()), ("c2", "/workspaces/proj"));
    let configuration_error = existing_container_context(
        None,
        Some(Ok(ResolvedTargetContainer { container_id: "c3".to_string(), id_labels: None })),
        Some(Err("bad configuration".to_string())),
        None,
        None,
    );
    assert_eq!(configuration_error.map(|c| c.container_id), Err("bad configuration".to_string()));
}

#[test]
fn existing_context_uses_compose_only_without_an_explicit_container() {
    let compose = json(r#"{"dockerComposeFile":"c.yml","service":"app"}"#);
    assert!(existing_context_uses_compose(true, &compose, &[]));
    assert!(!existing_context_uses_compose(false, &compose, &[]));
    assert!(!existing_context_uses_compose(true, &compose, &strings(&["--container-id", "x"])));
    let image = json(r#"{"image":"alpine"}"#);
    assert!(!existing_context_uses_compose(true, &image, &[]));
}
