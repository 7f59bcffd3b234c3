use devcontainer::compose_definition::{compose_spec_from_definition, ServiceBuildInfo, ServiceDefinition};
use devcontainer::compose_definition::{
    parse_build_args, parse_service_build, parse_service_command, service_definition_from_documents,
    version_prefix, yaml_scalar_to_string,
};
use devcontainer::compose::split_shell_words;
use devcontainer::json::JsonValue;

fn from_yaml(value: &serde_yaml::Value) -> JsonValue {
    match value {
        serde_yaml::Value::Null => JsonValue::Null,
        serde_yaml::Value::Bool(b) => JsonValue::Bool(*b),
        serde_yaml::Value::Number(n) => JsonValue::Number(n.to_string()),
        serde_yaml::Value::String(s) => JsonValue::String(s.clone()),
        serde_yaml::Value::Sequence(items) => JsonValue::Array(items.iter().map(from_yaml).collect()),
        serde_yaml::Value::Mapping(entries) => JsonValue::Object(
            entries
                .iter()
                .filter_map(|(k, v)| k.as_str().map(|k| (k.to_string(), from_yaml(v))))
                .collect(),
        ),
        serde_yaml::Value::Tagged(tagged) => from_yaml(&tagged.value),
    }
}

fn yaml(text: &str) -> JsonValue {
    from_yaml(&serde_yaml::from_str(text).expect("yaml"))
}

#[test]
fn service_build_and_command_parsers_handle_edge_shapes() {
    assert!(parse_service_build(&JsonValue::Bool(true), ".").is_none());
    let build = parse_service_build(&yaml("args:\n  one: 1\n  enabled: true\n  blank:\n  nested:\n    skip: true\n"), "/workspace")
        .expect("mapping build");
    assert_eq!(build.context, "/workspace");
    assert_eq!(build.dockerfile_path, "Dockerfile");
    assert_eq!(build.target, None);
    assert_eq!(build.args.expect("args").len(), 3);

    assert_eq!(parse_build_args(&yaml("[one, two]")), None);
    assert_eq!(parse_service_command(&JsonValue::Null), Some(Vec::new()));
    assert_eq!(parse_service_command(&JsonValue::Bool(true)), None);
    assert_eq!(yaml_scalar_to_string(&JsonValue::Bool(false)), Some("false".into()));
    assert_eq!(
        split_shell_words(r#"cmd "two words" 'literal value' escaped\ space "quoted\"value" 'unterminated"#),
        vec!["cmd", "two words", "literal value", "escaped space", "quoted\"value", "'unterminated"]
    );
}

#[test]
fn inspect_service_definition_merges_files_and_parses_runtime_fields() {
    let base = yaml(
        r#"
services:
  app:
    image: base-image
    build:
      context: ./context
      dockerfile: Dockerfile.dev
      target: runtime
      args:
        STRING_ARG: value
        BOOL_ARG: true
        NUMBER_ARG: 42
        NULL_ARG:
        ignored:
          nested: true
    user: "1000:1000"
    entrypoint: "/bin/sh -lc \"echo base\""
    command: ["sleep", 1, true, null, { ignored: true }]
"#,
    );
    let override_file = yaml("services:\n  app:\n    image: override-image\n    command: echo override\n");

    let definition = service_definition_from_documents(&vec![base, override_file], "app", "/root").expect("definition");
    let build = definition.build.expect("build info");

    assert_eq!(definition.image.as_deref(), Some("override-image"));
    assert!(definition.has_build);
    assert_eq!(definition.user.as_deref(), Some("1000:1000"));
    assert_eq!(
        definition.entrypoint,
        Some(vec!["/bin/sh".to_string(), "-lc".to_string(), "echo base".to_string()])
    );
    assert_eq!(definition.command, Some(vec!["echo".to_string(), "override".to_string()]));
    assert_eq!(build.context, "./context");
    assert_eq!(build.dockerfile_path, "Dockerfile.dev");
    assert_eq!(build.target.as_deref(), Some("runtime"));
    let args = build.args.expect("build args");
    let get = |name: &str| args.iter().find(|(k, _)| k == name).map(|(_, v)| v.clone());
    assert_eq!(get("STRING_ARG").as_deref(), Some("value"));
    assert_eq!(get("BOOL_ARG").as_deref(), Some("true"));
    assert_eq!(get("NUMBER_ARG").as_deref(), Some("42"));
    assert_eq!(get("NULL_ARG").as_deref(), Some(""));
    assert_eq!(get("ignored"), None);
}

#[test]
fn inspect_service_definition_reports_a_missing_service() {
    let document = yaml("services:\n  other:\n    image: alpine\n");
    let error = match service_definition_from_documents(&vec![document], "app", ".") {
        Ok(_) => panic!("missing service should fail"),
        Err(error) => error,
    };
    assert_eq!(error, "Unable to locate compose service `app` in compose configuration");
}

#[test]
fn version_prefix_reads_the_first_version_line() {
    assert_eq!(
        version_prefix(Some("name: app\nversion: '3.9'\nservices:\n  app:\n    image: alpine\n")),
        "version: '3.9'\n\n"
    );
    assert_eq!(version_prefix(None), "");
    assert_eq!(version_prefix(Some("services: {}\n")), "");
    assert_eq!(version_prefix(Some("  version: 2 \n")), "version: 2\n\n");
}

#[test]
fn compose_spec_from_definition_marks_built_services() {
    let definition = ServiceDefinition {
        image: Some("app:dev".to_string()),
        has_build: false,
        build: Some(ServiceBuildInfo {
            context: "/work".to_string(),
            dockerfile_path: "Dockerfile".to_string(),
            target: None,
            args: None,
        }),
        user: Some("node".to_string()),
        entrypoint: None,
        command: None,
    };
    let spec = compose_spec_from_definition(vec!["/work/compose.yml".to_string()], "app".to_string(), "demo".to_string(), definition);
    assert!(spec.has_build);
    assert_eq!(spec.image.as_deref(), Some("app:dev"));
    assert_eq!(spec.user.as_deref(), Some("node"));
    assert_eq!(spec.project_name, "demo");
    assert_eq!(spec.files, vec!["/work/compose.yml".to_string()]);

    let plain = ServiceDefinition { image: None, has_build: false, build: None, user: None, entrypoint: None, command: None };
    assert!(!compose_spec_from_definition(Vec::new(), "app".to_string(), "demo".to_string(), plain).has_build);
}
