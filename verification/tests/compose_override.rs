use devcontainer::compose_override::{
    compose_additional_volumes, compose_build_override_file, compose_metadata_override_file,
    compose_mount_definition, compose_mount_definition_from_str, compose_named_volumes,
    compose_wrapper_command, compose_wrapper_entrypoint, escape_compose_label, escape_compose_scalar,
    insert_nested_mount_value, merge_mount_scalar_or_object, mount_option_key_path,
    parse_mount_option_scalar, render_compose_string_sequence, render_compose_volume_entry,
    render_named_volume_entry, render_yaml_key_value, render_yaml_sequence_item, short_syntax,
    ComposeNamedVolume, ComposeVolumeEntry,
};
use devcontainer::engine::{ProcessRequest, ProcessResult};
use devcontainer::json::JsonValue;
use devcontainer::options::EnvDefaults;

fn to_json(value: &serde_json::Value) -> JsonValue {
    match value {
        serde_json::Value::Null => JsonValue::Null,
        serde_json::Value::Bool(b) => JsonValue::Bool(*b),
        serde_json::Value::Number(n) => JsonValue::Number(n.to_string()),
        serde_json::Value::String(s) => JsonValue::String(s.clone()),
        serde_json::Value::Array(items) => JsonValue::Array(items.iter().map(to_json).collect()),
        serde_json::Value::Object(entries) => JsonValue::Object(
            entries.iter().map(|(k, v)| (k.clone(), to_json(v))).collect(),
        ),
    }
}

fn from_json(value: &JsonValue) -> serde_json::Value {
    match value {
        JsonValue::Null => serde_json::Value::Null,
        JsonValue::Bool(b) => serde_json::Value::Bool(*b),
        JsonValue::Number(n) => serde_json::from_str(n).expect("number text"),
        JsonValue::String(s) => serde_json::Value::String(s.clone()),
        JsonValue::Array(items) => serde_json::Value::Array(items.iter().map(from_json).collect()),
        JsonValue::Object(entries) => serde_json::Value::Object(
            entries.iter().map(|(k, v)| (k.clone(), from_json(v))).collect(),
        ),
    }
}

fn parse(text: &str) -> JsonValue {
    to_json(&serde_json::from_str(text).expect("json"))
}

fn value(text: &str) -> serde_json::Value {
    serde_json::from_str(text).expect("json")
}

fn fields_of(text: &str) -> Vec<(String, JsonValue)> {
    match parse(text) {
        JsonValue::Object(entries) => entries,
        _ => panic!("expected an object"),
    }
}

fn field(fields: &[(String, JsonValue)], key: &str) -> Option<serde_json::Value> {
    fields.iter().find(|(k, _)| k == key).map(|(_, v)| from_json(v))
}

fn long(entry: Option<ComposeVolumeEntry>) -> Vec<(String, JsonValue)> {
    match entry {
        Some(ComposeVolumeEntry::Long(fields)) => fields,
        _ => panic!("expected long compose mount definition"),
    }
}

fn no_floats() -> Vec<(String, String)> {
    Vec::new()
}

fn strings(values: &[&str]) -> Vec<String> {
    values.iter().map(|v| v.to_string()).collect()
}

#[test]
fn compose_scalar_escaping_covers_quotes_and_dollars() {
    assert_eq!(escape_compose_label("it's $HOME"), "it''s $$HOME");
    assert_eq!(escape_compose_scalar("can't ${EXPAND}"), "can''t $${EXPAND}");
    assert_eq!(
        render_compose_string_sequence(&vec!["one".to_string(), "two".to_string()]),
        r#"["one","two"]"#
    );
}

#[test]
fn render_volume_entries_support_long_and_named_shapes() {
    let fields = fields_of(
        r#"{"type":"volume","source":"cache","target":"/cache","read_only":true,"uid":1000,"optional":null,
            "volume":{"nocopy":true,"labels":["one","two"],"driver_opts":{"o":"addr='host'"}}}"#,
    );

    let rendered = render_compose_volume_entry(&ComposeVolumeEntry::Long(fields));

    assert!(rendered.contains("- optional: null"), "{rendered}");
    assert!(rendered.contains("type: 'volume'"), "{rendered}");
    assert!(rendered.contains("read_only: true"), "{rendered}");
    assert!(rendered.contains("uid: 1000"), "{rendered}");
    assert!(rendered.contains("labels:"), "{rendered}");
    assert!(rendered.contains("- 'one'"), "{rendered}");
    assert!(rendered.contains("driver_opts:"), "{rendered}");
    assert!(rendered.contains("o: 'addr=''host'''"), "{rendered}");

    assert_eq!(
        render_named_volume_entry(&ComposeNamedVolume { name: "cache".to_string(), external: true }),
        "  cache:\n    external: true\n"
    );
    assert_eq!(
        render_named_volume_entry(&ComposeNamedVolume { name: "scratch".to_string(), external: false }),
        "  scratch:\n"
    );
    assert_eq!(render_compose_volume_entry(&ComposeVolumeEntry::Long(Vec::new())), "");
}

#[test]
fn render_yaml_helpers_cover_nested_arrays_and_scalars() {
    let rendered = render_yaml_key_value(
        "root",
        &parse(r#"{"child":[{"name":"one","enabled":true},["nested",null,42],false]}"#),
        2,
        "",
    );

    assert!(rendered.contains("  root:"), "{rendered}");
    assert!(rendered.contains("    child:"), "{rendered}");
    assert!(rendered.contains("      - enabled: true"), "{rendered}");
    assert!(rendered.contains("        name: 'one'"), "{rendered}");
    assert!(rendered.contains("      -"), "{rendered}");
    assert!(rendered.contains("        - 'nested'"), "{rendered}");
    assert!(rendered.contains("        - null"), "{rendered}");
    assert!(rendered.contains("        - 42"), "{rendered}");
    assert!(rendered.contains("      - false"), "{rendered}");

    assert_eq!(render_yaml_sequence_item(&JsonValue::Null, 4), "    - null\n");
    assert_eq!(render_yaml_key_value("enabled", &JsonValue::Bool(false), 2, ""), "  enabled: false\n");
    assert_eq!(render_yaml_sequence_item(&JsonValue::Bool(true), 4), "    - true\n");
    assert_eq!(render_yaml_sequence_item(&JsonValue::Bool(false), 4), "    - false\n");
    assert_eq!(render_yaml_sequence_item(&parse("7"), 4), "    - 7\n");
    assert_eq!(render_yaml_sequence_item(&parse("{}"), 4), "");
}

#[test]
fn render_yaml_key_value_renders_the_whole_block() {
    let rendered = render_yaml_key_value(
        "root",
        &parse(r#"{"child":[{"name":"one","enabled":true},["nested",null,42],false]}"#),
        2,
        "",
    );
    assert_eq!(
        rendered,
        "  root:\n    child:\n      - enabled: true\n        name: 'one'\n      -\n        - 'nested'\n        - null\n        - 42\n      - false\n"
    );
}

#[test]
fn compose_mount_definition_accepts_object_aliases_and_read_only() {
    let fields = long(compose_mount_definition(
        &parse(
            r#"{"type":"volume","src":"cache","dst":"/cache","readOnly":true,"external":true,
                "volume":{"labels":{"owner":"devcontainer"}},"consistency":"cached"}"#,
        ),
        &no_floats(),
    ));

    assert_eq!(field(&fields, "type"), Some(value(r#""volume""#)));
    assert_eq!(field(&fields, "source"), Some(value(r#""cache""#)));
    assert_eq!(field(&fields, "target"), Some(value(r#""/cache""#)));
    assert_eq!(field(&fields, "read_only"), Some(value("true")));
    assert_eq!(field(&fields, "volume.external"), None);
    assert_eq!(
        field(&fields, "volume"),
        Some(value(r#"{"external":true,"labels":{"owner":"devcontainer"}}"#))
    );
    assert!(compose_mount_definition(&JsonValue::Bool(false), &no_floats()).is_none());

    let fields = long(compose_mount_definition(&parse(r#"{"type":"volume","target":"/cache"}"#), &no_floats()));
    assert_eq!(short_syntax(&fields), None);
}

#[test]
fn compose_mount_definition_from_str_preserves_extended_options() {
    let floats = vec![("1.5".to_string(), "1.5".to_string())];
    let fields = compose_mount_definition_from_str(
        "type=volume,source=cache,target=/cache,external=true,volume-nocopy=true,\
         bind-propagation=rshared,retries=-2,limit=18446744073709551615,ratio=1.5",
        &floats,
    )
    .expect("string mount should parse");

    assert_eq!(field(&fields, "type"), Some(value(r#""volume""#)));
    assert_eq!(field(&fields, "volume"), Some(value(r#"{"external":true,"nocopy":true}"#)));
    assert_eq!(field(&fields, "bind"), Some(value(r#"{"propagation":"rshared"}"#)));
    assert_eq!(field(&fields, "retries"), Some(value("-2")));
    assert_eq!(field(&fields, "limit").and_then(|v| v.as_u64()), Some(u64::MAX));
    assert_eq!(field(&fields, "ratio"), Some(value("1.5")));
    assert_eq!(short_syntax(&fields), None);

    let readonly = compose_mount_definition_from_str("source=/host,target=/work,readonly", &no_floats())
        .expect("readonly bind mount should parse");
    assert_eq!(short_syntax(&readonly), Some("/host:/work:ro".to_string()));
}

#[test]
fn compose_mount_definition_from_str_requires_a_target() {
    assert!(compose_mount_definition_from_str("type=volume,source=cache", &no_floats()).is_none());
    let fields = compose_mount_definition_from_str("src=\"/a b\",dst=/x,ro", &no_floats()).expect("target");
    assert_eq!(field(&fields, "source"), Some(value(r#""/a b""#)));
    assert_eq!(field(&fields, "read_only"), Some(value("true")));
    assert_eq!(field(&fields, "type"), Some(value(r#""bind""#)));
}

#[test]
fn compose_named_volumes_merges_duplicate_external_flags() {
    let local = compose_mount_definition_from_str("type=volume,source=cache,target=/cache", &no_floats())
        .expect("local named volume should parse");
    let external = compose_mount_definition_from_str(
        "type=volume,source=cache,target=/cache,external=true",
        &no_floats(),
    )
    .expect("external named volume should parse");
    let anonymous = compose_mount_definition_from_str("type=volume,target=/anonymous", &no_floats())
        .expect("anonymous volume should parse");
    let bind = compose_mount_definition_from_str("source=/host,target=/work", &no_floats())
        .expect("bind mount should parse");

    let named = compose_named_volumes(&vec![
        ComposeVolumeEntry::Short("/host:/work".to_string()),
        ComposeVolumeEntry::Long(local),
        ComposeVolumeEntry::Long(external),
        ComposeVolumeEntry::Long(anonymous),
        ComposeVolumeEntry::Long(bind),
    ]);

    assert_eq!(named.len(), 1);
    assert_eq!(named[0].name, "cache");
    assert!(named[0].external);
}

#[test]
fn nested_mount_values_replace_scalars_and_merge_objects() {
    let mut fields = fields_of(r#"{"volume":"scalar"}"#);
    insert_nested_mount_value(&mut fields, &vec!["volume".to_string()], 0, "nocopy", JsonValue::Bool(true));
    assert_eq!(field(&fields, "volume"), Some(value(r#"{"nocopy":true}"#)));

    let existing = JsonValue::String("replace-me".to_string());
    let merged = merge_mount_scalar_or_object(existing, parse(r#"{"external":true}"#));
    assert_eq!(from_json(&merged), value(r#"{"external":true}"#));

    assert_eq!(from_json(&parse_mount_option_scalar("\"quoted\"", &no_floats())), value(r#""quoted""#));
}

#[test]
fn merge_scalar_or_object_merges_objects_key_by_key() {
    let merged = merge_mount_scalar_or_object(
        parse(r#"{"a":{"x":1,"y":2},"b":true}"#),
        parse(r#"{"a":{"y":3,"z":4},"c":"new"}"#),
    );
    assert_eq!(from_json(&merged), value(r#"{"a":{"x":1,"y":3,"z":4},"b":true,"c":"new"}"#));
}

#[test]
fn parse_mount_option_scalar_reads_booleans_and_integers() {
    assert_eq!(from_json(&parse_mount_option_scalar("true", &no_floats())), value("true"));
    assert_eq!(from_json(&parse_mount_option_scalar("\"false\"", &no_floats())), value("false"));
    assert_eq!(from_json(&parse_mount_option_scalar("+7", &no_floats())), value("7"));
    assert_eq!(from_json(&parse_mount_option_scalar("-0", &no_floats())), value("0"));
    assert_eq!(from_json(&parse_mount_option_scalar("-9223372036854775808", &no_floats())), value("-9223372036854775808"));
    assert_eq!(from_json(&parse_mount_option_scalar("-9223372036854775809", &no_floats())), value(r#""-9223372036854775809""#));
    assert_eq!(from_json(&parse_mount_option_scalar("18446744073709551616", &no_floats())), value(r#""18446744073709551616""#));
    assert_eq!(from_json(&parse_mount_option_scalar("1.5", &no_floats())), value(r#""1.5""#));
}

#[test]
fn mount_option_key_paths_name_nested_keys() {
    assert_eq!(mount_option_key_path("bind-propagation"), strings(&["bind", "propagation"]));
    assert_eq!(mount_option_key_path("volume-nocopy"), strings(&["volume", "nocopy"]));
    assert_eq!(mount_option_key_path("a.b.c"), strings(&["a", "b", "c"]));
    assert_eq!(mount_option_key_path("plain"), strings(&["plain"]));
}

#[test]
fn wrapper_entrypoint_and_command_follow_override_command() {
    let configuration = parse(r#"{"entrypoint":"echo config-entrypoint"}"#);
    let entrypoint = compose_wrapper_entrypoint(&configuration, &Some(strings(&["/entrypoint.sh"])));
    let parsed: Vec<String> = serde_json::from_str(&entrypoint).expect("json array");
    assert_eq!(parsed.len(), 5);
    assert_eq!(parsed[0], "/bin/sh");
    assert_eq!(parsed[1], "-c");
    assert_eq!(
        parsed[2],
        "echo Container started\ntrap \"exit 0\" 15\necho config-entrypoint\nexec \"$$@\"\nwhile sleep 1 & wait $$!; do :; done"
    );
    assert_eq!(parsed[3], "-");
    assert_eq!(parsed[4], "/entrypoint.sh");

    assert_eq!(compose_wrapper_command(&configuration, &Some(strings(&["/entrypoint.sh"])), &None), Some("[]".to_string()));
    assert_eq!(compose_wrapper_command(&configuration, &None, &None), None);
    assert_eq!(compose_wrapper_command(&configuration, &None, &Some(strings(&["run"]))), None);
    let overridden = parse(r#"{"overrideCommand":true}"#);
    assert_eq!(compose_wrapper_command(&overridden, &None, &Some(strings(&["run"]))), Some("[]".to_string()));
    let overridden_entrypoint = compose_wrapper_entrypoint(&overridden, &Some(strings(&["/entrypoint.sh"])));
    let parsed: Vec<String> = serde_json::from_str(&overridden_entrypoint).expect("json array");
    assert_eq!(parsed.len(), 4);
}

#[test]
fn build_override_lists_cache_sources() {
    assert_eq!(compose_build_override_file("app", &[], "version: '3.9'\n\n"), None);
    let content = compose_build_override_file(
        "app",
        &strings(&["--cache-from", "type=registry,ref=example/cache:$latest"]),
        "version: '3.9'\n\n",
    )
    .expect("override");
    assert_eq!(
        content,
        "version: '3.9'\n\nservices:\n  'app':\n    build:\n      cache_from:\n        - 'type=registry,ref=example/cache:$$latest'\n"
    );
}

fn unused_engine(_request: ProcessRequest) -> Result<ProcessResult, String> {
    panic!("the engine is not asked")
}

#[test]
fn metadata_override_requires_a_service() {
    let configuration = parse(r#"{"dockerComposeFile":"docker-compose.yml"}"#);
    let result = compose_metadata_override_file(
        &configuration,
        &[],
        &EnvDefaults::default(),
        &strings(&["devcontainer.local_folder=/w", "devcontainer.config_file=/w/.devcontainer.json"]),
        "/workspace",
        false,
        "",
        &None,
        &None,
        None,
        &Vec::new(),
        &no_floats(),
        unused_engine,
    );
    assert_eq!(result, Err("Compose configuration must define service".to_string()));
}

#[test]
fn metadata_override_declares_labels_settings_and_named_volumes() {
    let configuration = parse(
        r#"{"service":"app","privileged":true,"init":true,"capAdd":["SYS_PTRACE"],"securityOpt":["seccomp=unconfined"],
            "containerUser":"vscode","containerEnv":{"A":"it's"},"remoteEnv":{"B":"$b"},
            "mounts":[{"type":"volume","source":"feature-cache","target":"/cache","external":true}]}"#,
    );
    let content = compose_metadata_override_file(
        &configuration,
        &strings(&["--id-label", "x=y"]),
        &EnvDefaults::default(),
        &strings(&["devcontainer.local_folder=/w", "devcontainer.config_file=/w/.devcontainer.json"]),
        "/workspace",
        true,
        "version: '3'\n\n",
        &None,
        &None,
        Some("image:latest"),
        &Vec::new(),
        &no_floats(),
        unused_engine,
    )
    .expect("content");

    assert!(content.starts_with("version: '3'\n\nservices:\n  'app':\n    labels:\n      - 'devcontainer.local_folder=/w'"), "{content}");
    assert!(
        content.contains("\n      - 'devcontainer.metadata=[{\"containerEnv\":{\"A\":\"it''s\"},\"containerUser\":\"vscode\",\"workspaceFolder\":\"/workspace\"}]'"),
        "{content}"
    );
    assert!(content.contains("\n      - 'x=y'\n"), "{content}");
    assert!(content.contains("    image: 'image:latest'\n"), "{content}");
    assert!(!content.contains("    command:"), "{content}");
    assert!(content.contains("\n    volumes:\n      - external: false") || content.contains("\n    volumes:\n      - source: 'feature-cache'"), "{content}");
    assert!(content.contains("    environment:\n      A: 'it''s'\n"), "{content}");
    assert!(content.contains("    user: 'vscode'\n"), "{content}");
    assert!(content.contains("    privileged: true\n    init: true\n    cap_add:\n      - 'SYS_PTRACE'\n    security_opt:\n      - 'seccomp=unconfined'\n"), "{content}");
    assert!(content.ends_with("\nvolumes:\n  feature-cache:\n    external: true\n"), "{content}");
}

#[test]
fn metadata_override_reports_mount_errors() {
    let configuration = parse(r#"{"service":"app"}"#);
    let labels = strings(&["devcontainer.local_folder=/w", "devcontainer.config_file=/w/.devcontainer.json"]);
    let mount_error = compose_metadata_override_file(
        &configuration, &strings(&["--mount", "type=bind"]), &EnvDefaults::default(), &labels, "/workspace", false,
        "", &None, &None, None, &Vec::new(), &no_floats(), unused_engine,
    );
    assert!(mount_error.is_err());
}

#[test]
fn metadata_override_records_remote_env_unless_omitted() {
    let configuration = parse(r#"{"service":"app","remoteEnv":{"B":"$b"}}"#);
    let labels = strings(&["devcontainer.local_folder=/w", "devcontainer.config_file=/w/.devcontainer.json"]);
    let content = compose_metadata_override_file(
        &configuration, &[], &EnvDefaults::default(), &labels, "/workspace", false,
        "", &None, &None, None, &Vec::new(), &no_floats(), unused_engine,
    )
    .expect("content");
    assert!(
        content.contains("\n      - 'devcontainer.metadata=[{\"remoteEnv\":{\"B\":\"$$b\"},\"workspaceFolder\":\"/workspace\"}]'"),
        "{content}"
    );
}

#[test]
fn metadata_override_asks_the_engine_about_gpus_when_needed() {
    let configuration = parse(r#"{"service":"app","hostRequirements":{"gpu":true}}"#);
    let labels = strings(&["devcontainer.local_folder=/w", "devcontainer.config_file=/w/.devcontainer.json"]);
    let content = compose_metadata_override_file(
        &configuration, &[], &EnvDefaults::default(), &labels, "/workspace", false,
        "", &None, &None, None, &Vec::new(), &no_floats(),
        |request: ProcessRequest| {
            assert_eq!(request.args, strings(&["info", "-f", "{{.Runtimes.nvidia}}"]));
            Ok(ProcessResult { status_code: 0, stdout: "nvidia-container-runtime".to_string(), stderr: String::new() })
        },
    )
    .expect("content");
    assert!(content.contains("            - capabilities: [gpu]\n"), "{content}");
}

#[test]
fn additional_volumes_skip_workspace_target_mounts_with_workspace_mount() {
    let with_mount = parse(r#"{"workspaceMount":"type=bind,source=/a,target=/b","mounts":["type=volume,source=v,target=/v"]}"#);
    let volumes = compose_additional_volumes(&with_mount, &[], &strings(&["type=bind,source=/git,target=/git"]), &no_floats())
        .expect("volumes");
    assert_eq!(volumes.len(), 1);
    let without = parse(r#"{"mounts":["type=volume,source=v,target=/v"]}"#);
    let volumes = compose_additional_volumes(
        &without,
        &strings(&["--mount", "type=volume,target=/cache"]),
        &strings(&["type=bind,source=/git,target=/git"]),
        &no_floats(),
    )
    .expect("volumes");
    assert_eq!(volumes.len(), 3);
}

#[test]
fn string_sequences_escape_as_json_text() {
    assert_eq!(render_compose_string_sequence(&Vec::new()), "[]");
    let values = vec![
        "say \"hi\"\\".to_string(),
        "\u{8}\t\n\u{c}\r".to_string(),
        "\u{1}\u{1f}\u{7f}é".to_string(),
    ];
    assert_eq!(
        render_compose_string_sequence(&values),
        "[\"say \\\"hi\\\"\\\\\",\"\\b\\t\\n\\f\\r\",\"\\u0001\\u001f\u{7f}é\"]"
    );
}
