use devcontainer::discovery::{
    append_diagnostic_section, default_label_match_for_platform, dev_container_not_found_message,
    legacy_default_id_labels, matched_default_id_labels_for_platform,
    normalize_devcontainer_label_path_for_platform, normalized_default_label_match,
    parse_container_ids, ps_engine_args, target_container_labels, truncate_diagnostic,
    DefaultLabelMatch,
};

use devcontainer::json::JsonValue;

const LOCAL_FOLDER: &str = "devcontainer.local_folder";
const CONFIG_FILE: &str = "devcontainer.config_file";

fn labels(entries: &[(&str, &str)]) -> Vec<(String, String)> {
    entries
        .iter()
        .map(|(k, v)| (k.to_string(), v.to_string()))
        .collect()
}

#[test]
fn normalized_default_label_match_accepts_windows_path_casing_changes() {
    let labels = labels(&[
        (LOCAL_FOLDER, "C:\\CodeBlocks\\remill"),
        (CONFIG_FILE, "C:/CodeBlocks/remill/.devcontainer/devcontainer.json"),
    ]);

    let label_match = normalized_default_label_match(
        &labels,
        "c:\\CodeBlocks\\remill",
        Some("c:\\CodeBlocks\\remill\\.devcontainer\\devcontainer.json"),
        LOCAL_FOLDER,
        CONFIG_FILE,
    );

    assert_eq!(label_match, Some(DefaultLabelMatch::Current));
}

#[test]
fn normalized_default_label_match_keeps_legacy_workspace_only_matches() {
    let labels = labels(&[(LOCAL_FOLDER, "C:\\CodeBlocks\\remill")]);

    let label_match = normalized_default_label_match(
        &labels,
        "c:\\CodeBlocks\\remill",
        Some("c:\\CodeBlocks\\remill\\.devcontainer\\devcontainer.json"),
        LOCAL_FOLDER,
        CONFIG_FILE,
    );

    assert_eq!(label_match, Some(DefaultLabelMatch::Legacy));
}

#[test]
fn default_label_match_handles_workspace_and_config_mismatches() {
    let labels = labels(&[
        (LOCAL_FOLDER, "C:\\CodeBlocks\\remill"),
        (CONFIG_FILE, "C:\\CodeBlocks\\remill\\.devcontainer\\other.json"),
    ]);

    assert_eq!(
        default_label_match_for_platform(
            "windows",
            &labels,
            "c:\\CodeBlocks\\other",
            Some("c:\\CodeBlocks\\remill\\.devcontainer\\devcontainer.json"),
            LOCAL_FOLDER,
            CONFIG_FILE,
        ),
        None
    );
    assert_eq!(
        default_label_match_for_platform(
            "windows",
            &labels,
            "c:\\CodeBlocks\\remill",
            None,
            LOCAL_FOLDER,
            CONFIG_FILE,
        ),
        Some(DefaultLabelMatch::Current)
    );
    assert_eq!(
        default_label_match_for_platform(
            "windows",
            &labels,
            "c:\\CodeBlocks\\remill",
            Some("c:\\CodeBlocks\\remill\\.devcontainer\\devcontainer.json"),
            LOCAL_FOLDER,
            CONFIG_FILE,
        ),
        None
    );
}

#[test]
fn legacy_default_id_labels_preserve_workspace_only_label_set() {
    let labels = labels(&[
        (LOCAL_FOLDER, "C:\\CodeBlocks\\remill"),
        ("unrelated", "ignored"),
    ]);

    assert_eq!(
        legacy_default_id_labels(&labels, LOCAL_FOLDER, CONFIG_FILE),
        vec![(
            LOCAL_FOLDER.to_string(),
            "C:\\CodeBlocks\\remill".to_string()
        )]
    );
}

#[test]
fn matched_default_id_labels_for_platform_preserves_legacy_windows_workspace_only_labels() {
    let labels = labels(&[(LOCAL_FOLDER, "C:\\CodeBlocks\\remill")]);

    assert_eq!(
        matched_default_id_labels_for_platform(
            "windows",
            &labels,
            "C:/CodeBlocks/remill",
            Some("C:/CodeBlocks/remill/.devcontainer/devcontainer.json"),
        ),
        Some(vec![(
            LOCAL_FOLDER.to_string(),
            "C:\\CodeBlocks\\remill".to_string(),
        )])
    );
}

#[test]
fn matched_default_id_labels_for_platform_ignores_current_label_sets() {
    let labels = labels(&[
        (LOCAL_FOLDER, "c:\\CodeBlocks\\remill"),
        (CONFIG_FILE, "c:\\CodeBlocks\\remill\\.devcontainer\\devcontainer.json"),
    ]);

    assert_eq!(
        matched_default_id_labels_for_platform(
            "windows",
            &labels,
            "C:/CodeBlocks/remill",
            Some("C:/CodeBlocks/remill/.devcontainer/devcontainer.json"),
        ),
        None
    );
}

#[test]
fn matched_default_id_labels_for_platform_preserves_legacy_posix_workspace_only_labels() {
    let labels = labels(&[(LOCAL_FOLDER, "/tmp/remill")]);

    assert_eq!(
        matched_default_id_labels_for_platform(
            "macos",
            &labels,
            "/tmp/remill",
            Some("/tmp/remill/.devcontainer/devcontainer.json"),
        ),
        Some(vec![(LOCAL_FOLDER.to_string(), "/tmp/remill".to_string())])
    );
}

#[test]
fn target_container_helpers_parse_ids_args_and_workspace_only_labels() {
    assert_eq!(
        parse_container_ids("abc123\n\nbad id\n def456 \n"),
        vec!["abc123".to_string(), "def456".to_string()]
    );
    assert_eq!(
        ps_engine_args(&["a=b".to_string(), "c=d".to_string()], false),
        vec![
            "ps".to_string(),
            "-q".to_string(),
            "--filter".to_string(),
            "label=a=b".to_string(),
            "--filter".to_string(),
            "label=c=d".to_string(),
        ]
    );
    assert_eq!(
        ps_engine_args(&["a=b".to_string()], true),
        vec![
            "ps".to_string(),
            "-q".to_string(),
            "-a".to_string(),
            "--filter".to_string(),
            "label=a=b".to_string(),
        ]
    );
    assert_eq!(
        target_container_labels(
            &[
                "--id-label".to_string(),
                "custom=one".to_string(),
                "--id-label".to_string(),
                "other=two".to_string(),
            ],
            Some("/workspace"),
            None,
            "linux",
        ),
        vec!["custom=one".to_string(), "other=two".to_string()]
    );

    let workspace_only = target_container_labels(&[], Some("/workspace"), None, "linux");
    assert_eq!(workspace_only.len(), 1);
    assert!(workspace_only[0].starts_with("devcontainer.local_folder="));
    assert!(target_container_labels(&[], None, None, "linux").is_empty());
}

#[test]
fn target_container_labels_name_the_folder_and_config_file() {
    assert_eq!(
        target_container_labels(&[], Some("/w"), Some("/w/.devcontainer/devcontainer.json"), "linux"),
        vec![
            "devcontainer.local_folder=/w".to_string(),
            "devcontainer.config_file=/w/.devcontainer/devcontainer.json".to_string(),
        ]
    );
    assert_eq!(
        target_container_labels(&[], Some("C:/W"), None, "windows"),
        vec!["devcontainer.local_folder=c:\\W".to_string()]
    );
}

#[test]
fn label_paths_are_normalized_only_on_windows() {
    assert_eq!(
        normalize_devcontainer_label_path_for_platform("windows", "D:/Code/x"),
        "d:\\Code\\x"
    );
    assert_eq!(
        normalize_devcontainer_label_path_for_platform("linux", "D:/Code/x"),
        "D:/Code/x"
    );
    assert_eq!(
        normalize_devcontainer_label_path_for_platform("windows", "/a/b"),
        "\\a\\b"
    );
}

#[test]
fn not_found_messages_name_the_workspace_when_labels_are_derived() {
    assert_eq!(
        dev_container_not_found_message(&[], Some("/w"), Some("/w/c.json")),
        "Dev container not found for workspace folder '/w' and config file '/w/c.json'. If the container was created with a different config file, pass --config <path> or set DEVCONTAINER_CONFIG."
    );
    assert_eq!(
        dev_container_not_found_message(
            &["--id-label".to_string(), "a=b".to_string()],
            Some("/w"),
            Some("/w/c.json")
        ),
        "Dev container not found."
    );
    assert_eq!(
        dev_container_not_found_message(&[], Some("/w"), None),
        "Dev container not found."
    );
}

#[test]
fn diagnostics_are_trimmed_titled_and_truncated_on_char_boundaries() {
    let mut message = "Service failed.".to_string();
    append_diagnostic_section(&mut message, "Compose up stdout", "  \n ");
    assert_eq!(message, "Service failed.");
    append_diagnostic_section(&mut message, "Compose up stderr", " boom \n");
    assert_eq!(message, "Service failed.\n\nCompose up stderr:\nboom");

    let short = "x".repeat(16384);
    assert_eq!(truncate_diagnostic(&short), short);
    let long = format!("{}é", "x".repeat(16383));
    assert_eq!(
        truncate_diagnostic(&long),
        format!(
            "{}\n... truncated compose diagnostic output after 16384 bytes ...",
            "x".repeat(16383)
        )
    );
}

fn no_engine(_request: devcontainer::engine::ProcessRequest) -> Result<devcontainer::engine::ProcessResult, String> {
    panic!("the engine is not asked")
}


fn json_of(value: &serde_json::Value) -> JsonValue {
    match value {
        serde_json::Value::Null => JsonValue::Null,
        serde_json::Value::Bool(b) => JsonValue::Bool(*b),
        serde_json::Value::Number(n) => JsonValue::Number(n.to_string()),
        serde_json::Value::String(s) => JsonValue::String(s.clone()),
        serde_json::Value::Array(items) => JsonValue::Array(items.iter().map(json_of).collect()),
        serde_json::Value::Object(entries) => JsonValue::Object(entries.iter().map(|(k, v)| (k.clone(), json_of(v))).collect()),
    }
}


fn answer(status_code: i32, stdout: &str) -> Result<devcontainer::engine::ProcessResult, String> {
    Ok(devcontainer::engine::ProcessResult { status_code, stdout: stdout.to_string(), stderr: String::new() })
}

#[test]
fn normalized_default_label_lookup_without_workspace_is_empty() {
    let found = devcontainer::discovery::find_normalized_default_label_match(
        &[],
        &devcontainer::options::EnvDefaults::default(),
        None,
        None,
        false,
        &no_engine,
    )
    .expect("missing workspace should not invoke engine");
    assert!(found.is_none());
}

#[test]
fn explicit_container_id_without_workspace_skips_label_inspection() {
    let resolved = devcontainer::discovery::resolve_target_container_match(
        "linux",
        &["--container-id".to_string(), "explicit-container".to_string()],
        &devcontainer::options::EnvDefaults::default(),
        None,
        None,
        &no_engine,
    )
    .expect("explicit container id should resolve");

    assert_eq!(resolved.container_id, "explicit-container");
    assert_eq!(resolved.id_labels, None);
    assert_eq!(
        devcontainer::discovery::inspect_matched_default_id_labels(
            &[],
            &devcontainer::options::EnvDefaults::default(),
            "linux",
            "explicit-container",
            None,
            None,
            &no_engine,
        )
        .expect("missing workspace skips inspection"),
        None
    );
}

#[test]
fn target_container_lookup_requires_labels() {
    let result = devcontainer::discovery::find_target_container_for_platform(
        "linux",
        &[],
        &devcontainer::options::EnvDefaults::default(),
        None,
        None,
        false,
        &no_engine,
    );
    assert_eq!(
        result.map(|t| t.map(|t| t.container_id)),
        Err("Unable to determine target container. Provide --container-id or --workspace-folder.".to_string())
    );
}

#[test]
fn target_container_lookup_uses_the_first_listed_container_and_its_labels() {
    let engine = |request: devcontainer::engine::ProcessRequest| {
        if request.args[0] == "ps" {
            assert_eq!(
                request.args,
                vec![
                    "ps", "-q", "--filter", "label=devcontainer.local_folder=/w",
                    "--filter", "label=devcontainer.config_file=/w/.devcontainer/devcontainer.json",
                ]
            );
            answer(0, "abc\ndef\n")
        } else {
            assert_eq!(request.args, vec!["inspect", "abc"]);
            answer(0, r#"[{"Config":{"Labels":{"devcontainer.local_folder":"/w","devcontainer.config_file":"/w/.devcontainer/devcontainer.json"}}}]"#)
        }
    };
    let found = devcontainer::discovery::find_target_container_for_platform(
        "linux",
        &[],
        &devcontainer::options::EnvDefaults::default(),
        Some("/w"),
        Some("/w/.devcontainer/devcontainer.json"),
        false,
        &engine,
    )
    .expect("lookup")
    .expect("found");
    assert_eq!(found.container_id, "abc");
    assert_eq!(found.id_labels, None);
}

#[test]
fn normalized_lookup_prefers_a_full_match_over_a_legacy_match() {
    let engine = |request: devcontainer::engine::ProcessRequest| {
        match request.args[0].as_str() {
            "ps" => answer(0, "legacy\ncurrent\n"),
            _ => {
                if request.args[1] == "legacy" {
                    answer(0, r#"[{"Config":{"Labels":{"devcontainer.local_folder":"C:/Work"}}}]"#)
                } else {
                    answer(0, r#"[{"Config":{"Labels":{"devcontainer.local_folder":"c:\\Work","devcontainer.config_file":"c:\\Work\\.devcontainer.json"}}}]"#)
                }
            },
        }
    };
    let found = devcontainer::discovery::find_normalized_default_label_match(
        &[],
        &devcontainer::options::EnvDefaults::default(),
        Some("C:\\Work"),
        Some("C:\\Work\\.devcontainer.json"),
        false,
        &engine,
    )
    .expect("lookup")
    .expect("found");
    assert_eq!(found.container_id, "current");
    assert_eq!(found.id_labels, None);
}

#[test]
fn inspect_container_labels_reports_invalid_json() {
    let engine = |_request: devcontainer::engine::ProcessRequest| answer(0, "not json");
    let result = devcontainer::discovery::inspect_container_labels(
        &[],
        &devcontainer::options::EnvDefaults::default(),
        "abc",
        &engine,
    );
    assert!(result.expect_err("invalid").starts_with("Invalid inspect JSON: "));
}
