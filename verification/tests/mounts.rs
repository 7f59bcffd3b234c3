use devcontainer::json::JsonValue;
use devcontainer::mounts::{
    mount_value_to_engine_arg,
    cli_mount_values, mount_args_for_engine, mount_option_target, split_mount_options,
    validate_cli_mount_value, validate_cli_mount_values,
};

#[test]
fn mount_option_target_reads_quoted_targets() {
    assert_eq!(
        mount_option_target(r#"type=bind,source=/tmp/src,target="/workspace,with,comma""#),
        Some("/workspace,with,comma".to_string())
    );
}

#[test]
fn wslc_mount_arguments_preserve_aliases_read_only_and_supported_options() {
    assert_eq!(
        mount_args_for_engine(
            r#"type=bind,src="/src,with,commas",destination=/dst,ro,consistency=delegated,bind.propagation=rshared"#,
            true,
        ),
        Ok(vec![
            "-v".to_string(),
            "/src,with,commas:/dst:ro,delegated,rshared".to_string(),
        ])
    );
    assert_eq!(
        mount_args_for_engine(
            "type=volume,source=cache,dst=/cache,readonly=true,volume-nocopy",
            true,
        ),
        Ok(vec!["-v".to_string(), "cache:/cache:ro,nocopy".to_string(),])
    );
}

#[test]
fn wslc_mount_arguments_keep_read_write_defaults_and_anonymous_volumes() {
    assert_eq!(
        mount_args_for_engine("type=bind,source=C:\\src,target=/dst,readonly=false", true,),
        Ok(vec!["-v".to_string(), "C:\\src:/dst".to_string()])
    );
    assert_eq!(
        mount_args_for_engine("type=volume,target=/cache,readonly", true),
        Ok(vec!["-v".to_string(), "/cache:ro".to_string()])
    );
    assert_eq!(
        mount_args_for_engine(
            "type=volume,source=cache,target=/cache,ro=true,nocopy=false",
            true,
        ),
        Ok(vec!["-v".to_string(), "cache:/cache:ro".to_string()])
    );
    assert_eq!(
        mount_args_for_engine(
            "type=bind,type=bind,source=/src,src=/src,target=/dst,dst=/dst,readonly,ro=true",
            true,
        ),
        Ok(vec!["-v".to_string(), "/src:/dst:ro".to_string()])
    );
}

#[test]
fn wslc_mount_arguments_reject_semantics_that_volume_syntax_cannot_preserve() {
    for mount in [
        "type=bind,source=/src,target=/dst,bind-nonrecursive",
        "type=volume,source=cache,target=/dst,volume-opt=o=uid=1000",
        "type=volume,source=/host/path,target=/dst",
        "type=bind,source=relative,target=/dst",
        "type=bind,source=/src:alternate,target=/dst",
        "type=bind,source=/src,target=/dst:alternate",
        "type=bind,source=/src,target=/dst,",
    ] {
        let error = mount_args_for_engine(mount, true).expect_err("unrepresentable mount");
        assert!(
            error.contains("WSLc cannot represent mount with -v"),
            "{mount}: {error}"
        );
        assert!(!error.contains("--mount"), "{mount}: {error}");
    }
}

#[test]
fn wslc_mount_arguments_report_each_invalid_option_kind() {
    for (mount, reason) in [
        (
            "type=bind,,source=/src,target=/dst",
            "contains an empty option",
        ),
        (
            "type=bind,source=/src,target=/dst,consistency=eventual",
            "consistency value \"eventual\" is not supported by -v",
        ),
        (
            "type=bind,source=/src,target=/dst,bind-propagation=recursive",
            "bind propagation value \"recursive\" is not supported by -v",
        ),
        (
            "type=tmpfs,target=/dst",
            "mount type \"tmpfs\" is not supported by -v",
        ),
        (
            "type=volume,target=/dst,bind-propagation=rshared",
            "bind propagation is only valid for bind mounts",
        ),
        (
            "type=bind,source=/src,target=/dst,volume-nocopy",
            "volume-nocopy is only valid for volume mounts",
        ),
        (
            "type=bind,type=volume,source=/src,target=/dst",
            "conflicting values were provided for \"type\"",
        ),
        (
            "type=volume,target=/dst,readonly,readonly=false",
            "conflicting values were provided for \"readonly\"",
        ),
        (
            "type=volume,target=/dst,volume-nocopy,nocopy=false",
            "conflicting values were provided for \"nocopy\"",
        ),
        (
            "type=bind,source=\"/src,target=/dst",
            "option \"source\" contains unmatched quotes",
        ),
        (
            "type=bind,source=,target=/dst",
            "option \"source\" has an invalid value",
        ),
        (
            r#"type=bind,source=/sr"c"d,target=/dst"#,
            "option \"source\" has an invalid value",
        ),
        (
            "type=volume,target=/dst,volume-nocopy=maybe",
            "option \"volume-nocopy\" requires true or false",
        ),
    ] {
        let error = mount_args_for_engine(mount, true).expect_err("invalid WSLc mount");

        assert!(error.contains(reason), "{mount}: {error}");
    }
}

#[test]
fn validate_cli_mount_value_accepts_extended_scalar_options() {
    validate_cli_mount_value(
        "type=bind,source=/tmp/src,target=/tmp/dst,consistency=delegated,bind.propagation=rshared,readonly",
    )
    .expect("valid mount");
}

#[test]
fn validate_cli_mount_value_accepts_aliases_and_quoted_values() {
    validate_cli_mount_value(
        r#"type="bind",src="/tmp/src",destination="/tmp/dst",volume-opt=keep,ro"#,
    )
    .expect("valid mount");
}

#[test]
fn validate_cli_mount_value_accepts_anonymous_volume_mounts() {
    validate_cli_mount_value("type=volume,target=/cache").expect("valid mount");
}

#[test]
fn validate_cli_mount_value_rejects_missing_required_keys() {
    let error = validate_cli_mount_value("type=bind,source=/tmp/src").expect_err("missing target");

    assert!(error.contains("Invalid value for option --mount"));
    assert!(validate_cli_mount_value("type=bind,source,target=/tmp/dst").is_err());
    assert!(validate_cli_mount_value("type=tmpfs,target=/tmp/dst").is_err());
}

#[test]
fn cli_mount_values_require_option_values() {
    let error = cli_mount_values(&["--mount".to_string()]).expect_err("missing mount value");

    assert_eq!(error, "Missing value for option: --mount");
}

#[test]
fn cli_mount_values_returns_valid_mount_values() {
    let args = vec![
        "--mount".to_string(),
        "type=bind,source=/tmp/src,target=/tmp/dst".to_string(),
        "--mount".to_string(),
        "type=volume,target=/cache".to_string(),
    ];

    assert_eq!(
        cli_mount_values(&args).expect("valid mount values"),
        vec![
            "type=bind,source=/tmp/src,target=/tmp/dst".to_string(),
            "type=volume,target=/cache".to_string(),
        ]
    );
}

#[test]
fn validate_cli_mount_values_checks_each_mount() {
    validate_cli_mount_values(&[
        "type=bind,source=/tmp/src,target=/tmp/dst".to_string(),
        "type=volume,target=/cache".to_string(),
    ])
    .expect("valid mount list");
}

#[test]
fn split_mount_options_keeps_quoted_commas_and_trims_pieces() {
    assert_eq!(
        split_mount_options(r#" type=bind , source="/a,b" ,target=/c,"#),
        vec![
            "type=bind".to_string(),
            r#"source="/a,b""#.to_string(),
            "target=/c".to_string(),
        ]
    );
    assert_eq!(split_mount_options(""), Vec::<String>::new());
}

#[test]
fn mount_args_for_engine_passes_mounts_through_for_other_engines() {
    assert_eq!(
        mount_args_for_engine("type=bind,source=relative,target=/dst", false),
        Ok(vec![
            "--mount".to_string(),
            "type=bind,source=relative,target=/dst".to_string()
        ])
    );
}

#[test]
fn wslc_mount_errors_name_the_mount_and_unsupported_options() {
    assert_eq!(
        mount_args_for_engine("type=bind,source=/src,target=/dst,bind-nonrecursive", true),
        Err("WSLc cannot represent mount with -v: option \"bind-nonrecursive\" is not supported by -v: type=bind,source=/src,target=/dst,bind-nonrecursive".to_string())
    );
    assert_eq!(
        mount_args_for_engine("type=volume", true),
        Err("WSLc cannot represent mount with -v: is missing the target: type=volume".to_string())
    );
    assert_eq!(
        mount_args_for_engine("target=/dst", true),
        Err("WSLc cannot represent mount with -v: is missing the mount type: target=/dst".to_string())
    );
    assert_eq!(
        mount_args_for_engine("type=bind,source=\\\\server\\share,target=/dst", true),
        Ok(vec!["-v".to_string(), "\\\\server\\share:/dst".to_string()])
    );
}

fn text(value: &str) -> JsonValue {
    JsonValue::String(value.to_string())
}

fn object(entries: Vec<(&str, JsonValue)>) -> JsonValue {
    let mut entries: Vec<(String, JsonValue)> = entries
        .into_iter()
        .map(|(key, value)| (key.to_string(), value))
        .collect();
    entries.sort_by(|a, b| a.0.cmp(&b.0));
    JsonValue::Object(entries)
}

#[test]
fn mount_value_to_engine_arg_preserves_read_only_and_alias_keys() {
    assert_eq!(
        mount_value_to_engine_arg(&text("type=bind,source=/src,target=/dst")),
        Some("type=bind,source=/src,target=/dst".to_string())
    );
    assert_eq!(mount_value_to_engine_arg(&JsonValue::Null), None);

    let mount = mount_value_to_engine_arg(&object(vec![
        ("type", text("bind")),
        ("src", text("/cache")),
        ("dst", text("/workspace/cache")),
        ("readOnly", JsonValue::Bool(true)),
    ]))
    .expect("mount argument");

    assert_eq!(
        mount,
        "type=bind,source=/cache,target=/workspace/cache,readonly"
    );
}

#[test]
fn mount_value_to_engine_arg_preserves_additional_scalar_options() {
    let mount = mount_value_to_engine_arg(&object(vec![
        ("type", text("volume")),
        ("source", text("devcontainer-cache")),
        ("target", text("/cache")),
        ("size", JsonValue::Number("10".to_string())),
        ("external", JsonValue::Bool(true)),
        (
            "ignored",
            JsonValue::Array(vec![text("not"), text("scalar")]),
        ),
        ("consistency", text("delegated")),
    ]))
    .expect("mount argument");

    assert_eq!(
        mount,
        "type=volume,source=devcontainer-cache,target=/cache,consistency=delegated,external=true,size=10"
    );
    assert_eq!(
        mount_value_to_engine_arg(&object(vec![("ignored", object(vec![]))])),
        None
    );
}

#[test]
fn mount_argument_preserves_read_only_and_alias_keys() {
    let mount = mount_value_to_engine_arg(&object(vec![
        ("type", text("bind")),
        ("src", text("/cache")),
        ("dst", text("/workspace/cache")),
        ("readOnly", JsonValue::Bool(true)),
    ]))
    .expect("mount argument");

    assert_eq!(
        mount,
        "type=bind,source=/cache,target=/workspace/cache,readonly"
    );
}

#[test]
fn mount_argument_preserves_additional_scalar_options() {
    let mount = mount_value_to_engine_arg(&object(vec![
        ("type", text("volume")),
        ("source", text("devcontainer-cache")),
        ("target", text("/cache")),
        ("external", JsonValue::Bool(true)),
        ("consistency", text("delegated")),
    ]))
    .expect("mount argument");

    assert_eq!(
        mount,
        "type=volume,source=devcontainer-cache,target=/cache,consistency=delegated,external=true"
    );
}

#[test]
fn mount_object_source_key_shadows_src_even_when_not_scalar() {
    let mount = mount_value_to_engine_arg(&object(vec![
        ("source", JsonValue::Null),
        ("src", text("/ignored")),
        ("target", text("/t")),
        ("readonly", JsonValue::Bool(false)),
    ]));
    assert_eq!(mount, Some("target=/t".to_string()));
}
