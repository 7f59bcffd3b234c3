use devcontainer::image_build::{
    default_image_name, dockerfile_prefix, engine_build_args, is_buildx_cache_to_inline,
    shell_single_quote,
};

fn contains_arg(args: &[String], expected: &str) -> bool {
    args.iter().any(|arg| arg == expected)
}

#[test]
fn is_buildx_cache_to_inline_matches_upstream_cases() {
    assert!(!is_buildx_cache_to_inline(None));
    assert!(!is_buildx_cache_to_inline(Some("")));

    assert!(is_buildx_cache_to_inline(Some("type=inline")));
    assert!(is_buildx_cache_to_inline(Some("type = inline")));
    assert!(is_buildx_cache_to_inline(Some("type=INLINE")));
    assert!(is_buildx_cache_to_inline(Some(
        "mode=max,type=inline,compression=zstd"
    )));

    assert!(!is_buildx_cache_to_inline(Some("type=registry")));
    assert!(!is_buildx_cache_to_inline(Some("type=local")));
    assert!(!is_buildx_cache_to_inline(Some("inline")));
}

#[test]
fn is_buildx_cache_to_inline_keeps_searching_past_other_types() {
    assert!(is_buildx_cache_to_inline(Some("TYPE=registry,Type=Inline")));
    assert!(is_buildx_cache_to_inline(Some("prototype,type=inline")));
    assert!(!is_buildx_cache_to_inline(Some("type=inlin")));
    assert!(!is_buildx_cache_to_inline(Some("type")));
}

#[test]
fn engine_build_args_adds_inline_cache_build_arg_by_default() {
    let engine_args = engine_build_args(&[], "example/native:test", "Dockerfile");

    assert!(contains_arg(&engine_args, "--build-arg"));
    assert!(contains_arg(&engine_args, "BUILDKIT_INLINE_CACHE=1"));
    assert_eq!(
        engine_args,
        vec![
            "build",
            "--tag",
            "example/native:test",
            "--file",
            "Dockerfile",
            "--build-arg",
            "BUILDKIT_INLINE_CACHE=1",
        ]
        .into_iter()
        .map(String::from)
        .collect::<Vec<_>>()
    );
}

#[test]
fn engine_build_args_suppresses_inline_cache_build_arg_for_inline_cache_to() {
    let engine_args = engine_build_args(
        &[
            "--cache-to".to_string(),
            "mode=max,type=inline,compression=zstd".to_string(),
        ],
        "example/native:test",
        "Dockerfile",
    );

    assert!(contains_arg(&engine_args, "--cache-to"));
    assert!(contains_arg(
        &engine_args,
        "mode=max,type=inline,compression=zstd"
    ));
    assert!(!contains_arg(&engine_args, "BUILDKIT_INLINE_CACHE=1"));
}

#[test]
fn engine_build_args_keeps_inline_cache_build_arg_for_non_inline_cache_to() {
    let engine_args = engine_build_args(
        &[
            "--cache-to".to_string(),
            "type=registry,ref=ghcr.io/example/cache:latest".to_string(),
        ],
        "example/native:test",
        "Dockerfile",
    );

    assert!(contains_arg(&engine_args, "--cache-to"));
    assert!(contains_arg(
        &engine_args,
        "type=registry,ref=ghcr.io/example/cache:latest"
    ));
    assert!(contains_arg(&engine_args, "BUILDKIT_INLINE_CACHE=1"));
}

#[test]
fn engine_build_args_treats_any_inline_cache_to_as_inline() {
    let engine_args = engine_build_args(
        &[
            "--cache-to".to_string(),
            "type=registry,ref=ghcr.io/example/cache:latest".to_string(),
            "--cache-to".to_string(),
            "type=inline".to_string(),
        ],
        "example/native:test",
        "Dockerfile",
    );

    assert!(!contains_arg(&engine_args, "BUILDKIT_INLINE_CACHE=1"));
}

#[test]
fn engine_build_args_include_cache_label_platform_and_no_cache_flags() {
    let engine_args = engine_build_args(
        &[
            "--build-no-cache".to_string(),
            "--cache-from".to_string(),
            "type=registry,ref=ghcr.io/example/cache:old".to_string(),
            "--cache-to".to_string(),
            "type=registry,ref=ghcr.io/example/cache:new".to_string(),
            "--label".to_string(),
            "devcontainer.test=true".to_string(),
            "--platform".to_string(),
            "linux/arm64".to_string(),
        ],
        "example/native:test",
        "Dockerfile",
    );

    assert!(contains_arg(&engine_args, "--no-cache"));
    assert!(contains_arg(&engine_args, "--cache-from"));
    assert!(contains_arg(
        &engine_args,
        "type=registry,ref=ghcr.io/example/cache:old"
    ));
    assert!(contains_arg(&engine_args, "--cache-to"));
    assert!(contains_arg(
        &engine_args,
        "type=registry,ref=ghcr.io/example/cache:new"
    ));
    assert!(contains_arg(&engine_args, "--label"));
    assert!(contains_arg(&engine_args, "devcontainer.test=true"));
    assert!(contains_arg(&engine_args, "--platform"));
    assert!(contains_arg(&engine_args, "linux/arm64"));
}

#[test]
fn build_helpers_cover_prefix_names_and_config_detection() {
    assert_eq!(dockerfile_prefix(&[]), "# syntax=docker/dockerfile:1.4\n");
    assert_eq!(
        dockerfile_prefix(&["--omit-syntax-directive".to_string()]),
        ""
    );
    assert_eq!(shell_single_quote("it's ok"), "'it'\"'\"'s ok'");
    assert_eq!(
        default_image_name("/tmp/My Workspace!"),
        "devcontainer-My-Workspace-"
    );
    assert_eq!(default_image_name("/"), "devcontainer-workspace");
}
