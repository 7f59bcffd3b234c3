use devcontainer::engine::ProcessResult;
use devcontainer::json::JsonValue;
use devcontainer::options::EnvDefaults;
use devcontainer::uid_update::{
    has_registry_hostname, inspect_image_details_for_uid_update,
    inspect_image_details_for_uid_update_once, inspect_image_details_without_variant,
    is_missing_local_image_inspect_error, is_missing_variant_template_error, is_updatable_user,
    parse_image_inspect_details, should_update_remote_user_uid, uid_update_base_image,
    uid_update_details, uid_update_image_name, uid_update_local_image_name,
    uid_update_run_args_user, uses_podman_engine, ImageInspectDetails,
};
use devcontainer::uid_update::{resolve_uid_update_details, uid_update_build_args, UidUpdateDetails};
use devcontainer::engine::ProcessRequest;
use std::cell::RefCell;

fn text(value: &str) -> JsonValue {
    JsonValue::String(value.to_string())
}

fn object(entries: Vec<(&str, JsonValue)>) -> JsonValue {
    let mut entries: Vec<(String, JsonValue)> = entries
        .into_iter()
        .map(|(key, value)| (key.to_string(), value))
        .collect();
    entries.sort_by(|a, b| a.0.cmp(&b.0));
    JsonValue::Object(entries)
}

fn podman_args() -> Vec<String> {
    vec!["--docker-path".to_string(), "/opt/fake/podman".to_string()]
}

fn finished(status_code: i32, stdout: &str, stderr: &str) -> Result<ProcessResult, String> {
    Ok(ProcessResult {
        status_code,
        stdout: stdout.to_string(),
        stderr: stderr.to_string(),
    })
}

#[test]
fn remote_user_uid_update_defaults_to_on_for_supported_platforms() {
    assert!(should_update_remote_user_uid(
        &object(vec![("remoteUser", text("vscode"))]),
        &[],
        &EnvDefaults::default(),
        true,
    ));
}

#[test]
fn remote_user_uid_update_can_inspect_image_user_when_config_omits_users() {
    assert!(should_update_remote_user_uid(&object(vec![]), &[], &EnvDefaults::default(), true));
}

#[test]
fn remote_user_uid_update_respects_option_and_config_overrides() {
    assert!(!should_update_remote_user_uid(
        &object(vec![("remoteUser", text("vscode"))]),
        &[
            "--update-remote-user-uid-default".to_string(),
            "off".to_string(),
        ],
        &EnvDefaults::default(),
        true,
    ));
    assert!(!should_update_remote_user_uid(
        &object(vec![
            ("remoteUser", text("vscode")),
            ("updateRemoteUserUID", JsonValue::Bool(false)),
        ]),
        &[],
        &EnvDefaults::default(),
        true,
    ));
    assert!(!should_update_remote_user_uid(
        &object(vec![("remoteUser", text("vscode"))]),
        &[],
        &EnvDefaults::default(),
        false,
    ));
}

#[test]
fn remote_user_uid_update_respects_never_default() {
    assert!(!should_update_remote_user_uid(
        &object(vec![("remoteUser", text("vscode"))]),
        &[
            "--update-remote-user-uid-default".to_string(),
            "never".to_string(),
        ],
        &EnvDefaults::default(),
        true,
    ));
}

#[test]
fn remote_user_uid_update_uses_env_default() {
    let env = EnvDefaults {
        update_remote_user_uid_default: Some("never".to_string()),
        ..EnvDefaults::default()
    };
    assert!(!should_update_remote_user_uid(
        &object(vec![("remoteUser", text("vscode"))]),
        &[],
        &env,
        true,
    ));
    assert!(!should_update_remote_user_uid(&JsonValue::Null, &[], &EnvDefaults::default(), true));
}

#[test]
fn uid_update_details_fall_back_to_the_image_user() {
    let details = uid_update_details(
        &object(vec![]),
        "/tmp/example-workspace",
        "ghcr.io/example/app:latest",
        "node",
        None,
        Some("linux/amd64"),
    )
    .expect("uid update details");

    assert_eq!(details.remote_user, "node");
    assert_eq!(details.image_user, "node");
    assert_eq!(details.platform.as_deref(), Some("linux/amd64"));
    assert!(details
        .updated_image_name
        .starts_with("vsc-example-workspace-"));
    assert!(details.updated_image_name.ends_with("-uid"));
}

#[test]
fn uid_update_details_preserve_the_image_user_when_remote_user_is_overridden() {
    let details = uid_update_details(
        &object(vec![("remoteUser", text("vscode"))]),
        "/tmp/example-workspace",
        "ghcr.io/example/app:latest",
        "node",
        None,
        None,
    )
    .expect("uid update details");

    assert_eq!(details.remote_user, "vscode");
    assert_eq!(details.image_user, "node");
}

#[test]
fn uid_update_details_use_a_local_tag_for_digest_pinned_images() {
    let details = uid_update_details(
        &object(vec![("remoteUser", text("vscode"))]),
        "/tmp/example-workspace",
        "ghcr.io/example/app@sha256:0123456789abcdef",
        "node",
        None,
        None,
    )
    .expect("uid update details");

    assert!(details
        .updated_image_name
        .starts_with("vsc-example-workspace-"));
    assert!(details.updated_image_name.ends_with("-uid"));
    assert!(!details.updated_image_name.contains('@'));
}

#[test]
fn uid_update_details_skip_root_and_numeric_users() {
    assert!(uid_update_details(&object(vec![]), "/w", "img", "root", None, None).is_none());
    assert!(uid_update_details(&object(vec![]), "/w", "img", "1000", None, None).is_none());
    assert!(!is_updatable_user(""));
    assert!(is_updatable_user("node1"));
}

#[test]
fn uid_update_local_image_names_hash_the_workspace_folder() {
    assert_eq!(
        uid_update_local_image_name("/tmp/My Work"),
        "vsc-my-work-1f2323065d5bbf09bd08efa5dfb4457afaadf1f496317ef85025052cce1b6487"
    );
    let name = uid_update_local_image_name("/tmp/My Work");
    assert!(name.starts_with("vsc-my-work-"));
    assert_eq!(name.len(), "vsc-my-work-".len() + 64);
    let local = uid_update_image_name("/tmp/My Work", "other");
    assert_eq!(local, format!("{name}-uid"));
    let already_local = format!("{name}-features");
    assert_eq!(
        uid_update_image_name("/tmp/My Work", &already_local),
        format!("{already_local}-uid")
    );
}

#[test]
fn uid_update_run_args_user_parses_supported_forms_and_edge_cases() {
    let run_args = |args: Vec<JsonValue>| object(vec![("runArgs", JsonValue::Array(args))]);
    assert_eq!(
        uid_update_run_args_user(&run_args(vec![
            JsonValue::Number("42".to_string()),
            text("--user")
        ])),
        None
    );
    assert_eq!(
        uid_update_run_args_user(&run_args(vec![text("--user"), text("vscode")])),
        Some("vscode".to_string())
    );
    assert_eq!(
        uid_update_run_args_user(&run_args(vec![text("-u=node")])),
        Some("node".to_string())
    );
    assert_eq!(
        uid_update_run_args_user(&run_args(vec![text("--user=devcontainer")])),
        Some("devcontainer".to_string())
    );
    assert_eq!(
        uid_update_run_args_user(&run_args(vec![
            text("--user"),
            text("first"),
            text("-u"),
            text("last")
        ])),
        Some("last".to_string())
    );
}

#[test]
fn parse_image_inspect_details_defaults_empty_user_and_platform() {
    let details = parse_image_inspect_details("\n\n").expect("inspect details");

    assert_eq!(details.expect("details").user, "root");
}

#[test]
fn parse_image_inspect_details_reads_user_and_platform_lines() {
    assert_eq!(
        parse_image_inspect_details(" node \nlinux/arm64/v8\n"),
        Ok(Some(ImageInspectDetails {
            user: "node".to_string(),
            platform: Some("linux/arm64/v8".to_string()),
        }))
    );
}

#[test]
fn inspect_image_details_reports_engine_spawn_failures() {
    let error = inspect_image_details_for_uid_update_once(
        &[
            "--docker-path".to_string(),
            "/path/that/does/not/exist".to_string(),
        ],
        &EnvDefaults::default(),
        "alpine:3.20",
        &|_| Err("Container engine executable not found: /path/that/does/not/exist. Verify --docker-path or DEVCONTAINER_DOCKER_PATH, or install the requested container engine.".to_string()),
    )
    .expect_err("spawn failure should propagate");

    assert!(error.contains("Container engine executable not found"));
}

#[test]
fn inspect_image_details_without_variant_reports_engine_spawn_failures() {
    let error = inspect_image_details_without_variant(
        &[
            "--docker-path".to_string(),
            "/path/that/does/not/exist".to_string(),
        ],
        &EnvDefaults::default(),
        "alpine:3.20",
        &|_| Err("Container engine executable not found: /path/that/does/not/exist. Verify --docker-path or DEVCONTAINER_DOCKER_PATH, or install the requested container engine.".to_string()),
    )
    .expect_err("spawn failure should propagate");

    assert!(error.contains("Container engine executable not found"));
}

#[test]
fn inspection_retries_without_the_variant_and_pulls_configured_images() {
    let retried = inspect_image_details_for_uid_update_once(&podman_args(), &EnvDefaults::default(), "app", &|request| {
        if request.args[3].contains("Variant") {
            finished(1, "", "Error: can't evaluate field Variant in type interface {}\n")
        } else {
            finished(0, "vscode\nlinux/amd64\n", "")
        }
    });
    assert_eq!(
        retried,
        Ok(Some(ImageInspectDetails {
            user: "vscode".to_string(),
            platform: Some("linux/amd64".to_string()),
        }))
    );

    let missing = inspect_image_details_for_uid_update_once(&[], &EnvDefaults::default(), "app", &|_| {
        finished(1, "", "Error: No such image: app\n")
    });
    assert_eq!(missing, Ok(None));

    let pulls = std::cell::Cell::new(0);
    let pulled = inspect_image_details_for_uid_update(
        &[],
        &EnvDefaults::default(),
        &object(vec![("image", text("ghcr.io/example/app:latest"))]),
        "ghcr.io/example/app:latest",
        &|request| {
            if request.args[0] == "pull" {
                pulls.set(pulls.get() + 1);
                finished(0, "", "")
            } else if pulls.get() == 0 {
                finished(1, "", "Error: No such image: ghcr.io/example/app:latest\n")
            } else {
                finished(0, "root\nlinux/amd64\n", "")
            }
        },
    );
    assert_eq!(pulls.get(), 1);
    assert_eq!(pulled.expect("details").expect("present").user, "root");

    let pull_failure = inspect_image_details_for_uid_update(
        &[],
        &EnvDefaults::default(),
        &object(vec![("image", text("ghcr.io/example/app:latest"))]),
        "ghcr.io/example/app:latest",
        &|request| {
            if request.args[0] == "pull" {
                finished(1, "", "pull failed\n")
            } else {
                finished(1, "", "Error: No such image: ghcr.io/example/app:latest\n")
            }
        },
    );
    assert_eq!(pull_failure, Err("pull failed".to_string()));
}

#[test]
fn inspection_errors_are_classified_case_insensitively() {
    assert!(is_missing_local_image_inspect_error("Error: NO SUCH IMAGE: x"));
    assert!(is_missing_local_image_inspect_error("image not known"));
    assert!(!is_missing_local_image_inspect_error("permission denied"));
    assert!(is_missing_variant_template_error("can't evaluate field Variant in type"));
}

#[test]
fn uid_update_base_image_preserves_registry_hostnames() {
    assert_eq!(
        uid_update_base_image(&podman_args(), &EnvDefaults::default(), "localhost/app:latest"),
        "localhost/app:latest"
    );
    assert_eq!(
        uid_update_base_image(
            &podman_args(),
            &EnvDefaults::default(),
            "registry.example.com/app:latest"
        ),
        "registry.example.com/app:latest"
    );
    assert_eq!(
        uid_update_base_image(&podman_args(), &EnvDefaults::default(), "library/app:latest"),
        "localhost/library/app:latest"
    );
}

#[test]
fn uid_update_base_image_detects_podman_from_env_engine_path() {
    let env = EnvDefaults {
        docker_path: Some("/opt/fake/podman".to_string()),
        ..EnvDefaults::default()
    };

    assert_eq!(
        uid_update_base_image(&[], &env, "library/app:latest"),
        "localhost/library/app:latest"
    );
    assert!(uses_podman_engine(&[], &env));
    assert!(!uses_podman_engine(&[], &EnvDefaults::default()));
    assert_eq!(
        uid_update_base_image(&[], &EnvDefaults::default(), "library/app:latest"),
        "library/app:latest"
    );
    assert!(!has_registry_hostname("app/x.y"));
}

#[test]
fn resolve_uid_update_details_skips_root_and_uses_image_details() {
    let never = |_request: ProcessRequest| -> Result<ProcessResult, String> { panic!("no engine call for a root user") };
    let root = object(vec![("remoteUser", text("root"))]);
    assert!(resolve_uid_update_details(&root, &[], &EnvDefaults::default(), "/ws/project", "alpine", None, &never)
        .expect("details")
        .is_none());
    let numeric_run_args = object(vec![("runArgs", JsonValue::Array(vec![text("--user"), text("1000")]))]);
    assert!(resolve_uid_update_details(&numeric_run_args, &[], &EnvDefaults::default(), "/ws", "alpine", None, &never)
        .expect("details")
        .is_none());
    assert!(resolve_uid_update_details(&object(vec![]), &[], &EnvDefaults::default(), "/ws", "alpine", Some("0"), &never)
        .expect("details")
        .is_none());

    let calls = RefCell::new(0);
    let engine = |request: ProcessRequest| {
        *calls.borrow_mut() += 1;
        assert_eq!(request.args[0..2], ["image", "inspect"]);
        finished(0, "node\nlinux/arm64\n", "")
    };
    let details = resolve_uid_update_details(&object(vec![]), &[], &EnvDefaults::default(), "/ws/project", "alpine", None, &engine)
        .expect("details")
        .expect("update");
    assert_eq!(details.remote_user, "node");
    assert_eq!(details.image_user, "node");
    assert_eq!(details.platform.as_deref(), Some("linux/arm64"));
    assert_eq!(details.updated_image_name, uid_update_image_name("/ws/project", "alpine"));
    assert_eq!(*calls.borrow(), 1);

    let failing = |_request: ProcessRequest| finished(1, "", "permission denied");
    assert_eq!(
        resolve_uid_update_details(&object(vec![]), &[], &EnvDefaults::default(), "/ws", "alpine", None, &failing).err(),
        Some("permission denied".to_string())
    );
}

#[test]
fn uid_update_build_args_name_every_build_argument() {
    let update = UidUpdateDetails {
        remote_user: "vscode".to_string(),
        image_user: "root".to_string(),
        updated_image_name: "vsc-project-uid".to_string(),
        platform: Some("linux/amd64".to_string()),
    };
    assert_eq!(
        uid_update_build_args(&update, "alpine:3.20", "1000", "1001", "/tmp/ctx/updateUID.Dockerfile", "/tmp/ctx"),
        vec![
            "build", "--platform", "linux/amd64", "--build-arg", "BASE_IMAGE=alpine:3.20", "--build-arg",
            "REMOTE_USER=vscode", "--build-arg", "NEW_UID=1000", "--build-arg", "NEW_GID=1001", "--build-arg",
            "IMAGE_USER=root", "-t", "vsc-project-uid", "-f", "/tmp/ctx/updateUID.Dockerfile", "/tmp/ctx",
        ]
    );
}
