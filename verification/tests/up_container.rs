use std::cell::RefCell;

use devcontainer::compose::ComposeSpec;
use devcontainer::engine::{ProcessRequest, ProcessResult};
use devcontainer::inspection::existing_remote_workspace_folder;
use devcontainer::json::JsonValue;
use devcontainer::lifecycle::LifecycleMode;
use devcontainer::options::EnvDefaults;
use devcontainer::up_container::{
    compose_build_result_image, compose_build_tail, compose_logs_args, compose_ps_args,
    compose_startup_failure_error, compose_startup_failure_message, compose_up_args, compose_up_outcome,
    compose_up_tail, first_container_id, pinned_image, refreshed_lifecycle_mode, resolve_compose_container_id,
    probe_up_container_id_labels, up_action, up_lifecycle_mode, ComposeUpResult, UpAction,
};

fn strings(values: &[&str]) -> Vec<String> {
    values.iter().map(|v| v.to_string()).collect()
}

fn no_env() -> EnvDefaults {
    EnvDefaults {
        docker_path: None,
        docker_compose_path: None,
        buildkit: None,
        update_remote_user_uid_default: None,
        gpu_availability: None,
    }
}

fn spec() -> ComposeSpec {
    ComposeSpec {
        files: strings(&["/work/docker-compose.yml"]),
        service: "app".to_string(),
        image: Some("alpine:3.20".to_string()),
        has_build: false,
        user: None,
        project_name: "demo".to_string(),
    }
}

fn result(status_code: i32, stdout: &str, stderr: &str) -> ProcessResult {
    ProcessResult { status_code, stdout: stdout.to_string(), stderr: stderr.to_string() }
}

fn up_result(stdout: &str, stderr: &str) -> ComposeUpResult {
    ComposeUpResult {
        project_name: "demo".to_string(),
        service: "app".to_string(),
        stdout: stdout.to_string(),
        stderr: stderr.to_string(),
    }
}

#[test]
fn up_action_reuses_starts_replaces_and_creates() {
    assert_eq!(up_action(true, false, false, false), UpAction::ReuseRunning);
    assert_eq!(up_action(true, true, true, false), UpAction::ReplaceRunning);
    assert_eq!(up_action(false, true, false, false), UpAction::StartStopped);
    assert_eq!(up_action(false, true, true, true), UpAction::ReplaceStopped);
    assert_eq!(up_action(false, false, false, true), UpAction::NotFound);
    assert_eq!(up_action(false, false, true, false), UpAction::Create);
}

#[test]
fn up_lifecycle_modes_follow_the_action() {
    assert_eq!(up_lifecycle_mode(UpAction::ReuseRunning), Some(LifecycleMode::UpReused));
    assert_eq!(up_lifecycle_mode(UpAction::StartStopped), Some(LifecycleMode::UpStarted));
    assert_eq!(up_lifecycle_mode(UpAction::ReplaceStopped), Some(LifecycleMode::UpCreated));
    assert_eq!(up_lifecycle_mode(UpAction::Create), Some(LifecycleMode::UpCreated));
    assert_eq!(up_lifecycle_mode(UpAction::NotFound), None);
    assert_eq!(refreshed_lifecycle_mode("abc", "abc", LifecycleMode::UpStarted), LifecycleMode::UpStarted);
    assert_eq!(refreshed_lifecycle_mode("abc", "def", LifecycleMode::UpReused), LifecycleMode::UpCreated);
}

#[test]
fn compose_ps_args_filter_by_project_and_service() {
    assert_eq!(
        compose_ps_args(&spec(), false),
        strings(&["ps", "-q", "--filter", "label=com.docker.compose.project=demo", "--filter", "label=com.docker.compose.service=app"])
    );
    assert_eq!(compose_ps_args(&spec(), true)[2], "-a");
}

#[test]
fn first_container_id_skips_blank_and_spaced_lines() {
    assert_eq!(first_container_id("\n  \nnot an id\n  abc123  \ndef\n").as_deref(), Some("abc123"));
    assert_eq!(first_container_id(""), None);
}

#[test]
fn resolve_compose_container_id_runs_ps_and_reports_failures() {
    let seen = RefCell::new(Vec::new());
    let engine = |request: ProcessRequest| {
        seen.borrow_mut().push(request.args.clone());
        Ok(result(0, "c0ffee\n", ""))
    };
    let id = resolve_compose_container_id(&[], &no_env(), &spec(), true, &engine).expect("id");
    assert_eq!(id.as_deref(), Some("c0ffee"));
    assert_eq!(seen.borrow()[0], compose_ps_args(&spec(), true));

    let failing = |_request: ProcessRequest| Ok(result(1, "", " daemon down \n"));
    assert_eq!(resolve_compose_container_id(&[], &no_env(), &spec(), false, &failing), Err("daemon down".to_string()));
    let missing = |_request: ProcessRequest| Err("no engine".to_string());
    assert_eq!(resolve_compose_container_id(&[], &no_env(), &spec(), false, &missing), Err("no engine".to_string()));
}

#[test]
fn startup_failure_message_reports_stopped_container_and_sections() {
    let logs = Ok(result(0, "app log: migration failed\n", "app stderr: stack trace"));
    let message = compose_startup_failure_message(
        &up_result("compose up stdout: service dependencies started", "compose up stderr: app failed during startup"),
        Some("stopped-compose-container"),
        &logs,
    );
    assert_eq!(
        message,
        "Dev container service 'app' for compose project 'demo' was created but is not running (container stopped-compose-container).\
\n\nCompose up stdout:\ncompose up stdout: service dependencies started\
\n\nCompose up stderr:\ncompose up stderr: app failed during startup\
\n\nCompose logs stdout:\napp log: migration failed\
\n\nCompose logs stderr:\napp stderr: stack trace"
    );
}

#[test]
fn startup_failure_message_reports_missing_service_and_silent_failing_logs() {
    let message = compose_startup_failure_message(&up_result("", "  "), None, &Ok(result(-3, " ", "")));
    assert_eq!(
        message,
        "Dev container service 'app' for compose project 'demo' was not found after compose up.\
\nCompose logs exited with status -3 without output."
    );
    let with_status = compose_startup_failure_message(&up_result("", ""), None, &Ok(result(17, "", "")));
    assert!(with_status.ends_with("\nCompose logs exited with status 17 without output."));
}

#[test]
fn startup_failure_message_reports_unavailable_logs() {
    let message = compose_startup_failure_message(&up_result("", ""), None, &Err("Container compose executable not found: missing-compose".to_string()));
    assert!(message.ends_with("\n\nCompose logs unavailable:\nContainer compose executable not found: missing-compose"));
}

#[test]
fn startup_failure_message_truncates_large_diagnostics() {
    let large = "x".repeat(17 * 1024);
    let message = compose_startup_failure_message(&up_result(&large, ""), Some("c1"), &Ok(result(0, "", "")));
    assert!(message.ends_with("\n... truncated compose diagnostic output after 16384 bytes ..."));
    assert!(message.len() < 17 * 1024);
}

#[test]
fn startup_failure_error_looks_up_stopped_container_and_logs() {
    let engine = |_request: ProcessRequest| Ok(result(0, "stopped-1\n", ""));
    let compose_calls = RefCell::new(Vec::new());
    let compose = |args: Vec<String>| {
        compose_calls.borrow_mut().push(args);
        Ok(result(0, "log line", ""))
    };
    let message = compose_startup_failure_error(&[], &no_env(), &spec(), &up_result("", ""), &engine, compose).expect("message");
    assert!(message.contains("(container stopped-1)"));
    assert!(message.ends_with("Compose logs stdout:\nlog line"));
    assert_eq!(compose_calls.borrow()[0], compose_logs_args(&spec()));
    assert_eq!(
        compose_logs_args(&spec()),
        strings(&["--project-name", "demo", "-f", "/work/docker-compose.yml", "logs", "app"])
    );

    let failing = |_request: ProcessRequest| Err("engine gone".to_string());
    let unused = |_args: Vec<String>| -> Result<ProcessResult, String> { panic!("logs must not run") };
    assert_eq!(
        compose_startup_failure_error(&[], &no_env(), &spec(), &up_result("", ""), &failing, unused),
        Err("engine gone".to_string())
    );
}

#[test]
fn compose_up_args_place_overrides_and_services() {
    let selected = strings(&["db", "app"]);
    assert_eq!(compose_up_tail(true, Some(&selected)), strings(&["-d", "--no-recreate", "db", "app"]));
    assert_eq!(compose_up_tail(false, None), strings(&["-d"]));
    assert_eq!(
        compose_up_args(&spec(), Some("/tmp/meta.yml"), Some("/tmp/profile.yml"), false, Some(&selected)),
        strings(&[
            "--project-name", "demo", "-f", "/work/docker-compose.yml", "-f", "/tmp/meta.yml", "-f",
            "/tmp/profile.yml", "up", "-d", "db", "app",
        ])
    );
    assert_eq!(
        compose_up_args(&spec(), None, None, true, None),
        strings(&["--project-name", "demo", "-f", "/work/docker-compose.yml", "up", "-d", "--no-recreate"])
    );
}

#[test]
fn pinned_image_only_for_other_or_built_images() {
    assert_eq!(pinned_image(&spec(), "alpine:3.20"), None);
    assert_eq!(pinned_image(&spec(), "other:1").as_deref(), Some("other:1"));
    let mut built = spec();
    built.has_build = true;
    assert_eq!(pinned_image(&built, "alpine:3.20").as_deref(), Some("alpine:3.20"));
}

#[test]
fn compose_up_outcome_reports_failures() {
    let ok = compose_up_outcome(&spec(), Ok(result(0, "out", "err"))).expect("up");
    assert_eq!((ok.project_name.as_str(), ok.service.as_str(), ok.stdout.as_str(), ok.stderr.as_str()), ("demo", "app", "out", "err"));
    assert_eq!(compose_up_outcome(&spec(), Ok(result(2, "only stdout", ""))).err(), Some("only stdout".to_string()));
    assert_eq!(compose_up_outcome(&spec(), Err("spawn".to_string())).err(), Some("spawn".to_string()));
}

#[test]
fn compose_build_tail_and_result_image() {
    assert_eq!(compose_build_tail(&strings(&["--build-no-cache"]), "app"), strings(&["--pull", "--no-cache", "app"]));
    assert_eq!(compose_build_tail(&[], "app"), strings(&["--pull", "app"]));
    let args = strings(&["--image-name", "custom:tag"]);
    assert_eq!(compose_build_result_image(&args, "demo-app", true), "custom:tag");
    assert_eq!(compose_build_result_image(&args, "demo-app", false), "demo-app");
    assert_eq!(compose_build_result_image(&[], "demo-app", true), "demo-app");
}

#[test]
fn existing_remote_workspace_folder_prefers_configuration_then_inspection() {
    assert_eq!(
        existing_remote_workspace_folder(Some("/cfg".to_string()), Some("/insp".to_string()), Some("/host/a"), Some("/host/b")),
        "/cfg"
    );
    assert_eq!(existing_remote_workspace_folder(None, Some("/insp".to_string()), Some("/host/a"), None), "/insp");
    assert_eq!(existing_remote_workspace_folder(None, None, Some("/host/a"), Some("/host/b")), "/workspaces/a");
    assert_eq!(existing_remote_workspace_folder(None, None, None, Some("/host/b")), "/workspaces/b");
    assert_eq!(existing_remote_workspace_folder(None, None, None, None), "/workspaces/workspace");
}


#[test]
fn probe_id_labels_skips_lookup_when_removing() {
    let never = |_request: ProcessRequest| -> Result<ProcessResult, String> { panic!("no lookup when removing") };
    let args = strings(&["--remove-existing-container"]);
    assert_eq!(
        probe_up_container_id_labels("linux", &args, &no_env(), "/tmp/remill", "/tmp/remill/.devcontainer/devcontainer.json", Some(&spec()), &never),
        Ok(None)
    );
}

#[test]
fn probe_id_labels_uses_stopped_compose_container_labels() {
    let calls = RefCell::new(Vec::new());
    let engine = |request: ProcessRequest| {
        calls.borrow_mut().push(request.args.clone());
        if request.args[0] == "ps" && request.args[2] == "-a" {
            Ok(result(0, "stopped1\n", ""))
        } else if request.args[0] == "ps" {
            Ok(result(0, "", ""))
        } else {
            Ok(result(0, r#"[{"Config":{"Labels":{"devcontainer.local_folder":"/tmp/remill"}}}]"#, ""))
        }
    };
    let labels = probe_up_container_id_labels(
        "linux",
        &[],
        &no_env(),
        "/tmp/remill",
        "/tmp/remill/.devcontainer/devcontainer.json",
        Some(&spec()),
        &engine,
    );
    assert_eq!(labels, Ok(Some(vec![("devcontainer.local_folder".to_string(), "/tmp/remill".to_string())])));
    assert_eq!(calls.borrow().len(), 3);
    assert_eq!(calls.borrow()[2], strings(&["inspect", "stopped1"]));
}

#[test]
fn probe_id_labels_returns_none_without_engine_matches() {
    let engine = |_request: ProcessRequest| Ok(result(0, "", ""));
    assert_eq!(
        probe_up_container_id_labels("linux", &[], &no_env(), "/tmp/remill", "/tmp/remill/.devcontainer/devcontainer.json", None, &engine),
        Ok(None)
    );
    let failing = |_request: ProcessRequest| Ok(result(3, "", "ps failed"));
    assert_eq!(
        probe_up_container_id_labels("linux", &[], &no_env(), "/w", "/w/c.json", Some(&spec()), &failing),
        Err("ps failed".to_string())
    );
}
