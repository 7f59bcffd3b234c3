use std::cell::RefCell;

use devcontainer::engine::{ProcessRequest, ProcessResult};
use devcontainer::engine_run::{
    container_id_from_result, container_removal_already_in_progress, container_run_args,
    contains_environment_reference, default_id_labels, detect_gpu_support,
    expand_environment_references, gpu_decision, image_environment, image_environment_from_result,
    needs_image_environment, remove_container_args, removal_step, should_add_gpu_capability,
    start_container, start_container_with_metadata, start_existing_container, RemovalStep,
};
use devcontainer::json::JsonValue;
use devcontainer::options::EnvDefaults;

fn to_json(value: &serde_json::Value) -> JsonValue {
    match value {
        serde_json::Value::Null => JsonValue::Null,
        serde_json::Value::Bool(b) => JsonValue::Bool(*b),
        serde_json::Value::Number(n) => JsonValue::Number(n.to_string()),
        serde_json::Value::String(s) => JsonValue::String(s.clone()),
        serde_json::Value::Array(items) => JsonValue::Array(items.iter().map(to_json).collect()),
        serde_json::Value::Object(entries) => JsonValue::Object(
            entries.iter().map(|(k, v)| (k.clone(), to_json(v))).collect(),
        ),
    }
}

fn parse(text: &str) -> JsonValue {
    to_json(&serde_json::from_str(text).expect("json"))
}

fn strings(values: &[&str]) -> Vec<String> {
    values.iter().map(|v| v.to_string()).collect()
}

fn ok(status_code: i32, stdout: &str, stderr: &str) -> Result<ProcessResult, String> {
    Ok(ProcessResult { status_code, stdout: stdout.to_string(), stderr: stderr.to_string() })
}

#[test]
fn environment_expansion_supports_braced_and_plain_references() {
    let environment = vec![
        ("PATH".to_string(), "/usr/bin".to_string()),
        ("HOME".to_string(), "/root".to_string()),
    ];

    assert_eq!(
        expand_environment_references("λ:${PATH}:$HOME:$UNKNOWN", &environment),
        "λ:/usr/bin:/root:$UNKNOWN"
    );
    assert_eq!(
        expand_environment_references("${UNKNOWN}", &environment),
        "${UNKNOWN}"
    );
    assert_eq!(
        expand_environment_references("unterminated-${PATH", &environment),
        "unterminated-${PATH"
    );
    assert_eq!(
        expand_environment_references("trailing-$", &environment),
        "trailing-$"
    );
    assert!(contains_environment_reference("$HOME"));
    assert!(contains_environment_reference("${PATH}"));
    assert!(!contains_environment_reference("cost-$5"));
}

#[test]
fn environment_expansion_prefixes_paths_from_the_image() {
    let environment = vec![
        ("PATH".to_string(), "/usr/local/bin:/usr/bin".to_string()),
        ("HOME".to_string(), "/root".to_string()),
    ];
    assert_eq!(
        expand_environment_references("/usr/local/share/codespace-shims:${PATH}", &environment),
        "/usr/local/share/codespace-shims:/usr/local/bin:/usr/bin"
    );
    assert_eq!(expand_environment_references("$-x", &environment), "$-x");
    assert!(!contains_environment_reference("$"));
    assert!(contains_environment_reference("a$_b"));
}

#[test]
fn removal_in_progress_errors_are_recognized_in_any_case() {
    assert!(container_removal_already_in_progress(
        "Error: removal of container fake-container is ALREADY IN PROGRESS"
    ));
    assert!(!container_removal_already_in_progress("No such container"));
}

#[test]
fn start_existing_container_reports_engine_errors() {
    let ok = start_existing_container(&[], &EnvDefaults::default(), "abc", |request| {
        assert_eq!(request.program, "docker");
        assert_eq!(request.args, vec!["start".to_string(), "abc".to_string()]);
        Ok(ProcessResult {
            status_code: 0,
            stdout: "abc\n".to_string(),
            stderr: String::new(),
        })
    });
    assert_eq!(ok, Ok(()));

    let failed = start_existing_container(&[], &EnvDefaults::default(), "abc", |_| {
        Ok(ProcessResult {
            status_code: 1,
            stdout: String::new(),
            stderr: "Error: No such container: abc\n".to_string(),
        })
    });
    assert_eq!(failed, Err("Error: No such container: abc".to_string()));
}

#[test]
fn gpu_support_is_read_from_the_engine_runtimes() {
    let with_runtime = detect_gpu_support(&[], &EnvDefaults::default(), |request| {
        assert_eq!(request.args[0], "info");
        Ok(ProcessResult {
            status_code: 0,
            stdout: "{nvidia-container-runtime [] <nil>}".to_string(),
            stderr: String::new(),
        })
    });
    assert_eq!(with_runtime, Ok(true));

    let failed = detect_gpu_support(&[], &EnvDefaults::default(), |_| {
        Ok(ProcessResult {
            status_code: 1,
            stdout: "nvidia-container-runtime".to_string(),
            stderr: String::new(),
        })
    });
    assert_eq!(failed, Ok(false));

    let spawn = detect_gpu_support(&[], &EnvDefaults::default(), |_| Err("missing".to_string()));
    assert_eq!(spawn, Err("missing".to_string()));
}

#[test]
fn expansion_without_environment_keeps_the_value() {
    let none: Vec<(String, String)> = Vec::new();
    for value in ["$HOME/${PATH}:${UNCLOSED", "plain", "$", "a$1b", "${}"] {
        assert_eq!(expand_environment_references(value, &none), value);
    }
}

#[test]
fn container_run_args_assemble_labels_mounts_and_settings() {
    let configuration = parse(
        r#"{"init":true,"privileged":true,"mounts":["type=volume,source=v,target=/v"],
            "runArgs":["--network=host"],"containerEnv":{"P":"${PATH}:/x","Q":"plain"},
            "capAdd":["SYS_PTRACE"],"securityOpt":["seccomp=unconfined"]}"#,
    );
    let labels = default_id_labels("/w", "/w/.devcontainer.json", "linux");
    assert_eq!(labels, strings(&["devcontainer.local_folder=/w", "devcontainer.config_file=/w/.devcontainer.json"]));
    let image_environment = vec![("PATH".to_string(), "/usr/bin".to_string())];
    let args = container_run_args(
        &configuration,
        &strings(&["--id-label", "a=b"]),
        &labels,
        "[]",
        "type=bind,source=/w,target=/workspaces/w",
        &strings(&["type=bind,source=/g,target=/g"]),
        &strings(&["type=tmpfs,target=/t"]),
        &image_environment,
        true,
        "image",
    );
    assert_eq!(
        args,
        strings(&[
            "run", "-d", "--label", "devcontainer.local_folder=/w", "--label",
            "devcontainer.config_file=/w/.devcontainer.json", "--label", "devcontainer.metadata=[]",
            "--mount", "type=bind,source=/w,target=/workspaces/w", "--mount", "type=bind,source=/g,target=/g",
            "--init", "--privileged", "--label", "a=b", "--mount", "type=volume,source=v,target=/v",
            "--mount", "type=tmpfs,target=/t", "--network=host", "-e", "P=/usr/bin:/x", "-e", "Q=plain",
            "--cap-add", "SYS_PTRACE", "--security-opt", "seccomp=unconfined", "--gpus", "all", "image",
            "/bin/sh", "-lc", "while sleep 1000; do :; done",
        ])
    );
}

#[test]
fn container_run_args_skip_additional_mounts_with_a_workspace_mount() {
    let configuration = parse(r#"{"workspaceMount":"type=bind,source=/a,target=/b"}"#);
    let labels = strings(&["l1", "l2"]);
    let args = container_run_args(
        &configuration, &[], &labels, "m", "type=bind,source=/a,target=/b",
        &strings(&["type=bind,source=/g,target=/g"]), &Vec::new(), &Vec::new(), false, "image",
    );
    assert!(!args.contains(&"type=bind,source=/g,target=/g".to_string()));
}

#[test]
fn image_environment_is_needed_only_for_references() {
    assert!(needs_image_environment(&parse(r#"{"containerEnv":{"A":"$HOME"}}"#)));
    assert!(!needs_image_environment(&parse(r#"{"containerEnv":{"A":"plain","B":1}}"#)));
    assert!(!needs_image_environment(&parse(r#"{}"#)));
}

#[test]
fn image_environment_keeps_the_last_entry_of_a_name() {
    let env = image_environment(&strings(&["A=1", "NOEQUALS", "A=2=3", "B="]));
    assert_eq!(env[0], ("B".to_string(), String::new()));
    assert_eq!(env.iter().find(|(k, _)| k == "A").map(|(_, v)| v.clone()), Some("2=3".to_string()));
}

#[test]
fn inspect_image_environment_reports_engine_and_output_errors() {
    assert_eq!(image_environment_from_result("img", &Err("spawn".to_string())), Err("spawn".to_string()));
    assert_eq!(image_environment_from_result("img", &ok(1, "", "boom")), Err("boom".to_string()));
    let invalid = image_environment_from_result("img", &ok(0, "not json", ""));
    assert!(invalid.expect_err("invalid").starts_with("Failed to parse environment from image img: "));
    assert_eq!(image_environment_from_result("img", &ok(0, " null \n", "")), Ok(Vec::new()));
    assert_eq!(
        image_environment_from_result("img", &ok(0, "[\"PATH=/bin\"]", "")),
        Ok(vec![("PATH".to_string(), "/bin".to_string())])
    );
}

#[test]
fn container_id_is_the_trimmed_output() {
    assert_eq!(container_id_from_result(&ok(0, " abc \n", "")), Ok("abc".to_string()));
    assert_eq!(
        container_id_from_result(&ok(0, "  ", "")),
        Err("Container engine did not return a container id".to_string())
    );
    assert_eq!(container_id_from_result(&ok(125, "", "no such image")), Err("no such image".to_string()));
}

#[test]
fn remove_container_retries_concurrent_removal_errors() {
    assert_eq!(remove_container_args("c1"), strings(&["rm", "-f", "c1"]));
    assert_eq!(removal_step(0, &ok(0, "", "")), RemovalStep::Removed);
    assert_eq!(removal_step(0, &ok(1, "", "removal of container c1 is already in progress")), RemovalStep::Retry);
    assert_eq!(
        removal_step(6, &ok(1, "", "removal of container c1 is already in progress")),
        RemovalStep::Failed("removal of container c1 is already in progress".to_string())
    );
    assert_eq!(removal_step(0, &ok(1, "", "denied")), RemovalStep::Failed("denied".to_string()));
    assert_eq!(removal_step(0, &Err("spawn".to_string())), RemovalStep::Failed("spawn".to_string()));
}

#[test]
fn gpu_capability_follows_requirements_and_availability() {
    let wants = parse(r#"{"hostRequirements":{"gpu":"optional"}}"#);
    let none = parse(r#"{"hostRequirements":{"cpus":2}}"#);
    assert_eq!(gpu_decision(&none, &[], &EnvDefaults::default()), Some(false));
    assert_eq!(gpu_decision(&wants, &strings(&["--gpu-availability", "all"]), &EnvDefaults::default()), Some(true));
    assert_eq!(gpu_decision(&wants, &strings(&["--gpu-availability", "none"]), &EnvDefaults::default()), Some(false));
    let env = EnvDefaults { gpu_availability: Some("all".to_string()), ..EnvDefaults::default() };
    assert_eq!(gpu_decision(&wants, &[], &env), Some(true));
    assert_eq!(gpu_decision(&wants, &[], &EnvDefaults::default()), None);
    let detected = should_add_gpu_capability(&wants, &[], &EnvDefaults::default(), |_request: ProcessRequest| {
        ok(0, "nvidia-container-runtime", "")
    });
    assert_eq!(detected, Ok(true));
}

#[test]
fn start_container_runs_the_assembled_request_and_reads_the_id() {
    let configuration = parse(r#"{"containerEnv":{"P":"${PATH}:/x"}}"#);
    let calls: RefCell<Vec<Vec<String>>> = RefCell::new(Vec::new());
    let run = |request: ProcessRequest| {
        calls.borrow_mut().push(request.args.clone());
        if request.args[0] == "image" {
            ok(0, "[\"PATH=/usr/bin\"]", "")
        } else {
            ok(0, "container-id\n", "")
        }
    };
    let id = start_container_with_metadata(
        &configuration,
        &[],
        &EnvDefaults::default(),
        "linux",
        "/w",
        "/w/.devcontainer.json",
        "image",
        Ok("[]".to_string()),
        "type=bind,source=/w,target=/workspaces/w",
        &Vec::new(),
        &run,
    );
    assert_eq!(id, Ok("container-id".to_string()));
    let calls = calls.into_inner();
    assert_eq!(calls.len(), 2);
    assert_eq!(calls[0], strings(&["image", "inspect", "--format", "{{json .Config.Env}}", "image"]));
    assert!(calls[1].contains(&"P=/usr/bin:/x".to_string()));
}

#[test]
fn start_container_reports_metadata_errors_before_running() {
    let configuration = parse(r#"{}"#);
    let run = |_request: ProcessRequest| -> Result<ProcessResult, String> { panic!("not run") };
    let result = start_container_with_metadata(
        &configuration, &[], &EnvDefaults::default(), "linux", "/w", "/w/c.json", "image",
        Err("bad metadata".to_string()), "m", &Vec::new(), &run,
    );
    assert_eq!(result, Err("bad metadata".to_string()));
}

#[test]
fn start_container_expands_container_env_from_the_built_image() {
    let configuration = parse(r#"{"containerEnv":{"PATH":"/usr/local/share/codespace-shims:${PATH}"}}"#);
    let calls: RefCell<Vec<Vec<String>>> = RefCell::new(Vec::new());
    let run = |request: ProcessRequest| {
        calls.borrow_mut().push(request.args.clone());
        if request.args[0] == "image" {
            ok(0, "[\"PATH=/usr/local/bin:/usr/bin\",\"HOME=/root\"]\n", "")
        } else {
            ok(0, "created-container\n", "")
        }
    };
    let id = start_container(
        &configuration, &[], &EnvDefaults::default(), "linux", "/w", "/w/.devcontainer.json",
        "example/devcontainer:features", "/workspace", false, "type=bind,source=/w,target=/workspace", &Vec::new(), &run,
    );
    assert_eq!(id, Ok("created-container".to_string()));
    let calls = calls.into_inner();
    assert_eq!(calls[0], strings(&["image", "inspect", "--format", "{{json .Config.Env}}", "example/devcontainer:features"]));
    let run_args = &calls[1];
    let at = run_args.iter().position(|a| a == "PATH=/usr/local/share/codespace-shims:/usr/local/bin:/usr/bin").expect("expanded PATH");
    assert_eq!(run_args[at - 1], "-e");
    assert!(run_args.ends_with(&strings(&["example/devcontainer:features", "/bin/sh", "-lc", "while sleep 1000; do :; done"])));
    let label = run_args.iter().find(|a| a.starts_with("devcontainer.metadata=")).expect("metadata label");
    let metadata: serde_json::Value = serde_json::from_str(&label["devcontainer.metadata=".len()..]).expect("metadata json");
    assert_eq!(metadata[0]["workspaceFolder"], "/workspace");
    assert_eq!(metadata[0]["containerEnv"]["PATH"], "/usr/local/share/codespace-shims:${PATH}");
}

#[test]
fn start_container_reports_engine_failures_and_empty_ids() {
    let configuration = parse(r#"{"workspaceMount":"source=/workspace,target=/workspace,type=bind"}"#);
    let failing = |request: ProcessRequest| {
        assert_eq!(request.args[0], "run");
        ok(2, "", "run failed\n")
    };
    let run_error = start_container(
        &configuration, &[], &EnvDefaults::default(), "linux", "/w", "/w/c.json", "alpine:3.20", "/workspace", false,
        "source=/workspace,target=/workspace,type=bind", &Vec::new(), &failing,
    );
    assert_eq!(run_error, Err("run failed".to_string()));
    let empty = |_request: ProcessRequest| ok(0, "  \n", "");
    let empty_id_error = start_container(
        &configuration, &[], &EnvDefaults::default(), "linux", "/w", "/w/c.json", "alpine:3.20", "/workspace", false,
        "source=/workspace,target=/workspace,type=bind", &Vec::new(), &empty,
    );
    assert_eq!(empty_id_error, Err("Container engine did not return a container id".to_string()));
    let not_run = |_request: ProcessRequest| -> Result<ProcessResult, String> { Err("spawn failed".to_string()) };
    let spawn_error = start_container(
        &configuration, &[], &EnvDefaults::default(), "linux", "/w", "/w/c.json", "alpine:3.20", "/workspace", false,
        "source=/workspace,target=/workspace,type=bind", &Vec::new(), &not_run,
    );
    assert_eq!(spawn_error, Err("spawn failed".to_string()));
}

#[test]
fn start_container_reports_image_inspection_failures() {
    let configuration = parse(r#"{"containerEnv":{"P":"$HOME/bin"}}"#);
    let run = |request: ProcessRequest| {
        assert_eq!(request.args[0], "image");
        ok(7, "", "image inspection failed")
    };
    let error = start_container(
        &configuration, &[], &EnvDefaults::default(), "linux", "/w", "/w/c.json", "img", "/workspace", false, "m", &Vec::new(), &run,
    );
    assert_eq!(error, Err("image inspection failed".to_string()));
}
