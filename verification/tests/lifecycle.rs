use devcontainer::engine::{ProcessLogLevel, ProcessResult};
use devcontainer::json::JsonValue;
use devcontainer::lifecycle::{
    host_lifecycle_request, lifecycle_exec_args, process_group_outcome, LifecycleCommand,
};

#[test]
fn lifecycle_exec_args_use_absolute_shell_path() {
    let args = lifecycle_exec_args(
        &JsonValue::Object(Vec::new()),
        &Vec::new(),
        "/workspaces/sample",
        "container-id",
        LifecycleCommand::Shell("echo hello".to_string()),
    );

    assert!(
        args.contains(&"/bin/sh".to_string()),
        "expected lifecycle shell command to use /bin/sh: {args:?}"
    );
    assert_eq!(
        args,
        vec!["exec", "--workdir", "/workspaces/sample", "container-id", "/bin/sh", "-lc", "echo hello"]
            .into_iter()
            .map(String::from)
            .collect::<Vec<_>>()
    );
}

#[test]
fn lifecycle_exec_args_pass_user_environment_and_program_parts() {
    let configuration = JsonValue::Object(vec![(
        "remoteUser".to_string(),
        JsonValue::String("vscode".to_string()),
    )]);
    let args = lifecycle_exec_args(
        &configuration,
        &vec![("HOME".to_string(), "/home/vscode".to_string())],
        "/w",
        "c1",
        LifecycleCommand::Exec(vec!["make".to_string(), "setup".to_string()]),
    );
    assert_eq!(
        args,
        vec!["exec", "--workdir", "/w", "--user", "vscode", "-e", "HOME=/home/vscode", "c1", "make", "setup"]
            .into_iter()
            .map(String::from)
            .collect::<Vec<_>>()
    );
}

#[test]
fn host_lifecycle_request_supports_exec_commands() {
    let request = host_lifecycle_request(
        &[
            "--log-level".to_string(),
            "trace".to_string(),
            "--terminal-columns".to_string(),
            "120".to_string(),
            "--terminal-rows".to_string(),
            "40".to_string(),
        ],
        "/workspace",
        LifecycleCommand::Exec(vec![
            "echo".to_string(),
            "hello".to_string(),
            "world".to_string(),
        ]),
    );

    assert_eq!(request.program, "echo");
    assert_eq!(request.args, vec!["hello".to_string(), "world".to_string()]);
    assert_eq!(request.cwd.as_deref(), Some("/workspace"));
    assert_eq!(request.log_level, ProcessLogLevel::Trace);
    assert_eq!(request.env_get("COLUMNS").as_deref(), Some("120"));
    assert_eq!(request.env_get("LINES").as_deref(), Some("40"));
}

#[test]
fn host_lifecycle_request_runs_lines_with_the_shell() {
    let request = host_lifecycle_request(&[], "/w", LifecycleCommand::Shell("echo hi".to_string()));
    assert_eq!(request.program, "/bin/sh");
    assert_eq!(request.args, vec!["-c".to_string(), "echo hi".to_string()]);
    assert_eq!(request.log_level, ProcessLogLevel::Info);

    let empty = host_lifecycle_request(&[], "/w", LifecycleCommand::Exec(Vec::new()));
    assert_eq!(empty.program, "");
    assert!(empty.args.is_empty());
}

#[test]
fn process_groups_report_the_first_failure_in_order() {
    let ok = |stdout: &str| {
        Ok(ProcessResult {
            status_code: 0,
            stdout: stdout.to_string(),
            stderr: String::new(),
        })
    };
    let failed = |stderr: &str| {
        Ok(ProcessResult {
            status_code: 2,
            stdout: String::new(),
            stderr: stderr.to_string(),
        })
    };
    assert_eq!(process_group_outcome(&vec![ok("a"), ok("b")]), Ok(()));
    assert_eq!(
        process_group_outcome(&vec![ok("a"), failed(" second \n"), Err("third".to_string())]),
        Err("second".to_string())
    );
    assert_eq!(
        process_group_outcome(&vec![Err("spawn".to_string()), failed("later")]),
        Err("spawn".to_string())
    );
    assert_eq!(process_group_outcome(&Vec::new()), Ok(()));
}
