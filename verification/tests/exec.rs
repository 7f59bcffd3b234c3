use devcontainer::json::JsonValue;
use devcontainer::exec::{
    exec_command_and_args, exec_engine_args_with_remote_env, is_explicit_bool_literal, run_exec,
    ExecContext, ExecStdio,
};
use devcontainer::options::EnvDefaults;

#[test]
fn exec_command_and_args_rejects_unknown_options() {
    let error = exec_command_and_args(&[
        "--workspace-folder".to_string(),
        "/tmp/workspace".to_string(),
        "--mystery".to_string(),
    ])
    .expect_err("expected unsupported option");

    assert_eq!(error, "Unsupported exec option: --mystery");
}

#[test]
fn exec_command_and_args_rejects_interactive_option() {
    let error = exec_command_and_args(&[
        "--interactive".to_string(),
        "/bin/echo".to_string(),
        "hello".to_string(),
    ])
    .expect_err("expected unsupported option");

    assert_eq!(error, "Unsupported exec option: --interactive");
}

#[test]
fn exec_engine_args_include_workdir_user_and_remote_env() {
    let args = exec_engine_args_with_remote_env(
        Some("vscode"),
        "/workspace",
        "container-id",
        vec!["/bin/echo".to_string(), "hello".to_string()],
        ExecStdio {
            stdin_is_terminal: false,
            stdout_is_terminal: false,
        },
        &vec![
            ("CONFIG_ENV".to_string(), "config".to_string()),
            ("CLI_ENV".to_string(), "cli".to_string()),
        ],
    );

    assert_eq!(args[0], "exec");
    assert_eq!(args[1], "-i");
    assert!(!args.contains(&"-t".to_string()));
    assert!(args.contains(&"--workdir".to_string()));
    assert!(args.contains(&"/workspace".to_string()));
    assert!(args.contains(&"--user".to_string()));
    assert!(args.contains(&"vscode".to_string()));
    assert!(args.contains(&"container-id".to_string()));
    assert!(args.contains(&"/bin/echo".to_string()));
    assert!(args.iter().any(|arg| arg == "CONFIG_ENV=config"));
    assert!(args.iter().any(|arg| arg == "CLI_ENV=cli"));
}

fn minimal_exec_engine_args(stdio: ExecStdio) -> Vec<String> {
    exec_engine_args_with_remote_env(
        None,
        "/workspace",
        "container-id",
        vec!["/bin/echo".to_string(), "hello".to_string()],
        stdio,
        &Vec::new(),
    )
}

#[test]
fn exec_engine_args_attach_stdin_by_default() {
    let args = minimal_exec_engine_args(ExecStdio {
        stdin_is_terminal: false,
        stdout_is_terminal: false,
    });

    assert_eq!(args[0], "exec");
    assert_eq!(args[1], "-i");
}

#[test]
fn exec_engine_args_allocate_tty_only_when_stdin_and_stdout_are_terminals() {
    let cases = [
        (ExecStdio::new(false, false), false),
        (ExecStdio::new(true, false), false),
        (ExecStdio::new(false, true), false),
        (ExecStdio::new(true, true), true),
    ];

    for (stdio, expect_tty) in cases {
        let args = minimal_exec_engine_args(stdio);

        assert_eq!(args.contains(&"-t".to_string()), expect_tty);
        assert_eq!(stdio.should_allocate_tty(), expect_tty);
    }
}

#[test]
fn exec_engine_args_are_ordered_exec_options_env_container_then_command() {
    let args = exec_engine_args_with_remote_env(
        Some("node"),
        "/workspaces/app",
        "abc123",
        vec!["ls".to_string(), "-la".to_string()],
        ExecStdio::new(true, true),
        &vec![("HOME".to_string(), "/home/node".to_string())],
    );

    assert_eq!(
        args,
        vec![
            "exec", "-i", "-t", "--workdir", "/workspaces/app", "--user", "node", "-e",
            "HOME=/home/node", "abc123", "ls", "-la",
        ]
        .into_iter()
        .map(String::from)
        .collect::<Vec<_>>()
    );
}

#[test]
fn exec_command_and_args_accepts_docker_compose_path() {
    let args = exec_command_and_args(&[
        "--docker-compose-path".to_string(),
        "/usr/local/bin/podman-compose".to_string(),
        "/bin/echo".to_string(),
        "hello".to_string(),
    ])
    .expect("command args");

    assert_eq!(args, vec!["/bin/echo".to_string(), "hello".to_string()]);
}

#[test]
fn exec_command_and_args_accept_workspace_mount_flags() {
    let args = exec_command_and_args(&[
        "--workspace-folder".to_string(),
        "/workspace/packages/app".to_string(),
        "--mount-workspace-git-root".to_string(),
        "false".to_string(),
        "--workspace-mount-consistency".to_string(),
        "delegated".to_string(),
        "/bin/echo".to_string(),
        "hello".to_string(),
    ])
    .expect("command args");

    assert_eq!(args, vec!["/bin/echo".to_string(), "hello".to_string()]);
}

#[test]
fn exec_command_and_args_does_not_consume_command_after_bare_mount_flag() {
    let args = exec_command_and_args(&[
        "--mount-workspace-git-root".to_string(),
        "/bin/bash".to_string(),
    ])
    .expect("command args");

    assert_eq!(args, vec!["/bin/bash".to_string()]);
}

#[test]
fn exec_command_and_args_accepts_explicit_bool_for_git_worktree_flag() {
    let args = exec_command_and_args(&[
        "--mount-git-worktree-common-dir".to_string(),
        "true".to_string(),
        "/bin/echo".to_string(),
        "hello".to_string(),
    ])
    .expect("command args");

    assert_eq!(args, vec!["/bin/echo".to_string(), "hello".to_string()]);
}

#[test]
fn exec_command_and_args_accept_shared_runtime_options() {
    let args = exec_command_and_args(&[
        "--log-level".to_string(),
        "debug".to_string(),
        "--user-data-folder".to_string(),
        "/tmp/devcontainer".to_string(),
        "--container-data-folder".to_string(),
        "/tmp/container".to_string(),
        "--container-system-data-folder".to_string(),
        "/var/devcontainer".to_string(),
        "--container-session-data-folder".to_string(),
        "/tmp/session".to_string(),
        "--default-user-env-probe".to_string(),
        "loginShell".to_string(),
        "--skip-feature-auto-mapping".to_string(),
        "--terminal-columns".to_string(),
        "120".to_string(),
        "--terminal-rows".to_string(),
        "40".to_string(),
        "/bin/echo".to_string(),
        "hello".to_string(),
    ])
    .expect("command args");

    assert_eq!(args, vec!["/bin/echo".to_string(), "hello".to_string()]);
}

#[test]
fn exec_command_and_args_requires_a_command() {
    assert_eq!(
        exec_command_and_args(&["--workspace-folder".to_string(), "/w".to_string()]),
        Err("exec requires a command to run".to_string())
    );
    assert_eq!(
        exec_command_and_args(&[]),
        Err("exec requires a command to run".to_string())
    );
}

#[test]
fn explicit_bool_literals_are_the_cli_boolean_vocabulary() {
    for value in ["false", "0", "no", "off", "true", "1", "yes", "on"] {
        assert!(is_explicit_bool_literal(value), "{value}");
    }
    for value in ["TRUE", "", "maybe", "/bin/bash"] {
        assert!(!is_explicit_bool_literal(value), "{value}");
    }
}

#[test]
fn run_exec_builds_the_engine_request_from_the_resolved_context() {
    let request = run_exec(
        &[
            "--docker-path".to_string(),
            "podman".to_string(),
            "/bin/echo".to_string(),
            "hi".to_string(),
        ],
        &EnvDefaults::default(),
        ExecStdio::new(false, false),
        || {
            Ok(ExecContext {
                container_id: "c1".to_string(),
                remote_workspace_folder: "/workspaces/w".to_string(),
                configuration: JsonValue::Object(Vec::new()),
                remote_env: Vec::new(),
            })
        },
    )
    .expect("request");

    assert_eq!(request.program, "podman");
    assert_eq!(
        request.args,
        vec!["exec", "-i", "--workdir", "/workspaces/w", "c1", "/bin/echo", "hi"]
            .into_iter()
            .map(String::from)
            .collect::<Vec<_>>()
    );
}

#[test]
fn run_exec_reports_argument_errors_before_resolving_the_container() {
    let error = run_exec(
        &["--bogus".to_string()],
        &EnvDefaults::default(),
        ExecStdio::new(false, false),
        || -> Result<ExecContext, String> { panic!("the container must not be resolved") },
    )
    .expect_err("argument error");

    assert_eq!(error, "Unsupported exec option: --bogus");

    let error = run_exec(
        &["/bin/true".to_string()],
        &EnvDefaults::default(),
        ExecStdio::new(false, false),
        || Err("Dev container not found.".to_string()),
    )
    .expect_err("resolution error");
    assert_eq!(error, "Dev container not found.");
}

#[test]
fn exec_command_is_the_suffix_after_the_options() {
    assert_eq!(exec_command_and_args(&[]), Err("exec requires a command to run".to_string()));
    let args: Vec<String> = ["--workspace-folder", "/w", "--mount-workspace-git-root", "true", "echo", "--x"]
        .iter()
        .map(|s| s.to_string())
        .collect();
    assert_eq!(exec_command_and_args(&args), Ok(vec!["echo".to_string(), "--x".to_string()]));
}

#[test]
fn run_exec_runs_as_the_configured_user() {
    let request = run_exec(
        &["/bin/echo".to_string()],
        &EnvDefaults::default(),
        ExecStdio::new(true, true),
        || {
            Ok(ExecContext {
                container_id: "c1".to_string(),
                remote_workspace_folder: "/w".to_string(),
                configuration: JsonValue::Object(vec![("remoteUser".to_string(), JsonValue::String("vscode".to_string()))]),
                remote_env: vec![("HOME".to_string(), "/home/vscode".to_string())],
            })
        },
    )
    .expect("request");
    assert_eq!(
        request.args,
        vec!["exec", "-i", "-t", "--workdir", "/w", "--user", "vscode", "-e", "HOME=/home/vscode", "c1", "/bin/echo"]
            .into_iter()
            .map(String::from)
            .collect::<Vec<_>>()
    );
}
