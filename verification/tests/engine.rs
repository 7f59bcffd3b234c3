use devcontainer::engine::{
    compose_request, engine_request, is_build_request, is_wslc_version_output,
    normalize_process_error, pull_always_requested, stderr_or_stdout, ProcessError,
    ProcessLogLevel, ProcessRequest, ProcessResult,
};
use devcontainer::options::EnvDefaults;

fn no_env() -> EnvDefaults {
    EnvDefaults::default()
}

fn env_docker_path(value: &str) -> EnvDefaults {
    EnvDefaults {
        docker_path: Some(value.to_string()),
        ..EnvDefaults::default()
    }
}

fn env_compose_path(value: &str) -> EnvDefaults {
    EnvDefaults {
        docker_compose_path: Some(value.to_string()),
        ..EnvDefaults::default()
    }
}

fn env_buildkit(value: &str) -> EnvDefaults {
    EnvDefaults {
        buildkit: Some(value.to_string()),
        ..EnvDefaults::default()
    }
}

fn not_found() -> ProcessError {
    ProcessError {
        not_found: true,
        message: "missing".to_string(),
    }
}

fn request(program: &str) -> ProcessRequest {
    ProcessRequest {
        program: program.to_string(),
        args: vec!["ps".to_string()],
        cwd: None,
        env: Vec::new(),
        log_level: ProcessLogLevel::Info,
    }
}

#[test]
fn pull_always_requested_honors_the_cli_boolean_vocabulary_and_last_value() {
    for value in ["true", "1", "yes", "on"] {
        assert!(
            pull_always_requested(&["--pull-always".to_string(), value.to_string()]),
            "spaced {value}"
        );
        assert!(
            pull_always_requested(&[format!("--pull-always={value}")]),
            "equals {value}"
        );
    }
    for value in ["false", "0", "no", "off"] {
        assert!(
            !pull_always_requested(&["--pull-always".to_string(), value.to_string()]),
            "spaced {value}"
        );
        assert!(
            !pull_always_requested(&[format!("--pull-always={value}")]),
            "equals {value}"
        );
    }

    assert!(pull_always_requested(&["--pull-always".to_string()]));
    assert!(!pull_always_requested(&[]));
    assert!(!pull_always_requested(&[
        "--pull-always=yes".to_string(),
        "--pull-always".to_string(),
        "off".to_string(),
    ]));
    assert!(pull_always_requested(&[
        "--pull-always".to_string(),
        "false".to_string(),
        "--pull-always=on".to_string(),
    ]));
    assert!(!pull_always_requested(&["--pull-always=invalid".to_string()]));
    assert!(pull_always_requested(&[
        "--pull-always".to_string(),
        "invalid".to_string(),
    ]));
}

#[test]
fn engine_request_applies_terminal_env_and_log_level() {
    let request = engine_request(
        &[
            "--log-level".to_string(),
            "debug".to_string(),
            "--terminal-columns".to_string(),
            "160".to_string(),
            "--terminal-rows".to_string(),
            "48".to_string(),
        ],
        &no_env(),
        vec!["ps".to_string()],
    );

    assert_eq!(request.log_level, ProcessLogLevel::Debug);
    assert_eq!(request.env_get("COLUMNS").as_deref(), Some("160"));
    assert_eq!(request.env_get("LINES").as_deref(), Some("48"));
}

#[test]
fn stderr_or_stdout_falls_back_to_stdout_when_stderr_is_empty() {
    let result = ProcessResult {
        status_code: 1,
        stdout: " useful stdout \n".to_string(),
        stderr: " \n".to_string(),
    };

    assert_eq!(stderr_or_stdout(&result), "useful stdout");
}

#[test]
fn detects_build_requests_for_compose_invocations() {
    assert!(!is_build_request(&[]));
    assert!(is_build_request(&["build".to_string()]));
    assert!(is_build_request(&["--pull".to_string(), "build".to_string(),]));
    assert!(!is_build_request(&["--pull".to_string()]));
    assert!(is_build_request(&[
        "compose".to_string(),
        "build".to_string(),
        "app".to_string(),
    ]));
    assert!(is_build_request(&[
        "--project-name".to_string(),
        "workspace".to_string(),
        "-f".to_string(),
        "docker-compose.yml".to_string(),
        "build".to_string(),
        "app".to_string(),
    ]));
    assert!(is_build_request(&[
        "compose".to_string(),
        "--project-name".to_string(),
        "workspace".to_string(),
        "build".to_string(),
        "app".to_string(),
    ]));
    assert!(!is_build_request(&[
        "--project-name".to_string(),
        "workspace".to_string(),
        "up".to_string(),
    ]));
    assert!(!is_build_request(&["compose".to_string(), "up".to_string(),]));
    assert!(!is_build_request(&[
        "compose".to_string(),
        "--ansi".to_string(),
        "never".to_string(),
    ]));
}

#[test]
fn compose_request_applies_buildkit_env_for_default_docker_compose_builds() {
    let request = compose_request(
        &[
            "--docker-path".to_string(),
            "/path/that/does/not/exist".to_string(),
            "--buildkit".to_string(),
            "never".to_string(),
        ],
        &no_env(),
        vec!["build".to_string(), "app".to_string()],
        || false,
    );

    assert_eq!(request.program, "docker-compose");
    assert_eq!(request.args, vec!["build".to_string(), "app".to_string()]);
    assert_eq!(request.env_get("DOCKER_BUILDKIT").as_deref(), Some("0"));
}

#[test]
fn engine_request_uses_env_engine_path_and_ignores_blank_env() {
    let request = engine_request(&[], &env_docker_path("/env/bin/podman"), vec!["ps".to_string()]);
    assert_eq!(request.program, "/env/bin/podman");

    let request = engine_request(&[], &env_docker_path(" \t "), vec!["ps".to_string()]);
    assert_eq!(request.program, "docker");
}

#[test]
fn engine_request_prefers_cli_engine_path_over_env() {
    let request = engine_request(
        &["--docker-path".to_string(), "/cli/bin/docker".to_string()],
        &env_docker_path("/env/bin/podman"),
        vec!["ps".to_string()],
    );

    assert_eq!(request.program, "/cli/bin/docker");
}

#[test]
fn compose_request_uses_env_compose_path_before_engine_probe() {
    let env = EnvDefaults {
        docker_path: Some("/path/that/does/not/exist".to_string()),
        docker_compose_path: Some("/env/bin/podman-compose".to_string()),
        ..EnvDefaults::default()
    };

    let request = compose_request(&[], &env, vec!["ps".to_string()], || {
        panic!("the probe must not run when a compose path is configured")
    });

    assert_eq!(request.program, "/env/bin/podman-compose");
    assert_eq!(request.args, vec!["ps".to_string()]);
}

#[test]
fn compose_request_prefers_cli_compose_path_over_env() {
    let request = compose_request(
        &[
            "--docker-compose-path".to_string(),
            "/cli/bin/docker-compose".to_string(),
        ],
        &env_compose_path("/env/bin/podman-compose"),
        vec!["ps".to_string()],
        || false,
    );

    assert_eq!(request.program, "/cli/bin/docker-compose");
}

#[test]
fn compose_request_uses_engine_compose_subcommand_when_available() {
    let request = compose_request(
        &["--docker-path".to_string(), "podman".to_string()],
        &no_env(),
        vec!["ps".to_string()],
        || true,
    );

    assert_eq!(request.program, "podman");
    assert_eq!(request.args, vec!["compose".to_string(), "ps".to_string()]);
}

#[test]
fn engine_request_applies_buildkit_env_default_for_builds() {
    let request = engine_request(
        &[],
        &env_buildkit("never"),
        vec!["build".to_string(), "app".to_string()],
    );

    assert_eq!(request.env_get("DOCKER_BUILDKIT").as_deref(), Some("0"));

    let request = engine_request(
        &[],
        &env_buildkit(" "),
        vec!["build".to_string(), "app".to_string()],
    );
    assert_eq!(request.env_get("DOCKER_BUILDKIT"), None);
}

#[test]
fn engine_request_prefers_cli_buildkit_over_env() {
    let request = engine_request(
        &["--buildkit".to_string(), "auto".to_string()],
        &env_buildkit("never"),
        vec!["build".to_string(), "app".to_string()],
    );

    assert_eq!(request.env_get("DOCKER_BUILDKIT").as_deref(), Some("1"));
}

#[test]
fn engine_request_applies_buildkit_never_for_builds() {
    let request = engine_request(
        &["--buildkit".to_string(), "never".to_string()],
        &no_env(),
        vec!["build".to_string(), "app".to_string()],
    );

    assert_eq!(request.env_get("DOCKER_BUILDKIT").as_deref(), Some("0"));
}

#[test]
fn compose_request_honors_explicit_compose_path_and_buildkit_auto() {
    let request = compose_request(
        &[
            "--docker-compose-path".to_string(),
            "/opt/bin/docker-compose".to_string(),
            "--buildkit".to_string(),
            "auto".to_string(),
        ],
        &no_env(),
        vec!["build".to_string(), "app".to_string()],
        || false,
    );

    assert_eq!(request.program, "/opt/bin/docker-compose");
    assert_eq!(request.args, vec!["build".to_string(), "app".to_string()]);
    assert_eq!(request.env_get("DOCKER_BUILDKIT").as_deref(), Some("1"));
}

#[test]
fn run_engine_reports_missing_requested_engine() {
    let args = [
        "--docker-path".to_string(),
        "/path/that/does/not/exist".to_string(),
    ];
    let request = engine_request(&args, &no_env(), vec!["ps".to_string()]);
    let error = normalize_process_error(&args, &no_env(), &request, &not_found());

    assert_eq!(
        error,
        "Container engine executable not found: /path/that/does/not/exist. Verify --docker-path or DEVCONTAINER_DOCKER_PATH, or install the requested container engine."
    );
}

#[test]
fn run_engine_reports_missing_env_requested_engine() {
    let env = env_docker_path("/path/that/does/not/exist-env");
    let request = engine_request(&[], &env, vec!["ps".to_string()]);
    let error = normalize_process_error(&[], &env, &request, &not_found());

    assert_eq!(
        error,
        "Container engine executable not found: /path/that/does/not/exist-env. Verify --docker-path or DEVCONTAINER_DOCKER_PATH, or install the requested container engine."
    );
}

#[test]
fn run_compose_reports_missing_env_requested_compose_binary() {
    let env = env_compose_path("/path/that/does/not/exist-compose-env");
    let request = compose_request(&[], &env, vec!["ps".to_string()], || false);
    let error = normalize_process_error(&[], &env, &request, &not_found());

    assert_eq!(
        error,
        "Container compose executable not found: /path/that/does/not/exist-compose-env. Verify --docker-compose-path or DEVCONTAINER_DOCKER_COMPOSE_PATH, or install the requested compose CLI."
    );
}

#[test]
fn run_engine_streaming_reports_missing_requested_engine() {
    let args = [
        "--docker-path".to_string(),
        "/path/that/does/not/exist".to_string(),
    ];
    let request = engine_request(&args, &no_env(), vec!["ps".to_string()]);
    let error = normalize_process_error(&args, &no_env(), &request, &not_found());

    assert_eq!(
        error,
        "Container engine executable not found: /path/that/does/not/exist. Verify --docker-path or DEVCONTAINER_DOCKER_PATH, or install the requested container engine."
    );
}

#[test]
fn normalize_process_error_reports_missing_compose_binary() {
    let request = request("/path/that/does/not/exist-compose");

    let error = normalize_process_error(
        &[
            "--docker-compose-path".to_string(),
            "/path/that/does/not/exist-compose".to_string(),
        ],
        &no_env(),
        &request,
        &not_found(),
    );

    assert_eq!(
        error,
        "Container compose executable not found: /path/that/does/not/exist-compose. Verify --docker-compose-path or DEVCONTAINER_DOCKER_COMPOSE_PATH, or install the requested compose CLI."
    );
}

#[test]
fn normalize_process_error_preserves_non_not_found_errors() {
    let request = request("docker");

    let error = normalize_process_error(
        &[],
        &no_env(),
        &request,
        &ProcessError {
            not_found: false,
            message: "permission denied".to_string(),
        },
    );

    assert_eq!(error, "permission denied");
}

#[test]
fn normalize_process_error_reports_missing_default_docker() {
    let request = request("docker");

    let error = normalize_process_error(&[], &no_env(), &request, &not_found());

    assert_eq!(
        error,
        "Container engine executable not found: docker. Install Docker or rerun with --docker-path podman or set DEVCONTAINER_DOCKER_PATH=podman."
    );
}

#[test]
fn normalize_process_error_treats_docker_compose_file_names_as_compose() {
    let request = request("/usr/local/bin/Docker-Compose");

    let error = normalize_process_error(&[], &no_env(), &request, &not_found());

    assert_eq!(
        error,
        "Container compose executable not found: /usr/local/bin/Docker-Compose. Verify --docker-compose-path or DEVCONTAINER_DOCKER_COMPOSE_PATH, or install the requested compose CLI."
    );
}

#[test]
fn detects_wslc_from_the_engine_version_banner() {
    let banner = ProcessResult {
        status_code: 0,
        stdout: "WSLc version 0.1.0\n".to_string(),
        stderr: String::new(),
    };
    assert!(is_wslc_version_output(&Ok(banner)));

    let failed = ProcessResult {
        status_code: 1,
        stdout: "wslc version 0.1.0\n".to_string(),
        stderr: String::new(),
    };
    assert!(!is_wslc_version_output(&Ok(failed)));

    let docker = ProcessResult {
        status_code: 0,
        stdout: "Docker version 27.0.1\n".to_string(),
        stderr: String::new(),
    };
    assert!(!is_wslc_version_output(&Ok(docker)));
    assert!(!is_wslc_version_output(&Err("missing".to_string())));
}
