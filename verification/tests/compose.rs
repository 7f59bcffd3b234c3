use devcontainer::compose::{
    compose_args_owned, compose_build_option_is_present, compose_image_name_separator,
    default_service_image_name, expand_compose_variable, insert_compose_override,
    is_compose_variable_continue, is_compose_variable_start, parse_semver_prefix,
    reject_unsupported_build_options, sanitize_project_name, split_shell_words,
    substitute_compose_env_with, ComposeSpec,
};
use devcontainer::engine::ProcessResult;

fn version_output(stdout: &str) -> Result<ProcessResult, String> {
    Ok(ProcessResult {
        status_code: 0,
        stdout: stdout.to_string(),
        stderr: String::new(),
    })
}

fn spec() -> ComposeSpec {
    ComposeSpec {
        files: vec!["docker-compose.yml".to_string()],
        service: "web".to_string(),
        image: None,
        has_build: false,
        user: None,
        project_name: "myproj".to_string(),
    }
}

#[test]
fn substitute_compose_env_supports_plain_variable_interpolation() {
    let variable = "DEVCONTAINER_COMPOSE_TEST_PRESENT";
    let lookup = vec![(variable.to_string(), "MyProject".to_string())];

    assert_eq!(
        substitute_compose_env_with(&format!("prefix-${variable}"), &lookup),
        "prefix-MyProject"
    );
    assert_eq!(substitute_compose_env_with("cost-$$5", &lookup), "cost-$5");
    assert_eq!(
        substitute_compose_env_with("literal-$", &lookup),
        "literal-$"
    );
    assert_eq!(
        substitute_compose_env_with("literal-$9", &lookup),
        "literal-$9"
    );
    assert_eq!(
        substitute_compose_env_with("${UNFINISHED", &lookup),
        "${UNFINISHED"
    );
    assert_eq!(
        substitute_compose_env_with("${DEVCONTAINER_COMPOSE_TEST_PRESENT:-fallback}", &lookup),
        "MyProject"
    );
    assert_eq!(
        substitute_compose_env_with("${DEVCONTAINER_COMPOSE_TEST_PRESENT-fallback}", &lookup),
        "MyProject"
    );
    assert_eq!(
        substitute_compose_env_with("'${MISSING:-fallback}'", &lookup),
        "fallback"
    );
}

#[test]
fn compose_name_from_file_supports_dash_default_interpolation() {
    let project_name = substitute_compose_env_with("${DEVCONTAINER_COMPOSE_TEST_MISSING_B-MyProj}", &Vec::new());

    assert_eq!(project_name, "MyProj");
    assert_eq!(sanitize_project_name(&project_name), "myproj");
}

#[test]
fn compose_variables_distinguish_unset_from_empty_values() {
    let env = vec![("EMPTY".to_string(), String::new())];
    assert_eq!(expand_compose_variable("EMPTY:-fallback", &env), "fallback");
    assert_eq!(expand_compose_variable("EMPTY-fallback", &env), "");
    assert_eq!(expand_compose_variable("MISSING", &env), "");
    assert_eq!(
        substitute_compose_env_with("\"${MISSING:-${EMPTY:-nested}}\"", &env),
        "${EMPTY:-nested}"
    );
    assert!(is_compose_variable_start('_'));
    assert!(!is_compose_variable_start('9'));
    assert!(is_compose_variable_continue('9'));
    assert!(!is_compose_variable_continue('-'));
}

#[test]
fn sanitize_project_name_lowercases_and_drops_other_characters() {
    assert_eq!(sanitize_project_name("My Project_1-x.y"), "myproject_1-xy");
    assert_eq!(sanitize_project_name("ÉTÉ"), "t");
    assert_eq!(sanitize_project_name("\u{212A}elvin"), "kelvin");
}

#[test]
fn parse_semver_prefix_reads_plain_semver_versions() {
    assert_eq!(parse_semver_prefix("2.24.0"), Some((2, 24, 0)));
    assert_eq!(parse_semver_prefix("v2.8.1-desktop.1"), Some((2, 8, 1)));
}

#[test]
fn parse_semver_prefix_defaults_missing_parts_and_rejects_non_numbers() {
    assert_eq!(parse_semver_prefix("v2.8"), Some((2, 8, 0)));
    assert_eq!(parse_semver_prefix("2"), Some((2, 0, 0)));
    assert_eq!(parse_semver_prefix("not-a-version"), None);
    assert_eq!(parse_semver_prefix("2..1"), None);
    assert_eq!(parse_semver_prefix("99999999999999999999"), None);
}

#[test]
fn compose_image_name_separator_defaults_to_hyphen_without_runtime_args() {
    assert_eq!(
        compose_image_name_separator(|_| Err("Container compose executable not found".to_string())),
        '-'
    );
}

#[test]
fn compose_image_name_separator_tracks_compose_version_outputs() {
    assert_eq!(compose_image_name_separator(|_| version_output("2.7.9\n")), '_');
    assert_eq!(compose_image_name_separator(|_| version_output("2.8.0\n")), '-');
    assert_eq!(compose_image_name_separator(|_| version_output("v1.29.2\n")), '_');
    assert_eq!(compose_image_name_separator(|_| version_output("garbage\n")), '-');
    assert_eq!(
        compose_image_name_separator(|args| {
            assert_eq!(args, vec!["version".to_string(), "--short".to_string()]);
            Ok(ProcessResult {
                status_code: 1,
                stdout: "2.0.0".to_string(),
                stderr: String::new(),
            })
        }),
        '-'
    );
}

#[test]
fn version_prefix_and_image_name_helpers_cover_edge_cases() {
    assert_eq!(default_service_image_name(&spec(), |_| Err("no compose".to_string())), "myproj-web");
    assert_eq!(default_service_image_name(&spec(), |_| version_output("1.29.2")), "myproj_web");
}

#[test]
fn split_shell_words_follows_shell_quoting() {
    assert_eq!(
        split_shell_words(
            r#"cmd "two words" 'literal value' escaped\ space "quoted\"value" 'unterminated"#
        ),
        vec![
            "cmd",
            "two words",
            "literal value",
            "escaped space",
            "quoted\"value",
            "'unterminated",
        ]
    );
    assert_eq!(split_shell_words("  "), Vec::<String>::new());
}

#[test]
fn compose_args_list_project_files_override_and_tail() {
    let args = compose_args_owned(
        &spec(),
        "up",
        Some("/tmp/override.yml"),
        vec!["-d".to_string(), "web".to_string()],
    );
    assert_eq!(
        args,
        vec![
            "--project-name",
            "myproj",
            "-f",
            "docker-compose.yml",
            "-f",
            "/tmp/override.yml",
            "up",
            "-d",
            "web",
        ]
        .into_iter()
        .map(String::from)
        .collect::<Vec<_>>()
    );

    let mut with_profile = args.clone();
    insert_compose_override(&mut with_profile, 2, "/tmp/profile.yml");
    assert_eq!(
        with_profile,
        vec![
            "--project-name",
            "myproj",
            "-f",
            "docker-compose.yml",
            "-f",
            "/tmp/override.yml",
            "-f",
            "/tmp/profile.yml",
            "up",
            "-d",
            "web",
        ]
        .into_iter()
        .map(String::from)
        .collect::<Vec<_>>()
    );
}

#[test]
fn compose_builds_reject_unsupported_options_in_order() {
    assert_eq!(reject_unsupported_build_options(&[]), Ok(()));
    assert_eq!(
        reject_unsupported_build_options(&["--cache-to".to_string(), "x".to_string(), "--push".to_string()]),
        Err("--cache-to not supported for compose builds.".to_string())
    );
    assert_eq!(
        reject_unsupported_build_options(&["--push".to_string()]),
        Err("--platform or --push not supported.".to_string())
    );
    assert_eq!(
        reject_unsupported_build_options(&["--push".to_string(), "false".to_string()]),
        Ok(())
    );
    assert_eq!(
        reject_unsupported_build_options(&["--output".to_string(), "type=docker".to_string()]),
        Err("--output not supported.".to_string())
    );
    assert_eq!(
        reject_unsupported_build_options(&["--label".to_string()]),
        Err("--label not supported for compose builds.".to_string())
    );
    assert!(compose_build_option_is_present(&["--platform".to_string()], "--platform"));
    assert!(!compose_build_option_is_present(&["--platforms".to_string()], "--platform"));
}

#[test]
fn sanitized_project_names_stay_as_they_are() {
    let once = sanitize_project_name("My Project! 123_x-Y");
    assert_eq!(once, "myproject123_x-y");
    assert_eq!(sanitize_project_name(&once), once);
    assert!(once.chars().all(|c| c.is_ascii_lowercase() || c.is_ascii_digit() || c == '-' || c == '_'));
}

#[test]
fn compose_defaults_distinguish_empty_from_unset() {
    let empty = vec![("V".to_string(), String::new())];
    assert_eq!(substitute_compose_env_with("${V:-d}", &empty), "d");
    assert_eq!(substitute_compose_env_with("${V-d}", &empty), "");
    let unset: Vec<(String, String)> = Vec::new();
    assert_eq!(substitute_compose_env_with("${V:-d}", &unset), "d");
    assert_eq!(substitute_compose_env_with("${V-d}", &unset), "d");
    assert_eq!(substitute_compose_env_with("'plain'", &unset), "plain");
}
