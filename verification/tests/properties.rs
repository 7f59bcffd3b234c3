use devcontainer::compose::substitute_compose_env_with;
use devcontainer::discovery::truncate_diagnostic;
use devcontainer::engine::{apply_buildkit_env, pull_always_requested, runtime_process_request};
use devcontainer::image::qualify_image_name;
use devcontainer::options::{env_default_value, EnvDefaults};
use devcontainer::uid_update::uid_update_base_image;

fn strings(values: &[&str]) -> Vec<String> {
    values.iter().map(|v| v.to_string()).collect()
}

#[test]
fn command_line_flags_take_precedence_over_environment_defaults() {
    let args = strings(&["--docker-path", "docker"]);
    assert_eq!(
        env_default_value(&args, "--docker-path", &Some("podman".to_string())),
        Some("docker".to_string())
    );
    assert_eq!(env_default_value(&[], "--docker-path", &Some("   ".to_string())), None);
    assert_eq!(env_default_value(&[], "--docker-path", &Some("".to_string())), None);
    assert_eq!(
        env_default_value(&[], "--docker-path", &Some("podman".to_string())),
        Some("podman".to_string())
    );
}

#[test]
fn buildkit_setting_reads_back_from_the_request_environment() {
    let mut request = runtime_process_request(&[], "docker".to_string(), strings(&["build", "."]), None);
    request.env.push(("DOCKER_BUILDKIT".to_string(), "1".to_string()));
    request.env.push(("OTHER".to_string(), "kept".to_string()));
    apply_buildkit_env(&strings(&["--buildkit", "never"]), &EnvDefaults::default(), &mut request);
    assert_eq!(request.env_get("DOCKER_BUILDKIT"), Some("0".to_string()));
    assert_eq!(request.env_get("OTHER"), Some("kept".to_string()));
    assert_eq!(
        request.env.iter().filter(|(k, _)| k == "DOCKER_BUILDKIT").count(),
        1
    );
}

#[test]
fn the_last_pull_always_setting_decides() {
    assert!(pull_always_requested(&strings(&["--pull-always"])));
    assert!(!pull_always_requested(&strings(&["--pull-always", "--pull-always=false"])));
    assert!(pull_always_requested(&strings(&["--pull-always", "false", "--pull-always=true"])));
    assert!(!pull_always_requested(&strings(&["--pull-always=true", "x", "--pull-always=false"])));
}

#[test]
fn interpolation_keeps_values_without_dollar() {
    let environment = vec![("A".to_string(), "1".to_string())];
    assert_eq!(substitute_compose_env_with("plain-value", &environment), "plain-value");
    assert_eq!(substitute_compose_env_with("", &environment), "");
}

#[test]
fn uid_update_base_image_is_stable() {
    let args = strings(&["--docker-path", "podman"]);
    let env = EnvDefaults::default();
    let once = uid_update_base_image(&args, &env, "ubuntu");
    assert_eq!(once, "localhost/ubuntu");
    assert_eq!(uid_update_base_image(&args, &env, &once), once);
    assert_eq!(uid_update_base_image(&[], &env, "ubuntu"), "ubuntu");
}

#[test]
fn qualified_image_names_stay_qualified() {
    for name in ["ubuntu", "docker.io/ubuntu", "user/image", "ghcr.io/owner/image", "docker.io/library/x"] {
        let once = qualify_image_name(name);
        assert_eq!(qualify_image_name(&once), once, "{name}");
    }
    assert_eq!(qualify_image_name("ubuntu"), "docker.io/library/ubuntu");
    assert_eq!(qualify_image_name("user/image"), "docker.io/user/image");
}

#[test]
fn truncated_diagnostics_fit_the_limit() {
    let long = "é".repeat(10_000);
    let truncated = truncate_diagnostic(&long);
    let note = "\n... truncated compose diagnostic output after 16384 bytes ...";
    assert!(truncated.ends_with(note));
    let kept = &truncated[..truncated.len() - note.len()];
    assert_eq!(kept.len(), 16384);
    assert!(long.starts_with(kept));
    assert_eq!(truncate_diagnostic("short"), "short");
}
