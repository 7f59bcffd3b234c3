use devcontainer::compose::sanitize_project_name;
use devcontainer::compose_project::{
    compose_files, compose_files_from_env, default_compose_files, compose_name_from_text, compose_project_name, dotenv_value,
};
use devcontainer::json::JsonValue;

const PLAIN_COMPOSE: &str = "services:\n  app:\n    image: alpine:3.20\n";

fn no_env() -> Vec<(String, String)> {
    Vec::new()
}

fn config(entries: Vec<(&str, JsonValue)>) -> JsonValue {
    JsonValue::Object(entries.into_iter().map(|(k, v)| (k.to_string(), v)).collect())
}

fn text(value: &str) -> JsonValue {
    JsonValue::String(value.to_string())
}

fn strings(values: &[&str]) -> Vec<String> {
    values.iter().map(|v| v.to_string()).collect()
}

fn unused_defaults() -> Result<Vec<String>, String> {
    panic!("default files must not be asked for")
}

#[test]
fn compose_project_name_reports_missing_files_and_sanitizes_names() {
    assert_eq!(sanitize_project_name("My Project! 123"), "myproject123");
    assert!(compose_project_name(None, None, None, &Vec::new(), &no_env())
        .expect_err("missing compose files should fail")
        .contains("at least one compose file"));
}

#[test]
fn compose_project_name_honors_environment_before_files() {
    let project_name =
        compose_project_name(Some("Env Project!"), None, None, &Vec::new(), &no_env()).expect("env project name");

    assert_eq!(project_name, "envproject");
}

#[test]
fn project_name_defaults_to_parent_of_devcontainer_folder() {
    let folder = Some((Some(".devcontainer".to_string()), Some("My-Workspace".to_string())));
    let name = compose_project_name(None, folder, None, &strings(&[PLAIN_COMPOSE]), &no_env()).expect("project name");
    assert_eq!(name, "my-workspace_devcontainer");
}

#[test]
fn project_name_defaults_to_compose_folder_name() {
    let folder = Some((Some("Compose_Dir".to_string()), Some("root".to_string())));
    let name = compose_project_name(None, folder, None, &strings(&[PLAIN_COMPOSE]), &no_env()).expect("project name");
    assert_eq!(name, "compose_dir");
}

#[test]
fn project_name_without_folder_names_falls_back_to_devcontainer() {
    let name = compose_project_name(None, Some((None, None)), None, &Vec::new(), &no_env()).expect("project name");
    assert_eq!(name, "devcontainer");
    let nested = compose_project_name(None, Some((Some(".devcontainer".to_string()), None)), None, &Vec::new(), &no_env())
        .expect("project name");
    assert_eq!(nested, "devcontainer_devcontainer");
}

#[test]
fn project_name_reads_dotenv_before_compose_names() {
    let folder = Some((Some("compose".to_string()), None));
    let dotenv = "\n# comment\nCOMPOSE_PROJECT_NAME=Env_Project\n";
    let files = strings(&["name: Named-Project\n"]);
    let name = compose_project_name(None, folder, Some(dotenv), &files, &no_env()).expect("dotenv project name");
    assert_eq!(name, "env_project");
}

#[test]
fn project_name_reads_top_level_name_of_last_named_file() {
    let folder = Some((Some("compose".to_string()), None));
    let files = strings(&["name: First\n", "name: Named-Project\nservices:\n  app:\n    image: alpine:3.20\n", PLAIN_COMPOSE]);
    let name = compose_project_name(None, folder, None, &files, &no_env()).expect("project name");
    assert_eq!(name, "named-project");
}

#[test]
fn project_name_ignores_blank_environment_values() {
    let folder = Some((Some("Workspace".to_string()), None));
    let name = compose_project_name(Some("  "), folder, Some("OTHER=1\nCOMPOSE_PROJECT_NAME=   \n"), &strings(&[PLAIN_COMPOSE]), &no_env())
        .expect("project name");
    assert_eq!(name, "workspace");
}

#[test]
fn dotenv_value_trims_lines_and_skips_blank_values() {
    assert_eq!(dotenv_value("  KEY= first \nKEY=second\n", "KEY=").as_deref(), Some("first"));
    assert_eq!(dotenv_value("KEY=\nKEY=second\n", "KEY=").as_deref(), Some("second"));
    assert_eq!(dotenv_value("# KEY=x\nOTHER=1\n", "KEY="), None);
    assert_eq!(dotenv_value("", "KEY="), None);
}

#[test]
fn compose_name_ignores_nested_names_and_unquotes_values() {
    let name = compose_name_from_text("services:\n  app:\n    name: Nested\nname: 'Quoted-Project'\n", &no_env());
    assert_eq!(name.as_deref(), Some("Quoted-Project"));
    assert_eq!(compose_name_from_text("name: Custom-Project-Name\n", &no_env()).as_deref(), Some("Custom-Project-Name"));
    assert_eq!(compose_name_from_text("\tname: tabbed\nname:   \n", &no_env()), None);
}

#[test]
fn compose_name_interpolates_defaults_and_environment() {
    let name = compose_name_from_text("name: ${MISSING_VARIABLE:-MyProj}\n", &no_env()).expect("name");
    assert_eq!(name, "MyProj");
    assert_eq!(sanitize_project_name(&name), "myproj");
    let dashed = compose_name_from_text("name: ${MISSING_VARIABLE-MyProj}\n", &no_env()).expect("name");
    assert_eq!(dashed, "MyProj");
    let env = vec![("PROJECT".to_string(), "FromEnv".to_string())];
    assert_eq!(compose_name_from_text("name: prefix-$PROJECT\n", &env).as_deref(), Some("prefix-FromEnv"));
}

#[test]
fn compose_files_accept_strings_and_arrays_and_reject_invalid_entries() {
    let root = "/work/.devcontainer";
    assert_eq!(
        compose_files(&config(vec![("dockerComposeFile", text("docker-compose.yml"))]), root, unused_defaults)
            .expect("single file"),
        strings(&["/work/.devcontainer/docker-compose.yml"])
    );
    assert_eq!(
        compose_files(
            &config(vec![("dockerComposeFile", JsonValue::Array(vec![text("one.yml"), text("/abs/two.yml")]))]),
            root,
            unused_defaults,
        )
        .expect("array files"),
        strings(&["/work/.devcontainer/one.yml", "/abs/two.yml"])
    );
    assert!(compose_files(
        &config(vec![("dockerComposeFile", JsonValue::Array(vec![JsonValue::Number("1".to_string())]))]),
        root,
        unused_defaults,
    )
    .expect_err("invalid entry")
    .contains("entries must be strings"));
    assert!(compose_files(&config(vec![("dockerComposeFile", JsonValue::Bool(true))]), root, unused_defaults)
        .expect_err("invalid type")
        .contains("string or array"));
    assert!(compose_files(&config(vec![]), root, unused_defaults)
        .expect_err("missing file")
        .contains("must define dockerComposeFile"));
}

#[test]
fn compose_files_use_defaults_for_empty_array() {
    let defaults = || Ok(strings(&["/work/compose.yml", "/work/sub/extra.yml"]));
    assert_eq!(
        compose_files(&config(vec![("dockerComposeFile", JsonValue::Array(Vec::new()))]), "/work/.devcontainer", defaults)
            .expect("default files"),
        strings(&["/work/compose.yml", "/work/sub/extra.yml"])
    );
}

#[test]
fn compose_files_from_env_resolves_relative_entries() {
    assert_eq!(
        compose_files_from_env(Some("compose.yml:sub/extra.yml:/abs/other.yml"), "/work", ':'),
        Some(strings(&["/work/compose.yml", "/work/sub/extra.yml", "/abs/other.yml"]))
    );
    assert_eq!(compose_files_from_env(None, "/work", ':'), None);
}

#[test]
fn default_compose_files_prefer_environment_then_dotenv_then_standard_files() {
    assert_eq!(
        default_compose_files(Some("a.yml:/abs/b.yml"), Some("COMPOSE_FILE=ignored.yml\n"), "/work", ':', true),
        strings(&["/work/a.yml", "/abs/b.yml"])
    );
    assert_eq!(
        default_compose_files(None, Some("COMPOSE_FILE=compose.yml:sub/extra.yml\n"), "/work", ':', true),
        strings(&["/work/compose.yml", "/work/sub/extra.yml"])
    );
    assert_eq!(
        default_compose_files(None, Some("COMPOSE_FILE=  \n"), "/work", ':', true),
        strings(&["/work/docker-compose.yml", "/work/docker-compose.override.yml"])
    );
    assert_eq!(default_compose_files(None, None, "/work/", ':', false), strings(&["/work/docker-compose.yml"]));
}
