use std::cell::RefCell;

use devcontainer::compose::ComposeSpec;
use devcontainer::compose_services::{
    compose_service_dependencies, compose_services_to_start, pull_args_exec, pull_compose_images_with_override,
    pull_plan, remote_service_closure,
};
use devcontainer::engine::{ProcessRequest, ProcessResult};
use devcontainer::json::JsonValue;
use devcontainer::options::EnvDefaults;

fn to_json(value: &serde_json::Value) -> JsonValue {
    match value {
        serde_json::Value::Null => JsonValue::Null,
        serde_json::Value::Bool(b) => JsonValue::Bool(*b),
        serde_json::Value::Number(n) => JsonValue::Number(n.to_string()),
        serde_json::Value::String(s) => JsonValue::String(s.clone()),
        serde_json::Value::Array(items) => JsonValue::Array(items.iter().map(to_json).collect()),
        serde_json::Value::Object(entries) => JsonValue::Object(
            entries.iter().map(|(k, v)| (k.clone(), to_json(v))).collect(),
        ),
    }
}

fn parse_text(text: String) -> Result<JsonValue, String> {
    serde_json::from_str::<serde_json::Value>(&text).map(|v| to_json(&v)).map_err(|e| e.to_string())
}

fn entries(text: &str) -> Vec<(String, JsonValue)> {
    match parse_text(text.to_string()).expect("json") {
        JsonValue::Object(e) => e,
        _ => panic!("object expected"),
    }
}

fn strings(values: &[&str]) -> Vec<String> {
    values.iter().map(|v| v.to_string()).collect()
}

const SERVICES: &str = r#"{
    "app": {"build": ".", "depends_on": {"db": {"condition": "service_healthy"}}, "links": ["cache:alias", "container:x"],
            "network_mode": "service:proxy"},
    "db": {"image": "postgres:16", "platform": "linux/amd64"},
    "cache": {"image": "redis:7", "volumes_from": ["db:ro"]},
    "proxy": {"image": "postgres:16", "platform": "linux/amd64"},
    "other": {"image": "busybox", "build": null},
    "blank": {"image": "  "}
}"#;

#[test]
fn service_dependencies_follow_depends_on_links_and_service_modes() {
    let services = entries(SERVICES);
    let app = match &services.iter().find(|(k, _)| k == "app").unwrap().1 {
        JsonValue::Object(d) => d.clone(),
        _ => panic!(),
    };
    assert_eq!(compose_service_dependencies(&app), strings(&["db", "cache", "proxy"]));
    assert_eq!(compose_service_dependencies(&entries(r#"{"depends_on":["a","b"],"pid":"host"}"#)), strings(&["a", "b"]));
}

#[test]
fn remote_closure_visits_dependencies_first_and_skips_builds() {
    let services = entries(SERVICES);
    let closure = remote_service_closure(&services, Some(&strings(&["app"]))).expect("closure");
    assert_eq!(closure, strings(&["db", "cache", "proxy"]));
    let all = remote_service_closure(&services, None).expect("closure");
    assert_eq!(all.len(), 4);
    assert!(all.contains(&"other".to_string()));
    assert!(!all.contains(&"blank".to_string()));
    assert_eq!(
        remote_service_closure(&services, Some(&strings(&["missing"]))),
        Err("Unable to locate compose service `missing` in resolved configuration".to_string())
    );
}

#[test]
fn pulls_each_image_and_platform_once() {
    let services = entries(SERVICES);
    let plan = pull_plan(&services, &strings(&["db", "cache", "proxy"]));
    assert_eq!(
        plan,
        vec![
            ("postgres:16".to_string(), Some("linux/amd64".to_string())),
            ("redis:7".to_string(), None),
        ]
    );
    assert_eq!(pull_args_exec("redis:7", &None), strings(&["pull", "redis:7"]));
    assert_eq!(
        pull_args_exec("postgres:16", &Some("linux/amd64".to_string())),
        strings(&["pull", "--platform", "linux/amd64", "postgres:16"])
    );
}

#[test]
fn services_to_start_add_the_main_service() {
    let configuration = parse_text(r#"{"runServices":["db","cache"]}"#.to_string()).unwrap();
    assert_eq!(compose_services_to_start(&configuration, "app"), Some(strings(&["db", "cache", "app"])));
    assert_eq!(compose_services_to_start(&configuration, "db"), Some(strings(&["db", "cache"])));
    let empty = parse_text(r#"{"runServices":[]}"#.to_string()).unwrap();
    assert_eq!(compose_services_to_start(&empty, "app"), None);
}

fn spec() -> ComposeSpec {
    ComposeSpec {
        files: strings(&["/w/docker-compose.yml"]),
        service: "app".to_string(),
        image: None,
        has_build: true,
        user: None,
        project_name: "proj".to_string(),
    }
}

#[test]
fn pull_compose_images_pulls_the_remote_closure() {
    let pulls: RefCell<Vec<Vec<String>>> = RefCell::new(Vec::new());
    let run_compose = |args: Vec<String>| {
        assert_eq!(args, strings(&["--project-name", "proj", "-f", "/w/docker-compose.yml", "config"]));
        Ok(ProcessResult { status_code: 0, stdout: format!(r#"{{"services":{}}}"#, SERVICES), stderr: String::new() })
    };
    let run_engine = |request: ProcessRequest| {
        pulls.borrow_mut().push(request.args.clone());
        Ok(ProcessResult { status_code: 0, stdout: String::new(), stderr: String::new() })
    };
    let selected = strings(&["app"]);
    pull_compose_images_with_override(
        &[],
        &EnvDefaults::default(),
        &spec(),
        Some(&selected),
        None,
        &run_compose,
        &run_engine,
    )
    .expect("pull");
    assert_eq!(
        pulls.into_inner(),
        vec![strings(&["pull", "--platform", "linux/amd64", "postgres:16"]), strings(&["pull", "redis:7"])]
    );
}

#[test]
fn pull_compose_images_reports_configuration_errors() {
    let run_engine = |_request: ProcessRequest| -> Result<ProcessResult, String> { panic!("no pulls") };
    let failing = |_args: Vec<String>| Ok(ProcessResult { status_code: 1, stdout: String::new(), stderr: "bad compose".to_string() });
    assert_eq!(
        pull_compose_images_with_override(&[], &EnvDefaults::default(), &spec(), None, None, &failing, &run_engine),
        Err("bad compose".to_string())
    );
    let no_services = |_args: Vec<String>| Ok(ProcessResult { status_code: 0, stdout: "{}".to_string(), stderr: String::new() });
    assert_eq!(
        pull_compose_images_with_override(&[], &EnvDefaults::default(), &spec(), None, None, &no_services, &run_engine),
        Err("Resolved Compose configuration does not define services".to_string())
    );
    let garbage = |_args: Vec<String>| Ok(ProcessResult { status_code: 0, stdout: "{".to_string(), stderr: String::new() });
    let error = pull_compose_images_with_override(&[], &EnvDefaults::default(), &spec(), None, None, &garbage, &run_engine)
        .expect_err("parse error");
    assert!(error.starts_with("Unable to parse resolved Compose configuration: "));
}
