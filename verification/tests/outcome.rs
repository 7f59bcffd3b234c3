use devcontainer::json::JsonValue;
use devcontainer::outcome::{build_outcome, outcome_text, run_user_commands_outcome, set_up_outcome, up_outcome, UpReport};

fn configuration() -> JsonValue {
    JsonValue::Object(vec![("remoteUser".to_string(), JsonValue::String("vscode".to_string()))])
}

fn parsed(outcome: &JsonValue) -> serde_json::Value {
    serde_json::from_str(&outcome_text(outcome)).expect("outcome json")
}

#[test]
fn set_up_reports_the_configuration_only_when_asked() {
    let plain = parsed(&set_up_outcome(&[], "c1", &configuration(), "/w"));
    assert_eq!(plain["outcome"], "success");
    assert_eq!(plain["command"], "set-up");
    assert_eq!(plain["containerId"], "c1");
    assert_eq!(plain["remoteWorkspaceFolder"], "/w");
    assert!(plain["configuration"].is_null());
    assert!(plain["mergedConfiguration"].is_null());
    let args = vec!["--include-merged-configuration".to_string()];
    let merged = parsed(&set_up_outcome(&args, "c1", &configuration(), "/w"));
    assert!(merged["configuration"].is_null());
    assert_eq!(merged["mergedConfiguration"]["remoteUser"], "vscode");
}

#[test]
fn run_user_commands_and_build_report_their_results() {
    let report = parsed(&run_user_commands_outcome("c2", "/workspaces/x"));
    assert_eq!(report["command"], "run-user-commands");
    assert_eq!(report["containerId"], "c2");
    assert_eq!(report["remoteWorkspaceFolder"], "/workspaces/x");
    let build = parsed(&build_outcome("/x", "/x/.devcontainer.json", "img:1", &configuration()));
    assert_eq!(build["command"], "build");
    assert_eq!(build["imageName"], "img:1");
    assert_eq!(build["configFile"], "/x/.devcontainer.json");
    assert_eq!(build["configuration"]["remoteUser"], "vscode");
}

#[test]
fn up_reports_the_remote_user_and_compose_project() {
    let report = UpReport {
        container_id: "c3".to_string(),
        compose_project_name: None,
        remote_workspace_folder: "/workspaces/x".to_string(),
        workspace_folder: "/x".to_string(),
        config_file: "/x/.devcontainer.json".to_string(),
    };
    let args = vec!["--include-configuration".to_string()];
    let up = parsed(&up_outcome(&args, &report, &configuration()));
    assert_eq!(up["command"], "up");
    assert_eq!(up["remoteUser"], "vscode");
    assert!(up["composeProjectName"].is_null());
    assert_eq!(up["configuration"]["remoteUser"], "vscode");
    assert!(up["mergedConfiguration"].is_null());
    let with_project = UpReport { compose_project_name: Some("proj".to_string()), ..report };
    let up = parsed(&up_outcome(&[], &with_project, &JsonValue::Object(Vec::new())));
    assert_eq!(up["composeProjectName"], "proj");
    assert_eq!(up["remoteUser"], "root");
}
