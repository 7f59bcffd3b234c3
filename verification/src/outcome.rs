//! What the `build`, `up`, `set-up` and `run-user-commands` commands report
//! when they succeed: a JSON object.

use vstd::prelude::*;
use crate::compose_override::clone_json;
use crate::json::{entries_view, JsonValue, JsonView};
use crate::options::{has_flag, spec_has_flag};
use crate::text::{from_chars, str_views, to_chars};
use crate::workspace::{remote_user, spec_remote_user};

verus! {

fn text_value(s: &str) -> (r: JsonValue)
    ensures
        r@ == JsonView::Str(s@),
{
    JsonValue::String(from_chars(&to_chars(s)))
}

/// The configuration where the flag asks for it, else null.
pub open spec fn included(args: Seq<Seq<char>>, flag: Seq<char>, configuration: JsonView) -> JsonView {
    if spec_has_flag(args, flag) {
        configuration
    } else {
        JsonView::Null
    }
}

fn included_exec(args: &[String], flag: &str, configuration: &JsonValue) -> (r: JsonValue)
    ensures
        r@ == included(str_views(args@), flag@, configuration@),
{
    if has_flag(args, flag) {
        clone_json(configuration)
    } else {
        JsonValue::Null
    }
}

proof fn lemma_entries_literal(e: Seq<(String, JsonValue)>)
    ensures
        entries_view(e).len() == e.len(),
        forall|i: int| 0 <= i < e.len() ==> #[trigger] entries_view(e)[i] == (e[i].0@, e[i].1@),
{
    crate::json::lemma_entries_view(e);
}

/// The report of `set-up`.
pub open spec fn spec_set_up_outcome(args: Seq<Seq<char>>, container_id: Seq<char>, configuration: JsonView, remote_workspace_folder: Seq<char>) -> JsonView {
    JsonView::Object(seq![
        ("outcome"@, JsonView::Str("success"@)),
        ("command"@, JsonView::Str("set-up"@)),
        ("containerId"@, JsonView::Str(container_id)),
        ("configuration"@, included(args, "--include-configuration"@, configuration)),
        ("mergedConfiguration"@, included(args, "--include-merged-configuration"@, configuration)),
        ("remoteWorkspaceFolder"@, JsonView::Str(remote_workspace_folder)),
    ])
}

pub fn set_up_outcome(args: &[String], container_id: &str, configuration: &JsonValue, remote_workspace_folder: &str) -> (r: JsonValue)
    ensures
        r@ == spec_set_up_outcome(str_views(args@), container_id@, configuration@, remote_workspace_folder@),
{
    let entries: Vec<(String, JsonValue)> = vec![
        (from_chars(&to_chars("outcome")), text_value("success")),
        (from_chars(&to_chars("command")), text_value("set-up")),
        (from_chars(&to_chars("containerId")), text_value(container_id)),
        (from_chars(&to_chars("configuration")), included_exec(args, "--include-configuration", configuration)),
        (from_chars(&to_chars("mergedConfiguration")), included_exec(args, "--include-merged-configuration", configuration)),
        (from_chars(&to_chars("remoteWorkspaceFolder")), text_value(remote_workspace_folder)),
    ];
    proof {
        lemma_entries_literal(entries@);
        reveal_strlit("outcome");
        reveal_strlit("command");
        reveal_strlit("containerId");
        reveal_strlit("configuration");
        reveal_strlit("mergedConfiguration");
        reveal_strlit("remoteWorkspaceFolder");
    }
    assert(entries_view(entries@) =~= spec_set_up_outcome(str_views(args@), container_id@, configuration@, remote_workspace_folder@)->Object_0);
    JsonValue::Object(entries)
}

/// The report of `run-user-commands`.
pub open spec fn spec_run_user_commands_outcome(container_id: Seq<char>, remote_workspace_folder: Seq<char>) -> JsonView {
    JsonView::Object(seq![
        ("outcome"@, JsonView::Str("success"@)),
        ("command"@, JsonView::Str("run-user-commands"@)),
        ("containerId"@, JsonView::Str(container_id)),
        ("remoteWorkspaceFolder"@, JsonView::Str(remote_workspace_folder)),
    ])
}

pub fn run_user_commands_outcome(container_id: &str, remote_workspace_folder: &str) -> (r: JsonValue)
    ensures
        r@ == spec_run_user_commands_outcome(container_id@, remote_workspace_folder@),
{
    let entries: Vec<(String, JsonValue)> = vec![
        (from_chars(&to_chars("outcome")), text_value("success")),
        (from_chars(&to_chars("command")), text_value("run-user-commands")),
        (from_chars(&to_chars("containerId")), text_value(container_id)),
        (from_chars(&to_chars("remoteWorkspaceFolder")), text_value(remote_workspace_folder)),
    ];
    proof {
        lemma_entries_literal(entries@);
        reveal_strlit("outcome");
        reveal_strlit("command");
        reveal_strlit("containerId");
        reveal_strlit("remoteWorkspaceFolder");
    }
    assert(entries_view(entries@) =~= spec_run_user_commands_outcome(container_id@, remote_workspace_folder@)->Object_0);
    JsonValue::Object(entries)
}

/// The report of `build`.
pub open spec fn spec_build_outcome(workspace_folder: Seq<char>, config_file: Seq<char>, image_name: Seq<char>, configuration: JsonView) -> JsonView {
    JsonView::Object(seq![
        ("outcome"@, JsonView::Str("success"@)),
        ("command"@, JsonView::Str("build"@)),
        ("workspaceFolder"@, JsonView::Str(workspace_folder)),
        ("configFile"@, JsonView::Str(config_file)),
        ("imageName"@, JsonView::Str(image_name)),
        ("configuration"@, configuration),
    ])
}

pub fn build_outcome(workspace_folder: &str, config_file: &str, image_name: &str, configuration: &JsonValue) -> (r: JsonValue)
    ensures
        r@ == spec_build_outcome(workspace_folder@, config_file@, image_name@, configuration@),
{
    let entries: Vec<(String, JsonValue)> = vec![
        (from_chars(&to_chars("outcome")), text_value("success")),
        (from_chars(&to_chars("command")), text_value("build")),
        (from_chars(&to_chars("workspaceFolder")), text_value(workspace_folder)),
        (from_chars(&to_chars("configFile")), text_value(config_file)),
        (from_chars(&to_chars("imageName")), text_value(image_name)),
        (from_chars(&to_chars("configuration")), clone_json(configuration)),
    ];
    proof {
        lemma_entries_literal(entries@);
        reveal_strlit("outcome");
        reveal_strlit("command");
        reveal_strlit("workspaceFolder");
        reveal_strlit("configFile");
        reveal_strlit("imageName");
        reveal_strlit("configuration");
    }
    assert(entries_view(entries@) =~= spec_build_outcome(workspace_folder@, config_file@, image_name@, configuration@)->Object_0);
    JsonValue::Object(entries)
}

/// What `up` ends with: the container, the compose project where there is
/// one, and the configuration, folders and file it used.
pub struct UpReport {
    pub container_id: String,
    pub compose_project_name: Option<String>,
    pub remote_workspace_folder: String,
    pub workspace_folder: String,
    pub config_file: String,
}

/// The report of `up`: with the remote user of the configuration, and the
/// configuration itself where the flags ask for it.
pub open spec fn spec_up_outcome(
    args: Seq<Seq<char>>,
    container_id: Seq<char>,
    compose_project_name: Option<Seq<char>>,
    configuration: JsonView,
    remote_workspace_folder: Seq<char>,
    workspace_folder: Seq<char>,
    config_file: Seq<char>,
) -> JsonView {
    JsonView::Object(seq![
        ("outcome"@, JsonView::Str("success"@)),
        ("command"@, JsonView::Str("up"@)),
        ("containerId"@, JsonView::Str(container_id)),
        ("composeProjectName"@, match compose_project_name {
            Some(n) => JsonView::Str(n),
            None => JsonView::Null,
        }),
        ("remoteUser"@, JsonView::Str(spec_remote_user(configuration))),
        ("remoteWorkspaceFolder"@, JsonView::Str(remote_workspace_folder)),
        ("configuration"@, included(args, "--include-configuration"@, configuration)),
        ("mergedConfiguration"@, included(args, "--include-merged-configuration"@, configuration)),
        ("workspaceFolder"@, JsonView::Str(workspace_folder)),
        ("configFile"@, JsonView::Str(config_file)),
    ])
}

pub fn up_outcome(args: &[String], report: &UpReport, configuration: &JsonValue) -> (r: JsonValue)
    ensures
        r@ == spec_up_outcome(
            str_views(args@),
            report.container_id@,
            crate::options::opt_str(report.compose_project_name),
            configuration@,
            report.remote_workspace_folder@,
            report.workspace_folder@,
            report.config_file@,
        ),
{
    let project = match &report.compose_project_name {
        Some(n) => text_value(n.as_str()),
        None => JsonValue::Null,
    };
    let user = remote_user(configuration);
    let entries: Vec<(String, JsonValue)> = vec![
        (from_chars(&to_chars("outcome")), text_value("success")),
        (from_chars(&to_chars("command")), text_value("up")),
        (from_chars(&to_chars("containerId")), text_value(report.container_id.as_str())),
        (from_chars(&to_chars("composeProjectName")), project),
        (from_chars(&to_chars("remoteUser")), text_value(user.as_str())),
        (from_chars(&to_chars("remoteWorkspaceFolder")), text_value(report.remote_workspace_folder.as_str())),
        (from_chars(&to_chars("configuration")), included_exec(args, "--include-configuration", configuration)),
        (from_chars(&to_chars("mergedConfiguration")), included_exec(args, "--include-merged-configuration", configuration)),
        (from_chars(&to_chars("workspaceFolder")), text_value(report.workspace_folder.as_str())),
        (from_chars(&to_chars("configFile")), text_value(report.config_file.as_str())),
    ];
    proof {
        lemma_entries_literal(entries@);
        reveal_strlit("outcome");
        reveal_strlit("command");
        reveal_strlit("containerId");
        reveal_strlit("composeProjectName");
        reveal_strlit("remoteUser");
        reveal_strlit("remoteWorkspaceFolder");
        reveal_strlit("configuration");
        reveal_strlit("mergedConfiguration");
        reveal_strlit("workspaceFolder");
        reveal_strlit("configFile");
    }
    assert(entries_view(entries@) =~= spec_up_outcome(
        str_views(args@),
        report.container_id@,
        crate::options::opt_str(report.compose_project_name),
        configuration@,
        report.remote_workspace_folder@,
        report.workspace_folder@,
        report.config_file@,
    )->Object_0);
    JsonValue::Object(entries)
}

/// A report as text (see `json_text`).
pub fn outcome_text(outcome: &JsonValue) -> (r: String)
    ensures
        r@ == crate::metadata::json_text(outcome@),
{
    crate::metadata::json_value_text(outcome)
}

} // verus!
