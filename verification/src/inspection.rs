//! What an existing container tells of its context: the configuration its
//! metadata records, its user, and the folder its workspace is mounted at.

use vstd::prelude::*;
use crate::compose_override::object_insert;
use crate::discovery::{normalize_devcontainer_label_path_for_platform, opt_text, spec_normalize_label_path, ResolvedTargetContainer};
use crate::engine::{engine_request, spec_engine_request, spec_stderr_or_stdout, stderr_or_stdout, ProcessRequest, ProcessResult};
use crate::json::{parse_json_text, parses_json, get_str, get_str_exec, items_view, json_get, json_view, lemma_items_view, JsonValue, JsonView};
use crate::metadata::{merged_container_metadata, metadata_entries, spec_merged_settings, spec_metadata_entries};
use crate::options::{opt_str, EnvDefaults};
use crate::text::{from_chars, push_str, str_views, to_chars};
use crate::workspace::{configured_user, default_remote_workspace_folder, spec_configured_user, spec_default_remote_workspace_folder};

verus! {

/// The destination of the first mount whose source is the local workspace
/// folder (both normalized for the platform) and that has a destination.
pub open spec fn matching_destination(mounts: Seq<JsonView>, local: Seq<char>, platform: Seq<char>) -> Option<Seq<char>>
    decreases mounts.len(),
{
    if mounts.len() == 0 {
        None
    } else {
        let source = match get_str(mounts[0], "Source"@) {
            Some(s) => Some(spec_normalize_label_path(platform, s)),
            None => None,
        };
        if source == Some(local) && get_str(mounts[0], "Destination"@) is Some {
            get_str(mounts[0], "Destination"@)
        } else {
            matching_destination(mounts.drop_first(), local, platform)
        }
    }
}

/// The destination of the first mount that has one.
pub open spec fn first_destination(mounts: Seq<JsonView>) -> Option<Seq<char>>
    decreases mounts.len(),
{
    if mounts.len() == 0 {
        None
    } else if get_str(mounts[0], "Destination"@) is Some {
        get_str(mounts[0], "Destination"@)
    } else {
        first_destination(mounts.drop_first())
    }
}

/// Where the workspace is mounted in an inspected container: the destination
/// of the mount of the local workspace folder, else of the first mount.
pub open spec fn spec_inspect_workspace_mount(details: JsonView, local_workspace_folder: Option<Seq<char>>, platform: Seq<char>) -> Option<Seq<char>> {
    match json_get(details, "Mounts"@) {
        Some(JsonView::Array(mounts)) => match local_workspace_folder {
            Some(l) => match matching_destination(mounts, spec_normalize_label_path(platform, l), platform) {
                Some(d) => Some(d),
                None => first_destination(mounts),
            },
            None => first_destination(mounts),
        },
        _ => None,
    }
}

pub fn inspect_workspace_mount(details: &JsonValue, local_workspace_folder: Option<&str>, platform: &str) -> (r: Option<String>)
    ensures
        opt_str(r) == spec_inspect_workspace_mount(details@, opt_text(local_workspace_folder), platform@),
{
    let mounts = match details.get("Mounts") {
        Some(m) => match m.as_array() {
            Some(a) => a,
            None => return None,
        },
        None => return None,
    };
    proof {
        lemma_items_view(mounts@);
    }
    let ghost mv = items_view(mounts@);
    match local_workspace_folder {
        Some(l) => {
            let local = normalize_devcontainer_label_path_for_platform(platform, l);
            let mut k: usize = 0;
            assert(mv.skip(0) =~= mv);
            while k < mounts.len()
                invariant
                    k <= mounts.len(),
                    mv == items_view(mounts@),
                    mv.len() == mounts@.len(),
                    forall|i: int| 0 <= i < mounts@.len() ==> #[trigger] mv[i] == json_view(mounts@[i]),
                    matching_destination(mv, local@, platform@) == matching_destination(mv.skip(k as int), local@, platform@),
                    json_get(details@, "Mounts"@) == Some(JsonView::Array(mv)),
                    local_workspace_folder == Some(l),
                    local@ == spec_normalize_label_path(platform@, l@),
                decreases mounts.len() - k,
            {
                assert(mv.skip(k as int)[0] == mv[k as int]);
                assert(mv.skip(k as int).drop_first() =~= mv.skip(k + 1));
                let source = match get_str_exec(&mounts[k], "Source") {
                    Some(s) => Some(normalize_devcontainer_label_path_for_platform(platform, s.as_str())),
                    None => None,
                };
                let matches = match &source {
                    Some(s) => crate::options::str_eq(s.as_str(), local.as_str()),
                    None => false,
                };
                if matches {
                    match get_str_exec(&mounts[k], "Destination") {
                        Some(d) => return Some(d),
                        None => {},
                    }
                }
                k = k + 1;
            }
            assert(mv.skip(k as int) =~= Seq::<JsonView>::empty());
        },
        None => {},
    }
    assert(spec_inspect_workspace_mount(details@, opt_text(local_workspace_folder), platform@) == first_destination(mv));
    let mut k: usize = 0;
    assert(mv.skip(0) =~= mv);
    while k < mounts.len()
        invariant
            k <= mounts.len(),
            mv == items_view(mounts@),
            mv.len() == mounts@.len(),
            forall|i: int| 0 <= i < mounts@.len() ==> #[trigger] mv[i] == json_view(mounts@[i]),
            first_destination(mv) == first_destination(mv.skip(k as int)),
            spec_inspect_workspace_mount(details@, opt_text(local_workspace_folder), platform@) == first_destination(mv),
        decreases mounts.len() - k,
    {
        assert(mv.skip(k as int)[0] == mv[k as int]);
        assert(mv.skip(k as int).drop_first() =~= mv.skip(k + 1));
        match get_str_exec(&mounts[k], "Destination") {
            Some(d) => return Some(d),
            None => {},
        }
        k = k + 1;
    }
    assert(mv.skip(k as int) =~= Seq::<JsonView>::empty());
    None
}

/// What an inspected container tells: its configuration, the local folder it
/// was created for and the folder its workspace is at.
#[derive(Debug)]
pub struct InspectedContainerContext {
    pub configuration: JsonValue,
    pub local_workspace_folder: Option<String>,
    pub remote_workspace_folder: Option<String>,
}

/// The user the container runs as, when it names one.
pub open spec fn spec_inspected_user(details: JsonView) -> Option<Seq<char>> {
    match json_get(details, "Config"@) {
        Some(config) => match get_str(config, "User"@) {
            Some(u) => if u.len() > 0 { Some(u) } else { None },
            None => None,
        },
        None => None,
    }
}

/// The configuration completed from the container: with `containerUser` set
/// to the inspected user when the configuration names no user.
pub open spec fn spec_context_configuration(details: JsonView, configuration: JsonView) -> JsonView {
    if spec_configured_user(configuration) is None {
        match (spec_inspected_user(details), configuration) {
            (Some(user), JsonView::Object(entries)) => JsonView::Object(object_insert(entries, "containerUser"@, JsonView::Str(user))),
            _ => configuration,
        }
    } else {
        configuration
    }
}

/// The workspace folder in the container: the configuration's, else the mount's.
pub open spec fn spec_context_remote_folder(details: JsonView, configuration: JsonView, local_workspace_folder: Option<Seq<char>>, platform: Seq<char>) -> Option<Seq<char>> {
    match get_str(configuration, "workspaceFolder"@) {
        Some(w) => Some(w),
        None => spec_inspect_workspace_mount(details, local_workspace_folder, platform),
    }
}

/// What the metadata label gave (`parsed`): nothing without a label; else
/// what parsing as JSON made of it, nothing where it failed.
pub open spec fn spec_metadata_label_parse(
    details: JsonView,
    parsed: Option<JsonView>,
) -> bool {
    match spec_details_label(details, "devcontainer.metadata"@) {
        None => parsed is None,
        Some(text) => exists|t: String, pr: Result<JsonValue, String>|
            t@ == text && #[trigger] parses_json(t, pr) && parsed == parsed_view(pr),
    }
}

/// A parse's value, nothing where it failed.
pub open spec fn parsed_view(pr: Result<JsonValue, String>) -> Option<JsonView> {
    match pr {
        Ok(v) => Some(v@),
        Err(_) => None,
    }
}

/// The configuration the container's metadata gives (`configuration`): the
/// merged settings of the label's entries, with the local folder substituted
/// by `substitute` where the container names one.
pub open spec fn spec_metadata_configuration<S: Fn(JsonValue, String) -> JsonValue>(
    substitute: S,
    details: JsonView,
    configuration: JsonView,
) -> bool {
    exists|parsed: Option<JsonView>|
        #[trigger] spec_metadata_label_parse(details, parsed)
            && spec_substituted(substitute, details, JsonView::Object(spec_merged_settings(spec_metadata_entries(parsed))), configuration)
}

/// `configuration` is `merged` with the local folder substituted by
/// `substitute` where the container names one; else `merged` itself.
pub open spec fn spec_substituted<S: Fn(JsonValue, String) -> JsonValue>(
    substitute: S,
    details: JsonView,
    merged: JsonView,
    configuration: JsonView,
) -> bool {
    match spec_details_label(details, "devcontainer.local_folder"@) {
        None => configuration == merged,
        Some(folder) => exists|c: JsonValue, f: String, out: JsonValue|
            c@ == merged && f@ == folder && #[trigger] call_ensures(substitute, (c, f), out) && out@ == configuration,
    }
}

/// The context of an inspected container from its details and the
/// configuration its metadata gives (with its local variables substituted).
pub fn container_context_from_details(
    details: &JsonValue,
    configuration: JsonValue,
    local_workspace_folder: Option<String>,
    platform: &str,
) -> (r: InspectedContainerContext)
    ensures
        r.configuration@ == spec_context_configuration(details@, configuration@),
        opt_str(r.local_workspace_folder) == opt_str(local_workspace_folder),
        opt_str(r.remote_workspace_folder) == spec_context_remote_folder(
            details@,
            spec_context_configuration(details@, configuration@),
            opt_str(local_workspace_folder),
            platform@,
        ),
{
    let mut configuration = configuration;
    if configured_user(&configuration).is_none() {
        let inspected_user = match details.get("Config") {
            Some(config) => match get_str_exec(config, "User") {
                Some(u) => if to_chars(u.as_str()).len() > 0 { Some(u) } else { None },
                None => None,
            },
            None => None,
        };
        match inspected_user {
            Some(user) => {
                configuration = match configuration {
                    JsonValue::Object(entries) => {
                        let mut entries = entries;
                        crate::compose_override::object_insert_exec(&mut entries, "containerUser", JsonValue::String(user));
                        JsonValue::Object(entries)
                    },
                    other => other,
                };
            },
            None => {},
        }
    }
    let local_ref = match &local_workspace_folder {
        Some(l) => Some(l.as_str()),
        None => None,
    };
    let remote = match get_str_exec(&configuration, "workspaceFolder") {
        Some(w) => Some(w),
        None => inspect_workspace_mount(details, local_ref, platform),
    };
    InspectedContainerContext { configuration, local_workspace_folder, remote_workspace_folder: remote }
}

pub open spec fn inspect_details_missing() -> Seq<char> {
    "Container engine did not return inspect details"@
}

/// The labels object of the details, when there is one.
pub open spec fn spec_details_label(details: JsonView, key: Seq<char>) -> Option<Seq<char>> {
    match json_get(details, "Config"@) {
        Some(config) => match json_get(config, "Labels"@) {
            Some(JsonView::Object(labels)) => match crate::json::entry_value(labels, key) {
                Some(v) => crate::json::json_str(v),
                None => None,
            },
            _ => None,
        },
        None => None,
    }
}

fn details_label(details: &JsonValue, key: &str) -> (r: Option<String>)
    ensures
        opt_str(r) == spec_details_label(details@, key@),
{
    match details.get("Config") {
        Some(config) => match config.get("Labels") {
            Some(labels) => match labels {
                JsonValue::Object(_) => get_str_exec(labels, key),
                _ => None,
            },
            None => None,
        },
        None => None,
    }
}

pub open spec fn context_result_view(r: Result<InspectedContainerContext, String>) -> Result<(JsonView, Option<Seq<char>>, Option<Seq<char>>), Seq<char>> {
    match r {
        Ok(c) => Ok((c.configuration@, opt_str(c.local_workspace_folder), opt_str(c.remote_workspace_folder))),
        Err(e) => Err(e@),
    }
}

/// The context of an existing container: `run_engine` runs `inspect <id>` (a
/// failure to run or a non-zero status is an error); its output and the
/// metadata label are parsed as JSON, see `json_document` (the output's parse
/// error is reported as invalid inspect JSON; unreadable metadata counts as
/// none); the first details are read,
/// the merged metadata has its local variables substituted by `substitute`
/// when the local folder label is present, and the context is completed as
/// `container_context_from_details` does.
pub fn inspect_container_context<
    F: Fn(ProcessRequest) -> Result<ProcessResult, String>,
    S: Fn(JsonValue, String) -> JsonValue,
>(
    args: &[String],
    env: &EnvDefaults,
    platform: &str,
    container_id: &str,
    run_engine: &F,
    substitute: &S,
) -> (r: Result<InspectedContainerContext, String>)
    requires
        forall|req: ProcessRequest| call_requires(*run_engine, (req,)),
        forall|c: JsonValue, f: String| call_requires(*substitute, (c, f)),
    ensures
        exists|req: ProcessRequest, c: Result<ProcessResult, String>|
            req@ == spec_engine_request(str_views(args@), *env, seq!["inspect"@, container_id@])
                && #[trigger] call_ensures(*run_engine, (req,), c) && match c {
                Err(e) => context_result_view(r) == Err::<(JsonView, Option<Seq<char>>, Option<Seq<char>>), Seq<char>>(e@),
                Ok(p) => if p.status_code != 0 {
                    context_result_view(r) == Err::<(JsonView, Option<Seq<char>>, Option<Seq<char>>), Seq<char>>(
                        spec_stderr_or_stdout(p.stdout@, p.stderr@),
                    )
                } else {
                    exists|t: String, parsed: Result<JsonValue, String>|
                        t@ == p.stdout@ && #[trigger] parses_json(t, parsed) && match parsed {
                            Err(e) => context_result_view(r) == Err::<(JsonView, Option<Seq<char>>, Option<Seq<char>>), Seq<char>>(
                                "Invalid inspect JSON: "@ + e@,
                            ),
                            Ok(v) => match v@ {
                                JsonView::Array(items) => if items.len() > 0 {
                                    r is Ok && exists|configuration: JsonView|
                                        #[trigger] spec_metadata_configuration(*substitute, items[0], configuration)
                                            && r->Ok_0.configuration@ == spec_context_configuration(items[0], configuration)
                                            && opt_str(r->Ok_0.local_workspace_folder)
                                            == spec_details_label(items[0], "devcontainer.local_folder"@)
                                            && opt_str(r->Ok_0.remote_workspace_folder) == spec_context_remote_folder(
                                                items[0],
                                                spec_context_configuration(items[0], configuration),
                                                spec_details_label(items[0], "devcontainer.local_folder"@),
                                                platform@,
                                            )
                                } else {
                                    context_result_view(r) == Err::<(JsonView, Option<Seq<char>>, Option<Seq<char>>), Seq<char>>(
                                        inspect_details_missing(),
                                    )
                                },
                                _ => context_result_view(r) == Err::<(JsonView, Option<Seq<char>>, Option<Seq<char>>), Seq<char>>(
                                    inspect_details_missing(),
                                ),
                            },
                        }
                },
            },
{
    let mut engine_args: Vec<String> = Vec::new();
    crate::exec::push_string(&mut engine_args, "inspect");
    crate::exec::push_string(&mut engine_args, container_id);
    assert(str_views(engine_args@) =~= seq!["inspect"@, container_id@]);
    let request = engine_request(args, env, engine_args);
    let ghost req = request;
    let c = run_engine(request);
    assert(call_ensures(*run_engine, (req,), c));
    let stdout = match &c {
        Err(e) => return Err(e.clone()),
        Ok(p) => {
            if p.status_code != 0 {
                return Err(stderr_or_stdout(p));
            }
            from_chars(&to_chars(p.stdout.as_str()))
        },
    };
    let ghost tg = stdout;
    let parsed_result = parse_json_text(&stdout);
    assert(parses_json(tg, parsed_result));
    let inspected = match parsed_result {
        Ok(v) => v,
        Err(e) => {
            let mut m = to_chars("Invalid inspect JSON: ");
            push_str(&mut m, e.as_str());
            return Err(from_chars(&m));
        },
    };
    let details = match &inspected {
        JsonValue::Array(items) => {
            proof {
                lemma_items_view(items@);
                if items.len() > 0 {
                    assert(items_view(items@)[0] == json_view(items@[0]));
                }
            }
            if items.len() == 0 {
                return Err(from_chars(&to_chars("Container engine did not return inspect details")));
            }
            &items[0]
        },
        _ => return Err(from_chars(&to_chars("Container engine did not return inspect details"))),
    };
    let local_workspace_folder = details_label(details, "devcontainer.local_folder");
    let ghost dv = details@;
    let ghost mut pv: Option<JsonView> = None;
    let parsed_metadata = match details_label(details, "devcontainer.metadata") {
        Some(text) => {
            let ghost tt = text;
            let pr = parse_json_text(&text);
            proof {
                pv = parsed_view(pr);
                assert(parses_json(tt, pr));
            }
            match pr {
                Ok(v) => Some(v),
                Err(_) => None,
            }
        },
        None => None,
    };
    assert(spec_metadata_label_parse(dv, pv));
    let entries = metadata_entries(parsed_metadata);
    let mut configuration = merged_container_metadata(&entries);
    let ghost merged = configuration@;
    assert(merged == JsonView::Object(spec_merged_settings(spec_metadata_entries(pv))));
    match &local_workspace_folder {
        Some(folder) => {
            let ghost c0 = configuration;
            let f = from_chars(&to_chars(folder.as_str()));
            let ghost f0 = f;
            configuration = substitute(configuration, f);
            assert(call_ensures(*substitute, (c0, f0), configuration));
        },
        None => {},
    }
    let ghost cfg = configuration@;
    assert(spec_substituted(*substitute, dv, merged, cfg));
    assert(spec_metadata_configuration(*substitute, dv, cfg));
    let r = container_context_from_details(details, configuration, local_workspace_folder, platform);
    assert(r.configuration@ == spec_context_configuration(details@, cfg));
    proof {
        let iv = inspected@->Array_0;
        assert(iv[0] == details@);
        assert(parsed_result == Ok::<JsonValue, String>(inspected));
    }
    Ok(r)
}

/// The remote workspace folder of an existing container: the one the
/// configuration gives, else the one its inspection found, else the default
/// for the local folder its inspection found, or for the workspace folder.
pub open spec fn spec_existing_remote_workspace_folder(
    configured: Option<Seq<char>>,
    inspected_remote: Option<Seq<char>>,
    inspected_local: Option<Seq<char>>,
    workspace_folder: Option<Seq<char>>,
) -> Seq<char> {
    match configured {
        Some(c) => c,
        None => match inspected_remote {
            Some(r) => r,
            None => spec_default_remote_workspace_folder(
                match inspected_local {
                    Some(l) => Some(l),
                    None => workspace_folder,
                },
            ),
        },
    }
}

pub fn existing_remote_workspace_folder(
    configured: Option<String>,
    inspected_remote: Option<String>,
    inspected_local: Option<&str>,
    workspace_folder: Option<&str>,
) -> (r: String)
    ensures
        r@ == spec_existing_remote_workspace_folder(
            opt_str(configured),
            opt_str(inspected_remote),
            match inspected_local {
                Some(l) => Some(l@),
                None => None,
            },
            match workspace_folder {
                Some(w) => Some(w@),
                None => None,
            },
        ),
{
    match configured {
        Some(c) => c,
        None => match inspected_remote {
            Some(r) => r,
            None => match inspected_local {
                Some(l) => default_remote_workspace_folder(Some(l)),
                None => default_remote_workspace_folder(workspace_folder),
            },
        },
    }
}

/// What `exec`, `set-up` and `run-user-commands` learn of an existing
/// container: its id, its configuration and the folder to work in there.
#[derive(Debug)]
pub struct ExistingContainerContext {
    pub container_id: String,
    pub configuration: JsonValue,
    pub remote_workspace_folder: String,
}

pub open spec fn existing_context_view(r: Result<ExistingContainerContext, String>) -> Result<(Seq<char>, JsonView, Seq<char>), Seq<char>> {
    match r {
        Ok(c) => Ok((c.container_id@, c.configuration@, c.remote_workspace_folder@)),
        Err(e) => Err(e@),
    }
}

/// Whether the existing container is looked up through compose: a
/// configuration was read, it uses compose, and no `--container-id` was given;
/// else it is matched by its labels or id (see `resolve_target_container_match`).
pub open spec fn spec_existing_context_uses_compose(has_configuration: bool, configuration: JsonView, args: Seq<Seq<char>>) -> bool {
    has_configuration && crate::options::spec_option_value(args, "--container-id"@) is None
        && crate::compose::spec_uses_compose_config(configuration)
}

pub fn existing_context_uses_compose(has_configuration: bool, configuration: &JsonValue, args: &[String]) -> (r: bool)
    ensures
        r == spec_existing_context_uses_compose(has_configuration, configuration@, str_views(args@)),
{
    has_configuration && crate::options::option_value(args, "--container-id").is_none()
        && crate::compose::uses_compose_config(configuration)
}

pub open spec fn not_found_error() -> Seq<char> {
    "Dev container not found."@
}

/// The context of an existing container from what was learned of it, in the
/// order it is learned: the container (by the compose lookup, where it was
/// made, whose finding nothing is an error; else by the target match), then
/// the configuration read with its remote workspace folder (where a
/// configuration file was read), else the container's inspection, whose
/// remote folder falls back as `spec_existing_remote_workspace_folder` says.
/// The first error is the result.
pub open spec fn spec_existing_container_context(
    compose_lookup: Option<Result<Option<Seq<char>>, Seq<char>>>,
    target: Option<Result<Seq<char>, Seq<char>>>,
    configuration: Option<Result<(JsonView, Seq<char>), Seq<char>>>,
    inspected: Option<Result<(JsonView, Option<Seq<char>>, Option<Seq<char>>), Seq<char>>>,
    workspace_folder: Option<Seq<char>>,
) -> Result<(Seq<char>, JsonView, Seq<char>), Seq<char>> {
    let id: Result<Seq<char>, Seq<char>> = match compose_lookup {
        Some(Err(e)) => Err(e),
        Some(Ok(None)) => Err(not_found_error()),
        Some(Ok(Some(id))) => Ok(id),
        None => match target {
            Some(t) => t,
            None => Err(not_found_error()),
        },
    };
    match id {
        Err(e) => Err(e),
        Ok(id) => match configuration {
            Some(Err(e)) => Err(e),
            Some(Ok((c, remote))) => Ok((id, c, remote)),
            None => match inspected {
                Some(Err(e)) => Err(e),
                Some(Ok((c, local, remote))) => Ok((id, c, spec_existing_remote_workspace_folder(None, remote, local, workspace_folder))),
                None => Err(not_found_error()),
            },
        },
    }
}

pub open spec fn compose_lookup_view(c: Option<Result<Option<String>, String>>) -> Option<Result<Option<Seq<char>>, Seq<char>>> {
    match c {
        Some(Ok(Some(id))) => Some(Ok(Some(id@))),
        Some(Ok(None)) => Some(Ok(None)),
        Some(Err(e)) => Some(Err(e@)),
        None => None,
    }
}

pub open spec fn target_view(t: Option<Result<ResolvedTargetContainer, String>>) -> Option<Result<Seq<char>, Seq<char>>> {
    match t {
        Some(Ok(t)) => Some(Ok(t.container_id@)),
        Some(Err(e)) => Some(Err(e@)),
        None => None,
    }
}

pub open spec fn configuration_view(c: Option<Result<(JsonValue, String), String>>) -> Option<Result<(JsonView, Seq<char>), Seq<char>>> {
    match c {
        Some(Ok((v, remote))) => Some(Ok((v@, remote@))),
        Some(Err(e)) => Some(Err(e@)),
        None => None,
    }
}

pub open spec fn inspected_view(i: Option<Result<InspectedContainerContext, String>>) -> Option<Result<(JsonView, Option<Seq<char>>, Option<Seq<char>>), Seq<char>>> {
    match i {
        Some(r) => Some(context_result_view(r)),
        None => None,
    }
}

/// The context of an existing container (see `spec_existing_container_context`).
pub fn existing_container_context(
    compose_lookup: Option<Result<Option<String>, String>>,
    target: Option<Result<ResolvedTargetContainer, String>>,
    configuration: Option<Result<(JsonValue, String), String>>,
    inspected: Option<Result<InspectedContainerContext, String>>,
    workspace_folder: Option<&str>,
) -> (r: Result<ExistingContainerContext, String>)
    ensures
        existing_context_view(r) == spec_existing_container_context(
            compose_lookup_view(compose_lookup),
            target_view(target),
            configuration_view(configuration),
            inspected_view(inspected),
            opt_text(workspace_folder),
        ),
{
    let not_found = from_chars(&to_chars("Dev container not found."));
    let container_id = match compose_lookup {
        Some(Err(e)) => return Err(e),
        Some(Ok(None)) => return Err(not_found),
        Some(Ok(Some(id))) => id,
        None => match target {
            Some(Ok(t)) => t.container_id,
            Some(Err(e)) => return Err(e),
            None => return Err(not_found),
        },
    };
    match configuration {
        Some(Err(e)) => Err(e),
        Some(Ok((c, remote))) => Ok(ExistingContainerContext { container_id, configuration: c, remote_workspace_folder: remote }),
        None => match inspected {
            Some(Err(e)) => Err(e),
            Some(Ok(i)) => {
                let remote = existing_remote_workspace_folder(None, i.remote_workspace_folder, match &i.local_workspace_folder {
                    Some(l) => Some(l.as_str()),
                    None => None,
                }, workspace_folder);
                Ok(ExistingContainerContext { container_id, configuration: i.configuration, remote_workspace_folder: remote })
            },
            None => Err(not_found),
        },
    }
}

} // verus!
