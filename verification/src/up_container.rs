//! Bringing the dev container up: whether an existing container is reused,
//! started, replaced or a new one created; how a compose service's container is
//! found; and what is reported when the service does not run.

use vstd::prelude::*;
use crate::compose::{compose_args_owned, insert_compose_override, spec_compose_args_owned, spec_insert_compose_override, ComposeSpec};
use crate::compose_override::{decimal, decimal_exec};
use crate::discovery::{
    labels_result_view, spec_find_target, spec_inspect_labels_call, spec_matched_from_inspected, ResolvedTargetContainer,
    append_diagnostic_section, find_target_container_for_platform, inspect_matched_default_id_labels, opt_pairs, opt_text,
    parse_container_ids, spec_append_diagnostic_section, spec_parse_container_ids,
};
use crate::json::JsonValue;
use crate::engine::{engine_request, spec_engine_request, spec_stderr_or_stdout, stderr_or_stdout, ProcessRequest, ProcessResult};
use crate::exec::push_string;
use crate::lifecycle::LifecycleMode;
use crate::options::{has_flag, opt_str, option_value, spec_has_flag, spec_option_value, str_eq, EnvDefaults};
use crate::text::{from_chars, push_str, str_views, to_chars, trim, trim_chars};

verus! {

/// What `up` does with what the container lookups found.
#[derive(Clone, Copy, Debug, PartialEq, Eq, Structural)]
pub enum UpAction {
    /// Keep the running container.
    ReuseRunning,
    /// Bring the stopped container back.
    StartStopped,
    /// Remove the running container, then create a new one.
    ReplaceRunning,
    /// Remove the stopped container, then create a new one.
    ReplaceStopped,
    /// Create a new container.
    Create,
    /// Report that no dev container was found.
    NotFound,
}

/// The decision of `up`: a running container is reused, else a stopped one is
/// started; with `--remove-existing-container` the container found is removed
/// and a new one created instead; when none is found, a new one is created,
/// unless `--expect-existing-container` asks for an error.
pub open spec fn spec_up_action(running: bool, stopped: bool, remove_existing: bool, expect_existing: bool) -> UpAction {
    if running {
        if remove_existing { UpAction::ReplaceRunning } else { UpAction::ReuseRunning }
    } else if stopped {
        if remove_existing { UpAction::ReplaceStopped } else { UpAction::StartStopped }
    } else if expect_existing {
        UpAction::NotFound
    } else {
        UpAction::Create
    }
}

/// The decision of `up` (see `spec_up_action`). `stopped` is looked at only
/// when no container runs.
pub fn up_action(running: bool, stopped: bool, remove_existing: bool, expect_existing: bool) -> (r: UpAction)
    ensures
        r == spec_up_action(running, stopped, remove_existing, expect_existing),
{
    if running {
        if remove_existing {
            UpAction::ReplaceRunning
        } else {
            UpAction::ReuseRunning
        }
    } else if stopped {
        if remove_existing {
            UpAction::ReplaceStopped
        } else {
            UpAction::StartStopped
        }
    } else if expect_existing {
        UpAction::NotFound
    } else {
        UpAction::Create
    }
}

/// How the lifecycle commands run after an action that leaves a container:
/// a reused container as reused, a started one as started, a new one as created.
pub open spec fn spec_up_lifecycle_mode(action: UpAction) -> Option<LifecycleMode> {
    match action {
        UpAction::ReuseRunning => Some(LifecycleMode::UpReused),
        UpAction::StartStopped => Some(LifecycleMode::UpStarted),
        UpAction::ReplaceRunning => Some(LifecycleMode::UpCreated),
        UpAction::ReplaceStopped => Some(LifecycleMode::UpCreated),
        UpAction::Create => Some(LifecycleMode::UpCreated),
        UpAction::NotFound => None,
    }
}

pub fn up_lifecycle_mode(action: UpAction) -> (r: Option<LifecycleMode>)
    ensures
        r == spec_up_lifecycle_mode(action),
{
    match action {
        UpAction::ReuseRunning => Some(LifecycleMode::UpReused),
        UpAction::StartStopped => Some(LifecycleMode::UpStarted),
        UpAction::ReplaceRunning => Some(LifecycleMode::UpCreated),
        UpAction::ReplaceStopped => Some(LifecycleMode::UpCreated),
        UpAction::Create => Some(LifecycleMode::UpCreated),
        UpAction::NotFound => None,
    }
}

/// The lifecycle mode after a compose service was brought up again over a
/// container that existed: the mode of that container when its id is unchanged,
/// else that of a new container.
pub open spec fn spec_refreshed_lifecycle_mode(previous_id: Seq<char>, updated_id: Seq<char>, unchanged_mode: LifecycleMode) -> LifecycleMode {
    if previous_id == updated_id { unchanged_mode } else { LifecycleMode::UpCreated }
}

pub fn refreshed_lifecycle_mode(previous_id: &str, updated_id: &str, unchanged_mode: LifecycleMode) -> (r: LifecycleMode)
    ensures
        r == spec_refreshed_lifecycle_mode(previous_id@, updated_id@, unchanged_mode),
{
    if crate::options::str_eq(previous_id, updated_id) {
        unchanged_mode
    } else {
        LifecycleMode::UpCreated
    }
}

/// Without `--remove-existing-container`, a running container is kept as it
/// is; with it, a container that was found is never kept, but replaced.
pub proof fn law_existing_container_reuse_and_replacement(running: bool, stopped: bool, expect_existing: bool)
    ensures
        running ==> spec_up_action(running, stopped, false, expect_existing) == UpAction::ReuseRunning,
        spec_up_action(running, stopped, true, expect_existing) != UpAction::ReuseRunning,
        spec_up_action(running, stopped, true, expect_existing) != UpAction::StartStopped,
        (running || stopped) ==> spec_up_lifecycle_mode(spec_up_action(running, stopped, true, expect_existing))
            == Some(LifecycleMode::UpCreated),
{
}

/// With `--expect-existing-container`, `up` never creates a container that
/// did not exist: when none is found it reports so.
pub proof fn law_expect_existing_never_creates(running: bool, stopped: bool, remove_existing: bool)
    ensures
        spec_up_action(running, stopped, remove_existing, true) != UpAction::Create,
        !running && !stopped ==> spec_up_action(running, stopped, remove_existing, true) == UpAction::NotFound,
        !running && !stopped ==> spec_up_action(running, stopped, remove_existing, false) == UpAction::Create,
{
}

/// `ps -q` (`-a` to include stopped containers), filtered by the labels that
/// compose puts on the project's and the service's containers.
pub open spec fn spec_compose_ps_args(project_name: Seq<char>, service: Seq<char>, include_stopped: bool) -> Seq<Seq<char>> {
    seq!["ps"@, "-q"@] + (if include_stopped { seq!["-a"@] } else { seq![] }) + seq![
        "--filter"@,
        "label=com.docker.compose.project="@ + project_name,
        "--filter"@,
        "label=com.docker.compose.service="@ + service,
    ]
}

pub fn compose_ps_args(spec: &ComposeSpec, include_stopped: bool) -> (r: Vec<String>)
    ensures
        str_views(r@) == spec_compose_ps_args(spec.project_name@, spec.service@, include_stopped),
{
    let mut v: Vec<String> = Vec::new();
    push_string(&mut v, "ps");
    push_string(&mut v, "-q");
    if include_stopped {
        push_string(&mut v, "-a");
    }
    push_string(&mut v, "--filter");
    let mut p = to_chars("label=com.docker.compose.project=");
    push_str(&mut p, spec.project_name.as_str());
    push_string(&mut v, from_chars(&p).as_str());
    push_string(&mut v, "--filter");
    let mut s = to_chars("label=com.docker.compose.service=");
    push_str(&mut s, spec.service.as_str());
    push_string(&mut v, from_chars(&s).as_str());
    v
}

/// The first container id that `ps -q` printed, if any.
pub open spec fn spec_first_container_id(stdout: Seq<char>) -> Option<Seq<char>> {
    let ids = spec_parse_container_ids(stdout);
    if ids.len() > 0 {
        Some(ids[0])
    } else {
        None
    }
}

pub fn first_container_id(stdout: &str) -> (r: Option<String>)
    ensures
        opt_str(r) == spec_first_container_id(stdout@),
{
    let mut ids = parse_container_ids(stdout);
    if ids.len() > 0 {
        let first = ids.swap_remove(0);
        Some(first)
    } else {
        None
    }
}

/// What a `ps` run says of the compose service's container: the engine's
/// error, the output's message when the run failed, else the first id.
pub open spec fn spec_container_id_outcome(c: Result<ProcessResult, String>) -> Result<Option<Seq<char>>, Seq<char>> {
    match c {
        Err(e) => Err(e@),
        Ok(p) => if p.status_code != 0 {
            Err(spec_stderr_or_stdout(p.stdout@, p.stderr@))
        } else {
            Ok(spec_first_container_id(p.stdout@))
        },
    }
}

pub open spec fn opt_id_result_view(r: Result<Option<String>, String>) -> Result<Option<Seq<char>>, Seq<char>> {
    match r {
        Ok(o) => Ok(opt_str(o)),
        Err(e) => Err(e@),
    }
}

/// What looking up the compose service's container gives (`out`):
/// `run_engine` ran `spec_compose_ps_args`, and `out` is
/// `spec_container_id_outcome` of what it returned.
pub open spec fn spec_compose_id_call<F: Fn(ProcessRequest) -> Result<ProcessResult, String>>(
    run_engine: F,
    args: Seq<Seq<char>>,
    env: EnvDefaults,
    project_name: Seq<char>,
    service: Seq<char>,
    include_stopped: bool,
    out: Result<Option<Seq<char>>, Seq<char>>,
) -> bool {
    exists|req: ProcessRequest, c: Result<ProcessResult, String>|
        req@ == spec_engine_request(args, env, spec_compose_ps_args(project_name, service, include_stopped))
            && #[trigger] call_ensures(run_engine, (req,), c)
            && out == spec_container_id_outcome(c)
}

/// The id of the compose service's container (running, or also stopped with
/// `include_stopped`): `run_engine` runs `spec_compose_ps_args`, and the answer
/// is `spec_container_id_outcome` of what it returned.
pub fn resolve_compose_container_id<F: Fn(ProcessRequest) -> Result<ProcessResult, String>>(
    args: &[String],
    env: &EnvDefaults,
    spec: &ComposeSpec,
    include_stopped: bool,
    run_engine: &F,
) -> (r: Result<Option<String>, String>)
    requires
        forall|req: ProcessRequest| call_requires(*run_engine, (req,)),
    ensures
        spec_compose_id_call(*run_engine, str_views(args@), *env, spec.project_name@, spec.service@, include_stopped, opt_id_result_view(r)),
{
    let request = engine_request(args, env, compose_ps_args(spec, include_stopped));
    let ghost req = request;
    let c = run_engine(request);
    assert(call_ensures(*run_engine, (req,), c));
    let r = match &c {
        Err(e) => Err(e.clone()),
        Ok(p) => if p.status_code != 0 {
            Err(stderr_or_stdout(p))
        } else {
            Ok(first_container_id(p.stdout.as_str()))
        },
    };
    assert(opt_id_result_view(r) == spec_container_id_outcome(c));
    r
}

/// What `compose up` reported for the service.
pub struct ComposeUpResult {
    pub project_name: String,
    pub service: String,
    pub stdout: String,
    pub stderr: String,
}

/// A signed number in decimal.
pub open spec fn signed_decimal(n: int) -> Seq<char> {
    if n < 0 {
        "-"@ + decimal((-n) as nat)
    } else {
        decimal(n as nat)
    }
}

fn signed_decimal_exec(n: i32) -> (r: Vec<char>)
    ensures
        r@ == signed_decimal(n as int),
{
    if n < 0 {
        let magnitude: i64 = 0i64 - (n as i64);
        let mut v = to_chars("-");
        let digits = decimal_exec(magnitude as u64);
        let mut k: usize = 0;
        let ghost start = v@;
        while k < digits.len()
            invariant
                k <= digits.len(),
                v@ == start + digits@.take(k as int),
            decreases digits.len() - k,
        {
            v.push(digits[k]);
            assert(digits@.take(k + 1) =~= digits@.take(k as int).push(digits@[k as int]));
            k = k + 1;
        }
        assert(digits@.take(k as int) =~= digits@);
        v
    } else {
        decimal_exec(n as u64)
    }
}

/// The first line of the report: the container that was created but is not
/// running, or that none was found.
pub open spec fn spec_startup_failure_headline(service: Seq<char>, project_name: Seq<char>, stopped_container_id: Option<Seq<char>>) -> Seq<char> {
    match stopped_container_id {
        Some(id) => "Dev container service '"@ + service + "' for compose project '"@ + project_name
            + "' was created but is not running (container "@ + id + ")."@,
        None => "Dev container service '"@ + service + "' for compose project '"@ + project_name
            + "' was not found after compose up."@,
    }
}

/// The status and output of `compose logs`, or why it could not run.
pub open spec fn logs_view(logs: Result<ProcessResult, String>) -> Result<(int, Seq<char>, Seq<char>), Seq<char>> {
    match logs {
        Ok(p) => Ok((p.status_code as int, p.stdout@, p.stderr@)),
        Err(e) => Err(e@),
    }
}

/// The report when the compose service does not run after `compose up`: the
/// headline, then the non-blank outputs of `compose up` and `compose logs`, each
/// in a titled section (see `spec_append_diagnostic_section`); a note on the
/// status when the logs failed without output; or why the logs were unavailable.
pub open spec fn spec_startup_failure_message(
    service: Seq<char>,
    project_name: Seq<char>,
    stopped_container_id: Option<Seq<char>>,
    up_stdout: Seq<char>,
    up_stderr: Seq<char>,
    logs: Result<(int, Seq<char>, Seq<char>), Seq<char>>,
) -> Seq<char> {
    let head = spec_startup_failure_headline(service, project_name, stopped_container_id);
    let with_up = spec_append_diagnostic_section(
        spec_append_diagnostic_section(head, "Compose up stdout"@, up_stdout),
        "Compose up stderr"@,
        up_stderr,
    );
    match logs {
        Ok((status, out, err)) => {
            let with_logs = spec_append_diagnostic_section(
                spec_append_diagnostic_section(with_up, "Compose logs stdout"@, out),
                "Compose logs stderr"@,
                err,
            );
            if status != 0 && trim(out).len() == 0 && trim(err).len() == 0 {
                with_logs + "\nCompose logs exited with status "@ + signed_decimal(status) + " without output."@
            } else {
                with_logs
            }
        },
        Err(e) => spec_append_diagnostic_section(with_up, "Compose logs unavailable"@, e),
    }
}

/// The report when the compose service does not run (see
/// `spec_startup_failure_message`), from what `compose up` reported, the id of
/// the service's stopped container if one was found, and the `compose logs` run.
pub fn compose_startup_failure_message(
    up_result: &ComposeUpResult,
    stopped_container_id: Option<&str>,
    logs: &Result<ProcessResult, String>,
) -> (r: String)
    ensures
        r@ == spec_startup_failure_message(
            up_result.service@,
            up_result.project_name@,
            match stopped_container_id {
                Some(id) => Some(id@),
                None => None,
            },
            up_result.stdout@,
            up_result.stderr@,
            logs_view(*logs),
        ),
{
    let mut head = to_chars("Dev container service '");
    push_str(&mut head, up_result.service.as_str());
    push_str(&mut head, "' for compose project '");
    push_str(&mut head, up_result.project_name.as_str());
    match stopped_container_id {
        Some(id) => {
            push_str(&mut head, "' was created but is not running (container ");
            push_str(&mut head, id);
            push_str(&mut head, ").");
        },
        None => {
            push_str(&mut head, "' was not found after compose up.");
        },
    }
    let mut message = from_chars(&head);
    append_diagnostic_section(&mut message, "Compose up stdout", up_result.stdout.as_str());
    append_diagnostic_section(&mut message, "Compose up stderr", up_result.stderr.as_str());
    match logs {
        Ok(p) => {
            append_diagnostic_section(&mut message, "Compose logs stdout", p.stdout.as_str());
            append_diagnostic_section(&mut message, "Compose logs stderr", p.stderr.as_str());
            if p.status_code != 0 && trim_chars(&to_chars(p.stdout.as_str())).len() == 0
                && trim_chars(&to_chars(p.stderr.as_str())).len() == 0 {
                let mut m = to_chars(message.as_str());
                push_str(&mut m, "\nCompose logs exited with status ");
                let digits = signed_decimal_exec(p.status_code);
                push_str(&mut m, from_chars(&digits).as_str());
                push_str(&mut m, " without output.");
                message = from_chars(&m);
            }
        },
        Err(e) => {
            append_diagnostic_section(&mut message, "Compose logs unavailable", e.as_str());
        },
    }
    message
}

/// The arguments of `compose logs` for the service.
pub fn compose_logs_args(spec: &ComposeSpec) -> (r: Vec<String>)
    ensures
        str_views(r@) == spec_compose_args_owned(spec.project_name@, str_views(spec.files@), "logs"@, None, seq![spec.service@]),
{
    let mut tail: Vec<String> = Vec::new();
    push_string(&mut tail, spec.service.as_str());
    assert(str_views(tail@) =~= seq![spec.service@]);
    compose_args_owned(spec, "logs", None, tail)
}

/// The error when the compose service does not run after `compose up`: the
/// service's stopped container is looked for with `run_engine` (its error is
/// passed on), `compose logs` runs with `run_compose`, and the error is
/// `spec_startup_failure_message` of what they returned.
pub fn compose_startup_failure_error<
    F: Fn(ProcessRequest) -> Result<ProcessResult, String>,
    C: FnOnce(Vec<String>) -> Result<ProcessResult, String>,
>(
    args: &[String],
    env: &EnvDefaults,
    spec: &ComposeSpec,
    up_result: &ComposeUpResult,
    run_engine: &F,
    run_compose: C,
) -> (r: Result<String, String>)
    requires
        forall|req: ProcessRequest| call_requires(*run_engine, (req,)),
        forall|a: Vec<String>| call_requires(run_compose, (a,)),
    ensures
        exists|req: ProcessRequest, c: Result<ProcessResult, String>|
            req@ == spec_engine_request(str_views(args@), *env, spec_compose_ps_args(spec.project_name@, spec.service@, true))
                && #[trigger] call_ensures(*run_engine, (req,), c) && match spec_container_id_outcome(c) {
                Err(e) => r is Err && r->Err_0@ == e,
                Ok(stopped) => r is Ok && exists|a: Vec<String>, logs: Result<ProcessResult, String>|
                    str_views(a@) == spec_compose_args_owned(spec.project_name@, str_views(spec.files@), "logs"@, None, seq![spec.service@])
                        && #[trigger] call_ensures(run_compose, (a,), logs)
                        && r->Ok_0@ == spec_startup_failure_message(
                            up_result.service@,
                            up_result.project_name@,
                            stopped,
                            up_result.stdout@,
                            up_result.stderr@,
                            logs_view(logs),
                        ),
            },
{
    let stopped = match resolve_compose_container_id(args, env, spec, true, run_engine) {
        Ok(s) => s,
        Err(e) => return Err(e),
    };
    let logs_args = compose_logs_args(spec);
    let ghost a = logs_args;
    let logs = run_compose(logs_args);
    assert(call_ensures(run_compose, (a,), logs));
    let message = match &stopped {
        Some(id) => compose_startup_failure_message(up_result, Some(id.as_str()), &logs),
        None => compose_startup_failure_message(up_result, None, &logs),
    };
    Ok(message)
}

/// The arguments after `up`: `-d`, `--no-recreate` when asked, then the
/// services that `runServices` picked.
pub open spec fn spec_compose_up_tail(no_recreate: bool, selected: Option<Seq<Seq<char>>>) -> Seq<Seq<char>> {
    seq!["-d"@] + (if no_recreate { seq!["--no-recreate"@] } else { seq![] }) + match selected {
        Some(s) => s,
        None => seq![],
    }
}

pub fn compose_up_tail(no_recreate: bool, selected: Option<&Vec<String>>) -> (r: Vec<String>)
    ensures
        str_views(r@) == spec_compose_up_tail(
            no_recreate,
            match selected {
                Some(s) => Some(str_views(s@)),
                None => None,
            },
        ),
{
    let mut v: Vec<String> = Vec::new();
    push_string(&mut v, "-d");
    if no_recreate {
        push_string(&mut v, "--no-recreate");
    }
    let ghost head = str_views(v@);
    match selected {
        Some(services) => {
            let mut k: usize = 0;
            while k < services.len()
                invariant
                    k <= services.len(),
                    str_views(v@) == head + str_views(services@).take(k as int),
                decreases services.len() - k,
            {
                push_string(&mut v, services[k].as_str());
                assert(str_views(services@).take(k + 1) =~= str_views(services@).take(k as int).push(services@[k as int]@));
                k = k + 1;
            }
            assert(str_views(services@).take(k as int) =~= str_views(services@));
        },
        None => {
            assert(head + seq![] =~= head);
        },
    }
    v
}

/// The arguments of `compose up`: those of the project with the metadata
/// override, `up` and its tail, and the profile override's `-f` just before `up`.
pub open spec fn spec_compose_up_args(
    project_name: Seq<char>,
    files: Seq<Seq<char>>,
    override_file: Option<Seq<char>>,
    profile_override_file: Option<Seq<char>>,
    tail: Seq<Seq<char>>,
) -> Seq<Seq<char>> {
    let base = spec_compose_args_owned(project_name, files, "up"@, override_file, tail);
    match profile_override_file {
        Some(p) => spec_insert_compose_override(base, tail.len(), p),
        None => base,
    }
}

pub fn compose_up_args(
    spec: &ComposeSpec,
    override_file: Option<&str>,
    profile_override_file: Option<&str>,
    no_recreate: bool,
    selected: Option<&Vec<String>>,
) -> (r: Vec<String>)
    ensures
        str_views(r@) == spec_compose_up_args(
            spec.project_name@,
            str_views(spec.files@),
            match override_file {
                Some(f) => Some(f@),
                None => None,
            },
            match profile_override_file {
                Some(f) => Some(f@),
                None => None,
            },
            spec_compose_up_tail(
                no_recreate,
                match selected {
                    Some(s) => Some(str_views(s@)),
                    None => None,
                },
            ),
        ),
{
    let tail = compose_up_tail(no_recreate, selected);
    let tail_len = tail.len();
    let ghost tv = str_views(tail@);
    let mut args = compose_args_owned(spec, "up", override_file, tail);
    match profile_override_file {
        Some(p) => {
            assert(str_views(args@).len() == args@.len());
            insert_compose_override(&mut args, tail_len, p);
        },
        None => {},
    }
    args
}

/// The image the metadata override pins for the service: the image `up`
/// runs, unless that is the service's own image and the service does not build.
pub open spec fn spec_pinned_image(service_image: Option<Seq<char>>, has_build: bool, image_name: Seq<char>) -> Option<Seq<char>> {
    if service_image != Some(image_name) || has_build {
        Some(image_name)
    } else {
        None
    }
}

pub fn pinned_image(spec: &ComposeSpec, image_name: &str) -> (r: Option<String>)
    ensures
        opt_str(r) == spec_pinned_image(opt_str(spec.image), spec.has_build, image_name@),
{
    let same = match &spec.image {
        Some(i) => str_eq(i.as_str(), image_name),
        None => false,
    };
    if !same || spec.has_build {
        Some(from_chars(&to_chars(image_name)))
    } else {
        None
    }
}

/// What `compose up` ended with: its error, the output's message when it
/// failed, else its output.
pub open spec fn spec_compose_up_outcome(c: Result<ProcessResult, String>) -> Result<(Seq<char>, Seq<char>), Seq<char>> {
    match c {
        Err(e) => Err(e@),
        Ok(p) => if p.status_code != 0 {
            Err(spec_stderr_or_stdout(p.stdout@, p.stderr@))
        } else {
            Ok((p.stdout@, p.stderr@))
        },
    }
}

/// The result of `compose up` for the service, from what the run returned
/// (see `spec_compose_up_outcome`).
pub fn compose_up_outcome(spec: &ComposeSpec, c: Result<ProcessResult, String>) -> (r: Result<ComposeUpResult, String>)
    ensures
        match spec_compose_up_outcome(c) {
            Err(e) => r is Err && r->Err_0@ == e,
            Ok((out, err)) => r is Ok && r->Ok_0.stdout@ == out && r->Ok_0.stderr@ == err
                && r->Ok_0.service@ == spec.service@ && r->Ok_0.project_name@ == spec.project_name@,
        },
{
    match c {
        Err(e) => Err(e),
        Ok(p) => if p.status_code != 0 {
            Err(stderr_or_stdout(&p))
        } else {
            Ok(ComposeUpResult {
                project_name: from_chars(&to_chars(spec.project_name.as_str())),
                service: from_chars(&to_chars(spec.service.as_str())),
                stdout: p.stdout,
                stderr: p.stderr,
            })
        },
    }
}

/// The arguments after `build`: `--pull`, `--no-cache` for `--no-cache` or
/// `--build-no-cache`, and the service.
pub open spec fn spec_compose_build_tail(args: Seq<Seq<char>>, service: Seq<char>) -> Seq<Seq<char>> {
    seq!["--pull"@] + (if spec_has_flag(args, "--no-cache"@) || spec_has_flag(args, "--build-no-cache"@) {
        seq!["--no-cache"@]
    } else {
        seq![]
    }) + seq![service]
}

pub fn compose_build_tail(args: &[String], service: &str) -> (r: Vec<String>)
    ensures
        str_views(r@) == spec_compose_build_tail(str_views(args@), service@),
{
    let mut v: Vec<String> = Vec::new();
    push_string(&mut v, "--pull");
    if has_flag(args, "--no-cache") || has_flag(args, "--build-no-cache") {
        push_string(&mut v, "--no-cache");
    }
    push_string(&mut v, service);
    v
}

/// The image a compose `build` reports: with features installed on top, the
/// `--image-name` given or else the compose image; without, the compose image.
pub open spec fn spec_compose_build_result_image(args: Seq<Seq<char>>, compose_image: Seq<char>, has_features: bool) -> Seq<char> {
    if has_features {
        match spec_option_value(args, "--image-name"@) {
            Some(v) => v,
            None => compose_image,
        }
    } else {
        compose_image
    }
}

pub fn compose_build_result_image(args: &[String], compose_image: &str, has_features: bool) -> (r: String)
    ensures
        r@ == spec_compose_build_result_image(str_views(args@), compose_image@, has_features),
{
    if has_features {
        match option_value(args, "--image-name") {
            Some(v) => return v,
            None => {},
        }
    }
    from_chars(&to_chars(compose_image))
}

/// What inspecting a found compose container gives for `up`'s probe (`out`):
/// its labels are inspected (see `spec_inspect_labels_call`) and matched
/// against the workspace (see `spec_matched_from_inspected`).
pub open spec fn spec_probe_inspected<F: Fn(ProcessRequest) -> Result<ProcessResult, String>>(
    run_engine: F,
    platform: Seq<char>,
    args: Seq<Seq<char>>,
    env: EnvDefaults,
    container_id: Seq<char>,
    workspace_folder: Seq<char>,
    config_file: Seq<char>,
    out: Result<Option<Seq<(Seq<char>, Seq<char>)>>, Seq<char>>,
) -> bool {
    exists|inspected: Result<Option<Seq<(Seq<char>, Seq<char>)>>, Seq<char>>|
        #[trigger] spec_inspect_labels_call(run_engine, args, env, container_id, inspected)
            && out == spec_matched_from_inspected(platform, inspected, workspace_folder, Some(config_file))
}

/// The id labels a target-container lookup's result gives for `up`'s probe:
/// its error, or the matched labels of the container found.
pub open spec fn spec_target_labels(found: Result<Option<ResolvedTargetContainer>, String>) -> Result<Option<Seq<(Seq<char>, Seq<char>)>>, Seq<char>> {
    match found {
        Err(e) => Err(e@),
        Ok(Some(t)) => Ok(opt_pairs(t.id_labels)),
        Ok(None) => Ok(None),
    }
}

/// The id labels of the container `up` would reuse, looked up before the
/// configuration is read again: none with `--remove-existing-container` (no
/// lookup is made). For a compose service (`compose` is its spec), the running
/// container, else a stopped one, and its labels when it matched the workspace
/// only by its folder label; otherwise the labels of the running target
/// container, else of a stopped one. A lookup's error is the result.
pub fn probe_up_container_id_labels<F: Fn(ProcessRequest) -> Result<ProcessResult, String>>(
    platform: &str,
    args: &[String],
    env: &EnvDefaults,
    workspace_folder: &str,
    config_file: &str,
    compose: Option<&ComposeSpec>,
    run_engine: &F,
) -> (r: Result<Option<Vec<(String, String)>>, String>)
    requires
        forall|req: ProcessRequest| call_requires(*run_engine, (req,)),
    ensures
        spec_has_flag(str_views(args@), "--remove-existing-container"@) ==> r is Ok && r->Ok_0 is None,
        !spec_has_flag(str_views(args@), "--remove-existing-container"@) && compose is Some ==> exists|running: Result<Option<Seq<char>>, Seq<char>>|
            #[trigger] spec_compose_id_call(*run_engine, str_views(args@), *env, compose->0.project_name@, compose->0.service@, false, running)
                && match running {
                Err(e) => labels_result_view(r) == Err::<Option<Seq<(Seq<char>, Seq<char>)>>, Seq<char>>(e),
                Ok(Some(id)) => spec_probe_inspected(*run_engine, platform@, str_views(args@), *env, id, workspace_folder@, config_file@, labels_result_view(r)),
                Ok(None) => exists|stopped: Result<Option<Seq<char>>, Seq<char>>|
                    #[trigger] spec_compose_id_call(*run_engine, str_views(args@), *env, compose->0.project_name@, compose->0.service@, true, stopped)
                        && match stopped {
                        Err(e) => labels_result_view(r) == Err::<Option<Seq<(Seq<char>, Seq<char>)>>, Seq<char>>(e),
                        Ok(Some(id)) => spec_probe_inspected(*run_engine, platform@, str_views(args@), *env, id, workspace_folder@, config_file@, labels_result_view(r)),
                        Ok(None) => labels_result_view(r) == Ok::<Option<Seq<(Seq<char>, Seq<char>)>>, Seq<char>>(None),
                    },
            },
        !spec_has_flag(str_views(args@), "--remove-existing-container"@) && compose is None ==> exists|first: Result<Option<ResolvedTargetContainer>, String>|
            #[trigger] spec_find_target(*run_engine, platform@, str_views(args@), *env, Some(workspace_folder@), Some(config_file@), false, first)
                && if first matches Ok(None) {
                exists|second: Result<Option<ResolvedTargetContainer>, String>|
                    #[trigger] spec_find_target(*run_engine, platform@, str_views(args@), *env, Some(workspace_folder@), Some(config_file@), true, second)
                        && labels_result_view(r) == spec_target_labels(second)
            } else {
                labels_result_view(r) == spec_target_labels(first)
            },
{
    if has_flag(args, "--remove-existing-container") {
        return Ok(None);
    }
    match compose {
        Some(spec) => {
            let running_result = resolve_compose_container_id(args, env, spec, false, run_engine);
            let ghost rv = opt_id_result_view(running_result);
            assert(spec_compose_id_call(*run_engine, str_views(args@), *env, spec.project_name@, spec.service@, false, rv));
            let running = match running_result {
                Ok(id) => id,
                Err(e) => return Err(e),
            };
            let ghost mut sv: Result<Option<Seq<char>>, Seq<char>> = Ok(None);
            let found = match running {
                Some(id) => Some(id),
                None => {
                    let stopped_result = resolve_compose_container_id(args, env, spec, true, run_engine);
                    proof {
                        sv = opt_id_result_view(stopped_result);
                    }
                    assert(spec_compose_id_call(*run_engine, str_views(args@), *env, spec.project_name@, spec.service@, true, sv));
                    match stopped_result {
                        Ok(id) => id,
                        Err(e) => return Err(e),
                    }
                },
            };
            match found {
                Some(id) => {
                    let r = inspect_matched_default_id_labels(
                        args,
                        env,
                        platform,
                        id.as_str(),
                        Some(workspace_folder),
                        Some(config_file),
                        run_engine,
                    );
                    assert(opt_text(Some(config_file)) == Some(config_file@));
                    assert(opt_text(Some(workspace_folder)) == Some(workspace_folder@));
                    assert(spec_probe_inspected(*run_engine, platform@, str_views(args@), *env, id@, workspace_folder@, config_file@, labels_result_view(r)));
                    r
                },
                None => Ok(None),
            }
        },
        None => {
            let first = find_target_container_for_platform(platform, args, env, Some(workspace_folder), Some(config_file), false, run_engine);
            assert(opt_text(Some(config_file)) == Some(config_file@));
            assert(opt_text(Some(workspace_folder)) == Some(workspace_folder@));
            assert(spec_find_target(*run_engine, platform@, str_views(args@), *env, Some(workspace_folder@), Some(config_file@), false, first));
            match first {
                Err(e) => return Err(e),
                Ok(Some(target)) => return Ok(target.id_labels),
                Ok(None) => {},
            }
            let second = find_target_container_for_platform(platform, args, env, Some(workspace_folder), Some(config_file), true, run_engine);
            assert(spec_find_target(*run_engine, platform@, str_views(args@), *env, Some(workspace_folder@), Some(config_file@), true, second));
            let ghost second_view = second;
            let r = match second {
                Err(e) => Err(e),
                Ok(Some(target)) => Ok(target.id_labels),
                Ok(None) => Ok(None),
            };
            assert(labels_result_view(r) == spec_target_labels(second_view));
            r
        },
    }
}

} // verus!
