//! Updating the remote user's UID: which users can be updated, the image the
//! update builds from and into, and how the engine's image inspection is read.

use vstd::prelude::*;
use crate::engine::{
    effective_engine_program, engine_request, spec_effective_engine_program, spec_engine_request,
    spec_stderr_or_stdout, stderr_or_stdout, ProcessRequest, ProcessResult,
};
use crate::json::{get_str, get_str_exec, items_view, json_get, json_str, lemma_items_view, JsonValue, JsonView};
use crate::options::{opt_str, str_eq, EnvDefaults};
use crate::text::{
    contains_str, contains_str_chars, eq_ignore_case, find_char, from_chars, is_ascii_digit, lines,
    lines_chars, lower, lower_chars, path_file_name, path_file_name_chars, push_all, push_str,
    starts_with, starts_with_str, str_views, to_chars, trim, trim_chars, views,
};

verus! {

/// A user whose UID can be updated: not `root` and not a numeric id.
pub open spec fn spec_is_updatable_user(user: Seq<char>) -> bool {
    user != "root"@ && !(forall|i: int| 0 <= i < user.len() ==> is_ascii_digit(#[trigger] user[i]))
}

pub fn is_updatable_user(user: &str) -> (r: bool)
    ensures
        r == spec_is_updatable_user(user@),
{
    if str_eq(user, "root") {
        return false;
    }
    let u = to_chars(user);
    let mut i: usize = 0;
    while i < u.len()
        invariant
            i <= u.len(),
            u@ == user@,
            user@ != "root"@,
            forall|j: int| 0 <= j < i ==> is_ascii_digit(#[trigger] u@[j]),
        decreases u.len() - i,
    {
        if !('0' <= u[i] && u[i] <= '9') {
            assert(!is_ascii_digit(user@[i as int]));
            return true;
        }
        i = i + 1;
    }
    false
}

/// Whether an image reference names its registry: `localhost/...`, or a `.`
/// before the first `/`.
pub open spec fn spec_has_registry_hostname(image_name: Seq<char>) -> bool {
    starts_with(image_name, "localhost/"@) || match (find_char(image_name, '.'), find_char(image_name, '/')) {
        (Some(dot), Some(slash)) => dot < slash,
        _ => false,
    }
}

pub fn has_registry_hostname(image_name: &str) -> (r: bool)
    ensures
        r == spec_has_registry_hostname(image_name@),
{
    let c = to_chars(image_name);
    if starts_with_str(&c, "localhost/") {
        return true;
    }
    match (crate::text::find_char_chars(&c, '.'), crate::text::find_char_chars(&c, '/')) {
        (Some(dot), Some(slash)) => dot < slash,
        _ => false,
    }
}

/// Whether the engine program is Podman (its file name, in any case).
pub open spec fn spec_uses_podman_engine(args: Seq<Seq<char>>, env: EnvDefaults) -> bool {
    match path_file_name(spec_effective_engine_program(args, env)) {
        Some(name) => eq_ignore_case(name, "podman"@),
        None => false,
    }
}

pub fn uses_podman_engine(args: &[String], env: &EnvDefaults) -> (r: bool)
    ensures
        r == spec_uses_podman_engine(str_views(args@), *env),
{
    let program = effective_engine_program(args, env);
    match path_file_name_chars(&to_chars(program.as_str())) {
        Some(name) => crate::text::eq_ignore_case_chars(&name, &to_chars("podman")),
        None => false,
    }
}

/// The image the UID update builds from: Podman resolves a reference without
/// a registry against `localhost/`.
pub open spec fn spec_uid_update_base_image(args: Seq<Seq<char>>, env: EnvDefaults, image_name: Seq<char>) -> Seq<char> {
    if spec_uses_podman_engine(args, env) && !spec_has_registry_hostname(image_name) {
        "localhost/"@ + image_name
    } else {
        image_name
    }
}

pub fn uid_update_base_image(args: &[String], env: &EnvDefaults, image_name: &str) -> (r: String)
    ensures
        r@ == spec_uid_update_base_image(str_views(args@), *env, image_name@),
{
    if uses_podman_engine(args, env) && !has_registry_hostname(image_name) {
        let mut m = to_chars("localhost/");
        push_str(&mut m, image_name);
        return from_chars(&m);
    }
    from_chars(&to_chars(image_name))
}

/// The user and platform of an image, read from `image inspect`.
#[derive(Debug, PartialEq, Eq)]
pub struct ImageInspectDetails {
    pub user: String,
    pub platform: Option<String>,
}

/// The first line (trimmed) is the image's user, `root` when blank; the second
/// (trimmed) its platform, none when blank or missing.
pub open spec fn spec_image_inspect_user(stdout: Seq<char>) -> Seq<char> {
    let ls = lines(stdout);
    if ls.len() > 0 && trim(ls[0]).len() > 0 {
        trim(ls[0])
    } else {
        "root"@
    }
}

pub open spec fn spec_image_inspect_platform(stdout: Seq<char>) -> Option<Seq<char>> {
    let ls = lines(stdout);
    if ls.len() > 1 && trim(ls[1]).len() > 0 {
        Some(trim(ls[1]))
    } else {
        None
    }
}

pub fn parse_image_inspect_details(stdout: &str) -> (r: Result<Option<ImageInspectDetails>, String>)
    ensures
        match r {
            Ok(Some(d)) => d.user@ == spec_image_inspect_user(stdout@) && opt_str(d.platform)
                == spec_image_inspect_platform(stdout@),
            _ => false,
        },
{
    let ls = lines_chars(&to_chars(stdout));
    let ghost lv = views(ls@);
    assert(lv.len() == ls@.len());
    let user = if ls.len() > 0 {
        assert(lv[0] == ls@[0]@);
        let t = trim_chars(&ls[0]);
        if t.len() > 0 {
            from_chars(&t)
        } else {
            from_chars(&to_chars("root"))
        }
    } else {
        from_chars(&to_chars("root"))
    };
    let platform = if ls.len() > 1 {
        assert(lv[1] == ls@[1]@);
        let t = trim_chars(&ls[1]);
        if t.len() > 0 {
            Some(from_chars(&t))
        } else {
            None
        }
    } else {
        None
    };
    Ok(Some(ImageInspectDetails { user, platform }))
}

/// Whether an inspection error says the image is not present locally.
pub open spec fn spec_is_missing_local_image_inspect_error(error: Seq<char>) -> bool {
    contains_str(lower(error), "no such image"@) || contains_str(lower(error), "image not known"@)
}

pub fn is_missing_local_image_inspect_error(error: &str) -> (r: bool)
    ensures
        r == spec_is_missing_local_image_inspect_error(error@),
{
    let l = lower_chars(&to_chars(error));
    contains_str_chars(&l, "no such image") || contains_str_chars(&l, "image not known")
}

/// Whether an inspection error says the engine's template knows no `Variant`.
pub open spec fn spec_is_missing_variant_template_error(error: Seq<char>) -> bool {
    contains_str(lower(error), "can't evaluate field variant"@)
}

pub fn is_missing_variant_template_error(error: &str) -> (r: bool)
    ensures
        r == spec_is_missing_variant_template_error(error@),
{
    contains_str_chars(&lower_chars(&to_chars(error)), "can't evaluate field variant")
}

/// The lower-case hex SHA-256 digest of a text's UTF-8 bytes.
pub uninterp spec fn sha256_hex(text: Seq<char>) -> Seq<char>;

/// Wraps `Sha256::digest` of the text's bytes, formatted with `{:x}`.
/// Trusted: the result is `sha256_hex(text)`; the digest has 32 bytes and
/// `LowerHex` writes two lower-case hex digits for each, so 64 characters.
#[verifier::external_body]
fn sha256_hex_digest(text: &str) -> (r: String)
    ensures
        r@ == sha256_hex(text@),
        r@.len() == 64,
{
    format!("{:x}", <sha2::Sha256 as sha2::Digest>::digest(text.as_bytes()))
}

/// The characters of a local image name: ASCII lower-case letters and digits;
/// anything else is written `-`.
pub open spec fn local_image_char(c: char) -> char {
    if ('a' <= c <= 'z') || is_ascii_digit(c) {
        c
    } else {
        '-'
    }
}

/// `vsc-<name>-<sha256 of the folder>`, the name of a workspace's local images.
pub open spec fn spec_uid_update_local_image_name(workspace_folder: Seq<char>) -> Seq<char> {
    let basename = match path_file_name(workspace_folder) {
        Some(n) => n,
        None => "workspace"@,
    };
    let lowered = crate::user_resolution::flat_map(basename, |c: char| crate::compose::lowercase_mapping(c));
    "vsc-"@ + lowered.map_values(|c: char| local_image_char(c)) + "-"@ + sha256_hex(workspace_folder)
}

pub fn uid_update_local_image_name(workspace_folder: &str) -> (r: String)
    ensures
        r@ == spec_uid_update_local_image_name(workspace_folder@),
{
    let basename = match path_file_name_chars(&to_chars(workspace_folder)) {
        Some(n) => n,
        None => to_chars("workspace"),
    };
    let lowered = crate::compose::lowercase_chars(&basename);
    let mut mapped: Vec<char> = Vec::new();
    let mut i: usize = 0;
    while i < lowered.len()
        invariant
            i <= lowered.len(),
            mapped@ == lowered@.take(i as int).map_values(|c: char| local_image_char(c)),
        decreases lowered.len() - i,
    {
        let c = lowered[i];
        mapped.push(if ('a' <= c && c <= 'z') || ('0' <= c && c <= '9') { c } else { '-' });
        assert(lowered@.take(i + 1) =~= lowered@.take(i as int).push(c));
        assert(mapped@ =~= lowered@.take(i + 1).map_values(|c: char| local_image_char(c)));
        i = i + 1;
    }
    assert(lowered@.take(i as int) =~= lowered@);
    let mut out = to_chars("vsc-");
    push_all(&mut out, &mapped);
    push_str(&mut out, "-");
    let hash = sha256_hex_digest(workspace_folder);
    push_str(&mut out, hash.as_str());
    from_chars(&out)
}

/// The image a UID update builds: `<base>-uid`, where the base is the image
/// itself when it already is one of the workspace's local images, else the
/// workspace's local image name.
pub open spec fn spec_uid_update_image_name(workspace_folder: Seq<char>, image_name: Seq<char>) -> Seq<char> {
    let local = spec_uid_update_local_image_name(workspace_folder);
    (if starts_with(image_name, local) {
        image_name
    } else {
        local
    }) + "-uid"@
}

pub fn uid_update_image_name(workspace_folder: &str, image_name: &str) -> (r: String)
    ensures
        r@ == spec_uid_update_image_name(workspace_folder@, image_name@),
{
    let local = uid_update_local_image_name(workspace_folder);
    let mut base = if crate::text::starts_with_chars(&to_chars(image_name), &to_chars(local.as_str())) {
        to_chars(image_name)
    } else {
        to_chars(local.as_str())
    };
    push_str(&mut base, "-uid");
    from_chars(&base)
}


/// The `--format` template for image inspection, with and without the
/// platform variant.
pub open spec fn inspect_format(with_variant: bool) -> Seq<char> {
    if with_variant {
        "{{.Config.User}}\n{{.Os}}/{{.Architecture}}{{if .Variant}}/{{.Variant}}{{end}}"@
    } else {
        "{{.Config.User}}\n{{.Os}}/{{.Architecture}}"@
    }
}

pub open spec fn inspect_args(image_name: Seq<char>, with_variant: bool) -> Seq<Seq<char>> {
    seq!["image"@, "inspect"@, "--format"@, inspect_format(with_variant), image_name]
}

pub open spec fn details_view(r: Result<Option<ImageInspectDetails>, String>) -> Result<Option<(Seq<char>, Option<Seq<char>>)>, Seq<char>> {
    match r {
        Ok(Some(d)) => Ok(Some((d.user@, opt_str(d.platform)))),
        Ok(None) => Ok(None),
        Err(e) => Err(e@),
    }
}

/// The details from an inspection's output.
pub open spec fn spec_image_details(stdout: Seq<char>) -> Result<Option<(Seq<char>, Option<Seq<char>>)>, Seq<char>> {
    Ok(Some((spec_image_inspect_user(stdout), spec_image_inspect_platform(stdout))))
}

/// What an inspection without the variant gives: the details; none when the
/// image is missing; else the engine's error.
pub open spec fn spec_no_variant_outcome(c: Result<ProcessResult, String>) -> Result<Option<(Seq<char>, Option<Seq<char>>)>, Seq<char>> {
    match c {
        Err(e) => Err(e@),
        Ok(p) => if p.status_code != 0 {
            let error = spec_stderr_or_stdout(p.stdout@, p.stderr@);
            if spec_is_missing_local_image_inspect_error(error) {
                Ok(None)
            } else {
                Err(error)
            }
        } else {
            spec_image_details(p.stdout@)
        },
    }
}

fn inspect_request(args: &[String], env: &EnvDefaults, image_name: &str, with_variant: bool) -> (r: ProcessRequest)
    ensures
        r@ == spec_engine_request(str_views(args@), *env, inspect_args(image_name@, with_variant)),
{
    let mut engine_args: Vec<String> = Vec::new();
    engine_args.push(from_chars(&to_chars("image")));
    engine_args.push(from_chars(&to_chars("inspect")));
    engine_args.push(from_chars(&to_chars("--format")));
    let format = if with_variant {
        "{{.Config.User}}\n{{.Os}}/{{.Architecture}}{{if .Variant}}/{{.Variant}}{{end}}"
    } else {
        "{{.Config.User}}\n{{.Os}}/{{.Architecture}}"
    };
    engine_args.push(from_chars(&to_chars(format)));
    engine_args.push(from_chars(&to_chars(image_name)));
    assert(str_views(engine_args@) =~= inspect_args(image_name@, with_variant));
    engine_request(args, env, engine_args)
}

/// Inspects the image without the platform variant, for engines whose
/// templates do not know it. `run_engine` runs the request; a failure to run
/// is returned as it is.
pub fn inspect_image_details_without_variant<F: Fn(ProcessRequest) -> Result<ProcessResult, String>>(
    args: &[String],
    env: &EnvDefaults,
    image_name: &str,
    run_engine: &F,
) -> (r: Result<Option<ImageInspectDetails>, String>)
    requires
        forall|req: ProcessRequest| call_requires(*run_engine, (req,)),
    ensures
        exists|req: ProcessRequest, c: Result<ProcessResult, String>|
            req@ == spec_engine_request(str_views(args@), *env, inspect_args(image_name@, false))
                && #[trigger] call_ensures(*run_engine, (req,), c) && details_view(r) == spec_no_variant_outcome(c),
{
    let request = inspect_request(args, env, image_name, false);
    let ghost req = request;
    let c = run_engine(request);
    let r = match &c {
        Err(e) => Err(e.clone()),
        Ok(result) => if result.status_code != 0 {
            let error = stderr_or_stdout(result);
            if is_missing_local_image_inspect_error(error.as_str()) {
                Ok(None)
            } else {
                Err(error)
            }
        } else {
            parse_image_inspect_details(result.stdout.as_str())
        },
    };
    assert(call_ensures(*run_engine, (req,), c));
    r
}

/// What one inspection gives: the details; when the engine's template lacks
/// the variant, what the inspection without it gives; none when the image is
/// missing; else the engine's error.
pub open spec fn inspect_once_outcome<F: Fn(ProcessRequest) -> Result<ProcessResult, String>>(
    run_engine: F,
    args: Seq<Seq<char>>,
    env: EnvDefaults,
    image_name: Seq<char>,
    r: Result<Option<(Seq<char>, Option<Seq<char>>)>, Seq<char>>,
) -> bool {
    exists|req: ProcessRequest, c: Result<ProcessResult, String>|
        req@ == spec_engine_request(args, env, inspect_args(image_name, true)) && #[trigger] call_ensures(run_engine, (req,), c)
            && match c {
            Err(e) => r == Err::<Option<(Seq<char>, Option<Seq<char>>)>, Seq<char>>(e@),
            Ok(p) => if p.status_code != 0 {
                let error = spec_stderr_or_stdout(p.stdout@, p.stderr@);
                if spec_is_missing_variant_template_error(error) {
                    exists|req2: ProcessRequest, c2: Result<ProcessResult, String>|
                        req2@ == spec_engine_request(args, env, inspect_args(image_name, false)) && #[trigger] call_ensures(
                            run_engine,
                            (req2,),
                            c2,
                        ) && r == spec_no_variant_outcome(c2)
                } else if spec_is_missing_local_image_inspect_error(error) {
                    r == Ok::<Option<(Seq<char>, Option<Seq<char>>)>, Seq<char>>(None)
                } else {
                    r == Err::<Option<(Seq<char>, Option<Seq<char>>)>, Seq<char>>(error)
                }
            } else {
                r == spec_image_details(p.stdout@)
            },
        }
}

/// Inspects the image for the UID update. `run_engine` runs each request; a
/// failure to run is returned as it is.
pub fn inspect_image_details_for_uid_update_once<F: Fn(ProcessRequest) -> Result<ProcessResult, String>>(
    args: &[String],
    env: &EnvDefaults,
    image_name: &str,
    run_engine: &F,
) -> (r: Result<Option<ImageInspectDetails>, String>)
    requires
        forall|req: ProcessRequest| call_requires(*run_engine, (req,)),
    ensures
        inspect_once_outcome(*run_engine, str_views(args@), *env, image_name@, details_view(r)),
{
    let request = inspect_request(args, env, image_name, true);
    let ghost req = request;
    let c = run_engine(request);
    assert(call_ensures(*run_engine, (req,), c));
    match &c {
        Err(e) => Err(e.clone()),
        Ok(result) => if result.status_code != 0 {
            let error = stderr_or_stdout(result);
            if is_missing_variant_template_error(error.as_str()) {
                return inspect_image_details_without_variant(args, env, image_name, run_engine);
            }
            if is_missing_local_image_inspect_error(error.as_str()) {
                return Ok(None);
            }
            Err(error)
        } else {
            parse_image_inspect_details(result.stdout.as_str())
        },
    }
}

/// Pulls the image: `run_engine` runs `pull <image>`; its error output when
/// it fails, and a failure to run as it is.
pub fn pull_image_for_uid_update<F: Fn(ProcessRequest) -> Result<ProcessResult, String>>(
    args: &[String],
    env: &EnvDefaults,
    image_name: &str,
    run_engine: &F,
) -> (r: Result<(), String>)
    requires
        forall|req: ProcessRequest| call_requires(*run_engine, (req,)),
    ensures
        exists|req: ProcessRequest, c: Result<ProcessResult, String>|
            req@ == spec_engine_request(str_views(args@), *env, seq!["pull"@, image_name@])
                && #[trigger] call_ensures(*run_engine, (req,), c) && match c {
                Err(e) => crate::engine_run::unit_view(r) == Err::<(), Seq<char>>(e@),
                Ok(p) => crate::engine_run::unit_view(r) == crate::engine_run::spec_command_outcome(p.status_code, p.stdout@, p.stderr@),
            },
{
    let mut engine_args: Vec<String> = Vec::new();
    engine_args.push(from_chars(&to_chars("pull")));
    engine_args.push(from_chars(&to_chars(image_name)));
    assert(str_views(engine_args@) =~= seq!["pull"@, image_name@]);
    let request = engine_request(args, env, engine_args);
    let ghost req = request;
    let c = run_engine(request);
    let r = match &c {
        Err(e) => Err(e.clone()),
        Ok(result) => if result.status_code != 0 {
            Err(stderr_or_stdout(result))
        } else {
            Ok(())
        },
    };
    assert(call_ensures(*run_engine, (req,), c));
    r
}

/// What the inspection for the UID update gives (see
/// `inspect_image_details_for_uid_update`): the first inspection's details or
/// error; when the image is missing and the configuration names it, the pull's
/// error or what a second inspection gives; else none.
pub open spec fn spec_uid_inspection<F: Fn(ProcessRequest) -> Result<ProcessResult, String>>(
    run_engine: F,
    args: Seq<Seq<char>>,
    env: EnvDefaults,
    configuration: JsonView,
    image_name: Seq<char>,
    r: Result<Option<(Seq<char>, Option<Seq<char>>)>, Seq<char>>,
) -> bool {
    exists|first: Result<Option<(Seq<char>, Option<Seq<char>>)>, Seq<char>>|
        #[trigger] inspect_once_outcome(run_engine, args, env, image_name, first) && match first {
            Err(e) => r == Err::<Option<(Seq<char>, Option<Seq<char>>)>, Seq<char>>(e),
            Ok(Some(d)) => r == Ok::<Option<(Seq<char>, Option<Seq<char>>)>, Seq<char>>(Some(d)),
            Ok(None) => if get_str(configuration, "image"@) is Some {
                exists|req: ProcessRequest, c: Result<ProcessResult, String>|
                    req@ == spec_engine_request(args, env, seq!["pull"@, image_name])
                        && #[trigger] call_ensures(run_engine, (req,), c) && match c {
                        Err(e) => r == Err::<Option<(Seq<char>, Option<Seq<char>>)>, Seq<char>>(e@),
                        Ok(p) => if p.status_code != 0 {
                            r == Err::<Option<(Seq<char>, Option<Seq<char>>)>, Seq<char>>(
                                spec_stderr_or_stdout(p.stdout@, p.stderr@),
                            )
                        } else {
                            inspect_once_outcome(run_engine, args, env, image_name, r)
                        },
                    }
            } else {
                r == Ok::<Option<(Seq<char>, Option<Seq<char>>)>, Seq<char>>(None)
            },
        }
}

/// Inspects the image for the UID update; an image the configuration names
/// that is not present locally is pulled and inspected again.
pub fn inspect_image_details_for_uid_update<F: Fn(ProcessRequest) -> Result<ProcessResult, String>>(
    args: &[String],
    env: &EnvDefaults,
    configuration: &JsonValue,
    image_name: &str,
    run_engine: &F,
) -> (r: Result<Option<ImageInspectDetails>, String>)
    requires
        forall|req: ProcessRequest| call_requires(*run_engine, (req,)),
    ensures
        spec_uid_inspection(*run_engine, str_views(args@), *env, configuration@, image_name@, details_view(r)),
{
    let first = inspect_image_details_for_uid_update_once(args, env, image_name, run_engine);
    let ghost fv = details_view(first);
    match first {
        Err(e) => Err(e),
        Ok(Some(d)) => Ok(Some(d)),
        Ok(None) => {
            if get_str_exec(configuration, "image").is_some() {
                let pulled = pull_image_for_uid_update(args, env, image_name, run_engine);
                match pulled {
                    Err(e) => {
                        return Err(e);
                    },
                    Ok(()) => {},
                }
                inspect_image_details_for_uid_update_once(args, env, image_name, run_engine)
            } else {
                Ok(None)
            }
        },
    }
}


/// The user given in `runArgs`, looking from the last argument back: the
/// string after `-u` or `--user`, or the value of `-u=` or `--user=`.
pub open spec fn run_args_user_before(run_args: Seq<JsonView>, end: int) -> Option<Seq<char>>
    decreases end,
{
    if end <= 0 {
        None
    } else {
        let index = end - 1;
        match json_str(run_args[index]) {
            None => run_args_user_before(run_args, index),
            Some(arg) => if arg == "-u"@ || arg == "--user"@ {
                match if index + 1 < run_args.len() { json_str(run_args[index + 1]) } else { None } {
                    Some(user) => Some(user),
                    None => run_args_user_before(run_args, index),
                }
            } else if crate::text::strip_prefix(arg, "-u="@) is Some {
                crate::text::strip_prefix(arg, "-u="@)
            } else if crate::text::strip_prefix(arg, "--user="@) is Some {
                crate::text::strip_prefix(arg, "--user="@)
            } else {
                run_args_user_before(run_args, index)
            },
        }
    }
}

pub open spec fn spec_uid_update_run_args_user(configuration: JsonView) -> Option<Seq<char>> {
    match json_get(configuration, "runArgs"@) {
        Some(JsonView::Array(run_args)) => run_args_user_before(run_args, run_args.len() as int),
        _ => None,
    }
}

pub fn uid_update_run_args_user(configuration: &JsonValue) -> (r: Option<String>)
    ensures
        opt_str(r) == spec_uid_update_run_args_user(configuration@),
{
    let run_args = match configuration.get("runArgs") {
        Some(v) => match v.as_array() {
            Some(a) => a,
            None => {
                return None;
            },
        },
        None => {
            return None;
        },
    };
    proof {
        lemma_items_view(run_args@);
    }
    let ghost rv = items_view(run_args@);
    let mut index = run_args.len();
    while index > 0
        invariant
            index <= run_args.len(),
            rv == items_view(run_args@),
            rv.len() == run_args@.len(),
            forall|i: int| 0 <= i < run_args@.len() ==> #[trigger] rv[i] == run_args@[i]@,
            spec_uid_update_run_args_user(configuration@) == run_args_user_before(rv, index as int),
        decreases index,
    {
        let i = index - 1;
        assert(rv[i as int] == run_args@[i as int]@);
        match run_args[i].as_str() {
            None => {},
            Some(arg) => {
                if str_eq(arg.as_str(), "-u") || str_eq(arg.as_str(), "--user") {
                    if i + 1 < run_args.len() {
                        assert(rv[i + 1] == run_args@[i + 1]@);
                        match run_args[i + 1].as_str() {
                            Some(user) => {
                                return Some(from_chars(&to_chars(user.as_str())));
                            },
                            None => {},
                        }
                    }
                } else {
                    let ac = to_chars(arg.as_str());
                    match crate::text::strip_prefix_str(&ac, "-u=") {
                        Some(u) => {
                            return Some(from_chars(&u));
                        },
                        None => {},
                    }
                    match crate::text::strip_prefix_str(&ac, "--user=") {
                        Some(u) => {
                            return Some(from_chars(&u));
                        },
                        None => {},
                    }
                }
            },
        }
        index = i;
    }
    None
}

/// The user the configuration or the run arguments name for the container.
pub open spec fn spec_uid_update_configured_user(configuration: JsonView, run_args_user: Option<Seq<char>>) -> Option<Seq<char>> {
    match crate::workspace::spec_configured_user(configuration) {
        Some(u) => Some(u),
        None => run_args_user,
    }
}

pub fn uid_update_configured_user(configuration: &JsonValue, run_args_user: Option<&str>) -> (r: Option<String>)
    ensures
        opt_str(r) == spec_uid_update_configured_user(
            configuration@,
            match run_args_user {
                Some(u) => Some(u@),
                None => None,
            },
        ),
{
    match crate::workspace::configured_user(configuration) {
        Some(u) => Some(u),
        None => match run_args_user {
            Some(u) => Some(from_chars(&to_chars(u))),
            None => None,
        },
    }
}

/// The user whose UID is updated: the configured user, else the run
/// arguments' user, else the image's user; none when that user cannot be updated.
pub open spec fn spec_uid_update_remote_user(configuration: JsonView, run_args_user: Option<Seq<char>>, image_user: Seq<char>) -> Option<Seq<char>> {
    let user = match spec_uid_update_configured_user(configuration, run_args_user) {
        Some(u) => u,
        None => image_user,
    };
    if spec_is_updatable_user(user) {
        Some(user)
    } else {
        None
    }
}

pub fn uid_update_remote_user(configuration: &JsonValue, run_args_user: Option<&str>, image_user: &str) -> (r: Option<String>)
    ensures
        opt_str(r) == spec_uid_update_remote_user(
            configuration@,
            match run_args_user {
                Some(u) => Some(u@),
                None => None,
            },
            image_user@,
        ),
{
    let user = match uid_update_configured_user(configuration, run_args_user) {
        Some(u) => u,
        None => from_chars(&to_chars(image_user)),
    };
    if is_updatable_user(user.as_str()) {
        Some(user)
    } else {
        None
    }
}

/// What a UID update needs: whose UID, the image's own user, the image it
/// builds, and the platform to build for.
#[derive(Debug, PartialEq, Eq)]
pub struct UidUpdateDetails {
    pub remote_user: String,
    pub image_user: String,
    pub updated_image_name: String,
    pub platform: Option<String>,
}

pub fn uid_update_details(
    configuration: &JsonValue,
    workspace_folder: &str,
    image_name: &str,
    image_user: &str,
    runtime_user: Option<&str>,
    platform: Option<&str>,
) -> (r: Option<UidUpdateDetails>)
    ensures
        match spec_uid_update_remote_user(
            configuration@,
            match runtime_user {
                Some(u) => Some(u@),
                None => None,
            },
            image_user@,
        ) {
            None => r is None,
            Some(user) => match r {
                Some(d) => d.remote_user@ == user && d.image_user@ == image_user@ && d.updated_image_name@
                    == spec_uid_update_image_name(workspace_folder@, image_name@) && opt_str(d.platform) == match platform {
                    Some(p) => Some(p@),
                    None => None,
                },
                None => false,
            },
        },
{
    let remote_user = match uid_update_remote_user(configuration, runtime_user, image_user) {
        Some(u) => u,
        None => {
            return None;
        },
    };
    Some(UidUpdateDetails {
        remote_user,
        image_user: from_chars(&to_chars(image_user)),
        updated_image_name: uid_update_image_name(workspace_folder, image_name),
        platform: match platform {
            Some(p) => Some(from_chars(&to_chars(p))),
            None => None,
        },
    })
}

/// Whether the UID update runs: only on supported platforms, never with the
/// default `never`; the configuration's `updateRemoteUserUID` decides, else the
/// default being `on` (which it is unless `--update-remote-user-uid-default`,
/// or the environment's default for it, says otherwise); and only for a
/// configuration object.
pub open spec fn spec_should_update_remote_user_uid(configuration: JsonView, args: Seq<Seq<char>>, env: EnvDefaults, platform_supported: bool) -> bool {
    let default_value = match crate::options::spec_env_default_value(
        args,
        "--update-remote-user-uid-default"@,
        opt_str(env.update_remote_user_uid_default),
    ) {
        Some(v) => v,
        None => "on"@,
    };
    platform_supported && default_value != "never"@ && match crate::json::get_bool(configuration, "updateRemoteUserUID"@) {
        Some(b) => b,
        None => default_value == "on"@,
    } && configuration is Object
}

pub fn should_update_remote_user_uid(configuration: &JsonValue, args: &[String], env: &EnvDefaults, platform_supported: bool) -> (r: bool)
    ensures
        r == spec_should_update_remote_user_uid(configuration@, str_views(args@), *env, platform_supported),
{
    if !platform_supported {
        return false;
    }
    let default_value = match crate::options::env_default_value(
        args,
        "--update-remote-user-uid-default",
        &env.update_remote_user_uid_default,
    ) {
        Some(v) => v,
        None => from_chars(&to_chars("on")),
    };
    if str_eq(default_value.as_str(), "never") {
        return false;
    }
    let should_update = match crate::json::get_bool_exec(configuration, "updateRemoteUserUID") {
        Some(b) => b,
        None => str_eq(default_value.as_str(), "on"),
    };
    if !should_update {
        return false;
    }
    configuration.is_object()
}


/// The UID-update base image is stable: computing it again from its own
/// result changes nothing.
pub proof fn law_uid_update_base_image_is_stable(args: Seq<Seq<char>>, env: EnvDefaults, image_name: Seq<char>)
    ensures
        spec_uid_update_base_image(args, env, spec_uid_update_base_image(args, env, image_name))
            == spec_uid_update_base_image(args, env, image_name),
{
    let once = spec_uid_update_base_image(args, env, image_name);
    if spec_uses_podman_engine(args, env) && !spec_has_registry_hostname(image_name) {
        reveal_strlit("localhost/");
        assert(once.take(10) =~= "localhost/"@);
        assert(spec_has_registry_hostname(once));
    }
}

/// The user the container runs as by its run arguments, else the compose
/// service's user.
pub open spec fn spec_uid_runtime_user(configuration: JsonView, compose_service_user: Option<Seq<char>>) -> Option<Seq<char>> {
    match spec_uid_update_run_args_user(configuration) {
        Some(u) => Some(u),
        None => compose_service_user,
    }
}

/// Whether a configured (or runtime) user that cannot be updated rules the
/// UID update out before the image is looked at.
pub open spec fn spec_uid_update_ruled_out(configuration: JsonView, runtime_user: Option<Seq<char>>) -> bool {
    match spec_uid_update_configured_user(configuration, runtime_user) {
        Some(u) => !spec_is_updatable_user(u),
        None => false,
    }
}

/// The UID update's details as values: remote user, image user, updated image
/// name and platform.
pub open spec fn spec_uid_details(
    configuration: JsonView,
    workspace_folder: Seq<char>,
    image_name: Seq<char>,
    image_user: Seq<char>,
    runtime_user: Option<Seq<char>>,
    platform: Option<Seq<char>>,
) -> Option<(Seq<char>, Seq<char>, Seq<char>, Option<Seq<char>>)> {
    match spec_uid_update_remote_user(configuration, runtime_user, image_user) {
        Some(user) => Some((user, image_user, spec_uid_update_image_name(workspace_folder, image_name), platform)),
        None => None,
    }
}

pub open spec fn uid_details_view(r: Result<Option<UidUpdateDetails>, String>) -> Result<Option<(Seq<char>, Seq<char>, Seq<char>, Option<Seq<char>>)>, Seq<char>> {
    match r {
        Ok(Some(d)) => Ok(Some((d.remote_user@, d.image_user@, d.updated_image_name@, opt_str(d.platform)))),
        Ok(None) => Ok(None),
        Err(e) => Err(e@),
    }
}

/// The UID update to make, if any: none when the configured user cannot be
/// updated; else the image is inspected (see `spec_uid_inspection`), its error
/// passed on, none without details, and otherwise the details of
/// `spec_uid_details` for the image's user and platform.
pub fn resolve_uid_update_details<F: Fn(ProcessRequest) -> Result<ProcessResult, String>>(
    configuration: &JsonValue,
    args: &[String],
    env: &EnvDefaults,
    workspace_folder: &str,
    image_name: &str,
    compose_service_user: Option<&str>,
    run_engine: &F,
) -> (r: Result<Option<UidUpdateDetails>, String>)
    requires
        forall|req: ProcessRequest| call_requires(*run_engine, (req,)),
    ensures
        ({
            let runtime_user = spec_uid_runtime_user(
                configuration@,
                match compose_service_user {
                    Some(u) => Some(u@),
                    None => None,
                },
            );
            if spec_uid_update_ruled_out(configuration@, runtime_user) {
                uid_details_view(r) == Ok::<Option<(Seq<char>, Seq<char>, Seq<char>, Option<Seq<char>>)>, Seq<char>>(None)
            } else {
                exists|inspected: Result<Option<(Seq<char>, Option<Seq<char>>)>, Seq<char>>|
                    #[trigger] spec_uid_inspection(*run_engine, str_views(args@), *env, configuration@, image_name@, inspected)
                        && match inspected {
                        Err(e) => uid_details_view(r) == Err::<Option<(Seq<char>, Seq<char>, Seq<char>, Option<Seq<char>>)>, Seq<char>>(e),
                        Ok(None) => uid_details_view(r) == Ok::<Option<(Seq<char>, Seq<char>, Seq<char>, Option<Seq<char>>)>, Seq<char>>(None),
                        Ok(Some((user, platform))) => uid_details_view(r) == Ok::<
                            Option<(Seq<char>, Seq<char>, Seq<char>, Option<Seq<char>>)>,
                            Seq<char>,
                        >(spec_uid_details(configuration@, workspace_folder@, image_name@, user, runtime_user, platform)),
                    }
            }
        }),
{
    let runtime_user = match uid_update_run_args_user(configuration) {
        Some(u) => Some(u),
        None => match compose_service_user {
            Some(u) => Some(from_chars(&to_chars(u))),
            None => None,
        },
    };
    let configured = match &runtime_user {
        Some(u) => uid_update_configured_user(configuration, Some(u.as_str())),
        None => uid_update_configured_user(configuration, None),
    };
    match &configured {
        Some(user) => {
            if !is_updatable_user(user.as_str()) {
                return Ok(None);
            }
        },
        None => {},
    }
    let inspected = inspect_image_details_for_uid_update(args, env, configuration, image_name, run_engine);
    let ghost iv = details_view(inspected);
    assert(spec_uid_inspection(*run_engine, str_views(args@), *env, configuration@, image_name@, iv));
    match inspected {
        Err(e) => Err(e),
        Ok(None) => Ok(None),
        Ok(Some(details)) => {
            let r = match (&runtime_user, &details.platform) {
                (Some(u), Some(p)) => uid_update_details(configuration, workspace_folder, image_name, details.user.as_str(), Some(u.as_str()), Some(p.as_str())),
                (Some(u), None) => uid_update_details(configuration, workspace_folder, image_name, details.user.as_str(), Some(u.as_str()), None),
                (None, Some(p)) => uid_update_details(configuration, workspace_folder, image_name, details.user.as_str(), None, Some(p.as_str())),
                (None, None) => uid_update_details(configuration, workspace_folder, image_name, details.user.as_str(), None, None),
            };
            Ok(r)
        },
    }
}

/// The engine arguments of the UID update's image build: `build`, the
/// platform when the image has one, the build arguments (base image, remote
/// user, new UID and GID, image user), the tag, the Dockerfile and the context.
pub open spec fn spec_uid_update_build_args(
    platform: Option<Seq<char>>,
    base_image: Seq<char>,
    remote_user: Seq<char>,
    new_uid: Seq<char>,
    new_gid: Seq<char>,
    image_user: Seq<char>,
    updated_image_name: Seq<char>,
    dockerfile: Seq<char>,
    build_context: Seq<char>,
) -> Seq<Seq<char>> {
    seq!["build"@] + (match platform {
        Some(p) => seq!["--platform"@, p],
        None => seq![],
    }) + seq![
        "--build-arg"@,
        "BASE_IMAGE="@ + base_image,
        "--build-arg"@,
        "REMOTE_USER="@ + remote_user,
        "--build-arg"@,
        "NEW_UID="@ + new_uid,
        "--build-arg"@,
        "NEW_GID="@ + new_gid,
        "--build-arg"@,
        "IMAGE_USER="@ + image_user,
        "-t"@,
        updated_image_name,
        "-f"@,
        dockerfile,
        build_context,
    ]
}

fn push_joined(v: &mut Vec<String>, prefix: &str, value: &str)
    ensures
        str_views(final(v)@) == str_views(old(v)@).push(prefix@ + value@),
{
    let mut c = to_chars(prefix);
    crate::text::push_str(&mut c, value);
    crate::exec::push_string(v, from_chars(&c).as_str());
}

/// The build arguments of the UID update (see `spec_uid_update_build_args`),
/// for its details, the base image, the host's UID and GID, and the paths of
/// the Dockerfile and the build context.
pub fn uid_update_build_args(
    update: &UidUpdateDetails,
    base_image: &str,
    new_uid: &str,
    new_gid: &str,
    dockerfile: &str,
    build_context: &str,
) -> (r: Vec<String>)
    ensures
        str_views(r@) == spec_uid_update_build_args(
            opt_str(update.platform),
            base_image@,
            update.remote_user@,
            new_uid@,
            new_gid@,
            update.image_user@,
            update.updated_image_name@,
            dockerfile@,
            build_context@,
        ),
{
    let mut v: Vec<String> = Vec::new();
    crate::exec::push_string(&mut v, "build");
    match &update.platform {
        Some(p) => {
            crate::exec::push_string(&mut v, "--platform");
            crate::exec::push_string(&mut v, p.as_str());
        },
        None => {},
    }
    crate::exec::push_string(&mut v, "--build-arg");
    push_joined(&mut v, "BASE_IMAGE=", base_image);
    crate::exec::push_string(&mut v, "--build-arg");
    push_joined(&mut v, "REMOTE_USER=", update.remote_user.as_str());
    crate::exec::push_string(&mut v, "--build-arg");
    push_joined(&mut v, "NEW_UID=", new_uid);
    crate::exec::push_string(&mut v, "--build-arg");
    push_joined(&mut v, "NEW_GID=", new_gid);
    crate::exec::push_string(&mut v, "--build-arg");
    push_joined(&mut v, "IMAGE_USER=", update.image_user.as_str());
    crate::exec::push_string(&mut v, "-t");
    crate::exec::push_string(&mut v, update.updated_image_name.as_str());
    crate::exec::push_string(&mut v, "-f");
    crate::exec::push_string(&mut v, dockerfile);
    crate::exec::push_string(&mut v, build_context);
    v
}

} // verus!
