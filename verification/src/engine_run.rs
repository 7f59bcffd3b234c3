//! Running containers: the environment references in `containerEnv` values and
//! their expansion from the image's environment, and how the engine's answers
//! to `start`, `rm` and `info` are read.

use vstd::prelude::*;
use crate::engine::{
    engine_request, env_lookup, pair_views, spec_engine_request, spec_stderr_or_stdout,
    stderr_or_stdout, ProcessRequest, ProcessResult,
};
use crate::discovery::{
    config_file_label, devcontainer_config_file_label, devcontainer_local_folder_label, label_arg,
    label_arg_exec, local_folder_label, normalize_devcontainer_label_path_for_platform,
    spec_normalize_label_path,
};
use crate::exec::push_string;
use crate::metadata::{serialized_container_metadata, spec_serialized_metadata};
use crate::json::{
    entries_view, get_bool, get_bool_exec, items_view, json_get, json_view, lemma_items_view,
    member_strings, member_strings_exec, JsonValue, JsonView,
};
use crate::mounts::{cli_mount_values, mount_value_to_engine_arg, spec_cli_mount_values, spec_mount_value_to_engine_arg};
use crate::options::{
    env_default_value, opt_str, option_values, spec_env_default_value, spec_option_values, str_eq,
    EnvDefaults,
};
use crate::text::{
    chars_eq, contains_str, contains_str_chars, find_char, from_chars, lemma_find_char,
    lower, lower_chars, push_all, push_str, slice_of, split_once, split_once_chars, str_views, to_chars,
    trim, trim_chars,
};

verus! {

/// A character that may follow `$` to start a reference: `{`, an ASCII letter or `_`.
pub open spec fn starts_reference(c: char) -> bool {
    c == '{' || crate::text::is_ascii_alpha(c) || c == '_'
}

/// Whether the value has a `$` that starts a reference.
pub open spec fn spec_contains_environment_reference(value: Seq<char>) -> bool {
    exists|i: int| 0 <= i < value.len() - 1 && value[i] == '$' && starts_reference(#[trigger] value[i + 1])
}

pub fn contains_environment_reference(value: &str) -> (r: bool)
    ensures
        r == spec_contains_environment_reference(value@),
{
    let v = to_chars(value);
    let mut i: usize = 0;
    while i < v.len() && i + 1 < v.len()
        invariant
            v@ == value@,
            forall|j: int| 0 <= j < i && j < v.len() - 1 ==> !(v@[j] == '$' && starts_reference(#[trigger] v@[j + 1])),
        decreases v.len() - i,
    {
        let c = v[i + 1];
        if v[i] == '$' && (c == '{' || ('a' <= c && c <= 'z') || ('A' <= c && c <= 'Z') || c == '_') {
            assert(starts_reference(v@[i + 1]));
            return true;
        }
        i = i + 1;
    }
    false
}

/// The number of leading ASCII letters, digits and `_`.
pub open spec fn name_run(s: Seq<char>) -> nat
    decreases s.len(),
{
    if s.len() > 0 && (crate::text::is_ascii_alnum(s[0]) || s[0] == '_') {
        1 + name_run(s.drop_first())
    } else {
        0
    }
}

pub proof fn lemma_name_run_bound(s: Seq<char>)
    ensures
        name_run(s) <= s.len(),
    decreases s.len(),
{
    if s.len() > 0 && (crate::text::is_ascii_alnum(s[0]) || s[0] == '_') {
        lemma_name_run_bound(s.drop_first());
    }
}

/// The reference `s.take(end)` replaced by the value of `name` when the
/// environment has one, else kept as it is.
pub open spec fn replaced(s: Seq<char>, end: int, name: Seq<char>, environment: Seq<(Seq<char>, Seq<char>)>) -> Seq<char> {
    match env_lookup(environment, name) {
        Some(v) => v,
        None => s.take(end),
    }
}

/// `${NAME}` and `$NAME` references replaced by their values from the
/// environment; unknown references, a `$` at the end and a `${` without `}`
/// are kept as written.
pub open spec fn expand_from(s: Seq<char>, environment: Seq<(Seq<char>, Seq<char>)>) -> Seq<char>
    decreases s.len(),
{
    if s.len() == 0 {
        seq![]
    } else if s[0] != '$' || s.len() == 1 {
        seq![s[0]] + expand_from(s.drop_first(), environment)
    } else if s[1] == '{' {
        match find_char(s.skip(2), '}') {
            None => seq!['$'] + expand_from(s.drop_first(), environment),
            Some(c) => {
                proof {
                    lemma_find_char(s.skip(2), '}');
                }
                let end = (2 + c + 1) as int;
                replaced(s, end, s.subrange(2, 2 + c as int), environment) + expand_from(s.skip(end), environment)
            },
        }
    } else {
        proof {
            lemma_name_run_bound(s.drop_first());
        }
        let end = (1 + name_run(s.drop_first())) as int;
        replaced(s, end, s.subrange(1, end), environment) + expand_from(s.skip(end), environment)
    }
}

fn lookup_pair(environment: &Vec<(String, String)>, name: &Vec<char>) -> (r: Option<String>)
    ensures
        crate::options::opt_str(r) == env_lookup(pair_views(environment@), name@),
{
    let ghost ev = pair_views(environment@);
    let mut k: usize = 0;
    assert(ev.skip(0) =~= ev);
    while k < environment.len()
        invariant
            k <= environment.len(),
            ev == pair_views(environment@),
            env_lookup(ev, name@) == env_lookup(ev.skip(k as int), name@),
        decreases environment.len() - k,
    {
        assert(ev.skip(k as int).drop_first() =~= ev.skip(k + 1));
        assert(ev.skip(k as int)[0] == ev[k as int]);
        if chars_eq(&to_chars(environment[k].0.as_str()), name) {
            return Some(from_chars(&to_chars(environment[k].1.as_str())));
        }
        k = k + 1;
    }
    None
}

pub fn expand_environment_references(value: &str, environment: &Vec<(String, String)>) -> (r: String)
    ensures
        r@ == expand_from(value@, pair_views(environment@)),
{
    let ghost env = pair_views(environment@);
    let s = to_chars(value);
    let mut expanded: Vec<char> = Vec::new();
    let mut index: usize = 0;
    assert(s@.skip(0) =~= s@);
    while index < s.len()
        invariant
            index <= s.len(),
            s@ == value@,
            env == pair_views(environment@),
            expand_from(value@, env) == expanded@ + expand_from(s@.skip(index as int), env),
        decreases s.len() - index,
    {
        let ghost rest = s@.skip(index as int);
        assert(rest.len() > 0 && rest[0] == s@[index as int]);
        if s[index] != '$' || index + 1 == s.len() {
            assert(rest.drop_first() =~= s@.skip(index + 1));
            expanded.push(s[index]);
            index = index + 1;
            continue;
        }
        assert(rest[1] == s@[index + 1]);
        let (name_start, name_end, reference_end) = if s[index + 1] == '{' {
            let mut j = index + 2;
            while j < s.len() && s[j] != '}'
                invariant
                    index + 2 <= j <= s.len(),
                    forall|t: int| index + 2 <= t < j ==> s@[t] != '}',
                decreases s.len() - j,
            {
                j = j + 1;
            }
            proof {
                crate::text::lemma_find_char_is(rest.skip(2), '}', if j < s.len() { Some((j - index - 2) as nat) } else { None });
            }
            if j == s.len() {
                assert(rest.drop_first() =~= s@.skip(index + 1));
                expanded.push('$');
                index = index + 1;
                continue;
            }
            (index + 2, j, j + 1)
        } else {
            let mut j = index + 1;
            while j < s.len() && (('a' <= s[j] && s[j] <= 'z') || ('A' <= s[j] && s[j] <= 'Z') || ('0' <= s[j] && s[j] <= '9') || s[j] == '_')
                invariant
                    index + 1 <= j <= s.len(),
                    name_run(s@.skip(index + 1)) == (j - index - 1) + name_run(s@.skip(j as int)),
                decreases s.len() - j,
            {
                assert(s@.skip(j as int).drop_first() =~= s@.skip(j + 1));
                j = j + 1;
            }
            proof {
                if j < s.len() {
                    assert(s@.skip(j as int)[0] == s@[j as int]);
                }
                assert(rest.drop_first() =~= s@.skip(index + 1));
            }
            (index + 1, j, j)
        };
        let name = slice_of(&s, name_start, name_end);
        assert(name@ =~= rest.subrange(name_start - index, name_end - index));
        let original = slice_of(&s, index, reference_end);
        assert(original@ =~= rest.take(reference_end - index));
        match lookup_pair(environment, &name) {
            Some(v) => {
                let vc = to_chars(v.as_str());
                push_all(&mut expanded, &vc);
            },
            None => {
                push_all(&mut expanded, &original);
            },
        }
        assert(rest.skip(reference_end - index) =~= s@.skip(reference_end as int));
        index = reference_end;
    }
    from_chars(&expanded)
}

/// Whether the engine's error says that the container is being removed already.
pub open spec fn spec_container_removal_already_in_progress(error: Seq<char>) -> bool {
    contains_str(lower(error), "already in progress"@)
}

pub fn container_removal_already_in_progress(error: &str) -> (r: bool)
    ensures
        r == spec_container_removal_already_in_progress(error@),
{
    contains_str_chars(&lower_chars(&to_chars(error)), "already in progress")
}

/// The outcome of an engine command that only has to succeed: its error output
/// when it failed.
pub open spec fn spec_command_outcome(status_code: i32, stdout: Seq<char>, stderr: Seq<char>) -> Result<(), Seq<char>> {
    if status_code != 0 {
        Err(spec_stderr_or_stdout(stdout, stderr))
    } else {
        Ok(())
    }
}

pub open spec fn unit_view(r: Result<(), String>) -> Result<(), Seq<char>> {
    match r {
        Ok(()) => Ok(()),
        Err(e) => Err(e@),
    }
}

/// Starts a stopped container: `run_engine` runs `start <id>`; a failure to run
/// is returned as it is.
pub fn start_existing_container<F: FnOnce(ProcessRequest) -> Result<ProcessResult, String>>(
    args: &[String],
    env: &EnvDefaults,
    container_id: &str,
    run_engine: F,
) -> (r: Result<(), String>)
    requires
        forall|req: ProcessRequest| call_requires(run_engine, (req,)),
    ensures
        exists|req: ProcessRequest, c: Result<ProcessResult, String>|
            req@ == spec_engine_request(str_views(args@), *env, seq!["start"@, container_id@])
                && #[trigger] call_ensures(run_engine, (req,), c) && match c {
                Err(e) => unit_view(r) == Err::<(), Seq<char>>(e@),
                Ok(p) => unit_view(r) == spec_command_outcome(p.status_code, p.stdout@, p.stderr@),
            },
{
    let mut engine_args: Vec<String> = Vec::new();
    engine_args.push(from_chars(&to_chars("start")));
    engine_args.push(from_chars(&to_chars(container_id)));
    assert(str_views(engine_args@) =~= seq!["start"@, container_id@]);
    let request = engine_request(args, env, engine_args);
    let ghost req = request;
    let c = run_engine(request);
    let r = match &c {
        Err(e) => Err(e.clone()),
        Ok(result) => if result.status_code != 0 {
            Err(stderr_or_stdout(result))
        } else {
            Ok(())
        },
    };
    assert(call_ensures(run_engine, (req,), c));
    r
}

/// Whether the engine reports the NVIDIA runtime: `info` succeeded and mentions
/// `nvidia-container-runtime`. A failure to run is returned as it is.
pub fn detect_gpu_support<F: FnOnce(ProcessRequest) -> Result<ProcessResult, String>>(
    args: &[String],
    env: &EnvDefaults,
    run_engine: F,
) -> (r: Result<bool, String>)
    requires
        forall|req: ProcessRequest| call_requires(run_engine, (req,)),
    ensures
        exists|req: ProcessRequest, c: Result<ProcessResult, String>|
            req@ == spec_engine_request(str_views(args@), *env, seq!["info"@, "-f"@, "{{.Runtimes.nvidia}}"@])
                && #[trigger] call_ensures(run_engine, (req,), c) && match c {
                Err(e) => r is Err && r->Err_0@ == e@,
                Ok(p) => r == Ok::<bool, String>(p.status_code == 0 && contains_str(p.stdout@, "nvidia-container-runtime"@)),
            },
{
    let mut engine_args: Vec<String> = Vec::new();
    engine_args.push(from_chars(&to_chars("info")));
    engine_args.push(from_chars(&to_chars("-f")));
    engine_args.push(from_chars(&to_chars("{{.Runtimes.nvidia}}")));
    assert(str_views(engine_args@) =~= seq!["info"@, "-f"@, "{{.Runtimes.nvidia}}"@]);
    let request = engine_request(args, env, engine_args);
    let ghost req = request;
    let c = run_engine(request);
    let r = match &c {
        Err(e) => Err(e.clone()),
        Ok(result) => if result.status_code != 0 {
            Ok(false)
        } else {
            Ok(contains_str_chars(&to_chars(result.stdout.as_str()), "nvidia-container-runtime"))
        },
    };
    assert(call_ensures(run_engine, (req,), c));
    r
}


/// With no variables to substitute, expansion gives the value back unchanged:
/// every reference stays as written.
pub proof fn law_expand_without_environment_is_identity(s: Seq<char>)
    ensures
        expand_from(s, Seq::<(Seq<char>, Seq<char>)>::empty()) == s,
    decreases s.len(),
{
    let e = Seq::<(Seq<char>, Seq<char>)>::empty();
    if s.len() == 0 {
    } else if s[0] != '$' || s.len() == 1 {
        law_expand_without_environment_is_identity(s.drop_first());
        assert(seq![s[0]] + s.drop_first() =~= s);
    } else if s[1] == '{' {
        match find_char(s.skip(2), '}') {
            None => {
                law_expand_without_environment_is_identity(s.drop_first());
                assert(seq!['$'] + s.drop_first() =~= s);
            },
            Some(c) => {
                lemma_find_char(s.skip(2), '}');
                let end = (2 + c + 1) as int;
                law_expand_without_environment_is_identity(s.skip(end));
                assert(s.take(end) + s.skip(end) =~= s);
            },
        }
    } else {
        lemma_name_run_bound(s.drop_first());
        let end = (1 + name_run(s.drop_first())) as int;
        law_expand_without_environment_is_identity(s.skip(end));
        assert(s.take(end) + s.skip(end) =~= s);
    }
}


/// `flag value` for each value, in order.
pub open spec fn flag_pairs(flag: Seq<char>, values: Seq<Seq<char>>) -> Seq<Seq<char>>
    decreases values.len(),
{
    if values.len() == 0 {
        seq![]
    } else {
        flag_pairs(flag, values.drop_last()) + seq![flag, values.last()]
    }
}

/// Appends `flag value` for each value, in order.
pub fn push_flag_pairs(out: &mut Vec<String>, flag: &str, values: &Vec<String>)
    ensures
        str_views(final(out)@) == str_views(old(out)@) + flag_pairs(flag@, str_views(values@)),
{
    let ghost start = str_views(out@);
    let ghost vv = str_views(values@);
    let mut k: usize = 0;
    assert(vv.take(0) =~= Seq::<Seq<char>>::empty());
    assert(start + flag_pairs(flag@, vv.take(0)) =~= start);
    while k < values.len()
        invariant
            k <= values.len(),
            vv == str_views(values@),
            str_views(out@) == start + flag_pairs(flag@, vv.take(k as int)),
        decreases values.len() - k,
    {
        assert(vv.take(k + 1).drop_last() =~= vv.take(k as int));
        assert(vv.take(k + 1).last() == values@[k as int]@);
        push_string(out, flag);
        push_string(out, values[k].as_str());
        assert(str_views(out@) =~= start + flag_pairs(flag@, vv.take(k + 1)));
        k = k + 1;
    }
    assert(vv.take(k as int) =~= vv);
}

/// The engine arguments of the `mounts` items that convert to one.
pub open spec fn mount_items_args(items: Seq<JsonView>) -> Seq<Seq<char>>
    decreases items.len(),
{
    if items.len() == 0 {
        seq![]
    } else {
        mount_items_args(items.drop_last()) + match spec_mount_value_to_engine_arg(items.last()) {
            Some(m) => seq![m],
            None => seq![],
        }
    }
}

/// The engine arguments of the configuration's `mounts`.
pub open spec fn config_mount_args(configuration: JsonView) -> Seq<Seq<char>> {
    match json_get(configuration, "mounts"@) {
        Some(JsonView::Array(items)) => mount_items_args(items),
        _ => seq![],
    }
}

pub fn config_mount_args_exec(configuration: &JsonValue) -> (r: Vec<String>)
    ensures
        str_views(r@) == config_mount_args(configuration@),
{
    let mut out: Vec<String> = Vec::new();
    assert(str_views(out@) =~= Seq::<Seq<char>>::empty());
    match configuration.get("mounts") {
        Some(m) => match m.as_array() {
            Some(items) => {
                proof {
                    lemma_items_view(items@);
                }
                let ghost iv = items_view(items@);
                let mut k: usize = 0;
                assert(iv.take(0) =~= Seq::<JsonView>::empty());
                while k < items.len()
                    invariant
                        k <= items.len(),
                        iv == items_view(items@),
                        iv.len() == items@.len(),
                        forall|i: int| 0 <= i < items@.len() ==> #[trigger] iv[i] == json_view(items@[i]),
                        str_views(out@) == mount_items_args(iv.take(k as int)),
                    decreases items.len() - k,
                {
                    assert(iv.take(k + 1).drop_last() =~= iv.take(k as int));
                    assert(iv.take(k + 1).last() == iv[k as int]);
                    match mount_value_to_engine_arg(&items[k]) {
                        Some(mount) => {
                            assert(str_views(out@.push(mount)) =~= str_views(out@).push(mount@));
                            out.push(mount);
                        },
                        None => {},
                    }
                    assert(str_views(out@) =~= mount_items_args(iv.take(k + 1)));
                    k = k + 1;
                }
                assert(iv.take(k as int) =~= iv);
            },
            None => {},
        },
        None => {},
    }
    out
}

/// Whether a `containerEnv` string value refers to a variable.
pub open spec fn value_references(v: JsonView) -> bool {
    match v {
        JsonView::Str(text) => spec_contains_environment_reference(text),
        _ => false,
    }
}

/// Whether some entry's value refers to a variable.
pub open spec fn some_value_references(entries: Seq<(Seq<char>, JsonView)>) -> bool {
    exists|i: int| 0 <= i < entries.len() && value_references(#[trigger] entries[i].1)
}

/// Whether some `containerEnv` value refers to a variable, so the image's
/// environment is needed to expand it.
pub open spec fn spec_needs_image_environment(configuration: JsonView) -> bool {
    match json_get(configuration, "containerEnv"@) {
        Some(JsonView::Object(entries)) => some_value_references(entries),
        _ => false,
    }
}

pub fn needs_image_environment(configuration: &JsonValue) -> (r: bool)
    ensures
        r == spec_needs_image_environment(configuration@),
{
    match configuration.get("containerEnv") {
        Some(m) => match m.as_object() {
            Some(entries) => {
                proof {
                    crate::json::lemma_entries_view(entries@);
                }
                let ghost ev = entries_view(entries@);
                let mut k: usize = 0;
                while k < entries.len()
                    invariant
                        k <= entries.len(),
                        ev == entries_view(entries@),
                        ev.len() == entries@.len(),
                        json_get(configuration@, "containerEnv"@) == Some(JsonView::Object(ev)),
                        forall|i: int| 0 <= i < entries@.len() ==> #[trigger] ev[i] == (entries@[i].0@, json_view(entries@[i].1)),
                        forall|i: int| 0 <= i < k ==> !value_references(#[trigger] ev[i].1),
                    decreases entries.len() - k,
                {
                    match &entries[k].1 {
                        JsonValue::String(text) => {
                            if contains_environment_reference(text.as_str()) {
                                assert(value_references(ev[k as int].1));
                                assert(some_value_references(ev));
                                return true;
                            }
                        },
                        _ => {},
                    }
                    k = k + 1;
                }
                false
            },
            None => false,
        },
        None => false,
    }
}

/// `-e key=value` for each string entry, its value expanded from the image's environment.
pub open spec fn env_entry_args(entries: Seq<(Seq<char>, JsonView)>, image_environment: Seq<(Seq<char>, Seq<char>)>) -> Seq<Seq<char>>
    decreases entries.len(),
{
    if entries.len() == 0 {
        seq![]
    } else {
        env_entry_args(entries.drop_last(), image_environment) + match entries.last().1 {
            JsonView::Str(v) => seq!["-e"@, entries.last().0 + "="@ + expand_from(v, image_environment)],
            _ => seq![],
        }
    }
}

/// The `-e` arguments of the configuration's `containerEnv`.
pub open spec fn container_env_args(configuration: JsonView, image_environment: Seq<(Seq<char>, Seq<char>)>) -> Seq<Seq<char>> {
    match json_get(configuration, "containerEnv"@) {
        Some(JsonView::Object(entries)) => env_entry_args(entries, image_environment),
        _ => seq![],
    }
}

pub fn container_env_args_exec(configuration: &JsonValue, image_environment: &Vec<(String, String)>) -> (r: Vec<String>)
    ensures
        str_views(r@) == container_env_args(configuration@, pair_views(image_environment@)),
{
    let ghost ie = pair_views(image_environment@);
    let mut out: Vec<String> = Vec::new();
    assert(str_views(out@) =~= Seq::<Seq<char>>::empty());
    match configuration.get("containerEnv") {
        Some(m) => match m.as_object() {
            Some(entries) => {
                proof {
                    crate::json::lemma_entries_view(entries@);
                }
                let ghost ev = entries_view(entries@);
                let mut k: usize = 0;
                assert(ev.take(0) =~= Seq::<(Seq<char>, JsonView)>::empty());
                while k < entries.len()
                    invariant
                        k <= entries.len(),
                        ie == pair_views(image_environment@),
                        ev == entries_view(entries@),
                        ev.len() == entries@.len(),
                        forall|i: int| 0 <= i < entries@.len() ==> #[trigger] ev[i] == (entries@[i].0@, json_view(entries@[i].1)),
                        str_views(out@) == env_entry_args(ev.take(k as int), ie),
                    decreases entries.len() - k,
                {
                    assert(ev.take(k + 1).drop_last() =~= ev.take(k as int));
                    assert(ev.take(k + 1).last() == ev[k as int]);
                    match &entries[k].1 {
                        JsonValue::String(value) => {
                            let expanded = expand_environment_references(value.as_str(), image_environment);
                            let mut entry = to_chars(entries[k].0.as_str());
                            push_str(&mut entry, "=");
                            push_str(&mut entry, expanded.as_str());
                            push_string(&mut out, "-e");
                            let e = from_chars(&entry);
                            assert(str_views(out@.push(e)) =~= str_views(out@).push(e@));
                            out.push(e);
                        },
                        _ => {},
                    }
                    assert(str_views(out@) =~= env_entry_args(ev.take(k + 1), ie));
                    k = k + 1;
                }
                assert(ev.take(k as int) =~= ev);
            },
            None => {},
        },
        None => {},
    }
    out
}

/// The two labels that identify a container by its folder and configuration file.
pub open spec fn spec_default_id_labels(workspace_folder: Seq<char>, config_file: Seq<char>, platform: Seq<char>) -> Seq<Seq<char>> {
    seq![
        label_arg(local_folder_label(), spec_normalize_label_path(platform, workspace_folder)),
        label_arg(config_file_label(), spec_normalize_label_path(platform, config_file)),
    ]
}

/// A flag when the configuration's boolean member is true.
pub open spec fn flag_when(configuration: JsonView, key: Seq<char>, flag: Seq<char>) -> Seq<Seq<char>> {
    if get_bool(configuration, key) == Some(true) {
        seq![flag]
    } else {
        seq![]
    }
}

/// The arguments of `run` for a new container: detached, labelled with its
/// folder, configuration file and metadata; the workspace mount, then (unless
/// the configuration sets `workspaceMount`) the additional mounts; `--init`
/// and `--privileged` as configured; every `--id-label`; the configured and
/// command-line mounts; `runArgs`; `containerEnv` expanded from the image's
/// environment; `capAdd`, `securityOpt`, GPUs when wanted; then the image
/// and a shell that keeps the container alive.
pub open spec fn spec_container_run_args(
    configuration: JsonView,
    args: Seq<Seq<char>>,
    labels: Seq<Seq<char>>,
    metadata: Seq<char>,
    workspace_mount: Seq<char>,
    additional_mounts: Seq<Seq<char>>,
    cli_mounts: Seq<Seq<char>>,
    image_environment: Seq<(Seq<char>, Seq<char>)>,
    gpu: bool,
    image_name: Seq<char>,
) -> Seq<Seq<char>> {
    seq!["run"@, "-d"@, "--label"@, labels[0], "--label"@, labels[1], "--label"@, "devcontainer.metadata="@ + metadata, "--mount"@, workspace_mount]
        + (if json_get(configuration, "workspaceMount"@) is None { flag_pairs("--mount"@, additional_mounts) } else { seq![] })
        + flag_when(configuration, "init"@, "--init"@)
        + flag_when(configuration, "privileged"@, "--privileged"@)
        + flag_pairs("--label"@, spec_option_values(args, "--id-label"@))
        + flag_pairs("--mount"@, config_mount_args(configuration))
        + flag_pairs("--mount"@, cli_mounts)
        + member_strings(configuration, "runArgs"@)
        + container_env_args(configuration, image_environment)
        + flag_pairs("--cap-add"@, member_strings(configuration, "capAdd"@))
        + flag_pairs("--security-opt"@, member_strings(configuration, "securityOpt"@))
        + (if gpu { seq!["--gpus"@, "all"@] } else { seq![] })
        + seq![image_name, "/bin/sh"@, "-lc"@, "while sleep 1000; do :; done"@]
}

fn push_flag_when(out: &mut Vec<String>, configuration: &JsonValue, key: &str, flag: &str)
    ensures
        str_views(final(out)@) == str_views(old(out)@) + flag_when(configuration@, key@, flag@),
{
    if get_bool_exec(configuration, key) == Some(true) {
        push_string(out, flag);
    } else {
        assert(str_views(out@) + Seq::<Seq<char>>::empty() =~= str_views(out@));
    }
}

fn push_all_strings(out: &mut Vec<String>, values: &Vec<String>)
    ensures
        str_views(final(out)@) == str_views(old(out)@) + str_views(values@),
{
    let ghost start = str_views(out@);
    let mut k: usize = 0;
    assert(str_views(values@).take(0) =~= Seq::<Seq<char>>::empty());
    assert(start + Seq::<Seq<char>>::empty() =~= start);
    while k < values.len()
        invariant
            k <= values.len(),
            str_views(out@) == start + str_views(values@).take(k as int),
        decreases values.len() - k,
    {
        push_string(out, values[k].as_str());
        assert(str_views(out@) =~= start + str_views(values@).take(k + 1));
        k = k + 1;
    }
    assert(str_views(values@).take(k as int) =~= str_views(values@));
}

/// The arguments of `run` for a new container (see `spec_container_run_args`).
pub fn container_run_args(
    configuration: &JsonValue,
    args: &[String],
    labels: &Vec<String>,
    metadata: &str,
    workspace_mount: &str,
    additional_mounts: &Vec<String>,
    cli_mounts: &Vec<String>,
    image_environment: &Vec<(String, String)>,
    gpu: bool,
    image_name: &str,
) -> (r: Vec<String>)
    requires
        labels.len() == 2,
    ensures
        str_views(r@) == spec_container_run_args(
            configuration@,
            str_views(args@),
            str_views(labels@),
            metadata@,
            workspace_mount@,
            str_views(additional_mounts@),
            str_views(cli_mounts@),
            pair_views(image_environment@),
            gpu,
            image_name@,
        ),
{
    let mut out: Vec<String> = Vec::new();
    push_string(&mut out, "run");
    push_string(&mut out, "-d");
    push_string(&mut out, "--label");
    push_string(&mut out, labels[0].as_str());
    push_string(&mut out, "--label");
    push_string(&mut out, labels[1].as_str());
    push_string(&mut out, "--label");
    let mut meta = to_chars("devcontainer.metadata=");
    push_str(&mut meta, metadata);
    let meta = from_chars(&meta);
    push_string(&mut out, meta.as_str());
    push_string(&mut out, "--mount");
    push_string(&mut out, workspace_mount);
    let ghost a0 = str_views(out@);
    assert(a0 =~= seq!["run"@, "-d"@, "--label"@, str_views(labels@)[0], "--label"@, str_views(labels@)[1], "--label"@, "devcontainer.metadata="@ + metadata@, "--mount"@, workspace_mount@]);
    if configuration.get("workspaceMount").is_none() {
        push_flag_pairs(&mut out, "--mount", additional_mounts);
    } else {
        assert(str_views(out@) + Seq::<Seq<char>>::empty() =~= str_views(out@));
    }
    let ghost a1 = str_views(out@);
    push_flag_when(&mut out, configuration, "init", "--init");
    let ghost a2 = str_views(out@);
    push_flag_when(&mut out, configuration, "privileged", "--privileged");
    let ghost a3 = str_views(out@);
    let id_labels = option_values(args, "--id-label");
    push_flag_pairs(&mut out, "--label", &id_labels);
    let ghost a4 = str_views(out@);
    let config_mounts = config_mount_args_exec(configuration);
    push_flag_pairs(&mut out, "--mount", &config_mounts);
    let ghost a5 = str_views(out@);
    push_flag_pairs(&mut out, "--mount", cli_mounts);
    let ghost a6 = str_views(out@);
    let run_args = member_strings_exec(configuration, "runArgs");
    push_all_strings(&mut out, &run_args);
    let ghost a7 = str_views(out@);
    let env_args = container_env_args_exec(configuration, image_environment);
    push_all_strings(&mut out, &env_args);
    let ghost a8 = str_views(out@);
    let caps = member_strings_exec(configuration, "capAdd");
    push_flag_pairs(&mut out, "--cap-add", &caps);
    let ghost a9 = str_views(out@);
    let opts = member_strings_exec(configuration, "securityOpt");
    push_flag_pairs(&mut out, "--security-opt", &opts);
    let ghost a10 = str_views(out@);
    if gpu {
        push_string(&mut out, "--gpus");
        push_string(&mut out, "all");
    }
    let ghost a11 = str_views(out@);
    assert(a11 =~= a10 + (if gpu { seq!["--gpus"@, "all"@] } else { Seq::<Seq<char>>::empty() }));
    push_string(&mut out, image_name);
    push_string(&mut out, "/bin/sh");
    push_string(&mut out, "-lc");
    push_string(&mut out, "while sleep 1000; do :; done");
    assert(str_views(out@) =~= a11 + seq![image_name@, "/bin/sh"@, "-lc"@, "while sleep 1000; do :; done"@]);
    out
}


/// What happens after an attempt to remove a container.
#[derive(Debug, PartialEq, Eq)]
pub enum RemovalStep {
    /// The container is gone.
    Removed,
    /// Another removal is under way: wait, then try again.
    Retry,
    /// The removal failed with this message.
    Failed(String),
}

/// After attempt `attempt` (counted from 0) of `rm -f`: done when it
/// succeeded; tried again, up to 6 retries, while the engine says that a
/// removal is already in progress; otherwise failed with the engine's message
/// (or the failure to run it).
pub open spec fn spec_removal_step(attempt: u32, c: Result<ProcessResult, String>) -> (bool, bool, Seq<char>) {
    match c {
        Err(e) => (false, false, e@),
        Ok(p) => if p.status_code == 0 {
            (true, false, seq![])
        } else {
            let error = spec_stderr_or_stdout(p.stdout@, p.stderr@);
            if attempt == 6 || !spec_container_removal_already_in_progress(error) {
                (false, false, error)
            } else {
                (false, true, seq![])
            }
        },
    }
}

pub open spec fn removal_view(step: RemovalStep) -> (bool, bool, Seq<char>) {
    match step {
        RemovalStep::Removed => (true, false, seq![]),
        RemovalStep::Retry => (false, true, seq![]),
        RemovalStep::Failed(m) => (false, false, m@),
    }
}

/// The engine arguments that remove a container.
pub open spec fn spec_remove_container_args(container_id: Seq<char>) -> Seq<Seq<char>> {
    seq!["rm"@, "-f"@, container_id]
}

pub fn remove_container_args(container_id: &str) -> (r: Vec<String>)
    ensures
        str_views(r@) == spec_remove_container_args(container_id@),
{
    let mut out: Vec<String> = Vec::new();
    push_string(&mut out, "rm");
    push_string(&mut out, "-f");
    push_string(&mut out, container_id);
    assert(str_views(out@) =~= spec_remove_container_args(container_id@));
    out
}

/// The step after one attempt at removing a container.
pub fn removal_step(attempt: u32, c: &Result<ProcessResult, String>) -> (r: RemovalStep)
    ensures
        removal_view(r) == spec_removal_step(attempt, *c),
{
    match c {
        Err(e) => RemovalStep::Failed(e.clone()),
        Ok(p) => if p.status_code == 0 {
            RemovalStep::Removed
        } else {
            let error = stderr_or_stdout(p);
            if attempt == 6 || !container_removal_already_in_progress(error.as_str()) {
                RemovalStep::Failed(error)
            } else {
                RemovalStep::Retry
            }
        },
    }
}

/// Whether the configuration asks for a GPU: `hostRequirements.gpu` is set.
pub open spec fn spec_gpu_requested(configuration: JsonView) -> bool {
    match json_get(configuration, "hostRequirements"@) {
        Some(requirements) => json_get(requirements, "gpu"@) is Some,
        None => false,
    }
}

/// `--gpu-availability`, else its environment default.
pub open spec fn spec_gpu_availability(args: Seq<Seq<char>>, env: EnvDefaults) -> Option<Seq<char>> {
    spec_env_default_value(args, "--gpu-availability"@, opt_str(env.gpu_availability))
}

/// Whether GPUs are added without asking the engine: `Some(false)` when the
/// configuration wants none or availability is `none`, `Some(true)` when it is
/// `all`, `None` when the engine has to be asked.
pub open spec fn spec_gpu_decision(configuration: JsonView, args: Seq<Seq<char>>, env: EnvDefaults) -> Option<bool> {
    if !spec_gpu_requested(configuration) {
        Some(false)
    } else if spec_gpu_availability(args, env) == Some("all"@) {
        Some(true)
    } else if spec_gpu_availability(args, env) == Some("none"@) {
        Some(false)
    } else {
        None
    }
}

pub fn gpu_decision(configuration: &JsonValue, args: &[String], env: &EnvDefaults) -> (r: Option<bool>)
    ensures
        r == spec_gpu_decision(configuration@, str_views(args@), *env),
{
    let requested = match configuration.get("hostRequirements") {
        Some(requirements) => requirements.get("gpu").is_some(),
        None => false,
    };
    if !requested {
        return Some(false);
    }
    match env_default_value(args, "--gpu-availability", &env.gpu_availability) {
        Some(v) => {
            if str_eq(v.as_str(), "all") {
                Some(true)
            } else if str_eq(v.as_str(), "none") {
                Some(false)
            } else {
                None
            }
        },
        None => None,
    }
}

/// The engine arguments that ask for the NVIDIA runtime.
pub open spec fn gpu_info_args() -> Seq<Seq<char>> {
    seq!["info"@, "-f"@, "{{.Runtimes.nvidia}}"@]
}

/// The GPU decision (`out`): `spec_gpu_decision` where it decides; else the
/// answer to `info` that `run_engine` gave: its failure to run is the error,
/// and a zero status with `nvidia-container-runtime` in the output is yes.
pub open spec fn spec_gpu_call<G: FnOnce(ProcessRequest) -> Result<ProcessResult, String>>(
    run_engine: G,
    configuration: JsonView,
    args: Seq<Seq<char>>,
    env: EnvDefaults,
    out: Result<bool, Seq<char>>,
) -> bool {
    match spec_gpu_decision(configuration, args, env) {
        Some(b) => out == Ok::<bool, Seq<char>>(b),
        None => exists|req: ProcessRequest, c: Result<ProcessResult, String>|
            req@ == spec_engine_request(args, env, gpu_info_args())
                && #[trigger] call_ensures(run_engine, (req,), c) && match c {
                Err(e) => out == Err::<bool, Seq<char>>(e@),
                Ok(p) => out == Ok::<bool, Seq<char>>(p.status_code == 0 && contains_str(p.stdout@, "nvidia-container-runtime"@)),
            },
    }
}

pub open spec fn bool_result_view(r: Result<bool, String>) -> Result<bool, Seq<char>> {
    match r {
        Ok(b) => Ok(b),
        Err(e) => Err(e@),
    }
}

/// Whether to add `--gpus all`: decided without the engine where
/// `spec_gpu_decision` can; else `run_engine` is asked once, as
/// `detect_gpu_support` does, and a failure to run it is returned.
pub fn should_add_gpu_capability<F: FnOnce(ProcessRequest) -> Result<ProcessResult, String>>(
    configuration: &JsonValue,
    args: &[String],
    env: &EnvDefaults,
    run_engine: F,
) -> (r: Result<bool, String>)
    requires
        forall|req: ProcessRequest| call_requires(run_engine, (req,)),
    ensures
        spec_gpu_call(run_engine, configuration@, str_views(args@), *env, bool_result_view(r)),
{
    match gpu_decision(configuration, args, env) {
        Some(b) => Ok(b),
        None => detect_gpu_support(args, env, run_engine),
    }
}

/// `KEY=value` entries as the engine reports an image's environment, read
/// into variables. Later entries win: the result lists the last entries first,
/// so the first match of a key is its last entry; entries without `=` are skipped.
pub open spec fn spec_image_environment(entries: Seq<Seq<char>>) -> Seq<(Seq<char>, Seq<char>)>
    decreases entries.len(),
{
    if entries.len() == 0 {
        seq![]
    } else {
        match split_once(entries.last(), '=') {
            Some(pair) => seq![pair] + spec_image_environment(entries.drop_last()),
            None => spec_image_environment(entries.drop_last()),
        }
    }
}

pub fn image_environment(entries: &Vec<String>) -> (r: Vec<(String, String)>)
    ensures
        pair_views(r@) == spec_image_environment(str_views(entries@)),
{
    let ghost ev = str_views(entries@);
    let mut out: Vec<(String, String)> = Vec::new();
    let mut k: usize = entries.len();
    assert(ev.take(ev.len() as int) =~= ev);
    assert(pair_views(out@) =~= Seq::<(Seq<char>, Seq<char>)>::empty());
    while k > 0
        invariant
            k <= entries.len(),
            ev == str_views(entries@),
            spec_image_environment(ev) == pair_views(out@) + spec_image_environment(ev.take(k as int)),
        decreases k,
    {
        let ghost before = pair_views(out@);
        assert(ev.take(k as int).drop_last() =~= ev.take(k - 1));
        assert(ev.take(k as int).last() == entries@[k - 1]@);
        match split_once_chars(&to_chars(entries[k - 1].as_str()), '=') {
            Some((key, value)) => {
                let pair = (from_chars(&key), from_chars(&value));
                assert(pair_views(out@.push(pair)) =~= pair_views(out@).push((pair.0@, pair.1@)));
                out.push(pair);
                assert(pair_views(out@) + spec_image_environment(ev.take(k - 1)) =~= before + spec_image_environment(ev.take(k as int)));
            },
            None => {},
        }
        k = k - 1;
    }
    assert(ev.take(0) =~= Seq::<Seq<char>>::empty());
    assert(pair_views(out@) + Seq::<(Seq<char>, Seq<char>)>::empty() =~= pair_views(out@));
    out
}

/// What `serde_json::from_str` makes of a text as an optional list of strings:
/// the list, `None` for `null`, or the parser's message.
pub uninterp spec fn json_string_list(text: Seq<char>) -> Result<Option<Seq<Seq<char>>>, Seq<char>>;

pub open spec fn string_list_view(r: Result<Option<Vec<String>>, String>) -> Result<Option<Seq<Seq<char>>>, Seq<char>> {
    match r {
        Ok(Some(v)) => Ok(Some(str_views(v@))),
        Ok(None) => Ok(None),
        Err(e) => Err(e@),
    }
}

/// Parses JSON text as `Option<Vec<String>>` with `serde_json::from_str`; the
/// error is the parser's message. The contract names the result and says no more.
#[verifier::external_body]
fn parse_string_list(text: &str) -> (r: Result<Option<Vec<String>>, String>)
    ensures
        string_list_view(r) == json_string_list(text@),
{
    serde_json::from_str::<Option<Vec<String>>>(text).map_err(|error| error.to_string())
}

/// The engine arguments that print an image's environment as JSON.
pub open spec fn spec_image_environment_args(image_name: Seq<char>) -> Seq<Seq<char>> {
    seq!["image"@, "inspect"@, "--format"@, "{{json .Config.Env}}"@, image_name]
}

pub open spec fn env_result_view(r: Result<Vec<(String, String)>, String>) -> Result<Seq<(Seq<char>, Seq<char>)>, Seq<char>> {
    match r {
        Ok(v) => Ok(pair_views(v@)),
        Err(e) => Err(e@),
    }
}

/// The image's environment from the answer to `image inspect`: a failure to
/// run or a non-zero status is an error; the trimmed output is parsed as an
/// optional list of strings (`null` is no variables).
pub open spec fn spec_image_environment_outcome(image_name: Seq<char>, c: Result<ProcessResult, String>) -> Result<Seq<(Seq<char>, Seq<char>)>, Seq<char>> {
    match c {
        Err(e) => Err(e@),
        Ok(p) => if p.status_code != 0 {
            Err(spec_stderr_or_stdout(p.stdout@, p.stderr@))
        } else {
            match json_string_list(trim(p.stdout@)) {
                Err(e) => Err("Failed to parse environment from image "@ + image_name + ": "@ + e),
                Ok(None) => Ok(seq![]),
                Ok(Some(list)) => Ok(spec_image_environment(list)),
            }
        },
    }
}

pub fn image_environment_from_result(image_name: &str, c: &Result<ProcessResult, String>) -> (r: Result<Vec<(String, String)>, String>)
    ensures
        env_result_view(r) == spec_image_environment_outcome(image_name@, *c),
{
    match c {
        Err(e) => Err(e.clone()),
        Ok(p) => {
            if p.status_code != 0 {
                return Err(stderr_or_stdout(p));
            }
            let trimmed = from_chars(&trim_chars(&to_chars(p.stdout.as_str())));
            match parse_string_list(trimmed.as_str()) {
                Err(e) => {
                    let mut m = to_chars("Failed to parse environment from image ");
                    push_str(&mut m, image_name);
                    push_str(&mut m, ": ");
                    push_str(&mut m, e.as_str());
                    Err(from_chars(&m))
                },
                Ok(None) => {
                    let v: Vec<(String, String)> = Vec::new();
                    assert(pair_views(v@) =~= Seq::<(Seq<char>, Seq<char>)>::empty());
                    Ok(v)
                },
                Ok(Some(list)) => Ok(image_environment(&list)),
            }
        },
    }
}

/// The image's environment (`out`) as the answer of `run_engine` to
/// `image inspect` gives it (see `spec_image_environment_outcome`).
pub open spec fn spec_image_environment_call<G: FnOnce(ProcessRequest) -> Result<ProcessResult, String>>(
    run_engine: G,
    args: Seq<Seq<char>>,
    env: EnvDefaults,
    image_name: Seq<char>,
    out: Result<Seq<(Seq<char>, Seq<char>)>, Seq<char>>,
) -> bool {
    exists|req: ProcessRequest, c: Result<ProcessResult, String>|
        req@ == spec_engine_request(args, env, spec_image_environment_args(image_name))
            && #[trigger] call_ensures(run_engine, (req,), c)
            && out == spec_image_environment_outcome(image_name, c)
}

/// Reads an image's environment: `run_engine` runs `image inspect`, and the
/// answer is read as `image_environment_from_result` does.
pub fn inspect_image_environment<F: FnOnce(ProcessRequest) -> Result<ProcessResult, String>>(
    args: &[String],
    env: &EnvDefaults,
    image_name: &str,
    run_engine: F,
) -> (r: Result<Vec<(String, String)>, String>)
    requires
        forall|req: ProcessRequest| call_requires(run_engine, (req,)),
    ensures
        spec_image_environment_call(run_engine, str_views(args@), *env, image_name@, env_result_view(r)),
{
    let mut engine_args: Vec<String> = Vec::new();
    push_string(&mut engine_args, "image");
    push_string(&mut engine_args, "inspect");
    push_string(&mut engine_args, "--format");
    push_string(&mut engine_args, "{{json .Config.Env}}");
    push_string(&mut engine_args, image_name);
    assert(str_views(engine_args@) =~= spec_image_environment_args(image_name@));
    let request = engine_request(args, env, engine_args);
    let ghost req = request;
    let c = run_engine(request);
    let r = image_environment_from_result(image_name, &c);
    assert(call_ensures(run_engine, (req,), c));
    r
}

/// The id of a new container from the answer to `run`: a failure to run or a
/// non-zero status is an error, and so is empty output; else the trimmed output.
pub open spec fn spec_container_id_outcome(c: Result<ProcessResult, String>) -> Result<Seq<char>, Seq<char>> {
    match c {
        Err(e) => Err(e@),
        Ok(p) => if p.status_code != 0 {
            Err(spec_stderr_or_stdout(p.stdout@, p.stderr@))
        } else if trim(p.stdout@).len() == 0 {
            Err("Container engine did not return a container id"@)
        } else {
            Ok(trim(p.stdout@))
        },
    }
}

pub open spec fn string_result_view(r: Result<String, String>) -> Result<Seq<char>, Seq<char>> {
    match r {
        Ok(v) => Ok(v@),
        Err(e) => Err(e@),
    }
}

pub fn container_id_from_result(c: &Result<ProcessResult, String>) -> (r: Result<String, String>)
    ensures
        string_result_view(r) == spec_container_id_outcome(*c),
{
    match c {
        Err(e) => Err(e.clone()),
        Ok(p) => {
            if p.status_code != 0 {
                return Err(stderr_or_stdout(p));
            }
            let id = trim_chars(&to_chars(p.stdout.as_str()));
            if id.len() == 0 {
                Err(from_chars(&to_chars("Container engine did not return a container id")))
            } else {
                Ok(from_chars(&id))
            }
        },
    }
}


/// The two labels that identify a container by its folder and configuration file.
pub fn default_id_labels(workspace_folder: &str, config_file: &str, platform: &str) -> (r: Vec<String>)
    ensures
        str_views(r@) == spec_default_id_labels(workspace_folder@, config_file@, platform@),
        r.len() == 2,
{
    let nw = normalize_devcontainer_label_path_for_platform(platform, workspace_folder);
    let nc = normalize_devcontainer_label_path_for_platform(platform, config_file);
    let mut labels: Vec<String> = Vec::new();
    labels.push(label_arg_exec(devcontainer_local_folder_label(), nw.as_str()));
    labels.push(label_arg_exec(devcontainer_config_file_label(), nc.as_str()));
    assert(str_views(labels@) =~= seq![labels@[0]@, labels@[1]@]);
    labels
}

/// The id of a new container (`out`) once the image environment `ie` is
/// known: the metadata's error, then that of the command-line mounts, then
/// that of the GPU decision; else the answer of `run_engine` to `run` with
/// `spec_container_run_args` decides (see `spec_container_id_outcome`).
pub open spec fn spec_start_after_environment<F: Fn(ProcessRequest) -> Result<ProcessResult, String>>(
    run_engine: &F,
    configuration: JsonView,
    args: Seq<Seq<char>>,
    env: EnvDefaults,
    labels: Seq<Seq<char>>,
    metadata: Result<Seq<char>, Seq<char>>,
    workspace_mount: Seq<char>,
    additional_mounts: Seq<Seq<char>>,
    ie: Seq<(Seq<char>, Seq<char>)>,
    image_name: Seq<char>,
    out: Result<Seq<char>, Seq<char>>,
) -> bool {
    match metadata {
        Err(e) => out == Err::<Seq<char>, Seq<char>>(e),
        Ok(m) => match spec_cli_mount_values(args) {
            Err(e) => out == Err::<Seq<char>, Seq<char>>(e),
            Ok(cm) => exists|g: Result<bool, Seq<char>>|
                #[trigger] spec_gpu_call(run_engine, configuration, args, env, g)
                    && spec_start_run(run_engine, configuration, args, env, labels, m, workspace_mount, additional_mounts, cm, ie, g, image_name, out),
        },
    }
}

/// The id of a new container (`out`) once the GPU decision gave `g`.
pub open spec fn spec_start_run<F: Fn(ProcessRequest) -> Result<ProcessResult, String>>(
    run_engine: &F,
    configuration: JsonView,
    args: Seq<Seq<char>>,
    env: EnvDefaults,
    labels: Seq<Seq<char>>,
    metadata: Seq<char>,
    workspace_mount: Seq<char>,
    additional_mounts: Seq<Seq<char>>,
    cli_mounts: Seq<Seq<char>>,
    ie: Seq<(Seq<char>, Seq<char>)>,
    g: Result<bool, Seq<char>>,
    image_name: Seq<char>,
    out: Result<Seq<char>, Seq<char>>,
) -> bool {
    match g {
        Err(e) => out == Err::<Seq<char>, Seq<char>>(e),
        Ok(gpu) => exists|req: ProcessRequest, c: Result<ProcessResult, String>|
            #[trigger] call_ensures(*run_engine, (req,), c)
                && req@ == spec_engine_request(args, env, spec_container_run_args(
                    configuration, args, labels, metadata, workspace_mount, additional_mounts, cli_mounts, ie, gpu, image_name,
                ))
                && out == spec_container_id_outcome(c),
    }
}

/// The id of a new container (`out`): where `containerEnv` refers to
/// variables, the image's environment is read first and its error is the
/// result; else no variables are known (see `spec_start_after_environment`).
pub open spec fn spec_start_container_call<F: Fn(ProcessRequest) -> Result<ProcessResult, String>>(
    run_engine: &F,
    configuration: JsonView,
    args: Seq<Seq<char>>,
    env: EnvDefaults,
    labels: Seq<Seq<char>>,
    metadata: Result<Seq<char>, Seq<char>>,
    workspace_mount: Seq<char>,
    additional_mounts: Seq<Seq<char>>,
    image_name: Seq<char>,
    out: Result<Seq<char>, Seq<char>>,
) -> bool {
    if spec_needs_image_environment(configuration) {
        exists|ie: Result<Seq<(Seq<char>, Seq<char>)>, Seq<char>>|
            #[trigger] spec_image_environment_call(run_engine, args, env, image_name, ie)
                && spec_start_with_environment(run_engine, configuration, args, env, labels, metadata, workspace_mount, additional_mounts, ie, image_name, out)
    } else {
        spec_start_after_environment(run_engine, configuration, args, env, labels, metadata, workspace_mount, additional_mounts, seq![], image_name, out)
    }
}

/// The id of a new container (`out`) once reading the image environment gave `ie`.
pub open spec fn spec_start_with_environment<F: Fn(ProcessRequest) -> Result<ProcessResult, String>>(
    run_engine: &F,
    configuration: JsonView,
    args: Seq<Seq<char>>,
    env: EnvDefaults,
    labels: Seq<Seq<char>>,
    metadata: Result<Seq<char>, Seq<char>>,
    workspace_mount: Seq<char>,
    additional_mounts: Seq<Seq<char>>,
    ie: Result<Seq<(Seq<char>, Seq<char>)>, Seq<char>>,
    image_name: Seq<char>,
    out: Result<Seq<char>, Seq<char>>,
) -> bool {
    match ie {
        Err(e) => out == Err::<Seq<char>, Seq<char>>(e),
        Ok(v) => spec_start_after_environment(run_engine, configuration, args, env, labels, metadata, workspace_mount, additional_mounts, v, image_name, out),
    }
}

/// Creates and starts a container for an image. Where `containerEnv` refers
/// to variables, `run_engine` first reads the image's environment; then the
/// metadata, the command-line mounts and the GPU decision are checked, in that
/// order, and their first error is returned; then `run_engine` runs `run`
/// with `spec_container_run_args`, and the container's id is read from its answer.
pub fn start_container_with_metadata<F: Fn(ProcessRequest) -> Result<ProcessResult, String>>(
    configuration: &JsonValue,
    args: &[String],
    env: &EnvDefaults,
    platform: &str,
    workspace_folder: &str,
    config_file: &str,
    image_name: &str,
    metadata: Result<String, String>,
    workspace_mount: &str,
    additional_mounts: &Vec<String>,
    run_engine: &F,
) -> (r: Result<String, String>)
    requires
        forall|req: ProcessRequest| call_requires(*run_engine, (req,)),
    ensures
        spec_start_container_call(
            run_engine,
            configuration@,
            str_views(args@),
            *env,
            spec_default_id_labels(workspace_folder@, config_file@, platform@),
            string_result_view(metadata),
            workspace_mount@,
            str_views(additional_mounts@),
            image_name@,
            string_result_view(r),
        ),
{
    let ghost gm = string_result_view(metadata);
    let ghost cfg = configuration@;
    let ghost av = str_views(args@);
    let ghost lv = spec_default_id_labels(workspace_folder@, config_file@, platform@);
    let ghost wm = workspace_mount@;
    let ghost am = str_views(additional_mounts@);
    let ghost iname = image_name@;
    let needs = needs_image_environment(configuration);
    let ghost mut ier: Result<Seq<(Seq<char>, Seq<char>)>, Seq<char>> = Ok(seq![]);
    let image_env: Vec<(String, String)> = if needs {
        let res = inspect_image_environment(args, env, image_name, run_engine);
        proof {
            ier = env_result_view(res);
        }
        match res {
            Ok(v) => v,
            Err(e) => {
                assert(spec_start_with_environment(run_engine, cfg, av, *env, lv, gm, wm, am, ier, iname, Err(e@)));
                return Err(e);
            },
        }
    } else {
        let v: Vec<(String, String)> = Vec::new();
        assert(pair_views(v@) =~= Seq::<(Seq<char>, Seq<char>)>::empty());
        v
    };
    let ghost ie = pair_views(image_env@);
    let labels = default_id_labels(workspace_folder, config_file, platform);
    let metadata = match metadata {
        Ok(m) => m,
        Err(e) => {
            proof {
                lemma_start_call(run_engine, cfg, av, *env, lv, gm, wm, am, iname, needs, ier, ie, Err(e@));
            }
            return Err(e);
        },
    };
    let cli_mounts = match cli_mount_values(args) {
        Ok(m) => m,
        Err(e) => {
            proof {
                lemma_start_call(run_engine, cfg, av, *env, lv, gm, wm, am, iname, needs, ier, ie, Err(e@));
            }
            return Err(e);
        },
    };
    let gres = should_add_gpu_capability(configuration, args, env, run_engine);
    let ghost gv = bool_result_view(gres);
    assert(spec_gpu_call(run_engine, cfg, av, *env, gv));
    let gpu = match gres {
        Ok(b) => b,
        Err(e) => {
            proof {
                assert(spec_start_run(run_engine, cfg, av, *env, lv, metadata@, wm, am, str_views(cli_mounts@), ie, gv, iname, Err(e@)));
                lemma_start_call(run_engine, cfg, av, *env, lv, gm, wm, am, iname, needs, ier, ie, Err(e@));
            }
            return Err(e);
        },
    };
    let engine_args = container_run_args(
        configuration,
        args,
        &labels,
        metadata.as_str(),
        workspace_mount,
        additional_mounts,
        &cli_mounts,
        &image_env,
        gpu,
        image_name,
    );
    let request = engine_request(args, env, engine_args);
    let ghost req = request;
    let c = run_engine(request);
    let r = container_id_from_result(&c);
    proof {
        assert(str_views(cli_mounts@) == spec_cli_mount_values(av)->Ok_0);
        assert(call_ensures(*run_engine, (req,), c));
        assert(req@ == spec_engine_request(av, *env, spec_container_run_args(cfg, av, lv, metadata@, wm, am, str_views(cli_mounts@), ie, gpu, iname)));
        assert(spec_start_run(run_engine, cfg, av, *env, lv, metadata@, wm, am, str_views(cli_mounts@), ie, gv, iname, string_result_view(r)));
        lemma_start_call(run_engine, cfg, av, *env, lv, gm, wm, am, iname, needs, ier, ie, string_result_view(r));
    }
    r
}

proof fn lemma_start_call<F: Fn(ProcessRequest) -> Result<ProcessResult, String>>(
    run_engine: &F,
    configuration: JsonView,
    args: Seq<Seq<char>>,
    env: EnvDefaults,
    labels: Seq<Seq<char>>,
    metadata: Result<Seq<char>, Seq<char>>,
    workspace_mount: Seq<char>,
    additional_mounts: Seq<Seq<char>>,
    image_name: Seq<char>,
    needs: bool,
    ier: Result<Seq<(Seq<char>, Seq<char>)>, Seq<char>>,
    ie: Seq<(Seq<char>, Seq<char>)>,
    out: Result<Seq<char>, Seq<char>>,
)
    requires
        needs == spec_needs_image_environment(configuration),
        needs ==> spec_image_environment_call(run_engine, args, env, image_name, ier) && ier == Ok::<Seq<(Seq<char>, Seq<char>)>, Seq<char>>(ie),
        !needs ==> ie == Seq::<(Seq<char>, Seq<char>)>::empty(),
        spec_start_after_environment(run_engine, configuration, args, env, labels, metadata, workspace_mount, additional_mounts, ie, image_name, out),
    ensures
        spec_start_container_call(run_engine, configuration, args, env, labels, metadata, workspace_mount, additional_mounts, image_name, out),
{
    if needs {
        assert(spec_start_with_environment(run_engine, configuration, args, env, labels, metadata, workspace_mount, additional_mounts, ier, image_name, out));
    }
}

/// Creates and starts a container for an image, its metadata label written
/// from the configuration (see `spec_serialized_metadata`, without
/// `remoteEnv` when `omit_remote_env` is set); else as
/// `start_container_with_metadata` does.
pub fn start_container<F: Fn(ProcessRequest) -> Result<ProcessResult, String>>(
    configuration: &JsonValue,
    args: &[String],
    env: &EnvDefaults,
    platform: &str,
    workspace_folder: &str,
    config_file: &str,
    image_name: &str,
    remote_workspace_folder: &str,
    omit_remote_env: bool,
    workspace_mount: &str,
    additional_mounts: &Vec<String>,
    run_engine: &F,
) -> (r: Result<String, String>)
    requires
        forall|req: ProcessRequest| call_requires(*run_engine, (req,)),
    ensures
        spec_start_container_call(
            run_engine,
            configuration@,
            str_views(args@),
            *env,
            spec_default_id_labels(workspace_folder@, config_file@, platform@),
            Ok::<Seq<char>, Seq<char>>(spec_serialized_metadata(configuration@, remote_workspace_folder@, omit_remote_env)),
            workspace_mount@,
            str_views(additional_mounts@),
            image_name@,
            string_result_view(r),
        ),
{
    let metadata = serialized_container_metadata(configuration, remote_workspace_folder, omit_remote_env);
    start_container_with_metadata(
        configuration,
        args,
        env,
        platform,
        workspace_folder,
        config_file,
        image_name,
        metadata,
        workspace_mount,
        additional_mounts,
        run_engine,
    )
}

/// A container removal is tried again only after a failure that says another
/// removal is under way, and never after the attempt counted 6: at most seven
/// attempts are made.
pub proof fn law_removal_retries_are_bounded(attempt: u32, c: Result<ProcessResult, String>)
    ensures
        !spec_removal_step(6, c).1,
        spec_removal_step(attempt, c).1 ==> c is Ok && c->Ok_0.status_code != 0
            && spec_container_removal_already_in_progress(spec_stderr_or_stdout(c->Ok_0.stdout@, c->Ok_0.stderr@)),
        spec_removal_step(attempt, c).0 <==> (c is Ok && c->Ok_0.status_code == 0),
{
}

} // verus!
