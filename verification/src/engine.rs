//! Container engine and compose invocations: which program runs, with which
//! arguments and environment, and how a failure to start it is reported.

use vstd::prelude::*;
use crate::options::{
    env_default_value, option_value, opt_str, spec_env_default_value, spec_option_value, str_eq,
    EnvDefaults, cli_boolean_value, spec_cli_boolean_value,
};
use crate::text::{
    contains_str, contains_str_chars, eq_ignore_case, eq_ignore_case_chars, from_chars, lower,
    lower_chars, path_file_name, path_file_name_chars, push_str, starts_with, starts_with_str,
    str_views, strip_prefix, strip_prefix_str, to_chars, trim, trim_chars,
};

verus! {

/// How much a child process logs.
#[derive(Clone, Copy, Debug, PartialEq, Eq, Structural)]
pub enum ProcessLogLevel {
    Info,
    Debug,
    Trace,
}

/// A process to run: program, arguments, working directory, added environment
/// variables and log level.
#[derive(Debug)]
pub struct ProcessRequest {
    pub program: String,
    pub args: Vec<String>,
    pub cwd: Option<String>,
    pub env: Vec<(String, String)>,
    pub log_level: ProcessLogLevel,
}

pub struct RequestView {
    pub program: Seq<char>,
    pub args: Seq<Seq<char>>,
    pub cwd: Option<Seq<char>>,
    pub env: Seq<(Seq<char>, Seq<char>)>,
    pub log_level: ProcessLogLevel,
}

pub open spec fn pair_views(v: Seq<(String, String)>) -> Seq<(Seq<char>, Seq<char>)> {
    v.map_values(|p: (String, String)| (p.0@, p.1@))
}

impl View for ProcessRequest {
    type V = RequestView;

    open spec fn view(&self) -> RequestView {
        RequestView {
            program: self.program@,
            args: str_views(self.args@),
            cwd: opt_str(self.cwd),
            env: pair_views(self.env@),
            log_level: self.log_level,
        }
    }
}

impl ProcessRequest {
    /// The value of an environment variable set on the request.
    pub fn env_get(&self, key: &str) -> (r: Option<String>)
        ensures
            opt_str(r) == env_lookup(self@.env, key@),
    {
        let ghost ev = pair_views(self.env@);
        let mut k: usize = 0;
        assert(ev.skip(0) =~= ev);
        while k < self.env.len()
            invariant
                k <= self.env.len(),
                ev == pair_views(self.env@),
                env_lookup(ev, key@) == env_lookup(ev.skip(k as int), key@),
            decreases self.env.len() - k,
        {
            assert(ev.skip(k as int).drop_first() =~= ev.skip(k + 1));
            assert(ev.skip(k as int)[0] == ev[k as int]);
            if str_eq(self.env[k].0.as_str(), key) {
                return Some(self.env[k].1.clone());
            }
            k = k + 1;
        }
        None
    }
}

/// The value of the first entry with the given key.
pub open spec fn env_lookup(env: Seq<(Seq<char>, Seq<char>)>, key: Seq<char>) -> Option<Seq<char>>
    decreases env.len(),
{
    if env.len() == 0 {
        None
    } else if env[0].0 == key {
        Some(env[0].1)
    } else {
        env_lookup(env.drop_first(), key)
    }
}

/// Whether an entry is for a key other than `key`.
pub open spec fn other_key(key: Seq<char>) -> spec_fn((Seq<char>, Seq<char>)) -> bool {
    |p: (Seq<char>, Seq<char>)| p.0 != key
}

/// The entries with `key` removed and `key=value` appended.
pub open spec fn env_set(env: Seq<(Seq<char>, Seq<char>)>, key: Seq<char>, value: Seq<char>) -> Seq<(Seq<char>, Seq<char>)> {
    env.filter(other_key(key)).push((key, value))
}

fn env_set_exec(env: &mut Vec<(String, String)>, key: &str, value: String)
    ensures
        pair_views(final(env)@) == env_set(pair_views(old(env)@), key@, value@),
{
    let ghost old_view = pair_views(env@);
    let mut out: Vec<(String, String)> = Vec::new();
    let mut k: usize = 0;
    let n = env.len();
    assert(old_view.take(0).filter(other_key(key@)) =~= Seq::<(Seq<char>, Seq<char>)>::empty());
    while k < n
        invariant
            k <= n,
            n == env.len(),
            old_view == pair_views(env@),
            pair_views(out@) == old_view.take(k as int).filter(other_key(key@)),
        decreases n - k,
    {
        assert(old_view.take(k + 1).drop_last() =~= old_view.take(k as int));
        assert(old_view.take(k + 1).last() == old_view[k as int]);
        assert(old_view[k as int] == (env@[k as int].0@, env@[k as int].1@));
        proof {
            reveal(Seq::filter);
        }
        if !str_eq(env[k].0.as_str(), key) {
            let p = (env[k].0.clone(), env[k].1.clone());
            assert(pair_views(out@.push(p)) =~= pair_views(out@).push((p.0@, p.1@)));
            out.push(p);
        }
        k = k + 1;
    }
    assert(old_view.take(n as int) =~= old_view);
    let kv = from_chars(&to_chars(key));
    let p = (kv, value);
    assert(pair_views(out@.push(p)) =~= pair_views(out@).push((p.0@, p.1@)));
    out.push(p);
    *env = out;
}

/// The log level a `--log-level` value selects.
pub open spec fn spec_log_level(args: Seq<Seq<char>>) -> ProcessLogLevel {
    match spec_option_value(args, "--log-level"@) {
        Some(v) => if v == "trace"@ {
            ProcessLogLevel::Trace
        } else if v == "debug"@ {
            ProcessLogLevel::Debug
        } else {
            ProcessLogLevel::Info
        },
        None => ProcessLogLevel::Info,
    }
}

/// The environment that terminal size options give a process: `COLUMNS` from
/// `--terminal-columns` and `LINES` from `--terminal-rows`.
pub open spec fn terminal_env(args: Seq<Seq<char>>) -> Seq<(Seq<char>, Seq<char>)> {
    let cols: Seq<(Seq<char>, Seq<char>)> = match spec_option_value(args, "--terminal-columns"@) {
        Some(c) => seq![("COLUMNS"@, c)],
        None => seq![],
    };
    match spec_option_value(args, "--terminal-rows"@) {
        Some(r) => env_set(cols, "LINES"@, r),
        None => cols,
    }
}

pub open spec fn spec_runtime_request(args: Seq<Seq<char>>, program: Seq<char>, req_args: Seq<Seq<char>>, cwd: Option<Seq<char>>) -> RequestView {
    RequestView { program, args: req_args, cwd, env: terminal_env(args), log_level: spec_log_level(args) }
}

/// A process request carrying the runtime's terminal size and log level.
pub fn runtime_process_request(args: &[String], program: String, req_args: Vec<String>, cwd: Option<String>) -> (r: ProcessRequest)
    ensures
        r@ == spec_runtime_request(str_views(args@), program@, str_views(req_args@), opt_str(cwd)),
{
    let level = match option_value(args, "--log-level") {
        Some(v) => if str_eq(v.as_str(), "trace") {
            ProcessLogLevel::Trace
        } else if str_eq(v.as_str(), "debug") {
            ProcessLogLevel::Debug
        } else {
            ProcessLogLevel::Info
        },
        None => ProcessLogLevel::Info,
    };
    let mut env: Vec<(String, String)> = Vec::new();
    match option_value(args, "--terminal-columns") {
        Some(c) => {
            let p = (from_chars(&to_chars("COLUMNS")), c);
            assert(pair_views(env@.push(p)) =~= seq![(p.0@, p.1@)]);
            env.push(p);
        },
        None => {
            assert(pair_views(env@) =~= Seq::<(Seq<char>, Seq<char>)>::empty());
        },
    }
    match option_value(args, "--terminal-rows") {
        Some(r) => {
            env_set_exec(&mut env, "LINES", r);
        },
        None => {},
    }
    ProcessRequest { program, args: req_args, cwd, env, log_level: level }
}

/// The engine program asked for with `--docker-path` or `DEVCONTAINER_DOCKER_PATH`.
pub open spec fn spec_requested_engine_program(args: Seq<Seq<char>>, env: EnvDefaults) -> Option<Seq<char>> {
    spec_env_default_value(args, "--docker-path"@, opt_str(env.docker_path))
}

/// The engine program that runs: the requested one, else `docker`.
pub open spec fn spec_effective_engine_program(args: Seq<Seq<char>>, env: EnvDefaults) -> Seq<char> {
    match spec_requested_engine_program(args, env) {
        Some(p) => p,
        None => "docker"@,
    }
}

/// The compose program asked for with `--docker-compose-path` or `DEVCONTAINER_DOCKER_COMPOSE_PATH`.
pub open spec fn spec_requested_compose_program(args: Seq<Seq<char>>, env: EnvDefaults) -> Option<Seq<char>> {
    spec_env_default_value(args, "--docker-compose-path"@, opt_str(env.docker_compose_path))
}

pub fn requested_engine_program(args: &[String], env: &EnvDefaults) -> (r: Option<String>)
    ensures
        opt_str(r) == spec_requested_engine_program(str_views(args@), *env),
{
    env_default_value(args, "--docker-path", &env.docker_path)
}

pub fn effective_engine_program(args: &[String], env: &EnvDefaults) -> (r: String)
    ensures
        r@ == spec_effective_engine_program(str_views(args@), *env),
{
    match requested_engine_program(args, env) {
        Some(p) => p,
        None => from_chars(&to_chars("docker")),
    }
}

pub fn requested_compose_program(args: &[String], env: &EnvDefaults) -> (r: Option<String>)
    ensures
        opt_str(r) == spec_requested_compose_program(str_views(args@), *env),
{
    env_default_value(args, "--docker-compose-path", &env.docker_compose_path)
}

/// `--pull-always`: the last occurrence decides; bare, or followed by a word
/// that is not a boolean, it means true (the word is then not consumed);
/// `--pull-always=<word>` with a boolean word means that word and is otherwise ignored.
pub open spec fn pull_always_from(args: Seq<Seq<char>>, i: nat, requested: bool) -> bool
    decreases args.len() - i,
{
    if i >= args.len() {
        requested
    } else if args[i as int] == "--pull-always"@ {
        match (if i + 1 < args.len() { spec_cli_boolean_value(args[i as int + 1]) } else { None }) {
            Some(v) => pull_always_from(args, i + 2, v),
            None => pull_always_from(args, i + 1, true),
        }
    } else {
        let next = match strip_prefix(args[i as int], "--pull-always="@) {
            Some(w) => match spec_cli_boolean_value(w) {
                Some(b) => b,
                None => requested,
            },
            None => requested,
        };
        pull_always_from(args, i + 1, next)
    }
}

pub fn pull_always_requested(args: &[String]) -> (r: bool)
    ensures
        r == pull_always_from(str_views(args@), 0, false),
{
    let ghost av = str_views(args@);
    let mut requested = false;
    let mut index: usize = 0;
    while index < args.len()
        invariant
            av == str_views(args@),
            pull_always_from(av, 0, false) == pull_always_from(av, index as nat, requested),
        decreases args.len() + 1 - index,
    {
        assert(av[index as int] == args@[index as int]@);
        if str_eq(args[index].as_str(), "--pull-always") {
            let next = if index + 1 < args.len() {
                assert(av[index + 1] == args@[index + 1]@);
                cli_boolean_value(args[index + 1].as_str())
            } else {
                None
            };
            match next {
                Some(v) => {
                    requested = v;
                    index = index + 2;
                },
                None => {
                    requested = true;
                    index = index + 1;
                },
            }
            continue;
        }
        match strip_prefix_str(&to_chars(args[index].as_str()), "--pull-always=") {
            Some(w) => match cli_boolean_value(from_chars(&w).as_str()) {
                Some(b) => {
                    requested = b;
                },
                None => {},
            },
            None => {},
        }
        index = index + 1;
    }
    requested
}

/// Whether engine or compose arguments ask for a build: after an optional
/// leading `compose`, skipping options (with the values of `--project-name`
/// and `-f`), the first word is `build`.
pub open spec fn build_word_from(args: Seq<Seq<char>>, i: nat) -> bool
    decreases args.len() + 2 - i,
{
    if i >= args.len() {
        false
    } else if args[i as int] == "--project-name"@ || args[i as int] == "-f"@ {
        build_word_from(args, i + 2)
    } else if starts_with(args[i as int], "-"@) {
        build_word_from(args, i + 1)
    } else {
        args[i as int] == "build"@
    }
}

pub open spec fn spec_is_build_request(args: Seq<Seq<char>>) -> bool {
    let start: nat = if args.len() > 0 && args[0] == "compose"@ {
        1
    } else {
        0
    };
    build_word_from(args, start)
}

pub fn is_build_request(request_args: &[String]) -> (r: bool)
    ensures
        r == spec_is_build_request(str_views(request_args@)),
{
    let ghost av = str_views(request_args@);
    let mut index: usize = if request_args.len() > 0 && str_eq(request_args[0].as_str(), "compose") {
        1
    } else {
        0
    };
    proof {
        if request_args.len() > 0 {
            assert(av[0] == request_args@[0]@);
        }
    }
    while index < request_args.len()
        invariant
            av == str_views(request_args@),
            spec_is_build_request(av) == build_word_from(av, index as nat),
        decreases request_args.len() + 2 - index,
    {
        assert(av[index as int] == request_args@[index as int]@);
        let a = request_args[index].as_str();
        if str_eq(a, "--project-name") || str_eq(a, "-f") {
            if request_args.len() - index < 2 {
                assert(build_word_from(av, (index + 2) as nat) == false);
                return false;
            }
            index = index + 2;
        } else if starts_with_str(&to_chars(a), "-") {
            index = index + 1;
        } else {
            return str_eq(a, "build");
        }
    }
    false
}

/// The BuildKit setting from `--buildkit` or `DEVCONTAINER_BUILDKIT`.
pub open spec fn spec_buildkit(args: Seq<Seq<char>>, env: EnvDefaults) -> Option<Seq<char>> {
    spec_env_default_value(args, "--buildkit"@, opt_str(env.buildkit))
}

/// For build requests, `DOCKER_BUILDKIT=0` when BuildKit is `never` and `=1`
/// when it is `auto`; otherwise the environment unchanged.
pub open spec fn spec_buildkit_env(args: Seq<Seq<char>>, env: EnvDefaults, request_args: Seq<Seq<char>>, penv: Seq<(Seq<char>, Seq<char>)>) -> Seq<(Seq<char>, Seq<char>)> {
    if !spec_is_build_request(request_args) {
        penv
    } else {
        match spec_buildkit(args, env) {
            Some(b) => if b == "never"@ {
                env_set(penv, "DOCKER_BUILDKIT"@, "0"@)
            } else if b == "auto"@ {
                env_set(penv, "DOCKER_BUILDKIT"@, "1"@)
            } else {
                penv
            },
            None => penv,
        }
    }
}

pub fn apply_buildkit_env(args: &[String], env: &EnvDefaults, request: &mut ProcessRequest)
    ensures
        final(request)@ == (RequestView { env: spec_buildkit_env(str_views(args@), *env, old(request)@.args, old(request)@.env), ..old(request)@ }),
{
    if !is_build_request(request.args.as_slice()) {
        return;
    }
    match env_default_value(args, "--buildkit", &env.buildkit) {
        Some(b) => {
            if str_eq(b.as_str(), "never") {
                env_set_exec(&mut request.env, "DOCKER_BUILDKIT", from_chars(&to_chars("0")));
            } else if str_eq(b.as_str(), "auto") {
                env_set_exec(&mut request.env, "DOCKER_BUILDKIT", from_chars(&to_chars("1")));
            }
        },
        None => {},
    }
}

/// A request that runs the engine with the given arguments.
pub open spec fn spec_engine_request(args: Seq<Seq<char>>, env: EnvDefaults, engine_args: Seq<Seq<char>>) -> RequestView {
    let base = spec_runtime_request(args, spec_effective_engine_program(args, env), engine_args, None);
    RequestView { env: spec_buildkit_env(args, env, engine_args, base.env), ..base }
}

pub fn engine_request(args: &[String], env: &EnvDefaults, engine_args: Vec<String>) -> (r: ProcessRequest)
    ensures
        r@ == spec_engine_request(str_views(args@), *env, str_views(engine_args@)),
{
    let program = effective_engine_program(args, env);
    let mut request = runtime_process_request(args, program, engine_args, None);
    apply_buildkit_env(args, env, &mut request);
    request
}

/// A request that runs compose: the requested compose program; else the
/// engine's `compose` subcommand when `compose_subcommand_available` says the
/// engine has one (it is asked only then); else `docker-compose`.
pub open spec fn spec_compose_request(args: Seq<Seq<char>>, env: EnvDefaults, compose_args: Seq<Seq<char>>, subcommand_available: bool) -> RequestView {
    let (program, req_args) = match spec_requested_compose_program(args, env) {
        Some(p) => (p, compose_args),
        None => if subcommand_available {
            (spec_effective_engine_program(args, env), seq!["compose"@] + compose_args)
        } else {
            ("docker-compose"@, compose_args)
        },
    };
    let base = spec_runtime_request(args, program, req_args, None);
    RequestView { env: spec_buildkit_env(args, env, req_args, base.env), ..base }
}

pub fn compose_request<F: FnOnce() -> bool>(args: &[String], env: &EnvDefaults, compose_args: Vec<String>, compose_subcommand_available: F) -> (r: ProcessRequest)
    requires
        call_requires(compose_subcommand_available, ()),
    ensures
        spec_requested_compose_program(str_views(args@), *env) is Some ==> r@ == spec_compose_request(str_views(args@), *env, str_views(compose_args@), false),
        spec_requested_compose_program(str_views(args@), *env) is None ==> exists|b: bool| call_ensures(compose_subcommand_available, (), b) && r@ == spec_compose_request(str_views(args@), *env, str_views(compose_args@), b),
{
    match requested_compose_program(args, env) {
        Some(program) => {
            let mut request = runtime_process_request(args, program, compose_args, None);
            apply_buildkit_env(args, env, &mut request);
            request
        },
        None => {
            let available = compose_subcommand_available();
            let request = if available {
                let mut with_subcommand: Vec<String> = Vec::new();
                with_subcommand.push(from_chars(&to_chars("compose")));
                let mut rest = compose_args;
                let ghost rest_view = str_views(rest@);
                with_subcommand.append(&mut rest);
                assert(str_views(with_subcommand@) =~= seq!["compose"@] + rest_view);
                let program = effective_engine_program(args, env);
                let mut request = runtime_process_request(args, program, with_subcommand, None);
                apply_buildkit_env(args, env, &mut request);
                request
            } else {
                let mut request = runtime_process_request(args, from_chars(&to_chars("docker-compose")), compose_args, None);
                apply_buildkit_env(args, env, &mut request);
                request
            };
            assert(call_ensures(compose_subcommand_available, (), available) && request@ == spec_compose_request(str_views(args@), *env, str_views(compose_args@), available));
            request
        },
    }
}

/// What a finished process reported.
#[derive(Debug)]
pub struct ProcessResult {
    pub status_code: i32,
    pub stdout: String,
    pub stderr: String,
}

/// A process that could not be started: whether the program was not found, and
/// the system's message.
#[derive(Debug)]
pub struct ProcessError {
    pub not_found: bool,
    pub message: String,
}

/// The trimmed standard error, or the trimmed standard output when standard error is blank.
pub open spec fn spec_stderr_or_stdout(stdout: Seq<char>, stderr: Seq<char>) -> Seq<char> {
    if trim(stderr).len() == 0 {
        trim(stdout)
    } else {
        trim(stderr)
    }
}

pub fn stderr_or_stdout(result: &ProcessResult) -> (r: String)
    ensures
        r@ == spec_stderr_or_stdout(result.stdout@, result.stderr@),
{
    let e = trim_chars(&to_chars(result.stderr.as_str()));
    if e.len() == 0 {
        from_chars(&trim_chars(&to_chars(result.stdout.as_str())))
    } else {
        from_chars(&e)
    }
}

pub open spec fn compose_not_found(program: Seq<char>) -> Seq<char> {
    "Container compose executable not found: "@ + program
        + ". Verify --docker-compose-path or DEVCONTAINER_DOCKER_COMPOSE_PATH, or install the requested compose CLI."@
}

pub open spec fn docker_not_found() -> Seq<char> {
    "Container engine executable not found: docker. Install Docker or rerun with --docker-path podman or set DEVCONTAINER_DOCKER_PATH=podman."@
}

pub open spec fn engine_not_found(program: Seq<char>) -> Seq<char> {
    "Container engine executable not found: "@ + program
        + ". Verify --docker-path or DEVCONTAINER_DOCKER_PATH, or install the requested container engine."@
}

/// The message for a process that could not start. Other failures keep the
/// system's message. A missing program is a compose program when it is the
/// requested compose program or is named `docker-compose`; it is the default
/// engine when no engine was requested and it is named `docker`; otherwise it is
/// the requested engine.
pub open spec fn spec_normalize_process_error(args: Seq<Seq<char>>, env: EnvDefaults, program: Seq<char>, not_found: bool, message: Seq<char>) -> Seq<char> {
    if !not_found {
        message
    } else if spec_requested_compose_program(args, env) == Some(program) || (path_file_name(program) is Some
        && eq_ignore_case(path_file_name(program)->0, "docker-compose"@)) {
        compose_not_found(program)
    } else if spec_requested_engine_program(args, env) is None && path_file_name(program) is Some
        && eq_ignore_case(path_file_name(program)->0, "docker"@) {
        docker_not_found()
    } else {
        engine_not_found(program)
    }
}

fn file_name_is(program: &str, name: &str) -> (r: bool)
    ensures
        r == (path_file_name(program@) is Some && eq_ignore_case(path_file_name(program@)->0, name@)),
{
    match path_file_name_chars(&to_chars(program)) {
        Some(f) => eq_ignore_case_chars(&f, &to_chars(name)),
        None => false,
    }
}

pub fn normalize_process_error(args: &[String], env: &EnvDefaults, request: &ProcessRequest, error: &ProcessError) -> (r: String)
    ensures
        r@ == spec_normalize_process_error(str_views(args@), *env, request.program@, error.not_found, error.message@),
{
    if !error.not_found {
        return error.message.clone();
    }
    let executable = request.program.as_str();
    let compose_match = match requested_compose_program(args, env) {
        Some(p) => str_eq(p.as_str(), executable),
        None => false,
    };
    if compose_match || file_name_is(executable, "docker-compose") {
        let mut m = to_chars("Container compose executable not found: ");
        push_str(&mut m, executable);
        push_str(&mut m, ". Verify --docker-compose-path or DEVCONTAINER_DOCKER_COMPOSE_PATH, or install the requested compose CLI.");
        return from_chars(&m);
    }
    if requested_engine_program(args, env).is_none() && file_name_is(executable, "docker") {
        return from_chars(&to_chars("Container engine executable not found: docker. Install Docker or rerun with --docker-path podman or set DEVCONTAINER_DOCKER_PATH=podman."));
    }
    let mut m = to_chars("Container engine executable not found: ");
    push_str(&mut m, executable);
    push_str(&mut m, ". Verify --docker-path or DEVCONTAINER_DOCKER_PATH, or install the requested container engine.");
    from_chars(&m)
}

/// Whether the engine's version output (from `-v`) shows a WSLc engine: it ran
/// successfully and mentions `wslc`, in any case.
pub open spec fn spec_is_wslc(status_code: i32, stdout: Seq<char>) -> bool {
    status_code == 0 && contains_str(lower(stdout), "wslc"@)
}

pub fn is_wslc_version_output(result: &Result<ProcessResult, String>) -> (r: bool)
    ensures
        r == match result {
            Ok(p) => spec_is_wslc(p.status_code, p.stdout@),
            Err(_) => false,
        },
{
    match result {
        Ok(p) => p.status_code == 0 && contains_str_chars(&lower_chars(&to_chars(p.stdout.as_str())), "wslc"),
        Err(_) => false,
    }
}


proof fn lemma_lookup_filtered(env: Seq<(Seq<char>, Seq<char>)>, key: Seq<char>, other: Seq<char>, tail: Seq<(Seq<char>, Seq<char>)>)
    requires
        other != key,
    ensures
        env_lookup(env.filter(other_key(key)) + tail, other)
            == match env_lookup(env, other) {
                Some(v) => Some(v),
                None => env_lookup(tail, other),
            },
    decreases env.len(),
{
    let f = other_key(key);
    if env.len() == 0 {
        assert(env.filter(f) + tail =~= tail);
    } else {
        let rest = env.drop_first();
        assert(env =~= seq![env[0]] + rest);
        Seq::filter_distributes_over_add(seq![env[0]], rest, f);
        reveal(Seq::filter);
        assert(seq![env[0]].drop_last() =~= Seq::<(Seq<char>, Seq<char>)>::empty());
        assert(Seq::<(Seq<char>, Seq<char>)>::empty().filter(f) =~= Seq::<(Seq<char>, Seq<char>)>::empty());
        lemma_lookup_filtered(rest, key, other, tail);
        if env[0].0 != key {
            assert(seq![env[0]].filter(f) =~= seq![env[0]]);
            assert(env.filter(f) + tail =~= seq![env[0]] + (rest.filter(f) + tail));
            assert((seq![env[0]] + (rest.filter(f) + tail)).drop_first() =~= rest.filter(f) + tail);
        } else {
            assert(seq![env[0]].filter(f) =~= Seq::<(Seq<char>, Seq<char>)>::empty());
            assert(env.filter(f) + tail =~= rest.filter(f) + tail);
        }
    }
}

proof fn lemma_lookup_without_key(env: Seq<(Seq<char>, Seq<char>)>, key: Seq<char>, tail: Seq<(Seq<char>, Seq<char>)>)
    ensures
        env_lookup(env.filter(other_key(key)) + tail, key) == env_lookup(tail, key),
    decreases env.len(),
{
    let f = other_key(key);
    if env.len() == 0 {
        assert(env.filter(f) + tail =~= tail);
    } else {
        let rest = env.drop_first();
        assert(env =~= seq![env[0]] + rest);
        Seq::filter_distributes_over_add(seq![env[0]], rest, f);
        reveal(Seq::filter);
        assert(seq![env[0]].drop_last() =~= Seq::<(Seq<char>, Seq<char>)>::empty());
        assert(Seq::<(Seq<char>, Seq<char>)>::empty().filter(f) =~= Seq::<(Seq<char>, Seq<char>)>::empty());
        lemma_lookup_without_key(rest, key, tail);
        if env[0].0 != key {
            assert(seq![env[0]].filter(f) =~= seq![env[0]]);
            assert(env.filter(f) + tail =~= seq![env[0]] + (rest.filter(f) + tail));
            assert((seq![env[0]] + (rest.filter(f) + tail)).drop_first() =~= rest.filter(f) + tail);
        } else {
            assert(seq![env[0]].filter(f) =~= Seq::<(Seq<char>, Seq<char>)>::empty());
            assert(env.filter(f) + tail =~= rest.filter(f) + tail);
        }
    }
}

/// Setting a variable in a request's environment: reading it back gives the
/// value just set, and every other variable reads as before.
pub proof fn law_env_set_reads_back(env: Seq<(Seq<char>, Seq<char>)>, key: Seq<char>, value: Seq<char>, other: Seq<char>)
    ensures
        env_lookup(env_set(env, key, value), key) == Some(value),
        other != key ==> env_lookup(env_set(env, key, value), other) == env_lookup(env, other),
{
    let tail = seq![(key, value)];
    assert(env_set(env, key, value) =~= env.filter(other_key(key)) + tail);
    lemma_lookup_without_key(env, key, tail);
    assert(tail.drop_first() =~= Seq::<(Seq<char>, Seq<char>)>::empty());
    if other != key {
        lemma_lookup_filtered(env, key, other, tail);
        assert(env_lookup(tail.drop_first(), other) is None);
        assert(env_lookup(tail, other) is None);
    }
}

proof fn lemma_pull_always_suffix(args: Seq<Seq<char>>, last: Seq<char>, i: nat, requested: bool, b: bool)
    requires
        i <= args.len(),
        last != "--pull-always"@,
        strip_prefix(last, "--pull-always="@) matches Some(w) && spec_cli_boolean_value(w) == Some(b),
        spec_cli_boolean_value(last) is None,
    ensures
        pull_always_from(args.push(last), i, requested) == b,
    decreases args.len() - i,
{
    let all = args.push(last);
    assert(all[args.len() as int] == last);
    if i == args.len() {
        assert(pull_always_from(all, i + 1, b) == b);
    } else {
        assert(all[i as int] == args[i as int]);
        if args[i as int] == "--pull-always"@ {
            if i + 1 < args.len() {
                assert(all[i as int + 1] == args[i as int + 1]);
                match spec_cli_boolean_value(args[i as int + 1]) {
                    Some(v) => lemma_pull_always_suffix(args, last, i + 2, v, b),
                    None => lemma_pull_always_suffix(args, last, i + 1, true, b),
                }
            } else {
                lemma_pull_always_suffix(args, last, i + 1, true, b);
            }
        } else {
            let next = match strip_prefix(args[i as int], "--pull-always="@) {
                Some(w) => match spec_cli_boolean_value(w) {
                    Some(x) => x,
                    None => requested,
                },
                None => requested,
            };
            lemma_pull_always_suffix(args, last, i + 1, next, b);
        }
    }
}

/// `--pull-always`: the last `--pull-always=true` or `--pull-always=false`
/// decides, whatever comes before it.
pub proof fn law_last_pull_always_decides(args: Seq<Seq<char>>, b: bool)
    ensures
        pull_always_from(args.push("--pull-always="@ + (if b { "true"@ } else { "false"@ })), 0, false) == b,
{
    reveal_strlit("--pull-always=");
    reveal_strlit("--pull-always");
    reveal_strlit("true");
    reveal_strlit("false");
    reveal_strlit("1");
    reveal_strlit("yes");
    reveal_strlit("on");
    reveal_strlit("0");
    reveal_strlit("no");
    reveal_strlit("off");
    let word: Seq<char> = if b { "true"@ } else { "false"@ };
    let last = "--pull-always="@ + word;
    assert(last.take(14) =~= "--pull-always="@);
    assert(last.skip(14) =~= word);
    assert(last.len() != "--pull-always"@.len());
    lemma_pull_always_suffix(args, last, 0, false, b);
}

} // verus!
