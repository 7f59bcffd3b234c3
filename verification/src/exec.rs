//! `exec`: which command to run in the dev container and how the engine is invoked for it.

use vstd::prelude::*;
use crate::engine::{engine_request, spec_engine_request, ProcessRequest, RequestView};
use crate::options::{opt_str, str_eq, EnvDefaults};
use crate::text::{from_chars, push_str, starts_with, starts_with_str, str_views, to_chars};

verus! {

/// Whether standard input and standard output are terminals.
#[derive(Clone, Copy, Debug, PartialEq, Eq, Structural)]
pub struct ExecStdio {
    pub stdin_is_terminal: bool,
    pub stdout_is_terminal: bool,
}

impl ExecStdio {
    pub fn new(stdin_is_terminal: bool, stdout_is_terminal: bool) -> (r: Self)
        ensures
            r.stdin_is_terminal == stdin_is_terminal,
            r.stdout_is_terminal == stdout_is_terminal,
    {
        ExecStdio { stdin_is_terminal, stdout_is_terminal }
    }

    pub open spec fn spec_should_allocate_tty(self) -> bool {
        self.stdin_is_terminal && self.stdout_is_terminal
    }

    /// A terminal is allocated only when both standard input and standard output are terminals.
    pub fn should_allocate_tty(self) -> (r: bool)
        ensures
            r == self.spec_should_allocate_tty(),
    {
        if self.stdin_is_terminal {
            self.stdout_is_terminal
        } else {
            false
        }
    }
}

/// Options of `exec` that take a value.
pub open spec fn takes_value(a: Seq<char>) -> bool {
    a == "--docker-path"@ || a == "--docker-compose-path"@ || a == "--workspace-folder"@ || a
        == "--config"@ || a == "--override-config"@ || a == "--workspace-mount-consistency"@ || a
        == "--remote-env"@ || a == "--secrets-file"@ || a == "--container-id"@ || a == "--id-label"@
        || a == "--log-level"@ || a == "--user-data-folder"@ || a == "--container-data-folder"@ || a
        == "--container-system-data-folder"@ || a == "--container-session-data-folder"@ || a
        == "--default-user-env-probe"@ || a == "--terminal-columns"@ || a == "--terminal-rows"@
}

/// Boolean options of `exec`, which may be followed by an explicit boolean.
pub open spec fn is_bool_option(a: Seq<char>) -> bool {
    a == "--mount-workspace-git-root"@ || a == "--mount-git-worktree-common-dir"@ || a
        == "--skip-feature-auto-mapping"@
}

pub open spec fn spec_is_explicit_bool_literal(v: Seq<char>) -> bool {
    v == "false"@ || v == "0"@ || v == "no"@ || v == "off"@ || v == "true"@ || v == "1"@ || v
        == "yes"@ || v == "on"@
}

pub fn is_explicit_bool_literal(value: &str) -> (r: bool)
    ensures
        r == spec_is_explicit_bool_literal(value@),
{
    str_eq(value, "false") || str_eq(value, "0") || str_eq(value, "no") || str_eq(value, "off")
        || str_eq(value, "true") || str_eq(value, "1") || str_eq(value, "yes") || str_eq(value, "on")
}

fn is_takes_value(a: &str) -> (r: bool)
    ensures
        r == takes_value(a@),
{
    str_eq(a, "--docker-path") || str_eq(a, "--docker-compose-path") || str_eq(a, "--workspace-folder")
        || str_eq(a, "--config") || str_eq(a, "--override-config") || str_eq(
        a,
        "--workspace-mount-consistency",
    ) || str_eq(a, "--remote-env") || str_eq(a, "--secrets-file") || str_eq(a, "--container-id")
        || str_eq(a, "--id-label") || str_eq(a, "--log-level") || str_eq(a, "--user-data-folder")
        || str_eq(a, "--container-data-folder") || str_eq(a, "--container-system-data-folder")
        || str_eq(a, "--container-session-data-folder") || str_eq(a, "--default-user-env-probe")
        || str_eq(a, "--terminal-columns") || str_eq(a, "--terminal-rows")
}

fn is_bool_opt(a: &str) -> (r: bool)
    ensures
        r == is_bool_option(a@),
{
    str_eq(a, "--mount-workspace-git-root") || str_eq(a, "--mount-git-worktree-common-dir")
        || str_eq(a, "--skip-feature-auto-mapping")
}

/// Where the command starts: past the known options (and their values), or an
/// error naming the first unknown `--` option.
pub open spec fn exec_scan(args: Seq<Seq<char>>, i: nat) -> Result<nat, Seq<char>>
    decreases args.len() + 2 - i,
{
    if i >= args.len() {
        Ok(i)
    } else if takes_value(args[i as int]) {
        exec_scan(args, i + 2)
    } else if is_bool_option(args[i as int]) {
        if i + 1 < args.len() && spec_is_explicit_bool_literal(args[i as int + 1]) {
            exec_scan(args, i + 2)
        } else {
            exec_scan(args, i + 1)
        }
    } else if starts_with(args[i as int], "--"@) {
        Err("Unsupported exec option: "@ + args[i as int])
    } else {
        Ok(i)
    }
}

/// The command and its arguments: everything after the options.
pub open spec fn spec_exec_command_and_args(args: Seq<Seq<char>>) -> Result<Seq<Seq<char>>, Seq<char>> {
    match exec_scan(args, 0) {
        Err(e) => Err(e),
        Ok(i) => if i >= args.len() {
            Err("exec requires a command to run"@)
        } else {
            Ok(args.skip(i as int))
        },
    }
}

proof fn lemma_exec_scan(args: Seq<Seq<char>>, i: nat)
    ensures
        exec_scan(args, i) matches Ok(k) ==> k >= args.len() || (i <= k && !starts_with(args[k as int], "--"@)),
        exec_scan(args, i) matches Err(e) ==> exists|j: int|
            0 <= j < args.len() && starts_with(args[j], "--"@) && e == "Unsupported exec option: "@ + #[trigger] args[j],
    decreases args.len() + 2 - i,
{
    if i < args.len() {
        if takes_value(args[i as int]) {
            lemma_exec_scan(args, i + 2);
        } else if is_bool_option(args[i as int]) {
            lemma_exec_scan(args, i + 1);
            lemma_exec_scan(args, i + 2);
        }
    }
}

/// The command of `exec` is what follows the options: a suffix of the
/// arguments that starts with one that is not an option. An error either says
/// that no command is left or names an argument that starts with `--`.
pub proof fn law_exec_command_follows_the_options(args: Seq<Seq<char>>)
    ensures
        spec_exec_command_and_args(args) matches Ok(command) ==> exists|k: int|
            0 <= k < args.len() && command == args.skip(k) && !starts_with(#[trigger] args[k], "--"@),
        spec_exec_command_and_args(args) matches Err(e) ==> e == "exec requires a command to run"@ || exists|j: int|
            0 <= j < args.len() && starts_with(args[j], "--"@) && e == "Unsupported exec option: "@ + #[trigger] args[j],
        args.len() == 0 ==> spec_exec_command_and_args(args) == Err::<Seq<Seq<char>>, Seq<char>>("exec requires a command to run"@),
{
    lemma_exec_scan(args, 0);
    if let Ok(k) = exec_scan(args, 0) {
        if k < args.len() {
            assert(!starts_with(args[k as int], "--"@));
        }
    }
}

proof fn lemma_exec_options_start_with_dashes(a: Seq<char>)
    requires
        takes_value(a) || is_bool_option(a),
    ensures
        starts_with(a, "--"@),
{
    reveal_strlit("--");
    reveal_strlit("--docker-path");
    reveal_strlit("--docker-compose-path");
    reveal_strlit("--workspace-folder");
    reveal_strlit("--config");
    reveal_strlit("--override-config");
    reveal_strlit("--workspace-mount-consistency");
    reveal_strlit("--remote-env");
    reveal_strlit("--secrets-file");
    reveal_strlit("--container-id");
    reveal_strlit("--id-label");
    reveal_strlit("--log-level");
    reveal_strlit("--user-data-folder");
    reveal_strlit("--container-data-folder");
    reveal_strlit("--container-system-data-folder");
    reveal_strlit("--container-session-data-folder");
    reveal_strlit("--default-user-env-probe");
    reveal_strlit("--terminal-columns");
    reveal_strlit("--terminal-rows");
    reveal_strlit("--mount-workspace-git-root");
    reveal_strlit("--mount-git-worktree-common-dir");
    reveal_strlit("--skip-feature-auto-mapping");
    assert(a.take(2) =~= "--"@);
}

/// The options `exec` documents as taking a value.
pub open spec fn exec_value_options() -> Seq<Seq<char>> {
    seq![
        "--docker-path"@,
        "--docker-compose-path"@,
        "--workspace-folder"@,
        "--config"@,
        "--override-config"@,
        "--workspace-mount-consistency"@,
        "--remote-env"@,
        "--secrets-file"@,
        "--container-id"@,
        "--id-label"@,
        "--log-level"@,
        "--user-data-folder"@,
        "--container-data-folder"@,
        "--container-system-data-folder"@,
        "--container-session-data-folder"@,
        "--default-user-env-probe"@,
        "--terminal-columns"@,
        "--terminal-rows"@,
    ]
}

/// Every option of `exec` that takes a value is skipped together with its
/// value, whatever the value: after `--docker-path`, `--remote-env` or any
/// other of them and its value, an argument that is not an option starts the
/// command, which runs with the arguments after it.
pub proof fn law_exec_value_options_are_skipped(i: int, value: Seq<char>, command: Seq<char>, rest: Seq<Seq<char>>)
    requires
        0 <= i < exec_value_options().len(),
        !starts_with(command, "--"@),
    ensures
        spec_exec_command_and_args(seq![exec_value_options()[i], value, command] + rest)
            == Ok::<Seq<Seq<char>>, Seq<char>>(seq![command] + rest),
{
    reveal_strlit("--docker-path");
    reveal_strlit("--docker-compose-path");
    reveal_strlit("--workspace-folder");
    reveal_strlit("--config");
    reveal_strlit("--override-config");
    reveal_strlit("--workspace-mount-consistency");
    reveal_strlit("--remote-env");
    reveal_strlit("--secrets-file");
    reveal_strlit("--container-id");
    reveal_strlit("--id-label");
    reveal_strlit("--log-level");
    reveal_strlit("--user-data-folder");
    reveal_strlit("--container-data-folder");
    reveal_strlit("--container-system-data-folder");
    reveal_strlit("--container-session-data-folder");
    reveal_strlit("--default-user-env-probe");
    reveal_strlit("--terminal-columns");
    reveal_strlit("--terminal-rows");
    let option = exec_value_options()[i];
    let args = seq![option, value, command] + rest;
    assert(args[0] == option);
    assert(takes_value(option));
    assert(args[2] == command);
    if takes_value(command) || is_bool_option(command) {
        lemma_exec_options_start_with_dashes(command);
    }
    assert(exec_scan(args, 2) == Ok::<nat, Seq<char>>(2));
    assert(exec_scan(args, 0) == exec_scan(args, 2));
    assert(args.skip(2) =~= seq![command] + rest);
}

/// The flags `exec` documents, which an explicit boolean may follow.
pub open spec fn exec_flag_options() -> Seq<Seq<char>> {
    seq![
        "--mount-workspace-git-root"@,
        "--mount-git-worktree-common-dir"@,
        "--skip-feature-auto-mapping"@,
    ]
}

/// A flag of `exec` takes the next argument with it only when that argument is
/// an explicit boolean (`true`, `false`, `1`, `0`, `yes`, `no`, `on`, `off`);
/// otherwise the next argument, when it is not an option, starts the command.
pub proof fn law_exec_flags_take_only_booleans(i: int, literal: Seq<char>, command: Seq<char>, rest: Seq<Seq<char>>)
    requires
        0 <= i < exec_flag_options().len(),
        literal == "true"@ || literal == "false"@ || literal == "1"@ || literal == "0"@
            || literal == "yes"@ || literal == "no"@ || literal == "on"@ || literal == "off"@,
        !starts_with(command, "--"@),
    ensures
        spec_exec_command_and_args(seq![exec_flag_options()[i], literal, command] + rest)
            == Ok::<Seq<Seq<char>>, Seq<char>>(seq![command] + rest),
        !(command == "true"@ || command == "false"@ || command == "1"@ || command == "0"@
            || command == "yes"@ || command == "no"@ || command == "on"@ || command == "off"@)
            ==> spec_exec_command_and_args(seq![exec_flag_options()[i], command] + rest)
            == Ok::<Seq<Seq<char>>, Seq<char>>(seq![command] + rest),
{
    reveal_strlit("--mount-workspace-git-root");
    reveal_strlit("--mount-git-worktree-common-dir");
    reveal_strlit("--skip-feature-auto-mapping");
    let flag = exec_flag_options()[i];
    assert(is_bool_option(flag));
    if takes_value(flag) {
        lemma_exec_value_option_is_no_flag(flag);
    }
    if takes_value(command) || is_bool_option(command) {
        lemma_exec_options_start_with_dashes(command);
    }
    let with_literal = seq![flag, literal, command] + rest;
    assert(with_literal[0] == flag && with_literal[1] == literal && with_literal[2] == command);
    assert(spec_is_explicit_bool_literal(literal));
    assert(exec_scan(with_literal, 2) == Ok::<nat, Seq<char>>(2));
    assert(with_literal.skip(2) =~= seq![command] + rest);
    let bare = seq![flag, command] + rest;
    assert(bare[0] == flag && bare[1] == command);
    assert(exec_scan(bare, 1) == Ok::<nat, Seq<char>>(1));
    assert(bare.skip(1) =~= seq![command] + rest);
}

proof fn lemma_exec_value_option_is_no_flag(a: Seq<char>)
    requires
        takes_value(a),
    ensures
        !is_bool_option(a),
{
    reveal_strlit("--docker-path");
    reveal_strlit("--docker-compose-path");
    reveal_strlit("--workspace-folder");
    reveal_strlit("--config");
    reveal_strlit("--override-config");
    reveal_strlit("--workspace-mount-consistency");
    reveal_strlit("--remote-env");
    reveal_strlit("--secrets-file");
    reveal_strlit("--container-id");
    reveal_strlit("--id-label");
    reveal_strlit("--log-level");
    reveal_strlit("--user-data-folder");
    reveal_strlit("--container-data-folder");
    reveal_strlit("--container-system-data-folder");
    reveal_strlit("--container-session-data-folder");
    reveal_strlit("--default-user-env-probe");
    reveal_strlit("--terminal-columns");
    reveal_strlit("--terminal-rows");
    reveal_strlit("--mount-workspace-git-root");
    reveal_strlit("--mount-git-worktree-common-dir");
    reveal_strlit("--skip-feature-auto-mapping");
    if is_bool_option(a) {
        assert(a.len() == 26 || a.len() == 31 || a.len() == 27);
        if a.len() == 31 {
            assert(a == "--mount-git-worktree-common-dir"@);
            assert(a[2] == 'm');
        }
    }
}

proof fn lemma_exec_options_listed(a: Seq<char>)
    ensures
        takes_value(a) ==> exec_value_options().contains(a),
        is_bool_option(a) ==> exec_flag_options().contains(a),
{
    if a == "--docker-path"@ {
        assert(exec_value_options()[0] == a);
    }
    if a == "--docker-compose-path"@ {
        assert(exec_value_options()[1] == a);
    }
    if a == "--workspace-folder"@ {
        assert(exec_value_options()[2] == a);
    }
    if a == "--config"@ {
        assert(exec_value_options()[3] == a);
    }
    if a == "--override-config"@ {
        assert(exec_value_options()[4] == a);
    }
    if a == "--workspace-mount-consistency"@ {
        assert(exec_value_options()[5] == a);
    }
    if a == "--remote-env"@ {
        assert(exec_value_options()[6] == a);
    }
    if a == "--secrets-file"@ {
        assert(exec_value_options()[7] == a);
    }
    if a == "--container-id"@ {
        assert(exec_value_options()[8] == a);
    }
    if a == "--id-label"@ {
        assert(exec_value_options()[9] == a);
    }
    if a == "--log-level"@ {
        assert(exec_value_options()[10] == a);
    }
    if a == "--user-data-folder"@ {
        assert(exec_value_options()[11] == a);
    }
    if a == "--container-data-folder"@ {
        assert(exec_value_options()[12] == a);
    }
    if a == "--container-system-data-folder"@ {
        assert(exec_value_options()[13] == a);
    }
    if a == "--container-session-data-folder"@ {
        assert(exec_value_options()[14] == a);
    }
    if a == "--default-user-env-probe"@ {
        assert(exec_value_options()[15] == a);
    }
    if a == "--terminal-columns"@ {
        assert(exec_value_options()[16] == a);
    }
    if a == "--terminal-rows"@ {
        assert(exec_value_options()[17] == a);
    }
    if a == "--mount-workspace-git-root"@ {
        assert(exec_flag_options()[0] == a);
    }
    if a == "--mount-git-worktree-common-dir"@ {
        assert(exec_flag_options()[1] == a);
    }
    if a == "--skip-feature-auto-mapping"@ {
        assert(exec_flag_options()[2] == a);
    }
}

/// An argument before the command that starts with `--` and is none of the
/// options of `exec` is refused, by name; and an option that takes a value
/// but is the last argument leaves no command to run.
pub proof fn law_exec_refuses_unknown_options(a: Seq<char>, rest: Seq<Seq<char>>, i: int)
    requires
        starts_with(a, "--"@),
        !exec_value_options().contains(a),
        !exec_flag_options().contains(a),
        0 <= i < exec_value_options().len(),
    ensures
        spec_exec_command_and_args(seq![a] + rest) == Err::<Seq<Seq<char>>, Seq<char>>("Unsupported exec option: "@ + a),
        spec_exec_command_and_args(seq![exec_value_options()[i]]) == Err::<Seq<Seq<char>>, Seq<char>>("exec requires a command to run"@),
{
    lemma_exec_options_listed(a);
    let args = seq![a] + rest;
    assert(args[0] == a);
    let option = exec_value_options()[i];
    reveal_strlit("--docker-path");
    reveal_strlit("--docker-compose-path");
    reveal_strlit("--workspace-folder");
    reveal_strlit("--config");
    reveal_strlit("--override-config");
    reveal_strlit("--workspace-mount-consistency");
    reveal_strlit("--remote-env");
    reveal_strlit("--secrets-file");
    reveal_strlit("--container-id");
    reveal_strlit("--id-label");
    reveal_strlit("--log-level");
    reveal_strlit("--user-data-folder");
    reveal_strlit("--container-data-folder");
    reveal_strlit("--container-system-data-folder");
    reveal_strlit("--container-session-data-folder");
    reveal_strlit("--default-user-env-probe");
    reveal_strlit("--terminal-columns");
    reveal_strlit("--terminal-rows");
    assert(takes_value(option));
    assert(exec_scan(seq![option], 0) == exec_scan(seq![option], 2));
}

pub fn exec_command_and_args(args: &[String]) -> (r: Result<Vec<String>, String>)
    ensures
        match r {
            Ok(v) => spec_exec_command_and_args(str_views(args@)) == Ok::<Seq<Seq<char>>, Seq<char>>(str_views(v@)),
            Err(e) => spec_exec_command_and_args(str_views(args@)) == Err::<Seq<Seq<char>>, Seq<char>>(e@),
        },
{
    let ghost av = str_views(args@);
    let mut index: usize = 0;
    while index < args.len()
        invariant
            av == str_views(args@),
            exec_scan(av, 0) == exec_scan(av, index as nat),
        ensures
            exec_scan(av, 0) == exec_scan(av, index as nat),
            index < args.len() ==> exec_scan(av, index as nat) == Ok::<nat, Seq<char>>(index as nat),
        decreases args.len() + 2 - index,
    {
        let arg = args[index].as_str();
        assert(av[index as int] == arg@);
        if is_takes_value(arg) {
            if args.len() - index < 2 {
                assert(exec_scan(av, (index + 2) as nat) == Ok::<nat, Seq<char>>((index + 2) as nat));
                return Err(from_chars(&to_chars("exec requires a command to run")));
            }
            index = index + 2;
            continue;
        }
        if is_bool_opt(arg) {
            let explicit = index + 1 < args.len() && is_explicit_bool_literal(args[index + 1].as_str());
            proof {
                if index + 1 < args.len() {
                    assert(av[index + 1] == args@[index + 1]@);
                }
            }
            index = index + if explicit {
                2
            } else {
                1
            };
            continue;
        }
        if starts_with_str(&to_chars(arg), "--") {
            let mut m = to_chars("Unsupported exec option: ");
            push_str(&mut m, arg);
            return Err(from_chars(&m));
        }
        break;
    }
    if index >= args.len() {
        return Err(from_chars(&to_chars("exec requires a command to run")));
    }
    let mut out: Vec<String> = Vec::new();
    let mut k = index;
    while k < args.len()
        invariant
            index <= k <= args.len(),
            av == str_views(args@),
            str_views(out@) == av.subrange(index as int, k as int),
        decreases args.len() - k,
    {
        let a = args[k].clone();
        assert(av[k as int] == a@);
        assert(str_views(out@.push(a)) =~= str_views(out@).push(a@));
        assert(av.subrange(index as int, k + 1) =~= av.subrange(index as int, k as int).push(av[k as int]));
        out.push(a);
        k = k + 1;
    }
    assert(av.subrange(index as int, args.len() as int) =~= av.skip(index as int));
    Ok(out)
}

/// `-e key=value` for each pair, in order.
pub open spec fn env_args(remote_env: Seq<(Seq<char>, Seq<char>)>) -> Seq<Seq<char>>
    decreases remote_env.len(),
{
    if remote_env.len() == 0 {
        seq![]
    } else {
        seq!["-e"@, remote_env[0].0 + "="@ + remote_env[0].1] + env_args(remote_env.drop_first())
    }
}

/// `exec -i [-t] --workdir <folder> [--user <user>] -e ... <container> <command...>`.
pub open spec fn spec_exec_engine_args(user: Option<Seq<char>>, folder: Seq<char>, container_id: Seq<char>, command: Seq<Seq<char>>, tty: bool, remote_env: Seq<(Seq<char>, Seq<char>)>) -> Seq<Seq<char>> {
    seq!["exec"@, "-i"@] + (if tty {
        seq!["-t"@]
    } else {
        seq![]
    }) + seq!["--workdir"@, folder] + (match user {
        Some(u) => seq!["--user"@, u],
        None => seq![],
    }) + env_args(remote_env) + seq![container_id] + command
}

pub open spec fn pair_views(v: Seq<(String, String)>) -> Seq<(Seq<char>, Seq<char>)> {
    v.map_values(|p: (String, String)| (p.0@, p.1@))
}

pub fn push_string(v: &mut Vec<String>, s: &str)
    ensures
        str_views(final(v)@) == str_views(old(v)@).push(s@),
{
    let x = from_chars(&to_chars(s));
    assert(str_views(v@.push(x)) =~= str_views(v@).push(x@));
    v.push(x);
}

/// Appends `-e key=value` for each pair, in order.
pub fn push_env_args(engine_args: &mut Vec<String>, remote_env: &Vec<(String, String)>)
    ensures
        str_views(final(engine_args)@) == str_views(old(engine_args)@) + env_args(pair_views(remote_env@)),
{
    let ghost ev = pair_views(remote_env@);
    let ghost prefix = str_views(engine_args@);
    let mut k: usize = 0;
    assert(ev.skip(0) =~= ev);
    assert(prefix + env_args(ev) =~= str_views(engine_args@) + env_args(ev.skip(0)));
    while k < remote_env.len()
        invariant
            k <= remote_env.len(),
            ev == pair_views(remote_env@),
            prefix + env_args(ev) == str_views(engine_args@) + env_args(ev.skip(k as int)),
        decreases remote_env.len() - k,
    {
        assert(ev.skip(k as int).drop_first() =~= ev.skip(k + 1));
        assert(ev.skip(k as int)[0] == ev[k as int]);
        let mut entry = to_chars(remote_env[k].0.as_str());
        push_str(&mut entry, "=");
        push_str(&mut entry, remote_env[k].1.as_str());
        let ghost before = str_views(engine_args@);
        push_string(engine_args, "-e");
        let e = from_chars(&entry);
        assert(str_views(engine_args@.push(e)) =~= str_views(engine_args@).push(e@));
        engine_args.push(e);
        assert(str_views(engine_args@) + env_args(ev.skip(k + 1)) =~= before + env_args(ev.skip(k as int)));
        k = k + 1;
    }
    assert(ev.skip(k as int) =~= Seq::<(Seq<char>, Seq<char>)>::empty());
    assert(str_views(engine_args@) + Seq::<Seq<char>>::empty() =~= str_views(engine_args@));
}

pub fn exec_engine_args_with_remote_env(user: Option<&str>, remote_workspace_folder: &str, container_id: &str, command_args: Vec<String>, stdio: ExecStdio, remote_env: &Vec<(String, String)>) -> (r: Vec<String>)
    ensures
        str_views(r@) == spec_exec_engine_args(
            match user {
                Some(u) => Some(u@),
                None => None,
            },
            remote_workspace_folder@,
            container_id@,
            str_views(command_args@),
            stdio.spec_should_allocate_tty(),
            pair_views(remote_env@),
        ),
{
    let mut engine_args: Vec<String> = Vec::new();
    push_string(&mut engine_args, "exec");
    push_string(&mut engine_args, "-i");
    if stdio.should_allocate_tty() {
        push_string(&mut engine_args, "-t");
    }
    push_string(&mut engine_args, "--workdir");
    push_string(&mut engine_args, remote_workspace_folder);
    match user {
        Some(u) => {
            push_string(&mut engine_args, "--user");
            push_string(&mut engine_args, u);
        },
        None => {},
    }
    push_env_args(&mut engine_args, remote_env);
    push_string(&mut engine_args, container_id);
    let ghost with_container = str_views(engine_args@);
    let mut rest = command_args;
    let ghost rest_view = str_views(rest@);
    engine_args.append(&mut rest);
    assert(str_views(engine_args@) =~= with_container + rest_view);
    engine_args
}

/// What `exec` learns about the dev container before running the command: its
/// id, the folder to run in, its configuration (whose configured user runs the
/// command), and the environment to pass (which includes `HOME`).
#[derive(Debug)]
pub struct ExecContext {
    pub container_id: String,
    pub remote_workspace_folder: String,
    pub configuration: crate::json::JsonValue,
    pub remote_env: Vec<(String, String)>,
}

/// The engine request that runs the command in the container.
pub open spec fn spec_exec_request(args: Seq<Seq<char>>, env: EnvDefaults, command: Seq<Seq<char>>, stdio: ExecStdio, ctx: ExecContext) -> RequestView {
    spec_engine_request(
        args,
        env,
        spec_exec_engine_args(crate::workspace::spec_configured_user(ctx.configuration@), ctx.remote_workspace_folder@, ctx.container_id@, command, stdio.spec_should_allocate_tty(), pair_views(ctx.remote_env@)),
    )
}

/// `exec`: reads the command from the arguments (failing before anything else
/// when there is none or an option is unknown), then learns about the container
/// from `resolve_context` and returns the engine request that runs the command there.
pub fn run_exec<F: FnOnce() -> Result<ExecContext, String>>(args: &[String], env: &EnvDefaults, stdio: ExecStdio, resolve_context: F) -> (r: Result<ProcessRequest, String>)
    requires
        call_requires(resolve_context, ()),
    ensures
        match spec_exec_command_and_args(str_views(args@)) {
            Err(e) => r is Err && r->Err_0@ == e,
            Ok(command) => exists|c: Result<ExecContext, String>| #[trigger] call_ensures(resolve_context, (), c) && match c {
                Err(e) => r is Err && r->Err_0@ == e@,
                Ok(ctx) => r is Ok && r->Ok_0@ == spec_exec_request(str_views(args@), *env, command, stdio, ctx),
            },
        },
{
    let command_args = match exec_command_and_args(args) {
        Ok(c) => c,
        Err(e) => {
            return Err(e);
        },
    };
    let c = resolve_context();
    let r = match &c {
        Err(e) => Err(e.clone()),
        Ok(ctx) => {
            let configured = crate::workspace::configured_user(&ctx.configuration);
            let user = match &configured {
                Some(u) => Some(u.as_str()),
                None => None,
            };
            let engine_args = exec_engine_args_with_remote_env(user, ctx.remote_workspace_folder.as_str(), ctx.container_id.as_str(), command_args, stdio, &ctx.remote_env);
            Ok(engine_request(args, env, engine_args))
        },
    };
    assert(call_ensures(resolve_context, (), c));
    r
}

} // verus!
