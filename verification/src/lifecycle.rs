//! Lifecycle commands (`postCreateCommand` and the like): how each runs in the
//! container or on the host, and how a group of them is judged.

use vstd::prelude::*;
use crate::engine::{runtime_process_request, spec_runtime_request, spec_stderr_or_stdout, stderr_or_stdout, ProcessRequest, ProcessResult, RequestView};
use crate::exec::{env_args, pair_views, push_env_args, push_string};
use crate::json::{JsonValue, JsonView};
use crate::options::opt_str;
use crate::text::{from_chars, str_views, to_chars};
use crate::workspace::{configured_user, spec_configured_user};

verus! {

/// When lifecycle commands run.
#[derive(Clone, Copy, Debug, PartialEq, Eq, Structural)]
pub enum LifecycleMode {
    UpCreated,
    UpStarted,
    UpReused,
    SetUp,
    RunUserCommands,
}

/// A lifecycle command: a line for the shell, or a program and its arguments.
#[derive(Debug)]
pub enum LifecycleCommand {
    Shell(String),
    Exec(Vec<String>),
}

pub enum CommandView {
    Shell(Seq<char>),
    Exec(Seq<Seq<char>>),
}

pub open spec fn command_view(c: LifecycleCommand) -> CommandView {
    match c {
        LifecycleCommand::Shell(s) => CommandView::Shell(s@),
        LifecycleCommand::Exec(parts) => CommandView::Exec(str_views(parts@)),
    }
}

/// The command part of a lifecycle call: `/bin/sh -lc <line>`, or the program
/// and its arguments.
pub open spec fn command_args(command: CommandView) -> Seq<Seq<char>> {
    match command {
        CommandView::Shell(line) => seq!["/bin/sh"@, "-lc"@, line],
        CommandView::Exec(parts) => parts,
    }
}

/// `exec --workdir <folder> [--user <user>] -e ... <container>` and the command.
pub open spec fn spec_lifecycle_exec_args(
    configuration: JsonView,
    remote_env: Seq<(Seq<char>, Seq<char>)>,
    remote_workspace_folder: Seq<char>,
    container_id: Seq<char>,
    command: CommandView,
) -> Seq<Seq<char>> {
    seq!["exec"@, "--workdir"@, remote_workspace_folder] + (match spec_configured_user(configuration) {
        Some(u) => seq!["--user"@, u],
        None => seq![],
    }) + env_args(remote_env) + seq![container_id] + command_args(command)
}

pub fn lifecycle_exec_args(
    configuration: &JsonValue,
    remote_env: &Vec<(String, String)>,
    remote_workspace_folder: &str,
    container_id: &str,
    command: LifecycleCommand,
) -> (r: Vec<String>)
    ensures
        str_views(r@) == spec_lifecycle_exec_args(
            configuration@,
            pair_views(remote_env@),
            remote_workspace_folder@,
            container_id@,
            command_view(command),
        ),
{
    let ghost cv = command_view(command);
    let mut engine_args: Vec<String> = Vec::new();
    push_string(&mut engine_args, "exec");
    push_string(&mut engine_args, "--workdir");
    push_string(&mut engine_args, remote_workspace_folder);
    match configured_user(configuration) {
        Some(u) => {
            push_string(&mut engine_args, "--user");
            push_string(&mut engine_args, u.as_str());
        },
        None => {},
    }
    push_env_args(&mut engine_args, remote_env);
    push_string(&mut engine_args, container_id);
    let ghost head = str_views(engine_args@);
    match command {
        LifecycleCommand::Shell(line) => {
            push_string(&mut engine_args, "/bin/sh");
            push_string(&mut engine_args, "-lc");
            push_string(&mut engine_args, line.as_str());
        },
        LifecycleCommand::Exec(parts) => {
            let mut rest = parts;
            let ghost rest_view = str_views(rest@);
            engine_args.append(&mut rest);
            assert(str_views(engine_args@) =~= head + rest_view);
        },
    }
    assert(str_views(engine_args@) =~= spec_lifecycle_exec_args(
        configuration@,
        pair_views(remote_env@),
        remote_workspace_folder@,
        container_id@,
        cv,
    ));
    engine_args
}

/// A lifecycle command run on the host, in the workspace folder: a line runs
/// with `/bin/sh -c`; parts run as a program (empty when there are none) with
/// the rest as its arguments.
pub open spec fn spec_host_lifecycle_request(args: Seq<Seq<char>>, workspace_folder: Seq<char>, command: CommandView) -> RequestView {
    match command {
        CommandView::Shell(line) => spec_runtime_request(args, "/bin/sh"@, seq!["-c"@, line], Some(workspace_folder)),
        CommandView::Exec(parts) => spec_runtime_request(
            args,
            if parts.len() > 0 {
                parts[0]
            } else {
                seq![]
            },
            if parts.len() > 0 {
                parts.drop_first()
            } else {
                seq![]
            },
            Some(workspace_folder),
        ),
    }
}

pub fn host_lifecycle_request(args: &[String], workspace_folder: &str, command: LifecycleCommand) -> (r: ProcessRequest)
    ensures
        r@ == spec_host_lifecycle_request(str_views(args@), workspace_folder@, command_view(command)),
{
    let cwd = Some(from_chars(&to_chars(workspace_folder)));
    match command {
        LifecycleCommand::Shell(line) => {
            let mut req_args: Vec<String> = Vec::new();
            push_string(&mut req_args, "-c");
            push_string(&mut req_args, line.as_str());
            assert(str_views(req_args@) =~= seq!["-c"@, line@]);
            runtime_process_request(args, from_chars(&to_chars("/bin/sh")), req_args, cwd)
        },
        LifecycleCommand::Exec(parts) => {
            let ghost pv = str_views(parts@);
            if parts.len() == 0 {
                let empty: Vec<String> = Vec::new();
                assert(str_views(empty@) =~= Seq::<Seq<char>>::empty());
                return runtime_process_request(args, from_chars(&Vec::new()), empty, cwd);
            }
            let program = from_chars(&to_chars(parts[0].as_str()));
            let mut rest: Vec<String> = Vec::new();
            let mut k: usize = 1;
            while k < parts.len()
                invariant
                    1 <= k <= parts.len(),
                    pv == str_views(parts@),
                    str_views(rest@) == pv.subrange(1, k as int),
                decreases parts.len() - k,
            {
                push_string(&mut rest, parts[k].as_str());
                assert(pv.subrange(1, k + 1) =~= pv.subrange(1, k as int).push(pv[k as int]));
                k = k + 1;
            }
            assert(pv.subrange(1, parts.len() as int) =~= pv.drop_first());
            runtime_process_request(args, program, rest, cwd)
        },
    }
}

/// How a group of lifecycle commands ended, from the outcome of each in order:
/// the first failure (a command that could not run, or the error output of one
/// that failed) is the group's error.
pub open spec fn spec_process_group_outcome(results: Seq<Result<(i32, Seq<char>, Seq<char>), Seq<char>>>) -> Result<(), Seq<char>>
    decreases results.len(),
{
    if results.len() == 0 {
        Ok(())
    } else {
        match results[0] {
            Err(e) => Err(e),
            Ok((status, stdout, stderr)) => if status != 0 {
                Err(spec_stderr_or_stdout(stdout, stderr))
            } else {
                spec_process_group_outcome(results.drop_first())
            },
        }
    }
}

/// Whether a command's outcome is a success: it ran and exited with status 0.
pub open spec fn command_succeeded(result: Result<(i32, Seq<char>, Seq<char>), Seq<char>>) -> bool {
    result matches Ok((status, _, _)) && status == 0
}

/// What a failed command reports: the error that kept it from running, or its
/// error output (its output where that is empty).
pub open spec fn command_failure(result: Result<(i32, Seq<char>, Seq<char>), Seq<char>>) -> Seq<char> {
    match result {
        Err(e) => e,
        Ok((_, stdout, stderr)) => spec_stderr_or_stdout(stdout, stderr),
    }
}

/// A group of lifecycle commands succeeds exactly when each of its commands
/// does; otherwise its error is that of the earliest command, in the group's
/// order, that failed.
pub proof fn law_group_fails_with_the_earliest_failure(results: Seq<Result<(i32, Seq<char>, Seq<char>), Seq<char>>>)
    ensures
        spec_process_group_outcome(results) is Ok <==> forall|i: int| 0 <= i < results.len() ==> command_succeeded(#[trigger] results[i]),
        spec_process_group_outcome(results) is Err ==> exists|k: int|
            0 <= k < results.len() && !command_succeeded(#[trigger] results[k])
                && (forall|i: int| 0 <= i < k ==> command_succeeded(#[trigger] results[i]))
                && spec_process_group_outcome(results) == Err::<(), Seq<char>>(command_failure(results[k])),
    decreases results.len(),
{
    if results.len() > 0 {
        let rest = results.drop_first();
        law_group_fails_with_the_earliest_failure(rest);
        assert forall|i: int| 1 <= i < results.len() implies results[i] == rest[i - 1] by {}
        if command_succeeded(results[0]) {
            if spec_process_group_outcome(results) is Ok {
                assert forall|i: int| 0 <= i < results.len() implies command_succeeded(#[trigger] results[i]) by {
                    if i > 0 {
                        assert(command_succeeded(rest[i - 1]));
                    }
                }
            } else {
                let k = choose|k: int| 0 <= k < rest.len() && !command_succeeded(#[trigger] rest[k])
                    && (forall|i: int| 0 <= i < k ==> command_succeeded(#[trigger] rest[i]))
                    && spec_process_group_outcome(rest) == Err::<(), Seq<char>>(command_failure(rest[k]));
                assert(results[k + 1] == rest[k]);
                assert forall|i: int| 0 <= i < k + 1 implies command_succeeded(#[trigger] results[i]) by {
                    if i > 0 {
                        assert(results[i] == rest[i - 1]);
                    }
                }
                assert(!(forall|i: int| 0 <= i < results.len() ==> command_succeeded(#[trigger] results[i])));
            }
        } else {
            assert(!(forall|i: int| 0 <= i < results.len() ==> command_succeeded(#[trigger] results[i])));
            assert(forall|i: int| 0 <= i < 0 ==> command_succeeded(#[trigger] results[i]));
        }
    }
}

pub open spec fn result_views(results: Seq<Result<ProcessResult, String>>) -> Seq<Result<(i32, Seq<char>, Seq<char>), Seq<char>>> {
    results.map_values(
        |r: Result<ProcessResult, String>|
            match r {
                Ok(p) => Ok((p.status_code, p.stdout@, p.stderr@)),
                Err(e) => Err(e@),
            },
    )
}

pub fn process_group_outcome(results: &Vec<Result<ProcessResult, String>>) -> (r: Result<(), String>)
    ensures
        match r {
            Ok(()) => spec_process_group_outcome(result_views(results@)) is Ok,
            Err(e) => spec_process_group_outcome(result_views(results@)) == Err::<(), Seq<char>>(e@),
        },
{
    let ghost rv = result_views(results@);
    let mut k: usize = 0;
    assert(rv.skip(0) =~= rv);
    while k < results.len()
        invariant
            k <= results.len(),
            rv == result_views(results@),
            spec_process_group_outcome(rv) == spec_process_group_outcome(rv.skip(k as int)),
        decreases results.len() - k,
    {
        assert(rv.skip(k as int).drop_first() =~= rv.skip(k + 1));
        assert(rv.skip(k as int)[0] == rv[k as int]);
        match &results[k] {
            Err(e) => {
                return Err(e.clone());
            },
            Ok(p) => {
                if p.status_code != 0 {
                    return Err(stderr_or_stdout(p));
                }
            },
        }
        k = k + 1;
    }
    Ok(())
}

} // verus!
