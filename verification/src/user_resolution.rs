//! The user a container runs as and that user's home folder: passwd lookups
//! and the shell quoting they need.

use vstd::prelude::*;
use crate::engine::{engine_request, spec_engine_request, spec_stderr_or_stdout, stderr_or_stdout, ProcessRequest, ProcessResult};
use crate::compose_override::{compose_environment, spec_compose_environment};
use crate::dockerfile::{lookup_last, lookup_last_exec};
use crate::engine::pair_views;
use crate::json::{parse_json_text, parses_json, get_str, get_str_exec, items_view, json_get, json_view, lemma_items_view, member_strings, member_strings_exec, JsonValue, JsonView};
use crate::options::{opt_str, EnvDefaults};
use crate::engine_run::{bool_result_view, string_result_view};
use crate::workspace::spec_configured_user;
use crate::text::{
    is, split_once, split_once_chars, str_views, from_chars, lines, lines_chars, push_all, push_str, split, split_chars, to_chars, trim,
    trim_chars, trim_end_char, trim_end_char_chars, views,
};

verus! {

/// The characters of `s`, each replaced by its image under `f`.
pub open spec fn flat_map(s: Seq<char>, f: spec_fn(char) -> Seq<char>) -> Seq<char>
    decreases s.len(),
{
    if s.len() == 0 {
        seq![]
    } else {
        flat_map(s.drop_last(), f) + f(s.last())
    }
}

/// A backslash before each character that `p` selects.
pub open spec fn escape_with(c: char, p: spec_fn(char) -> bool) -> Seq<char> {
    if p(c) {
        seq!['\\', c]
    } else {
        seq![c]
    }
}

pub open spec fn is_getent_special(c: char) -> bool {
    c == '\'' || c == '\\'
}

pub open spec fn is_regex_special(c: char) -> bool {
    c == '.' || c == '*' || c == '+' || c == '?' || c == '^' || c == '$' || c == '{' || c == '}' || c
        == '(' || c == ')' || c == '|' || c == '[' || c == ']' || c == '\\'
}

pub open spec fn spec_escape_getent_shell_value(s: Seq<char>) -> Seq<char> {
    flat_map(s, |c: char| escape_with(c, |d: char| is_getent_special(d)))
}

pub open spec fn spec_escape_regex_characters(s: Seq<char>) -> Seq<char> {
    flat_map(s, |c: char| escape_with(c, |d: char| is_regex_special(d)))
}

/// `'` preceded by a backslash, as `str::replace('\'', "\\'")` gives.
pub open spec fn spec_escape_quotes(s: Seq<char>) -> Seq<char> {
    flat_map(s, |c: char| escape_with(c, |d: char| d == '\''))
}

/// Backslash-escapes the characters that `which` selects: 0 for `'` and `\`,
/// 1 for regular-expression metacharacters, 2 for `'` alone.
fn escape_chars(s: &Vec<char>, which: u8) -> (r: Vec<char>)
    requires
        which <= 2,
    ensures
        which == 0 ==> r@ == spec_escape_getent_shell_value(s@),
        which == 1 ==> r@ == spec_escape_regex_characters(s@),
        which == 2 ==> r@ == spec_escape_quotes(s@),
{
    let mut r: Vec<char> = Vec::new();
    let mut i: usize = 0;
    assert(s@.take(0) =~= Seq::<char>::empty());
    while i < s.len()
        invariant
            i <= s.len(),
            which <= 2,
            which == 0 ==> r@ == spec_escape_getent_shell_value(s@.take(i as int)),
            which == 1 ==> r@ == spec_escape_regex_characters(s@.take(i as int)),
            which == 2 ==> r@ == spec_escape_quotes(s@.take(i as int)),
        decreases s.len() - i,
    {
        let c = s[i];
        assert(s@.take(i + 1).drop_last() =~= s@.take(i as int));
        assert(s@.take(i + 1).last() == c);
        let special = if which == 0 {
            c == '\'' || c == '\\'
        } else if which == 1 {
            c == '.' || c == '*' || c == '+' || c == '?' || c == '^' || c == '$' || c == '{' || c == '}'
                || c == '(' || c == ')' || c == '|' || c == '[' || c == ']' || c == '\\'
        } else {
            c == '\''
        };
        let ghost before = r@;
        if special {
            r.push('\\');
        }
        r.push(c);
        assert(r@ =~= before + if special {
            seq!['\\', c]
        } else {
            seq![c]
        });
        i = i + 1;
    }
    assert(s@.take(s.len() as int) =~= s@);
    r
}

pub fn escape_getent_shell_value(value: &str) -> (r: String)
    ensures
        r@ == spec_escape_getent_shell_value(value@),
{
    from_chars(&escape_chars(&to_chars(value), 0))
}

pub fn escape_regex_characters(value: &str) -> (r: String)
    ensures
        r@ == spec_escape_regex_characters(value@),
{
    from_chars(&escape_chars(&to_chars(value), 1))
}

/// The shell command that looks a user (by name or id) up in the passwd
/// database: `getent passwd` where available, else a search of `/etc/passwd`.
pub open spec fn spec_get_ent_passwd_shell_command(user: Seq<char>) -> Seq<char> {
    let shell = spec_escape_getent_shell_value(user);
    let regex = spec_escape_quotes(spec_escape_regex_characters(user));
    " (command -v getent >/dev/null 2>&1 && getent passwd '"@ + shell + "' || grep -E '^"@ + regex
        + "|^[^:]*:[^:]*:"@ + regex + ":' /etc/passwd || true)"@
}

pub fn get_ent_passwd_shell_command(user_name_or_id: &str) -> (r: String)
    ensures
        r@ == spec_get_ent_passwd_shell_command(user_name_or_id@),
{
    let v = to_chars(user_name_or_id);
    let shell = escape_chars(&v, 0);
    let regex = escape_chars(&escape_chars(&v, 1), 2);
    let mut out = to_chars(" (command -v getent >/dev/null 2>&1 && getent passwd '");
    push_all(&mut out, &shell);
    push_str(&mut out, "' || grep -E '^");
    push_all(&mut out, &regex);
    push_str(&mut out, "|^[^:]*:[^:]*:");
    push_all(&mut out, &regex);
    push_str(&mut out, ":' /etc/passwd || true)");
    from_chars(&out)
}

/// `'...'` with each `'` inside written `'\''`.
pub open spec fn spec_shell_single_quote(s: Seq<char>) -> Seq<char> {
    seq!['\''] + flat_map(s, |c: char| if c == '\'' {
        seq!['\'', '\\', '\'', '\'']
    } else {
        seq![c]
    }) + seq!['\'']
}

pub fn shell_single_quote(value: &str) -> (r: String)
    ensures
        r@ == spec_shell_single_quote(value@),
{
    let s = to_chars(value);
    let mut body: Vec<char> = Vec::new();
    let mut i: usize = 0;
    assert(s@.take(0) =~= Seq::<char>::empty());
    while i < s.len()
        invariant
            i <= s.len(),
            body@ == flat_map(s@.take(i as int), |c: char| if c == '\'' {
                seq!['\'', '\\', '\'', '\'']
            } else {
                seq![c]
            }),
        decreases s.len() - i,
    {
        let c = s[i];
        assert(s@.take(i + 1).drop_last() =~= s@.take(i as int));
        assert(s@.take(i + 1).last() == c);
        let ghost before = body@;
        if c == '\'' {
            body.push('\'');
            body.push('\\');
            body.push('\'');
            body.push('\'');
            assert(body@ =~= before + seq!['\'', '\\', '\'', '\'']);
        } else {
            body.push(c);
            assert(body@ =~= before + seq![c]);
        }
        i = i + 1;
    }
    assert(s@.take(s.len() as int) =~= s@);
    let mut out: Vec<char> = Vec::new();
    out.push('\'');
    push_all(&mut out, &body);
    out.push('\'');
    assert(out@ =~= seq!['\''] + body@ + seq!['\'']);
    from_chars(&out)
}

/// A row of the passwd database.
#[derive(Clone, Debug, PartialEq, Eq)]
pub struct PasswdUser {
    pub name: String,
    pub uid: String,
    pub gid: String,
    pub home: String,
    pub shell: String,
}

pub struct PasswdUserView {
    pub name: Seq<char>,
    pub uid: Seq<char>,
    pub gid: Seq<char>,
    pub home: Seq<char>,
    pub shell: Seq<char>,
}

impl View for PasswdUser {
    type V = PasswdUserView;

    open spec fn view(&self) -> PasswdUserView {
        PasswdUserView { name: self.name@, uid: self.uid@, gid: self.gid@, home: self.home@, shell: self.shell@ }
    }
}

/// A field of a passwd row, empty when the row has fewer fields.
pub open spec fn field(f: Seq<Seq<char>>, i: int) -> Seq<char> {
    if 0 <= i < f.len() {
        f[i]
    } else {
        seq![]
    }
}

/// The first row of a lookup's output (the output itself when it has no
/// line), unless it is blank: fields 0, 2, 3, 5 and 6 of its `:`-separated fields.
pub open spec fn spec_parse_passwd_user(stdout: Seq<char>) -> Option<PasswdUserView> {
    let ls = lines(trim_end_char(stdout, '\n'));
    let line = if ls.len() > 0 {
        ls[0]
    } else {
        stdout
    };
    if trim(line).len() == 0 {
        None
    } else {
        let f = split(line, ':');
        Some(PasswdUserView { name: field(f, 0), uid: field(f, 2), gid: field(f, 3), home: field(f, 5), shell: field(f, 6) })
    }
}

fn field_exec(f: &Vec<Vec<char>>, i: usize) -> (r: String)
    ensures
        r@ == field(views(f@), i as int),
{
    if i < f.len() {
        from_chars(&f[i])
    } else {
        from_chars(&Vec::new())
    }
}

pub fn parse_passwd_user(stdout: &str) -> (r: Option<PasswdUser>)
    ensures
        match r {
            Some(u) => spec_parse_passwd_user(stdout@) == Some(u@),
            None => spec_parse_passwd_user(stdout@) is None,
        },
{
    let s = to_chars(stdout);
    let t = trim_end_char_chars(&s, '\n');
    let ls = lines_chars(&t);
    assert(views(ls@).len() == ls@.len());
    let line = if ls.len() > 0 {
        assert(views(ls@)[0] == ls@[0]@);
        crate::text::slice_of(&ls[0], 0, ls[0].len())
    } else {
        s
    };
    assert(line@ == if views(ls@).len() > 0 {
        views(ls@)[0]
    } else {
        stdout@
    });
    if trim_chars(&line).len() == 0 {
        return None;
    }
    let f = split_chars(&line, ':');
    Some(PasswdUser {
        name: field_exec(&f, 0),
        uid: field_exec(&f, 2),
        gid: field_exec(&f, 3),
        home: field_exec(&f, 5),
        shell: field_exec(&f, 6),
    })
}

/// The passwd home, or `/root` without a passwd row.
pub open spec fn fallback_home(passwd_user: Option<PasswdUserView>) -> Seq<char> {
    match passwd_user {
        Some(u) => u.home,
        None => "/root"@,
    }
}

pub open spec fn opt_user_view(u: Option<&PasswdUser>) -> Option<PasswdUserView> {
    match u {
        Some(u) => Some(u@),
        None => None,
    }
}

/// The container's `HOME` is kept, without asking, when it is the passwd home or
/// the user is root; otherwise it is kept when `is_missing_or_writable` says so
/// for it. Else the passwd home, or `/root`.
pub fn select_home_folder<F: Fn(&str) -> Result<bool, String>>(container_home: Option<&str>, passwd_user: Option<&PasswdUser>, is_missing_or_writable: F) -> (r: Result<String, String>)
    requires
        forall|h: &str| call_requires(is_missing_or_writable, (h,)),
    ensures
        ({
            let fallback = fallback_home(opt_user_view(passwd_user));
            match container_home {
                Some(h) if h@.len() > 0 => if (passwd_user is Some && h@ == passwd_user->0.home@) || (passwd_user is Some && passwd_user->0.uid@ == "0"@) {
                    r is Ok && r->Ok_0@ == h@
                } else {
                    exists|c: Result<bool, String>| #[trigger] call_ensures(is_missing_or_writable, (h,), c) && match c {
                        Err(e) => r is Err && r->Err_0@ == e@,
                        Ok(true) => r is Ok && r->Ok_0@ == h@,
                        Ok(false) => r is Ok && r->Ok_0@ == fallback,
                    }
                },
                _ => r is Ok && r->Ok_0@ == fallback,
            }
        }),
{
    let fallback = match passwd_user {
        Some(u) => u.home.clone(),
        None => from_chars(&to_chars("/root")),
    };
    match container_home {
        Some(home) => {
            let hv = to_chars(home);
            if hv.len() > 0 {
                let same = match passwd_user {
                    Some(u) => crate::text::chars_eq(&hv, &to_chars(u.home.as_str())),
                    None => false,
                };
                let root = match passwd_user {
                    Some(u) => crate::options::str_eq(u.uid.as_str(), "0"),
                    None => false,
                };
                if same || root {
                    return Ok(from_chars(&hv));
                }
                let c = is_missing_or_writable(home);
                let r = match &c {
                    Err(e) => Err(e.clone()),
                    Ok(true) => Ok(from_chars(&hv)),
                    Ok(false) => Ok(fallback),
                };
                assert(call_ensures(is_missing_or_writable, (home,), c));
                return r;
            }
            Ok(fallback)
        },
        None => Ok(fallback),
    }
}


/// The user whose passwd row is looked up: the configured user, else the user
/// the container was inspected to run as; the part before any `:`; `root` when
/// that part is empty or `0`, or when there is no user.
pub open spec fn spec_passwd_lookup_user(configured_user: Option<Seq<char>>, inspected_user: Option<Seq<char>>) -> Seq<char> {
    let user = match configured_user {
        Some(u) => Some(u),
        None => inspected_user,
    };
    match user {
        Some(u) => {
            let name = match split_once(u, ':') {
                Some((n, _)) => n,
                None => u,
            };
            if name.len() == 0 || name == "0"@ {
                "root"@
            } else {
                name
            }
        },
        None => "root"@,
    }
}

pub fn passwd_lookup_user(configured_user: Option<&str>, inspected_user: Option<&str>) -> (r: String)
    ensures
        r@ == spec_passwd_lookup_user(
            match configured_user {
                Some(u) => Some(u@),
                None => None,
            },
            match inspected_user {
                Some(u) => Some(u@),
                None => None,
            },
        ),
{
    let user = match configured_user {
        Some(u) => Some(u),
        None => inspected_user,
    };
    match user {
        Some(u) => {
            let uc = to_chars(u);
            let name = match split_once_chars(&uc, ':') {
                Some((n, _)) => n,
                None => uc,
            };
            if name.len() == 0 || is(&name, "0") {
                from_chars(&to_chars("root"))
            } else {
                from_chars(&name)
            }
        },
        None => from_chars(&to_chars("root")),
    }
}

/// The engine arguments that look a user up in the container's passwd database.
pub open spec fn passwd_lookup_args(container_id: Seq<char>, user_name_or_id: Seq<char>) -> Seq<Seq<char>> {
    seq!["exec"@, "-i"@, container_id, "/bin/sh"@, "-lc"@, spec_get_ent_passwd_shell_command(user_name_or_id)]
}

/// The passwd row from a finished lookup: its error output when it failed, else
/// the row parsed from its output.
pub open spec fn spec_passwd_lookup_outcome(status_code: i32, stdout: Seq<char>, stderr: Seq<char>) -> Result<Option<PasswdUserView>, Seq<char>> {
    if status_code != 0 {
        Err(spec_stderr_or_stdout(stdout, stderr))
    } else {
        Ok(spec_parse_passwd_user(stdout))
    }
}

pub open spec fn opt_passwd_view(r: Result<Option<PasswdUser>, String>) -> Result<Option<PasswdUserView>, Seq<char>> {
    match r {
        Ok(Some(u)) => Ok(Some(u@)),
        Ok(None) => Ok(None),
        Err(e) => Err(e@),
    }
}

/// Looks a user up in the container's passwd database: `run_engine` runs the
/// engine request built from `args` and the lookup arguments; a failure to run
/// is returned as it is.
pub fn get_user_from_passwd_db<F: Fn(ProcessRequest) -> Result<ProcessResult, String>>(
    args: &[String],
    env: &EnvDefaults,
    container_id: &str,
    user_name_or_id: &str,
    run_engine: &F,
) -> (r: Result<Option<PasswdUser>, String>)
    requires
        forall|req: ProcessRequest| call_requires(*run_engine, (req,)),
    ensures
        exists|req: ProcessRequest, c: Result<ProcessResult, String>|
            req@ == spec_engine_request(str_views(args@), *env, passwd_lookup_args(container_id@, user_name_or_id@))
                && #[trigger] call_ensures(*run_engine, (req,), c) && match c {
                Err(e) => opt_passwd_view(r) == Err::<Option<PasswdUserView>, Seq<char>>(e@),
                Ok(p) => opt_passwd_view(r) == spec_passwd_lookup_outcome(p.status_code, p.stdout@, p.stderr@),
            },
{
    let mut engine_args: Vec<String> = Vec::new();
    engine_args.push(from_chars(&to_chars("exec")));
    engine_args.push(from_chars(&to_chars("-i")));
    engine_args.push(from_chars(&to_chars(container_id)));
    engine_args.push(from_chars(&to_chars("/bin/sh")));
    engine_args.push(from_chars(&to_chars("-lc")));
    engine_args.push(get_ent_passwd_shell_command(user_name_or_id));
    assert(str_views(engine_args@) =~= passwd_lookup_args(container_id@, user_name_or_id@));
    let request = engine_request(args, env, engine_args);
    let ghost req = request;
    let c = run_engine(request);
    let r = match &c {
        Err(e) => Err(e.clone()),
        Ok(result) => {
            if result.status_code != 0 {
                Err(stderr_or_stdout(result))
            } else {
                parse_passwd_user_result(result.stdout.as_str())
            }
        },
    };
    assert(call_ensures(*run_engine, (req,), c));
    r
}

fn parse_passwd_user_result(stdout: &str) -> (r: Result<Option<PasswdUser>, String>)
    ensures
        opt_passwd_view(r) == Ok::<Option<PasswdUserView>, Seq<char>>(spec_parse_passwd_user(stdout@)),
{
    match parse_passwd_user(stdout) {
        Some(u) => Ok(Some(u)),
        None => Ok(None),
    }
}

/// The engine arguments that ask whether a folder is missing or writable,
/// as the configured user when there is one.
pub open spec fn home_check_args(configured_user: Option<Seq<char>>, container_id: Seq<char>, home: Seq<char>) -> Seq<Seq<char>> {
    seq!["exec"@, "-i"@] + (match configured_user {
        Some(u) => seq!["--user"@, u],
        None => seq![],
    }) + seq![
        container_id,
        "/bin/sh"@,
        "-lc"@,
        "[ ! -e "@ + spec_shell_single_quote(home) + " ] || [ -w "@ + spec_shell_single_quote(home) + " ]"@,
    ]
}

/// Whether a home folder is missing or writable in the container: the check
/// runs with `run_engine`; a failure to run is returned as it is, else the
/// answer is whether the check exited with status 0.
pub fn container_home_missing_or_writable<F: Fn(ProcessRequest) -> Result<ProcessResult, String>>(
    args: &[String],
    env: &EnvDefaults,
    configured_user: Option<&str>,
    container_id: &str,
    home: &str,
    run_engine: &F,
) -> (r: Result<bool, String>)
    requires
        forall|req: ProcessRequest| call_requires(*run_engine, (req,)),
    ensures
        exists|req: ProcessRequest, c: Result<ProcessResult, String>|
            req@ == spec_engine_request(
                str_views(args@),
                *env,
                home_check_args(
                    match configured_user {
                        Some(u) => Some(u@),
                        None => None,
                    },
                    container_id@,
                    home@,
                ),
            ) && #[trigger] call_ensures(*run_engine, (req,), c) && match c {
                Err(e) => r is Err && r->Err_0@ == e@,
                Ok(p) => r is Ok && r->Ok_0 == (p.status_code == 0),
            },
{
    let quoted = shell_single_quote(home);
    let mut engine_args: Vec<String> = Vec::new();
    crate::exec::push_string(&mut engine_args, "exec");
    crate::exec::push_string(&mut engine_args, "-i");
    match configured_user {
        Some(u) => {
            crate::exec::push_string(&mut engine_args, "--user");
            crate::exec::push_string(&mut engine_args, u);
        },
        None => {},
    }
    crate::exec::push_string(&mut engine_args, container_id);
    crate::exec::push_string(&mut engine_args, "/bin/sh");
    crate::exec::push_string(&mut engine_args, "-lc");
    let mut test = to_chars("[ ! -e ");
    push_str(&mut test, quoted.as_str());
    push_str(&mut test, " ] || [ -w ");
    push_str(&mut test, quoted.as_str());
    push_str(&mut test, " ]");
    crate::exec::push_string(&mut engine_args, from_chars(&test).as_str());
    assert(str_views(engine_args@) =~= home_check_args(
        match configured_user {
            Some(u) => Some(u@),
            None => None,
        },
        container_id@,
        home@,
    ));
    let request = engine_request(args, env, engine_args);
    let ghost req = request;
    let c = run_engine(request);
    assert(call_ensures(*run_engine, (req,), c));
    match c {
        Err(e) => Err(e),
        Ok(p) => Ok(p.status_code == 0),
    }
}

/// The `KEY=value` entries of an inspected environment, split at the first
/// `=`; entries without one are left out.
pub open spec fn env_pairs(entries: Seq<Seq<char>>) -> Seq<(Seq<char>, Seq<char>)>
    decreases entries.len(),
{
    if entries.len() == 0 {
        seq![]
    } else {
        env_pairs(entries.drop_last()) + match split_once(entries.last(), '=') {
            Some(kv) => seq![kv],
            None => seq![],
        }
    }
}

/// The `Config` of the first container in an `inspect` answer.
pub open spec fn inspect_config(inspected: JsonView) -> Option<JsonView> {
    match inspected {
        JsonView::Array(items) => if items.len() > 0 {
            json_get(items[0], "Config"@)
        } else {
            None
        },
        _ => None,
    }
}

/// The environment (`Config.Env`) of an inspected container, as pairs.
pub open spec fn spec_inspected_env(inspected: JsonView) -> Seq<(Seq<char>, Seq<char>)> {
    match inspect_config(inspected) {
        Some(c) => env_pairs(member_strings(c, "Env"@)),
        None => seq![],
    }
}

/// The user (`Config.User`) an inspected container runs as, when not empty.
pub open spec fn spec_inspected_user(inspected: JsonView) -> Option<Seq<char>> {
    match inspect_config(inspected) {
        Some(c) => match get_str(c, "User"@) {
            Some(u) => if u.len() > 0 { Some(u) } else { None },
            None => None,
        },
        None => None,
    }
}

/// What the home lookup needs of an inspected container.
pub struct InspectedContainerDetails {
    pub env: Vec<(String, String)>,
    pub user: Option<String>,
}

fn inspect_config_exec(inspected: &JsonValue) -> (r: Option<&JsonValue>)
    ensures
        match r {
            Some(c) => inspect_config(inspected@) == Some(c@),
            None => inspect_config(inspected@) is None,
        },
{
    match inspected.as_array() {
        Some(items) => {
            proof {
                lemma_items_view(items@);
            }
            if items.len() > 0 {
                assert(items_view(items@)[0] == json_view(items@[0]));
                items[0].get("Config")
            } else {
                None
            }
        },
        None => None,
    }
}

/// The environment and user of an inspected container, from its parsed
/// `inspect` answer.
pub fn inspected_container_details(inspected: &JsonValue) -> (r: InspectedContainerDetails)
    ensures
        pair_views(r.env@) == spec_inspected_env(inspected@),
        opt_str(r.user) == spec_inspected_user(inspected@),
{
    let config = inspect_config_exec(inspected);
    let (entries, user) = match config {
        Some(c) => {
            let entries = member_strings_exec(c, "Env");
            let user = match get_str_exec(c, "User") {
                Some(u) => if to_chars(u.as_str()).len() > 0 {
                    Some(u)
                } else {
                    None
                },
                None => None,
            };
            (entries, user)
        },
        None => (Vec::new(), None),
    };
    proof {
        if config is None {
            assert(str_views(entries@) =~= Seq::<Seq<char>>::empty());
        }
    }
    let ghost ev = str_views(entries@);
    let mut env: Vec<(String, String)> = Vec::new();
    let mut k: usize = 0;
    assert(ev.take(0) =~= Seq::<Seq<char>>::empty());
    assert(pair_views(env@) =~= Seq::<(Seq<char>, Seq<char>)>::empty());
    while k < entries.len()
        invariant
            k <= entries.len(),
            ev == str_views(entries@),
            pair_views(env@) == env_pairs(ev.take(k as int)),
        decreases entries.len() - k,
    {
        assert(ev.take(k + 1).drop_last() =~= ev.take(k as int));
        assert(ev.take(k + 1).last() == entries@[k as int]@);
        match split_once_chars(&to_chars(entries[k].as_str()), '=') {
            Some((key, value)) => {
                let pair = (from_chars(&key), from_chars(&value));
                assert(pair_views(env@.push(pair)) =~= pair_views(env@).push((pair.0@, pair.1@)));
                env.push(pair);
            },
            None => {},
        }
        assert(pair_views(env@) =~= env_pairs(ev.take(k + 1)));
        k = k + 1;
    }
    assert(ev.take(k as int) =~= ev);
    InspectedContainerDetails { env, user }
}

/// The string entries of the configuration's `containerEnv`.
pub open spec fn spec_configuration_container_env(configuration: JsonView) -> Seq<(Seq<char>, Seq<char>)> {
    match spec_compose_environment(configuration) {
        Some(e) => e,
        None => seq![],
    }
}

pub fn configuration_container_env(configuration: &JsonValue) -> (r: Vec<(String, String)>)
    ensures
        pair_views(r@) == spec_configuration_container_env(configuration@),
{
    match compose_environment(configuration) {
        Some(e) => e,
        None => {
            let v: Vec<(String, String)> = Vec::new();
            assert(pair_views(v@) =~= Seq::<(Seq<char>, Seq<char>)>::empty());
            v
        },
    }
}

/// The `HOME` the container is given: the inspected environment's, else the
/// configuration's `containerEnv`'s; a later entry overrides an earlier one.
pub open spec fn spec_container_home(configuration: JsonView, inspected_env: Seq<(Seq<char>, Seq<char>)>) -> Option<Seq<char>> {
    lookup_last(spec_configuration_container_env(configuration) + inspected_env, "HOME"@)
}

pub fn container_home(configuration: &JsonValue, inspected_env: &Vec<(String, String)>) -> (r: Option<String>)
    ensures
        opt_str(r) == spec_container_home(configuration@, pair_views(inspected_env@)),
{
    let mut all = configuration_container_env(configuration);
    let ghost head = pair_views(all@);
    let mut k: usize = 0;
    while k < inspected_env.len()
        invariant
            k <= inspected_env.len(),
            pair_views(all@) == head + pair_views(inspected_env@).take(k as int),
        decreases inspected_env.len() - k,
    {
        let pair = (
            from_chars(&to_chars(inspected_env[k].0.as_str())),
            from_chars(&to_chars(inspected_env[k].1.as_str())),
        );
        assert(pair_views(all@.push(pair)) =~= pair_views(all@).push((pair.0@, pair.1@)));
        all.push(pair);
        assert(pair_views(inspected_env@).take(k + 1) =~= pair_views(inspected_env@).take(k as int).push(
            (inspected_env@[k as int].0@, inspected_env@[k as int].1@),
        ));
        k = k + 1;
    }
    assert(pair_views(inspected_env@).take(k as int) =~= pair_views(inspected_env@));
    match lookup_last_exec(&all, &to_chars("HOME")) {
        Some(h) => Some(from_chars(&h)),
        None => None,
    }
}

/// The home folder from what was learned of the container (see
/// `select_home_folder`): the `HOME` of `spec_container_home`, the passwd row,
/// and `is_missing_or_writable` for a `HOME` that needs the check.
pub fn home_folder_from_details<G: Fn(&str) -> Result<bool, String>>(
    configuration: &JsonValue,
    details: &InspectedContainerDetails,
    passwd_user: Option<&PasswdUser>,
    is_missing_or_writable: G,
) -> (r: Result<String, String>)
    requires
        forall|h: &str| call_requires(is_missing_or_writable, (h,)),
    ensures
        ({
            let fallback = fallback_home(opt_user_view(passwd_user));
            match spec_container_home(configuration@, pair_views(details.env@)) {
                Some(h) if h.len() > 0 => if (passwd_user is Some && h == passwd_user->0.home@) || (passwd_user is Some && passwd_user->0.uid@ == "0"@) {
                    r is Ok && r->Ok_0@ == h
                } else {
                    exists|hs: &str, c: Result<bool, String>| hs@ == h && #[trigger] call_ensures(is_missing_or_writable, (hs,), c) && match c {
                        Err(e) => r is Err && r->Err_0@ == e@,
                        Ok(true) => r is Ok && r->Ok_0@ == h,
                        Ok(false) => r is Ok && r->Ok_0@ == fallback,
                    }
                },
                _ => r is Ok && r->Ok_0@ == fallback,
            }
        }),
{
    let home = container_home(configuration, &details.env);
    match &home {
        Some(h) => select_home_folder(Some(h.as_str()), passwd_user, is_missing_or_writable),
        None => select_home_folder(None, passwd_user, is_missing_or_writable),
    }
}

/// The inspect answer's environment and user: `run_engine` runs `inspect
/// <id>`; a failure to run or a non-zero status is an error; the output is parsed as
/// JSON (see `json_document`), and the parser's error is reported as invalid inspect JSON.
pub fn inspect_container_details<F: Fn(ProcessRequest) -> Result<ProcessResult, String>>(
    args: &[String],
    env: &EnvDefaults,
    container_id: &str,
    run_engine: &F,
) -> (r: Result<InspectedContainerDetails, String>)
    requires
        forall|req: ProcessRequest| call_requires(*run_engine, (req,)),
    ensures
        exists|req: ProcessRequest, c: Result<ProcessResult, String>|
            req@ == spec_engine_request(str_views(args@), *env, seq!["inspect"@, container_id@])
                && #[trigger] call_ensures(*run_engine, (req,), c) && match c {
                Err(e) => r is Err && r->Err_0@ == e@,
                Ok(p) => if p.status_code != 0 {
                    r is Err && r->Err_0@ == spec_stderr_or_stdout(p.stdout@, p.stderr@)
                } else {
                    exists|t: String, parsed: Result<JsonValue, String>|
                        t@ == p.stdout@ && #[trigger] parses_json(t, parsed) && match parsed {
                            Err(e) => r is Err && r->Err_0@ == "Invalid inspect JSON: "@ + e@,
                            Ok(v) => r is Ok && pair_views(r->Ok_0.env@) == spec_inspected_env(v@)
                                && opt_str(r->Ok_0.user) == spec_inspected_user(v@),
                        }
                },
            },
{
    let mut engine_args: Vec<String> = Vec::new();
    crate::exec::push_string(&mut engine_args, "inspect");
    crate::exec::push_string(&mut engine_args, container_id);
    assert(str_views(engine_args@) =~= seq!["inspect"@, container_id@]);
    let request = engine_request(args, env, engine_args);
    let ghost req = request;
    let c = run_engine(request);
    assert(call_ensures(*run_engine, (req,), c));
    match &c {
        Err(e) => Err(e.clone()),
        Ok(p) => {
            if p.status_code != 0 {
                return Err(stderr_or_stdout(p));
            }
            let t = from_chars(&to_chars(p.stdout.as_str()));
            let ghost tg = t;
            let parsed = parse_json_text(&t);
            assert(parses_json(tg, parsed));
            match parsed {
                Err(e) => {
                    let mut m = to_chars("Invalid inspect JSON: ");
                    push_str(&mut m, e.as_str());
                    Err(from_chars(&m))
                },
                Ok(v) => Ok(inspected_container_details(&v)),
            }
        },
    }
}

/// What inspecting the container gave (`out`): its environment and user, or
/// the error of `inspect_container_details`.
pub open spec fn spec_details_call<F: Fn(ProcessRequest) -> Result<ProcessResult, String>>(
    run_engine: F,
    args: Seq<Seq<char>>,
    env: EnvDefaults,
    container_id: Seq<char>,
    out: Result<(Seq<(Seq<char>, Seq<char>)>, Option<Seq<char>>), Seq<char>>,
) -> bool {
    exists|req: ProcessRequest, c: Result<ProcessResult, String>|
        req@ == spec_engine_request(args, env, seq!["inspect"@, container_id])
            && #[trigger] call_ensures(run_engine, (req,), c) && match c {
            Err(e) => out == Err::<(Seq<(Seq<char>, Seq<char>)>, Option<Seq<char>>), Seq<char>>(e@),
            Ok(p) => if p.status_code != 0 {
                out == Err::<(Seq<(Seq<char>, Seq<char>)>, Option<Seq<char>>), Seq<char>>(spec_stderr_or_stdout(p.stdout@, p.stderr@))
            } else {
                exists|t: String, parsed: Result<JsonValue, String>|
                    t@ == p.stdout@ && #[trigger] parses_json(t, parsed) && match parsed {
                        Err(e) => out == Err::<(Seq<(Seq<char>, Seq<char>)>, Option<Seq<char>>), Seq<char>>("Invalid inspect JSON: "@ + e@),
                        Ok(v) => out == Ok::<(Seq<(Seq<char>, Seq<char>)>, Option<Seq<char>>), Seq<char>>((spec_inspected_env(v@), spec_inspected_user(v@))),
                    }
            },
        }
}

pub open spec fn details_result_view(r: Result<InspectedContainerDetails, String>) -> Result<(Seq<(Seq<char>, Seq<char>)>, Option<Seq<char>>), Seq<char>> {
    match r {
        Ok(d) => Ok((pair_views(d.env@), opt_str(d.user))),
        Err(e) => Err(e@),
    }
}

/// What looking the user up in the passwd database gave (`out`).
pub open spec fn spec_passwd_call<F: Fn(ProcessRequest) -> Result<ProcessResult, String>>(
    run_engine: F,
    args: Seq<Seq<char>>,
    env: EnvDefaults,
    container_id: Seq<char>,
    user: Seq<char>,
    out: Result<Option<PasswdUserView>, Seq<char>>,
) -> bool {
    exists|req: ProcessRequest, c: Result<ProcessResult, String>|
        req@ == spec_engine_request(args, env, passwd_lookup_args(container_id, user))
            && #[trigger] call_ensures(run_engine, (req,), c) && match c {
            Err(e) => out == Err::<Option<PasswdUserView>, Seq<char>>(e@),
            Ok(p) => out == spec_passwd_lookup_outcome(p.status_code, p.stdout@, p.stderr@),
        }
}

/// What asking whether `home` is missing or writable gave (`out`).
pub open spec fn spec_home_check_call<F: Fn(ProcessRequest) -> Result<ProcessResult, String>>(
    run_engine: F,
    args: Seq<Seq<char>>,
    env: EnvDefaults,
    configured_user: Option<Seq<char>>,
    container_id: Seq<char>,
    home: Seq<char>,
    out: Result<bool, Seq<char>>,
) -> bool {
    exists|req: ProcessRequest, c: Result<ProcessResult, String>|
        req@ == spec_engine_request(args, env, home_check_args(configured_user, container_id, home))
            && #[trigger] call_ensures(run_engine, (req,), c) && match c {
            Err(e) => out == Err::<bool, Seq<char>>(e@),
            Ok(p) => out == Ok::<bool, Seq<char>>(p.status_code == 0),
        }
}

/// The home folder (`out`) once the container's environment and passwd row
/// are known (see `home_folder_from_details`), the check asked of the engine.
pub open spec fn spec_home_from_details<F: Fn(ProcessRequest) -> Result<ProcessResult, String>>(
    run_engine: F,
    args: Seq<Seq<char>>,
    env: EnvDefaults,
    configuration: JsonView,
    container_id: Seq<char>,
    container_env: Seq<(Seq<char>, Seq<char>)>,
    passwd: Option<PasswdUserView>,
    out: Result<Seq<char>, Seq<char>>,
) -> bool {
    let fallback = fallback_home(passwd);
    match spec_container_home(configuration, container_env) {
        Some(h) if h.len() > 0 => if (passwd is Some && h == passwd->0.home) || (passwd is Some && passwd->0.uid == "0"@) {
            out == Ok::<Seq<char>, Seq<char>>(h)
        } else {
            exists|c: Result<bool, Seq<char>>|
                #[trigger] spec_home_check_call(run_engine, args, env, spec_configured_user(configuration), container_id, h, c)
                    && match c {
                    Err(e) => out == Err::<Seq<char>, Seq<char>>(e),
                    Ok(true) => out == Ok::<Seq<char>, Seq<char>>(h),
                    Ok(false) => out == Ok::<Seq<char>, Seq<char>>(fallback),
                }
        },
        _ => out == Ok::<Seq<char>, Seq<char>>(fallback),
    }
}

/// The home folder (`out`) once inspecting the container gave `details`.
pub open spec fn spec_home_after_details<F: Fn(ProcessRequest) -> Result<ProcessResult, String>>(
    run_engine: F,
    args: Seq<Seq<char>>,
    env: EnvDefaults,
    configuration: JsonView,
    container_id: Seq<char>,
    details: Result<(Seq<(Seq<char>, Seq<char>)>, Option<Seq<char>>), Seq<char>>,
    out: Result<Seq<char>, Seq<char>>,
) -> bool {
    match details {
        Err(e) => out == Err::<Seq<char>, Seq<char>>(e),
        Ok(d) => exists|pw: Result<Option<PasswdUserView>, Seq<char>>|
            #[trigger] spec_passwd_call(run_engine, args, env, container_id, spec_passwd_lookup_user(spec_configured_user(configuration), d.1), pw)
                && spec_home_after_passwd(run_engine, args, env, configuration, container_id, d.0, pw, out),
    }
}

/// The home folder (`out`) once the passwd lookup gave `pw`.
pub open spec fn spec_home_after_passwd<F: Fn(ProcessRequest) -> Result<ProcessResult, String>>(
    run_engine: F,
    args: Seq<Seq<char>>,
    env: EnvDefaults,
    configuration: JsonView,
    container_id: Seq<char>,
    container_env: Seq<(Seq<char>, Seq<char>)>,
    pw: Result<Option<PasswdUserView>, Seq<char>>,
    out: Result<Seq<char>, Seq<char>>,
) -> bool {
    match pw {
        Err(e) => out == Err::<Seq<char>, Seq<char>>(e),
        Ok(u) => spec_home_from_details(run_engine, args, env, configuration, container_id, container_env, u, out),
    }
}

/// The home folder of the container's user: the container is inspected (see
/// `inspect_container_details`), the user's passwd row is looked up (see
/// `get_user_from_passwd_db`), and `home_folder_from_details` chooses, asking
/// the engine whether a `HOME` is missing or writable when it has to. An error
/// of any of these steps is the result.
pub fn resolve_home_folder<F: Fn(ProcessRequest) -> Result<ProcessResult, String>>(
    args: &[String],
    env: &EnvDefaults,
    configuration: &JsonValue,
    container_id: &str,
    run_engine: &F,
) -> (r: Result<String, String>)
    requires
        forall|req: ProcessRequest| call_requires(*run_engine, (req,)),
    ensures
        exists|d: Result<(Seq<(Seq<char>, Seq<char>)>, Option<Seq<char>>), Seq<char>>|
            #[trigger] spec_details_call(*run_engine, str_views(args@), *env, container_id@, d)
                && spec_home_after_details(*run_engine, str_views(args@), *env, configuration@, container_id@, d, string_result_view(r)),
{
    let ghost av = str_views(args@);
    let ghost cid = container_id@;
    let ghost cfg = configuration@;
    let details_result = inspect_container_details(args, env, container_id, run_engine);
    let ghost dv = details_result_view(details_result);
    proof {
        let (req, c) = choose|req: ProcessRequest, c: Result<ProcessResult, String>|
            req@ == spec_engine_request(av, *env, seq!["inspect"@, cid])
                && #[trigger] call_ensures(*run_engine, (req,), c) && match c {
                Err(e) => details_result is Err && details_result->Err_0@ == e@,
                Ok(p) => if p.status_code != 0 {
                    details_result is Err && details_result->Err_0@ == spec_stderr_or_stdout(p.stdout@, p.stderr@)
                } else {
                    exists|t: String, parsed: Result<JsonValue, String>|
                        t@ == p.stdout@ && #[trigger] parses_json(t, parsed) && match parsed {
                            Err(e) => details_result is Err && details_result->Err_0@ == "Invalid inspect JSON: "@ + e@,
                            Ok(v) => details_result is Ok && pair_views(details_result->Ok_0.env@) == spec_inspected_env(v@)
                                && opt_str(details_result->Ok_0.user) == spec_inspected_user(v@),
                        }
                },
            };
        if c is Ok && c->Ok_0.status_code == 0 {
            let p = c->Ok_0;
            let (t, parsed) = choose|t: String, parsed: Result<JsonValue, String>|
                t@ == p.stdout@ && #[trigger] parses_json(t, parsed) && match parsed {
                    Err(e) => details_result is Err && details_result->Err_0@ == "Invalid inspect JSON: "@ + e@,
                    Ok(v) => details_result is Ok && pair_views(details_result->Ok_0.env@) == spec_inspected_env(v@)
                        && opt_str(details_result->Ok_0.user) == spec_inspected_user(v@),
                };
            assert(parses_json(t, parsed));
        }
        assert(spec_details_call(*run_engine, av, *env, cid, dv));
    }
    let details = match details_result {
        Ok(d) => d,
        Err(e) => return Err(e),
    };
    let configured = crate::workspace::configured_user(configuration);
    let user = match (&configured, &details.user) {
        (Some(c), _) => passwd_lookup_user(Some(c.as_str()), None),
        (None, Some(u)) => passwd_lookup_user(None, Some(u.as_str())),
        (None, None) => passwd_lookup_user(None, None),
    };
    assert(user@ == spec_passwd_lookup_user(spec_configured_user(cfg), dv->Ok_0.1));
    let passwd_result = get_user_from_passwd_db(args, env, container_id, user.as_str(), run_engine);
    let ghost pw = opt_passwd_view(passwd_result);
    assert(spec_passwd_call(*run_engine, av, *env, cid, user@, pw));
    let passwd = match passwd_result {
        Ok(p) => p,
        Err(e) => {
            proof {
                assert(spec_home_after_passwd(*run_engine, av, *env, cfg, cid, dv->Ok_0.0, pw, Err(e@)));
                assert(spec_home_after_details(*run_engine, av, *env, cfg, cid, dv, Err(e@)));
            }
            return Err(e);
        },
    };
    assert(configured.deep_view() == spec_configured_user(cfg));
    let check = |h: &str| -> (res: Result<bool, String>)
        requires
            forall|req: ProcessRequest| call_requires(*run_engine, (req,)),
            configured.deep_view() == spec_configured_user(configuration@),
        ensures
            spec_home_check_call(*run_engine, str_views(args@), *env, spec_configured_user(configuration@), container_id@, h@, bool_result_view(res)),
        {
            match &configured {
                Some(c) => container_home_missing_or_writable(args, env, Some(c.as_str()), container_id, h, run_engine),
                None => container_home_missing_or_writable(args, env, None, container_id, h, run_engine),
            }
        };
    let r = match &passwd {
        Some(u) => home_folder_from_details(configuration, &details, Some(u), check),
        None => home_folder_from_details(configuration, &details, None, check),
    };
    proof {
        let pu = opt_user_view(match &passwd {
            Some(u) => Some(u),
            None => None,
        });
        assert(pw == Ok::<Option<PasswdUserView>, Seq<char>>(pu));
        let ce = pair_views(details.env@);
        match spec_container_home(cfg, ce) {
            Some(h) => {
                if h.len() > 0 && !((pu is Some && h == pu->0.home) || (pu is Some && pu->0.uid == "0"@)) {
                    let (hs, c) = choose|hs: &str, c: Result<bool, String>| hs@ == h && #[trigger] call_ensures(check, (hs,), c) && match c {
                        Err(e) => r is Err && r->Err_0@ == e@,
                        Ok(true) => r is Ok && r->Ok_0@ == h,
                        Ok(false) => r is Ok && r->Ok_0@ == fallback_home(pu),
                    };
                    assert(spec_home_check_call(*run_engine, av, *env, spec_configured_user(cfg), cid, h, bool_result_view(c)));
                }
            },
            None => {},
        }
        assert(spec_home_from_details(*run_engine, av, *env, cfg, cid, ce, pu, string_result_view(r)));
        assert(spec_home_after_passwd(*run_engine, av, *env, cfg, cid, dv->Ok_0.0, pw, string_result_view(r)));
        assert(spec_home_after_details(*run_engine, av, *env, cfg, cid, dv, string_result_view(r)));
    }
    r
}

/// Whether a list of environment pairs sets a variable.
pub open spec fn env_has(env: Seq<(Seq<char>, Seq<char>)>, key: Seq<char>) -> bool {
    exists|i: int| 0 <= i < env.len() && #[trigger] env[i].0 == key
}

/// The remote environment with `HOME` added when it does not set it:
/// `resolve_home` finds the container's home folder (see
/// `resolve_home_folder`), and only then; its error is the result.
pub fn combined_remote_env_with_home<H: FnOnce() -> Result<String, String>>(
    remote_env: Vec<(String, String)>,
    resolve_home: H,
) -> (r: Result<Vec<(String, String)>, String>)
    requires
        call_requires(resolve_home, ()),
    ensures
        env_has(pair_views(remote_env@), "HOME"@) ==> r is Ok && pair_views(r->Ok_0@) == pair_views(remote_env@),
        !env_has(pair_views(remote_env@), "HOME"@) ==> exists|h: Result<String, String>| #[trigger] call_ensures(resolve_home, (), h)
            && match h {
            Err(e) => r is Err && r->Err_0@ == e@,
            Ok(home) => r is Ok && pair_views(r->Ok_0@) == pair_views(remote_env@).push(("HOME"@, home@)),
        },
{
    let ghost ev = pair_views(remote_env@);
    let mut k: usize = 0;
    while k < remote_env.len()
        invariant
            k <= remote_env.len(),
            ev == pair_views(remote_env@),
            ev.len() == remote_env@.len(),
            forall|i: int| 0 <= i < k ==> #[trigger] ev[i].0 != "HOME"@,
        decreases remote_env.len() - k,
    {
        assert(ev[k as int] == (remote_env@[k as int].0@, remote_env@[k as int].1@));
        if crate::options::str_eq(remote_env[k].0.as_str(), "HOME") {
            assert(ev[k as int].0 == "HOME"@);
            assert(env_has(ev, "HOME"@));
            return Ok(remote_env);
        }
        k = k + 1;
    }
    let h = resolve_home();
    assert(call_ensures(resolve_home, (), h));
    match h {
        Err(e) => Err(e),
        Ok(home) => {
            let mut env = remote_env;
            let pair = (from_chars(&to_chars("HOME")), home);
            assert(pair_views(env@.push(pair)) =~= pair_views(env@).push((pair.0@, pair.1@)));
            env.push(pair);
            Ok(env)
        },
    }
}

} // verus!
