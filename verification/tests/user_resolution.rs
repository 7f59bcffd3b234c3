use std::cell::RefCell;

use devcontainer::engine::{ProcessRequest, ProcessResult};
use devcontainer::json::JsonValue;
use devcontainer::options::EnvDefaults;
use devcontainer::user_resolution::{
    combined_remote_env_with_home, configuration_container_env, container_home, container_home_missing_or_writable, escape_getent_shell_value,
    escape_regex_characters, get_ent_passwd_shell_command, get_user_from_passwd_db, home_folder_from_details,
    inspect_container_details, inspected_container_details, parse_passwd_user, passwd_lookup_user,
    resolve_home_folder, select_home_folder, shell_single_quote, InspectedContainerDetails, PasswdUser,
};

fn vscode_user() -> PasswdUser {
    PasswdUser {
        name: "vscode".to_string(),
        uid: "1000".to_string(),
        gid: "1000".to_string(),
        home: "/home/vscode".to_string(),
        shell: "/bin/bash".to_string(),
    }
}

fn root_user() -> PasswdUser {
    PasswdUser {
        name: "root".to_string(),
        uid: "0".to_string(),
        gid: "0".to_string(),
        home: "/root".to_string(),
        shell: "/bin/sh".to_string(),
    }
}

#[test]
fn parse_passwd_user_reads_passwd_row_fields() {
    assert_eq!(
        parse_passwd_user("vscode:x:1000:1000::/home/vscode:/bin/bash\n"),
        Some(vscode_user())
    );
}

#[test]
fn parse_passwd_user_ignores_empty_lookup_output() {
    assert_eq!(parse_passwd_user("\n"), None);
    assert_eq!(parse_passwd_user(""), None);
}

#[test]
fn parse_passwd_user_reads_the_first_row_and_tolerates_short_rows() {
    assert_eq!(
        parse_passwd_user("root:x:0:0:root:/root:/bin/sh\nvscode:x:1000:1000::/home/vscode:/bin/bash\n"),
        Some(root_user())
    );
    assert_eq!(
        parse_passwd_user("nobody:x"),
        Some(PasswdUser {
            name: "nobody".to_string(),
            uid: String::new(),
            gid: String::new(),
            home: String::new(),
            shell: String::new(),
        })
    );
}

#[test]
fn get_ent_passwd_shell_command_matches_upstream_for_names_and_ids() {
    assert_eq!(
        get_ent_passwd_shell_command("vscode"),
        " (command -v getent >/dev/null 2>&1 && getent passwd 'vscode' || grep -E '^vscode|^[^:]*:[^:]*:vscode:' /etc/passwd || true)"
    );
    assert_eq!(
        get_ent_passwd_shell_command("1000"),
        " (command -v getent >/dev/null 2>&1 && getent passwd '1000' || grep -E '^1000|^[^:]*:[^:]*:1000:' /etc/passwd || true)"
    );
}

#[test]
fn get_ent_passwd_shell_command_matches_upstream_escaping() {
    assert_eq!(
        get_ent_passwd_shell_command("foo\\bar"),
        r" (command -v getent >/dev/null 2>&1 && getent passwd 'foo\\bar' || grep -E '^foo\\bar|^[^:]*:[^:]*:foo\\bar:' /etc/passwd || true)"
    );
    assert_eq!(
        get_ent_passwd_shell_command("o'brien"),
        r" (command -v getent >/dev/null 2>&1 && getent passwd 'o\'brien' || grep -E '^o\'brien|^[^:]*:[^:]*:o\'brien:' /etc/passwd || true)"
    );
}

#[test]
fn escaping_helpers_prefix_special_characters_with_backslashes() {
    assert_eq!(escape_getent_shell_value(r"a'b\c.d"), r"a\'b\\c.d");
    assert_eq!(escape_regex_characters("a.b*c"), r"a\.b\*c");
    assert_eq!(escape_regex_characters("(x|y)[z]{1}^$+?"), r"\(x\|y\)\[z\]\{1\}\^\$\+\?");
    assert_eq!(shell_single_quote("it's"), r"'it'\''s'");
    assert_eq!(shell_single_quote(""), "''");
}

#[test]
fn select_home_folder_ignores_unwritable_non_root_home() {
    let home = select_home_folder(Some("/root"), Some(&vscode_user()), |_| Ok(false))
        .expect("home folder");

    assert_eq!(home, "/home/vscode");
}

#[test]
fn select_home_folder_accepts_matching_or_writable_non_root_home() {
    let matching = select_home_folder(Some("/home/vscode"), Some(&vscode_user()), |_| {
        panic!("matching passwd home should not need a writability check")
    })
    .expect("matching home");
    let writable = select_home_folder(Some("/home/vscode/project"), Some(&vscode_user()), |_| {
        Ok(true)
    })
    .expect("writable home");

    assert_eq!(matching, "/home/vscode");
    assert_eq!(writable, "/home/vscode/project");
}

#[test]
fn select_home_folder_accepts_any_home_for_root() {
    let home = select_home_folder(Some("/home/vscode"), Some(&root_user()), |_| {
        panic!("root home should not need a writability check")
    })
    .expect("root home");

    assert_eq!(home, "/home/vscode");
}

#[test]
fn select_home_folder_falls_back_to_passwd_home_or_root() {
    assert_eq!(
        select_home_folder(None, Some(&vscode_user()), |_| Ok(false)).expect("passwd home"),
        "/home/vscode"
    );
    assert_eq!(
        select_home_folder(None, None, |_| Ok(false)).expect("root fallback"),
        "/root"
    );
}

#[test]
fn select_home_folder_reports_check_errors_and_skips_empty_homes() {
    assert_eq!(
        select_home_folder(Some("/home/x"), None, |_| Err("exec failed".to_string())),
        Err("exec failed".to_string())
    );
    assert_eq!(
        select_home_folder(Some(""), Some(&vscode_user()), |_| {
            panic!("an empty home is never checked")
        }),
        Ok("/home/vscode".to_string())
    );
}

#[test]
fn passwd_lookup_user_prefers_devcontainer_user_then_inspected_user() {
    assert_eq!(passwd_lookup_user(Some("node"), Some("vscode")), "node");
    assert_eq!(passwd_lookup_user(Some("1000:1000"), Some("vscode")), "1000");
    assert_eq!(passwd_lookup_user(None, Some("vscode:1000")), "vscode");
    assert_eq!(passwd_lookup_user(None, Some("0:0")), "root");
    assert_eq!(passwd_lookup_user(None, None), "root");
}

#[test]
fn get_user_from_passwd_db_runs_the_lookup_and_parses_its_row() {
    let user = get_user_from_passwd_db(
        &["--docker-path".to_string(), "podman".to_string()],
        &EnvDefaults::default(),
        "abc",
        "vscode",
        &|request: ProcessRequest| {
            assert_eq!(request.program, "podman");
            assert_eq!(request.args[0..5], ["exec", "-i", "abc", "/bin/sh", "-lc"]);
            assert_eq!(request.args[5], get_ent_passwd_shell_command("vscode"));
            Ok(ProcessResult {
                status_code: 0,
                stdout: "vscode:x:1000:1000::/home/vscode:/bin/bash\n".to_string(),
                stderr: String::new(),
            })
        },
    );
    assert_eq!(user, Ok(Some(vscode_user())));

    let failed = get_user_from_passwd_db(&[], &EnvDefaults::default(), "abc", "x", &|_: ProcessRequest| {
        Ok(ProcessResult {
            status_code: 1,
            stdout: String::new(),
            stderr: " no such container \n".to_string(),
        })
    });
    assert_eq!(failed, Err("no such container".to_string()));
}

fn obj(entries: Vec<(&str, JsonValue)>) -> JsonValue {
    JsonValue::Object(entries.into_iter().map(|(k, v)| (k.to_string(), v)).collect())
}

fn text(v: &str) -> JsonValue {
    JsonValue::String(v.to_string())
}

fn inspected(env: &[&str], user: &str) -> JsonValue {
    JsonValue::Array(vec![obj(vec![(
        "Config",
        obj(vec![("Env", JsonValue::Array(env.iter().map(|e| text(e)).collect())), ("User", text(user))]),
    )])])
}

fn ok(status_code: i32, stdout: &str) -> Result<ProcessResult, String> {
    Ok(ProcessResult { status_code, stdout: stdout.to_string(), stderr: String::new() })
}

#[test]
fn container_home_check_runs_as_configured_user() {
    let seen = RefCell::new(Vec::new());
    let engine = |request: ProcessRequest| {
        seen.borrow_mut().push(request.args.clone());
        ok(1, "")
    };
    let writable = container_home_missing_or_writable(&[], &EnvDefaults::default(), Some("node"), "abc", "/home/it's", &engine);
    assert_eq!(writable, Ok(false));
    assert_eq!(
        seen.borrow()[0],
        vec![
            "exec", "-i", "--user", "node", "abc", "/bin/sh", "-lc",
            "[ ! -e '/home/it'\\''s' ] || [ -w '/home/it'\\''s' ]",
        ]
    );
    let fine = |_request: ProcessRequest| ok(0, "");
    assert_eq!(container_home_missing_or_writable(&[], &EnvDefaults::default(), None, "abc", "/h", &fine), Ok(true));
    let broken = |_request: ProcessRequest| Err("spawn failed".to_string());
    assert_eq!(
        container_home_missing_or_writable(&[], &EnvDefaults::default(), None, "abc", "/h", &broken),
        Err("spawn failed".to_string())
    );
}

#[test]
fn inspected_details_split_env_entries_and_skip_empty_user() {
    let details = inspected_container_details(&inspected(&["HOME=/home/x", "NOEQUALS", "A=b=c"], ""));
    assert_eq!(details.env, vec![("HOME".to_string(), "/home/x".to_string()), ("A".to_string(), "b=c".to_string())]);
    assert_eq!(details.user, None);
    assert_eq!(inspected_container_details(&inspected(&[], "vscode")).user.as_deref(), Some("vscode"));
    assert!(inspected_container_details(&JsonValue::Array(Vec::new())).env.is_empty());
}

#[test]
fn container_home_prefers_inspected_environment() {
    let configuration = obj(vec![("containerEnv", obj(vec![("HOME", text("/config/home")), ("N", JsonValue::Bool(true))]))]);
    assert_eq!(configuration_container_env(&configuration), vec![("HOME".to_string(), "/config/home".to_string())]);
    assert_eq!(container_home(&configuration, &Vec::new()).as_deref(), Some("/config/home"));
    let env = vec![("HOME".to_string(), "/a".to_string()), ("HOME".to_string(), "/b".to_string())];
    assert_eq!(container_home(&configuration, &env).as_deref(), Some("/b"));
    assert_eq!(container_home(&obj(vec![]), &Vec::new()), None);
}

#[test]
fn home_folder_from_details_uses_container_home_and_passwd() {
    let details = InspectedContainerDetails { env: vec![("HOME".to_string(), "/home/vscode".to_string())], user: None };
    let home = home_folder_from_details(&obj(vec![]), &details, Some(&vscode_user()), |_| panic!("no check needed"));
    assert_eq!(home, Ok("/home/vscode".to_string()));
    let other = InspectedContainerDetails { env: vec![("HOME".to_string(), "/srv".to_string())], user: None };
    assert_eq!(home_folder_from_details(&obj(vec![]), &other, Some(&vscode_user()), |_| Ok(false)), Ok("/home/vscode".to_string()));
    let empty = InspectedContainerDetails { env: Vec::new(), user: None };
    assert_eq!(home_folder_from_details(&obj(vec![]), &empty, None, |_| Ok(true)), Ok("/root".to_string()));
}

#[test]
fn resolve_home_folder_inspects_looks_up_and_checks() {
    let calls = RefCell::new(Vec::new());
    let engine = |request: ProcessRequest| {
        calls.borrow_mut().push(request.args.clone());
        match request.args[0].as_str() {
            "inspect" => ok(0, r#"[{"Config":{"Env":["HOME=/workspace-home"],"User":"vscode"}}]"#),
            _ if request.args.len() == 6 => ok(0, "vscode:x:1000:1000::/home/vscode:/bin/bash\n"),
            _ => ok(0, ""),
        }
    };
    let home = resolve_home_folder(&[], &EnvDefaults::default(), &obj(vec![]), "abc", &engine);
    assert_eq!(home, Ok("/workspace-home".to_string()));
    assert_eq!(calls.borrow().len(), 3);
    assert_eq!(calls.borrow()[1][5], get_ent_passwd_shell_command("vscode"));

    let failing = |_request: ProcessRequest| Ok(ProcessResult { status_code: 1, stdout: String::new(), stderr: "gone".to_string() });
    assert_eq!(
        resolve_home_folder(&[], &EnvDefaults::default(), &obj(vec![]), "abc", &failing),
        Err("gone".to_string())
    );
    let fine = |_request: ProcessRequest| ok(0, "x");
    let error = inspect_container_details(&[], &EnvDefaults::default(), "abc", &fine).err().expect("parse error");
    assert!(error.starts_with("Invalid inspect JSON: "), "{error}");
}

#[test]
fn remote_env_gets_home_only_when_missing() {
    let with_home = vec![("HOME".to_string(), "/custom".to_string()), ("A".to_string(), "1".to_string())];
    let kept = combined_remote_env_with_home(with_home.clone(), || panic!("home is set already"));
    assert_eq!(kept, Ok(with_home));
    let without = vec![("A".to_string(), "1".to_string())];
    assert_eq!(
        combined_remote_env_with_home(without.clone(), || Ok("/home/vscode".to_string())),
        Ok(vec![("A".to_string(), "1".to_string()), ("HOME".to_string(), "/home/vscode".to_string())])
    );
    assert_eq!(combined_remote_env_with_home(without, || Err("inspect failed".to_string())), Err("inspect failed".to_string()));
}
