//! Command-line option reading shared by the runtime modules.
//!
//! Arguments are a flat list: an option that takes a value is followed by it
//! (`--docker-path podman`), flags stand alone, and boolean options may be
//! followed by an explicit boolean word.

use vstd::prelude::*;
use crate::text::{chars_eq, is, str_views, to_chars, trim};

verus! {

/// Whether two strings are equal.
pub fn str_eq(a: &str, b: &str) -> (r: bool)
    ensures
        r == (a@ == b@),
{
    let av = to_chars(a);
    is(&av, b)
}

/// The value after the first occurrence of `flag`, when one follows it.
pub open spec fn spec_option_value(args: Seq<Seq<char>>, flag: Seq<char>) -> Option<Seq<char>>
    decreases args.len(),
{
    if args.len() == 0 {
        None
    } else if args[0] == flag {
        if args.len() > 1 {
            Some(args[1])
        } else {
            None
        }
    } else {
        spec_option_value(args.drop_first(), flag)
    }
}

/// The values after every occurrence of `flag`, in order.
pub open spec fn spec_option_values(args: Seq<Seq<char>>, flag: Seq<char>) -> Seq<Seq<char>>
    decreases args.len(),
{
    if args.len() == 0 {
        seq![]
    } else if args[0] == flag && args.len() > 1 {
        seq![args[1]] + spec_option_values(args.skip(2), flag)
    } else {
        spec_option_values(args.drop_first(), flag)
    }
}

pub open spec fn spec_has_flag(args: Seq<Seq<char>>, flag: Seq<char>) -> bool {
    args.contains(flag)
}

pub fn has_flag(args: &[String], flag: &str) -> (r: bool)
    ensures
        r == spec_has_flag(str_views(args@), flag@),
{
    let ghost av = str_views(args@);
    let mut i: usize = 0;
    while i < args.len()
        invariant
            i <= args.len(),
            av == str_views(args@),
            forall|j: int| 0 <= j < i ==> av[j] != flag@,
        decreases args.len() - i,
    {
        assert(av[i as int] == args@[i as int]@);
        if str_eq(args[i].as_str(), flag) {
            return true;
        }
        i = i + 1;
    }
    false
}

pub fn option_value(args: &[String], flag: &str) -> (r: Option<String>)
    ensures
        match r {
            Some(v) => spec_option_value(str_views(args@), flag@) == Some(v@),
            None => spec_option_value(str_views(args@), flag@) is None,
        },
{
    let ghost av = str_views(args@);
    let mut i: usize = 0;
    assert(av.skip(0) =~= av);
    while i < args.len()
        invariant
            i <= args.len(),
            av == str_views(args@),
            spec_option_value(av, flag@) == spec_option_value(av.skip(i as int), flag@),
        decreases args.len() - i,
    {
        assert(av.skip(i as int).drop_first() =~= av.skip(i + 1));
        assert(av.skip(i as int)[0] == args@[i as int]@);
        if str_eq(args[i].as_str(), flag) {
            if i + 1 < args.len() {
                assert(av.skip(i as int)[1] == args@[i + 1]@);
                return Some(args[i + 1].clone());
            }
            return None;
        }
        i = i + 1;
    }
    None
}

pub fn option_values(args: &[String], flag: &str) -> (r: Vec<String>)
    ensures
        str_views(r@) == spec_option_values(str_views(args@), flag@),
{
    let ghost av = str_views(args@);
    let mut r: Vec<String> = Vec::new();
    let mut i: usize = 0;
    assert(av.skip(0) =~= av);
    while i < args.len()
        invariant
            i <= args.len(),
            av == str_views(args@),
            spec_option_values(av, flag@) == str_views(r@) + spec_option_values(av.skip(i as int), flag@),
        decreases args.len() - i,
    {
        assert(av.skip(i as int).drop_first() =~= av.skip(i + 1));
        assert(av.skip(i as int)[0] == args@[i as int]@);
        if str_eq(args[i].as_str(), flag) && i + 1 < args.len() {
            assert(av.skip(i as int)[1] == args@[i + 1]@);
            assert(av.skip(i as int).skip(2) =~= av.skip(i + 2));
            let v = args[i + 1].clone();
            assert(str_views(r@.push(v)) =~= str_views(r@).push(v@));
            assert(str_views(r@).push(v@) + spec_option_values(av.skip(i + 2), flag@) =~= str_views(r@) + (seq![v@] + spec_option_values(av.skip(i + 2), flag@)));
            r.push(v);
            i = i + 2;
        } else {
            i = i + 1;
        }
    }
    assert(av.skip(i as int) =~= Seq::<Seq<char>>::empty());
    assert(str_views(r@) + Seq::<Seq<char>>::empty() =~= str_views(r@));
    r
}

/// The error for an option given without a value.
pub open spec fn missing_value_error(flag: Seq<char>) -> Seq<char> {
    "Missing value for option: "@ + flag
}

/// Whether some occurrence of `flag` is the last argument or is followed by another option.
pub open spec fn value_missing(args: Seq<Seq<char>>, flag: Seq<char>) -> bool {
    exists|i: int| #![trigger args[i]] 0 <= i < args.len() && args[i] == flag && (i + 1 >= args.len() || crate::text::starts_with(args[i + 1], "--"@))
}

pub fn validate_option_value(args: &[String], flag: &str) -> (r: Result<(), String>)
    ensures
        match r {
            Ok(()) => !value_missing(str_views(args@), flag@),
            Err(e) => value_missing(str_views(args@), flag@) && e@ == missing_value_error(flag@),
        },
{
    let ghost av = str_views(args@);
    let mut i: usize = 0;
    while i < args.len()
        invariant
            i <= args.len(),
            av == str_views(args@),
            forall|j: int| #![trigger av[j]] 0 <= j < i ==> !(av[j] == flag@ && (j + 1 >= av.len() || crate::text::starts_with(av[j + 1], "--"@))),
        decreases args.len() - i,
    {
        assert(av[i as int] == args@[i as int]@);
        if str_eq(args[i].as_str(), flag) {
            let missing = if i + 1 >= args.len() {
                true
            } else {
                assert(av[i + 1] == args@[i + 1]@);
                crate::text::starts_with_str(&to_chars(args[i + 1].as_str()), "--")
            };
            if missing {
                let mut e = to_chars("Missing value for option: ");
                crate::text::push_str(&mut e, flag);
                return Err(crate::text::from_chars(&e));
            }
        }
        i = i + 1;
    }
    Ok(())
}

/// A boolean word given on the command line.
pub open spec fn spec_cli_boolean_value(value: Seq<char>) -> Option<bool> {
    if value == "true"@ || value == "1"@ || value == "yes"@ || value == "on"@ {
        Some(true)
    } else if value == "false"@ || value == "0"@ || value == "no"@ || value == "off"@ {
        Some(false)
    } else {
        None
    }
}

pub fn cli_boolean_value(value: &str) -> (r: Option<bool>)
    ensures
        r == spec_cli_boolean_value(value@),
{
    if str_eq(value, "true") || str_eq(value, "1") || str_eq(value, "yes") || str_eq(value, "on") {
        Some(true)
    } else if str_eq(value, "false") || str_eq(value, "0") || str_eq(value, "no") || str_eq(value, "off") {
        Some(false)
    } else {
        None
    }
}

/// A boolean option: the last occurrence decides; a bare occurrence means true
/// and one followed by a boolean word means that word; absent, the default.
pub open spec fn bool_option_from(args: Seq<Seq<char>>, flag: Seq<char>, i: nat, value: bool) -> bool
    decreases args.len() - i,
{
    if i >= args.len() {
        value
    } else if args[i as int] == flag {
        match (if i + 1 < args.len() { spec_cli_boolean_value(args[i as int + 1]) } else { None }) {
            Some(b) => bool_option_from(args, flag, i + 2, b),
            None => bool_option_from(args, flag, i + 1, true),
        }
    } else {
        bool_option_from(args, flag, i + 1, value)
    }
}

pub fn bool_option(args: &[String], flag: &str, default: bool) -> (r: bool)
    ensures
        r == bool_option_from(str_views(args@), flag@, 0, default),
{
    let ghost av = str_views(args@);
    let mut value = default;
    let mut i: usize = 0;
    while i < args.len()
        invariant
            av == str_views(args@),
            bool_option_from(av, flag@, 0, default) == bool_option_from(av, flag@, i as nat, value),
        decreases args.len() + 1 - i,
    {
        assert(av[i as int] == args@[i as int]@);
        if str_eq(args[i].as_str(), flag) {
            let next = if i + 1 < args.len() {
                assert(av[i + 1] == args@[i + 1]@);
                cli_boolean_value(args[i + 1].as_str())
            } else {
                None
            };
            match next {
                Some(b) => {
                    value = b;
                    i = i + 2;
                },
                None => {
                    value = true;
                    i = i + 1;
                },
            }
        } else {
            i = i + 1;
        }
    }
    value
}

/// Values read from the environment that stand in for options not given on the
/// command line (`DEVCONTAINER_DOCKER_PATH`, `DEVCONTAINER_DOCKER_COMPOSE_PATH`,
/// `DEVCONTAINER_BUILDKIT`, `DEVCONTAINER_UPDATE_REMOTE_USER_UID_DEFAULT`,
/// `DEVCONTAINER_GPU_AVAILABILITY`).
#[derive(Debug, Default)]
pub struct EnvDefaults {
    pub docker_path: Option<String>,
    pub docker_compose_path: Option<String>,
    pub buildkit: Option<String>,
    pub update_remote_user_uid_default: Option<String>,
    pub gpu_availability: Option<String>,
}

/// An option's value from the command line, else the environment's value when it is not blank.
pub open spec fn spec_env_default_value(args: Seq<Seq<char>>, flag: Seq<char>, env: Option<Seq<char>>) -> Option<Seq<char>> {
    match spec_option_value(args, flag) {
        Some(v) => Some(v),
        None => match env {
            Some(e) => if trim(e).len() == 0 {
                None
            } else {
                Some(e)
            },
            None => None,
        },
    }
}

pub open spec fn opt_str(o: Option<String>) -> Option<Seq<char>> {
    match o {
        Some(s) => Some(s@),
        None => None,
    }
}

pub fn env_default_value(args: &[String], flag: &str, env: &Option<String>) -> (r: Option<String>)
    ensures
        opt_str(r) == spec_env_default_value(str_views(args@), flag@, opt_str(*env)),
{
    match option_value(args, flag) {
        Some(v) => Some(v),
        None => match env {
            Some(e) => {
                let t = crate::text::trim_chars(&to_chars(e.as_str()));
                if t.len() == 0 {
                    None
                } else {
                    Some(e.clone())
                }
            },
            None => None,
        },
    }
}


/// An option given on the command line takes precedence over its environment
/// variable, whatever that variable holds.
pub proof fn law_cli_flag_takes_precedence(args: Seq<Seq<char>>, flag: Seq<char>, env: Option<Seq<char>>)
    requires
        spec_option_value(args, flag) is Some,
    ensures
        spec_env_default_value(args, flag, env) == spec_option_value(args, flag),
{
}

/// A blank environment variable counts as unset: it keeps the default.
pub proof fn law_blank_env_keeps_default(args: Seq<Seq<char>>, flag: Seq<char>, env: Seq<char>)
    requires
        trim(env).len() == 0,
    ensures
        spec_env_default_value(args, flag, Some(env)) == spec_env_default_value(args, flag, None),
{
}

} // verus!
