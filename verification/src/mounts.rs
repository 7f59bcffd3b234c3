//! Mount specifications (`type=bind,source=...,target=...`): splitting them into
//! options, reading their target, validating `--mount` values, and rewriting them
//! into the `-v` syntax that WSLc engines take.

use vstd::prelude::*;
use crate::json::{entries_view, entry_value, json_bool, json_view, lemma_entries_view, JsonValue, JsonView};
use crate::options::{opt_str, option_values, spec_option_values, str_eq, validate_option_value, value_missing, missing_value_error};
use crate::text::{
    debug_quoted, debug_text, has_char_chars, join, join_chars, slice_of, starts_with_str,
    chars_eq, ends_with, from_chars, is, is_ascii_alpha, push_all, push_str, split_once,
    split_once_chars, starts_with, str_views, strip_prefix, strip_prefix_str, to_chars, trim,
    trim_char, trim_char_chars, trim_chars, trim_end, trim_end_chars, views,
};

verus! {

/// The options of a mount, split at commas outside double quotes and trimmed;
/// a final empty piece is dropped.
pub open spec fn split_opts_from(m: Seq<char>, i: nat, in_quotes: bool, cur: Seq<char>) -> Seq<Seq<char>>
    decreases m.len() - i,
{
    if i >= m.len() {
        if cur.len() > 0 {
            seq![trim(cur)]
        } else {
            seq![]
        }
    } else {
        let c = m[i as int];
        if c == '"' {
            split_opts_from(m, i + 1, !in_quotes, cur.push(c))
        } else if c == ',' && !in_quotes {
            seq![trim(cur)] + split_opts_from(m, i + 1, in_quotes, seq![])
        } else {
            split_opts_from(m, i + 1, in_quotes, cur.push(c))
        }
    }
}

pub open spec fn spec_split_mount_options(m: Seq<char>) -> Seq<Seq<char>> {
    split_opts_from(m, 0, false, seq![])
}

pub fn split_mount_options_chars(m: &Vec<char>) -> (r: Vec<Vec<char>>)
    ensures
        views(r@) == spec_split_mount_options(m@),
{
    let mut options: Vec<Vec<char>> = Vec::new();
    let mut current: Vec<char> = Vec::new();
    let mut in_quotes = false;
    let mut i: usize = 0;
    while i < m.len()
        invariant
            i <= m.len(),
            spec_split_mount_options(m@) == views(options@) + split_opts_from(m@, i as nat, in_quotes, current@),
        decreases m.len() - i,
    {
        let c = m[i];
        if c == '"' {
            in_quotes = !in_quotes;
            current.push(c);
        } else if c == ',' && !in_quotes {
            let t = trim_chars(&current);
            proof {
                crate::text::lemma_views_push_pub(options@, t);
                assert(views(options@).push(t@) + split_opts_from(m@, (i + 1) as nat, in_quotes, seq![])
                    =~= views(options@) + (seq![t@] + split_opts_from(m@, (i + 1) as nat, in_quotes, seq![])));
            }
            options.push(t);
            current = Vec::new();
            assert(current@ =~= Seq::<char>::empty());
        } else {
            current.push(c);
        }
        i = i + 1;
    }
    if current.len() > 0 {
        let t = trim_chars(&current);
        proof {
            crate::text::lemma_views_push_pub(options@, t);
        }
        options.push(t);
    } else {
        assert(views(options@) + Seq::<Seq<char>>::empty() =~= views(options@));
    }
    options
}

pub fn split_mount_options(mount: &str) -> (r: Vec<String>)
    ensures
        str_views(r@) == spec_split_mount_options(mount@),
{
    let parts = split_mount_options_chars(&to_chars(mount));
    let ghost pv = views(parts@);
    let mut r: Vec<String> = Vec::new();
    let mut k: usize = 0;
    while k < parts.len()
        invariant
            k <= parts.len(),
            pv == views(parts@),
            str_views(r@) == pv.take(k as int),
        decreases parts.len() - k,
    {
        let s = from_chars(&parts[k]);
        assert(pv[k as int] == parts@[k as int]@);
        assert(str_views(r@.push(s)) =~= str_views(r@).push(s@));
        assert(pv.take(k + 1) =~= pv.take(k as int).push(pv[k as int]));
        r.push(s);
        k = k + 1;
    }
    assert(pv.take(k as int) =~= pv);
    r
}

/// The value of the first option that names the target (`target=`,
/// `destination=` or `dst=`), without surrounding double quotes.
pub open spec fn target_in(opts: Seq<Seq<char>>) -> Option<Seq<char>>
    decreases opts.len(),
{
    if opts.len() == 0 {
        None
    } else {
        let o = opts[0];
        if strip_prefix(o, "target="@) is Some {
            Some(trim_char(strip_prefix(o, "target="@)->0, '"'))
        } else if strip_prefix(o, "destination="@) is Some {
            Some(trim_char(strip_prefix(o, "destination="@)->0, '"'))
        } else if strip_prefix(o, "dst="@) is Some {
            Some(trim_char(strip_prefix(o, "dst="@)->0, '"'))
        } else {
            target_in(opts.drop_first())
        }
    }
}

pub open spec fn spec_mount_option_target(mount: Seq<char>) -> Option<Seq<char>> {
    target_in(spec_split_mount_options(mount))
}

pub fn mount_option_target(mount: &str) -> (r: Option<String>)
    ensures
        crate::options::opt_str(r) == spec_mount_option_target(mount@),
{
    let opts = split_mount_options_chars(&to_chars(mount));
    let ghost ov = views(opts@);
    let mut k: usize = 0;
    assert(ov.skip(0) =~= ov);
    while k < opts.len()
        invariant
            k <= opts.len(),
            ov == views(opts@),
            spec_mount_option_target(mount@) == target_in(ov.skip(k as int)),
        decreases opts.len() - k,
    {
        assert(ov.skip(k as int).drop_first() =~= ov.skip(k + 1));
        assert(ov.skip(k as int)[0] == opts@[k as int]@);
        match strip_prefix_str(&opts[k], "target=") {
            Some(v) => {
                return Some(from_chars(&trim_char_chars(&v, '"')));
            },
            None => {},
        }
        match strip_prefix_str(&opts[k], "destination=") {
            Some(v) => {
                return Some(from_chars(&trim_char_chars(&v, '"')));
            },
            None => {},
        }
        match strip_prefix_str(&opts[k], "dst=") {
            Some(v) => {
                return Some(from_chars(&trim_char_chars(&v, '"')));
            },
            None => {},
        }
        k = k + 1;
    }
    None
}

/// The error for a `--mount` value that is not a usable mount.
pub open spec fn invalid_cli_mount_message(mount: Seq<char>) -> Seq<char> {
    "Invalid value for option --mount: "@ + mount
        + ". Expected type=<bind|volume>,target=<target>[,...], with source=<source> required for bind mounts"@
}

fn invalid_cli_mount_error(mount: &str) -> (r: String)
    ensures
        r@ == invalid_cli_mount_message(mount@),
{
    let mut m = to_chars("Invalid value for option --mount: ");
    push_str(&mut m, mount);
    push_str(&mut m, ". Expected type=<bind|volume>,target=<target>[,...], with source=<source> required for bind mounts");
    from_chars(&m)
}

/// What the options of a `--mount` value establish: a volume mount, a type, a
/// source and a target; none when an option has no `=` or names another type.
pub struct CliMountState {
    pub is_volume: bool,
    pub has_type: bool,
    pub has_source: bool,
    pub has_target: bool,
}

pub open spec fn cli_mount_fold(opts: Seq<Seq<char>>, st: CliMountState) -> Option<CliMountState>
    decreases opts.len(),
{
    if opts.len() == 0 {
        Some(st)
    } else {
        let o = opts[0];
        if o == "readonly"@ || o == "ro"@ {
            cli_mount_fold(opts.drop_first(), st)
        } else {
            match split_once(o, '=') {
                None => None,
                Some((key, raw)) => {
                    let value = trim_char(raw, '"');
                    if key == "type"@ {
                        if value == "bind"@ || value == "volume"@ {
                            cli_mount_fold(opts.drop_first(), CliMountState { has_type: true, is_volume: value == "volume"@, ..st })
                        } else {
                            None
                        }
                    } else if (key == "source"@ || key == "src"@) && value.len() > 0 {
                        cli_mount_fold(opts.drop_first(), CliMountState { has_source: true, ..st })
                    } else if (key == "target"@ || key == "destination"@ || key == "dst"@) && value.len() > 0 {
                        cli_mount_fold(opts.drop_first(), CliMountState { has_target: true, ..st })
                    } else {
                        cli_mount_fold(opts.drop_first(), st)
                    }
                },
            }
        }
    }
}

/// A `--mount` value is valid when every option is a flag (`readonly`, `ro`) or
/// `key=value`, its type is `bind` or `volume`, it has a target, and bind mounts
/// have a source.
pub open spec fn spec_validate_cli_mount_value(mount: Seq<char>) -> bool {
    match cli_mount_fold(spec_split_mount_options(mount), CliMountState { is_volume: false, has_type: false, has_source: false, has_target: false }) {
        None => false,
        Some(st) => st.has_type && st.has_target && (st.is_volume || st.has_source),
    }
}

pub fn validate_cli_mount_value(mount: &str) -> (r: Result<(), String>)
    ensures
        match r {
            Ok(()) => spec_validate_cli_mount_value(mount@),
            Err(e) => !spec_validate_cli_mount_value(mount@) && e@ == invalid_cli_mount_message(mount@),
        },
{
    let opts = split_mount_options_chars(&to_chars(mount));
    let ghost ov = views(opts@);
    let mut is_volume = false;
    let mut has_type = false;
    let mut has_source = false;
    let mut has_target = false;
    let mut k: usize = 0;
    assert(ov.skip(0) =~= ov);
    while k < opts.len()
        invariant
            k <= opts.len(),
            ov == views(opts@),
            ov == spec_split_mount_options(mount@),
            cli_mount_fold(ov, CliMountState { is_volume: false, has_type: false, has_source: false, has_target: false })
                == cli_mount_fold(ov.skip(k as int), CliMountState { is_volume, has_type, has_source, has_target }),
        decreases opts.len() - k,
    {
        assert(ov.skip(k as int).drop_first() =~= ov.skip(k + 1));
        assert(ov.skip(k as int)[0] == opts@[k as int]@);
        let o = &opts[k];
        if is(o, "readonly") || is(o, "ro") {
            k = k + 1;
            continue;
        }
        match split_once_chars(o, '=') {
            None => {
                assert(cli_mount_fold(ov.skip(k as int), CliMountState { is_volume, has_type, has_source, has_target }) is None);
                return Err(invalid_cli_mount_error(mount));
            },
            Some((key, raw)) => {
                let value = trim_char_chars(&raw, '"');
                if is(&key, "type") {
                    if is(&value, "bind") || is(&value, "volume") {
                        has_type = true;
                        is_volume = is(&value, "volume");
                    } else {
                        assert(cli_mount_fold(ov.skip(k as int), CliMountState { is_volume, has_type, has_source, has_target }) is None);
                        return Err(invalid_cli_mount_error(mount));
                    }
                } else if (is(&key, "source") || is(&key, "src")) && value.len() > 0 {
                    has_source = true;
                } else if (is(&key, "target") || is(&key, "destination") || is(&key, "dst")) && value.len() > 0 {
                    has_target = true;
                }
            },
        }
        k = k + 1;
    }
    assert(ov.skip(k as int) =~= Seq::<Seq<char>>::empty());
    if !has_type || !has_target || (!is_volume && !has_source) {
        return Err(invalid_cli_mount_error(mount));
    }
    Ok(())
}

/// The first invalid mount, if any.
pub open spec fn first_invalid(mounts: Seq<Seq<char>>) -> Option<Seq<char>>
    decreases mounts.len(),
{
    if mounts.len() == 0 {
        None
    } else if !spec_validate_cli_mount_value(mounts[0]) {
        Some(mounts[0])
    } else {
        first_invalid(mounts.drop_first())
    }
}

pub fn validate_cli_mount_values(mounts: &[String]) -> (r: Result<(), String>)
    ensures
        match r {
            Ok(()) => first_invalid(str_views(mounts@)) is None,
            Err(e) => first_invalid(str_views(mounts@)) is Some && e@ == invalid_cli_mount_message(first_invalid(str_views(mounts@))->0),
        },
{
    let ghost mv = str_views(mounts@);
    let mut k: usize = 0;
    assert(mv.skip(0) =~= mv);
    while k < mounts.len()
        invariant
            k <= mounts.len(),
            mv == str_views(mounts@),
            first_invalid(mv) == first_invalid(mv.skip(k as int)),
        decreases mounts.len() - k,
    {
        assert(mv.skip(k as int).drop_first() =~= mv.skip(k + 1));
        assert(mv.skip(k as int)[0] == mounts@[k as int]@);
        match validate_cli_mount_value(mounts[k].as_str()) {
            Err(e) => {
                return Err(e);
            },
            Ok(()) => {},
        }
        k = k + 1;
    }
    assert(mv.skip(k as int) =~= Seq::<Seq<char>>::empty());
    Ok(())
}

/// The `--mount` values of the arguments: an error when one is missing its value
/// or is not a usable mount (the first such), else all of them in order.
pub open spec fn spec_cli_mount_values(args: Seq<Seq<char>>) -> Result<Seq<Seq<char>>, Seq<char>> {
    if value_missing(args, "--mount"@) {
        Err(missing_value_error("--mount"@))
    } else {
        let mounts = spec_option_values(args, "--mount"@);
        match first_invalid(mounts) {
            Some(m) => Err(invalid_cli_mount_message(m)),
            None => Ok(mounts),
        }
    }
}

pub fn cli_mount_values(args: &[String]) -> (r: Result<Vec<String>, String>)
    ensures
        match r {
            Ok(v) => spec_cli_mount_values(str_views(args@)) == Ok::<Seq<Seq<char>>, Seq<char>>(str_views(v@)),
            Err(e) => spec_cli_mount_values(str_views(args@)) == Err::<Seq<Seq<char>>, Seq<char>>(e@),
        },
{
    match validate_option_value(args, "--mount") {
        Err(e) => {
            return Err(e);
        },
        Ok(()) => {},
    }
    let mounts = option_values(args, "--mount");
    match validate_cli_mount_values(mounts.as_slice()) {
        Err(e) => Err(e),
        Ok(()) => Ok(mounts),
    }
}


/// The error for a mount that the `-v` syntax of WSLc cannot express.
pub open spec fn wslc_error(mount: Seq<char>, reason: Seq<char>) -> Seq<char> {
    "WSLc cannot represent mount with -v: "@ + reason + ": "@ + mount
}

fn wslc_mount_error(mount: &str, reason: &str) -> (r: String)
    ensures
        r@ == wslc_error(mount@, reason@),
{
    let mut m = to_chars("WSLc cannot represent mount with -v: ");
    push_str(&mut m, reason);
    push_str(&mut m, ": ");
    push_str(&mut m, mount);
    from_chars(&m)
}

/// A reason that names a value as `{:?}` writes it.
pub open spec fn quoted_reason(prefix: Seq<char>, name: Seq<char>, suffix: Seq<char>) -> Seq<char> {
    prefix + debug_text(name) + suffix
}

fn quoted_reason_exec(prefix: &str, name: &str, suffix: &str) -> (r: String)
    ensures
        r@ == quoted_reason(prefix@, name@, suffix@),
{
    let mut m = to_chars(prefix);
    let q = debug_quoted(name);
    push_str(&mut m, q.as_str());
    push_str(&mut m, suffix);
    from_chars(&m)
}

/// What the options of a mount have set so far. `T` is the text type: `String`
/// while converting, `Seq<char>` in the contracts.
pub struct MountFields<T> {
    pub mount_type: Option<T>,
    pub source: Option<T>,
    pub target: Option<T>,
    pub read_only: Option<bool>,
    pub consistency: Option<T>,
    pub propagation: Option<T>,
    pub no_copy: Option<bool>,
}

pub open spec fn fields_view(f: MountFields<String>) -> MountFields<Seq<char>> {
    MountFields {
        mount_type: opt_str(f.mount_type),
        source: opt_str(f.source),
        target: opt_str(f.target),
        read_only: f.read_only,
        consistency: opt_str(f.consistency),
        propagation: opt_str(f.propagation),
        no_copy: f.no_copy,
    }
}

pub open spec fn no_fields() -> MountFields<Seq<char>> {
    MountFields {
        mount_type: None,
        source: None,
        target: None,
        read_only: None,
        consistency: None,
        propagation: None,
        no_copy: None,
    }
}

pub open spec fn conflict_reason(key: Seq<char>) -> Seq<char> {
    quoted_reason("conflicting values were provided for "@, key, ""@)
}

/// Setting a text field: the first value stays; a different second value is a conflict.
pub open spec fn spec_set_field(field: Option<Seq<char>>, value: Seq<char>, key: Seq<char>) -> Result<Option<Seq<char>>, Seq<char>> {
    match field {
        Some(previous) => if previous != value {
            Err(conflict_reason(key))
        } else {
            Ok(field)
        },
        None => Ok(Some(value)),
    }
}

/// Setting a flag: the first value stays; a different second value is a conflict.
pub open spec fn spec_set_bool(field: Option<bool>, value: bool, key: Seq<char>) -> Result<Option<bool>, Seq<char>> {
    match field {
        Some(previous) => if previous != value {
            Err(conflict_reason(key))
        } else {
            Ok(field)
        },
        None => Ok(Some(value)),
    }
}

fn set_wslc_mount_field(field: &mut Option<String>, value: String, mount: &str, key: &str) -> (r: Result<(), String>)
    ensures
        match spec_set_field(opt_str(*old(field)), value@, key@) {
            Ok(f) => r is Ok && opt_str(*final(field)) == f,
            Err(reason) => r is Err && r->Err_0@ == wslc_error(mount@, reason) && *final(field) == *old(field),
        },
{
    let conflicting = match field.as_ref() {
        Some(previous) => !str_eq(previous.as_str(), value.as_str()),
        None => false,
    };
    if conflicting {
        let reason = quoted_reason_exec("conflicting values were provided for ", key, "");
        return Err(wslc_mount_error(mount, reason.as_str()));
    }
    if field.is_none() {
        *field = Some(value);
    }
    Ok(())
}

fn set_wslc_mount_bool(field: &mut Option<bool>, value: bool, mount: &str, key: &str) -> (r: Result<(), String>)
    ensures
        match spec_set_bool(*old(field), value, key@) {
            Ok(f) => r is Ok && *final(field) == f,
            Err(reason) => r is Err && r->Err_0@ == wslc_error(mount@, reason) && *final(field) == *old(field),
        },
{
    match *field {
        Some(previous) => {
            if previous != value {
                let reason = quoted_reason_exec("conflicting values were provided for ", key, "");
                return Err(wslc_mount_error(mount, reason.as_str()));
            }
            Ok(())
        },
        None => {
            *field = Some(value);
            Ok(())
        },
    }
}

/// The value of a `key=value` option: trimmed, without one pair of surrounding
/// double quotes; unmatched quotes, an empty value and a quote inside are errors.
pub open spec fn spec_wslc_option_value(key: Seq<char>, raw: Seq<char>) -> Result<Seq<char>, Seq<char>> {
    let value = trim(raw);
    let starts_quoted = starts_with(value, "\""@);
    let ends_quoted = ends_with(value, "\""@);
    if starts_quoted != ends_quoted || (starts_quoted && value.len() < 2) {
        Err(quoted_reason("option "@, key, " contains unmatched quotes"@))
    } else {
        let inner = if starts_quoted { value.subrange(1, value.len() - 1) } else { value };
        if inner.len() == 0 || inner.contains('"') {
            Err(quoted_reason("option "@, key, " has an invalid value"@))
        } else {
            Ok(inner)
        }
    }
}

fn wslc_mount_option_value(mount: &str, key: &str, raw_value: &str) -> (r: Result<String, String>)
    ensures
        match spec_wslc_option_value(key@, raw_value@) {
            Ok(v) => r is Ok && r->Ok_0@ == v,
            Err(reason) => r is Err && r->Err_0@ == wslc_error(mount@, reason),
        },
{
    let value = trim_chars(&to_chars(raw_value));
    proof {
        reveal_strlit("\"");
        assert("\""@ =~= seq!['"']);
    }
    let starts_quoted = value.len() > 0 && value[0] == '"';
    let ends_quoted = value.len() > 0 && value[value.len() - 1] == '"';
    assert(starts_quoted == starts_with(value@, "\""@)) by {
        if value.len() > 0 {
            assert(value@.take(1) =~= seq![value@[0]]);
            assert(value@.take(1)[0] == value@[0]);
        }
    }
    assert(ends_quoted == ends_with(value@, "\""@)) by {
        if value.len() > 0 {
            assert(value@.skip(value.len() - 1) =~= seq![value@[value.len() - 1]]);
            assert(value@.skip(value.len() - 1)[0] == value@[value.len() - 1]);
        }
    }
    if starts_quoted != ends_quoted || (starts_quoted && value.len() < 2) {
        let reason = quoted_reason_exec("option ", key, " contains unmatched quotes");
        return Err(wslc_mount_error(mount, reason.as_str()));
    }
    let inner = if starts_quoted {
        slice_of(&value, 1, value.len() - 1)
    } else {
        slice_of(&value, 0, value.len())
    };
    assert(!starts_quoted ==> inner@ =~= value@);
    if inner.len() == 0 || has_char_chars(&inner, '"') {
        let reason = quoted_reason_exec("option ", key, " has an invalid value");
        return Err(wslc_mount_error(mount, reason.as_str()));
    }
    Ok(from_chars(&inner))
}

/// The flag value of a `key=value` option: `true` or `false`.
pub open spec fn spec_wslc_bool_value(key: Seq<char>, value: Seq<char>) -> Result<bool, Seq<char>> {
    if value == "true"@ {
        Ok(true)
    } else if value == "false"@ {
        Ok(false)
    } else {
        Err(quoted_reason("option "@, key, " requires true or false"@))
    }
}

fn wslc_mount_bool_value(mount: &str, key: &str, value: &str) -> (r: Result<bool, String>)
    ensures
        match spec_wslc_bool_value(key@, value@) {
            Ok(b) => r == Ok::<bool, String>(b),
            Err(reason) => r is Err && r->Err_0@ == wslc_error(mount@, reason),
        },
{
    if str_eq(value, "true") {
        Ok(true)
    } else if str_eq(value, "false") {
        Ok(false)
    } else {
        let reason = quoted_reason_exec("option ", key, " requires true or false");
        Err(wslc_mount_error(mount, reason.as_str()))
    }
}

/// An absolute host path: `/...`, a UNC path `\\...`, or a drive path `C:/...` or `C:\...`.
pub open spec fn spec_is_absolute_bind_source(s: Seq<char>) -> bool {
    starts_with(s, "/"@) || starts_with(s, "\\\\"@) || (s.len() >= 3 && is_ascii_alpha(s[0]) && s[1] == ':'
        && (s[2] == '/' || s[2] == '\\'))
}

fn is_absolute_bind_source(source: &str) -> (r: bool)
    ensures
        r == spec_is_absolute_bind_source(source@),
{
    let c = to_chars(source);
    if starts_with_str(&c, "/") || starts_with_str(&c, "\\\\") {
        return true;
    }
    c.len() >= 3 && (('a' <= c[0] && c[0] <= 'z') || ('A' <= c[0] && c[0] <= 'Z')) && c[1] == ':' && (c[2]
        == '/' || c[2] == '\\')
}

/// A source whose colons `-v` can tell apart from its separators: none, or only
/// the one of a drive letter (`C:/`, `C:\`).
pub open spec fn spec_has_representable_bind_source_colons(s: Seq<char>) -> bool {
    !s.contains(':') || (s.len() >= 3 && is_ascii_alpha(s[0]) && s[1] == ':' && (s[2] == '/' || s[2] == '\\')
        && !s.skip(2).contains(':'))
}

fn has_representable_bind_source_colons(source: &str) -> (r: bool)
    ensures
        r == spec_has_representable_bind_source_colons(source@),
{
    let c = to_chars(source);
    if !has_char_chars(&c, ':') {
        return true;
    }
    if c.len() >= 3 && (('a' <= c[0] && c[0] <= 'z') || ('A' <= c[0] && c[0] <= 'Z')) && c[1] == ':' && (c[2]
        == '/' || c[2] == '\\') {
        let rest = slice_of(&c, 2, c.len());
        assert(rest@ =~= c@.skip(2));
        !has_char_chars(&rest, ':')
    } else {
        false
    }
}


pub open spec fn with_read_only(st: MountFields<Seq<char>>, r: Result<Option<bool>, Seq<char>>) -> Result<MountFields<Seq<char>>, Seq<char>> {
    match r {
        Ok(f) => Ok(MountFields { read_only: f, ..st }),
        Err(e) => Err(e),
    }
}

pub open spec fn with_no_copy(st: MountFields<Seq<char>>, r: Result<Option<bool>, Seq<char>>) -> Result<MountFields<Seq<char>>, Seq<char>> {
    match r {
        Ok(f) => Ok(MountFields { no_copy: f, ..st }),
        Err(e) => Err(e),
    }
}

pub open spec fn is_consistency_value(v: Seq<char>) -> bool {
    v == "consistent"@ || v == "cached"@ || v == "delegated"@
}

pub open spec fn is_propagation_value(v: Seq<char>) -> bool {
    v == "private"@ || v == "rprivate"@ || v == "shared"@ || v == "rshared"@ || v == "slave"@ || v == "rslave"@
}

/// A `key=value` option applied to the fields.
pub open spec fn wslc_keyed(st: MountFields<Seq<char>>, key: Seq<char>, value: Seq<char>) -> Result<MountFields<Seq<char>>, Seq<char>> {
    if key == "type"@ {
        match spec_set_field(st.mount_type, value, key) {
            Ok(f) => Ok(MountFields { mount_type: f, ..st }),
            Err(e) => Err(e),
        }
    } else if key == "source"@ || key == "src"@ {
        match spec_set_field(st.source, value, key) {
            Ok(f) => Ok(MountFields { source: f, ..st }),
            Err(e) => Err(e),
        }
    } else if key == "target"@ || key == "destination"@ || key == "dst"@ {
        match spec_set_field(st.target, value, key) {
            Ok(f) => Ok(MountFields { target: f, ..st }),
            Err(e) => Err(e),
        }
    } else if key == "readonly"@ || key == "ro"@ {
        match spec_wslc_bool_value(key, value) {
            Ok(b) => with_read_only(st, spec_set_bool(st.read_only, b, key)),
            Err(e) => Err(e),
        }
    } else if key == "consistency"@ {
        if !is_consistency_value(value) {
            Err(quoted_reason("consistency value "@, value, " is not supported by -v"@))
        } else {
            match spec_set_field(st.consistency, value, key) {
                Ok(f) => Ok(MountFields { consistency: f, ..st }),
                Err(e) => Err(e),
            }
        }
    } else if key == "bind-propagation"@ || key == "bind.propagation"@ {
        if !is_propagation_value(value) {
            Err(quoted_reason("bind propagation value "@, value, " is not supported by -v"@))
        } else {
            match spec_set_field(st.propagation, value, key) {
                Ok(f) => Ok(MountFields { propagation: f, ..st }),
                Err(e) => Err(e),
            }
        }
    } else if key == "volume-nocopy"@ || key == "nocopy"@ {
        match spec_wslc_bool_value(key, value) {
            Ok(b) => with_no_copy(st, spec_set_bool(st.no_copy, b, key)),
            Err(e) => Err(e),
        }
    } else {
        Err(quoted_reason("option "@, key, " is not supported by -v"@))
    }
}

/// One option of a mount applied to the fields: the bare flags `readonly`/`ro`
/// and `volume-nocopy`/`nocopy`, or `key=value`.
pub open spec fn wslc_step(st: MountFields<Seq<char>>, option: Seq<char>) -> Result<MountFields<Seq<char>>, Seq<char>> {
    if option.len() == 0 {
        Err("contains an empty option"@)
    } else if option == "readonly"@ || option == "ro"@ {
        with_read_only(st, spec_set_bool(st.read_only, true, option))
    } else if option == "volume-nocopy"@ || option == "nocopy"@ {
        with_no_copy(st, spec_set_bool(st.no_copy, true, option))
    } else {
        match split_once(option, '=') {
            None => Err(quoted_reason("option "@, option, " is not supported by -v"@)),
            Some((key, raw)) => match spec_wslc_option_value(key, raw) {
                Ok(value) => wslc_keyed(st, key, value),
                Err(e) => Err(e),
            },
        }
    }
}

/// The options applied in order; the first error stops.
pub open spec fn wslc_fold(options: Seq<Seq<char>>, st: MountFields<Seq<char>>) -> Result<MountFields<Seq<char>>, Seq<char>>
    decreases options.len(),
{
    if options.len() == 0 {
        Ok(st)
    } else {
        match wslc_step(st, options[0]) {
            Ok(next) => wslc_fold(options.drop_first(), next),
            Err(e) => Err(e),
        }
    }
}

fn wslc_apply_option(fields: MountFields<String>, option: &str, mount: &str) -> (r: Result<MountFields<String>, String>)
    ensures
        match wslc_step(fields_view(fields), option@) {
            Ok(st) => r is Ok && fields_view(r->Ok_0) == st,
            Err(reason) => r is Err && r->Err_0@ == wslc_error(mount@, reason),
        },
{
    let ghost st = fields_view(fields);
    let MountFields { mut mount_type, mut source, mut target, mut read_only, mut consistency, mut propagation, mut no_copy } = fields;
    let o = to_chars(option);
    if o.len() == 0 {
        return Err(wslc_mount_error(mount, "contains an empty option"));
    }
    if is(&o, "readonly") || is(&o, "ro") {
        match set_wslc_mount_bool(&mut read_only, true, mount, option) {
            Err(e) => {
                return Err(e);
            },
            Ok(()) => {},
        }
        return Ok(MountFields { mount_type, source, target, read_only, consistency, propagation, no_copy });
    }
    if is(&o, "volume-nocopy") || is(&o, "nocopy") {
        match set_wslc_mount_bool(&mut no_copy, true, mount, option) {
            Err(e) => {
                return Err(e);
            },
            Ok(()) => {},
        }
        return Ok(MountFields { mount_type, source, target, read_only, consistency, propagation, no_copy });
    }
    let (key_chars, raw_chars) = match split_once_chars(&o, '=') {
        None => {
            let reason = quoted_reason_exec("option ", option, " is not supported by -v");
            return Err(wslc_mount_error(mount, reason.as_str()));
        },
        Some(p) => p,
    };
    let key_string = from_chars(&key_chars);
    let key = key_string.as_str();
    let raw = from_chars(&raw_chars);
    let value = match wslc_mount_option_value(mount, key, raw.as_str()) {
        Err(e) => {
            return Err(e);
        },
        Ok(v) => v,
    };
    let vc = to_chars(value.as_str());
    let set = if is(&key_chars, "type") {
        set_wslc_mount_field(&mut mount_type, value, mount, key)
    } else if is(&key_chars, "source") || is(&key_chars, "src") {
        set_wslc_mount_field(&mut source, value, mount, key)
    } else if is(&key_chars, "target") || is(&key_chars, "destination") || is(&key_chars, "dst") {
        set_wslc_mount_field(&mut target, value, mount, key)
    } else if is(&key_chars, "readonly") || is(&key_chars, "ro") {
        match wslc_mount_bool_value(mount, key, value.as_str()) {
            Err(e) => Err(e),
            Ok(b) => set_wslc_mount_bool(&mut read_only, b, mount, key),
        }
    } else if is(&key_chars, "consistency") {
        if !(is(&vc, "consistent") || is(&vc, "cached") || is(&vc, "delegated")) {
            let reason = quoted_reason_exec("consistency value ", value.as_str(), " is not supported by -v");
            Err(wslc_mount_error(mount, reason.as_str()))
        } else {
            set_wslc_mount_field(&mut consistency, value, mount, key)
        }
    } else if is(&key_chars, "bind-propagation") || is(&key_chars, "bind.propagation") {
        if !(is(&vc, "private") || is(&vc, "rprivate") || is(&vc, "shared") || is(&vc, "rshared") || is(&vc, "slave")
            || is(&vc, "rslave")) {
            let reason = quoted_reason_exec("bind propagation value ", value.as_str(), " is not supported by -v");
            Err(wslc_mount_error(mount, reason.as_str()))
        } else {
            set_wslc_mount_field(&mut propagation, value, mount, key)
        }
    } else if is(&key_chars, "volume-nocopy") || is(&key_chars, "nocopy") {
        match wslc_mount_bool_value(mount, key, value.as_str()) {
            Err(e) => Err(e),
            Ok(b) => set_wslc_mount_bool(&mut no_copy, b, mount, key),
        }
    } else {
        let reason = quoted_reason_exec("option ", key, " is not supported by -v");
        Err(wslc_mount_error(mount, reason.as_str()))
    };
    match set {
        Err(e) => Err(e),
        Ok(()) => Ok(MountFields { mount_type, source, target, read_only, consistency, propagation, no_copy }),
    }
}


/// The options that follow the target in the `-v` value, in this order.
pub open spec fn wslc_volume_options(st: MountFields<Seq<char>>) -> Seq<Seq<char>> {
    (if st.read_only == Some(true) { seq!["ro"@] } else { seq![] }) + (match st.consistency {
        Some(c) => seq![c],
        None => seq![],
    }) + (match st.propagation {
        Some(p) => seq![p],
        None => seq![],
    }) + (if st.no_copy == Some(true) { seq!["nocopy"@] } else { seq![] })
}

/// `source:target` (or the target alone), then `:` and the options joined by commas.
pub open spec fn wslc_volume(st: MountFields<Seq<char>>, target: Seq<char>) -> Seq<char> {
    let base = match st.source {
        Some(s) => s + ":"@ + target,
        None => target,
    };
    let options = wslc_volume_options(st);
    if options.len() == 0 {
        base
    } else {
        base + ":"@ + join(options, ","@)
    }
}

/// The checks made once all options are read, and the `-v` value they allow.
pub open spec fn wslc_finish(st: MountFields<Seq<char>>) -> Result<Seq<char>, Seq<char>> {
    match st.mount_type {
        None => Err("is missing the mount type"@),
        Some(t) => if !(t == "bind"@ || t == "volume"@) {
            Err(quoted_reason("mount type "@, t, " is not supported by -v"@))
        } else {
            match st.target {
                None => Err("is missing the target"@),
                Some(target) => if target.contains(':') {
                    Err("target paths containing ':' are ambiguous in -v syntax"@)
                } else if t == "bind"@ {
                    match st.source {
                        None => Err("bind mounts require a source"@),
                        Some(s) => if !spec_is_absolute_bind_source(s) || !spec_has_representable_bind_source_colons(s) {
                            Err("bind mount sources must be unambiguous absolute paths for -v"@)
                        } else if st.no_copy == Some(true) {
                            Err("volume-nocopy is only valid for volume mounts"@)
                        } else {
                            Ok(wslc_volume(st, target))
                        },
                    }
                } else if st.source is Some && (st.source->0.contains('/') || st.source->0.contains('\\')
                    || st.source->0.contains(':')) {
                    Err("volume sources that look like paths would become bind mounts with -v"@)
                } else if st.propagation is Some {
                    Err("bind propagation is only valid for bind mounts"@)
                } else {
                    Ok(wslc_volume(st, target))
                },
            }
        },
    }
}

/// The `-v` value for a mount, or the error that says why `-v` cannot express it.
pub open spec fn spec_mount_to_wslc_volume_arg(mount: Seq<char>) -> Result<Seq<char>, Seq<char>> {
    if trim(mount).len() == 0 || ends_with(trim_end(mount), ","@) {
        Err(wslc_error(mount, "contains an empty option"@))
    } else {
        match wslc_fold(spec_split_mount_options(mount), no_fields()) {
            Err(reason) => Err(wslc_error(mount, reason)),
            Ok(st) => match wslc_finish(st) {
                Err(reason) => Err(wslc_error(mount, reason)),
                Ok(v) => Ok(v),
            },
        }
    }
}

/// The shape of a `-v` value: where a mount can be written with `-v`, it is a
/// bind or a volume mount with a target that holds no `:` (and a bind names an
/// absolute source), and the value is the source and `:` (where one is named),
/// the target, then `:` and the options `ro`, consistency, propagation and
/// `nocopy`, in that order and joined by commas, where any is set.
pub proof fn law_wslc_volume_shape(mount: Seq<char>)
    ensures
        spec_mount_to_wslc_volume_arg(mount) is Ok ==> wslc_fold(spec_split_mount_options(mount), no_fields()) is Ok && {
            let st = wslc_fold(spec_split_mount_options(mount), no_fields())->Ok_0;
            let options = wslc_volume_options(st);
            &&& st.mount_type == Some("bind"@) || st.mount_type == Some("volume"@)
            &&& st.target is Some && !st.target->0.contains(':')
            &&& st.mount_type == Some("bind"@) ==> st.source is Some && spec_is_absolute_bind_source(st.source->0)
            &&& options == (if st.read_only == Some(true) { seq!["ro"@] } else { seq![] })
                + (match st.consistency { Some(c) => seq![c], None => seq![] })
                + (match st.propagation { Some(p) => seq![p], None => seq![] })
                + (if st.no_copy == Some(true) { seq!["nocopy"@] } else { seq![] })
            &&& spec_mount_to_wslc_volume_arg(mount)->Ok_0 == (match st.source { Some(s) => s + ":"@, None => seq![] })
                + st.target->0 + (if options.len() == 0 { seq![] } else { ":"@ + join(options, ","@) })
        },
{
    if spec_mount_to_wslc_volume_arg(mount) is Ok {
        let st = wslc_fold(spec_split_mount_options(mount), no_fields())->Ok_0;
        let t = st.target->0;
        let options = wslc_volume_options(st);
        let shaped = (match st.source { Some(s) => s + ":"@, None => Seq::<char>::empty() })
            + t + (if options.len() == 0 { Seq::<char>::empty() } else { ":"@ + join(options, ","@) });
        assert(wslc_volume(st, t) =~= shaped);
    }
}

fn push_text(parts: &mut Vec<Vec<char>>, text: &str)
    ensures
        views(final(parts)@) == views(old(parts)@).push(text@),
{
    let t = to_chars(text);
    proof {
        crate::text::lemma_views_push_pub(parts@, t);
    }
    parts.push(t);
}

fn wslc_volume_from_fields(fields: MountFields<String>, mount: &str) -> (r: Result<String, String>)
    ensures
        match wslc_finish(fields_view(fields)) {
            Ok(v) => r is Ok && r->Ok_0@ == v,
            Err(reason) => r is Err && r->Err_0@ == wslc_error(mount@, reason),
        },
{
    let ghost st = fields_view(fields);
    let MountFields { mount_type, source, target, read_only, consistency, propagation, no_copy } = fields;
    let mount_type = match mount_type {
        None => {
            return Err(wslc_mount_error(mount, "is missing the mount type"));
        },
        Some(t) => t,
    };
    let tc = to_chars(mount_type.as_str());
    let is_bind = is(&tc, "bind");
    let is_volume = is(&tc, "volume");
    if !is_bind && !is_volume {
        let reason = quoted_reason_exec("mount type ", mount_type.as_str(), " is not supported by -v");
        return Err(wslc_mount_error(mount, reason.as_str()));
    }
    let target = match target {
        None => {
            return Err(wslc_mount_error(mount, "is missing the target"));
        },
        Some(t) => t,
    };
    if has_char_chars(&to_chars(target.as_str()), ':') {
        return Err(wslc_mount_error(mount, "target paths containing ':' are ambiguous in -v syntax"));
    }
    let no_copy = match no_copy {
        Some(b) => b,
        None => false,
    };
    if is_bind {
        match source.as_ref() {
            None => {
                return Err(wslc_mount_error(mount, "bind mounts require a source"));
            },
            Some(s) => {
                if !is_absolute_bind_source(s.as_str()) || !has_representable_bind_source_colons(s.as_str()) {
                    return Err(wslc_mount_error(mount, "bind mount sources must be unambiguous absolute paths for -v"));
                }
            },
        }
        if no_copy {
            return Err(wslc_mount_error(mount, "volume-nocopy is only valid for volume mounts"));
        }
    } else {
        match source.as_ref() {
            Some(s) => {
                let sc = to_chars(s.as_str());
                if has_char_chars(&sc, '/') || has_char_chars(&sc, '\\') || has_char_chars(&sc, ':') {
                    return Err(wslc_mount_error(mount, "volume sources that look like paths would become bind mounts with -v"));
                }
            },
            None => {},
        }
        if propagation.is_some() {
            return Err(wslc_mount_error(mount, "bind propagation is only valid for bind mounts"));
        }
    }
    let mut options: Vec<Vec<char>> = Vec::new();
    let ghost o0 = views(options@);
    if read_only == Some(true) {
        push_text(&mut options, "ro");
    }
    let ghost o1 = views(options@);
    match consistency.as_ref() {
        Some(c) => push_text(&mut options, c.as_str()),
        None => {},
    }
    let ghost o2 = views(options@);
    match propagation.as_ref() {
        Some(p) => push_text(&mut options, p.as_str()),
        None => {},
    }
    let ghost o3 = views(options@);
    if no_copy {
        push_text(&mut options, "nocopy");
    }
    assert(views(options@) =~= wslc_volume_options(st));
    let mut volume: Vec<char> = match source.as_ref() {
        Some(s) => {
            let mut v = to_chars(s.as_str());
            push_str(&mut v, ":");
            push_str(&mut v, target.as_str());
            v
        },
        None => to_chars(target.as_str()),
    };
    if options.len() > 0 {
        push_str(&mut volume, ":");
        let joined = join_chars(&options, ",");
        push_all(&mut volume, &joined);
    }
    Ok(from_chars(&volume))
}

fn mount_to_wslc_volume_arg(mount: &str) -> (r: Result<String, String>)
    ensures
        match spec_mount_to_wslc_volume_arg(mount@) {
            Ok(v) => r is Ok && r->Ok_0@ == v,
            Err(e) => r is Err && r->Err_0@ == e,
        },
{
    let m = to_chars(mount);
    let trimmed = trim_chars(&m);
    let trimmed_end = trim_end_chars(&m);
    proof {
        reveal_strlit(",");
        assert(","@ =~= seq![',']);
        if trimmed_end.len() > 0 {
            assert(trimmed_end@.skip(trimmed_end.len() - 1) =~= seq![trimmed_end@[trimmed_end.len() - 1]]);
            assert(trimmed_end@.skip(trimmed_end.len() - 1)[0] == trimmed_end@[trimmed_end.len() - 1]);
        }
    }
    if trimmed.len() == 0 || (trimmed_end.len() > 0 && trimmed_end[trimmed_end.len() - 1] == ',') {
        return Err(wslc_mount_error(mount, "contains an empty option"));
    }
    let options = split_mount_options(mount);
    let ghost ov = str_views(options@);
    let mut fields = MountFields::<String> {
        mount_type: None,
        source: None,
        target: None,
        read_only: None,
        consistency: None,
        propagation: None,
        no_copy: None,
    };
    let mut k: usize = 0;
    assert(ov.skip(0) =~= ov);
    while k < options.len()
        invariant
            k <= options.len(),
            ov == str_views(options@),
            ov == spec_split_mount_options(mount@),
            !(trim(mount@).len() == 0 || ends_with(trim_end(mount@), ","@)),
            wslc_fold(ov, no_fields()) == wslc_fold(ov.skip(k as int), fields_view(fields)),
        decreases options.len() - k,
    {
        assert(ov.skip(k as int).drop_first() =~= ov.skip(k + 1));
        assert(ov.skip(k as int)[0] == options@[k as int]@);
        match wslc_apply_option(fields, options[k].as_str(), mount) {
            Err(e) => {
                return Err(e);
            },
            Ok(f) => {
                fields = f;
            },
        }
        k = k + 1;
    }
    assert(ov.skip(k as int) =~= Seq::<Seq<char>>::empty());
    wslc_volume_from_fields(fields, mount)
}

/// The engine arguments for a mount: `--mount <mount>`, or for WSLc `-v` and the
/// value that `-v` takes.
pub open spec fn spec_mount_args_for_engine(mount: Seq<char>, is_wslc: bool) -> Result<Seq<Seq<char>>, Seq<char>> {
    if !is_wslc {
        Ok(seq!["--mount"@, mount])
    } else {
        match spec_mount_to_wslc_volume_arg(mount) {
            Ok(v) => Ok(seq!["-v"@, v]),
            Err(e) => Err(e),
        }
    }
}

pub fn mount_args_for_engine(mount: &str, is_wslc: bool) -> (r: Result<Vec<String>, String>)
    ensures
        match spec_mount_args_for_engine(mount@, is_wslc) {
            Ok(args) => r is Ok && str_views(r->Ok_0@) == args,
            Err(e) => r is Err && r->Err_0@ == e,
        },
{
    let mut args: Vec<String> = Vec::new();
    if !is_wslc {
        args.push(from_chars(&to_chars("--mount")));
        args.push(from_chars(&to_chars(mount)));
        assert(str_views(args@) =~= seq!["--mount"@, mount@]);
        return Ok(args);
    }
    match mount_to_wslc_volume_arg(mount) {
        Err(e) => Err(e),
        Ok(v) => {
            args.push(from_chars(&to_chars("-v")));
            args.push(v);
            assert(str_views(args@) =~= seq!["-v"@, args@[1]@]);
            Ok(args)
        },
    }
}


/// The text a mount option takes from a JSON scalar: `true`/`false`, the
/// number as written, or the string; other values give none.
pub open spec fn spec_mount_option_value(v: JsonView) -> Option<Seq<char>> {
    match v {
        JsonView::Bool(b) => Some(if b { "true"@ } else { "false"@ }),
        JsonView::Number(n) => Some(n),
        JsonView::Str(s) => Some(s),
        _ => None,
    }
}

pub fn mount_option_value(value: &JsonValue) -> (r: Option<String>)
    ensures
        opt_str(r) == spec_mount_option_value(value@),
{
    match value {
        JsonValue::Bool(b) => Some(from_chars(&to_chars(if *b { "true" } else { "false" }))),
        JsonValue::Number(n) => Some(from_chars(&to_chars(n.as_str()))),
        JsonValue::String(t) => Some(from_chars(&to_chars(t.as_str()))),
        _ => None,
    }
}

/// The member under the first of the keys that the object has.
pub open spec fn first_present(entries: Seq<(Seq<char>, JsonView)>, keys: Seq<Seq<char>>) -> Option<JsonView>
    decreases keys.len(),
{
    if keys.len() == 0 {
        None
    } else {
        match entry_value(entries, keys[0]) {
            Some(v) => Some(v),
            None => first_present(entries, keys.drop_first()),
        }
    }
}

/// `prefix` and the scalar's text, when the member is a scalar.
pub open spec fn scalar_option(prefix: Seq<char>, member: Option<JsonView>) -> Seq<Seq<char>> {
    match member {
        Some(v) => match spec_mount_option_value(v) {
            Some(t) => seq![prefix + t],
            None => seq![],
        },
        None => seq![],
    }
}

/// The keys a mount object names by their own options.
pub open spec fn is_reserved_mount_key(key: Seq<char>) -> bool {
    key == "type"@ || key == "source"@ || key == "src"@ || key == "target"@ || key == "destination"@
        || key == "dst"@ || key == "readonly"@ || key == "readOnly"@
}

/// `key=value` for each other entry whose value is a scalar, in order.
pub open spec fn extra_mount_options(entries: Seq<(Seq<char>, JsonView)>) -> Seq<Seq<char>>
    decreases entries.len(),
{
    if entries.len() == 0 {
        seq![]
    } else {
        let (key, value) = entries.last();
        extra_mount_options(entries.drop_last()) + if is_reserved_mount_key(key) {
            seq![]
        } else {
            scalar_option(key + "="@, Some(value))
        }
    }
}

/// The options of a mount object: its type, source (`source` or `src`), target
/// (`target`, `destination` or `dst`), `readonly` when `readonly` or
/// `readOnly` is true, then every other scalar entry.
pub open spec fn mount_object_options(entries: Seq<(Seq<char>, JsonView)>) -> Seq<Seq<char>> {
    scalar_option("type="@, entry_value(entries, "type"@)) + scalar_option(
        "source="@,
        first_present(entries, seq!["source"@, "src"@]),
    ) + scalar_option("target="@, first_present(entries, seq!["target"@, "destination"@, "dst"@])) + (if match first_present(
        entries,
        seq!["readonly"@, "readOnly"@],
    ) {
        Some(v) => json_bool(v) == Some(true),
        None => false,
    } {
        seq!["readonly"@]
    } else {
        seq![]
    }) + extra_mount_options(entries)
}

/// A mount object as a `--mount` value: its options joined by commas; none
/// without options.
pub open spec fn spec_mount_object_to_engine_arg(entries: Seq<(Seq<char>, JsonView)>) -> Option<Seq<char>> {
    let options = mount_object_options(entries);
    if options.len() == 0 {
        None
    } else {
        Some(join(options, ","@))
    }
}

fn object_member<'a>(entries: &'a Vec<(String, JsonValue)>, key: &str) -> (r: Option<&'a JsonValue>)
    ensures
        match r {
            Some(m) => entry_value(entries_view(entries@), key@) == Some(m@),
            None => entry_value(entries_view(entries@), key@) is None,
        },
{
    proof {
        lemma_entries_view(entries@);
    }
    let ghost ev = entries_view(entries@);
    let mut k: usize = 0;
    assert(ev.skip(0) =~= ev);
    while k < entries.len()
        invariant
            k <= entries.len(),
            ev == entries_view(entries@),
            ev.len() == entries@.len(),
            forall|i: int| 0 <= i < entries@.len() ==> #[trigger] ev[i] == (entries@[i].0@, json_view(entries@[i].1)),
            entry_value(ev, key@) == entry_value(ev.skip(k as int), key@),
        decreases entries.len() - k,
    {
        assert(ev.skip(k as int).drop_first() =~= ev.skip(k + 1));
        assert(ev.skip(k as int)[0] == ev[k as int]);
        if str_eq(entries[k].0.as_str(), key) {
            return Some(&entries[k].1);
        }
        k = k + 1;
    }
    None
}

fn push_scalar_option(options: &mut Vec<Vec<char>>, prefix: &str, member: Option<&JsonValue>)
    ensures
        views(final(options)@) == views(old(options)@) + scalar_option(
            prefix@,
            match member {
                Some(m) => Some(m@),
                None => None,
            },
        ),
{
    match member {
        Some(m) => match mount_option_value(m) {
            Some(t) => {
                let mut o = to_chars(prefix);
                push_str(&mut o, t.as_str());
                proof {
                    crate::text::lemma_views_push_pub(options@, o);
                }
                options.push(o);
            },
            None => {
                assert(views(options@) + Seq::<Seq<char>>::empty() =~= views(options@));
            },
        },
        None => {
            assert(views(options@) + Seq::<Seq<char>>::empty() =~= views(options@));
        },
    }
}

pub fn mount_object_to_engine_arg(entries: &Vec<(String, JsonValue)>) -> (r: Option<String>)
    ensures
        opt_str(r) == spec_mount_object_to_engine_arg(entries_view(entries@)),
{
    let ghost ev = entries_view(entries@);
    proof {
        lemma_entries_view(entries@);
    }
    let mut options: Vec<Vec<char>> = Vec::new();
    push_scalar_option(&mut options, "type=", object_member(entries, "type"));
    let source = match object_member(entries, "source") {
        Some(m) => Some(m),
        None => object_member(entries, "src"),
    };
    assert(seq!["source"@, "src"@].drop_first() =~= seq!["src"@]);
    assert(seq!["src"@].drop_first() =~= Seq::<Seq<char>>::empty());
    assert(first_present(ev, seq!["src"@]) == entry_value(ev, "src"@)) by {
        reveal_with_fuel(first_present, 2);
    }
    assert(first_present(ev, seq!["source"@, "src"@]) == match source {
        Some(m) => Some(m@),
        None => None::<JsonView>,
    });
    let ghost o0 = views(options@);
    push_scalar_option(&mut options, "source=", source);
    let target = match object_member(entries, "target") {
        Some(m) => Some(m),
        None => match object_member(entries, "destination") {
            Some(m) => Some(m),
            None => object_member(entries, "dst"),
        },
    };
    assert(seq!["target"@, "destination"@, "dst"@].drop_first() =~= seq!["destination"@, "dst"@]);
    assert(seq!["destination"@, "dst"@].drop_first() =~= seq!["dst"@]);
    assert(seq!["dst"@].drop_first() =~= Seq::<Seq<char>>::empty());
    assert(first_present(ev, seq!["dst"@]) == entry_value(ev, "dst"@)) by {
        reveal_with_fuel(first_present, 2);
    }
    assert(first_present(ev, seq!["destination"@, "dst"@]) == match entry_value(ev, "destination"@) {
        Some(v) => Some(v),
        None => entry_value(ev, "dst"@),
    });
    assert(first_present(ev, seq!["target"@, "destination"@, "dst"@]) == match target {
        Some(m) => Some(m@),
        None => None::<JsonView>,
    });
    let ghost o1 = views(options@);
    push_scalar_option(&mut options, "target=", target);
    let ghost o2 = views(options@);
    let read_only_member = match object_member(entries, "readonly") {
        Some(m) => Some(m),
        None => object_member(entries, "readOnly"),
    };
    assert(seq!["readonly"@, "readOnly"@].drop_first() =~= seq!["readOnly"@]);
    assert(seq!["readOnly"@].drop_first() =~= Seq::<Seq<char>>::empty());
    let read_only = match read_only_member {
        Some(m) => m.as_bool() == Some(true),
        None => false,
    };
    assert(first_present(ev, seq!["readOnly"@]) == entry_value(ev, "readOnly"@)) by {
        reveal_with_fuel(first_present, 2);
    }
    assert(first_present(ev, seq!["readonly"@, "readOnly"@]) == match read_only_member {
        Some(m) => Some(m@),
        None => None::<JsonView>,
    });
    let ghost before_ro = views(options@);
    if read_only {
        let o = to_chars("readonly");
        proof {
            crate::text::lemma_views_push_pub(options@, o);
        }
        options.push(o);
    }
    let ghost head = views(options@);
    let mut k: usize = 0;
    assert(ev.take(0) =~= Seq::<(Seq<char>, JsonView)>::empty());
    assert(head + extra_mount_options(ev.take(0)) =~= head);
    while k < entries.len()
        invariant
            k <= entries.len(),
            ev == entries_view(entries@),
            ev.len() == entries@.len(),
            forall|i: int| 0 <= i < entries@.len() ==> #[trigger] ev[i] == (entries@[i].0@, json_view(entries@[i].1)),
            views(options@) == head + extra_mount_options(ev.take(k as int)),
        decreases entries.len() - k,
    {
        assert(ev.take(k + 1).drop_last() =~= ev.take(k as int));
        assert(ev.take(k + 1).last() == ev[k as int]);
        let key = entries[k].0.as_str();
        let reserved = str_eq(key, "type") || str_eq(key, "source") || str_eq(key, "src") || str_eq(key, "target")
            || str_eq(key, "destination") || str_eq(key, "dst") || str_eq(key, "readonly") || str_eq(key, "readOnly");
        if reserved {
            assert(head + extra_mount_options(ev.take(k + 1)) =~= head + extra_mount_options(ev.take(k as int)));
        } else {
            let mut prefix = to_chars(key);
            push_str(&mut prefix, "=");
            let ps = from_chars(&prefix);
            let ghost before = views(options@);
            push_scalar_option(&mut options, ps.as_str(), Some(&entries[k].1));
            assert(head + extra_mount_options(ev.take(k + 1)) =~= head + extra_mount_options(ev.take(k as int))
                + scalar_option(ps@, Some(json_view(entries@[k as int].1))));
        }
        k = k + 1;
    }
    assert(ev.take(k as int) =~= ev);
    assert(views(options@) =~= mount_object_options(ev));
    if options.len() == 0 {
        return None;
    }
    let joined = join_chars(&options, ",");
    Some(from_chars(&joined))
}

/// A configured mount as a `--mount` value: a string as it is, an object by its
/// options; other values give none.
pub open spec fn spec_mount_value_to_engine_arg(value: JsonView) -> Option<Seq<char>> {
    match value {
        JsonView::Str(s) => Some(s),
        JsonView::Object(entries) => spec_mount_object_to_engine_arg(entries),
        _ => None,
    }
}

pub fn mount_value_to_engine_arg(value: &JsonValue) -> (r: Option<String>)
    ensures
        opt_str(r) == spec_mount_value_to_engine_arg(value@),
{
    match value {
        JsonValue::String(mount) => Some(from_chars(&to_chars(mount.as_str()))),
        JsonValue::Object(entries) => mount_object_to_engine_arg(entries),
        _ => None,
    }
}

} // verus!
