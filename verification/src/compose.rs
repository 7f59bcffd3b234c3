//! Compose projects: the arguments of `docker compose` calls, the build
//! options compose cannot honour, variable interpolation in compose values,
//! project and image names, and the words of a service command.

use vstd::prelude::*;
use crate::engine::{env_lookup, pair_views};
use crate::options::{
    bool_option, bool_option_from, has_flag, opt_str, option_value, option_values, spec_has_flag,
    spec_option_value, spec_option_values, str_eq,
};
use crate::text::{
    find_char, find_from, find_str, find_str_chars, from_chars, is_ascii_alnum, occurs_at, is_ascii_alpha, lemma_find_char,
    lemma_find_from_bound, lemma_trim_char_len, push_all, push_str, slice_of, split_once,
    split_once_chars, str_views, to_chars, trim_char, trim_char_chars,
};

verus! {

pub open spec fn is_compose_variable_start_spec(c: char) -> bool {
    c == '_' || is_ascii_alpha(c)
}

pub open spec fn is_compose_variable_continue_spec(c: char) -> bool {
    c == '_' || is_ascii_alnum(c)
}

pub fn is_compose_variable_start(c: char) -> (r: bool)
    ensures
        r == is_compose_variable_start_spec(c),
{
    c == '_' || ('a' <= c && c <= 'z') || ('A' <= c && c <= 'Z')
}

pub fn is_compose_variable_continue(c: char) -> (r: bool)
    ensures
        r == is_compose_variable_continue_spec(c),
{
    c == '_' || ('a' <= c && c <= 'z') || ('A' <= c && c <= 'Z') || ('0' <= c && c <= '9')
}

/// The number of leading characters that may continue a variable name.
pub open spec fn continue_run(s: Seq<char>) -> nat
    decreases s.len(),
{
    if s.len() > 0 && is_compose_variable_continue_spec(s[0]) {
        1 + continue_run(s.drop_first())
    } else {
        0
    }
}

pub proof fn lemma_continue_run_bound(s: Seq<char>)
    ensures
        continue_run(s) <= s.len(),
    decreases s.len(),
{
    if s.len() > 0 && is_compose_variable_continue_spec(s[0]) {
        lemma_continue_run_bound(s.drop_first());
    }
}

/// A value with surrounding double quotes, then single quotes, removed and
/// its variables interpolated from the environment.
pub open spec fn spec_substitute_compose_env(value: Seq<char>, environment: Seq<(Seq<char>, Seq<char>)>) -> Seq<char>
    decreases value.len(), 2nat,
{
    let trimmed = trim_char(trim_char(value, '"'), '\'');
    proof {
        lemma_trim_char_len(value, '"');
        lemma_trim_char_len(trim_char(value, '"'), '\'');
    }
    substitute_from(trimmed, environment)
}

/// Interpolation of `$$` (a `$`), `${expression}` and `$NAME`; a `$` that
/// starts neither stays, and so does a `${` without `}` and all after it.
pub open spec fn substitute_from(s: Seq<char>, environment: Seq<(Seq<char>, Seq<char>)>) -> Seq<char>
    decreases s.len(), 1nat,
{
    if s.len() == 0 {
        seq![]
    } else if s[0] != '$' {
        seq![s[0]] + substitute_from(s.drop_first(), environment)
    } else if s.len() > 1 && s[1] == '$' {
        seq!['$'] + substitute_from(s.skip(2), environment)
    } else if s.len() > 1 && s[1] == '{' {
        match find_char(s.skip(2), '}') {
            None => s,
            Some(k) => {
                proof {
                    lemma_find_char(s.skip(2), '}');
                }
                spec_expand_compose_variable(s.subrange(2, 2 + k as int), environment) + substitute_from(
                    s.skip(2 + k as int + 1),
                    environment,
                )
            },
        }
    } else if s.len() == 1 {
        seq!['$']
    } else if !is_compose_variable_start_spec(s[1]) {
        seq!['$'] + substitute_from(s.drop_first(), environment)
    } else {
        proof {
            lemma_continue_run_bound(s.skip(2));
        }
        let end = (2 + continue_run(s.skip(2))) as int;
        spec_expand_compose_variable(s.subrange(1, end), environment) + substitute_from(s.skip(end), environment)
    }
}

/// `NAME:-default` (the default, interpolated, when the variable is unset or
/// empty), `NAME-default` (when it is unset), or `NAME` (empty when unset).
pub open spec fn spec_expand_compose_variable(expression: Seq<char>, environment: Seq<(Seq<char>, Seq<char>)>) -> Seq<char>
    decreases expression.len(), 0nat,
{
    match find_str(expression, ":-"@) {
        Some(i) => {
            proof {
                reveal_strlit(":-");
                lemma_find_from_bound(expression, ":-"@, 0);
            }
            match env_lookup(environment, expression.take(i as int)) {
                Some(v) => if v.len() > 0 {
                    v
                } else {
                    spec_substitute_compose_env(expression.skip(i as int + 2), environment)
                },
                None => spec_substitute_compose_env(expression.skip(i as int + 2), environment),
            }
        },
        None => match find_char(expression, '-') {
            Some(i) => {
                proof {
                    lemma_find_char(expression, '-');
                }
                match env_lookup(environment, expression.take(i as int)) {
                    Some(v) => v,
                    None => spec_substitute_compose_env(expression.skip(i as int + 1), environment),
                }
            },
            None => match env_lookup(environment, expression) {
                Some(v) => v,
                None => seq![],
            },
        },
    }
}

fn lookup_env(environment: &Vec<(String, String)>, name: &Vec<char>) -> (r: Option<Vec<char>>)
    ensures
        match r {
            Some(v) => env_lookup(pair_views(environment@), name@) == Some(v@),
            None => env_lookup(pair_views(environment@), name@) is None,
        },
{
    let ghost ev = pair_views(environment@);
    let mut k: usize = 0;
    assert(ev.skip(0) =~= ev);
    while k < environment.len()
        invariant
            k <= environment.len(),
            ev == pair_views(environment@),
            env_lookup(ev, name@) == env_lookup(ev.skip(k as int), name@),
        decreases environment.len() - k,
    {
        assert(ev.skip(k as int).drop_first() =~= ev.skip(k + 1));
        assert(ev.skip(k as int)[0] == ev[k as int]);
        if crate::text::chars_eq(&to_chars(environment[k].0.as_str()), name) {
            return Some(to_chars(environment[k].1.as_str()));
        }
        k = k + 1;
    }
    None
}

pub fn substitute_compose_env_with(value: &str, environment: &Vec<(String, String)>) -> (r: String)
    ensures
        r@ == spec_substitute_compose_env(value@, pair_views(environment@)),
    decreases value@.len(), 2nat,
{
    let v = to_chars(value);
    let trimmed = trim_char_chars(&trim_char_chars(&v, '"'), '\'');
    proof {
        lemma_trim_char_len(value@, '"');
        lemma_trim_char_len(trim_char(value@, '"'), '\'');
    }
    let out = substitute_chars(&trimmed, environment);
    from_chars(&out)
}

fn substitute_chars(s: &Vec<char>, environment: &Vec<(String, String)>) -> (r: Vec<char>)
    ensures
        r@ == substitute_from(s@, pair_views(environment@)),
    decreases s@.len(), 1nat,
{
    let ghost env = pair_views(environment@);
    let mut output: Vec<char> = Vec::new();
    let mut index: usize = 0;
    assert(s@.skip(0) =~= s@);
    while index < s.len()
        invariant
            index <= s.len(),
            env == pair_views(environment@),
            substitute_from(s@, env) == output@ + substitute_from(s@.skip(index as int), env),
        decreases s.len() - index,
    {
        let ghost rest = s@.skip(index as int);
        assert(rest[0] == s@[index as int]);
        if s[index] != '$' {
            assert(rest.drop_first() =~= s@.skip(index + 1));
            output.push(s[index]);
            index = index + 1;
            continue;
        }
        if index + 1 < s.len() && s[index + 1] == '$' {
            assert(rest[1] == s@[index + 1]);
            assert(rest.skip(2) =~= s@.skip(index + 2));
            output.push('$');
            index = index + 2;
            continue;
        }
        if index + 1 < s.len() && s[index + 1] == '{' {
            assert(rest[1] == s@[index + 1]);
            let mut end = index + 2;
            while end < s.len() && s[end] != '}'
                invariant
                    index + 2 <= end <= s.len(),
                    forall|t: int| index + 2 <= t < end ==> s@[t] != '}',
                decreases s.len() - end,
            {
                end = end + 1;
            }
            proof {
                crate::text::lemma_find_char_is(rest.skip(2), '}', if end < s.len() { Some((end - index - 2) as nat) } else { None });
            }
            if end == s.len() {
                let tail = slice_of(s, index, s.len());
                assert(tail@ =~= rest);
                push_all(&mut output, &tail);
                assert(s@.skip(s.len() as int) =~= Seq::<char>::empty());
                assert(output@ + substitute_from(s@.skip(s.len() as int), env) =~= output@);
                return output;
            }
            let expression = slice_of(s, index + 2, end);
            assert(expression@ =~= rest.subrange(2, 2 + (end - index - 2)));
            let expanded = expand_compose_variable(from_chars(&expression).as_str(), environment);
            push_all(&mut output, &to_chars(expanded.as_str()));
            assert(rest.skip(2 + (end - index - 2) + 1) =~= s@.skip(end + 1));
            index = end + 1;
            continue;
        }
        if index + 1 == s.len() {
            output.push('$');
            assert(s@.skip(s.len() as int) =~= Seq::<char>::empty());
            assert(output@ + substitute_from(s@.skip(s.len() as int), env) =~= output@);
            return output;
        }
        assert(rest[1] == s@[index + 1]);
        if !is_compose_variable_start(s[index + 1]) {
            assert(rest.drop_first() =~= s@.skip(index + 1));
            output.push('$');
            index = index + 1;
            continue;
        }
        let mut end = index + 2;
        while end < s.len() && is_compose_variable_continue(s[end])
            invariant
                index + 2 <= end <= s.len(),
                continue_run(s@.skip(index + 2)) == (end - index - 2) + continue_run(s@.skip(end as int)),
            decreases s.len() - end,
        {
            assert(s@.skip(end as int).drop_first() =~= s@.skip(end + 1));
            end = end + 1;
        }
        proof {
            if end < s.len() {
                assert(s@.skip(end as int)[0] == s@[end as int]);
            }
            assert(rest.skip(2) =~= s@.skip(index + 2));
        }
        let name = slice_of(s, index + 1, end);
        assert(name@ =~= rest.subrange(1, (end - index) as int));
        let expanded = expand_compose_variable(from_chars(&name).as_str(), environment);
        push_all(&mut output, &to_chars(expanded.as_str()));
        assert(rest.skip((end - index) as int) =~= s@.skip(end as int));
        index = end;
    }
    assert(s@.skip(index as int) =~= Seq::<char>::empty());
    assert(output@ + substitute_from(s@.skip(index as int), env) =~= output@);
    output
}

pub fn expand_compose_variable(expression: &str, environment: &Vec<(String, String)>) -> (r: String)
    ensures
        r@ == spec_expand_compose_variable(expression@, pair_views(environment@)),
    decreases expression@.len(), 0nat,
{
    let e = to_chars(expression);
    let pattern = to_chars(":-");
    proof {
        reveal_strlit(":-");
    }
    match find_str_chars(&e, &pattern) {
        Some(i) => {
            proof {
                lemma_find_from_bound(expression@, ":-"@, 0);
            }
            let name = slice_of(&e, 0, i);
            assert(name@ =~= expression@.take(i as int));
            let default = slice_of(&e, i + 2, e.len());
            assert(default@ =~= expression@.skip(i + 2));
            match lookup_env(environment, &name) {
                Some(v) => {
                    if v.len() > 0 {
                        return from_chars(&v);
                    }
                    substitute_compose_env_with(from_chars(&default).as_str(), environment)
                },
                None => substitute_compose_env_with(from_chars(&default).as_str(), environment),
            }
        },
        None => match split_once_chars(&e, '-') {
            Some((name, default)) => {
                proof {
                    lemma_find_char(expression@, '-');
                }
                match lookup_env(environment, &name) {
                    Some(v) => from_chars(&v),
                    None => substitute_compose_env_with(from_chars(&default).as_str(), environment),
                }
            },
            None => match lookup_env(environment, &e) {
                Some(v) => from_chars(&v),
                None => from_chars(&Vec::new()),
            },
        },
    }
}


/// The characters `char::to_lowercase` yields for a character: its Unicode
/// lowercase mapping.
pub uninterp spec fn lowercase_mapping(c: char) -> Seq<char>;

/// Wraps `char::to_lowercase`. Trusted: the characters it yields are
/// `lowercase_mapping(c)`, one or more of them, as its documentation says; a
/// character without a lowercase mapping (such as an ASCII lower-case letter,
/// digit, `-` or `_`) is yielded as it is, and an ASCII capital as its small
/// letter. Nothing else is stated of the mapping.
#[verifier::external_body]
fn char_to_lowercase(c: char) -> (r: Vec<char>)
    ensures
        r@ == lowercase_mapping(c),
        r@.len() >= 1,
        is_project_name_char(c) ==> r@ == seq![c],
        'A' <= c <= 'Z' ==> r@ == seq![ascii_small_letter(c)],
{
    c.to_lowercase().collect()
}

/// The small letter of an ASCII capital.
pub open spec fn ascii_small_letter(c: char) -> char {
    seq!['a', 'b', 'c', 'd', 'e', 'f', 'g', 'h', 'i', 'j', 'k', 'l', 'm', 'n', 'o', 'p', 'q', 'r', 's', 't', 'u', 'v', 'w', 'x', 'y', 'z'][(c as u32) - 65]
}

/// The characters a project name keeps: ASCII lower-case letters, digits, `-` and `_`.
pub open spec fn is_project_name_char(c: char) -> bool {
    ('a' <= c <= 'z') || crate::text::is_ascii_digit(c) || c == '-' || c == '_'
}

/// A project name: the value lower-cased (by Unicode's mapping), keeping only
/// the characters a project name may have.
pub open spec fn spec_sanitize_project_name(value: Seq<char>) -> Seq<char> {
    crate::user_resolution::flat_map(value, |c: char| lowercase_mapping(c)).filter(|c: char| is_project_name_char(c))
}

pub fn sanitize_project_name(value: &str) -> (r: String)
    ensures
        r@ == spec_sanitize_project_name(value@),
        forall|i: int| 0 <= i < r@.len() ==> is_project_name_char(#[trigger] r@[i]),
        (forall|i: int| 0 <= i < value@.len() ==> is_project_name_char(#[trigger] value@[i])) ==> r@ == value@,
{
    let lowered = lowercase_chars(&to_chars(value));
    let mut out: Vec<char> = Vec::new();
    let mut j: usize = 0;
    assert(lowered@.take(0).filter(|c: char| is_project_name_char(c)) =~= Seq::<char>::empty());
    while j < lowered.len()
        invariant
            j <= lowered.len(),
            out@ == lowered@.take(j as int).filter(|c: char| is_project_name_char(c)),
        decreases lowered.len() - j,
    {
        let c = lowered[j];
        assert(lowered@.take(j + 1).drop_last() =~= lowered@.take(j as int));
        assert(lowered@.take(j + 1).last() == c);
        proof {
            reveal(Seq::filter);
        }
        if ('a' <= c && c <= 'z') || ('0' <= c && c <= '9') || c == '-' || c == '_' {
            out.push(c);
        }
        j = j + 1;
    }
    assert(lowered@.take(j as int) =~= lowered@);
    proof {
        broadcast use vstd::seq_lib::group_filter_ensures;
        if forall|i: int| 0 <= i < value@.len() ==> is_project_name_char(#[trigger] value@[i]) {
            assert(lowered@ == value@);
            lemma_filter_keeps_all(lowered@);
        }
    }
    from_chars(&out)
}

/// The leading `major.minor.patch` of a version (after any `v`s): the digits
/// and dots before anything else; a missing minor or patch counts as 0, and
/// any part that is not a number (or too large) gives none.
pub open spec fn spec_parse_semver_prefix(value: Seq<char>) -> Option<(u64, u64, u64)> {
    let normalized = crate::text::trim_start_char(value, 'v');
    let version = normalized.take(
        crate::text::first_where(normalized, |c: char| !(crate::text::is_ascii_digit(c) || c == '.')) as int,
    );
    if version.len() == 0 {
        None
    } else {
        let parts = crate::text::split(version, '.');
        let major = crate::text::parse_u64(parts[0]);
        let minor = if parts.len() > 1 {
            crate::text::parse_u64(parts[1])
        } else {
            Some(0u64)
        };
        let patch = if parts.len() > 2 {
            crate::text::parse_u64(parts[2])
        } else {
            Some(0u64)
        };
        match (major, minor, patch) {
            (Some(a), Some(b), Some(c)) => Some((a, b, c)),
            _ => None,
        }
    }
}

pub fn parse_semver_prefix(value: &str) -> (r: Option<(u64, u64, u64)>)
    ensures
        r == spec_parse_semver_prefix(value@),
{
    let normalized = crate::text::trim_start_char_chars(&to_chars(value), 'v');
    let mut i: usize = 0;
    while i < normalized.len() && (('0' <= normalized[i] && normalized[i] <= '9') || normalized[i] == '.')
        invariant
            i <= normalized.len(),
            forall|j: int| 0 <= j < i ==> (crate::text::is_ascii_digit(#[trigger] normalized@[j]) || normalized@[j] == '.'),
        decreases normalized.len() - i,
    {
        i = i + 1;
    }
    proof {
        crate::text::lemma_first_where_is(normalized@, |c: char| !(crate::text::is_ascii_digit(c) || c == '.'), i as nat);
    }
    let version = slice_of(&normalized, 0, i);
    assert(version@ =~= normalized@.take(i as int));
    if version.len() == 0 {
        return None;
    }
    let parts = crate::text::split_chars(&version, '.');
    let ghost pv = crate::text::views(parts@);
    proof {
        crate::text::lemma_split_nonempty(version@, '.');
    }
    assert(pv.len() == parts@.len());
    assert(pv[0] == parts@[0]@);
    let major = crate::text::parse_u64_chars(&parts[0]);
    let minor = if parts.len() > 1 {
        assert(pv[1] == parts@[1]@);
        crate::text::parse_u64_chars(&parts[1])
    } else {
        Some(0u64)
    };
    let patch = if parts.len() > 2 {
        assert(pv[2] == parts@[2]@);
        crate::text::parse_u64_chars(&parts[2])
    } else {
        Some(0u64)
    };
    match (major, minor, patch) {
        (Some(a), Some(b), Some(c)) => Some((a, b, c)),
        _ => None,
    }
}

/// The separator compose puts between project and service in image names:
/// `_` for compose versions before 2.8.0, `-` otherwise and whenever the
/// version cannot be read.
pub open spec fn spec_image_name_separator(version_output: Option<(i32, Seq<char>)>) -> char {
    match version_output {
        Some((status, stdout)) => if status != 0 {
            '-'
        } else {
            match spec_parse_semver_prefix(crate::text::trim(stdout)) {
                Some((major, minor, _)) => if major < 2 || (major == 2 && minor < 8) {
                    '_'
                } else {
                    '-'
                },
                None => '-',
            }
        },
        None => '-',
    }
}

/// The image name separator of the compose CLI: `run_compose` runs
/// `version --short` with it; a failure to run means `-`.
pub fn compose_image_name_separator<F: FnOnce(Vec<String>) -> Result<crate::engine::ProcessResult, String>>(run_compose: F) -> (r: char)
    requires
        forall|a: Vec<String>| call_requires(run_compose, (a,)),
    ensures
        exists|a: Vec<String>, c: Result<crate::engine::ProcessResult, String>|
            str_views(a@) == seq!["version"@, "--short"@] && #[trigger] call_ensures(run_compose, (a,), c) && r
                == spec_image_name_separator(
                match c {
                    Ok(p) => Some((p.status_code, p.stdout@)),
                    Err(_) => None,
                },
            ),
{
    let mut compose_args: Vec<String> = Vec::new();
    compose_args.push(from_chars(&to_chars("version")));
    compose_args.push(from_chars(&to_chars("--short")));
    assert(str_views(compose_args@) =~= seq!["version"@, "--short"@]);
    let ghost a = compose_args;
    let c = run_compose(compose_args);
    let r = match &c {
        Err(_) => '-',
        Ok(result) => if result.status_code != 0 {
            '-'
        } else {
            let trimmed = from_chars(&crate::text::trim_chars(&to_chars(result.stdout.as_str())));
            match parse_semver_prefix(trimmed.as_str()) {
                Some((major, minor, _)) => if major < 2 || (major == 2 && minor < 8) {
                    '_'
                } else {
                    '-'
                },
                None => '-',
            }
        },
    };
    assert(call_ensures(run_compose, (a,), c));
    r
}


/// The words of a command line: split at unquoted whitespace; single quotes
/// keep everything literally; double quotes keep everything but let a
/// backslash take the next character; outside quotes a backslash takes the
/// next character too. An unterminated quote keeps its quote character in
/// front of the last word.
pub open spec fn shell_words_from(s: Seq<char>, words: Seq<Seq<char>>, current: Seq<char>, quote: Option<char>) -> Seq<Seq<char>>
    decreases s.len(),
{
    if s.len() == 0 {
        let last = match quote {
            Some(q) => seq![q] + current,
            None => current,
        };
        if last.len() > 0 {
            words.push(last)
        } else {
            words
        }
    } else {
        let c = s[0];
        let rest = s.drop_first();
        if quote == Some('\'') {
            if c == '\'' {
                shell_words_from(rest, words, current, None)
            } else {
                shell_words_from(rest, words, current.push(c), quote)
            }
        } else if quote == Some('"') {
            if c == '"' {
                shell_words_from(rest, words, current, None)
            } else if c == '\\' {
                if rest.len() > 0 {
                    shell_words_from(rest.drop_first(), words, current.push(rest[0]), quote)
                } else {
                    shell_words_from(rest, words, current, quote)
                }
            } else {
                shell_words_from(rest, words, current.push(c), quote)
            }
        } else if crate::text::is_ws(c) {
            if current.len() > 0 {
                shell_words_from(rest, words.push(current), seq![], quote)
            } else {
                shell_words_from(rest, words, current, quote)
            }
        } else if c == '\'' || c == '"' {
            shell_words_from(rest, words, current, Some(c))
        } else if c == '\\' {
            if rest.len() > 0 {
                shell_words_from(rest.drop_first(), words, current.push(rest[0]), quote)
            } else {
                shell_words_from(rest, words, current, quote)
            }
        } else {
            shell_words_from(rest, words, current.push(c), quote)
        }
    }
}

pub open spec fn spec_split_shell_words(value: Seq<char>) -> Seq<Seq<char>> {
    shell_words_from(value, seq![], seq![], None)
}

pub fn split_shell_words(value: &str) -> (r: Vec<String>)
    ensures
        str_views(r@) == spec_split_shell_words(value@),
{
    let s = to_chars(value);
    let mut words: Vec<String> = Vec::new();
    let mut current: Vec<char> = Vec::new();
    let mut quote: Option<char> = None;
    let mut i: usize = 0;
    assert(s@.skip(0) =~= s@);
    assert(str_views(words@) =~= Seq::<Seq<char>>::empty());
    while i < s.len()
        invariant
            i <= s.len(),
            s@ == value@,
            quote is None || quote == Some('\'') || quote == Some('"'),
            spec_split_shell_words(value@) == shell_words_from(s@.skip(i as int), str_views(words@), current@, quote),
        decreases s.len() - i,
    {
        let ghost rest = s@.skip(i as int);
        assert(rest[0] == s@[i as int]);
        assert(rest.drop_first() =~= s@.skip(i + 1));
        let c = s[i];
        if quote == Some('\'') {
            if c == '\'' {
                quote = None;
            } else {
                current.push(c);
            }
            i = i + 1;
        } else if quote == Some('"') {
            if c == '"' {
                quote = None;
                i = i + 1;
            } else if c == '\\' {
                if i + 1 < s.len() {
                    assert(rest.drop_first()[0] == s@[i + 1]);
                    assert(rest.drop_first().drop_first() =~= s@.skip(i + 2));
                    current.push(s[i + 1]);
                    i = i + 2;
                } else {
                    i = i + 1;
                }
            } else {
                current.push(c);
                i = i + 1;
            }
        } else if crate::text::is_whitespace(c) {
            if current.len() > 0 {
                let w = from_chars(&current);
                assert(str_views(words@.push(w)) =~= str_views(words@).push(current@));
                words.push(w);
                current = Vec::new();
                assert(current@ =~= Seq::<char>::empty());
            }
            i = i + 1;
        } else if c == '\'' || c == '"' {
            quote = Some(c);
            i = i + 1;
        } else if c == '\\' {
            if i + 1 < s.len() {
                assert(rest.drop_first()[0] == s@[i + 1]);
                assert(rest.drop_first().drop_first() =~= s@.skip(i + 2));
                current.push(s[i + 1]);
                i = i + 2;
            } else {
                i = i + 1;
            }
        } else {
            current.push(c);
            i = i + 1;
        }
    }
    assert(s@.skip(i as int) =~= Seq::<char>::empty());
    let last = match quote {
        Some(q) => {
            let mut l: Vec<char> = Vec::new();
            l.push(q);
            push_all(&mut l, &current);
            l
        },
        None => current,
    };
    if last.len() > 0 {
        let w = from_chars(&last);
        assert(str_views(words@.push(w)) =~= str_views(words@).push(last@));
        words.push(w);
    }
    words
}

/// What the library knows of a compose service: its compose files, name,
/// image and user when set, whether it builds, and the project's name.
pub struct ComposeSpec {
    pub files: Vec<String>,
    pub service: String,
    pub image: Option<String>,
    pub has_build: bool,
    pub user: Option<String>,
    pub project_name: String,
}

/// `-f <file>` for each file, in order.
pub open spec fn file_args(files: Seq<Seq<char>>) -> Seq<Seq<char>>
    decreases files.len(),
{
    if files.len() == 0 {
        seq![]
    } else {
        file_args(files.drop_last()) + seq!["-f"@, files.last()]
    }
}

/// The arguments of a compose call: the project name, each compose file, the
/// override file when there is one, the subcommand and its arguments.
pub open spec fn spec_compose_args_owned(
    project_name: Seq<char>,
    files: Seq<Seq<char>>,
    subcommand: Seq<char>,
    override_file: Option<Seq<char>>,
    tail: Seq<Seq<char>>,
) -> Seq<Seq<char>> {
    seq!["--project-name"@, project_name] + file_args(files) + (match override_file {
        Some(f) => seq!["-f"@, f],
        None => seq![],
    }) + seq![subcommand] + tail
}

fn push_arg(v: &mut Vec<String>, s: &str)
    ensures
        str_views(final(v)@) == str_views(old(v)@).push(s@),
{
    let x = from_chars(&to_chars(s));
    assert(str_views(v@.push(x)) =~= str_views(v@).push(x@));
    v.push(x);
}

pub fn compose_args_owned(spec: &ComposeSpec, subcommand: &str, override_file: Option<&str>, tail: Vec<String>) -> (r: Vec<String>)
    ensures
        str_views(r@) == spec_compose_args_owned(
            spec.project_name@,
            str_views(spec.files@),
            subcommand@,
            match override_file {
                Some(f) => Some(f@),
                None => None,
            },
            str_views(tail@),
        ),
{
    let ghost fv = str_views(spec.files@);
    let mut args: Vec<String> = Vec::new();
    push_arg(&mut args, "--project-name");
    push_arg(&mut args, spec.project_name.as_str());
    let ghost head = str_views(args@);
    let mut k: usize = 0;
    assert(fv.take(0) =~= Seq::<Seq<char>>::empty());
    assert(head + file_args(fv.take(0)) =~= head);
    while k < spec.files.len()
        invariant
            k <= spec.files.len(),
            fv == str_views(spec.files@),
            str_views(args@) == head + file_args(fv.take(k as int)),
        decreases spec.files.len() - k,
    {
        push_arg(&mut args, "-f");
        push_arg(&mut args, spec.files[k].as_str());
        assert(fv.take(k + 1).drop_last() =~= fv.take(k as int));
        assert(fv.take(k + 1).last() == spec.files@[k as int]@);
        assert(head + file_args(fv.take(k + 1)) =~= head + file_args(fv.take(k as int)) + seq!["-f"@, spec.files@[k as int]@]);
        k = k + 1;
    }
    assert(fv.take(k as int) =~= fv);
    match override_file {
        Some(f) => {
            push_arg(&mut args, "-f");
            push_arg(&mut args, f);
        },
        None => {},
    }
    push_arg(&mut args, subcommand);
    let ghost before_tail = str_views(args@);
    let mut rest = tail;
    let ghost tv = str_views(rest@);
    args.append(&mut rest);
    assert(str_views(args@) =~= before_tail + tv);
    args
}

/// The arguments with `-f <override file>` put just before the subcommand,
/// which stands before the last `tail_len` arguments.
pub open spec fn spec_insert_compose_override(args: Seq<Seq<char>>, tail_len: nat, override_file: Seq<char>) -> Seq<Seq<char>> {
    let at = args.len() - tail_len - 1;
    args.take(at) + seq!["-f"@, override_file] + args.skip(at)
}

pub fn insert_compose_override(args: &mut Vec<String>, tail_len: usize, override_file: &str)
    requires
        tail_len + 1 <= old(args).len(),
    ensures
        str_views(final(args)@) == spec_insert_compose_override(str_views(old(args)@), tail_len as nat, override_file@),
{
    let ghost av = str_views(args@);
    let at = args.len() - tail_len - 1;
    let mut out: Vec<String> = Vec::new();
    let mut k: usize = 0;
    while k < at
        invariant
            k <= at,
            at < args.len(),
            av == str_views(args@),
            str_views(out@) == av.take(k as int),
        decreases at - k,
    {
        let x = from_chars(&to_chars(args[k].as_str()));
        assert(str_views(out@.push(x)) =~= str_views(out@).push(x@));
        out.push(x);
        assert(av.take(k + 1) =~= av.take(k as int).push(av[k as int]));
        k = k + 1;
    }
    push_arg(&mut out, "-f");
    push_arg(&mut out, override_file);
    let ghost mid = str_views(out@);
    while k < args.len()
        invariant
            at <= k <= args.len(),
            av == str_views(args@),
            str_views(out@) == mid + av.subrange(at as int, k as int),
        decreases args.len() - k,
    {
        let x = from_chars(&to_chars(args[k].as_str()));
        assert(str_views(out@.push(x)) =~= str_views(out@).push(x@));
        out.push(x);
        assert(av.subrange(at as int, k + 1) =~= av.subrange(at as int, k as int).push(av[k as int]));
        k = k + 1;
    }
    assert(av.subrange(at as int, args.len() as int) =~= av.skip(at as int));
    *args = out;
}

/// Whether an option appears at all: as a flag, or with a value.
pub open spec fn spec_compose_build_option_is_present(args: Seq<Seq<char>>, flag: Seq<char>) -> bool {
    spec_has_flag(args, flag) || spec_option_value(args, flag) is Some || spec_option_values(args, flag).len() > 0
}

pub fn compose_build_option_is_present(args: &[String], flag: &str) -> (r: bool)
    ensures
        r == spec_compose_build_option_is_present(str_views(args@), flag@),
{
    has_flag(args, flag) || option_value(args, flag).is_some() || option_values(args, flag).len() > 0
}

/// The build options compose builds refuse, each with its error, in this order:
/// `--cache-to`; `--platform` or `--push`; `--output`; `--label`.
pub open spec fn spec_reject_unsupported_build_options(args: Seq<Seq<char>>) -> Result<(), Seq<char>> {
    if spec_compose_build_option_is_present(args, "--cache-to"@) {
        Err("--cache-to not supported for compose builds."@)
    } else if spec_compose_build_option_is_present(args, "--platform"@) || bool_option_from(args, "--push"@, 0, false) {
        Err("--platform or --push not supported."@)
    } else if spec_compose_build_option_is_present(args, "--output"@) {
        Err("--output not supported."@)
    } else if spec_compose_build_option_is_present(args, "--label"@) {
        Err("--label not supported for compose builds."@)
    } else {
        Ok(())
    }
}

pub fn reject_unsupported_build_options(args: &[String]) -> (r: Result<(), String>)
    ensures
        match r {
            Ok(()) => spec_reject_unsupported_build_options(str_views(args@)) is Ok,
            Err(e) => spec_reject_unsupported_build_options(str_views(args@)) == Err::<(), Seq<char>>(e@),
        },
{
    if compose_build_option_is_present(args, "--cache-to") {
        return Err(from_chars(&to_chars("--cache-to not supported for compose builds.")));
    }
    if compose_build_option_is_present(args, "--platform") || bool_option(args, "--push", false) {
        return Err(from_chars(&to_chars("--platform or --push not supported.")));
    }
    if compose_build_option_is_present(args, "--output") {
        return Err(from_chars(&to_chars("--output not supported.")));
    }
    if compose_build_option_is_present(args, "--label") {
        return Err(from_chars(&to_chars("--label not supported for compose builds.")));
    }
    Ok(())
}

/// `<project><separator><service>`, the image compose names a built service.
pub open spec fn spec_default_service_image_name(project_name: Seq<char>, separator: char, service: Seq<char>) -> Seq<char> {
    project_name + seq![separator] + service
}

/// The image compose builds a service into: `run_compose` runs the compose
/// CLI to learn its separator.
pub fn default_service_image_name<F: FnOnce(Vec<String>) -> Result<crate::engine::ProcessResult, String>>(spec: &ComposeSpec, run_compose: F) -> (r: String)
    requires
        forall|a: Vec<String>| call_requires(run_compose, (a,)),
    ensures
        exists|a: Vec<String>, c: Result<crate::engine::ProcessResult, String>|
            str_views(a@) == seq!["version"@, "--short"@] && #[trigger] call_ensures(run_compose, (a,), c) && r@
                == spec_default_service_image_name(
                spec.project_name@,
                spec_image_name_separator(
                    match c {
                        Ok(p) => Some((p.status_code, p.stdout@)),
                        Err(_) => None,
                    },
                ),
                spec.service@,
            ),
{
    let separator = compose_image_name_separator(run_compose);
    let mut m = to_chars(spec.project_name.as_str());
    m.push(separator);
    push_str(&mut m, spec.service.as_str());
    from_chars(&m)
}


/// The characters lower-cased by Unicode's mapping.
pub fn lowercase_chars(v: &Vec<char>) -> (r: Vec<char>)
    ensures
        r@ == crate::user_resolution::flat_map(v@, |c: char| lowercase_mapping(c)),
        (forall|i: int| 0 <= i < v@.len() ==> is_project_name_char(#[trigger] v@[i])) ==> r@ == v@,
{
    let mut lowered: Vec<char> = Vec::new();
    let mut i: usize = 0;
    while i < v.len()
        invariant
            i <= v.len(),
            lowered@ == crate::user_resolution::flat_map(v@.take(i as int), |c: char| lowercase_mapping(c)),
            (forall|k: int| 0 <= k < v@.len() ==> is_project_name_char(#[trigger] v@[k])) ==> lowered@ == v@.take(i as int),
        decreases v.len() - i,
    {
        let l = char_to_lowercase(v[i]);
        push_all(&mut lowered, &l);
        assert(v@.take(i + 1).drop_last() =~= v@.take(i as int));
        assert(v@.take(i + 1).last() == v@[i as int]);
        proof {
            if forall|k: int| 0 <= k < v@.len() ==> is_project_name_char(#[trigger] v@[k]) {
                assert(is_project_name_char(v@[i as int]));
                assert(v@.take(i + 1) =~= v@.take(i as int) + seq![v@[i as int]]);
            }
        }
        i = i + 1;
    }
    assert(v@.take(i as int) =~= v@);
    lowered
}


proof fn lemma_find_pair_after(s: Seq<char>, n: int, j: int)
    requires
        0 <= j <= n,
        n + 2 <= s.len(),
        s[n] == ':' && s[n + 1] == '-',
        forall|k: int| 0 <= k < n ==> s[k] != ':',
    ensures
        find_from(s, ":-"@, j) == Some(n as nat),
    decreases n - j,
{
    reveal_strlit(":-");
    if j < n {
        assert(s[j] != ':');
        if occurs_at(s, ":-"@, j) {
            assert(s.subrange(j, j + 2)[0] == s[j]);
        }
        lemma_find_pair_after(s, n, j + 1);
    } else {
        assert(s.subrange(n, n + 2) =~= ":-"@);
    }
}

proof fn lemma_find_pair_none(s: Seq<char>, j: int)
    requires
        0 <= j,
        forall|k: int| 0 <= k < s.len() ==> s[k] != ':',
    ensures
        find_from(s, ":-"@, j) is None,
    decreases s.len() + 1 - j,
{
    reveal_strlit(":-");
    if j + 2 <= s.len() {
        if occurs_at(s, ":-"@, j) {
            assert(s.subrange(j, j + 2)[0] == s[j]);
        }
        lemma_find_pair_none(s, j + 1);
    }
}

/// The defaults of a compose variable reference: with `:-` the default,
/// interpolated, stands in when the variable is unset or empty; with `-` only
/// when it is unset (an empty value is kept).
pub proof fn law_compose_variable_defaults(environment: Seq<(Seq<char>, Seq<char>)>, name: Seq<char>, default: Seq<char>)
    requires
        !name.contains(':'),
        !name.contains('-'),
    ensures
        spec_expand_compose_variable(name + ":-"@ + default, environment) == match env_lookup(environment, name) {
            Some(v) => if v.len() > 0 { v } else { spec_substitute_compose_env(default, environment) },
            None => spec_substitute_compose_env(default, environment),
        },
        !default.contains(':') ==> spec_expand_compose_variable(name + "-"@ + default, environment) == match env_lookup(environment, name) {
            Some(v) => v,
            None => spec_substitute_compose_env(default, environment),
        },
{
    reveal_strlit(":-");
    reveal_strlit("-");
    let n = name.len() as int;
    let s1 = name + ":-"@ + default;
    assert forall|k: int| 0 <= k < n implies s1[k] != ':' by {
        assert(s1[k] == name[k]);
        if name[k] == ':' {
            assert(name.contains(':'));
        }
    }
    assert(s1[n] == ':' && s1[n + 1] == '-');
    lemma_find_pair_after(s1, n, 0);
    assert(s1.take(n) =~= name);
    assert(s1.skip(n + 2) =~= default);
    if !default.contains(':') {
        let s2 = name + "-"@ + default;
        assert forall|k: int| 0 <= k < s2.len() implies s2[k] != ':' by {
            if k < n {
                assert(s2[k] == name[k]);
                if name[k] == ':' {
                    assert(name.contains(':'));
                }
            } else if k > n {
                assert(s2[k] == default[k - n - 1]);
                if default[k - n - 1] == ':' {
                    assert(default.contains(':'));
                }
            }
        }
        lemma_find_pair_none(s2, 0);
        assert forall|k: int| 0 <= k < n implies s2[k] != '-' by {
            assert(s2[k] == name[k]);
            if name[k] == '-' {
                assert(name.contains('-'));
            }
        }
        crate::text::lemma_find_char_is(s2, '-', Some(n as nat));
        assert(s2.take(n) =~= name);
        assert(s2.skip(n + 1) =~= default);
    }
}

/// Interpolation leaves a value without `$` as it is.
pub proof fn law_substitute_without_dollar_is_identity(s: Seq<char>, environment: Seq<(Seq<char>, Seq<char>)>)
    requires
        !s.contains('$'),
    ensures
        substitute_from(s, environment) == s,
    decreases s.len(),
{
    if s.len() > 0 {
        assert(s[0] != '$') by {
            assert(s.contains(s[0]));
        }
        assert forall|c: char| s.drop_first().contains(c) implies s.contains(c) by {
            let j = choose|j: int| 0 <= j < s.drop_first().len() && s.drop_first()[j] == c;
            assert(s[j + 1] == c);
        }
        law_substitute_without_dollar_is_identity(s.drop_first(), environment);
        assert(seq![s[0]] + s.drop_first() =~= s);
    }
}


/// Whether a configuration runs a compose service: it names compose files and
/// a service.
pub open spec fn spec_uses_compose_config(configuration: crate::json::JsonView) -> bool {
    crate::json::json_get(configuration, "dockerComposeFile"@) is Some && crate::json::get_str(configuration, "service"@) is Some
}

pub fn uses_compose_config(configuration: &crate::json::JsonValue) -> (r: bool)
    ensures
        r == spec_uses_compose_config(configuration@),
{
    configuration.get("dockerComposeFile").is_some() && crate::json::get_str_exec(configuration, "service").is_some()
}

/// Filtering text whose characters all pass keeps it whole.
proof fn lemma_filter_keeps_all(t: Seq<char>)
    requires
        forall|i: int| 0 <= i < t.len() ==> is_project_name_char(#[trigger] t[i]),
    ensures
        t.filter(|c: char| is_project_name_char(c)) == t,
    decreases t.len(),
{
    reveal(Seq::filter);
    if t.len() > 0 {
        assert(is_project_name_char(t[t.len() - 1]));
        assert forall|i: int| 0 <= i < t.drop_last().len() implies is_project_name_char(#[trigger] t.drop_last()[i]) by {
            assert(t.drop_last()[i] == t[i]);
        }
        lemma_filter_keeps_all(t.drop_last());
        assert(t.drop_last().push(t.last()) =~= t);
    } else {
        assert(t.filter(|c: char| is_project_name_char(c)) =~= t);
    }
}

} // verus!
