//! Image builds: the engine arguments of `build`, the `--cache-to` values that
//! already export an inline cache, and the names and quoting a build uses.

use vstd::prelude::*;
use crate::options::{
    bool_option, bool_option_from, has_flag, option_value, option_values, opt_str, spec_has_flag,
    spec_option_value, spec_option_values,
};
use crate::text::{
    eq_ignore_case, eq_ignore_case_chars, find_str, find_str_chars, from_chars, lead_ws,
    lemma_find_from_bound, lemma_lead_ws_bound, lower, lower_chars, path_file_name,
    path_file_name_chars, push_all, push_str, slice_of, str_views, to_chars, trim_start,
    trim_start_chars,
};

verus! {

/// The rest of a `--cache-to` value after each `type` (in any case) is looked
/// at in turn: `type`, optional spaces, `=`, optional spaces and `inline` (in any
/// case) make it an inline cache. Past a `type` without `=`, one more ASCII
/// character is skipped; a non-ASCII character there ends the search.
pub open spec fn cache_to_inline_from(value: Seq<char>) -> bool
    decreases value.len(),
{
    match find_str(lower(value), "type"@) {
        None => false,
        Some(i) => {
            proof {
                reveal_strlit("type");
                lemma_find_from_bound(lower(value), "type"@, 0);
            }
            let rest = value.skip(i as int + 4);
            let trimmed = trim_start(rest);
            proof {
                lemma_lead_ws_bound(rest);
            }
            if trimmed.len() > 0 && trimmed[0] == '=' {
                let target = trim_start(trimmed.skip(1));
                proof {
                    lemma_lead_ws_bound(trimmed.skip(1));
                }
                if target.len() >= 6 && eq_ignore_case(target.take(6), "inline"@) {
                    true
                } else {
                    cache_to_inline_from(target)
                }
            } else if trimmed.len() > 0 && (trimmed[0] as u32) < 128 {
                cache_to_inline_from(trimmed.skip(1))
            } else {
                cache_to_inline_from(seq![])
            }
        },
    }
}

pub open spec fn spec_is_buildx_cache_to_inline(buildx_cache_to: Option<Seq<char>>) -> bool {
    match buildx_cache_to {
        Some(v) => cache_to_inline_from(v),
        None => false,
    }
}

pub fn is_buildx_cache_to_inline(buildx_cache_to: Option<&str>) -> (r: bool)
    ensures
        r == spec_is_buildx_cache_to_inline(
            match buildx_cache_to {
                Some(v) => Some(v@),
                None => None,
            },
        ),
{
    let v = match buildx_cache_to {
        None => {
            return false;
        },
        Some(v) => v,
    };
    let pattern = to_chars("type");
    let inline = to_chars("inline");
    proof {
        reveal_strlit("type");
        reveal_strlit("inline");
    }
    let mut value = to_chars(v);
    loop
        invariant
            buildx_cache_to == Some(v),
            pattern@ == "type"@,
            inline@ == "inline"@,
            cache_to_inline_from(v@) == cache_to_inline_from(value@),
        decreases value.len(),
    {
        proof {
            reveal_strlit("type");
            reveal_strlit("inline");
        }
        let lowered = lower_chars(&value);
        assert(lowered@.len() == value@.len());
        let index = match find_str_chars(&lowered, &pattern) {
            None => {
                assert(find_str(lower(value@), "type"@) is None);
                return false;
            },
            Some(i) => i,
        };
        proof {
            lemma_find_from_bound(lower(value@), "type"@, 0);
        }
        let rest = slice_of(&value, index + 4, value.len());
        assert(rest@ =~= value@.skip(index + 4));
        let trimmed = trim_start_chars(&rest);
        proof {
            lemma_lead_ws_bound(rest@);
        }
        if trimmed.len() > 0 && trimmed[0] == '=' {
            let after = slice_of(&trimmed, 1, trimmed.len());
            assert(after@ =~= trimmed@.skip(1));
            let target = trim_start_chars(&after);
            proof {
                lemma_lead_ws_bound(after@);
            }
            if target.len() >= 6 {
                let head = slice_of(&target, 0, 6);
                assert(head@ =~= target@.take(6));
                if eq_ignore_case_chars(&head, &inline) {
                    return true;
                }
            }
            value = target;
        } else if trimmed.len() > 0 && (trimmed[0] as u32) < 128 {
            let next = slice_of(&trimmed, 1, trimmed.len());
            assert(next@ =~= trimmed@.skip(1));
            value = next;
        } else {
            value = Vec::new();
            assert(value@ =~= Seq::<char>::empty());
        }
    }
}

/// `flag value` for each value, in order.
pub open spec fn flag_pairs(flag: Seq<char>, values: Seq<Seq<char>>) -> Seq<Seq<char>>
    decreases values.len(),
{
    if values.len() == 0 {
        seq![]
    } else {
        flag_pairs(flag, values.drop_last()) + seq![flag, values.last()]
    }
}

fn push_flag_values(v: &mut Vec<String>, flag: &str, values: &Vec<String>)
    ensures
        str_views(final(v)@) == str_views(old(v)@) + flag_pairs(flag@, str_views(values@)),
{
    let ghost vals = str_views(values@);
    let ghost start = str_views(v@);
    let mut i: usize = 0;
    assert(vals.take(0) =~= Seq::<Seq<char>>::empty());
    assert(start + flag_pairs(flag@, vals.take(0)) =~= start);
    while i < values.len()
        invariant
            i <= values.len(),
            vals == str_views(values@),
            str_views(v@) == start + flag_pairs(flag@, vals.take(i as int)),
        decreases values.len() - i,
    {
        let f = from_chars(&to_chars(flag));
        let x = from_chars(&to_chars(values[i].as_str()));
        assert(str_views(v@.push(f).push(x)) =~= str_views(v@) + seq![f@, x@]);
        v.push(f);
        v.push(x);
        assert(vals.take(i + 1).drop_last() =~= vals.take(i as int));
        assert(vals.take(i + 1).last() == values@[i as int]@);
        assert(start + flag_pairs(flag@, vals.take(i as int)) + seq![flag@, values@[i as int]@] =~= start
            + flag_pairs(flag@, vals.take(i + 1)));
        i = i + 1;
    }
    assert(vals.take(i as int) =~= vals);
}

/// Whether some `--cache-to` value already exports an inline cache.
pub open spec fn any_inline_cache_to(values: Seq<Seq<char>>) -> bool {
    exists|i: int| 0 <= i < values.len() && cache_to_inline_from(#[trigger] values[i])
}

/// The arguments of `build`: tag and Dockerfile; `--no-cache` for `--no-cache`
/// or `--build-no-cache`; every `--cache-from` and `--cache-to`; the inline
/// cache build argument unless a `--cache-to` exports an inline cache already;
/// every `--label`; and the first `--platform`.
pub open spec fn spec_engine_build_args(args: Seq<Seq<char>>, image_name: Seq<char>, dockerfile_path: Seq<char>) -> Seq<Seq<char>> {
    let cache_to = spec_option_values(args, "--cache-to"@);
    seq!["build"@, "--tag"@, image_name, "--file"@, dockerfile_path]
        + (if spec_has_flag(args, "--no-cache"@) || spec_has_flag(args, "--build-no-cache"@) {
        seq!["--no-cache"@]
    } else {
        seq![]
    }) + flag_pairs("--cache-from"@, spec_option_values(args, "--cache-from"@)) + flag_pairs(
        "--cache-to"@,
        cache_to,
    ) + (if !any_inline_cache_to(cache_to) {
        seq!["--build-arg"@, "BUILDKIT_INLINE_CACHE=1"@]
    } else {
        seq![]
    }) + flag_pairs("--label"@, spec_option_values(args, "--label"@)) + (match spec_option_value(
        args,
        "--platform"@,
    ) {
        Some(p) => seq!["--platform"@, p],
        None => seq![],
    })
}

fn push_arg(v: &mut Vec<String>, s: &str)
    ensures
        str_views(final(v)@) == str_views(old(v)@).push(s@),
{
    let x = from_chars(&to_chars(s));
    assert(str_views(v@.push(x)) =~= str_views(v@).push(x@));
    v.push(x);
}

fn any_inline(values: &Vec<String>) -> (r: bool)
    ensures
        r == any_inline_cache_to(str_views(values@)),
{
    let ghost vals = str_views(values@);
    let mut i: usize = 0;
    while i < values.len()
        invariant
            i <= values.len(),
            vals == str_views(values@),
            forall|j: int| 0 <= j < i ==> !cache_to_inline_from(#[trigger] vals[j]),
        decreases values.len() - i,
    {
        assert(vals[i as int] == values@[i as int]@);
        if is_buildx_cache_to_inline(Some(values[i].as_str())) {
            return true;
        }
        i = i + 1;
    }
    false
}

pub fn engine_build_args(args: &[String], image_name: &str, dockerfile_path: &str) -> (r: Vec<String>)
    ensures
        str_views(r@) == spec_engine_build_args(str_views(args@), image_name@, dockerfile_path@),
{
    let ghost av = str_views(args@);
    let mut engine_args: Vec<String> = Vec::new();
    push_arg(&mut engine_args, "build");
    push_arg(&mut engine_args, "--tag");
    push_arg(&mut engine_args, image_name);
    push_arg(&mut engine_args, "--file");
    push_arg(&mut engine_args, dockerfile_path);
    let ghost s0 = str_views(engine_args@);
    let cache_to_values = option_values(args, "--cache-to");
    if has_flag(args, "--no-cache") || has_flag(args, "--build-no-cache") {
        push_arg(&mut engine_args, "--no-cache");
    }
    let ghost s1 = str_views(engine_args@);
    let cache_from = option_values(args, "--cache-from");
    push_flag_values(&mut engine_args, "--cache-from", &cache_from);
    let ghost s2 = str_views(engine_args@);
    push_flag_values(&mut engine_args, "--cache-to", &cache_to_values);
    let ghost s3 = str_views(engine_args@);
    if !any_inline(&cache_to_values) {
        push_arg(&mut engine_args, "--build-arg");
        push_arg(&mut engine_args, "BUILDKIT_INLINE_CACHE=1");
    }
    let ghost s4 = str_views(engine_args@);
    let labels = option_values(args, "--label");
    push_flag_values(&mut engine_args, "--label", &labels);
    let ghost s5 = str_views(engine_args@);
    match option_value(args, "--platform") {
        Some(p) => {
            push_arg(&mut engine_args, "--platform");
            push_arg(&mut engine_args, p.as_str());
        },
        None => {},
    }
    assert(str_views(engine_args@) =~= spec_engine_build_args(av, image_name@, dockerfile_path@));
    engine_args
}

/// The line that starts a generated Dockerfile: the syntax directive, unless
/// `--omit-syntax-directive` is set.
pub open spec fn spec_dockerfile_prefix(args: Seq<Seq<char>>) -> Seq<char> {
    if bool_option_from(args, "--omit-syntax-directive"@, 0, false) {
        ""@
    } else {
        "# syntax=docker/dockerfile:1.4\n"@
    }
}

pub fn dockerfile_prefix(args: &[String]) -> (r: &'static str)
    ensures
        r@ == spec_dockerfile_prefix(str_views(args@)),
{
    if bool_option(args, "--omit-syntax-directive", false) {
        ""
    } else {
        "# syntax=docker/dockerfile:1.4\n"
    }
}

/// A value in single quotes for `/bin/sh`, each `'` written as `'"'"'`.
pub open spec fn quote_with_double_quoted(s: Seq<char>) -> Seq<char>
    decreases s.len(),
{
    if s.len() == 0 {
        seq![]
    } else {
        quote_with_double_quoted(s.drop_last()) + if s.last() == '\'' {
            seq!['\'', '"', '\'', '"', '\'']
        } else {
            seq![s.last()]
        }
    }
}

pub open spec fn spec_shell_single_quote(value: Seq<char>) -> Seq<char> {
    seq!['\''] + quote_with_double_quoted(value) + seq!['\'']
}

pub fn shell_single_quote(value: &str) -> (r: String)
    ensures
        r@ == spec_shell_single_quote(value@),
{
    let v = to_chars(value);
    let mut body: Vec<char> = Vec::new();
    let mut i: usize = 0;
    while i < v.len()
        invariant
            i <= v.len(),
            body@ == quote_with_double_quoted(v@.take(i as int)),
        decreases v.len() - i,
    {
        assert(v@.take(i + 1).drop_last() =~= v@.take(i as int));
        if v[i] == '\'' {
            body.push('\'');
            body.push('"');
            body.push('\'');
            body.push('"');
            body.push('\'');
        } else {
            body.push(v[i]);
        }
        assert(body@ =~= quote_with_double_quoted(v@.take(i + 1)));
        i = i + 1;
    }
    assert(v@.take(i as int) =~= v@);
    let mut out: Vec<char> = Vec::new();
    out.push('\'');
    push_all(&mut out, &body);
    out.push('\'');
    assert(out@ =~= seq!['\''] + body@ + seq!['\'']);
    from_chars(&out)
}

/// `devcontainer-` and the workspace folder's name (or `workspace`), with every
/// character that is not an ASCII letter or digit written as `-`.
pub open spec fn spec_default_image_name(workspace_folder: Seq<char>) -> Seq<char> {
    let basename = match path_file_name(workspace_folder) {
        Some(n) => n,
        None => "workspace"@,
    };
    "devcontainer-"@ + basename.map_values(|c: char| if crate::text::is_ascii_alnum(c) { c } else { '-' })
}

pub fn default_image_name(workspace_folder: &str) -> (r: String)
    ensures
        r@ == spec_default_image_name(workspace_folder@),
{
    let basename = match path_file_name_chars(&to_chars(workspace_folder)) {
        Some(n) => n,
        None => to_chars("workspace"),
    };
    let mut mapped: Vec<char> = Vec::new();
    let mut i: usize = 0;
    while i < basename.len()
        invariant
            i <= basename.len(),
            mapped@ == basename@.take(i as int).map_values(|c: char| if crate::text::is_ascii_alnum(c) { c } else { '-' }),
        decreases basename.len() - i,
    {
        let c = basename[i];
        let alnum = ('a' <= c && c <= 'z') || ('A' <= c && c <= 'Z') || ('0' <= c && c <= '9');
        mapped.push(if alnum { c } else { '-' });
        assert(basename@.take(i + 1) =~= basename@.take(i as int).push(c));
        assert(mapped@ =~= basename@.take(i + 1).map_values(|c: char| if crate::text::is_ascii_alnum(c) { c } else { '-' }));
        i = i + 1;
    }
    assert(basename@.take(i as int) =~= basename@);
    let mut out = to_chars("devcontainer-");
    push_all(&mut out, &mapped);
    from_chars(&out)
}

} // verus!
