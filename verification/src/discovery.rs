//! Finding the dev container: the labels that identify it, the `ps` query
//! for them, the ids the engine prints, how the labels of a found container
//! are matched against the workspace, and the messages when none is found.

use vstd::prelude::*;
use crate::compose_override::env_string_entries;
use crate::engine::{
    engine_request, env_lookup, pair_views, spec_engine_request, spec_stderr_or_stdout, stderr_or_stdout,
    ProcessRequest, ProcessResult,
};
use crate::options::EnvDefaults;
use crate::json::{parse_json_text, parses_json, entries_view, json_get, json_view, lemma_entries_view, JsonValue, JsonView};
use crate::options::{opt_str, option_values, spec_option_values, str_eq};
use crate::text::{
    chars_eq, from_chars, is_ascii_alpha, is_ws, lines, lines_chars, push_all, push_str,
    str_views, to_chars, trim, trim_chars, views,
};

verus! {

/// The label that records the workspace folder a dev container was created for.
pub open spec fn local_folder_label() -> Seq<char> {
    "devcontainer.local_folder"@
}

/// The label that records the configuration file a dev container was created from.
pub open spec fn config_file_label() -> Seq<char> {
    "devcontainer.config_file"@
}

pub fn devcontainer_local_folder_label() -> (r: &'static str)
    ensures
        r@ == local_folder_label(),
{
    "devcontainer.local_folder"
}

pub fn devcontainer_config_file_label() -> (r: &'static str)
    ensures
        r@ == config_file_label(),
{
    "devcontainer.config_file"
}

/// A path as labels record it on a platform: on Windows with backslashes and a
/// lower-case drive letter; elsewhere as it is.
pub open spec fn spec_normalize_label_path(platform: Seq<char>, value: Seq<char>) -> Seq<char> {
    if platform == "windows"@ {
        Seq::new(
            value.len(),
            |i: int|
                if value[i] == '/' {
                    '\\'
                } else if i == 0 && value.len() >= 2 && value[1] == ':' && is_ascii_alpha(value[0]) {
                    crate::text::ascii_lower(value[0])
                } else {
                    value[i]
                },
        )
    } else {
        value
    }
}

pub fn normalize_devcontainer_label_path_for_platform(platform: &str, value: &str) -> (r: String)
    ensures
        r@ == spec_normalize_label_path(platform@, value@),
{
    let v = to_chars(value);
    if !str_eq(platform, "windows") {
        return from_chars(&v);
    }
    let drive = v.len() >= 2 && v[1] == ':' && (('a' <= v[0] && v[0] <= 'z') || ('A' <= v[0] && v[0] <= 'Z'));
    let mut out: Vec<char> = Vec::new();
    let mut i: usize = 0;
    while i < v.len()
        invariant
            i <= v.len(),
            v@ == value@,
            platform@ == "windows"@,
            drive == (v@.len() >= 2 && v@[1] == ':' && is_ascii_alpha(v@[0])),
            out@.len() == i,
            forall|j: int| 0 <= j < i ==> out@[j] == spec_normalize_label_path(platform@, value@)[j],
        decreases v.len() - i,
    {
        let c = v[i];
        let d = if c == '/' {
            '\\'
        } else if i == 0 && drive {
            crate::text::to_ascii_lower_char(c)
        } else {
            c
        };
        out.push(d);
        i = i + 1;
    }
    assert(out@ =~= spec_normalize_label_path(platform@, value@));
    from_chars(&out)
}

/// How a container's labels match the workspace: both labels (or the folder
/// label when no configuration file is known), or only the folder label of a
/// container created before configuration files were recorded.
#[derive(Clone, Copy, Debug, PartialEq, Eq, Structural)]
pub enum DefaultLabelMatch {
    Current,
    Legacy,
}

/// The match of a container's labels against the normalized workspace folder
/// and configuration file.
pub open spec fn spec_default_label_match(
    platform: Seq<char>,
    labels: Seq<(Seq<char>, Seq<char>)>,
    normalized_workspace: Seq<char>,
    normalized_config: Option<Seq<char>>,
    workspace_key: Seq<char>,
    config_key: Seq<char>,
) -> Option<DefaultLabelMatch> {
    match env_lookup(labels, workspace_key) {
        None => None,
        Some(w) => if spec_normalize_label_path(platform, w) != normalized_workspace {
            None
        } else {
            match (normalized_config, env_lookup(labels, config_key)) {
                (Some(target), Some(c)) => if spec_normalize_label_path(platform, c) == target {
                    Some(DefaultLabelMatch::Current)
                } else {
                    None
                },
                (Some(_), None) => Some(DefaultLabelMatch::Legacy),
                (None, _) => Some(DefaultLabelMatch::Current),
            }
        },
    }
}

fn label_value(labels: &Vec<(String, String)>, key: &str) -> (r: Option<String>)
    ensures
        opt_str(r) == env_lookup(pair_views(labels@), key@),
{
    let ghost lv = pair_views(labels@);
    let mut k: usize = 0;
    assert(lv.skip(0) =~= lv);
    while k < labels.len()
        invariant
            k <= labels.len(),
            lv == pair_views(labels@),
            env_lookup(lv, key@) == env_lookup(lv.skip(k as int), key@),
        decreases labels.len() - k,
    {
        assert(lv.skip(k as int).drop_first() =~= lv.skip(k + 1));
        assert(lv.skip(k as int)[0] == lv[k as int]);
        if str_eq(labels[k].0.as_str(), key) {
            return Some(from_chars(&to_chars(labels[k].1.as_str())));
        }
        k = k + 1;
    }
    None
}

pub fn default_label_match_for_platform(
    platform: &str,
    labels: &Vec<(String, String)>,
    normalized_workspace: &str,
    normalized_config: Option<&str>,
    workspace_key: &str,
    config_key: &str,
) -> (r: Option<DefaultLabelMatch>)
    ensures
        r == spec_default_label_match(
            platform@,
            pair_views(labels@),
            normalized_workspace@,
            match normalized_config {
                Some(c) => Some(c@),
                None => None,
            },
            workspace_key@,
            config_key@,
        ),
{
    let workspace_value = match label_value(labels, workspace_key) {
        None => {
            return None;
        },
        Some(w) => normalize_devcontainer_label_path_for_platform(platform, w.as_str()),
    };
    if !str_eq(workspace_value.as_str(), normalized_workspace) {
        return None;
    }
    match normalized_config {
        None => Some(DefaultLabelMatch::Current),
        Some(target) => match label_value(labels, config_key) {
            None => Some(DefaultLabelMatch::Legacy),
            Some(c) => {
                let container_config = normalize_devcontainer_label_path_for_platform(platform, c.as_str());
                if str_eq(container_config.as_str(), target) {
                    Some(DefaultLabelMatch::Current)
                } else {
                    None
                }
            },
        },
    }
}

/// The match with Windows normalization, which also leaves POSIX paths as they are.
pub fn normalized_default_label_match(
    labels: &Vec<(String, String)>,
    normalized_workspace: &str,
    normalized_config: Option<&str>,
    workspace_key: &str,
    config_key: &str,
) -> (r: Option<DefaultLabelMatch>)
    ensures
        r == spec_default_label_match(
            "windows"@,
            pair_views(labels@),
            normalized_workspace@,
            match normalized_config {
                Some(c) => Some(c@),
                None => None,
            },
            workspace_key@,
            config_key@,
        ),
{
    default_label_match_for_platform("windows", labels, normalized_workspace, normalized_config, workspace_key, config_key)
}

/// The labels that identify a container matched only by its folder label: that
/// label alone.
pub open spec fn spec_legacy_default_id_labels(labels: Seq<(Seq<char>, Seq<char>)>, workspace_key: Seq<char>) -> Seq<(Seq<char>, Seq<char>)> {
    match env_lookup(labels, workspace_key) {
        Some(v) => seq![(workspace_key, v)],
        None => seq![],
    }
}

pub fn legacy_default_id_labels(labels: &Vec<(String, String)>, workspace_key: &str, _config_key: &str) -> (r: Vec<(String, String)>)
    ensures
        pair_views(r@) == spec_legacy_default_id_labels(pair_views(labels@), workspace_key@),
{
    let mut r: Vec<(String, String)> = Vec::new();
    match label_value(labels, workspace_key) {
        Some(v) => {
            r.push((from_chars(&to_chars(workspace_key)), v));
            assert(pair_views(r@) =~= seq![(workspace_key@, r@[0].1@)]);
        },
        None => {
            assert(pair_views(r@) =~= Seq::<(Seq<char>, Seq<char>)>::empty());
        },
    }
    r
}

/// The folder label of a container that matches the workspace only by that
/// label (on the given platform); none for a full match or no match.
pub open spec fn spec_matched_default_id_labels(
    platform: Seq<char>,
    labels: Seq<(Seq<char>, Seq<char>)>,
    workspace_folder: Seq<char>,
    config_file: Option<Seq<char>>,
) -> Option<Seq<(Seq<char>, Seq<char>)>> {
    let normalized_config = match config_file {
        Some(c) => Some(spec_normalize_label_path(platform, c)),
        None => None,
    };
    match spec_default_label_match(
        platform,
        labels,
        spec_normalize_label_path(platform, workspace_folder),
        normalized_config,
        local_folder_label(),
        config_file_label(),
    ) {
        Some(DefaultLabelMatch::Legacy) => Some(spec_legacy_default_id_labels(labels, local_folder_label())),
        _ => None,
    }
}

pub fn matched_default_id_labels_for_platform(
    platform: &str,
    labels: &Vec<(String, String)>,
    workspace_folder: &str,
    config_file: Option<&str>,
) -> (r: Option<Vec<(String, String)>>)
    ensures
        match r {
            Some(v) => spec_matched_default_id_labels(
                platform@,
                pair_views(labels@),
                workspace_folder@,
                match config_file {
                    Some(c) => Some(c@),
                    None => None,
                },
            ) == Some(pair_views(v@)),
            None => spec_matched_default_id_labels(
                platform@,
                pair_views(labels@),
                workspace_folder@,
                match config_file {
                    Some(c) => Some(c@),
                    None => None,
                },
            ) is None,
        },
{
    let normalized_workspace = normalize_devcontainer_label_path_for_platform(platform, workspace_folder);
    let normalized_config = match config_file {
        Some(c) => Some(normalize_devcontainer_label_path_for_platform(platform, c)),
        None => None,
    };
    let config_ref = match &normalized_config {
        Some(c) => Some(c.as_str()),
        None => None,
    };
    let m = default_label_match_for_platform(
        platform,
        labels,
        normalized_workspace.as_str(),
        config_ref,
        devcontainer_local_folder_label(),
        devcontainer_config_file_label(),
    );
    match m {
        Some(DefaultLabelMatch::Legacy) => Some(legacy_default_id_labels(labels, devcontainer_local_folder_label(), devcontainer_config_file_label())),
        _ => None,
    }
}

/// `key=value` for a label.
pub open spec fn label_arg(key: Seq<char>, value: Seq<char>) -> Seq<char> {
    key + "="@ + value
}

/// The labels that identify the target container: every `--id-label`; without
/// any, the folder and configuration file labels (the folder label alone when
/// only the folder is known); none when neither is known.
pub open spec fn spec_target_container_labels(
    args: Seq<Seq<char>>,
    workspace_folder: Option<Seq<char>>,
    config_file: Option<Seq<char>>,
    platform: Seq<char>,
) -> Seq<Seq<char>> {
    let given = spec_option_values(args, "--id-label"@);
    if given.len() > 0 {
        given
    } else {
        match (workspace_folder, config_file) {
            (Some(w), Some(c)) => seq![
                label_arg(local_folder_label(), spec_normalize_label_path(platform, w)),
                label_arg(config_file_label(), spec_normalize_label_path(platform, c)),
            ],
            (Some(w), None) => seq![label_arg(local_folder_label(), spec_normalize_label_path(platform, w))],
            _ => seq![],
        }
    }
}

pub fn label_arg_exec(key: &str, value: &str) -> (r: String)
    ensures
        r@ == label_arg(key@, value@),
{
    let mut m = to_chars(key);
    push_str(&mut m, "=");
    push_str(&mut m, value);
    from_chars(&m)
}

pub fn target_container_labels(
    args: &[String],
    workspace_folder: Option<&str>,
    config_file: Option<&str>,
    platform: &str,
) -> (r: Vec<String>)
    ensures
        str_views(r@) == spec_target_container_labels(
            str_views(args@),
            match workspace_folder {
                Some(w) => Some(w@),
                None => None,
            },
            match config_file {
                Some(c) => Some(c@),
                None => None,
            },
            platform@,
        ),
{
    let mut labels = option_values(args, "--id-label");
    if labels.len() > 0 {
        return labels;
    }
    assert(str_views(labels@) =~= Seq::<Seq<char>>::empty());
    match (workspace_folder, config_file) {
        (Some(w), Some(c)) => {
            let nw = normalize_devcontainer_label_path_for_platform(platform, w);
            let nc = normalize_devcontainer_label_path_for_platform(platform, c);
            labels.push(label_arg_exec(devcontainer_local_folder_label(), nw.as_str()));
            labels.push(label_arg_exec(devcontainer_config_file_label(), nc.as_str()));
            assert(str_views(labels@) =~= seq![labels@[0]@, labels@[1]@]);
        },
        (Some(w), None) => {
            let nw = normalize_devcontainer_label_path_for_platform(platform, w);
            labels.push(label_arg_exec(devcontainer_local_folder_label(), nw.as_str()));
            assert(str_views(labels@) =~= seq![labels@[0]@]);
        },
        _ => {},
    }
    labels
}

/// `filter label=<label>` for each label, in order.
pub open spec fn label_filters(labels: Seq<Seq<char>>) -> Seq<Seq<char>>
    decreases labels.len(),
{
    if labels.len() == 0 {
        seq![]
    } else {
        label_filters(labels.drop_last()) + seq!["--filter"@, "label="@ + labels.last()]
    }
}

/// `ps -q`, with `-a` to include stopped containers, filtered by each label.
pub open spec fn spec_ps_engine_args(labels: Seq<Seq<char>>, include_stopped: bool) -> Seq<Seq<char>> {
    seq!["ps"@, "-q"@] + (if include_stopped {
        seq!["-a"@]
    } else {
        seq![]
    }) + label_filters(labels)
}

pub fn ps_engine_args(labels: &[String], include_stopped: bool) -> (r: Vec<String>)
    ensures
        str_views(r@) == spec_ps_engine_args(str_views(labels@), include_stopped),
{
    let ghost lv = str_views(labels@);
    let mut engine_args: Vec<String> = Vec::new();
    engine_args.push(from_chars(&to_chars("ps")));
    engine_args.push(from_chars(&to_chars("-q")));
    if include_stopped {
        engine_args.push(from_chars(&to_chars("-a")));
    }
    let ghost head = str_views(engine_args@);
    assert(head =~= seq!["ps"@, "-q"@] + (if include_stopped {
        seq!["-a"@]
    } else {
        seq![]
    }));
    let mut k: usize = 0;
    assert(lv.take(0) =~= Seq::<Seq<char>>::empty());
    assert(head + label_filters(lv.take(0)) =~= head);
    while k < labels.len()
        invariant
            k <= labels.len(),
            lv == str_views(labels@),
            str_views(engine_args@) == head + label_filters(lv.take(k as int)),
        decreases labels.len() - k,
    {
        let f = from_chars(&to_chars("--filter"));
        let mut l = to_chars("label=");
        push_str(&mut l, labels[k].as_str());
        let l = from_chars(&l);
        assert(str_views(engine_args@.push(f).push(l)) =~= str_views(engine_args@) + seq![f@, l@]);
        engine_args.push(f);
        engine_args.push(l);
        assert(lv.take(k + 1).drop_last() =~= lv.take(k as int));
        assert(lv.take(k + 1).last() == labels@[k as int]@);
        assert(head + label_filters(lv.take(k as int)) + seq!["--filter"@, "label="@ + labels@[k as int]@] =~= head
            + label_filters(lv.take(k + 1)));
        k = k + 1;
    }
    assert(lv.take(k as int) =~= lv);
    engine_args
}

/// A line of `ps -q` output that names a container: not blank, without inner
/// whitespace once trimmed.
pub open spec fn is_container_id_line(line: Seq<char>) -> bool {
    trim(line).len() > 0 && !(exists|i: int| 0 <= i < trim(line).len() && is_ws(#[trigger] trim(line)[i]))
}

/// The trimmed lines of the output that name containers, in order.
pub open spec fn spec_parse_container_ids(stdout: Seq<char>) -> Seq<Seq<char>> {
    lines(stdout).filter(|l: Seq<char>| is_container_id_line(l)).map_values(|l: Seq<char>| trim(l))
}

pub fn parse_container_ids(stdout: &str) -> (r: Vec<String>)
    ensures
        str_views(r@) == spec_parse_container_ids(stdout@),
{
    let ls = lines_chars(&to_chars(stdout));
    let ghost lv = views(ls@);
    let mut ids: Vec<String> = Vec::new();
    let mut k: usize = 0;
    assert(lv.take(0).filter(|l: Seq<char>| is_container_id_line(l)) =~= Seq::<Seq<char>>::empty());
    assert(str_views(ids@) =~= lv.take(0).filter(|l: Seq<char>| is_container_id_line(l)).map_values(|l: Seq<char>| trim(l)));
    while k < ls.len()
        invariant
            k <= ls.len(),
            lv == views(ls@),
            str_views(ids@) == lv.take(k as int).filter(|l: Seq<char>| is_container_id_line(l)).map_values(|l: Seq<char>| trim(l)),
        decreases ls.len() - k,
    {
        assert(lv[k as int] == ls@[k as int]@);
        assert(lv.take(k + 1).drop_last() =~= lv.take(k as int));
        assert(lv.take(k + 1).last() == lv[k as int]);
        let t = trim_chars(&ls[k]);
        let mut has_ws = false;
        let mut j: usize = 0;
        while j < t.len()
            invariant
                j <= t.len(),
                has_ws == (exists|i: int| 0 <= i < j && is_ws(#[trigger] t@[i])),
            decreases t.len() - j,
        {
            if crate::text::is_whitespace(t[j]) {
                has_ws = true;
            }
            j = j + 1;
        }
        let ghost f0 = lv.take(k as int).filter(|l: Seq<char>| is_container_id_line(l));
        let ghost f1 = lv.take(k + 1).filter(|l: Seq<char>| is_container_id_line(l));
        proof {
            reveal(Seq::filter);
        }
        if t.len() > 0 && !has_ws {
            assert(is_container_id_line(lv[k as int]));
            assert(f1 == f0.push(lv[k as int]));
            let s = from_chars(&t);
            assert(str_views(ids@.push(s)) =~= str_views(ids@).push(s@));
            assert(f1.map_values(|l: Seq<char>| trim(l)) =~= f0.map_values(|l: Seq<char>| trim(l)).push(trim(lv[k as int])));
            ids.push(s);
        } else {
            assert(!is_container_id_line(lv[k as int]));
            assert(f1 == f0);
        }
        k = k + 1;
    }
    assert(lv.take(k as int) =~= lv);
    ids
}

/// The message when no dev container is found: it names the workspace folder
/// and configuration file when both are known and no `--id-label` was given.
pub open spec fn spec_dev_container_not_found_message(args: Seq<Seq<char>>, workspace_folder: Option<Seq<char>>, config_file: Option<Seq<char>>) -> Seq<char> {
    if spec_option_values(args, "--id-label"@).len() == 0 && workspace_folder is Some && config_file is Some {
        "Dev container not found for workspace folder '"@ + workspace_folder->0 + "' and config file '"@
            + config_file->0
            + "'. If the container was created with a different config file, pass --config <path> or set DEVCONTAINER_CONFIG."@
    } else {
        "Dev container not found."@
    }
}

pub fn dev_container_not_found_message(args: &[String], workspace_folder: Option<&str>, config_file: Option<&str>) -> (r: String)
    ensures
        r@ == spec_dev_container_not_found_message(
            str_views(args@),
            match workspace_folder {
                Some(w) => Some(w@),
                None => None,
            },
            match config_file {
                Some(c) => Some(c@),
                None => None,
            },
        ),
{
    let labels = option_values(args, "--id-label");
    if labels.len() == 0 {
        match (workspace_folder, config_file) {
            (Some(w), Some(c)) => {
                let mut m = to_chars("Dev container not found for workspace folder '");
                push_str(&mut m, w);
                push_str(&mut m, "' and config file '");
                push_str(&mut m, c);
                push_str(&mut m, "'. If the container was created with a different config file, pass --config <path> or set DEVCONTAINER_CONFIG.");
                return from_chars(&m);
            },
            _ => {},
        }
    }
    from_chars(&to_chars("Dev container not found."))
}


/// The number of bytes UTF-8 takes for a character.
pub open spec fn utf8_len(c: char) -> nat {
    if (c as u32) < 0x80 {
        1
    } else if (c as u32) < 0x800 {
        2
    } else if (c as u32) < 0x10000 {
        3
    } else {
        4
    }
}

/// The number of bytes UTF-8 takes for a text.
pub open spec fn utf8_total(s: Seq<char>) -> nat
    decreases s.len(),
{
    if s.len() == 0 {
        0
    } else {
        utf8_len(s[0]) + utf8_total(s.drop_first())
    }
}

/// The number of leading characters that fit in `limit` bytes.
pub open spec fn prefix_within(s: Seq<char>, limit: nat) -> nat
    decreases s.len(),
{
    if s.len() > 0 && utf8_len(s[0]) <= limit {
        1 + prefix_within(s.drop_first(), (limit - utf8_len(s[0])) as nat)
    } else {
        0
    }
}

/// `prefix_within` is the longest prefix that fits: it fits, and it is the
/// whole text exactly when the whole text fits.
pub proof fn lemma_prefix_within(s: Seq<char>, limit: nat)
    ensures
        prefix_within(s, limit) <= s.len(),
        utf8_total(s.take(prefix_within(s, limit) as int)) <= limit,
        (prefix_within(s, limit) == s.len()) == (utf8_total(s) <= limit),
        prefix_within(s, limit) < s.len() ==> utf8_total(s.take(prefix_within(s, limit) as int + 1)) > limit,
    decreases s.len(),
{
    if s.len() > 0 && utf8_len(s[0]) <= limit {
        let rest = s.drop_first();
        let l2 = (limit - utf8_len(s[0])) as nat;
        lemma_prefix_within(rest, l2);
        let k = prefix_within(rest, l2);
        assert(s.take(k as int + 1).drop_first() =~= rest.take(k as int));
        if k < rest.len() {
            assert(s.take(k as int + 2).drop_first() =~= rest.take(k as int + 1));
        }
    } else if s.len() > 0 {
        assert(s.take(0) =~= Seq::<char>::empty());
        assert(s.take(1).drop_first() =~= Seq::<char>::empty());
    } else {
        assert(s.take(0) =~= Seq::<char>::empty());
    }
}

/// The most bytes of compose output a diagnostic keeps.
pub open spec fn max_diagnostic_bytes() -> nat {
    16384
}

/// A diagnostic body kept whole when it fits in 16 KiB; otherwise its longest
/// prefix that does, followed by a note saying it was cut.
pub open spec fn spec_truncate_diagnostic(body: Seq<char>) -> Seq<char> {
    if utf8_total(body) <= max_diagnostic_bytes() {
        body
    } else {
        body.take(prefix_within(body, max_diagnostic_bytes()) as int)
            + "\n... truncated compose diagnostic output after 16384 bytes ..."@
    }
}

fn utf8_len_exec(c: char) -> (r: usize)
    ensures
        r == utf8_len(c),
{
    let n = c as u32;
    if n < 0x80 {
        1
    } else if n < 0x800 {
        2
    } else if n < 0x10000 {
        3
    } else {
        4
    }
}

pub fn truncate_diagnostic(body: &str) -> (r: String)
    ensures
        r@ == spec_truncate_diagnostic(body@),
{
    let v = to_chars(body);
    let limit: usize = 16384;
    let mut used: usize = 0;
    let mut i: usize = 0;
    assert(v@.skip(0) =~= v@);
    while i < v.len() && used + utf8_len_exec(v[i]) <= limit
        invariant
            i <= v.len(),
            used <= limit,
            limit == 16384,
            prefix_within(v@, 16384) == i + prefix_within(v@.skip(i as int), (16384 - used) as nat),
        decreases v.len() - i,
    {
        assert(v@.skip(i as int).drop_first() =~= v@.skip(i + 1));
        assert(v@.skip(i as int)[0] == v@[i as int]);
        used = used + utf8_len_exec(v[i]);
        i = i + 1;
    }
    proof {
        if i < v.len() {
            assert(v@.skip(i as int)[0] == v@[i as int]);
        }
        lemma_prefix_within(v@, 16384);
    }
    if i == v.len() {
        return from_chars(&v);
    }
    let mut out = crate::text::slice_of(&v, 0, i);
    push_str(&mut out, "\n... truncated compose diagnostic output after 16384 bytes ...");
    from_chars(&out)
}

/// A titled section added to a message for a non-blank body: a blank line, the
/// title and a colon, then the trimmed body, truncated.
pub open spec fn spec_append_diagnostic_section(message: Seq<char>, title: Seq<char>, body: Seq<char>) -> Seq<char> {
    if trim(body).len() == 0 {
        message
    } else {
        message + "\n\n"@ + title + ":\n"@ + spec_truncate_diagnostic(trim(body))
    }
}

pub fn append_diagnostic_section(message: &mut String, title: &str, body: &str)
    ensures
        final(message)@ == spec_append_diagnostic_section(old(message)@, title@, body@),
{
    let b = trim_chars(&to_chars(body));
    if b.len() == 0 {
        return;
    }
    let mut m = to_chars(message.as_str());
    push_str(&mut m, "\n\n");
    push_str(&mut m, title);
    push_str(&mut m, ":\n");
    let t = truncate_diagnostic(from_chars(&b).as_str());
    push_str(&mut m, t.as_str());
    *message = from_chars(&m);
}


/// A diagnostic that fits is kept whole; one that does not keeps a prefix of
/// at most 16 KiB, the longest that fits, and then the note.
pub proof fn law_truncated_diagnostic_fits(body: Seq<char>)
    ensures
        utf8_total(body) <= max_diagnostic_bytes() ==> spec_truncate_diagnostic(body) == body,
        utf8_total(body) > max_diagnostic_bytes() ==> {
            let k = prefix_within(body, max_diagnostic_bytes());
            &&& k < body.len()
            &&& spec_truncate_diagnostic(body) == body.take(k as int) + "\n... truncated compose diagnostic output after 16384 bytes ..."@
            &&& utf8_total(body.take(k as int)) <= max_diagnostic_bytes()
            &&& utf8_total(body.take(k as int + 1)) > max_diagnostic_bytes()
        },
{
    lemma_prefix_within(body, max_diagnostic_bytes());
}


/// The string labels of the first container of an `inspect` answer:
/// `[0].Config.Labels`; none when that is not an object.
pub open spec fn spec_labels_from_inspect(inspected: JsonView) -> Option<Seq<(Seq<char>, Seq<char>)>> {
    match inspected {
        JsonView::Array(items) => if items.len() == 0 {
            None
        } else {
            match json_get(items[0], "Config"@) {
                Some(config) => match json_get(config, "Labels"@) {
                    Some(JsonView::Object(entries)) => Some(env_string_entries(entries)),
                    _ => None,
                },
                None => None,
            }
        },
        _ => None,
    }
}

pub open spec fn opt_text(o: Option<&str>) -> Option<Seq<char>> {
    match o {
        Some(t) => Some(t@),
        None => None,
    }
}

/// The configuration file's path normalized as on Windows.
pub open spec fn normalized_config_of(config_file: Option<Seq<char>>) -> Option<Seq<char>> {
    match config_file {
        Some(c) => Some(spec_normalize_label_path("windows"@, c)),
        None => None,
    }
}

pub open spec fn opt_pairs(o: Option<Vec<(String, String)>>) -> Option<Seq<(Seq<char>, Seq<char>)>> {
    match o {
        Some(v) => Some(pair_views(v@)),
        None => None,
    }
}

fn string_entries(entries: &Vec<(String, JsonValue)>) -> (r: Vec<(String, String)>)
    ensures
        pair_views(r@) == env_string_entries(entries_view(entries@)),
{
    proof {
        lemma_entries_view(entries@);
    }
    let ghost ev = entries_view(entries@);
    let mut out: Vec<(String, String)> = Vec::new();
    let mut k: usize = 0;
    assert(ev.take(0) =~= Seq::<(Seq<char>, JsonView)>::empty());
    assert(pair_views(out@) =~= Seq::<(Seq<char>, Seq<char>)>::empty());
    while k < entries.len()
        invariant
            k <= entries.len(),
            ev == entries_view(entries@),
            ev.len() == entries@.len(),
            forall|i: int| 0 <= i < entries@.len() ==> #[trigger] ev[i] == (entries@[i].0@, json_view(entries@[i].1)),
            pair_views(out@) == env_string_entries(ev.take(k as int)),
        decreases entries.len() - k,
    {
        assert(ev.take(k + 1).drop_last() =~= ev.take(k as int));
        assert(ev.take(k + 1).last() == ev[k as int]);
        match &entries[k].1 {
            JsonValue::String(v) => {
                let pair = (from_chars(&to_chars(entries[k].0.as_str())), from_chars(&to_chars(v.as_str())));
                assert(pair_views(out@.push(pair)) =~= pair_views(out@).push((pair.0@, pair.1@)));
                out.push(pair);
            },
            _ => {},
        }
        assert(pair_views(out@) =~= env_string_entries(ev.take(k + 1)));
        k = k + 1;
    }
    assert(ev.take(k as int) =~= ev);
    out
}

pub fn labels_from_inspect(inspected: &JsonValue) -> (r: Option<Vec<(String, String)>>)
    ensures
        opt_pairs(r) == spec_labels_from_inspect(inspected@),
{
    match inspected {
        JsonValue::Array(items) => {
            proof {
                crate::json::lemma_items_view(items@);
            }
            if items.len() == 0 {
                return None;
            }
            match items[0].get("Config") {
                Some(config) => match config.get("Labels") {
                    Some(JsonValue::Object(entries)) => Some(string_entries(entries)),
                    _ => None,
                },
                None => None,
            }
        },
        _ => None,
    }
}

/// A container found for the workspace, with the labels that identify it when
/// it matched only by its folder label.
#[derive(Debug)]
pub struct ResolvedTargetContainer {
    pub container_id: String,
    pub id_labels: Option<Vec<(String, String)>>,
}

pub open spec fn target_view(t: ResolvedTargetContainer) -> (Seq<char>, Option<Seq<(Seq<char>, Seq<char>)>>) {
    (t.container_id@, opt_pairs(t.id_labels))
}

pub open spec fn opt_target_view(t: Option<ResolvedTargetContainer>) -> Option<(Seq<char>, Option<Seq<(Seq<char>, Seq<char>)>>)> {
    match t {
        Some(x) => Some(target_view(x)),
        None => None,
    }
}

/// The container chosen among inspected candidates (their ids and labels, in
/// order): the first whose labels match fully; else the first that matches by
/// its folder label only, with that label to identify it; else none.
pub open spec fn spec_select_default_label_match(
    candidates: Seq<(Seq<char>, Option<Seq<(Seq<char>, Seq<char>)>>)>,
    normalized_workspace: Seq<char>,
    normalized_config: Option<Seq<char>>,
) -> Option<(Seq<char>, Option<Seq<(Seq<char>, Seq<char>)>>)>
    decreases candidates.len(),
{
    if candidates.len() == 0 {
        None
    } else {
        let before = spec_select_default_label_match(candidates.drop_last(), normalized_workspace, normalized_config);
        let last = candidates.last();
        match before {
            Some((id, None)) => before,
            _ => match last.1 {
                None => before,
                Some(labels) => match spec_default_label_match("windows"@, labels, normalized_workspace, normalized_config, local_folder_label(), config_file_label()) {
                    Some(DefaultLabelMatch::Current) => Some((last.0, None)),
                    Some(DefaultLabelMatch::Legacy) => if before is None {
                        Some((last.0, Some(spec_legacy_default_id_labels(labels, local_folder_label()))))
                    } else {
                        before
                    },
                    None => before,
                },
            },
        }
    }
}

proof fn lemma_select_current(
    before: Seq<(Seq<char>, Option<Seq<(Seq<char>, Seq<char>)>>)>,
    last: (Seq<char>, Option<Seq<(Seq<char>, Seq<char>)>>),
    nw: Seq<char>,
    nc: Option<Seq<char>>,
)
    requires
        !(spec_select_default_label_match(before, nw, nc) matches Some((_, None))),
        last.1 matches Some(labels) && spec_default_label_match("windows"@, labels, nw, nc, local_folder_label(), config_file_label()) == Some(DefaultLabelMatch::Current),
    ensures
        spec_select_default_label_match(before.push(last), nw, nc) == Some((last.0, None::<Seq<(Seq<char>, Seq<char>)>>)),
{
    assert(before.push(last).drop_last() =~= before);
}

pub open spec fn labels_result_view(r: Result<Option<Vec<(String, String)>>, String>) -> Result<Option<Seq<(Seq<char>, Seq<char>)>>, Seq<char>> {
    match r {
        Ok(o) => Ok(opt_pairs(o)),
        Err(e) => Err(e@),
    }
}

/// What an `inspect` answer gives as labels, once its output is parsed.
pub open spec fn spec_inspect_labels_outcome(parsed: Result<JsonValue, String>) -> Result<Option<Seq<(Seq<char>, Seq<char>)>>, Seq<char>> {
    match parsed {
        Err(e) => Err("Invalid inspect JSON: "@ + e@),
        Ok(v) => Ok(spec_labels_from_inspect(v@)),
    }
}

/// What inspecting a container's labels gives (`out`): `run_engine` ran
/// `inspect <id>`; its failure to run, or its output's message on a non-zero
/// status; else what parsing as JSON made of the output, as
/// `spec_inspect_labels_outcome` reads it.
pub open spec fn spec_inspect_labels_call<F: Fn(ProcessRequest) -> Result<ProcessResult, String>>(
    run_engine: F,
    args: Seq<Seq<char>>,
    env: EnvDefaults,
    container_id: Seq<char>,
    out: Result<Option<Seq<(Seq<char>, Seq<char>)>>, Seq<char>>,
) -> bool {
    exists|req: ProcessRequest, c: Result<ProcessResult, String>|
        req@ == spec_engine_request(args, env, seq!["inspect"@, container_id])
            && #[trigger] call_ensures(run_engine, (req,), c) && match c {
            Err(e) => out == Err::<Option<Seq<(Seq<char>, Seq<char>)>>, Seq<char>>(e@),
            Ok(p) => if p.status_code != 0 {
                out == Err::<Option<Seq<(Seq<char>, Seq<char>)>>, Seq<char>>(spec_stderr_or_stdout(p.stdout@, p.stderr@))
            } else {
                exists|t: String, parsed: Result<JsonValue, String>|
                    t@ == p.stdout@ && #[trigger] parses_json(t, parsed)
                        && out == spec_inspect_labels_outcome(parsed)
            },
        }
}

/// The labels of a container: `run_engine` runs `inspect <id>`; a failure to
/// run or a non-zero status is an error; the output is parsed as JSON (see `json_document`), and
/// the parser's error is reported as invalid inspect JSON.
pub fn inspect_container_labels<F: Fn(ProcessRequest) -> Result<ProcessResult, String>>(
    args: &[String],
    env: &EnvDefaults,
    container_id: &str,
    run_engine: &F,
) -> (r: Result<Option<Vec<(String, String)>>, String>)
    requires
        forall|req: ProcessRequest| call_requires(*run_engine, (req,)),
    ensures
        spec_inspect_labels_call(*run_engine, str_views(args@), *env, container_id@, labels_result_view(r)),
{
    let mut engine_args: Vec<String> = Vec::new();
    crate::exec::push_string(&mut engine_args, "inspect");
    crate::exec::push_string(&mut engine_args, container_id);
    assert(str_views(engine_args@) =~= seq!["inspect"@, container_id@]);
    let request = engine_request(args, env, engine_args);
    let ghost req = request;
    let c = run_engine(request);
    assert(call_ensures(*run_engine, (req,), c));
    match &c {
        Err(e) => Err(e.clone()),
        Ok(p) => {
            if p.status_code != 0 {
                return Err(stderr_or_stdout(p));
            }
            let t = from_chars(&to_chars(p.stdout.as_str()));
            let ghost tg = t;
            let parsed = parse_json_text(&t);
            assert(parses_json(tg, parsed));
            match parsed {
                Err(e) => {
                    let mut m = to_chars("Invalid inspect JSON: ");
                    push_str(&mut m, e.as_str());
                    Err(from_chars(&m))
                },
                Ok(v) => Ok(labels_from_inspect(&v)),
            }
        },
    }
}

/// The id labels from what inspecting a found container gave: its error
/// passed on; none without labels; else `spec_matched_default_id_labels` of
/// its labels.
pub open spec fn spec_matched_from_inspected(
    platform: Seq<char>,
    inspected: Result<Option<Seq<(Seq<char>, Seq<char>)>>, Seq<char>>,
    workspace_folder: Seq<char>,
    config_file: Option<Seq<char>>,
) -> Result<Option<Seq<(Seq<char>, Seq<char>)>>, Seq<char>> {
    match inspected {
        Err(e) => Err(e),
        Ok(None) => Ok(None),
        Ok(Some(labels)) => Ok(spec_matched_default_id_labels(platform, labels, workspace_folder, config_file)),
    }
}

/// What matching a found container's labels gives (`out`): none without a
/// workspace folder; else its labels are inspected and matched (see
/// `spec_matched_from_inspected`).
pub open spec fn spec_matched_call<F: Fn(ProcessRequest) -> Result<ProcessResult, String>>(
    run_engine: F,
    platform: Seq<char>,
    args: Seq<Seq<char>>,
    env: EnvDefaults,
    container_id: Seq<char>,
    workspace_folder: Option<Seq<char>>,
    config_file: Option<Seq<char>>,
    out: Result<Option<Seq<(Seq<char>, Seq<char>)>>, Seq<char>>,
) -> bool {
    match workspace_folder {
        None => out == Ok::<Option<Seq<(Seq<char>, Seq<char>)>>, Seq<char>>(None),
        Some(w) => exists|inspected: Result<Option<Seq<(Seq<char>, Seq<char>)>>, Seq<char>>|
            #[trigger] spec_inspect_labels_call(run_engine, args, env, container_id, inspected)
                && out == spec_matched_from_inspected(platform, inspected, w, config_file),
    }
}

/// The labels that identify a found container when it matched only by its
/// folder label: none without a workspace folder (the engine is not asked),
/// else from its inspected labels (see `inspect_container_labels`).
pub fn inspect_matched_default_id_labels<F: Fn(ProcessRequest) -> Result<ProcessResult, String>>(
    args: &[String],
    env: &EnvDefaults,
    platform: &str,
    container_id: &str,
    workspace_folder: Option<&str>,
    config_file: Option<&str>,
    run_engine: &F,
) -> (r: Result<Option<Vec<(String, String)>>, String>)
    requires
        forall|req: ProcessRequest| call_requires(*run_engine, (req,)),
    ensures
        spec_matched_call(*run_engine, platform@, str_views(args@), *env, container_id@, opt_text(workspace_folder), opt_text(config_file), labels_result_view(r)),
{
    let w = match workspace_folder {
        Some(w) => w,
        None => return Ok(None),
    };
    let inspected = inspect_container_labels(args, env, container_id, run_engine);
    let ghost iv = labels_result_view(inspected);
    assert(spec_inspect_labels_call(*run_engine, str_views(args@), *env, container_id@, iv));
    let labels = match inspected {
        Err(e) => return Err(e),
        Ok(None) => return Ok(None),
        Ok(Some(l)) => l,
    };
    let r = matched_default_id_labels_for_platform(platform, &labels, w, config_file);
    proof {
        let cv = match config_file {
            Some(c) => Some(c@),
            None => None,
        };
        assert(opt_text(config_file) == cv);
        assert(spec_matched_default_id_labels(platform@, pair_views(labels@), w@, cv) == opt_pairs(r));
    }
    Ok(r)
}

pub open spec fn ids_result_view(r: Result<Vec<String>, String>) -> Result<Seq<Seq<char>>, Seq<char>> {
    match r {
        Ok(v) => Ok(str_views(v@)),
        Err(e) => Err(e@),
    }
}

/// What listing the containers that carry a label gives (`out`):
/// `run_engine` ran `ps -q` filtered by the label's name; its failure to run,
/// or its output's message on a non-zero status; else the ids it printed.
pub open spec fn spec_list_ids_call<F: Fn(ProcessRequest) -> Result<ProcessResult, String>>(
    run_engine: F,
    args: Seq<Seq<char>>,
    env: EnvDefaults,
    label_name: Seq<char>,
    include_stopped: bool,
    out: Result<Seq<Seq<char>>, Seq<char>>,
) -> bool {
    exists|req: ProcessRequest, c: Result<ProcessResult, String>|
        req@ == spec_engine_request(args, env, spec_ps_engine_args(seq![label_name], include_stopped))
            && #[trigger] call_ensures(run_engine, (req,), c) && match c {
            Err(e) => out == Err::<Seq<Seq<char>>, Seq<char>>(e@),
            Ok(p) => if p.status_code != 0 {
                out == Err::<Seq<Seq<char>>, Seq<char>>(spec_stderr_or_stdout(p.stdout@, p.stderr@))
            } else {
                out == Ok::<Seq<Seq<char>>, Seq<char>>(spec_parse_container_ids(p.stdout@))
            },
        }
}

/// The ids of the containers that carry a label: `run_engine` runs `ps -q`
/// filtered by the label's name; its ids are those of `parse_container_ids`.
pub fn list_container_ids_by_label_name<F: Fn(ProcessRequest) -> Result<ProcessResult, String>>(
    args: &[String],
    env: &EnvDefaults,
    label_name: &str,
    include_stopped: bool,
    run_engine: &F,
) -> (r: Result<Vec<String>, String>)
    requires
        forall|req: ProcessRequest| call_requires(*run_engine, (req,)),
    ensures
        spec_list_ids_call(*run_engine, str_views(args@), *env, label_name@, include_stopped, ids_result_view(r)),
{
    let mut names: Vec<String> = Vec::new();
    crate::exec::push_string(&mut names, label_name);
    assert(str_views(names@) =~= seq![label_name@]);
    let request = engine_request(args, env, ps_engine_args(names.as_slice(), include_stopped));
    let ghost req = request;
    let c = run_engine(request);
    assert(call_ensures(*run_engine, (req,), c));
    match &c {
        Err(e) => Err(e.clone()),
        Ok(p) => if p.status_code != 0 {
            Err(stderr_or_stdout(p))
        } else {
            Ok(parse_container_ids(p.stdout.as_str()))
        },
    }
}

/// The candidates inspected so far: the first listed ids, in order, each with
/// the labels its inspection gave.
pub open spec fn inspected_prefix<F: Fn(ProcessRequest) -> Result<ProcessResult, String>>(
    run_engine: F,
    args: Seq<Seq<char>>,
    env: EnvDefaults,
    listed: Seq<Seq<char>>,
    inspected: Seq<(Seq<char>, Option<Seq<(Seq<char>, Seq<char>)>>)>,
) -> bool {
    &&& inspected.len() <= listed.len()
    &&& forall|i: int| 0 <= i < inspected.len() ==> #[trigger] inspected[i].0 == listed[i]
        && spec_inspect_labels_call(run_engine, args, env, listed[i], Ok::<Option<Seq<(Seq<char>, Seq<char>)>>, Seq<char>>(inspected[i].1))
}

pub open spec fn target_result_view(r: Result<Option<ResolvedTargetContainer>, String>) -> Result<Option<(Seq<char>, Option<Seq<(Seq<char>, Seq<char>)>>)>, Seq<char>> {
    match r {
        Ok(t) => Ok(opt_target_view(t)),
        Err(e) => Err(e@),
    }
}

/// The normalized-label match (`out`): none without a workspace folder; else
/// the listing of the containers with a folder label decides, its error is the
/// result, and the listed ids are inspected in order until one matches fully.
/// An inspection error before that is the result; else the choice is
/// `spec_select_default_label_match` of those inspected.
pub open spec fn spec_normalized_call<F: Fn(ProcessRequest) -> Result<ProcessResult, String>>(
    run_engine: F,
    args: Seq<Seq<char>>,
    env: EnvDefaults,
    workspace_folder: Option<Seq<char>>,
    config_file: Option<Seq<char>>,
    include_stopped: bool,
    out: Result<Option<(Seq<char>, Option<Seq<(Seq<char>, Seq<char>)>>)>, Seq<char>>,
) -> bool {
    match workspace_folder {
        None => out == Ok::<Option<(Seq<char>, Option<Seq<(Seq<char>, Seq<char>)>>)>, Seq<char>>(None),
        Some(w) => exists|lr: Result<Seq<Seq<char>>, Seq<char>>|
            #[trigger] spec_list_ids_call(run_engine, args, env, local_folder_label(), include_stopped, lr)
                && spec_listing_outcome(run_engine, args, env, w, config_file, lr, out),
    }
}

/// The normalized-label match (`out`) after the listing gave `lr`.
pub open spec fn spec_listing_outcome<F: Fn(ProcessRequest) -> Result<ProcessResult, String>>(
    run_engine: F,
    args: Seq<Seq<char>>,
    env: EnvDefaults,
    w: Seq<char>,
    config_file: Option<Seq<char>>,
    lr: Result<Seq<Seq<char>>, Seq<char>>,
    out: Result<Option<(Seq<char>, Option<Seq<(Seq<char>, Seq<char>)>>)>, Seq<char>>,
) -> bool {
    match lr {
        Err(e) => out == Err::<Option<(Seq<char>, Option<Seq<(Seq<char>, Seq<char>)>>)>, Seq<char>>(e),
        Ok(listed) => exists|inspected: Seq<(Seq<char>, Option<Seq<(Seq<char>, Seq<char>)>>)>|
            #[trigger] inspected_prefix(run_engine, args, env, listed, inspected)
                && spec_inspection_stop(run_engine, args, env, listed, inspected,
                    spec_select_default_label_match(inspected, spec_normalize_label_path("windows"@, w), normalized_config_of(config_file)), out),
    }
}

/// How the inspection of the listed ids ends (`out`), given those inspected
/// successfully and their choice `sel`: an error is the next inspection's
/// error, before any full match; a result is the choice, with every id
/// inspected unless it is a full match.
pub open spec fn spec_inspection_stop<F: Fn(ProcessRequest) -> Result<ProcessResult, String>>(
    run_engine: F,
    args: Seq<Seq<char>>,
    env: EnvDefaults,
    listed: Seq<Seq<char>>,
    inspected: Seq<(Seq<char>, Option<Seq<(Seq<char>, Seq<char>)>>)>,
    sel: Option<(Seq<char>, Option<Seq<(Seq<char>, Seq<char>)>>)>,
    out: Result<Option<(Seq<char>, Option<Seq<(Seq<char>, Seq<char>)>>)>, Seq<char>>,
) -> bool {
    match out {
        Err(e) => inspected.len() < listed.len() && !(sel matches Some((_, None)))
            && spec_inspect_labels_call(run_engine, args, env, listed[inspected.len() as int], Err::<Option<Seq<(Seq<char>, Seq<char>)>>, Seq<char>>(e)),
        Ok(o) => o == sel && (inspected.len() < listed.len() ==> sel matches Some((_, None))),
    }
}

/// The container matched by normalized default labels (used where paths may
/// differ in case and separators): none without a workspace folder; else every
/// container with a folder label is inspected, in order, until one matches
/// fully, and the choice is `spec_select_default_label_match` of those inspected.
pub fn find_normalized_default_label_match<F: Fn(ProcessRequest) -> Result<ProcessResult, String>>(
    args: &[String],
    env: &EnvDefaults,
    workspace_folder: Option<&str>,
    config_file: Option<&str>,
    include_stopped: bool,
    run_engine: &F,
) -> (r: Result<Option<ResolvedTargetContainer>, String>)
    requires
        forall|req: ProcessRequest| call_requires(*run_engine, (req,)),
    ensures
        spec_normalized_call(*run_engine, str_views(args@), *env, opt_text(workspace_folder), opt_text(config_file), include_stopped, target_result_view(r)),
{
    let w = match workspace_folder {
        Some(w) => w,
        None => return Ok(None),
    };
    let normalized_workspace = normalize_devcontainer_label_path_for_platform("windows", w);
    let normalized_config = match config_file {
        Some(c) => Some(normalize_devcontainer_label_path_for_platform("windows", c)),
        None => None,
    };
    let ghost nw = normalized_workspace@;
    let ghost nc = normalized_config_of(opt_text(config_file));
    let config_ref = match &normalized_config {
        Some(c) => Some(c.as_str()),
        None => None,
    };
    let listed_result = list_container_ids_by_label_name(args, env, devcontainer_local_folder_label(), include_stopped, run_engine);
    let ghost lr = ids_result_view(listed_result);
    assert(spec_list_ids_call(*run_engine, str_views(args@), *env, local_folder_label(), include_stopped, lr));
    let candidates = match listed_result {
        Ok(ids) => ids,
        Err(e) => {
            assert(lr == Err::<Seq<Seq<char>>, Seq<char>>(e@));
            return Err(e);
        },
    };
    let ghost listed = str_views(candidates@);
    let mut legacy: Option<ResolvedTargetContainer> = None;
    let ghost mut seen: Seq<(Seq<char>, Option<Seq<(Seq<char>, Seq<char>)>>)> = seq![];
    let mut k: usize = 0;
    while k < candidates.len()
        invariant
            k <= candidates.len(),
            forall|req: ProcessRequest| call_requires(*run_engine, (req,)),
            workspace_folder == Some(w),
            nw == spec_normalize_label_path("windows"@, w@),
            nc == normalized_config_of(opt_text(config_file)),
            match config_ref {
                Some(c) => nc == Some(c@),
                None => nc is None,
            },
            normalized_workspace@ == nw,
            opt_target_view(legacy) == spec_select_default_label_match(seen, nw, nc),
            !(spec_select_default_label_match(seen, nw, nc) matches Some((_, None))),
            listed == str_views(candidates@),
            lr == Ok::<Seq<Seq<char>>, Seq<char>>(listed),
            lr->Ok_0 == listed,
            spec_list_ids_call(*run_engine, str_views(args@), *env, local_folder_label(), include_stopped, lr),
            seen.len() == k,
            inspected_prefix(*run_engine, str_views(args@), *env, listed, seen),
        decreases candidates.len() - k,
    {
        let inspected_result = inspect_container_labels(args, env, candidates[k].as_str(), run_engine);
        let ghost ir = labels_result_view(inspected_result);
        assert(spec_inspect_labels_call(*run_engine, str_views(args@), *env, candidates@[k as int]@, ir));
        let labels = match inspected_result {
            Ok(l) => l,
            Err(e) => {
                assert(spec_inspection_stop(*run_engine, str_views(args@), *env, listed, seen,
                    spec_select_default_label_match(seen, nw, nc), Err(e@)));
                return Err(e);
            },
        };
        let ghost before = seen;
        proof {
            seen = seen.push((candidates@[k as int]@, opt_pairs(labels)));
            assert(seen.drop_last() =~= before);
            assert(listed[k as int] == candidates@[k as int]@);
            assert(ir == Ok::<Option<Seq<(Seq<char>, Seq<char>)>>, Seq<char>>(opt_pairs(labels)));
            assert forall|i: int| 0 <= i < seen.len() implies #[trigger] seen[i].0 == listed[i]
                && spec_inspect_labels_call(*run_engine, str_views(args@), *env, listed[i], Ok::<Option<Seq<(Seq<char>, Seq<char>)>>, Seq<char>>(seen[i].1)) by {
                if i < k {
                    assert(seen[i] == before[i]);
                }
            }
        }
        match labels {
            None => {},
            Some(l) => {
                let m = normalized_default_label_match(&l, normalized_workspace.as_str(), config_ref, devcontainer_local_folder_label(), devcontainer_config_file_label());
                match m {
                    Some(DefaultLabelMatch::Current) => {
                        let found = ResolvedTargetContainer { container_id: from_chars(&to_chars(candidates[k].as_str())), id_labels: None };
                        proof {
                            lemma_select_current(before, (candidates@[k as int]@, opt_pairs(labels)), nw, nc);
                        }
                        assert(opt_target_view(Some(found)) == spec_select_default_label_match(seen, nw, nc));
                        assert(spec_normalize_label_path("windows"@, workspace_folder->0@) == nw);
                        assert(inspected_prefix(*run_engine, str_views(args@), *env, listed, seen));
                        assert(spec_inspection_stop(*run_engine, str_views(args@), *env, listed, seen,
                            spec_select_default_label_match(seen, nw, nc), target_result_view(Ok(Some(found)))));
                        return Ok(Some(found));
                    },
                    Some(DefaultLabelMatch::Legacy) => {
                        if legacy.is_none() {
                            let id_labels = legacy_default_id_labels(&l, devcontainer_local_folder_label(), devcontainer_config_file_label());
                            legacy = Some(ResolvedTargetContainer { container_id: from_chars(&to_chars(candidates[k].as_str())), id_labels: Some(id_labels) });
                        }
                    },
                    None => {},
                }
            },
        }
        k = k + 1;
    }
    assert(inspected_prefix(*run_engine, str_views(args@), *env, listed, seen));
    assert(spec_inspection_stop(*run_engine, str_views(args@), *env, listed, seen,
        spec_select_default_label_match(seen, nw, nc), target_result_view(Ok(legacy))));
    assert(opt_text(workspace_folder) == Some(w@));
    assert(spec_select_default_label_match(seen, spec_normalize_label_path("windows"@, w@), normalized_config_of(opt_text(config_file))) == spec_select_default_label_match(seen, nw, nc));
    assert(spec_inspection_stop(*run_engine, str_views(args@), *env, listed, seen,
        spec_select_default_label_match(seen, spec_normalize_label_path("windows"@, w@), normalized_config_of(opt_text(config_file))), target_result_view(Ok(legacy))));
    assert(lr->Ok_0 == listed);
    assert(spec_listing_outcome(*run_engine, str_views(args@), *env, w@, opt_text(config_file), lr, target_result_view(Ok(legacy))));
    Ok(legacy)
}


pub open spec fn id_view(r: Result<Option<String>, String>) -> Result<Option<Seq<char>>, Seq<char>> {
    match r {
        Ok(Some(id)) => Ok(Some(id@)),
        Ok(None) => Ok(None),
        Err(e) => Err(e@),
    }
}

/// What querying the first container with all the labels gives (`out`):
/// `run_engine` ran `ps -q` filtered by them; its failure to run, or its
/// output's message on a non-zero status; else the first id it printed, if any.
pub open spec fn spec_query_call<F: Fn(ProcessRequest) -> Result<ProcessResult, String>>(
    run_engine: F,
    args: Seq<Seq<char>>,
    env: EnvDefaults,
    labels: Seq<Seq<char>>,
    include_stopped: bool,
    out: Result<Option<Seq<char>>, Seq<char>>,
) -> bool {
    exists|req: ProcessRequest, c: Result<ProcessResult, String>|
        req@ == spec_engine_request(args, env, spec_ps_engine_args(labels, include_stopped))
            && #[trigger] call_ensures(run_engine, (req,), c) && match c {
            Err(e) => out == Err::<Option<Seq<char>>, Seq<char>>(e@),
            Ok(p) => if p.status_code != 0 {
                out == Err::<Option<Seq<char>>, Seq<char>>(spec_stderr_or_stdout(p.stdout@, p.stderr@))
            } else if spec_parse_container_ids(p.stdout@).len() == 0 {
                out == Ok::<Option<Seq<char>>, Seq<char>>(None)
            } else {
                out == Ok::<Option<Seq<char>>, Seq<char>>(Some(spec_parse_container_ids(p.stdout@)[0]))
            },
        }
}

/// The id of the first container with all the labels: `run_engine` runs
/// `ps -q` filtered by them; a failure to run or a non-zero status is an error.
pub fn query_target_container<F: Fn(ProcessRequest) -> Result<ProcessResult, String>>(
    args: &[String],
    env: &EnvDefaults,
    labels: &Vec<String>,
    include_stopped: bool,
    run_engine: &F,
) -> (r: Result<Option<String>, String>)
    requires
        forall|req: ProcessRequest| call_requires(*run_engine, (req,)),
    ensures
        spec_query_call(*run_engine, str_views(args@), *env, str_views(labels@), include_stopped, id_view(r)),
{
    let request = engine_request(args, env, ps_engine_args(labels.as_slice(), include_stopped));
    let ghost req = request;
    let c = run_engine(request);
    assert(call_ensures(*run_engine, (req,), c));
    match &c {
        Err(e) => Err(e.clone()),
        Ok(p) => if p.status_code != 0 {
            Err(stderr_or_stdout(p))
        } else {
            let ids = parse_container_ids(p.stdout.as_str());
            if ids.len() == 0 {
                Ok(None)
            } else {
                assert(str_views(ids@)[0] == ids@[0]@);
                Ok(Some(from_chars(&to_chars(ids[0].as_str()))))
            }
        },
    }
}

pub open spec fn unable_to_determine_target() -> Seq<char> {
    "Unable to determine target container. Provide --container-id or --workspace-folder."@
}

/// What a target-container lookup gives (`r`): without labels to look for,
/// the error that says so; else the first container with the labels (see
/// `spec_query_call`), whose error is passed on; a container found carries no
/// matched labels with `--id-label`, else those of `spec_matched_call`; none
/// found, with `--id-label` or off Windows, is none; else the normalized match
/// (see `spec_normalized_call`).
pub open spec fn spec_find_target<F: Fn(ProcessRequest) -> Result<ProcessResult, String>>(
    run_engine: F,
    platform: Seq<char>,
    args: Seq<Seq<char>>,
    env: EnvDefaults,
    workspace_folder: Option<Seq<char>>,
    config_file: Option<Seq<char>>,
    include_stopped: bool,
    r: Result<Option<ResolvedTargetContainer>, String>,
) -> bool {
    let labels = spec_target_container_labels(args, workspace_folder, config_file, platform);
    let explicit = spec_option_values(args, "--id-label"@).len() > 0;
    if labels.len() == 0 {
        r is Err && r->Err_0@ == unable_to_determine_target()
    } else {
        exists|q: Result<Option<Seq<char>>, Seq<char>>|
            #[trigger] spec_query_call(run_engine, args, env, labels, include_stopped, q) && match q {
                Err(e) => target_result_view(r) == Err::<Option<(Seq<char>, Option<Seq<(Seq<char>, Seq<char>)>>)>, Seq<char>>(e),
                Ok(Some(id)) => if explicit {
                    target_result_view(r) == Ok::<Option<(Seq<char>, Option<Seq<(Seq<char>, Seq<char>)>>)>, Seq<char>>(Some((id, None)))
                } else {
                    exists|m: Result<Option<Seq<(Seq<char>, Seq<char>)>>, Seq<char>>|
                        #[trigger] spec_matched_call(run_engine, platform, args, env, id, workspace_folder, config_file, m)
                            && target_result_view(r) == match m {
                            Err(e) => Err::<Option<(Seq<char>, Option<Seq<(Seq<char>, Seq<char>)>>)>, Seq<char>>(e),
                            Ok(l) => Ok(Some((id, l))),
                        }
                },
                Ok(None) => if explicit || platform != "windows"@ {
                    target_result_view(r) == Ok::<Option<(Seq<char>, Option<Seq<(Seq<char>, Seq<char>)>>)>, Seq<char>>(None)
                } else {
                    spec_normalized_call(run_engine, args, env, workspace_folder, config_file, include_stopped, target_result_view(r))
                },
            }
    }
}

/// The container for the workspace: labels from `target_container_labels`
/// (an error when there are none), the first container with them and, unless
/// `--id-label` was given, its folder label when it matched only by that; on
/// Windows without `--id-label`, when none has them, the normalized match.
pub fn find_target_container_for_platform<F: Fn(ProcessRequest) -> Result<ProcessResult, String>>(
    platform: &str,
    args: &[String],
    env: &EnvDefaults,
    workspace_folder: Option<&str>,
    config_file: Option<&str>,
    include_stopped: bool,
    run_engine: &F,
) -> (r: Result<Option<ResolvedTargetContainer>, String>)
    requires
        forall|req: ProcessRequest| call_requires(*run_engine, (req,)),
    ensures
        spec_find_target(*run_engine, platform@, str_views(args@), *env, opt_text(workspace_folder), opt_text(config_file), include_stopped, r),
{
    let has_explicit_id_labels = option_values(args, "--id-label").len() > 0;
    let labels = target_container_labels(args, workspace_folder, config_file, platform);
    if labels.len() == 0 {
        return Err(from_chars(&to_chars("Unable to determine target container. Provide --container-id or --workspace-folder.")));
    }
    let ghost lv = str_views(labels@);
    let queried = query_target_container(args, env, &labels, include_stopped, run_engine);
    let ghost qv = id_view(queried);
    assert(spec_query_call(*run_engine, str_views(args@), *env, lv, include_stopped, qv));
    match queried {
        Err(e) => return Err(e),
        Ok(Some(container_id)) => {
            let id_labels = if !has_explicit_id_labels {
                let matched = inspect_matched_default_id_labels(args, env, platform, container_id.as_str(), workspace_folder, config_file, run_engine);
                let ghost mv = labels_result_view(matched);
                assert(spec_matched_call(*run_engine, platform@, str_views(args@), *env, container_id@, opt_text(workspace_folder), opt_text(config_file), mv));
                match matched {
                    Ok(l) => l,
                    Err(e) => return Err(e),
                }
            } else {
                None
            };
            return Ok(Some(ResolvedTargetContainer { container_id, id_labels }));
        },
        Ok(None) => {},
    }
    if has_explicit_id_labels || !str_eq(platform, "windows") {
        return Ok(None);
    }
    let found = find_normalized_default_label_match(args, env, workspace_folder, config_file, include_stopped, run_engine);
    assert(spec_normalized_call(*run_engine, str_views(args@), *env, opt_text(workspace_folder), opt_text(config_file), include_stopped, target_result_view(found)));
    found
}

pub open spec fn resolved_view(r: Result<ResolvedTargetContainer, String>) -> Result<(Seq<char>, Option<Seq<(Seq<char>, Seq<char>)>>), Seq<char>> {
    match r {
        Ok(t) => Ok(target_view(t)),
        Err(e) => Err(e@),
    }
}

/// The container a command acts on: the one `--container-id` names (with its
/// folder label when it matched the workspace only by that), else the running
/// container for the workspace, else the not-found message.
pub fn resolve_target_container_match<F: Fn(ProcessRequest) -> Result<ProcessResult, String>>(
    platform: &str,
    args: &[String],
    env: &EnvDefaults,
    workspace_folder: Option<&str>,
    config_file: Option<&str>,
    run_engine: &F,
) -> (r: Result<ResolvedTargetContainer, String>)
    requires
        forall|req: ProcessRequest| call_requires(*run_engine, (req,)),
    ensures
        crate::options::spec_option_value(str_views(args@), "--container-id"@) is Some && r is Ok
            ==> r->Ok_0.container_id@ == crate::options::spec_option_value(str_views(args@), "--container-id"@)->0,
        crate::options::spec_option_value(str_views(args@), "--container-id"@) is None
            && spec_target_container_labels(str_views(args@), opt_text(workspace_folder), opt_text(config_file), platform@).len() == 0
            ==> r is Err && r->Err_0@ == unable_to_determine_target(),
        match crate::options::spec_option_value(str_views(args@), "--container-id"@) {
            Some(id) => exists|m: Result<Option<Seq<(Seq<char>, Seq<char>)>>, Seq<char>>|
                #[trigger] spec_matched_call(*run_engine, platform@, str_views(args@), *env, id, opt_text(workspace_folder), opt_text(config_file), m)
                    && resolved_view(r) == match m {
                    Err(e) => Err::<(Seq<char>, Option<Seq<(Seq<char>, Seq<char>)>>), Seq<char>>(e),
                    Ok(l) => Ok((id, l)),
                },
            None => exists|f: Result<Option<ResolvedTargetContainer>, String>|
                #[trigger] spec_find_target(*run_engine, platform@, str_views(args@), *env, opt_text(workspace_folder), opt_text(config_file), false, f)
                    && resolved_view(r) == match f {
                    Err(e) => Err::<(Seq<char>, Option<Seq<(Seq<char>, Seq<char>)>>), Seq<char>>(e@),
                    Ok(Some(t)) => Ok(target_view(t)),
                    Ok(None) => Err(spec_dev_container_not_found_message(str_views(args@), opt_text(workspace_folder), opt_text(config_file))),
                },
        },
{
    match crate::options::option_value(args, "--container-id") {
        Some(container_id) => {
            let matched = inspect_matched_default_id_labels(args, env, platform, container_id.as_str(), workspace_folder, config_file, run_engine);
            let ghost mv = labels_result_view(matched);
            assert(spec_matched_call(*run_engine, platform@, str_views(args@), *env, container_id@, opt_text(workspace_folder), opt_text(config_file), mv));
            assert(crate::options::spec_option_value(str_views(args@), "--container-id"@) == Some(container_id@));
            let ghost cid = container_id@;
            let r = match matched {
                Ok(l) => Ok(ResolvedTargetContainer { container_id, id_labels: l }),
                Err(e) => Err(e),
            };
            assert(resolved_view(r) == match mv {
                Err(e2) => Err::<(Seq<char>, Option<Seq<(Seq<char>, Seq<char>)>>), Seq<char>>(e2),
                Ok(l) => Ok((cid, l)),
            });
            assert(match crate::options::spec_option_value(str_views(args@), "--container-id"@) {
                Some(id) => exists|m: Result<Option<Seq<(Seq<char>, Seq<char>)>>, Seq<char>>|
                    #[trigger] spec_matched_call(*run_engine, platform@, str_views(args@), *env, id, opt_text(workspace_folder), opt_text(config_file), m)
                        && resolved_view(r) == match m {
                        Err(e) => Err::<(Seq<char>, Option<Seq<(Seq<char>, Seq<char>)>>), Seq<char>>(e),
                        Ok(l) => Ok((id, l)),
                    },
                None => true,
            });
            r
        },
        None => {
            let found = find_target_container_for_platform(platform, args, env, workspace_folder, config_file, false, run_engine);
            let ghost fv = found;
            assert(spec_find_target(*run_engine, platform@, str_views(args@), *env, opt_text(workspace_folder), opt_text(config_file), false, fv));
            let r = match found {
                Err(e) => Err(e),
                Ok(Some(t)) => Ok(t),
                Ok(None) => {
                    let message = dev_container_not_found_message(args, workspace_folder, config_file);
                    assert(message@ == spec_dev_container_not_found_message(str_views(args@), opt_text(workspace_folder), opt_text(config_file)));
                    Err(message)
                },
            };
            assert(crate::options::spec_option_value(str_views(args@), "--container-id"@) is None);
            assert(resolved_view(r) == match fv {
                Err(e) => Err::<(Seq<char>, Option<Seq<(Seq<char>, Seq<char>)>>), Seq<char>>(e@),
                Ok(Some(t)) => Ok(target_view(t)),
                Ok(None) => Err(spec_dev_container_not_found_message(str_views(args@), opt_text(workspace_folder), opt_text(config_file))),
            });
            r
        },
    }
}

} // verus!
