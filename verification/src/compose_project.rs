//! The compose project: its compose files and its name.

use vstd::prelude::*;
use crate::compose::{spec_sanitize_project_name, sanitize_project_name, spec_substitute_compose_env, substitute_compose_env_with};
use crate::engine::pair_views;
use crate::json::{get_str, items_view, json_get, json_view, lemma_items_view, JsonValue, JsonView};
use crate::options::opt_str;
use crate::paths::{resolve_relative, spec_resolve_relative};
use crate::text::{from_chars, lines, lines_chars, split, split_chars, starts_with, str_views, strip_prefix, strip_prefix_str, to_chars, trim, trim_chars, views};

verus! {

/// The value of the first `.env` line that, trimmed, starts with `prefix` and
/// has a value that is not blank; the value trimmed.
pub open spec fn dotenv_value_in(ls: Seq<Seq<char>>, prefix: Seq<char>) -> Option<Seq<char>>
    decreases ls.len(),
{
    if ls.len() == 0 {
        None
    } else {
        match strip_prefix(trim(ls[0]), prefix) {
            Some(v) => if trim(v).len() > 0 {
                Some(trim(v))
            } else {
                dotenv_value_in(ls.drop_first(), prefix)
            },
            None => dotenv_value_in(ls.drop_first(), prefix),
        }
    }
}

pub open spec fn spec_dotenv_value(text: Seq<char>, prefix: Seq<char>) -> Option<Seq<char>> {
    dotenv_value_in(lines(text), prefix)
}

/// The value an `.env` text gives for a `NAME=` prefix (see `spec_dotenv_value`).
pub fn dotenv_value(text: &str, prefix: &str) -> (r: Option<String>)
    ensures
        opt_str(r) == spec_dotenv_value(text@, prefix@),
{
    let ls = lines_chars(&to_chars(text));
    let ghost lv = views(ls@);
    let mut k: usize = 0;
    assert(lv.skip(0) =~= lv);
    while k < ls.len()
        invariant
            k <= ls.len(),
            lv == views(ls@),
            lv == lines(text@),
            spec_dotenv_value(text@, prefix@) == dotenv_value_in(lv.skip(k as int), prefix@),
        decreases ls.len() - k,
    {
        assert(lv.skip(k as int)[0] == ls@[k as int]@);
        assert(lv.skip(k as int).drop_first() =~= lv.skip(k + 1));
        match strip_prefix_str(&trim_chars(&ls[k]), prefix) {
            Some(v) => {
                let t = trim_chars(&v);
                if t.len() > 0 {
                    return Some(from_chars(&t));
                }
            },
            None => {},
        }
        k = k + 1;
    }
    assert(lv.skip(k as int) =~= Seq::<Seq<char>>::empty());
    None
}

/// The `name:` of a compose file: the first line that starts with it (not
/// indented) and has a value, that value trimmed and interpolated.
pub open spec fn compose_name_in(ls: Seq<Seq<char>>, environment: Seq<(Seq<char>, Seq<char>)>) -> Option<Seq<char>>
    decreases ls.len(),
{
    if ls.len() == 0 {
        None
    } else {
        let line = ls[0];
        let indented = line.len() > 0 && (line[0] == ' ' || line[0] == '\t');
        if !indented && strip_prefix(line, "name:"@) is Some && trim(strip_prefix(line, "name:"@)->0).len() > 0 {
            Some(spec_substitute_compose_env(trim(strip_prefix(line, "name:"@)->0), environment))
        } else {
            compose_name_in(ls.drop_first(), environment)
        }
    }
}

pub open spec fn spec_compose_name_from_text(text: Seq<char>, environment: Seq<(Seq<char>, Seq<char>)>) -> Option<Seq<char>> {
    compose_name_in(lines(text), environment)
}

pub fn compose_name_from_text(text: &str, environment: &Vec<(String, String)>) -> (r: Option<String>)
    ensures
        opt_str(r) == spec_compose_name_from_text(text@, pair_views(environment@)),
{
    let ls = lines_chars(&to_chars(text));
    let ghost lv = views(ls@);
    let mut k: usize = 0;
    assert(lv.skip(0) =~= lv);
    while k < ls.len()
        invariant
            k <= ls.len(),
            lv == views(ls@),
            lv == lines(text@),
            spec_compose_name_from_text(text@, pair_views(environment@)) == compose_name_in(lv.skip(k as int), pair_views(environment@)),
        decreases ls.len() - k,
    {
        assert(lv.skip(k as int)[0] == ls@[k as int]@);
        assert(lv.skip(k as int).drop_first() =~= lv.skip(k + 1));
        let line = &ls[k];
        let indented = line.len() > 0 && (line[0] == ' ' || line[0] == '\t');
        if !indented {
            match strip_prefix_str(line, "name:") {
                Some(v) => {
                    let t = trim_chars(&v);
                    if t.len() > 0 {
                        let value = from_chars(&t);
                        return Some(substitute_compose_env_with(value.as_str(), environment));
                    }
                },
                None => {},
            }
        }
        k = k + 1;
    }
    assert(lv.skip(k as int) =~= Seq::<Seq<char>>::empty());
    None
}

/// The name that the last compose file with a `name:` gives.
pub open spec fn last_compose_name(texts: Seq<Seq<char>>, environment: Seq<(Seq<char>, Seq<char>)>) -> Option<Seq<char>>
    decreases texts.len(),
{
    if texts.len() == 0 {
        None
    } else {
        match spec_compose_name_from_text(texts.last(), environment) {
            Some(n) => Some(n),
            None => last_compose_name(texts.drop_last(), environment),
        }
    }
}

/// The project's default name from the folder of the first compose file:
/// `<parent>_devcontainer` for a `.devcontainer` folder, else the folder's name.
pub open spec fn default_project_base(folder_name: Option<Seq<char>>, parent_name: Option<Seq<char>>) -> Seq<char> {
    if folder_name == Some(".devcontainer"@) {
        let parent: Seq<char> = match parent_name {
            Some(p) => p,
            None => "devcontainer"@,
        };
        parent + "_devcontainer"@
    } else {
        match folder_name {
            Some(n) => n,
            None => "devcontainer"@,
        }
    }
}

pub open spec fn no_compose_file_error() -> Seq<char> {
    "Compose configuration must define at least one compose file"@
}

/// The compose project's name, sanitized: `COMPOSE_PROJECT_NAME` when not
/// blank; else the one `.env` next to the first compose file gives; else the
/// `name:` of the last compose file with one; else the default from the
/// folder. Without a first compose file's folder, an error.
pub open spec fn spec_compose_project_name(
    environment_name: Option<Seq<char>>,
    folder: Option<(Option<Seq<char>>, Option<Seq<char>>)>,
    dotenv_text: Option<Seq<char>>,
    compose_texts: Seq<Seq<char>>,
    environment: Seq<(Seq<char>, Seq<char>)>,
) -> Result<Seq<char>, Seq<char>> {
    if environment_name is Some && trim(environment_name->0).len() > 0 {
        Ok(spec_sanitize_project_name(environment_name->0))
    } else if folder is None {
        Err(no_compose_file_error())
    } else {
        match (match dotenv_text {
            Some(t) => spec_dotenv_value(t, "COMPOSE_PROJECT_NAME="@),
            None => None,
        }) {
            Some(v) => Ok(spec_sanitize_project_name(v)),
            None => match last_compose_name(compose_texts, environment) {
                Some(n) => Ok(spec_sanitize_project_name(n)),
                None => Ok(spec_sanitize_project_name(default_project_base((folder->0).0, (folder->0).1))),
            },
        }
    }
}

pub open spec fn folder_view(folder: Option<(Option<String>, Option<String>)>) -> Option<(Option<Seq<char>>, Option<Seq<char>>)> {
    match folder {
        Some((a, b)) => Some((opt_str(a), opt_str(b))),
        None => None,
    }
}

/// The compose project's name (see `spec_compose_project_name`): from the
/// environment's `COMPOSE_PROJECT_NAME`, the names of the first compose
/// file's folder and of its parent, the text of the `.env` file beside it
/// when there is one, the texts of the compose files, and the environment
/// that `name:` values are interpolated from.
pub fn compose_project_name(
    environment_name: Option<&str>,
    folder: Option<(Option<String>, Option<String>)>,
    dotenv_text: Option<&str>,
    compose_texts: &Vec<String>,
    environment: &Vec<(String, String)>,
) -> (r: Result<String, String>)
    ensures
        crate::engine_run::string_result_view(r) == spec_compose_project_name(
            match environment_name {
                Some(n) => Some(n@),
                None => None,
            },
            folder_view(folder),
            match dotenv_text {
                Some(t) => Some(t@),
                None => None,
            },
            str_views(compose_texts@),
            pair_views(environment@),
        ),
{
    let ghost en = match environment_name {
        Some(n) => Some(n@),
        None => None,
    };
    let ghost fv = folder_view(folder);
    let ghost dv = match dotenv_text {
        Some(t) => Some(t@),
        None => None,
    };
    let ghost ev = pair_views(environment@);
    match environment_name {
        Some(n) => {
            if trim_chars(&to_chars(n)).len() > 0 {
                return Ok(sanitize_project_name(n));
            }
        },
        None => {},
    }
    let (folder_name, parent_name) = match folder {
        Some(f) => f,
        None => return Err(from_chars(&to_chars("Compose configuration must define at least one compose file"))),
    };
    match dotenv_text {
        Some(t) => match dotenv_value(t, "COMPOSE_PROJECT_NAME=") {
            Some(v) => return Ok(sanitize_project_name(v.as_str())),
            None => {},
        },
        None => {},
    }
    let ghost tv = str_views(compose_texts@);
    let mut k: usize = compose_texts.len();
    assert(tv.take(tv.len() as int) =~= tv);
    while k > 0
        invariant
            k <= compose_texts.len(),
            tv == str_views(compose_texts@),
            ev == pair_views(environment@),
            en == match environment_name {
                Some(n) => Some(n@),
                None => None,
            },
            dv == match dotenv_text {
                Some(t) => Some(t@),
                None => None,
            },
            fv == folder_view(folder),
            spec_compose_project_name(en, fv, dv, tv, ev) == match last_compose_name(tv.take(k as int), ev) {
                Some(n) => Ok::<Seq<char>, Seq<char>>(spec_sanitize_project_name(n)),
                None => Ok::<Seq<char>, Seq<char>>(spec_sanitize_project_name(default_project_base(opt_str(folder_name), opt_str(parent_name)))),
            },
        decreases k,
    {
        assert(tv.take(k as int).drop_last() =~= tv.take(k - 1));
        assert(tv.take(k as int).last() == compose_texts@[k - 1]@);
        match compose_name_from_text(compose_texts[k - 1].as_str(), environment) {
            Some(n) => {
                assert(last_compose_name(tv.take(k as int), ev) == Some(n@));
                return Ok(sanitize_project_name(n.as_str()));
            },
            None => {},
        }
        k = k - 1;
    }
    assert(tv.take(0) =~= Seq::<Seq<char>>::empty());
    let is_devcontainer = match &folder_name {
        Some(n) => crate::options::str_eq(n.as_str(), ".devcontainer"),
        None => false,
    };
    let base = if is_devcontainer {
        let mut b = match &parent_name {
            Some(p) => to_chars(p.as_str()),
            None => to_chars("devcontainer"),
        };
        crate::text::push_str(&mut b, "_devcontainer");
        from_chars(&b)
    } else {
        match folder_name {
            Some(n) => n,
            None => from_chars(&to_chars("devcontainer")),
        }
    };
    Ok(sanitize_project_name(base.as_str()))
}

/// The compose files that `COMPOSE_FILE` lists, split at the platform's
/// separator, each relative one under the workspace; none without a value.
pub open spec fn spec_compose_files_from_env(value: Option<Seq<char>>, workspace_root: Seq<char>, separator: char) -> Option<Seq<Seq<char>>> {
    match value {
        None => None,
        Some(v) => Some(split(v, separator).map_values(|p: Seq<char>| spec_resolve_relative(workspace_root, p))),
    }
}

pub fn compose_files_from_env(value: Option<&str>, workspace_root: &str, separator: char) -> (r: Option<Vec<String>>)
    ensures
        match r {
            Some(v) => spec_compose_files_from_env(match value {
                Some(t) => Some(t@),
                None => None,
            }, workspace_root@, separator) == Some(str_views(v@)),
            None => value is None,
        },
{
    let v = match value {
        Some(v) => v,
        None => return None,
    };
    let pieces = split_chars(&to_chars(v), separator);
    let ghost pv = views(pieces@);
    let mut out: Vec<String> = Vec::new();
    let mut k: usize = 0;
    while k < pieces.len()
        invariant
            k <= pieces.len(),
            pv == views(pieces@),
            pv == split(v@, separator),
            str_views(out@) == pv.take(k as int).map_values(|p: Seq<char>| spec_resolve_relative(workspace_root@, p)),
        decreases pieces.len() - k,
    {
        let piece = from_chars(&pieces[k]);
        let f = resolve_relative(workspace_root, piece.as_str());
        assert(str_views(out@.push(f)) =~= str_views(out@).push(f@));
        out.push(f);
        assert(pv[k as int] == pieces@[k as int]@);
        assert(pv.take(k + 1).map_values(|p: Seq<char>| spec_resolve_relative(workspace_root@, p))
            =~= pv.take(k as int).map_values(|p: Seq<char>| spec_resolve_relative(workspace_root@, p)).push(f@));
        k = k + 1;
    }
    assert(pv.take(k as int) =~= pv);
    Some(out)
}

pub open spec fn compose_files_result_view(r: Result<Vec<String>, String>) -> Result<Seq<Seq<char>>, Seq<char>> {
    match r {
        Ok(v) => Ok(str_views(v@)),
        Err(e) => Err(e@),
    }
}

/// Whether every item is a string.
pub open spec fn all_strings(items: Seq<JsonView>) -> bool {
    forall|i: int| 0 <= i < items.len() ==> #[trigger] items[i] is Str
}

/// The compose files a configuration names, relative to its folder: one
/// string, or a non-empty array of strings; an empty array means the default
/// files; anything else, or nothing, is an error.
pub open spec fn spec_compose_files(configuration: JsonView, config_root: Seq<char>, default_files: Result<Seq<Seq<char>>, Seq<char>>) -> Result<Seq<Seq<char>>, Seq<char>> {
    match json_get(configuration, "dockerComposeFile"@) {
        Some(JsonView::Str(v)) => Ok(seq![spec_resolve_relative(config_root, v)]),
        Some(JsonView::Array(items)) => if items.len() == 0 {
            default_files
        } else if all_strings(items) {
            Ok(items.map_values(|i: JsonView| spec_resolve_relative(config_root, i->Str_0)))
        } else {
            Err("dockerComposeFile entries must be strings"@)
        },
        Some(_) => Err("dockerComposeFile must be a string or array of strings"@),
        None => Err("Compose configuration must define dockerComposeFile"@),
    }
}

/// The compose files of a configuration (see `spec_compose_files`);
/// `default_files` gives the default files, and is asked only for an empty array.
pub fn compose_files<D: FnOnce() -> Result<Vec<String>, String>>(configuration: &JsonValue, config_root: &str, default_files: D) -> (r: Result<Vec<String>, String>)
    requires
        call_requires(default_files, ()),
    ensures
        match json_get(configuration@, "dockerComposeFile"@) {
            Some(JsonView::Array(items)) => items.len() == 0 ==> exists|d: Result<Vec<String>, String>|
                call_ensures(default_files, (), d) && r == d,
            _ => true,
        },
        !(json_get(configuration@, "dockerComposeFile"@) matches Some(JsonView::Array(items)) && items.len() == 0)
            ==> compose_files_result_view(r) == spec_compose_files(configuration@, config_root@, Err(seq![])),
{
    match configuration.get("dockerComposeFile") {
        Some(JsonValue::String(v)) => {
            let mut out: Vec<String> = Vec::new();
            out.push(resolve_relative(config_root, v.as_str()));
            assert(str_views(out@) =~= seq![out@[0]@]);
            Ok(out)
        },
        Some(JsonValue::Array(items)) => {
            proof {
                lemma_items_view(items@);
            }
            if items.len() == 0 {
                return default_files();
            }
            let ghost iv = items_view(items@);
            let mut out: Vec<String> = Vec::new();
            let mut k: usize = 0;
            while k < items.len()
                invariant
                    k <= items.len(),
                    iv == items_view(items@),
                    iv.len() == items@.len(),
                    iv.len() > 0,
                    json_get(configuration@, "dockerComposeFile"@) == Some(JsonView::Array(iv)),
                    forall|i: int| 0 <= i < items@.len() ==> #[trigger] iv[i] == json_view(items@[i]),
                    forall|i: int| 0 <= i < k ==> #[trigger] iv[i] is Str,
                    str_views(out@) == iv.take(k as int).map_values(|i: JsonView| spec_resolve_relative(config_root@, i->Str_0)),
                decreases items.len() - k,
            {
                match &items[k] {
                    JsonValue::String(p) => {
                        let f = resolve_relative(config_root, p.as_str());
                        assert(str_views(out@.push(f)) =~= str_views(out@).push(f@));
                        out.push(f);
                        assert(iv.take(k + 1).map_values(|i: JsonView| spec_resolve_relative(config_root@, i->Str_0))
                            =~= iv.take(k as int).map_values(|i: JsonView| spec_resolve_relative(config_root@, i->Str_0)).push(f@));
                    },
                    _ => {
                        assert(iv[k as int] == json_view(items@[k as int]));
                        assert(!(iv[k as int] is Str));
                        assert(!all_strings(iv));
                        return Err(from_chars(&to_chars("dockerComposeFile entries must be strings")));
                    },
                }
                k = k + 1;
            }
            assert(iv.take(k as int) =~= iv);
            assert(all_strings(iv));
            Ok(out)
        },
        Some(_) => Err(from_chars(&to_chars("dockerComposeFile must be a string or array of strings"))),
        None => Err(from_chars(&to_chars("Compose configuration must define dockerComposeFile"))),
    }
}

/// The compose files used when the configuration lists none: those of
/// `COMPOSE_FILE` in the environment; else those of a non-blank
/// `COMPOSE_FILE=` in the workspace's `.env`; else the workspace's
/// `docker-compose.yml`, and its `docker-compose.override.yml` when that file
/// exists.
pub open spec fn spec_default_compose_files(
    env_value: Option<Seq<char>>,
    dotenv_text: Option<Seq<char>>,
    workspace_root: Seq<char>,
    separator: char,
    override_exists: bool,
) -> Seq<Seq<char>> {
    let from_dotenv = match dotenv_text {
        Some(t) => spec_dotenv_value(t, "COMPOSE_FILE="@),
        None => None,
    };
    match env_value {
        Some(v) => spec_compose_files_from_env(Some(v), workspace_root, separator)->0,
        None => match from_dotenv {
            Some(v) => spec_compose_files_from_env(Some(v), workspace_root, separator)->0,
            None => seq![spec_resolve_relative(workspace_root, "docker-compose.yml"@)] + if override_exists {
                seq![spec_resolve_relative(workspace_root, "docker-compose.override.yml"@)]
            } else {
                seq![]
            },
        },
    }
}

pub fn default_compose_files(
    env_value: Option<&str>,
    dotenv_text: Option<&str>,
    workspace_root: &str,
    separator: char,
    override_exists: bool,
) -> (r: Vec<String>)
    ensures
        str_views(r@) == spec_default_compose_files(
            match env_value {
                Some(v) => Some(v@),
                None => None,
            },
            match dotenv_text {
                Some(t) => Some(t@),
                None => None,
            },
            workspace_root@,
            separator,
            override_exists,
        ),
{
    match env_value {
        Some(v) => match compose_files_from_env(Some(v), workspace_root, separator) {
            Some(files) => return files,
            None => {},
        },
        None => {},
    }
    let from_dotenv = match dotenv_text {
        Some(t) => dotenv_value(t, "COMPOSE_FILE="),
        None => None,
    };
    match &from_dotenv {
        Some(v) => match compose_files_from_env(Some(v.as_str()), workspace_root, separator) {
            Some(files) => return files,
            None => {},
        },
        None => {},
    }
    let mut files: Vec<String> = Vec::new();
    files.push(resolve_relative(workspace_root, "docker-compose.yml"));
    if override_exists {
        files.push(resolve_relative(workspace_root, "docker-compose.override.yml"));
    }
    proof {
        if override_exists {
            assert(str_views(files@) =~= seq![files@[0]@, files@[1]@]);
        } else {
            assert(str_views(files@) =~= seq![files@[0]@]);
        }
    }
    files
}

/// A `COMPOSE_PROJECT_NAME` in the environment that is not blank names the
/// project whatever the compose files and their `.env` say; a blank one is
/// passed over as if it were not set.
pub proof fn law_environment_project_name_wins(
    environment_name: Seq<char>,
    folder: Option<(Option<Seq<char>>, Option<Seq<char>>)>,
    dotenv_text: Option<Seq<char>>,
    compose_texts: Seq<Seq<char>>,
    environment: Seq<(Seq<char>, Seq<char>)>,
)
    ensures
        trim(environment_name).len() > 0 ==> spec_compose_project_name(Some(environment_name), folder, dotenv_text, compose_texts, environment)
            == Ok::<Seq<char>, Seq<char>>(spec_sanitize_project_name(environment_name)),
        trim(environment_name).len() == 0 ==> spec_compose_project_name(Some(environment_name), folder, dotenv_text, compose_texts, environment)
            == spec_compose_project_name(None, folder, dotenv_text, compose_texts, environment),
{
}

} // verus!
