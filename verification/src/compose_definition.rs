//! A compose service's definition as the compose files give it: its image,
//! build, user, entrypoint and command, later files overriding earlier ones.

use vstd::prelude::*;
use crate::compose::{spec_split_shell_words, split_shell_words, ComposeSpec};
use crate::compose_override::{entries_get, clone_json};
use crate::engine::pair_views;
use crate::json::{entries_view, entry_value, items_view, json_view, lemma_entries_view, lemma_items_view, JsonValue, JsonView};
use crate::options::opt_str;
use crate::text::{from_chars, lines, lines_chars, str_views, to_chars, trim, trim_chars, trim_start, trim_start_chars, starts_with, views};

verus! {

/// A YAML scalar as text: strings as they are, booleans and numbers as
/// printed, null as empty; nothing for sequences and mappings.
pub open spec fn spec_yaml_scalar_to_string(value: JsonView) -> Option<Seq<char>> {
    match value {
        JsonView::Str(t) => Some(t),
        JsonView::Bool(b) => Some(if b { "true"@ } else { "false"@ }),
        JsonView::Number(n) => Some(n),
        JsonView::Null => Some(seq![]),
        _ => None,
    }
}

pub fn yaml_scalar_to_string(value: &JsonValue) -> (r: Option<String>)
    ensures
        opt_str(r) == spec_yaml_scalar_to_string(value@),
{
    match value {
        JsonValue::String(t) => Some(from_chars(&to_chars(t.as_str()))),
        JsonValue::Bool(b) => Some(from_chars(&to_chars(if *b { "true" } else { "false" }))),
        JsonValue::Number(n) => Some(from_chars(&to_chars(n.as_str()))),
        JsonValue::Null => Some(String::new()),
        _ => None,
    }
}

/// The scalar entries of a mapping, as text.
pub open spec fn scalar_entries(entries: Seq<(Seq<char>, JsonView)>) -> Seq<(Seq<char>, Seq<char>)>
    decreases entries.len(),
{
    if entries.len() == 0 {
        seq![]
    } else {
        scalar_entries(entries.drop_last()) + match spec_yaml_scalar_to_string(entries.last().1) {
            Some(v) => seq![(entries.last().0, v)],
            None => seq![],
        }
    }
}

/// Build arguments: the scalar entries of a mapping, when there are any.
pub open spec fn spec_parse_build_args(value: JsonView) -> Option<Seq<(Seq<char>, Seq<char>)>> {
    match value {
        JsonView::Object(entries) => if scalar_entries(entries).len() > 0 {
            Some(scalar_entries(entries))
        } else {
            None
        },
        _ => None,
    }
}

pub open spec fn opt_pairs(o: Option<Vec<(String, String)>>) -> Option<Seq<(Seq<char>, Seq<char>)>> {
    match o {
        Some(v) => Some(pair_views(v@)),
        None => None,
    }
}

pub fn parse_build_args(value: &JsonValue) -> (r: Option<Vec<(String, String)>>)
    ensures
        opt_pairs(r) == spec_parse_build_args(value@),
{
    let entries = match value {
        JsonValue::Object(e) => e,
        _ => return None,
    };
    proof {
        lemma_entries_view(entries@);
    }
    let ghost ev = entries_view(entries@);
    let mut out: Vec<(String, String)> = Vec::new();
    let mut k: usize = 0;
    assert(ev.take(0) =~= Seq::<(Seq<char>, JsonView)>::empty());
    assert(pair_views(out@) =~= Seq::<(Seq<char>, Seq<char>)>::empty());
    while k < entries.len()
        invariant
            k <= entries.len(),
            ev == entries_view(entries@),
            ev.len() == entries@.len(),
            forall|i: int| 0 <= i < entries@.len() ==> #[trigger] ev[i] == (entries@[i].0@, json_view(entries@[i].1)),
            pair_views(out@) == scalar_entries(ev.take(k as int)),
        decreases entries.len() - k,
    {
        assert(ev.take(k + 1).drop_last() =~= ev.take(k as int));
        assert(ev.take(k + 1).last() == ev[k as int]);
        match yaml_scalar_to_string(&entries[k].1) {
            Some(v) => {
                let pair = (from_chars(&to_chars(entries[k].0.as_str())), v);
                assert(pair_views(out@.push(pair)) =~= pair_views(out@).push((pair.0@, pair.1@)));
                out.push(pair);
            },
            None => {},
        }
        assert(pair_views(out@) =~= scalar_entries(ev.take(k + 1)));
        k = k + 1;
    }
    assert(ev.take(k as int) =~= ev);
    if out.len() > 0 {
        Some(out)
    } else {
        None
    }
}

/// How a service is built: its context, Dockerfile, target and arguments.
#[derive(Debug, PartialEq, Eq)]
pub struct ServiceBuildInfo {
    pub context: String,
    pub dockerfile_path: String,
    pub target: Option<String>,
    pub args: Option<Vec<(String, String)>>,
}

pub open spec fn build_view(b: ServiceBuildInfo) -> (Seq<char>, Seq<char>, Option<Seq<char>>, Option<Seq<(Seq<char>, Seq<char>)>>) {
    (b.context@, b.dockerfile_path@, opt_str(b.target), opt_pairs(b.args))
}

pub open spec fn opt_build_view(b: Option<ServiceBuildInfo>) -> Option<(Seq<char>, Seq<char>, Option<Seq<char>>, Option<Seq<(Seq<char>, Seq<char>)>>)> {
    match b {
        Some(x) => Some(build_view(x)),
        None => None,
    }
}

/// A service's `build`: a string is the context (with `Dockerfile`); a
/// mapping gives `context` (default the first compose file's folder),
/// `dockerfile` (default `Dockerfile`), `target` and `args`.
pub open spec fn spec_parse_service_build(value: JsonView, default_context: Seq<char>) -> Option<(Seq<char>, Seq<char>, Option<Seq<char>>, Option<Seq<(Seq<char>, Seq<char>)>>)> {
    match value {
        JsonView::Str(context) => Some((context, "Dockerfile"@, None, None)),
        JsonView::Object(m) => Some((
            match entry_value(m, "context"@) {
                Some(JsonView::Str(c)) => c,
                _ => default_context,
            },
            match entry_value(m, "dockerfile"@) {
                Some(JsonView::Str(d)) => d,
                _ => "Dockerfile"@,
            },
            match entry_value(m, "target"@) {
                Some(JsonView::Str(t)) => Some(t),
                _ => None,
            },
            match entry_value(m, "args"@) {
                Some(a) => spec_parse_build_args(a),
                None => None,
            },
        )),
        _ => None,
    }
}

fn member_text(m: &Vec<(String, JsonValue)>, key: &str) -> (r: Option<String>)
    ensures
        opt_str(r) == match entry_value(entries_view(m@), key@) {
            Some(JsonView::Str(t)) => Some(t),
            _ => None,
        },
{
    match entries_get(m, key) {
        Some(JsonValue::String(t)) => Some(from_chars(&to_chars(t.as_str()))),
        _ => None,
    }
}

pub fn parse_service_build(value: &JsonValue, default_context: &str) -> (r: Option<ServiceBuildInfo>)
    ensures
        opt_build_view(r) == spec_parse_service_build(value@, default_context@),
{
    match value {
        JsonValue::String(context) => Some(ServiceBuildInfo {
            context: from_chars(&to_chars(context.as_str())),
            dockerfile_path: from_chars(&to_chars("Dockerfile")),
            target: None,
            args: None,
        }),
        JsonValue::Object(m) => {
            let context = match member_text(m, "context") {
                Some(c) => c,
                None => from_chars(&to_chars(default_context)),
            };
            let dockerfile_path = match member_text(m, "dockerfile") {
                Some(d) => d,
                None => from_chars(&to_chars("Dockerfile")),
            };
            let target = member_text(m, "target");
            let args = match entries_get(m, "args") {
                Some(a) => parse_build_args(a),
                None => None,
            };
            Some(ServiceBuildInfo { context, dockerfile_path, target, args })
        },
        _ => None,
    }
}

/// The scalar items of a sequence, as text.
pub open spec fn scalar_items(items: Seq<JsonView>) -> Seq<Seq<char>>
    decreases items.len(),
{
    if items.len() == 0 {
        seq![]
    } else {
        scalar_items(items.drop_last()) + match spec_yaml_scalar_to_string(items.last()) {
            Some(v) => seq![v],
            None => seq![],
        }
    }
}

/// An entrypoint or command: a string split into shell words, the scalar
/// items of a sequence, none for null (an empty command); other values are ignored.
pub open spec fn spec_parse_service_command(value: JsonView) -> Option<Seq<Seq<char>>> {
    match value {
        JsonView::Str(text) => Some(spec_split_shell_words(text)),
        JsonView::Array(items) => Some(scalar_items(items)),
        JsonView::Null => Some(seq![]),
        _ => None,
    }
}

pub open spec fn opt_strs(o: Option<Vec<String>>) -> Option<Seq<Seq<char>>> {
    match o {
        Some(v) => Some(str_views(v@)),
        None => None,
    }
}

pub fn parse_service_command(value: &JsonValue) -> (r: Option<Vec<String>>)
    ensures
        opt_strs(r) == spec_parse_service_command(value@),
{
    match value {
        JsonValue::String(text) => Some(split_shell_words(text.as_str())),
        JsonValue::Array(items) => {
            proof {
                lemma_items_view(items@);
            }
            let ghost iv = items_view(items@);
            let mut out: Vec<String> = Vec::new();
            let mut k: usize = 0;
            assert(iv.take(0) =~= Seq::<JsonView>::empty());
            assert(str_views(out@) =~= Seq::<Seq<char>>::empty());
            while k < items.len()
                invariant
                    k <= items.len(),
                    iv == items_view(items@),
                    iv.len() == items@.len(),
                    forall|i: int| 0 <= i < items@.len() ==> #[trigger] iv[i] == json_view(items@[i]),
                    str_views(out@) == scalar_items(iv.take(k as int)),
                decreases items.len() - k,
            {
                assert(iv.take(k + 1).drop_last() =~= iv.take(k as int));
                assert(iv.take(k + 1).last() == iv[k as int]);
                match yaml_scalar_to_string(&items[k]) {
                    Some(v) => {
                        assert(str_views(out@.push(v)) =~= str_views(out@).push(v@));
                        out.push(v);
                    },
                    None => {},
                }
                assert(str_views(out@) =~= scalar_items(iv.take(k + 1)));
                k = k + 1;
            }
            assert(iv.take(k as int) =~= iv);
            Some(out)
        },
        JsonValue::Null => Some(Vec::new()),
        _ => None,
    }
}

/// A service as its compose files define it.
pub struct ServiceDefinition {
    pub image: Option<String>,
    pub has_build: bool,
    pub build: Option<ServiceBuildInfo>,
    pub user: Option<String>,
    pub entrypoint: Option<Vec<String>>,
    pub command: Option<Vec<String>>,
}

pub struct DefinitionView {
    pub image: Option<Seq<char>>,
    pub has_build: bool,
    pub build: Option<(Seq<char>, Seq<char>, Option<Seq<char>>, Option<Seq<(Seq<char>, Seq<char>)>>)>,
    pub user: Option<Seq<char>>,
    pub entrypoint: Option<Seq<Seq<char>>>,
    pub command: Option<Seq<Seq<char>>>,
}

impl View for ServiceDefinition {
    type V = DefinitionView;

    open spec fn view(&self) -> DefinitionView {
        DefinitionView {
            image: opt_str(self.image),
            has_build: self.has_build,
            build: opt_build_view(self.build),
            user: opt_str(self.user),
            entrypoint: opt_strs(self.entrypoint),
            command: opt_strs(self.command),
        }
    }
}

/// The service's mapping in a parsed compose file, when it has one.
pub open spec fn document_service(document: JsonView, service: Seq<char>) -> Option<Seq<(Seq<char>, JsonView)>> {
    match document {
        JsonView::Object(root) => match entry_value(root, "services"@) {
            Some(JsonView::Object(services)) => match entry_value(services, service) {
                Some(JsonView::Object(d)) => Some(d),
                _ => None,
            },
            _ => None,
        },
        _ => None,
    }
}

/// One file's definition of the service applied over what earlier files gave.
pub open spec fn definition_step(view: DefinitionView, d: Seq<(Seq<char>, JsonView)>, default_context: Seq<char>) -> DefinitionView {
    DefinitionView {
        image: match entry_value(d, "image"@) {
            Some(JsonView::Str(i)) => Some(i),
            _ => view.image,
        },
        has_build: view.has_build || entry_value(d, "build"@) is Some,
        build: match entry_value(d, "build"@) {
            Some(b) => spec_parse_service_build(b, default_context),
            None => view.build,
        },
        user: match entry_value(d, "user"@) {
            Some(JsonView::Str(u)) => Some(u),
            _ => view.user,
        },
        entrypoint: match entry_value(d, "entrypoint"@) {
            Some(e) => match spec_parse_service_command(e) {
                Some(c) => Some(c),
                None => view.entrypoint,
            },
            None => view.entrypoint,
        },
        command: match entry_value(d, "command"@) {
            Some(e) => match spec_parse_service_command(e) {
                Some(c) => Some(c),
                None => view.command,
            },
            None => view.command,
        },
    }
}

pub open spec fn empty_definition() -> DefinitionView {
    DefinitionView { image: None, has_build: false, build: None, user: None, entrypoint: None, command: None }
}

/// Whether any of the files defines the service, and what they define, in order.
pub open spec fn spec_definition_from_documents(documents: Seq<JsonView>, service: Seq<char>, default_context: Seq<char>) -> (bool, DefinitionView)
    decreases documents.len(),
{
    if documents.len() == 0 {
        (false, empty_definition())
    } else {
        let (found, view) = spec_definition_from_documents(documents.drop_last(), service, default_context);
        match document_service(documents.last(), service) {
            Some(d) => (true, definition_step(view, d, default_context)),
            None => (found, view),
        }
    }
}

pub open spec fn missing_service_error(service: Seq<char>) -> Seq<char> {
    "Unable to locate compose service `"@ + service + "` in compose configuration"@
}

fn document_service_exec<'a>(document: &'a JsonValue, service: &str) -> (r: Option<&'a Vec<(String, JsonValue)>>)
    ensures
        match r {
            Some(d) => document_service(document@, service@) == Some(entries_view(d@)),
            None => document_service(document@, service@) is None,
        },
{
    match document {
        JsonValue::Object(root) => match entries_get(root, "services") {
            Some(JsonValue::Object(services)) => match entries_get(services, service) {
                Some(JsonValue::Object(d)) => Some(d),
                _ => None,
            },
            _ => None,
        },
        _ => None,
    }
}

/// The service's definition across the parsed compose files (see
/// `spec_definition_from_documents`); an error when none defines it.
pub fn service_definition_from_documents(documents: &Vec<JsonValue>, service: &str, default_context: &str) -> (r: Result<ServiceDefinition, String>)
    ensures
        match r {
            Ok(d) => spec_definition_from_documents(items_view(documents@), service@, default_context@) == (true, d@),
            Err(e) => !spec_definition_from_documents(items_view(documents@), service@, default_context@).0
                && e@ == missing_service_error(service@),
        },
{
    proof {
        lemma_items_view(documents@);
    }
    let ghost dv = items_view(documents@);
    let mut definition = ServiceDefinition { image: None, has_build: false, build: None, user: None, entrypoint: None, command: None };
    let mut found = false;
    let mut k: usize = 0;
    assert(dv.take(0) =~= Seq::<JsonView>::empty());
    while k < documents.len()
        invariant
            k <= documents.len(),
            dv == items_view(documents@),
            dv.len() == documents@.len(),
            forall|i: int| 0 <= i < documents@.len() ==> #[trigger] dv[i] == json_view(documents@[i]),
            spec_definition_from_documents(dv.take(k as int), service@, default_context@) == (found, definition@),
        decreases documents.len() - k,
    {
        assert(dv.take(k + 1).drop_last() =~= dv.take(k as int));
        assert(dv.take(k + 1).last() == dv[k as int]);
        match document_service_exec(&documents[k], service) {
            Some(d) => {
                let ghost before = definition@;
                found = true;
                if entries_get(d, "build").is_some() {
                    definition.has_build = true;
                }
                match entries_get(d, "build") {
                    Some(b) => {
                        definition.build = parse_service_build(b, default_context);
                    },
                    None => {},
                }
                match member_text(d, "image") {
                    Some(i) => {
                        definition.image = Some(i);
                    },
                    None => {},
                }
                match member_text(d, "user") {
                    Some(u) => {
                        definition.user = Some(u);
                    },
                    None => {},
                }
                match entries_get(d, "entrypoint") {
                    Some(e) => match parse_service_command(e) {
                        Some(c) => {
                            definition.entrypoint = Some(c);
                        },
                        None => {},
                    },
                    None => {},
                }
                match entries_get(d, "command") {
                    Some(e) => match parse_service_command(e) {
                        Some(c) => {
                            definition.command = Some(c);
                        },
                        None => {},
                    },
                    None => {},
                }
                assert(definition@ == definition_step(before, entries_view(d@), default_context@));
            },
            None => {},
        }
        k = k + 1;
    }
    assert(dv.take(k as int) =~= dv);
    if !found {
        let mut m = to_chars("Unable to locate compose service `");
        crate::text::push_str(&mut m, service);
        crate::text::push_str(&mut m, "` in compose configuration");
        return Err(from_chars(&m));
    }
    Ok(definition)
}

/// The first `version:` line of the first compose file, trimmed, followed by
/// a blank line; nothing without one.
pub open spec fn spec_version_prefix(text: Option<Seq<char>>) -> Seq<char> {
    match text {
        None => seq![],
        Some(t) => match first_version_line(lines(t)) {
            Some(v) => if v.len() > 0 { v + "\n\n"@ } else { seq![] },
            None => seq![],
        },
    }
}

/// The first line that starts (after indentation) with `version:`, trimmed.
pub open spec fn first_version_line(ls: Seq<Seq<char>>) -> Option<Seq<char>>
    decreases ls.len(),
{
    if ls.len() == 0 {
        None
    } else if starts_with(trim_start(ls[0]), "version:"@) {
        Some(trim(ls[0]))
    } else {
        first_version_line(ls.drop_first())
    }
}

/// The version prefix of an override file (see `spec_version_prefix`), from
/// the text of the first compose file when there is one.
pub fn version_prefix(first_file_text: Option<&str>) -> (r: String)
    ensures
        r@ == spec_version_prefix(match first_file_text {
            Some(t) => Some(t@),
            None => None,
        }),
{
    let text = match first_file_text {
        Some(t) => t,
        None => return String::new(),
    };
    let ls = lines_chars(&to_chars(text));
    let ghost lv = views(ls@);
    let mut k: usize = 0;
    assert(lv.skip(0) =~= lv);
    while k < ls.len()
        invariant
            k <= ls.len(),
            lv == views(ls@),
            lv == lines(text@),
            first_file_text == Some(text),
            first_version_line(lv) == first_version_line(lv.skip(k as int)),
        decreases ls.len() - k,
    {
        assert(lv.skip(k as int)[0] == ls@[k as int]@);
        assert(lv.skip(k as int).drop_first() =~= lv.skip(k + 1));
        let start = trim_start_chars(&ls[k]);
        if crate::text::starts_with_str(&start, "version:") {
            let v = trim_chars(&ls[k]);
            if v.len() > 0 {
                let mut out = v;
                crate::text::push_str(&mut out, "\n\n");
                return from_chars(&out);
            }
            return String::new();
        }
        k = k + 1;
    }
    assert(lv.skip(k as int) =~= Seq::<Seq<char>>::empty());
    String::new()
}

/// The compose service as the runtime knows it, from its compose files, name,
/// project name and merged definition: it builds when its definition has a
/// `build:` key or parsed build information.
pub fn compose_spec_from_definition(files: Vec<String>, service: String, project_name: String, definition: ServiceDefinition) -> (r: ComposeSpec)
    ensures
        r.files@ == files@,
        r.service@ == service@,
        r.project_name@ == project_name@,
        opt_str(r.image) == opt_str(definition.image),
        opt_str(r.user) == opt_str(definition.user),
        r.has_build == (definition.has_build || definition.build is Some),
{
    let has_build = definition.has_build || definition.build.is_some();
    ComposeSpec { files, service, image: definition.image, has_build, user: definition.user, project_name }
}

/// The compose files' texts parsed as YAML, in order (see
/// `spec_yaml_json_document`): the documents, or the first parser message.
pub open spec fn spec_parsed_documents(texts: Seq<Seq<char>>) -> Result<Seq<JsonView>, Seq<char>>
    decreases texts.len(),
{
    if texts.len() == 0 {
        Ok(seq![])
    } else {
        match spec_parsed_documents(texts.drop_last()) {
            Err(e) => Err(e),
            Ok(documents) => match crate::yaml::spec_yaml_json_document(texts.last()) {
                Err(e) => Err(e),
                Ok(d) => Ok(documents.push(d)),
            },
        }
    }
}

/// The service's definition across the texts of the compose files: each is
/// parsed as YAML and the first parser message is the error; else as
/// `service_definition_from_documents` gives it.
pub fn service_definition_from_texts(texts: &Vec<String>, service: &str, default_context: &str) -> (r: Result<ServiceDefinition, String>)
    ensures
        match spec_parsed_documents(str_views(texts@)) {
            Err(e) => r is Err && r->Err_0@ == e,
            Ok(documents) => match r {
                Ok(d) => spec_definition_from_documents(documents, service@, default_context@) == (true, d@),
                Err(e) => !spec_definition_from_documents(documents, service@, default_context@).0
                    && e@ == missing_service_error(service@),
            },
        },
{
    let ghost tv = str_views(texts@);
    let mut documents: Vec<JsonValue> = Vec::new();
    let mut k: usize = 0;
    assert(tv.take(0) =~= Seq::<Seq<char>>::empty());
    assert(items_view(documents@) =~= Seq::<JsonView>::empty());
    while k < texts.len()
        invariant
            k <= texts.len(),
            tv == str_views(texts@),
            spec_parsed_documents(tv.take(k as int)) == Ok::<Seq<JsonView>, Seq<char>>(items_view(documents@)),
        decreases texts.len() - k,
    {
        assert(tv.take(k + 1).drop_last() =~= tv.take(k as int));
        assert(tv.take(k + 1).last() == texts@[k as int]@);
        match crate::yaml::parse_yaml_json(texts[k].as_str()) {
            Ok(d) => {
                assert(documents@.push(d).drop_last() =~= documents@);
                documents.push(d);
            },
            Err(e) => {
                proof {
                    lemma_parsed_documents_error(tv, k + 1);
                }
                return Err(e);
            },
        }
        k = k + 1;
    }
    assert(tv.take(k as int) =~= tv);
    service_definition_from_documents(&documents, service, default_context)
}

/// A parse error among the first texts is the error of them all.
proof fn lemma_parsed_documents_error(texts: Seq<Seq<char>>, n: int)
    requires
        0 <= n <= texts.len(),
        spec_parsed_documents(texts.take(n)) is Err,
    ensures
        spec_parsed_documents(texts) == spec_parsed_documents(texts.take(n)),
    decreases texts.len() - n,
{
    if n < texts.len() {
        assert(texts.take(n + 1).drop_last() =~= texts.take(n));
        lemma_parsed_documents_error(texts, n + 1);
    } else {
        assert(texts.take(n) =~= texts);
    }
}

} // verus!
