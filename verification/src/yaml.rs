//! YAML documents as the library reads them (compose files and the resolved
//! compose configuration), and the JSON value a document stands for.

use vstd::prelude::*;
use crate::json::{entries_view, items_view, json_view, JsonValue, JsonView};
use crate::text::{from_chars, to_chars};

verus! {

/// A YAML value: numbers keep the text `serde_yaml` prints for them, mappings
/// keep their entries in order, and a tagged value keeps its tag.
#[derive(Debug)]
pub enum YamlValue {
    Null,
    Bool(bool),
    Number(String),
    String(String),
    Sequence(Vec<YamlValue>),
    Mapping(Vec<(YamlValue, YamlValue)>),
    Tagged(String, Box<YamlValue>),
}

/// The mathematical form of a YAML value.
pub enum YamlView {
    Null,
    Bool(bool),
    Number(Seq<char>),
    Str(Seq<char>),
    Sequence(Seq<YamlView>),
    Mapping(Seq<(YamlView, YamlView)>),
    Tagged(Seq<char>, Box<YamlView>),
}

pub open spec fn yaml_view(v: YamlValue) -> YamlView
    decreases v,
{
    match v {
        YamlValue::Null => YamlView::Null,
        YamlValue::Bool(b) => YamlView::Bool(b),
        YamlValue::Number(n) => YamlView::Number(n@),
        YamlValue::String(s) => YamlView::Str(s@),
        YamlValue::Sequence(items) => YamlView::Sequence(yaml_items_view(items@)),
        YamlValue::Mapping(pairs) => YamlView::Mapping(yaml_pairs_view(pairs@)),
        YamlValue::Tagged(tag, inner) => YamlView::Tagged(tag@, Box::new(yaml_view(*inner))),
    }
}

pub open spec fn yaml_items_view(items: Seq<YamlValue>) -> Seq<YamlView>
    decreases items,
{
    if items.len() == 0 {
        seq![]
    } else {
        yaml_items_view(items.drop_last()).push(yaml_view(items.last()))
    }
}

pub open spec fn yaml_pairs_view(pairs: Seq<(YamlValue, YamlValue)>) -> Seq<(YamlView, YamlView)>
    decreases pairs,
{
    if pairs.len() == 0 {
        seq![]
    } else {
        yaml_pairs_view(pairs.drop_last()).push((yaml_view(pairs.last().0), yaml_view(pairs.last().1)))
    }
}

impl View for YamlValue {
    type V = YamlView;

    open spec fn view(&self) -> YamlView {
        yaml_view(*self)
    }
}

pub proof fn lemma_yaml_items_view(items: Seq<YamlValue>)
    ensures
        yaml_items_view(items).len() == items.len(),
        forall|i: int| 0 <= i < items.len() ==> #[trigger] yaml_items_view(items)[i] == yaml_view(items[i]),
    decreases items.len(),
{
    if items.len() > 0 {
        lemma_yaml_items_view(items.drop_last());
    }
}

pub proof fn lemma_yaml_pairs_view(pairs: Seq<(YamlValue, YamlValue)>)
    ensures
        yaml_pairs_view(pairs).len() == pairs.len(),
        forall|i: int| 0 <= i < pairs.len() ==> #[trigger] yaml_pairs_view(pairs)[i] == (yaml_view(pairs[i].0), yaml_view(pairs[i].1)),
    decreases pairs.len(),
{
    if pairs.len() > 0 {
        lemma_yaml_pairs_view(pairs.drop_last());
    }
}

/// A value with its tags looked through.
pub open spec fn untagged(v: YamlView) -> YamlView
    decreases v,
{
    match v {
        YamlView::Tagged(_, inner) => untagged(*inner),
        _ => v,
    }
}

/// The text of a value that is a string once its tags are looked through.
pub open spec fn yaml_str(v: YamlView) -> Option<Seq<char>> {
    match untagged(v) {
        YamlView::Str(s) => Some(s),
        _ => None,
    }
}

/// The JSON value a YAML value stands for: tags are looked through, and of a
/// mapping only the entries whose key is a string are kept, in order.
pub open spec fn spec_yaml_json(v: YamlView) -> JsonView
    decreases v,
{
    match v {
        YamlView::Null => JsonView::Null,
        YamlView::Bool(b) => JsonView::Bool(b),
        YamlView::Number(n) => JsonView::Number(n),
        YamlView::Str(s) => JsonView::Str(s),
        YamlView::Sequence(items) => JsonView::Array(yaml_items_json(items)),
        YamlView::Mapping(pairs) => JsonView::Object(yaml_pairs_json(pairs)),
        YamlView::Tagged(_, inner) => spec_yaml_json(*inner),
    }
}

pub open spec fn yaml_items_json(items: Seq<YamlView>) -> Seq<JsonView>
    decreases items,
{
    if items.len() == 0 {
        seq![]
    } else {
        yaml_items_json(items.drop_last()).push(spec_yaml_json(items.last()))
    }
}

pub open spec fn yaml_pairs_json(pairs: Seq<(YamlView, YamlView)>) -> Seq<(Seq<char>, JsonView)>
    decreases pairs,
{
    if pairs.len() == 0 {
        seq![]
    } else {
        let before = yaml_pairs_json(pairs.drop_last());
        match yaml_str(pairs.last().0) {
            Some(k) => before.push((k, spec_yaml_json(pairs.last().1))),
            None => before,
        }
    }
}

fn yaml_str_exec(v: &YamlValue) -> (r: Option<String>)
    ensures
        crate::options::opt_str(r) == yaml_str(v@),
    decreases v,
{
    match v {
        YamlValue::String(s) => Some(from_chars(&to_chars(s.as_str()))),
        YamlValue::Tagged(_, inner) => yaml_str_exec(inner),
        _ => None,
    }
}

/// The JSON value a YAML value stands for (see `spec_yaml_json`).
pub fn yaml_to_json(v: &YamlValue) -> (r: JsonValue)
    ensures
        r@ == spec_yaml_json(v@),
    decreases v,
{
    match v {
        YamlValue::Null => JsonValue::Null,
        YamlValue::Bool(b) => JsonValue::Bool(*b),
        YamlValue::Number(n) => JsonValue::Number(from_chars(&to_chars(n.as_str()))),
        YamlValue::String(s) => JsonValue::String(from_chars(&to_chars(s.as_str()))),
        YamlValue::Sequence(items) => JsonValue::Array(yaml_items_to_json(items)),
        YamlValue::Mapping(pairs) => JsonValue::Object(yaml_pairs_to_json(pairs)),
        YamlValue::Tagged(_, inner) => yaml_to_json(inner),
    }
}

fn yaml_items_to_json(items: &Vec<YamlValue>) -> (r: Vec<JsonValue>)
    ensures
        items_view(r@) == yaml_items_json(yaml_items_view(items@)),
    decreases items,
{
    proof {
        lemma_yaml_items_view(items@);
    }
    let ghost iv = yaml_items_view(items@);
    let mut out: Vec<JsonValue> = Vec::new();
    let mut k: usize = 0;
    assert(iv.take(0) =~= Seq::<YamlView>::empty());
    while k < items.len()
        invariant
            k <= items.len(),
            iv == yaml_items_view(items@),
            iv.len() == items@.len(),
            forall|i: int| 0 <= i < items@.len() ==> #[trigger] iv[i] == yaml_view(items@[i]),
            items_view(out@) == yaml_items_json(iv.take(k as int)),
        decreases items.len() - k,
    {
        proof {
            assert(decreases_to!(*items => items[k as int]));
        }
        let c = yaml_to_json(&items[k]);
        proof {
            assert(out@.push(c).drop_last() =~= out@);
            assert(iv.take(k + 1).drop_last() =~= iv.take(k as int));
            assert(items_view(out@.push(c)) =~= items_view(out@).push(json_view(c)));
        }
        out.push(c);
        k = k + 1;
    }
    assert(iv.take(k as int) =~= iv);
    out
}

fn yaml_pairs_to_json(pairs: &Vec<(YamlValue, YamlValue)>) -> (r: Vec<(String, JsonValue)>)
    ensures
        entries_view(r@) == yaml_pairs_json(yaml_pairs_view(pairs@)),
    decreases pairs,
{
    proof {
        lemma_yaml_pairs_view(pairs@);
    }
    let ghost pv = yaml_pairs_view(pairs@);
    let mut out: Vec<(String, JsonValue)> = Vec::new();
    let mut k: usize = 0;
    assert(pv.take(0) =~= Seq::<(YamlView, YamlView)>::empty());
    while k < pairs.len()
        invariant
            k <= pairs.len(),
            pv == yaml_pairs_view(pairs@),
            pv.len() == pairs@.len(),
            forall|i: int| 0 <= i < pairs@.len() ==> #[trigger] pv[i] == (yaml_view(pairs@[i].0), yaml_view(pairs@[i].1)),
            entries_view(out@) == yaml_pairs_json(pv.take(k as int)),
        decreases pairs.len() - k,
    {
        assert(pv.take(k + 1).drop_last() =~= pv.take(k as int));
        assert(pv.take(k + 1).last() == pv[k as int]);
        match yaml_str_exec(&pairs[k].0) {
            Some(key) => {
                proof {
                    assert(decreases_to!(*pairs => pairs[k as int]));
                    assert(decreases_to!(pairs[k as int] => pairs[k as int].1));
                }
                let c = yaml_to_json(&pairs[k].1);
                let entry = (key, c);
                proof {
                    assert(out@.push(entry).drop_last() =~= out@);
                    assert(entries_view(out@.push(entry)) =~= entries_view(out@).push((entry.0@, json_view(entry.1))));
                }
                out.push(entry);
            },
            None => {},
        }
        k = k + 1;
    }
    assert(pv.take(k as int) =~= pv);
    out
}

/// What `serde_yaml::from_str` makes of a text as a YAML value: the value
/// (numbers by the text serde prints for them, tags written with their `!`),
/// or the parser's message.
pub uninterp spec fn yaml_document(text: Seq<char>) -> Result<YamlView, Seq<char>>;

pub open spec fn yaml_document_view(r: Result<YamlValue, String>) -> Result<YamlView, Seq<char>> {
    match r {
        Ok(v) => Ok(v@),
        Err(e) => Err(e@),
    }
}

#[verifier::external_type_specification]
#[verifier::external_body]
pub struct ExYamlValue(serde_yaml::Value);

/// Converts serde's YAML `Value` into a library value, one for one (a number
/// by its text, a tag by its text); nothing is stated of it apart from
/// `parse_yaml_text`.
#[verifier::external_body]
fn yaml_from_serde(value: &serde_yaml::Value) -> YamlValue {
    match value {
        serde_yaml::Value::Null => YamlValue::Null,
        serde_yaml::Value::Bool(b) => YamlValue::Bool(*b),
        serde_yaml::Value::Number(n) => YamlValue::Number(n.to_string()),
        serde_yaml::Value::String(s) => YamlValue::String(s.clone()),
        serde_yaml::Value::Sequence(items) => YamlValue::Sequence(items.iter().map(yaml_from_serde).collect()),
        serde_yaml::Value::Mapping(m) => {
            YamlValue::Mapping(m.iter().map(|(k, v)| (yaml_from_serde(k), yaml_from_serde(v))).collect())
        },
        serde_yaml::Value::Tagged(t) => YamlValue::Tagged(t.tag.to_string(), Box::new(yaml_from_serde(&t.value))),
    }
}

/// Parses a text as YAML with `serde_yaml::from_str`; the error is the
/// parser's message. The contract names the result and says no more.
#[verifier::external_body]
pub(crate) fn parse_yaml_text(text: &str) -> (r: Result<YamlValue, String>)
    ensures
        yaml_document_view(r) == yaml_document(text@),
{
    match serde_yaml::from_str::<serde_yaml::Value>(text) {
        Ok(v) => Ok(yaml_from_serde(&v)),
        Err(e) => Err(e.to_string()),
    }
}

/// The JSON value a YAML text stands for (see `spec_yaml_json`), or the
/// parser's message.
pub open spec fn spec_yaml_json_document(text: Seq<char>) -> Result<JsonView, Seq<char>> {
    match yaml_document(text) {
        Ok(y) => Ok(spec_yaml_json(y)),
        Err(e) => Err(e),
    }
}

/// `parsed` is the JSON value that parsing `text` as YAML gives.
pub open spec fn parses_yaml(text: String, parsed: Result<JsonValue, String>) -> bool {
    crate::json::json_document_view(parsed) == spec_yaml_json_document(text@)
}

/// Parses a YAML text into the JSON value it stands for.
pub fn parse_yaml_json(text: &str) -> (r: Result<JsonValue, String>)
    ensures
        crate::json::json_document_view(r) == spec_yaml_json_document(text@),
{
    match parse_yaml_text(text) {
        Ok(y) => Ok(yaml_to_json(&y)),
        Err(e) => Err(e),
    }
}

} // verus!
