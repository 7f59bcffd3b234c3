//! JSON values as the library reads them: configuration files, engine
//! `inspect` output and mount definitions.

use vstd::prelude::*;
use crate::text::{from_chars, is, to_chars};

verus! {

/// A JSON value. Numbers keep the text `serde_json` prints for them; objects
/// keep their entries in the order the parsed map iterates them.
#[derive(Debug)]
pub enum JsonValue {
    Null,
    Bool(bool),
    Number(String),
    String(String),
    Array(Vec<JsonValue>),
    Object(Vec<(String, JsonValue)>),
}

/// The mathematical form of a JSON value.
pub enum JsonView {
    Null,
    Bool(bool),
    Number(Seq<char>),
    Str(Seq<char>),
    Array(Seq<JsonView>),
    Object(Seq<(Seq<char>, JsonView)>),
}

pub open spec fn json_view(v: JsonValue) -> JsonView
    decreases v,
{
    match v {
        JsonValue::Null => JsonView::Null,
        JsonValue::Bool(b) => JsonView::Bool(b),
        JsonValue::Number(n) => JsonView::Number(n@),
        JsonValue::String(s) => JsonView::Str(s@),
        JsonValue::Array(items) => JsonView::Array(items_view(items@)),
        JsonValue::Object(entries) => JsonView::Object(entries_view(entries@)),
    }
}

pub open spec fn items_view(items: Seq<JsonValue>) -> Seq<JsonView>
    decreases items,
{
    if items.len() == 0 {
        seq![]
    } else {
        items_view(items.drop_last()).push(json_view(items.last()))
    }
}

pub open spec fn entries_view(entries: Seq<(String, JsonValue)>) -> Seq<(Seq<char>, JsonView)>
    decreases entries,
{
    if entries.len() == 0 {
        seq![]
    } else {
        entries_view(entries.drop_last()).push((entries.last().0@, json_view(entries.last().1)))
    }
}

impl View for JsonValue {
    type V = JsonView;

    open spec fn view(&self) -> JsonView {
        json_view(*self)
    }
}


pub proof fn lemma_items_view(items: Seq<JsonValue>)
    ensures
        items_view(items).len() == items.len(),
        forall|i: int| 0 <= i < items.len() ==> #[trigger] items_view(items)[i] == json_view(items[i]),
    decreases items.len(),
{
    if items.len() > 0 {
        lemma_items_view(items.drop_last());
    }
}

pub proof fn lemma_entries_view(entries: Seq<(String, JsonValue)>)
    ensures
        entries_view(entries).len() == entries.len(),
        forall|i: int| 0 <= i < entries.len() ==> #[trigger] entries_view(entries)[i] == (entries[i].0@, json_view(entries[i].1)),
    decreases entries.len(),
{
    if entries.len() > 0 {
        lemma_entries_view(entries.drop_last());
    }
}

/// The value of the first entry with the key.
pub open spec fn entry_value(entries: Seq<(Seq<char>, JsonView)>, key: Seq<char>) -> Option<JsonView>
    decreases entries.len(),
{
    if entries.len() == 0 {
        None
    } else if entries[0].0 == key {
        Some(entries[0].1)
    } else {
        entry_value(entries.drop_first(), key)
    }
}

/// `value.get(key)`: the member of an object; nothing for other values.
pub open spec fn json_get(v: JsonView, key: Seq<char>) -> Option<JsonView> {
    match v {
        JsonView::Object(entries) => entry_value(entries, key),
        _ => None,
    }
}

pub open spec fn json_str(v: JsonView) -> Option<Seq<char>> {
    match v {
        JsonView::Str(s) => Some(s),
        _ => None,
    }
}

pub open spec fn json_bool(v: JsonView) -> Option<bool> {
    match v {
        JsonView::Bool(b) => Some(b),
        _ => None,
    }
}

/// The member's text, when the member is a string.
pub open spec fn get_str(v: JsonView, key: Seq<char>) -> Option<Seq<char>> {
    match json_get(v, key) {
        Some(m) => json_str(m),
        None => None,
    }
}

/// The member's flag, when the member is a boolean.
pub open spec fn get_bool(v: JsonView, key: Seq<char>) -> Option<bool> {
    match json_get(v, key) {
        Some(m) => json_bool(m),
        None => None,
    }
}

impl JsonValue {
    /// The member of an object with the given key (the first such entry).
    pub fn get(&self, key: &str) -> (r: Option<&JsonValue>)
        ensures
            match r {
                Some(m) => json_get(self@, key@) == Some(m@),
                None => json_get(self@, key@) is None,
            },
    {
        match self {
            JsonValue::Object(entries) => {
                proof {
                    lemma_entries_view(entries@);
                }
                let ghost ev = entries_view(entries@);
                let mut k: usize = 0;
                assert(ev.skip(0) =~= ev);
                while k < entries.len()
                    invariant
                        k <= entries.len(),
                        ev == entries_view(entries@),
                        self@ == JsonView::Object(ev),
                        ev.len() == entries@.len(),
                        forall|i: int| 0 <= i < entries@.len() ==> #[trigger] ev[i] == (entries@[i].0@, json_view(entries@[i].1)),
                        entry_value(ev, key@) == entry_value(ev.skip(k as int), key@),
                    decreases entries.len() - k,
                {
                    assert(ev.skip(k as int).drop_first() =~= ev.skip(k + 1));
                    assert(ev.skip(k as int)[0] == ev[k as int]);
                    if crate::options::str_eq(entries[k].0.as_str(), key) {
                        return Some(&entries[k].1);
                    }
                    k = k + 1;
                }
                None
            },
            _ => None,
        }
    }

    pub fn as_str(&self) -> (r: Option<&String>)
        ensures
            match r {
                Some(s) => json_str(self@) == Some(s@),
                None => json_str(self@) is None,
            },
    {
        match self {
            JsonValue::String(s) => Some(s),
            _ => None,
        }
    }

    pub fn as_bool(&self) -> (r: Option<bool>)
        ensures
            r == json_bool(self@),
    {
        match self {
            JsonValue::Bool(b) => Some(*b),
            _ => None,
        }
    }

    pub fn as_array(&self) -> (r: Option<&Vec<JsonValue>>)
        ensures
            match r {
                Some(a) => self@ == JsonView::Array(items_view(a@)),
                None => !(self@ is Array),
            },
    {
        match self {
            JsonValue::Array(items) => Some(items),
            _ => None,
        }
    }

    pub fn as_object(&self) -> (r: Option<&Vec<(String, JsonValue)>>)
        ensures
            match r {
                Some(o) => self@ == JsonView::Object(entries_view(o@)),
                None => !(self@ is Object),
            },
    {
        match self {
            JsonValue::Object(entries) => Some(entries),
            _ => None,
        }
    }

    pub fn is_object(&self) -> (r: bool)
        ensures
            r == (self@ is Object),
    {
        match self {
            JsonValue::Object(_) => true,
            _ => false,
        }
    }
}

/// The text of a member that is a string.
pub fn get_str_exec(v: &JsonValue, key: &str) -> (r: Option<String>)
    ensures
        crate::options::opt_str(r) == get_str(v@, key@),
{
    match v.get(key) {
        Some(m) => match m.as_str() {
            Some(s) => Some(from_chars(&to_chars(s.as_str()))),
            None => None,
        },
        None => None,
    }
}

/// The flag of a member that is a boolean.
pub fn get_bool_exec(v: &JsonValue, key: &str) -> (r: Option<bool>)
    ensures
        r == get_bool(v@, key@),
{
    match v.get(key) {
        Some(m) => m.as_bool(),
        None => None,
    }
}


/// The strings among the items, in order.
pub open spec fn string_items(items: Seq<JsonView>) -> Seq<Seq<char>>
    decreases items.len(),
{
    if items.len() == 0 {
        seq![]
    } else {
        string_items(items.drop_last()) + match items.last() {
            JsonView::Str(s) => seq![s],
            _ => seq![],
        }
    }
}

/// The strings of an array member; nothing when the member is not an array.
pub open spec fn member_strings(v: JsonView, key: Seq<char>) -> Seq<Seq<char>> {
    match json_get(v, key) {
        Some(JsonView::Array(items)) => string_items(items),
        _ => seq![],
    }
}

/// The strings among the items of an array.
pub fn array_strings(items: &Vec<JsonValue>) -> (r: Vec<String>)
    ensures
        crate::text::str_views(r@) == string_items(items_view(items@)),
{
    proof {
        lemma_items_view(items@);
    }
    let ghost iv = items_view(items@);
    let mut out: Vec<String> = Vec::new();
    let mut k: usize = 0;
    assert(iv.take(0) =~= Seq::<JsonView>::empty());
    assert(crate::text::str_views(out@) =~= Seq::<Seq<char>>::empty());
    while k < items.len()
        invariant
            k <= items.len(),
            iv == items_view(items@),
            iv.len() == items@.len(),
            forall|i: int| 0 <= i < items@.len() ==> #[trigger] iv[i] == json_view(items@[i]),
            crate::text::str_views(out@) == string_items(iv.take(k as int)),
        decreases items.len() - k,
    {
        assert(iv.take(k + 1).drop_last() =~= iv.take(k as int));
        assert(iv.take(k + 1).last() == iv[k as int]);
        match &items[k] {
            JsonValue::String(text) => {
                out.push(from_chars(&to_chars(text.as_str())));
                assert(crate::text::str_views(out@) =~= crate::text::str_views(out@.drop_last()).push(out@.last()@));
            },
            _ => {},
        }
        assert(crate::text::str_views(out@) =~= string_items(iv.take(k + 1)));
        k = k + 1;
    }
    assert(iv.take(k as int) =~= iv);
    out
}

/// The strings of the array member `key`.
pub fn member_strings_exec(v: &JsonValue, key: &str) -> (r: Vec<String>)
    ensures
        crate::text::str_views(r@) == member_strings(v@, key@),
{
    match v.get(key) {
        Some(m) => match m.as_array() {
            Some(items) => array_strings(items),
            None => {
                let out: Vec<String> = Vec::new();
                assert(crate::text::str_views(out@) =~= Seq::<Seq<char>>::empty());
                out
            },
        },
        None => {
            let out: Vec<String> = Vec::new();
            assert(crate::text::str_views(out@) =~= Seq::<Seq<char>>::empty());
            out
        },
    }
}

/// What `serde_json::from_str` makes of a text as a JSON value: the value
/// (numbers by the text serde prints for them), or the parser's message.
pub uninterp spec fn json_document(text: Seq<char>) -> Result<JsonView, Seq<char>>;

pub open spec fn json_document_view(r: Result<JsonValue, String>) -> Result<JsonView, Seq<char>> {
    match r {
        Ok(v) => Ok(v@),
        Err(e) => Err(e@),
    }
}

/// `parsed` is what parsing `text` as JSON gives.
pub open spec fn parses_json(text: String, parsed: Result<JsonValue, String>) -> bool {
    json_document_view(parsed) == json_document(text@)
}

/// Converts serde's `Value` into a library value, one for one (a number by
/// its text); nothing is stated of it apart from `parse_json_text`.
#[verifier::external_body]
fn json_from_serde(value: &serde_json::Value) -> JsonValue {
    match value {
        serde_json::Value::Null => JsonValue::Null,
        serde_json::Value::Bool(b) => JsonValue::Bool(*b),
        serde_json::Value::Number(n) => JsonValue::Number(n.to_string()),
        serde_json::Value::String(s) => JsonValue::String(s.clone()),
        serde_json::Value::Array(items) => JsonValue::Array(items.iter().map(json_from_serde).collect()),
        serde_json::Value::Object(entries) => {
            JsonValue::Object(entries.iter().map(|(k, v)| (k.clone(), json_from_serde(v))).collect())
        },
    }
}

/// Parses a text as JSON with `serde_json::from_str`; the error is the
/// parser's message. The contract names the result and says no more.
#[verifier::external_body]
pub(crate) fn parse_json_text(text: &str) -> (r: Result<JsonValue, String>)
    ensures
        json_document_view(r) == json_document(text@),
{
    match serde_json::from_str::<serde_json::Value>(text) {
        Ok(v) => Ok(json_from_serde(&v)),
        Err(e) => Err(e.to_string()),
    }
}

} // verus!
