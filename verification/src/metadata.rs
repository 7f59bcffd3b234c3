//! Container metadata: what a container records of its configuration in its
//! metadata label, and how the entries of that label merge.

use vstd::prelude::*;
use crate::compose_override::{clone_json, object_insert, object_insert_exec};
use crate::json::{entries_view, entry_value, items_view, json_get, json_view, lemma_entries_view, lemma_items_view, JsonValue, JsonView};
use crate::text::{from_chars, to_chars};

verus! {

/// The entries of a parsed metadata label: an array's items, or a single
/// object; nothing for anything else or an unreadable label.
pub open spec fn spec_metadata_entries(parsed: Option<JsonView>) -> Seq<JsonView> {
    match parsed {
        Some(JsonView::Array(items)) => items,
        Some(JsonView::Object(entries)) => seq![JsonView::Object(entries)],
        _ => seq![],
    }
}

pub fn metadata_entries(parsed: Option<JsonValue>) -> (r: Vec<JsonValue>)
    ensures
        items_view(r@) == spec_metadata_entries(match parsed {
            Some(v) => Some(v@),
            None => None,
        }),
{
    match parsed {
        Some(JsonValue::Array(items)) => items,
        Some(JsonValue::Object(entries)) => {
            let mut out: Vec<JsonValue> = Vec::new();
            out.push(JsonValue::Object(entries));
            proof {
                lemma_items_view(out@);
            }
            assert(items_view(out@) =~= seq![out@[0]@]);
            out
        },
        _ => {
            let out: Vec<JsonValue> = Vec::new();
            assert(items_view(out@) =~= Seq::<JsonView>::empty());
            out
        },
    }
}

/// The member of the last entry that has it.
pub open spec fn last_member(entries: Seq<JsonView>, key: Seq<char>) -> Option<JsonView>
    decreases entries.len(),
{
    if entries.len() == 0 {
        None
    } else {
        match json_get(entries.last(), key) {
            Some(v) => Some(v),
            None => last_member(entries.drop_last(), key),
        }
    }
}

/// The last value of a member, set on the merged object.
pub open spec fn spec_merge_last(entries: Seq<JsonView>, merged: Seq<(Seq<char>, JsonView)>, key: Seq<char>) -> Seq<(Seq<char>, JsonView)> {
    match last_member(entries, key) {
        Some(v) => object_insert(merged, key, v),
        None => merged,
    }
}

/// Every entry of `entries` set on `into`, in order.
pub open spec fn insert_all(into: Seq<(Seq<char>, JsonView)>, entries: Seq<(Seq<char>, JsonView)>) -> Seq<(Seq<char>, JsonView)>
    decreases entries.len(),
{
    if entries.len() == 0 {
        into
    } else {
        object_insert(insert_all(into, entries.drop_last()), entries.last().0, entries.last().1)
    }
}

/// The object members of the entries combined, later names winning.
pub open spec fn combined_objects(entries: Seq<JsonView>, key: Seq<char>) -> Seq<(Seq<char>, JsonView)>
    decreases entries.len(),
{
    if entries.len() == 0 {
        seq![]
    } else {
        match json_get(entries.last(), key) {
            Some(JsonView::Object(o)) => insert_all(combined_objects(entries.drop_last(), key), o),
            _ => combined_objects(entries.drop_last(), key),
        }
    }
}

/// The combined object members, set on the merged object when not empty.
pub open spec fn spec_merge_objects(entries: Seq<JsonView>, merged: Seq<(Seq<char>, JsonView)>, key: Seq<char>) -> Seq<(Seq<char>, JsonView)> {
    if combined_objects(entries, key).len() > 0 {
        object_insert(merged, key, JsonView::Object(combined_objects(entries, key)))
    } else {
        merged
    }
}

pub fn merge_last_metadata_value(entries: &Vec<JsonValue>, merged: &mut Vec<(String, JsonValue)>, key: &str)
    ensures
        entries_view(final(merged)@) == spec_merge_last(items_view(entries@), entries_view(old(merged)@), key@),
{
    proof {
        lemma_items_view(entries@);
    }
    let ghost ev = items_view(entries@);
    let ghost start = entries_view(merged@);
    let mut k: usize = entries.len();
    assert(ev.take(ev.len() as int) =~= ev);
    while k > 0
        invariant
            k <= entries.len(),
            entries_view(merged@) == start,
            start == entries_view(old(merged)@),
            ev == items_view(entries@),
            ev.len() == entries@.len(),
            forall|i: int| 0 <= i < entries@.len() ==> #[trigger] ev[i] == json_view(entries@[i]),
            last_member(ev, key@) == last_member(ev.take(k as int), key@),
        decreases k,
    {
        assert(ev.take(k as int).drop_last() =~= ev.take(k - 1));
        assert(ev.take(k as int).last() == ev[k - 1]);
        match entries[k - 1].get(key) {
            Some(v) => {
                assert(ev[k - 1] == json_view(entries@[k - 1]));
                assert(json_get(ev.take(k as int).last(), key@) == Some(v@));
                assert(last_member(ev, key@) == Some(v@));
                let c = clone_json(v);
                object_insert_exec(merged, key, c);
                return;
            },
            None => {},
        }
        k = k - 1;
    }
    assert(ev.take(0) =~= Seq::<JsonView>::empty());
}

fn insert_all_exec(into: &mut Vec<(String, JsonValue)>, entries: &Vec<(String, JsonValue)>)
    ensures
        entries_view(final(into)@) == insert_all(entries_view(old(into)@), entries_view(entries@)),
{
    proof {
        lemma_entries_view(entries@);
    }
    let ghost ev = entries_view(entries@);
    let ghost start = entries_view(into@);
    let mut k: usize = 0;
    assert(ev.take(0) =~= Seq::<(Seq<char>, JsonView)>::empty());
    while k < entries.len()
        invariant
            k <= entries.len(),
            ev == entries_view(entries@),
            ev.len() == entries@.len(),
            forall|i: int| 0 <= i < entries@.len() ==> #[trigger] ev[i] == (entries@[i].0@, json_view(entries@[i].1)),
            entries_view(into@) == insert_all(start, ev.take(k as int)),
        decreases entries.len() - k,
    {
        assert(ev.take(k + 1).drop_last() =~= ev.take(k as int));
        assert(ev.take(k + 1).last() == ev[k as int]);
        let c = clone_json(&entries[k].1);
        object_insert_exec(into, entries[k].0.as_str(), c);
        k = k + 1;
    }
    assert(ev.take(k as int) =~= ev);
}

pub fn merge_object_metadata_value(entries: &Vec<JsonValue>, merged: &mut Vec<(String, JsonValue)>, key: &str)
    ensures
        entries_view(final(merged)@) == spec_merge_objects(items_view(entries@), entries_view(old(merged)@), key@),
{
    proof {
        lemma_items_view(entries@);
    }
    let ghost ev = items_view(entries@);
    let mut combined: Vec<(String, JsonValue)> = Vec::new();
    let mut k: usize = 0;
    assert(ev.take(0) =~= Seq::<JsonView>::empty());
    assert(entries_view(combined@) =~= Seq::<(Seq<char>, JsonView)>::empty());
    while k < entries.len()
        invariant
            k <= entries.len(),
            ev == items_view(entries@),
            ev.len() == entries@.len(),
            forall|i: int| 0 <= i < entries@.len() ==> #[trigger] ev[i] == json_view(entries@[i]),
            entries_view(combined@) == combined_objects(ev.take(k as int), key@),
        decreases entries.len() - k,
    {
        assert(ev.take(k + 1).drop_last() =~= ev.take(k as int));
        assert(ev.take(k + 1).last() == ev[k as int]);
        match entries[k].get(key) {
            Some(JsonValue::Object(o)) => insert_all_exec(&mut combined, o),
            _ => {},
        }
        k = k + 1;
    }
    assert(ev.take(k as int) =~= ev);
    proof {
        lemma_entries_view(combined@);
    }
    if combined.len() > 0 {
        object_insert_exec(merged, key, JsonValue::Object(combined));
    }
}

/// The scalar settings of the metadata entries (the last value of each) and
/// their `remoteEnv` and `containerEnv` combined; lifecycle commands are not
/// merged here.
pub open spec fn spec_merged_settings(entries: Seq<JsonView>) -> Seq<(Seq<char>, JsonView)> {
    let m1 = spec_merge_last(entries, seq![], "waitFor"@);
    let m2 = spec_merge_last(entries, m1, "workspaceFolder"@);
    let m3 = spec_merge_last(entries, m2, "remoteUser"@);
    let m4 = spec_merge_last(entries, m3, "containerUser"@);
    let m5 = spec_merge_objects(entries, m4, "remoteEnv"@);
    spec_merge_objects(entries, m5, "containerEnv"@)
}

/// The configuration a container's metadata entries add up to (see
/// `spec_merged_settings`).
pub fn merged_container_metadata(entries: &Vec<JsonValue>) -> (r: JsonValue)
    ensures
        r@ == JsonView::Object(spec_merged_settings(items_view(entries@))),
{
    JsonValue::Object(merged_metadata_settings(entries))
}

fn merged_metadata_settings(entries: &Vec<JsonValue>) -> (r: Vec<(String, JsonValue)>)
    ensures
        entries_view(r@) == spec_merged_settings(items_view(entries@)),
{
    let mut merged: Vec<(String, JsonValue)> = Vec::new();
    assert(entries_view(merged@) =~= Seq::<(Seq<char>, JsonView)>::empty());
    merge_last_metadata_value(entries, &mut merged, "waitFor");
    merge_last_metadata_value(entries, &mut merged, "workspaceFolder");
    merge_last_metadata_value(entries, &mut merged, "remoteUser");
    merge_last_metadata_value(entries, &mut merged, "containerUser");
    merge_object_metadata_value(entries, &mut merged, "remoteEnv");
    merge_object_metadata_value(entries, &mut merged, "containerEnv");
    merged
}

/// The keys a container records of its configuration, in order.
pub open spec fn metadata_keys() -> Seq<Seq<char>> {
    seq![
        "waitFor"@, "workspaceFolder"@, "remoteUser"@, "containerUser"@, "remoteEnv"@, "containerEnv"@,
        "initializeCommand"@, "onCreateCommand"@, "updateContentCommand"@, "postCreateCommand"@,
        "postStartCommand"@, "postAttachCommand"@,
    ]
}

/// The recorded members of the configuration, from `keys` on.
pub open spec fn recorded_members(configuration: JsonView, keys: Seq<Seq<char>>, omit_remote_env: bool) -> Seq<(Seq<char>, JsonView)>
    decreases keys.len(),
{
    if keys.len() == 0 {
        seq![]
    } else {
        let before = recorded_members(configuration, keys.drop_last(), omit_remote_env);
        let key = keys.last();
        if omit_remote_env && key == "remoteEnv"@ {
            before
        } else {
            match json_get(configuration, key) {
                Some(v) => object_insert(before, key, v),
                None => before,
            }
        }
    }
}

/// The metadata entry of a configuration: its recorded members (without
/// `remoteEnv` when asked), with the remote workspace folder when it sets none.
pub open spec fn spec_container_metadata(configuration: JsonView, remote_workspace_folder: Seq<char>, omit_remote_env: bool) -> Seq<(Seq<char>, JsonView)> {
    let members = recorded_members(configuration, metadata_keys(), omit_remote_env);
    if entry_value(members, "workspaceFolder"@) is Some {
        members
    } else {
        object_insert(members, "workspaceFolder"@, JsonView::Str(remote_workspace_folder))
    }
}

/// The metadata entry of a configuration (see `spec_container_metadata`);
/// the label holds it as a one-element JSON array.
pub fn container_metadata(configuration: &JsonValue, remote_workspace_folder: &str, omit_remote_env: bool) -> (r: Vec<(String, JsonValue)>)
    ensures
        entries_view(r@) == spec_container_metadata(configuration@, remote_workspace_folder@, omit_remote_env),
{
    let keys: [&str; 12] = [
        "waitFor", "workspaceFolder", "remoteUser", "containerUser", "remoteEnv", "containerEnv",
        "initializeCommand", "onCreateCommand", "updateContentCommand", "postCreateCommand",
        "postStartCommand", "postAttachCommand",
    ];
    let ghost kv = metadata_keys();
    proof {
        reveal_strlit("waitFor");
        reveal_strlit("workspaceFolder");
        reveal_strlit("remoteUser");
        reveal_strlit("containerUser");
        reveal_strlit("remoteEnv");
        reveal_strlit("containerEnv");
        reveal_strlit("initializeCommand");
        reveal_strlit("onCreateCommand");
        reveal_strlit("updateContentCommand");
        reveal_strlit("postCreateCommand");
        reveal_strlit("postStartCommand");
        reveal_strlit("postAttachCommand");
    }
    assert(forall|i: int| 0 <= i < 12 ==> #[trigger] keys@[i]@ == kv[i]);
    let mut members: Vec<(String, JsonValue)> = Vec::new();
    let mut k: usize = 0;
    assert(kv.take(0) =~= Seq::<Seq<char>>::empty());
    assert(entries_view(members@) =~= Seq::<(Seq<char>, JsonView)>::empty());
    while k < 12
        invariant
            k <= 12,
            kv == metadata_keys(),
            kv.len() == 12,
            forall|i: int| 0 <= i < 12 ==> #[trigger] keys@[i]@ == kv[i],
            entries_view(members@) == recorded_members(configuration@, kv.take(k as int), omit_remote_env),
        decreases 12 - k,
    {
        assert(kv.take(k + 1).drop_last() =~= kv.take(k as int));
        assert(kv.take(k + 1).last() == kv[k as int]);
        let key = keys[k];
        if !(omit_remote_env && crate::options::str_eq(key, "remoteEnv")) {
            match configuration.get(key) {
                Some(v) => {
                    let c = clone_json(v);
                    object_insert_exec(&mut members, key, c);
                },
                None => {},
            }
        }
        k = k + 1;
    }
    assert(kv.take(12) =~= kv);
    if crate::compose_override::entries_get(&members, "workspaceFolder").is_none() {
        object_insert_exec(&mut members, "workspaceFolder", JsonValue::String(from_chars(&to_chars(remote_workspace_folder))));
    }
    members
}

/// The text `serde_json::to_string` writes for a JSON value.
pub uninterp spec fn json_text(value: JsonView) -> Seq<char>;

#[verifier::external_type_specification]
#[verifier::external_body]
pub struct ExSerdeValue(serde_json::Value);

/// Converts a value into serde's `Value`, one for one (a number by its text);
/// nothing is stated of the result, which only `json_value_text` uses.
#[verifier::external_body]
fn serde_value(value: &JsonValue) -> serde_json::Value {
    match value {
        JsonValue::Null => serde_json::Value::Null,
        JsonValue::Bool(b) => serde_json::Value::Bool(*b),
        JsonValue::Number(n) => serde_json::from_str(n).unwrap_or(serde_json::Value::Null),
        JsonValue::String(s) => serde_json::Value::String(s.clone()),
        JsonValue::Array(items) => serde_json::Value::Array(items.iter().map(serde_value).collect()),
        JsonValue::Object(entries) => {
            serde_json::Value::Object(entries.iter().map(|(k, v)| (k.clone(), serde_value(v))).collect())
        },
    }
}

/// Writes a JSON value as text with `serde_json::to_string`, which does not
/// fail on a `Value` (its keys are strings). The contract names the text and
/// says no more.
#[verifier::external_body]
pub(crate) fn json_value_text(value: &JsonValue) -> (r: String)
    ensures
        r@ == json_text(value@),
{
    serde_json::to_string(&serde_value(value)).unwrap_or_default()
}

/// The metadata label's value: the configuration's metadata entry (see
/// `spec_container_metadata`) as a one-element JSON array, written as text.
pub open spec fn spec_serialized_metadata(configuration: JsonView, remote_workspace_folder: Seq<char>, omit_remote_env: bool) -> Seq<char> {
    json_text(JsonView::Array(seq![JsonView::Object(spec_container_metadata(configuration, remote_workspace_folder, omit_remote_env))]))
}

/// The metadata label's value (see `spec_serialized_metadata`); writing it
/// does not fail.
pub fn serialized_container_metadata(configuration: &JsonValue, remote_workspace_folder: &str, omit_remote_env: bool) -> (r: Result<String, String>)
    ensures
        r is Ok && r->Ok_0@ == spec_serialized_metadata(configuration@, remote_workspace_folder@, omit_remote_env),
{
    let members = container_metadata(configuration, remote_workspace_folder, omit_remote_env);
    let ghost entry = JsonView::Object(entries_view(members@));
    let mut items: Vec<JsonValue> = Vec::new();
    items.push(JsonValue::Object(members));
    proof {
        lemma_items_view(items@);
        assert(items_view(items@) =~= seq![entry]);
    }
    let document = JsonValue::Array(items);
    assert(document@ == JsonView::Array(seq![JsonView::Object(spec_container_metadata(configuration@, remote_workspace_folder@, omit_remote_env))]));
    Ok(json_value_text(&document))
}

} // verus!
