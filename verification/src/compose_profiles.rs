//! Compose profiles: which services of the compose files are tied to profiles,
//! so that an override can reset them when `runServices` picks the services.

use vstd::prelude::*;
use crate::compose_override::{key_less, key_less_exec};
use crate::options::{opt_str, str_eq};
use crate::text::{from_chars, push_str, str_views, to_chars};
use crate::yaml::{parse_yaml_text, untagged, yaml_document, yaml_pairs_view, yaml_str, lemma_yaml_pairs_view, YamlValue, YamlView};

verus! {

/// A service's `profiles:` value as far as it decides anything: a sequence and
/// its number of entries, a tagged value with its tag as YAML writes it (such
/// as `!reset`), null, or anything else.
pub enum ProfilesValue {
    Sequence(usize),
    Tagged(String, Box<ProfilesValue>),
    Null,
    Other,
}

/// Whether a `profiles:` value ties the service to profiles (`Some(true)`),
/// frees it (`Some(false)`: null, or `!reset` of an empty or free value), or
/// changes nothing (`None`).
pub open spec fn spec_profiles_state(p: ProfilesValue) -> Option<bool>
    decreases p,
{
    match p {
        ProfilesValue::Sequence(n) => if n > 0 { Some(true) } else { None },
        ProfilesValue::Tagged(tag, inner) => if tag@ == "!reset"@ {
            Some(
                match spec_profiles_state(*inner) {
                    Some(b) => b,
                    None => false,
                },
            )
        } else {
            spec_profiles_state(*inner)
        },
        ProfilesValue::Null => Some(false),
        ProfilesValue::Other => None,
    }
}

pub fn profiles_state(p: &ProfilesValue) -> (r: Option<bool>)
    ensures
        r == spec_profiles_state(*p),
    decreases p,
{
    match p {
        ProfilesValue::Sequence(n) => if *n > 0 { Some(true) } else { None },
        ProfilesValue::Tagged(tag, inner) => {
            let state = profiles_state(inner);
            if str_eq(tag.as_str(), "!reset") {
                Some(
                    match state {
                        Some(b) => b,
                        None => false,
                    },
                )
            } else {
                state
            }
        },
        ProfilesValue::Null => Some(false),
        ProfilesValue::Other => None,
    }
}

/// An entry of a compose file's `services:` mapping: its key when that is a
/// string, whether its definition is a mapping, and its `profiles:` value when
/// it has one.
pub struct ComposeServiceEntry {
    pub name: Option<String>,
    pub is_mapping: bool,
    pub profiles: Option<ProfilesValue>,
}

/// What an entry does to the set of profiled services: it adds or removes its
/// service, or does nothing.
pub open spec fn entry_effect(e: ComposeServiceEntry) -> Option<(Seq<char>, bool)> {
    if e.name is Some && e.is_mapping && e.profiles is Some {
        match spec_profiles_state(e.profiles->0) {
            Some(b) => Some((opt_str(e.name)->0, b)),
            None => None,
        }
    } else {
        None
    }
}

/// The profiled services after the entries, read in order.
pub open spec fn profiled_set(entries: Seq<ComposeServiceEntry>) -> Set<Seq<char>>
    decreases entries.len(),
{
    if entries.len() == 0 {
        Set::empty()
    } else {
        let before = profiled_set(entries.drop_last());
        match entry_effect(entries.last()) {
            Some((name, true)) => before.insert(name),
            Some((name, false)) => before.remove(name),
            None => before,
        }
    }
}

/// Each name comes before the next in `key_less` order: sorted, without repeats.
pub open spec fn strictly_sorted(s: Seq<Seq<char>>) -> bool {
    forall|i: int, j: int| 0 <= i < j < s.len() ==> key_less(#[trigger] s[i], #[trigger] s[j])
}

pub proof fn lemma_key_less_irreflexive(a: Seq<char>)
    ensures
        !key_less(a, a),
    decreases a.len(),
{
    if a.len() > 0 {
        lemma_key_less_irreflexive(a.drop_first());
    }
}

pub proof fn lemma_key_less_transitive(a: Seq<char>, b: Seq<char>, c: Seq<char>)
    requires
        key_less(a, b),
        key_less(b, c),
    ensures
        key_less(a, c),
    decreases a.len(),
{
    if a.len() > 0 && b.len() > 0 && c.len() > 0 && a[0] == b[0] && b[0] == c[0] {
        lemma_key_less_transitive(a.drop_first(), b.drop_first(), c.drop_first());
    }
}

pub proof fn lemma_key_less_total(a: Seq<char>, b: Seq<char>)
    ensures
        a == b || key_less(a, b) || key_less(b, a),
    decreases a.len(),
{
    if a.len() == 0 && b.len() == 0 {
        assert(a =~= b);
    } else if a.len() > 0 && b.len() > 0 && a[0] == b[0] {
        lemma_key_less_total(a.drop_first(), b.drop_first());
        if a.drop_first() == b.drop_first() {
            assert(a =~= seq![a[0]] + a.drop_first());
            assert(b =~= seq![b[0]] + b.drop_first());
        }
    } else if a.len() > 0 && b.len() > 0 {
        if (a[0] as u32) == (b[0] as u32) {
            vstd::utf8::char_u32_cast(a[0], a[0] as u32);
            vstd::utf8::char_u32_cast(b[0], b[0] as u32);
        }
    }
}

/// Adds a name to a sorted list of names, keeping it sorted.
fn sorted_insert(out: &mut Vec<String>, name: &str)
    requires
        strictly_sorted(str_views(old(out)@)),
    ensures
        strictly_sorted(str_views(final(out)@)),
        str_views(final(out)@).to_set() == str_views(old(out)@).to_set().insert(name@),
{
    let ghost s = str_views(out@);
    let mut k: usize = 0;
    while k < out.len() && key_less_exec(out[k].as_str(), name)
        invariant
            k <= out.len(),
            s == str_views(out@),
            s.len() == out@.len(),
            forall|i: int| 0 <= i < k ==> key_less(#[trigger] s[i], name@),
        decreases out.len() - k,
    {
        assert(s[k as int] == out@[k as int]@);
        k = k + 1;
    }
    if k < out.len() && str_eq(out[k].as_str(), name) {
        assert(s[k as int] == out@[k as int]@);
        assert(s.contains(name@));
        assert(s.to_set() =~= s.to_set().insert(name@));
        return;
    }
    proof {
        if k < out.len() {
            assert(s[k as int] == out@[k as int]@);
            lemma_key_less_total(s[k as int], name@);
        }
    }
    let owned = from_chars(&to_chars(name));
    out.insert(k, owned);
    let ghost t = s.insert(k as int, name@);
    proof {
        s.insert_ensures(k as int, name@);
        assert(str_views(out@) =~= t) by {
            assert forall|i: int| 0 <= i < t.len() implies #[trigger] str_views(out@)[i] == t[i] by {
                if i < k {
                } else if i == k {
                } else {
                    assert(t[(i - 1) + 1] == s[i - 1]);
                }
            }
        }
        assert forall|i: int, j: int| 0 <= i < j < t.len() implies key_less(#[trigger] t[i], #[trigger] t[j]) by {
            if j < k {
            } else if j == k {
            } else if i < k {
                assert(t[(j - 1) + 1] == s[j - 1]);
                lemma_key_less_transitive(s[i], name@, s[k as int]);
                if j - 1 > k {
                    lemma_key_less_transitive(s[i], s[k as int], s[j - 1]);
                }
            } else if i == k {
                assert(t[(j - 1) + 1] == s[j - 1]);
                if j - 1 > k {
                    lemma_key_less_transitive(name@, s[k as int], s[j - 1]);
                }
            } else {
                assert(t[(i - 1) + 1] == s[i - 1]);
                assert(t[(j - 1) + 1] == s[j - 1]);
            }
        }
        assert forall|x: Seq<char>| t.contains(x) <==> s.contains(x) || x == name@ by {
            if t.contains(x) {
                let i = choose|i: int| 0 <= i < t.len() && t[i] == x;
                if i > k {
                    assert(t[(i - 1) + 1] == s[i - 1]);
                }
            }
            if s.contains(x) {
                let i = choose|i: int| 0 <= i < s.len() && s[i] == x;
                if i < k {
                    assert(t[i] == x);
                } else {
                    assert(t[i + 1] == x);
                }
            }
            if x == name@ {
                assert(t[k as int] == x);
            }
        }
        assert(t.to_set() =~= s.to_set().insert(name@));
    }
}

/// Takes a name out of a sorted list of names.
fn sorted_remove(out: &mut Vec<String>, name: &str)
    requires
        strictly_sorted(str_views(old(out)@)),
    ensures
        strictly_sorted(str_views(final(out)@)),
        str_views(final(out)@).to_set() == str_views(old(out)@).to_set().remove(name@),
{
    let ghost s = str_views(out@);
    let mut k: usize = 0;
    while k < out.len() && !str_eq(out[k].as_str(), name)
        invariant
            k <= out.len(),
            s == str_views(out@),
            s.len() == out@.len(),
            forall|i: int| 0 <= i < k ==> #[trigger] s[i] != name@,
        decreases out.len() - k,
    {
        assert(s[k as int] == out@[k as int]@);
        k = k + 1;
    }
    if k == out.len() {
        assert(s.to_set() =~= s.to_set().remove(name@));
        return;
    }
    assert(s[k as int] == out@[k as int]@);
    let _gone = out.remove(k);
    let ghost t = s.remove(k as int);
    proof {
        s.remove_ensures(k as int);
        assert(str_views(out@) =~= t) by {
            assert forall|i: int| 0 <= i < t.len() implies #[trigger] str_views(out@)[i] == t[i] by {
                if i >= k {
                    assert(t[i] == s[i + 1]);
                }
            }
        }
        assert forall|i: int, j: int| 0 <= i < j < t.len() implies key_less(#[trigger] t[i], #[trigger] t[j]) by {
            if i >= k {
                assert(t[i] == s[i + 1]);
            }
            if j >= k {
                assert(t[j] == s[j + 1]);
            }
        }
        assert forall|x: Seq<char>| t.contains(x) <==> s.contains(x) && x != name@ by {
            if t.contains(x) {
                let i = choose|i: int| 0 <= i < t.len() && t[i] == x;
                if i >= k {
                    assert(t[i] == s[i + 1]);
                    assert(key_less(s[k as int], s[i + 1]));
                    if x == name@ {
                        lemma_key_less_irreflexive(name@);
                    }
                } else {
                    assert(key_less(s[i], s[k as int]));
                    if x == name@ {
                        lemma_key_less_irreflexive(name@);
                    }
                }
            }
            if s.contains(x) && x != name@ {
                let i = choose|i: int| 0 <= i < s.len() && s[i] == x;
                if i < k {
                    assert(t[i] == x);
                } else {
                    assert(t[i - 1] == s[(i - 1) + 1]);
                }
            }
        }
        assert(t.to_set() =~= s.to_set().remove(name@));
    }
}

/// The services that the compose files tie to profiles, from the entries of
/// their `services:` mappings in file order: each entry with a string key, a
/// mapping and a `profiles:` value adds or removes its service as
/// `spec_profiles_state` says. The names come sorted, each once.
pub fn compose_profiled_services(entries: &Vec<ComposeServiceEntry>) -> (r: Vec<String>)
    ensures
        strictly_sorted(str_views(r@)),
        str_views(r@).to_set() == profiled_set(entries@),
{
    let mut out: Vec<String> = Vec::new();
    let mut k: usize = 0;
    assert(str_views(out@).to_set() =~= Set::<Seq<char>>::empty());
    assert(entries@.take(0) =~= Seq::<ComposeServiceEntry>::empty());
    while k < entries.len()
        invariant
            k <= entries.len(),
            strictly_sorted(str_views(out@)),
            str_views(out@).to_set() == profiled_set(entries@.take(k as int)),
        decreases entries.len() - k,
    {
        let entry = &entries[k];
        assert(entries@.take(k + 1).drop_last() =~= entries@.take(k as int));
        assert(entries@.take(k + 1).last() == entries@[k as int]);
        match (&entry.name, &entry.profiles) {
            (Some(name), Some(profiles)) => {
                if entry.is_mapping {
                    match profiles_state(profiles) {
                        Some(true) => sorted_insert(&mut out, name.as_str()),
                        Some(false) => sorted_remove(&mut out, name.as_str()),
                        None => {},
                    }
                }
            },
            _ => {},
        }
        k = k + 1;
    }
    assert(entries@.take(k as int) =~= entries@);
    out
}

/// A service name in single quotes, its `'` doubled.
pub open spec fn quote_single(value: Seq<char>) -> Seq<char>
    decreases value.len(),
{
    if value.len() == 0 {
        seq![]
    } else {
        quote_single(value.drop_last()) + if value.last() == '\'' {
            seq!['\'', '\'']
        } else {
            seq![value.last()]
        }
    }
}

fn push_quoted_single(out: &mut Vec<char>, value: &str)
    ensures
        final(out)@ == old(out)@ + quote_single(value@),
{
    let v = to_chars(value);
    let ghost start = out@;
    let mut k: usize = 0;
    assert(v@.take(0) =~= Seq::<char>::empty());
    while k < v.len()
        invariant
            k <= v.len(),
            v@ == value@,
            out@ == start + quote_single(v@.take(k as int)),
        decreases v.len() - k,
    {
        assert(v@.take(k + 1).drop_last() =~= v@.take(k as int));
        assert(v@.take(k + 1).last() == v@[k as int]);
        if v[k] == '\'' {
            out.push('\'');
            out.push('\'');
        } else {
            out.push(v[k]);
        }
        k = k + 1;
    }
    assert(v@.take(k as int) =~= v@);
}

/// The entries of the profile override, one per service.
pub open spec fn profile_reset_entries(services: Seq<Seq<char>>) -> Seq<char>
    decreases services.len(),
{
    if services.len() == 0 {
        seq![]
    } else {
        profile_reset_entries(services.drop_last()) + "  '"@ + quote_single(services.last())
            + "':\n    profiles: !reset []\n"@
    }
}

/// The profile override: none unless `runServices` picked the services and
/// some service is tied to profiles; else the first compose file's version
/// line, then `services:` with each profiled service's profiles reset.
pub open spec fn spec_profile_override_content(services_selected: bool, profiled: Seq<Seq<char>>, version_prefix: Seq<char>) -> Option<Seq<char>> {
    if !services_selected || profiled.len() == 0 {
        None
    } else {
        Some(version_prefix + "services:\n"@ + profile_reset_entries(profiled))
    }
}

pub fn profile_override_content(services_selected: bool, profiled: &Vec<String>, version_prefix: &str) -> (r: Option<String>)
    ensures
        opt_str(r) == spec_profile_override_content(services_selected, str_views(profiled@), version_prefix@),
{
    if !services_selected || profiled.len() == 0 {
        return None;
    }
    let ghost pv = str_views(profiled@);
    let mut out = to_chars(version_prefix);
    push_str(&mut out, "services:\n");
    let ghost head = out@;
    let mut k: usize = 0;
    assert(pv.take(0) =~= Seq::<Seq<char>>::empty());
    assert(head + profile_reset_entries(pv.take(0)) =~= head);
    while k < profiled.len()
        invariant
            k <= profiled.len(),
            pv == str_views(profiled@),
            out@ == head + profile_reset_entries(pv.take(k as int)),
        decreases profiled.len() - k,
    {
        push_str(&mut out, "  '");
        push_quoted_single(&mut out, profiled[k].as_str());
        push_str(&mut out, "':\n    profiles: !reset []\n");
        assert(pv.take(k + 1).drop_last() =~= pv.take(k as int));
        assert(pv.take(k + 1).last() == profiled@[k as int]@);
        k = k + 1;
    }
    assert(pv.take(k as int) =~= pv);
    Some(from_chars(&out))
}

/// `p` is how the library reads the YAML value `y` of a `profiles:` key: a
/// sequence by its number of entries, a tagged value by its tag and what it
/// tags, null as null, anything else as other.
pub open spec fn profiles_match(p: ProfilesValue, y: YamlView) -> bool
    decreases p,
{
    match p {
        ProfilesValue::Sequence(n) => match y {
            YamlView::Sequence(items) => n == items.len(),
            _ => false,
        },
        ProfilesValue::Tagged(t, inner) => match y {
            YamlView::Tagged(yt, yi) => t@ == yt && profiles_match(*inner, *yi),
            _ => false,
        },
        ProfilesValue::Null => y is Null,
        ProfilesValue::Other => !(y is Sequence || y is Tagged || y is Null),
    }
}

/// How the library reads a `profiles:` value (see `profiles_match`).
pub fn profiles_value_of(y: &YamlValue) -> (r: ProfilesValue)
    ensures
        profiles_match(r, y@),
    decreases y,
{
    match y {
        YamlValue::Sequence(items) => {
            proof {
                crate::yaml::lemma_yaml_items_view(items@);
            }
            ProfilesValue::Sequence(items.len())
        },
        YamlValue::Tagged(tag, inner) => {
            let p = profiles_value_of(inner);
            ProfilesValue::Tagged(from_chars(&to_chars(tag.as_str())), Box::new(p))
        },
        YamlValue::Null => ProfilesValue::Null,
        _ => ProfilesValue::Other,
    }
}

/// The value of the first entry whose key is the string `key`.
pub open spec fn yaml_lookup(pairs: Seq<(YamlView, YamlView)>, key: Seq<char>) -> Option<YamlView>
    decreases pairs.len(),
{
    if pairs.len() == 0 {
        None
    } else if pairs[0].0 == YamlView::Str(key) {
        Some(pairs[0].1)
    } else {
        yaml_lookup(pairs.drop_first(), key)
    }
}

fn yaml_lookup_exec<'a>(pairs: &'a Vec<(YamlValue, YamlValue)>, key: &str) -> (r: Option<&'a YamlValue>)
    ensures
        match r {
            Some(v) => yaml_lookup(yaml_pairs_view(pairs@), key@) == Some(v@),
            None => yaml_lookup(yaml_pairs_view(pairs@), key@) is None,
        },
{
    proof {
        lemma_yaml_pairs_view(pairs@);
    }
    let ghost pv = yaml_pairs_view(pairs@);
    let mut k: usize = 0;
    assert(pv.skip(0) =~= pv);
    while k < pairs.len()
        invariant
            k <= pairs.len(),
            pv == yaml_pairs_view(pairs@),
            pv.len() == pairs@.len(),
            forall|i: int| 0 <= i < pairs@.len() ==> #[trigger] pv[i] == (pairs@[i].0@, pairs@[i].1@),
            yaml_lookup(pv, key@) == yaml_lookup(pv.skip(k as int), key@),
        decreases pairs.len() - k,
    {
        assert(pv.skip(k as int).drop_first() =~= pv.skip(k + 1));
        assert(pv.skip(k as int)[0] == pv[k as int]);
        let is_key = match &pairs[k].0 {
            YamlValue::String(s) => str_eq(s.as_str(), key),
            _ => false,
        };
        if is_key {
            return Some(&pairs[k].1);
        }
        k = k + 1;
    }
    None
}

/// The `services:` entries of a compose document: the mapping under the
/// string key `services` of the document's mapping (tags looked through).
pub open spec fn spec_services_pairs(document: YamlView) -> Seq<(YamlView, YamlView)> {
    match untagged(document) {
        YamlView::Mapping(pairs) => match yaml_lookup(pairs, "services"@) {
            Some(services) => match untagged(services) {
                YamlView::Mapping(sp) => sp,
                _ => seq![],
            },
            None => seq![],
        },
        _ => seq![],
    }
}

/// The `profiles:` value of a service definition that is a mapping.
pub open spec fn definition_profiles(definition: YamlView) -> Option<YamlView> {
    match untagged(definition) {
        YamlView::Mapping(dp) => yaml_lookup(dp, "profiles"@),
        _ => None,
    }
}

/// An entry is how the library reads a service's name and definition.
pub open spec fn entry_matches(e: ComposeServiceEntry, pair: (YamlView, YamlView)) -> bool {
    &&& opt_str(e.name) == yaml_str(pair.0)
    &&& e.is_mapping == (untagged(pair.1) is Mapping)
    &&& match (e.profiles, definition_profiles(pair.1)) {
        (Some(p), Some(y)) => profiles_match(p, y),
        (None, None) => true,
        _ => false,
    }
}

pub open spec fn entries_match(entries: Seq<ComposeServiceEntry>, pairs: Seq<(YamlView, YamlView)>) -> bool {
    entries.len() == pairs.len() && forall|i: int| 0 <= i < pairs.len() ==> entry_matches(#[trigger] entries[i], pairs[i])
}

fn untagged_exec(v: &YamlValue) -> (r: &YamlValue)
    ensures
        r@ == untagged(v@),
    decreases v,
{
    match v {
        YamlValue::Tagged(_, inner) => untagged_exec(inner),
        _ => v,
    }
}

fn yaml_str_of(v: &YamlValue) -> (r: Option<String>)
    ensures
        opt_str(r) == yaml_str(v@),
{
    match untagged_exec(v) {
        YamlValue::String(s) => Some(from_chars(&to_chars(s.as_str()))),
        _ => None,
    }
}

/// The service entries of a compose document (see `spec_services_pairs` and
/// `entry_matches`), in order.
pub fn compose_service_entries(document: &YamlValue) -> (r: Vec<ComposeServiceEntry>)
    ensures
        entries_match(r@, spec_services_pairs(document@)),
{
    let mut out: Vec<ComposeServiceEntry> = Vec::new();
    let services = match untagged_exec(document) {
        YamlValue::Mapping(pairs) => match yaml_lookup_exec(pairs, "services") {
            Some(s) => match untagged_exec(s) {
                YamlValue::Mapping(sp) => sp,
                _ => {
                    proof { reveal_strlit("services"); }
                    return out;
                },
            },
            None => {
                proof { reveal_strlit("services"); }
                return out;
            },
        },
        _ => return out,
    };
    proof {
        reveal_strlit("services");
        lemma_yaml_pairs_view(services@);
    }
    let ghost sv = yaml_pairs_view(services@);
    assert(sv == spec_services_pairs(document@));
    let mut k: usize = 0;
    while k < services.len()
        invariant
            k <= services.len(),
            sv == yaml_pairs_view(services@),
            sv.len() == services@.len(),
            forall|i: int| 0 <= i < services@.len() ==> #[trigger] sv[i] == (services@[i].0@, services@[i].1@),
            out@.len() == k,
            forall|i: int| 0 <= i < k ==> entry_matches(#[trigger] out@[i], sv[i]),
        decreases services.len() - k,
    {
        let (name_value, definition) = (&services[k].0, &services[k].1);
        let name = yaml_str_of(name_value);
        let d = untagged_exec(definition);
        let (is_mapping, profiles) = match d {
            YamlValue::Mapping(dp) => {
                let p = match yaml_lookup_exec(dp, "profiles") {
                    Some(y) => Some(profiles_value_of(y)),
                    None => None,
                };
                proof { reveal_strlit("profiles"); }
                (true, p)
            },
            _ => (false, None),
        };
        let entry = ComposeServiceEntry { name, is_mapping, profiles };
        assert(entry_matches(entry, sv[k as int]));
        out.push(entry);
        k = k + 1;
    }
    out
}

/// The compose files' texts parsed as YAML, in order: the documents, or the
/// first parser message.
pub open spec fn spec_yaml_documents(texts: Seq<Seq<char>>) -> Result<Seq<YamlView>, Seq<char>>
    decreases texts.len(),
{
    if texts.len() == 0 {
        Ok(seq![])
    } else {
        match spec_yaml_documents(texts.drop_last()) {
            Err(e) => Err(e),
            Ok(documents) => match yaml_document(texts.last()) {
                Err(e) => Err(e),
                Ok(d) => Ok(documents.push(d)),
            },
        }
    }
}

/// The service entries of the documents, one document after the other.
pub open spec fn all_service_pairs(documents: Seq<YamlView>) -> Seq<(YamlView, YamlView)>
    decreases documents.len(),
{
    if documents.len() == 0 {
        seq![]
    } else {
        all_service_pairs(documents.drop_last()) + spec_services_pairs(documents.last())
    }
}

/// The services the compose files tie to profiles, sorted: each text is parsed
/// as YAML (the first parser message is the error), and the services' entries
/// of all documents, in order, decide (see `compose_profiled_services`).
pub fn compose_profiled_services_from_texts(texts: &Vec<String>) -> (r: Result<Vec<String>, String>)
    ensures
        match spec_yaml_documents(str_views(texts@)) {
            Err(e) => r is Err && r->Err_0@ == e,
            Ok(documents) => r is Ok && strictly_sorted(str_views(r->Ok_0@)) && exists|entries: Seq<ComposeServiceEntry>|
                #[trigger] entries_match(entries, all_service_pairs(documents))
                    && str_views(r->Ok_0@).to_set() == profiled_set(entries),
        },
{
    let ghost tv = str_views(texts@);
    let ghost mut docs: Seq<YamlView> = seq![];
    let mut entries: Vec<ComposeServiceEntry> = Vec::new();
    let mut k: usize = 0;
    assert(tv.take(0) =~= Seq::<Seq<char>>::empty());
    while k < texts.len()
        invariant
            k <= texts.len(),
            tv == str_views(texts@),
            spec_yaml_documents(tv.take(k as int)) == Ok::<Seq<YamlView>, Seq<char>>(docs),
            entries_match(entries@, all_service_pairs(docs)),
        decreases texts.len() - k,
    {
        assert(tv.take(k + 1).drop_last() =~= tv.take(k as int));
        assert(tv.take(k + 1).last() == texts@[k as int]@);
        match parse_yaml_text(texts[k].as_str()) {
            Ok(document) => {
                let mut more = compose_service_entries(&document);
                let ghost before = entries@;
                let ghost mv = more@;
                let ghost pb = all_service_pairs(docs);
                entries.append(&mut more);
                proof {
                    let old_docs = docs;
                    docs = docs.push(document@);
                    let all = all_service_pairs(docs);
                    assert(docs.drop_last() =~= old_docs);
                    assert(all == pb + spec_services_pairs(document@));
                    assert(entries@ == before + mv);
                    assert forall|i: int| 0 <= i < all.len() implies entry_matches(#[trigger] entries@[i], all[i]) by {
                        if i < before.len() {
                            assert(entry_matches(before[i], pb[i]));
                        } else {
                            assert(entry_matches(mv[i - before.len()], spec_services_pairs(document@)[i - before.len()]));
                        }
                    }
                }
            },
            Err(e) => {
                proof {
                    lemma_yaml_documents_error(tv, k + 1);
                }
                return Err(e);
            },
        }
        k = k + 1;
    }
    assert(tv.take(k as int) =~= tv);
    let r = compose_profiled_services(&entries);
    assert(entries_match(entries@, all_service_pairs(docs)));
    assert(spec_yaml_documents(tv)->Ok_0 == docs);
    assert(entries_match(entries@, all_service_pairs(spec_yaml_documents(tv)->Ok_0)));
    Ok(r)
}

/// A parse error among the first texts is the error of them all.
proof fn lemma_yaml_documents_error(texts: Seq<Seq<char>>, n: int)
    requires
        0 <= n <= texts.len(),
        spec_yaml_documents(texts.take(n)) is Err,
    ensures
        spec_yaml_documents(texts) == spec_yaml_documents(texts.take(n)),
    decreases texts.len() - n,
{
    if n < texts.len() {
        assert(texts.take(n + 1).drop_last() =~= texts.take(n));
        lemma_yaml_documents_error(texts, n + 1);
    } else {
        assert(texts.take(n) =~= texts);
    }
}

} // verus!
