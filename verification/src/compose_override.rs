//! The compose override file: mount definitions in compose's long syntax,
//! their YAML rendering, and the escaping of quoted scalars.

use vstd::prelude::*;
use crate::json::{entries_view, entry_value, json_view, lemma_entries_view, JsonValue, JsonView};
use crate::mounts::spec_split_mount_options;
use crate::text::{
    all_chars, digits_value, from_chars, is, is_ascii_digit, parse_u64, parse_u64_chars, push_str, split,
    split_chars, split_once, str_views, strip_prefix, strip_prefix_str, to_chars, trim_char, trim_char_chars,
    views,
};

verus! {

/// A scalar as compose reads it inside single quotes: `'` doubled, and `$`
/// doubled so that compose does not interpolate it.
pub open spec fn escape_scalar(value: Seq<char>) -> Seq<char>
    decreases value.len(),
{
    if value.len() == 0 {
        seq![]
    } else {
        escape_scalar(value.drop_last()) + if value.last() == '\'' {
            seq!['\'', '\'']
        } else if value.last() == '$' {
            seq!['$', '$']
        } else {
            seq![value.last()]
        }
    }
}

pub fn escape_compose_scalar(value: &str) -> (r: String)
    ensures
        r@ == escape_scalar(value@),
{
    let v = to_chars(value);
    let mut out: Vec<char> = Vec::new();
    let mut k: usize = 0;
    assert(v@.take(0) =~= Seq::<char>::empty());
    while k < v.len()
        invariant
            k <= v.len(),
            v@ == value@,
            out@ == escape_scalar(v@.take(k as int)),
        decreases v.len() - k,
    {
        assert(v@.take(k + 1).drop_last() =~= v@.take(k as int));
        assert(v@.take(k + 1).last() == v@[k as int]);
        let c = v[k];
        if c == '\'' {
            out.push('\'');
            out.push('\'');
        } else if c == '$' {
            out.push('$');
            out.push('$');
        } else {
            out.push(c);
        }
        assert(out@ =~= escape_scalar(v@.take(k + 1)));
        k = k + 1;
    }
    assert(v@.take(k as int) =~= v@);
    from_chars(&out)
}

/// A label is escaped as a scalar is.
pub fn escape_compose_label(label: &str) -> (r: String)
    ensures
        r@ == escape_scalar(label@),
{
    escape_compose_scalar(label)
}

/// Whether `a` sorts before `b`, character by character, as `String`'s order does.
pub open spec fn key_less(a: Seq<char>, b: Seq<char>) -> bool
    decreases a.len(),
{
    if a.len() == 0 {
        b.len() > 0
    } else if b.len() == 0 {
        false
    } else if a[0] != b[0] {
        (a[0] as u32) < (b[0] as u32)
    } else {
        key_less(a.drop_first(), b.drop_first())
    }
}

pub fn key_less_exec(a: &str, b: &str) -> (r: bool)
    ensures
        r == key_less(a@, b@),
{
    let av = to_chars(a);
    let bv = to_chars(b);
    let mut k: usize = 0;
    assert(av@.skip(0) =~= av@);
    assert(bv@.skip(0) =~= bv@);
    while k < av.len() && k < bv.len()
        invariant
            k <= av.len(),
            k <= bv.len(),
            av@ == a@,
            bv@ == b@,
            key_less(a@, b@) == key_less(av@.skip(k as int), bv@.skip(k as int)),
        decreases av.len() - k,
    {
        assert(av@.skip(k as int)[0] == av@[k as int]);
        assert(bv@.skip(k as int)[0] == bv@[k as int]);
        if av[k] != bv[k] {
            return (av[k] as u32) < (bv[k] as u32);
        }
        assert(av@.skip(k as int).drop_first() =~= av@.skip(k + 1));
        assert(bv@.skip(k as int).drop_first() =~= bv@.skip(k + 1));
        k = k + 1;
    }
    k == av.len() && k < bv.len()
}

/// Inserting into a map kept in key order: a present key has its value
/// replaced where it stands; a new key goes before the first larger key.
pub open spec fn object_insert(entries: Seq<(Seq<char>, JsonView)>, key: Seq<char>, value: JsonView) -> Seq<(Seq<char>, JsonView)>
    decreases entries.len(),
{
    if entries.len() == 0 {
        seq![(key, value)]
    } else if entries[0].0 == key {
        seq![(key, value)] + entries.drop_first()
    } else if key_less(key, entries[0].0) {
        seq![(key, value)] + entries
    } else {
        seq![entries[0]] + object_insert(entries.drop_first(), key, value)
    }
}

/// A copy of a JSON value.
pub fn clone_json(v: &JsonValue) -> (r: JsonValue)
    ensures
        r@ == v@,
    decreases v,
{
    match v {
        JsonValue::Null => JsonValue::Null,
        JsonValue::Bool(b) => JsonValue::Bool(*b),
        JsonValue::Number(n) => JsonValue::Number(from_chars(&to_chars(n.as_str()))),
        JsonValue::String(s) => JsonValue::String(from_chars(&to_chars(s.as_str()))),
        JsonValue::Array(items) => {
            let out = clone_items(items);
            JsonValue::Array(out)
        },
        JsonValue::Object(entries) => {
            let out = clone_entries(entries);
            JsonValue::Object(out)
        },
    }
}

/// A copy of an array's items.
pub fn clone_items(items: &Vec<JsonValue>) -> (r: Vec<JsonValue>)
    ensures
        crate::json::items_view(r@) == crate::json::items_view(items@),
    decreases items,
{
    proof {
        crate::json::lemma_items_view(items@);
    }
    let mut out: Vec<JsonValue> = Vec::new();
    let mut k: usize = 0;
    while k < items.len()
        invariant
            k <= items.len(),
            out@.len() == k,
            crate::json::items_view(items@).len() == items@.len(),
            forall|i: int| 0 <= i < items@.len() ==> #[trigger] crate::json::items_view(items@)[i] == json_view(items@[i]),
            forall|i: int| #![trigger out@[i]] 0 <= i < k ==> json_view(out@[i]) == json_view(items@[i]),
        decreases items.len() - k,
    {
        proof {
            assert(decreases_to!(*items => items[k as int]));
        }
        let c = clone_json(&items[k]);
        out.push(c);
        k = k + 1;
    }
    proof {
        crate::json::lemma_items_view(out@);
        assert(crate::json::items_view(out@) =~= crate::json::items_view(items@));
    }
    out
}

/// A copy of an object's entries.
pub fn clone_entries(entries: &Vec<(String, JsonValue)>) -> (r: Vec<(String, JsonValue)>)
    ensures
        entries_view(r@) == entries_view(entries@),
    decreases entries,
{
    proof {
        lemma_entries_view(entries@);
    }
    let mut out: Vec<(String, JsonValue)> = Vec::new();
    let mut k: usize = 0;
    while k < entries.len()
        invariant
            k <= entries.len(),
            out@.len() == k,
            entries_view(entries@).len() == entries@.len(),
            forall|i: int| 0 <= i < entries@.len() ==> #[trigger] entries_view(entries@)[i] == (entries@[i].0@, json_view(entries@[i].1)),
            forall|i: int| #![trigger out@[i]] 0 <= i < k ==> out@[i].0@ == entries@[i].0@ && json_view(out@[i].1) == json_view(entries@[i].1),
        decreases entries.len() - k,
    {
        let key = from_chars(&to_chars(entries[k].0.as_str()));
        proof {
            assert(decreases_to!(*entries => entries[k as int]));
        }
        let value = clone_json(&entries[k].1);
        out.push((key, value));
        k = k + 1;
    }
    proof {
        lemma_entries_view(out@);
        assert(entries_view(out@) =~= entries_view(entries@));
    }
    out
}

/// Inserts into an object's entries kept in key order (see `object_insert`).
pub fn object_insert_exec(entries: &mut Vec<(String, JsonValue)>, key: &str, value: JsonValue)
    ensures
        entries_view(final(entries)@) == object_insert(entries_view(old(entries)@), key@, value@),
{
    proof {
        lemma_entries_view(entries@);
    }
    let ghost ev = entries_view(entries@);
    let mut k: usize = 0;
    assert(ev.take(0) + object_insert(ev.skip(0), key@, value@) =~= object_insert(ev, key@, value@)) by {
        assert(ev.skip(0) =~= ev);
        assert(ev.take(0) =~= Seq::<(Seq<char>, JsonView)>::empty());
    }
    while k < entries.len()
        invariant
            k <= entries.len(),
            ev == entries_view(entries@),
            ev.len() == entries@.len(),
            forall|i: int| 0 <= i < entries@.len() ==> #[trigger] ev[i] == (entries@[i].0@, json_view(entries@[i].1)),
            object_insert(ev, key@, value@) == ev.take(k as int) + object_insert(ev.skip(k as int), key@, value@),
        ensures
            k <= entries.len(),
            ev == entries_view(entries@),
            object_insert(ev, key@, value@) == ev.take(k as int) + object_insert(ev.skip(k as int), key@, value@),
            k < entries.len() ==> ev[k as int].0 == key@ || key_less(key@, ev[k as int].0),
        decreases entries.len() - k,
    {
        assert(ev.skip(k as int)[0] == ev[k as int]);
        if crate::options::str_eq(entries[k].0.as_str(), key) || key_less_exec(key, entries[k].0.as_str()) {
            break;
        }
        assert(ev.skip(k as int).drop_first() =~= ev.skip(k + 1));
        assert(ev.take(k + 1) =~= ev.take(k as int) + seq![ev[k as int]]);
        k = k + 1;
    }
    let ghost vv = value@;
    if k < entries.len() && crate::options::str_eq(entries[k].0.as_str(), key) {
        let owned_key = from_chars(&to_chars(key));
        proof {
            assert(ev.skip(k as int)[0] == ev[k as int]);
            assert(ev[k as int].0 == key@);
            assert(object_insert(ev.skip(k as int), key@, vv) == seq![(key@, vv)] + ev.skip(k as int).drop_first());
        }
        entries.set(k, (owned_key, value));
        proof {
            lemma_entries_view(entries@);
            assert(ev.skip(k as int).drop_first() =~= ev.skip(k + 1));
            assert(entries_view(entries@) =~= ev.take(k as int) + (seq![(key@, vv)] + ev.skip(k + 1)));
        }
    } else {
        let owned_key = from_chars(&to_chars(key));
        proof {
            if k < ev.len() {
                assert(ev.skip(k as int)[0] == ev[k as int]);
                assert(ev[k as int].0 != key@);
                assert(object_insert(ev.skip(k as int), key@, vv) == seq![(key@, vv)] + ev.skip(k as int));
            } else {
                assert(ev.skip(k as int) =~= Seq::<(Seq<char>, JsonView)>::empty());
            }
        }
        entries.insert(k, (owned_key, value));
        proof {
            lemma_entries_view(entries@);
            if k < ev.len() {
                assert(ev.skip(k as int)[0] == ev[k as int]);
            } else {
                assert(ev.skip(k as int) =~= Seq::<(Seq<char>, JsonView)>::empty());
            }
            assert(entries_view(entries@) =~= ev.take(k as int) + (seq![(key@, vv)] + ev.skip(k as int)));
        }
    }
}


/// The entry of an object's entries with the key (the first such entry).
pub fn entries_get<'a>(entries: &'a Vec<(String, JsonValue)>, key: &str) -> (r: Option<&'a JsonValue>)
    ensures
        match r {
            Some(m) => entry_value(entries_view(entries@), key@) == Some(m@),
            None => entry_value(entries_view(entries@), key@) is None,
        },
{
    proof {
        lemma_entries_view(entries@);
    }
    let ghost ev = entries_view(entries@);
    let mut k: usize = 0;
    assert(ev.skip(0) =~= ev);
    while k < entries.len()
        invariant
            k <= entries.len(),
            ev == entries_view(entries@),
            ev.len() == entries@.len(),
            forall|i: int| 0 <= i < entries@.len() ==> #[trigger] ev[i] == (entries@[i].0@, json_view(entries@[i].1)),
            entry_value(ev, key@) == entry_value(ev.skip(k as int), key@),
        decreases entries.len() - k,
    {
        assert(ev.skip(k as int).drop_first() =~= ev.skip(k + 1));
        assert(ev.skip(k as int)[0] == ev[k as int]);
        if crate::options::str_eq(entries[k].0.as_str(), key) {
            return Some(&entries[k].1);
        }
        k = k + 1;
    }
    None
}

/// The key path a mount option names: `bind-propagation` and `volume-nocopy`
/// are nested keys, other keys are split at `.`.
pub open spec fn spec_mount_option_key_path(key: Seq<char>) -> Seq<Seq<char>> {
    if key == "bind-propagation"@ {
        seq!["bind"@, "propagation"@]
    } else if key == "volume-nocopy"@ {
        seq!["volume"@, "nocopy"@]
    } else {
        split(key, '.')
    }
}

pub fn mount_option_key_path(key: &str) -> (r: Vec<String>)
    ensures
        str_views(r@) == spec_mount_option_key_path(key@),
        r.len() >= 1,
{
    let mut out: Vec<String> = Vec::new();
    if crate::options::str_eq(key, "bind-propagation") {
        crate::exec::push_string(&mut out, "bind");
        crate::exec::push_string(&mut out, "propagation");
        assert(str_views(out@) =~= seq!["bind"@, "propagation"@]);
        return out;
    }
    if crate::options::str_eq(key, "volume-nocopy") {
        crate::exec::push_string(&mut out, "volume");
        crate::exec::push_string(&mut out, "nocopy");
        assert(str_views(out@) =~= seq!["volume"@, "nocopy"@]);
        return out;
    }
    let parts = split_chars(&to_chars(key), '.');
    proof {
        crate::text::lemma_split_nonempty(key@, '.');
    }
    let mut k: usize = 0;
    while k < parts.len()
        invariant
            k <= parts.len(),
            views(parts@) == split(key@, '.'),
            str_views(out@) == views(parts@).take(k as int),
        decreases parts.len() - k,
    {
        let piece = from_chars(&parts[k]);
        assert(str_views(out@.push(piece)) =~= str_views(out@).push(piece@));
        out.push(piece);
        assert(views(parts@).take(k + 1) =~= views(parts@).take(k as int).push(parts@[k as int]@));
        k = k + 1;
    }
    assert(views(parts@).take(k as int) =~= views(parts@));
    out
}

/// The character of a decimal digit.
pub open spec fn digit_char(d: nat) -> char {
    if d == 0 { '0' } else if d == 1 { '1' } else if d == 2 { '2' } else if d == 3 { '3' } else if d == 4 { '4' }
    else if d == 5 { '5' } else if d == 6 { '6' } else if d == 7 { '7' } else if d == 8 { '8' } else { '9' }
}

/// A number's decimal digits, without leading zeros.
pub open spec fn decimal(n: nat) -> Seq<char>
    decreases n,
{
    if n < 10 {
        seq![digit_char(n)]
    } else {
        decimal(n / 10) + seq![digit_char(n % 10)]
    }
}

fn digit_char_exec(d: u64) -> (r: char)
    requires
        d < 10,
    ensures
        r == digit_char(d as nat),
{
    if d == 0 { '0' } else if d == 1 { '1' } else if d == 2 { '2' } else if d == 3 { '3' } else if d == 4 { '4' }
    else if d == 5 { '5' } else if d == 6 { '6' } else if d == 7 { '7' } else if d == 8 { '8' } else { '9' }
}

pub fn decimal_exec(n: u64) -> (r: Vec<char>)
    ensures
        r@ == decimal(n as nat),
    decreases n,
{
    if n < 10 {
        let mut v: Vec<char> = Vec::new();
        v.push(digit_char_exec(n));
        assert(v@ =~= seq![digit_char(n as nat)]);
        v
    } else {
        let mut v = decimal_exec(n / 10);
        v.push(digit_char_exec(n % 10));
        v
    }
}

/// `str::parse::<i64>`, else `str::parse::<u64>`: an optional sign (`-` only
/// for a value that fits in `i64`) and decimal digits; the sign and magnitude.
pub open spec fn spec_integer_literal(v: Seq<char>) -> Option<(bool, nat)> {
    let neg = v.len() > 0 && v[0] == '-';
    let digits = if v.len() > 0 && (v[0] == '-' || v[0] == '+') { v.drop_first() } else { v };
    match parse_u64(digits) {
        Some(n) => if neg && n > 0x8000_0000_0000_0000 {
            None
        } else {
            Some((neg, n as nat))
        },
        None => None,
    }
}

/// The text `serde_json` prints for an integer.
pub open spec fn integer_text(neg: bool, n: nat) -> Seq<char> {
    if neg && n > 0 {
        seq!['-'] + decimal(n)
    } else {
        decimal(n)
    }
}

/// A mount option's value as JSON: surrounding `"` removed, then `true` and
/// `false` as booleans, an integer as a number, a text with an entry in
/// `float_numbers` as that number, and anything else as a string.
pub open spec fn spec_mount_option_scalar(value: Seq<char>, float_numbers: Seq<(Seq<char>, Seq<char>)>) -> JsonView {
    let v = trim_char(value, '"');
    if v == "true"@ {
        JsonView::Bool(true)
    } else if v == "false"@ {
        JsonView::Bool(false)
    } else {
        match spec_integer_literal(v) {
            Some((neg, n)) => JsonView::Number(integer_text(neg, n)),
            None => match crate::engine::env_lookup(float_numbers, v) {
                Some(t) => JsonView::Number(t),
                None => JsonView::Str(v),
            },
        }
    }
}

fn lookup_text(table: &Vec<(String, String)>, name: &Vec<char>) -> (r: Option<String>)
    ensures
        crate::options::opt_str(r) == crate::engine::env_lookup(crate::engine::pair_views(table@), name@),
{
    let ghost tv = crate::engine::pair_views(table@);
    let mut k: usize = 0;
    assert(tv.skip(0) =~= tv);
    while k < table.len()
        invariant
            k <= table.len(),
            tv == crate::engine::pair_views(table@),
            crate::engine::env_lookup(tv, name@) == crate::engine::env_lookup(tv.skip(k as int), name@),
        decreases table.len() - k,
    {
        assert(tv.skip(k as int).drop_first() =~= tv.skip(k + 1));
        assert(tv.skip(k as int)[0] == tv[k as int]);
        if crate::text::chars_eq(&to_chars(table[k].0.as_str()), name) {
            return Some(from_chars(&to_chars(table[k].1.as_str())));
        }
        k = k + 1;
    }
    None
}

pub fn parse_mount_option_scalar(value: &str, float_numbers: &Vec<(String, String)>) -> (r: JsonValue)
    ensures
        r@ == spec_mount_option_scalar(value@, crate::engine::pair_views(float_numbers@)),
{
    let v = trim_char_chars(&to_chars(value), '"');
    if is(&v, "true") {
        return JsonValue::Bool(true);
    }
    if is(&v, "false") {
        return JsonValue::Bool(false);
    }
    let neg = v.len() > 0 && v[0] == '-';
    let digits = if v.len() > 0 && (v[0] == '-' || v[0] == '+') {
        crate::text::slice_of(&v, 1, v.len())
    } else {
        crate::text::slice_of(&v, 0, v.len())
    };
    assert(v@.len() > 0 && (v@[0] == '-' || v@[0] == '+') ==> digits@ =~= v@.drop_first());
    assert(!(v@.len() > 0 && (v@[0] == '-' || v@[0] == '+')) ==> digits@ =~= v@);
    match parse_u64_chars(&digits) {
        Some(n) => {
            if !(neg && n > 0x8000_0000_0000_0000u64) {
                let mut text: Vec<char> = Vec::new();
                if neg && n > 0 {
                    text.push('-');
                }
                let d = decimal_exec(n);
                crate::text::push_all(&mut text, &d);
                assert(text@ =~= integer_text(neg, n as nat));
                return JsonValue::Number(from_chars(&text));
            }
        },
        None => {},
    }
    match lookup_text(float_numbers, &v) {
        Some(t) => JsonValue::Number(t),
        None => JsonValue::String(from_chars(&v)),
    }
}

/// Sets `leaf` below the nested objects named by `parents`, creating them, and
/// replacing a member on the path that is not an object by an empty object.
pub open spec fn spec_insert_nested(
    fields: Seq<(Seq<char>, JsonView)>,
    parents: Seq<Seq<char>>,
    leaf: Seq<char>,
    value: JsonView,
) -> Seq<(Seq<char>, JsonView)>
    decreases parents.len(),
{
    if parents.len() == 0 {
        object_insert(fields, leaf, value)
    } else {
        let child = match entry_value(fields, parents[0]) {
            Some(JsonView::Object(c)) => c,
            _ => seq![],
        };
        object_insert(fields, parents[0], JsonView::Object(spec_insert_nested(child, parents.drop_first(), leaf, value)))
    }
}

pub fn insert_nested_mount_value(
    fields: &mut Vec<(String, JsonValue)>,
    parents: &Vec<String>,
    start: usize,
    leaf: &str,
    value: JsonValue,
)
    requires
        start <= parents.len(),
    ensures
        entries_view(final(fields)@) == spec_insert_nested(entries_view(old(fields)@), str_views(parents@).skip(start as int), leaf@, value@),
    decreases parents.len() - start,
{
    if start == parents.len() {
        assert(str_views(parents@).skip(start as int) =~= Seq::<Seq<char>>::empty());
        object_insert_exec(fields, leaf, value);
        return;
    }
    let ghost ps = str_views(parents@).skip(start as int);
    assert(ps[0] == parents@[start as int]@);
    assert(ps.drop_first() =~= str_views(parents@).skip(start + 1));
    let mut child: Vec<(String, JsonValue)> = match entries_get(fields, parents[start].as_str()) {
        Some(JsonValue::Object(c)) => clone_entries(c),
        _ => {
            let c: Vec<(String, JsonValue)> = Vec::new();
            assert(entries_view(c@) =~= Seq::<(Seq<char>, JsonView)>::empty());
            c
        },
    };
    insert_nested_mount_value(&mut child, parents, start + 1, leaf, value);
    object_insert_exec(fields, parents[start].as_str(), JsonValue::Object(child));
}


/// Merges a value into a member: into an existing object member entry by
/// entry when both are objects, else the value replaces what was there.
pub open spec fn spec_merge_value(fields: Seq<(Seq<char>, JsonView)>, key: Seq<char>, value: JsonView) -> Seq<(Seq<char>, JsonView)>
    decreases value, 2nat,
{
    match entry_value(fields, key) {
        Some(existing) => object_insert(fields, key, spec_merge_mount_scalar_or_object(existing, value)),
        None => object_insert(fields, key, value),
    }
}

/// Two objects merge entry by entry; otherwise the incoming value wins.
pub open spec fn spec_merge_mount_scalar_or_object(existing: JsonView, incoming: JsonView) -> JsonView
    decreases incoming, 1nat,
{
    match incoming {
        JsonView::Object(i) => match existing {
            JsonView::Object(e) => JsonView::Object(spec_merge_all(e, i, 0)),
            _ => incoming,
        },
        _ => incoming,
    }
}

/// The incoming entries from `from` on, merged in order.
pub open spec fn spec_merge_all(fields: Seq<(Seq<char>, JsonView)>, incoming: Seq<(Seq<char>, JsonView)>, from: nat) -> Seq<(Seq<char>, JsonView)>
    decreases incoming, 0nat, incoming.len() - from,
{
    if from >= incoming.len() {
        fields
    } else {
        proof {
            assert(decreases_to!(incoming => incoming[from as int]));
        }
        spec_merge_all(spec_merge_value(fields, incoming[from as int].0, incoming[from as int].1), incoming, from + 1)
    }
}


pub fn merge_mount_value(fields: &mut Vec<(String, JsonValue)>, key: &str, value: JsonValue)
    ensures
        entries_view(final(fields)@) == spec_merge_value(entries_view(old(fields)@), key@, value@),
    decreases value@, 2nat,
{
    let existing = match entries_get(fields, key) {
        Some(e) => Some(clone_json(e)),
        None => None,
    };
    match existing {
        Some(e) => {
            let merged = merge_mount_scalar_or_object(e, value);
            object_insert_exec(fields, key, merged);
        },
        None => object_insert_exec(fields, key, value),
    }
}

pub fn merge_mount_scalar_or_object(existing: JsonValue, incoming: JsonValue) -> (r: JsonValue)
    ensures
        r@ == spec_merge_mount_scalar_or_object(existing@, incoming@),
    decreases incoming@, 1nat,
{
    match incoming {
        JsonValue::Object(i) => match existing {
            JsonValue::Object(e) => {
                let mut e = e;
                proof {
                    assert(decreases_to!(incoming@ => entries_view(i@)));
                }
                merge_all(&mut e, &i);
                JsonValue::Object(e)
            },
            _ => JsonValue::Object(i),
        },
        _ => incoming,
    }
}

fn merge_all(fields: &mut Vec<(String, JsonValue)>, incoming: &Vec<(String, JsonValue)>)
    ensures
        entries_view(final(fields)@) == spec_merge_all(entries_view(old(fields)@), entries_view(incoming@), 0),
    decreases entries_view(incoming@), 0nat, entries_view(incoming@).len(),
{
    proof {
        lemma_entries_view(incoming@);
    }
    let ghost iv = entries_view(incoming@);
    let ghost start = entries_view(fields@);
    let mut k: usize = 0;
    while k < incoming.len()
        invariant
            k <= incoming.len(),
            iv == entries_view(incoming@),
            iv.len() == incoming@.len(),
            forall|i: int| 0 <= i < incoming@.len() ==> #[trigger] iv[i] == (incoming@[i].0@, json_view(incoming@[i].1)),
            spec_merge_all(start, iv, 0) == spec_merge_all(entries_view(fields@), iv, k as nat),
        decreases incoming.len() - k,
    {
        let value = clone_json(&incoming[k].1);
        proof {
            assert(iv[k as int].1 == value@);
            assert(decreases_to!(iv => iv[k as int]));
        }
        merge_mount_value(fields, incoming[k].0.as_str(), value);
        k = k + 1;
    }
}


/// `source=` or `src=`: the value.
pub open spec fn source_value(option: Seq<char>) -> Option<Seq<char>> {
    match strip_prefix(option, "source="@) {
        Some(v) => Some(v),
        None => strip_prefix(option, "src="@),
    }
}

/// `target=`, `destination=` or `dst=`: the value.
pub open spec fn target_value(option: Seq<char>) -> Option<Seq<char>> {
    match strip_prefix(option, "target="@) {
        Some(v) => Some(v),
        None => match strip_prefix(option, "destination="@) {
            Some(v) => Some(v),
            None => strip_prefix(option, "dst="@),
        },
    }
}

/// One option of a mount string applied to the long-syntax fields.
pub open spec fn definition_option(
    fields: Seq<(Seq<char>, JsonView)>,
    option: Seq<char>,
    float_numbers: Seq<(Seq<char>, Seq<char>)>,
) -> Seq<(Seq<char>, JsonView)> {
    if option == "readonly"@ || option == "ro"@ {
        object_insert(fields, "read_only"@, JsonView::Bool(true))
    } else if strip_prefix(option, "type="@) is Some {
        object_insert(fields, "type"@, JsonView::Str(trim_char(strip_prefix(option, "type="@)->0, '"')))
    } else if source_value(option) is Some {
        object_insert(fields, "source"@, JsonView::Str(trim_char(source_value(option)->0, '"')))
    } else if target_value(option) is Some {
        object_insert(fields, "target"@, JsonView::Str(trim_char(target_value(option)->0, '"')))
    } else if strip_prefix(option, "external="@) is Some {
        match spec_mount_option_scalar(strip_prefix(option, "external="@)->0, float_numbers) {
            JsonView::Bool(b) => spec_insert_nested(fields, seq!["volume"@], "external"@, JsonView::Bool(b)),
            _ => fields,
        }
    } else {
        match split_once(option, '=') {
            Some((key, value)) => {
                let path = spec_mount_option_key_path(key);
                spec_insert_nested(fields, path.drop_last(), path.last(), spec_mount_option_scalar(value, float_numbers))
            },
            None => fields,
        }
    }
}

/// The long-syntax fields of a mount string: `type` defaults to `bind`, and
/// the options apply in order.
pub open spec fn definition_fields(options: Seq<Seq<char>>, float_numbers: Seq<(Seq<char>, Seq<char>)>) -> Seq<(Seq<char>, JsonView)>
    decreases options.len(),
{
    if options.len() == 0 {
        seq![("type"@, JsonView::Str("bind"@))]
    } else {
        definition_option(definition_fields(options.drop_last(), float_numbers), options.last(), float_numbers)
    }
}

/// The long-syntax definition of a mount string; none without a target.
pub open spec fn spec_mount_definition_from_str(mount: Seq<char>, float_numbers: Seq<(Seq<char>, Seq<char>)>) -> Option<Seq<(Seq<char>, JsonView)>> {
    let fields = definition_fields(spec_split_mount_options(mount), float_numbers);
    if entry_value(fields, "target"@) is Some {
        Some(fields)
    } else {
        None
    }
}

fn quoted_str(v: &Vec<char>) -> (r: JsonValue)
    ensures
        r@ == JsonView::Str(trim_char(v@, '"')),
{
    JsonValue::String(from_chars(&trim_char_chars(v, '"')))
}

fn apply_definition_option(fields: &mut Vec<(String, JsonValue)>, option: &str, float_numbers: &Vec<(String, String)>)
    ensures
        entries_view(final(fields)@) == definition_option(entries_view(old(fields)@), option@, crate::engine::pair_views(float_numbers@)),
{
    let o = to_chars(option);
    if is(&o, "readonly") || is(&o, "ro") {
        object_insert_exec(fields, "read_only", JsonValue::Bool(true));
        return;
    }
    match strip_prefix_str(&o, "type=") {
        Some(v) => {
            object_insert_exec(fields, "type", quoted_str(&v));
            return;
        },
        None => {},
    }
    let source = match strip_prefix_str(&o, "source=") {
        Some(v) => Some(v),
        None => strip_prefix_str(&o, "src="),
    };
    match source {
        Some(v) => {
            object_insert_exec(fields, "source", quoted_str(&v));
            return;
        },
        None => {},
    }
    let target = match strip_prefix_str(&o, "target=") {
        Some(v) => Some(v),
        None => match strip_prefix_str(&o, "destination=") {
            Some(v) => Some(v),
            None => strip_prefix_str(&o, "dst="),
        },
    };
    match target {
        Some(v) => {
            object_insert_exec(fields, "target", quoted_str(&v));
            return;
        },
        None => {},
    }
    match strip_prefix_str(&o, "external=") {
        Some(v) => {
            match parse_mount_option_scalar(from_chars(&v).as_str(), float_numbers) {
                JsonValue::Bool(b) => {
                    let mut parents: Vec<String> = Vec::new();
                    crate::exec::push_string(&mut parents, "volume");
                    assert(str_views(parents@).skip(0) =~= seq!["volume"@]);
                    insert_nested_mount_value(fields, &parents, 0, "external", JsonValue::Bool(b));
                },
                _ => {},
            }
            return;
        },
        None => {},
    }
    match crate::text::split_once_chars(&o, '=') {
        Some((key, value)) => {
            let path = mount_option_key_path(from_chars(&key).as_str());
            let n = path.len() - 1;
            let scalar = parse_mount_option_scalar(from_chars(&value).as_str(), float_numbers);
            let mut parents: Vec<String> = Vec::new();
            let mut k: usize = 0;
            while k < n
                invariant
                    k <= n,
                    n + 1 == path.len(),
                    str_views(parents@) == str_views(path@).take(k as int),
                decreases n - k,
            {
                crate::exec::push_string(&mut parents, path[k].as_str());
                assert(str_views(path@).take(k + 1) =~= str_views(path@).take(k as int).push(path@[k as int]@));
                k = k + 1;
            }
            assert(str_views(parents@).skip(0) =~= str_views(path@).drop_last());
            assert(str_views(path@).last() == path@[n as int]@);
            insert_nested_mount_value(fields, &parents, 0, path[n].as_str(), scalar);
        },
        None => {},
    }
}

/// The long-syntax definition of a mount string (see `spec_mount_definition_from_str`).
pub fn compose_mount_definition_from_str(mount: &str, float_numbers: &Vec<(String, String)>) -> (r: Option<Vec<(String, JsonValue)>>)
    ensures
        match r {
            Some(f) => spec_mount_definition_from_str(mount@, crate::engine::pair_views(float_numbers@)) == Some(entries_view(f@)),
            None => spec_mount_definition_from_str(mount@, crate::engine::pair_views(float_numbers@)) is None,
        },
{
    let ghost fv = crate::engine::pair_views(float_numbers@);
    let options = crate::mounts::split_mount_options(mount);
    let ghost ov = str_views(options@);
    let mut fields: Vec<(String, JsonValue)> = Vec::new();
    object_insert_exec(&mut fields, "type", JsonValue::String(from_chars(&to_chars("bind"))));
    assert(ov.take(0) =~= Seq::<Seq<char>>::empty());
    assert(object_insert(Seq::<(Seq<char>, JsonView)>::empty(), "type"@, JsonView::Str("bind"@)) =~= seq![("type"@, JsonView::Str("bind"@))]);
    let mut k: usize = 0;
    while k < options.len()
        invariant
            k <= options.len(),
            ov == str_views(options@),
            fv == crate::engine::pair_views(float_numbers@),
            entries_view(fields@) == definition_fields(ov.take(k as int), fv),
        decreases options.len() - k,
    {
        assert(ov.take(k + 1).drop_last() =~= ov.take(k as int));
        assert(ov.take(k + 1).last() == options@[k as int]@);
        apply_definition_option(&mut fields, options[k].as_str(), float_numbers);
        k = k + 1;
    }
    assert(ov.take(k as int) =~= ov);
    if entries_get(&fields, "target").is_some() {
        Some(fields)
    } else {
        None
    }
}


/// A volume of the compose service: compose's short syntax, or the long
/// syntax's fields.
#[derive(Debug)]
pub enum ComposeVolumeEntry {
    Short(String),
    Long(Vec<(String, JsonValue)>),
}

pub enum VolumeEntryView {
    Short(Seq<char>),
    Long(Seq<(Seq<char>, JsonView)>),
}

impl View for ComposeVolumeEntry {
    type V = VolumeEntryView;

    open spec fn view(&self) -> VolumeEntryView {
        match self {
            ComposeVolumeEntry::Short(s) => VolumeEntryView::Short(s@),
            ComposeVolumeEntry::Long(f) => VolumeEntryView::Long(entries_view(f@)),
        }
    }
}

pub open spec fn volume_entry_view(v: Option<ComposeVolumeEntry>) -> Option<VolumeEntryView> {
    match v {
        Some(e) => Some(e@),
        None => None,
    }
}

/// The value of the first of the keys that is present (a later key is not
/// consulted when an earlier one is present), when it is a string.
pub open spec fn first_present_str(entries: Seq<(Seq<char>, JsonView)>, keys: Seq<Seq<char>>) -> Option<Seq<char>>
    decreases keys.len(),
{
    if keys.len() == 0 {
        None
    } else {
        match entry_value(entries, keys[0]) {
            Some(v) => crate::json::json_str(v),
            None => first_present_str(entries, keys.drop_first()),
        }
    }
}

/// Whether a key of a mount object is one that `compose_mount_definition` reads itself.
pub open spec fn is_known_mount_key(key: Seq<char>) -> bool {
    key == "type"@ || key == "source"@ || key == "src"@ || key == "target"@ || key == "destination"@
        || key == "dst"@ || key == "readonly"@ || key == "readOnly"@ || key == "external"@
}

/// The other keys of a mount object merged into the fields, in order.
pub open spec fn merge_other_keys(fields: Seq<(Seq<char>, JsonView)>, entries: Seq<(Seq<char>, JsonView)>) -> Seq<(Seq<char>, JsonView)>
    decreases entries.len(),
{
    if entries.len() == 0 {
        fields
    } else {
        let before = merge_other_keys(fields, entries.drop_last());
        if is_known_mount_key(entries.last().0) {
            before
        } else {
            spec_merge_value(before, entries.last().0, entries.last().1)
        }
    }
}

/// The long-syntax fields of a mount object, before its other keys: `type`
/// (default `bind`), `source` (or `src`), `target` (or `destination`, or `dst`),
/// `read_only` when `readonly` (or `readOnly`) is true, and `volume.external`.
pub open spec fn object_definition_base(entries: Seq<(Seq<char>, JsonView)>, target: Seq<char>) -> Seq<(Seq<char>, JsonView)> {
    let kind = match entry_value(entries, "type"@) {
        Some(JsonView::Str(t)) => t,
        _ => "bind"@,
    };
    let f1 = seq![("type"@, JsonView::Str(kind))];
    let f2 = match first_present_str(entries, seq!["source"@, "src"@]) {
        Some(src) => object_insert(f1, "source"@, JsonView::Str(src)),
        None => f1,
    };
    let f3 = object_insert(f2, "target"@, JsonView::Str(target));
    let ro = match entry_value(entries, "readonly"@) {
        Some(v) => crate::json::json_bool(v),
        None => match entry_value(entries, "readOnly"@) {
            Some(v) => crate::json::json_bool(v),
            None => None,
        },
    };
    let f4 = if ro == Some(true) { object_insert(f3, "read_only"@, JsonView::Bool(true)) } else { f3 };
    match entry_value(entries, "external"@) {
        Some(JsonView::Bool(b)) => spec_insert_nested(f4, seq!["volume"@], "external"@, JsonView::Bool(b)),
        _ => f4,
    }
}

/// A configured mount as a compose volume: a string in the mount syntax, or an
/// object with a target; nothing else.
pub open spec fn spec_compose_mount_definition(value: JsonView, float_numbers: Seq<(Seq<char>, Seq<char>)>) -> Option<VolumeEntryView> {
    match value {
        JsonView::Str(text) => match spec_mount_definition_from_str(text, float_numbers) {
            Some(f) => Some(VolumeEntryView::Long(f)),
            None => None,
        },
        JsonView::Object(entries) => match first_present_str(entries, seq!["target"@, "destination"@, "dst"@]) {
            Some(target) => Some(VolumeEntryView::Long(merge_other_keys(object_definition_base(entries, target), entries))),
            None => None,
        },
        _ => None,
    }
}

fn first_present_str_exec(entries: &Vec<(String, JsonValue)>, keys: &Vec<String>) -> (r: Option<String>)
    ensures
        crate::options::opt_str(r) == first_present_str(entries_view(entries@), str_views(keys@)),
{
    let ghost kv = str_views(keys@);
    let mut k: usize = 0;
    assert(kv.skip(0) =~= kv);
    while k < keys.len()
        invariant
            k <= keys.len(),
            kv == str_views(keys@),
            first_present_str(entries_view(entries@), kv) == first_present_str(entries_view(entries@), kv.skip(k as int)),
        decreases keys.len() - k,
    {
        assert(kv.skip(k as int).drop_first() =~= kv.skip(k + 1));
        assert(kv.skip(k as int)[0] == keys@[k as int]@);
        match entries_get(entries, keys[k].as_str()) {
            Some(v) => {
                return match v {
                    JsonValue::String(t) => Some(from_chars(&to_chars(t.as_str()))),
                    _ => None,
                };
            },
            None => {},
        }
        k = k + 1;
    }
    assert(kv.skip(k as int) =~= Seq::<Seq<char>>::empty());
    None
}

fn keys2(a: &str, b: &str) -> (r: Vec<String>)
    ensures
        str_views(r@) == seq![a@, b@],
{
    let mut v: Vec<String> = Vec::new();
    crate::exec::push_string(&mut v, a);
    crate::exec::push_string(&mut v, b);
    assert(str_views(v@) =~= seq![a@, b@]);
    v
}

fn is_known_mount_key_exec(key: &str) -> (r: bool)
    ensures
        r == is_known_mount_key(key@),
{
    let s = crate::options::str_eq;
    s(key, "type") || s(key, "source") || s(key, "src") || s(key, "target") || s(key, "destination")
        || s(key, "dst") || s(key, "readonly") || s(key, "readOnly") || s(key, "external")
}

/// A configured mount as a compose volume (see `spec_compose_mount_definition`).
pub fn compose_mount_definition(value: &JsonValue, float_numbers: &Vec<(String, String)>) -> (r: Option<ComposeVolumeEntry>)
    ensures
        volume_entry_view(r) == spec_compose_mount_definition(value@, crate::engine::pair_views(float_numbers@)),
{
    match value {
        JsonValue::String(text) => match compose_mount_definition_from_str(text.as_str(), float_numbers) {
            Some(f) => Some(ComposeVolumeEntry::Long(f)),
            None => None,
        },
        JsonValue::Object(entries) => {
            let mut target_keys = keys2("target", "destination");
            crate::exec::push_string(&mut target_keys, "dst");
            assert(str_views(target_keys@) =~= seq!["target"@, "destination"@, "dst"@]);
            let target = match first_present_str_exec(entries, &target_keys) {
                Some(t) => t,
                None => return None,
            };
            let ghost ev = entries_view(entries@);
            let kind = match entries_get(entries, "type") {
                Some(JsonValue::String(t)) => from_chars(&to_chars(t.as_str())),
                _ => from_chars(&to_chars("bind")),
            };
            let mut fields: Vec<(String, JsonValue)> = Vec::new();
            object_insert_exec(&mut fields, "type", JsonValue::String(kind));
            match first_present_str_exec(entries, &keys2("source", "src")) {
                Some(src) => object_insert_exec(&mut fields, "source", JsonValue::String(src)),
                None => {},
            }
            object_insert_exec(&mut fields, "target", JsonValue::String(target));
            let ro = match entries_get(entries, "readonly") {
                Some(v) => v.as_bool(),
                None => match entries_get(entries, "readOnly") {
                    Some(v) => v.as_bool(),
                    None => None,
                },
            };
            if ro == Some(true) {
                object_insert_exec(&mut fields, "read_only", JsonValue::Bool(true));
            }
            match entries_get(entries, "external") {
                Some(JsonValue::Bool(b)) => {
                    let mut parents: Vec<String> = Vec::new();
                    crate::exec::push_string(&mut parents, "volume");
                    assert(str_views(parents@).skip(0) =~= seq!["volume"@]);
                    insert_nested_mount_value(&mut fields, &parents, 0, "external", JsonValue::Bool(*b));
                },
                _ => {},
            }
            proof {
                lemma_entries_view(entries@);
                assert(ev.take(0) =~= Seq::<(Seq<char>, JsonView)>::empty());
            }
            let ghost base = entries_view(fields@);
            let mut k: usize = 0;
            while k < entries.len()
                invariant
                    k <= entries.len(),
                    ev == entries_view(entries@),
                    ev.len() == entries@.len(),
                    forall|i: int| 0 <= i < entries@.len() ==> #[trigger] ev[i] == (entries@[i].0@, json_view(entries@[i].1)),
                    entries_view(fields@) == merge_other_keys(base, ev.take(k as int)),
                decreases entries.len() - k,
            {
                assert(ev.take(k + 1).drop_last() =~= ev.take(k as int));
                assert(ev.take(k + 1).last() == ev[k as int]);
                if !is_known_mount_key_exec(entries[k].0.as_str()) {
                    let v = clone_json(&entries[k].1);
                    merge_mount_value(&mut fields, entries[k].0.as_str(), v);
                }
                k = k + 1;
            }
            assert(ev.take(k as int) =~= ev);
            Some(ComposeVolumeEntry::Long(fields))
        },
        _ => None,
    }
}

/// The mount's type, `bind` when it has none that is a string.
pub open spec fn mount_kind(fields: Seq<(Seq<char>, JsonView)>) -> Seq<char> {
    match entry_value(fields, "type"@) {
        Some(JsonView::Str(t)) => t,
        _ => "bind"@,
    }
}

pub fn mount_kind_exec(fields: &Vec<(String, JsonValue)>) -> (r: String)
    ensures
        r@ == mount_kind(entries_view(fields@)),
{
    match entries_get(fields, "type") {
        Some(JsonValue::String(t)) => from_chars(&to_chars(t.as_str())),
        _ => from_chars(&to_chars("bind")),
    }
}

/// Whether a key can be written in compose's short volume syntax.
pub open spec fn is_short_syntax_key(key: Seq<char>) -> bool {
    key == "type"@ || key == "source"@ || key == "target"@ || key == "read_only"@
}

/// A bind mount with only a source, a target and possibly `read_only`, as
/// `source:target` with `:ro` when read-only; none for any other mount.
pub open spec fn spec_short_syntax(fields: Seq<(Seq<char>, JsonView)>) -> Option<Seq<char>> {
    if mount_kind(fields) != "bind"@ {
        None
    } else if exists|i: int| 0 <= i < fields.len() && !is_short_syntax_key(#[trigger] fields[i].0) {
        None
    } else {
        match (entry_value(fields, "source"@), entry_value(fields, "target"@)) {
            (Some(JsonView::Str(source)), Some(JsonView::Str(target))) => Some(
                source + ":"@ + target + if entry_value(fields, "read_only"@) == Some(JsonView::Bool(true)) {
                    ":ro"@
                } else {
                    seq![]
                },
            ),
            _ => None,
        }
    }
}

pub fn short_syntax(fields: &Vec<(String, JsonValue)>) -> (r: Option<String>)
    ensures
        crate::options::opt_str(r) == spec_short_syntax(entries_view(fields@)),
{
    let kind = mount_kind_exec(fields);
    if !crate::options::str_eq(kind.as_str(), "bind") {
        return None;
    }
    proof {
        lemma_entries_view(fields@);
    }
    let ghost fv = entries_view(fields@);
    let mut k: usize = 0;
    while k < fields.len()
        invariant
            k <= fields.len(),
            fv == entries_view(fields@),
            fv.len() == fields@.len(),
            forall|i: int| 0 <= i < fields@.len() ==> #[trigger] fv[i] == (fields@[i].0@, json_view(fields@[i].1)),
            forall|i: int| 0 <= i < k ==> is_short_syntax_key(#[trigger] fv[i].0),
        decreases fields.len() - k,
    {
        let key = fields[k].0.as_str();
        let s = crate::options::str_eq;
        if !(s(key, "type") || s(key, "source") || s(key, "target") || s(key, "read_only")) {
            assert(!is_short_syntax_key(fv[k as int].0));
            return None;
        }
        k = k + 1;
    }
    match (entries_get(fields, "source"), entries_get(fields, "target")) {
        (Some(JsonValue::String(source)), Some(JsonValue::String(target))) => {
            let mut out = to_chars(source.as_str());
            push_str(&mut out, ":");
            push_str(&mut out, target.as_str());
            let ro = match entries_get(fields, "read_only") {
                Some(JsonValue::Bool(b)) => *b,
                _ => false,
            };
            if ro {
                push_str(&mut out, ":ro");
            }
            Some(from_chars(&out))
        },
        _ => None,
    }
}


/// A named volume that the override declares at the top level.
#[derive(Debug, PartialEq, Eq)]
pub struct ComposeNamedVolume {
    pub name: String,
    pub external: bool,
}

/// The position of the first named volume with the name.
pub open spec fn named_index(named: Seq<(Seq<char>, bool)>, name: Seq<char>) -> Option<nat>
    decreases named.len(),
{
    if named.len() == 0 {
        None
    } else if named.last().0 == name && named_index(named.drop_last(), name) is None {
        Some((named.len() - 1) as nat)
    } else {
        named_index(named.drop_last(), name)
    }
}

/// Whether a volume's `volume.external` is true.
pub open spec fn volume_external(fields: Seq<(Seq<char>, JsonView)>) -> bool {
    match entry_value(fields, "volume"@) {
        Some(JsonView::Object(v)) => entry_value(v, "external"@) == Some(JsonView::Bool(true)),
        _ => false,
    }
}

/// One volume's contribution: a long-syntax `volume` mount with a non-empty
/// source names a volume; a name seen before becomes external when this one is.
pub open spec fn named_step(named: Seq<(Seq<char>, bool)>, entry: VolumeEntryView) -> Seq<(Seq<char>, bool)> {
    match entry {
        VolumeEntryView::Short(_) => named,
        VolumeEntryView::Long(fields) => if mount_kind(fields) != "volume"@ {
            named
        } else {
            match entry_value(fields, "source"@) {
                Some(JsonView::Str(name)) => if name.len() == 0 {
                    named
                } else {
                    match named_index(named, name) {
                        Some(i) => named.update(i as int, (name, named[i as int].1 || volume_external(fields))),
                        None => named.push((name, volume_external(fields))),
                    }
                },
                _ => named,
            }
        },
    }
}

/// The named volumes of the service's volumes, each once, in order of first use.
pub open spec fn spec_named_volumes(volumes: Seq<VolumeEntryView>) -> Seq<(Seq<char>, bool)>
    decreases volumes.len(),
{
    if volumes.len() == 0 {
        seq![]
    } else {
        named_step(spec_named_volumes(volumes.drop_last()), volumes.last())
    }
}

/// The volume a mount entry names: a long-syntax mount of type `volume` with
/// a non-empty source names that source.
pub open spec fn mount_volume_name(entry: VolumeEntryView) -> Option<Seq<char>> {
    match entry {
        VolumeEntryView::Long(fields) => match (entry_value(fields, "type"@), entry_value(fields, "source"@)) {
            (Some(JsonView::Str(t)), Some(JsonView::Str(s))) => if t == "volume"@ && s.len() > 0 {
                Some(s)
            } else {
                None
            },
            _ => None,
        },
        VolumeEntryView::Short(_) => None,
    }
}

/// Whether a mount entry sets `volume.external` to true.
pub open spec fn mount_marks_external(entry: VolumeEntryView) -> bool {
    match entry {
        VolumeEntryView::Long(fields) => match entry_value(fields, "volume"@) {
            Some(JsonView::Object(v)) => entry_value(v, "external"@) == Some(JsonView::Bool(true)),
            _ => false,
        },
        VolumeEntryView::Short(_) => false,
    }
}

proof fn lemma_named_index_found(named: Seq<(Seq<char>, bool)>, name: Seq<char>)
    ensures
        match named_index(named, name) {
            Some(i) => i < named.len() && named[i as int].0 == name,
            None => forall|k: int| 0 <= k < named.len() ==> named[k].0 != name,
        },
    decreases named.len(),
{
    if named.len() > 0 {
        lemma_named_index_found(named.drop_last(), name);
        if !(named.last().0 == name && named_index(named.drop_last(), name) is None) {
            match named_index(named.drop_last(), name) {
                Some(i) => {
                    assert(named[i as int] == named.drop_last()[i as int]);
                },
                None => {
                    assert forall|k: int| 0 <= k < named.len() implies named[k].0 != name by {
                        if k < named.len() - 1 {
                            assert(named[k] == named.drop_last()[k]);
                        }
                    }
                },
            }
        }
    }
}

/// Some mount names the volume.
pub open spec fn named_by_some_mount(volumes: Seq<VolumeEntryView>, name: Seq<char>) -> bool {
    exists|i: int| 0 <= i < volumes.len() && #[trigger] mount_volume_name(volumes[i]) == Some(name)
}

/// Some mount that names the volume marks it external.
pub open spec fn external_in_some_mount(volumes: Seq<VolumeEntryView>, name: Seq<char>) -> bool {
    exists|i: int| 0 <= i < volumes.len() && #[trigger] mount_volume_name(volumes[i]) == Some(name) && mount_marks_external(volumes[i])
}

/// The name is declared.
pub open spec fn declares(named: Seq<(Seq<char>, bool)>, name: Seq<char>) -> bool {
    exists|k: int| 0 <= k < named.len() && #[trigger] named[k].0 == name
}

/// Some mount names `first` before any mount names `second`.
pub open spec fn named_before(volumes: Seq<VolumeEntryView>, first: Seq<char>, second: Seq<char>) -> bool {
    exists|i: int| 0 <= i < volumes.len() && #[trigger] mount_volume_name(volumes[i]) == Some(first)
        && forall|j: int| 0 <= j <= i ==> #[trigger] mount_volume_name(volumes[j]) != Some(second)
}

proof fn lemma_named_before_extends(volumes: Seq<VolumeEntryView>, first: Seq<char>, second: Seq<char>)
    requires
        volumes.len() > 0,
        named_before(volumes.drop_last(), first, second),
    ensures
        named_before(volumes, first, second),
{
    let vs = volumes.drop_last();
    let i = choose|i: int| 0 <= i < vs.len() && #[trigger] mount_volume_name(vs[i]) == Some(first)
        && forall|j: int| 0 <= j <= i ==> #[trigger] mount_volume_name(vs[j]) != Some(second);
    assert(volumes[i] == vs[i]);
    assert forall|j: int| 0 <= j <= i implies #[trigger] mount_volume_name(volumes[j]) != Some(second) by {
        assert(volumes[j] == vs[j]);
    }
}

proof fn lemma_some_mount_step(volumes: Seq<VolumeEntryView>, name: Seq<char>)
    requires
        volumes.len() > 0,
    ensures
        named_by_some_mount(volumes, name) == (named_by_some_mount(volumes.drop_last(), name)
            || mount_volume_name(volumes.last()) == Some(name)),
        external_in_some_mount(volumes, name) == (external_in_some_mount(volumes.drop_last(), name)
            || (mount_volume_name(volumes.last()) == Some(name) && mount_marks_external(volumes.last()))),
{
    let vs = volumes.drop_last();
    let last = volumes.len() - 1;
    if named_by_some_mount(volumes, name) {
        let i = choose|i: int| 0 <= i < volumes.len() && #[trigger] mount_volume_name(volumes[i]) == Some(name);
        if i < last {
            assert(vs[i] == volumes[i]);
        }
    }
    if named_by_some_mount(vs, name) {
        let i = choose|i: int| 0 <= i < vs.len() && #[trigger] mount_volume_name(vs[i]) == Some(name);
        assert(vs[i] == volumes[i]);
    }
    if mount_volume_name(volumes.last()) == Some(name) {
        assert(mount_volume_name(volumes[last]) == Some(name));
    }
    if external_in_some_mount(volumes, name) {
        let i = choose|i: int| 0 <= i < volumes.len() && #[trigger] mount_volume_name(volumes[i]) == Some(name) && mount_marks_external(volumes[i]);
        if i < last {
            assert(vs[i] == volumes[i]);
        }
    }
    if external_in_some_mount(vs, name) {
        let i = choose|i: int| 0 <= i < vs.len() && #[trigger] mount_volume_name(vs[i]) == Some(name) && mount_marks_external(vs[i]);
        assert(vs[i] == volumes[i]);
    }
}

/// The named volumes of a service's mounts: each volume that some mount
/// names is declared exactly once, in the order the mounts first name them,
/// nothing else is declared, and a volume is external exactly when some mount
/// that names it marks it external, whatever the order of the mounts.
pub proof fn law_named_volumes_are_external_when_any_use_is(volumes: Seq<VolumeEntryView>)
    ensures
        forall|k: int, j: int| 0 <= k < j < spec_named_volumes(volumes).len()
            ==> #[trigger] spec_named_volumes(volumes)[k].0 != #[trigger] spec_named_volumes(volumes)[j].0,
        forall|k: int| 0 <= k < spec_named_volumes(volumes).len()
            ==> named_by_some_mount(volumes, #[trigger] spec_named_volumes(volumes)[k].0),
        forall|i: int| 0 <= i < volumes.len() && #[trigger] mount_volume_name(volumes[i]) is Some
            ==> declares(spec_named_volumes(volumes), mount_volume_name(volumes[i])->0),
        forall|k: int| 0 <= k < spec_named_volumes(volumes).len()
            ==> #[trigger] spec_named_volumes(volumes)[k].1 == external_in_some_mount(volumes, spec_named_volumes(volumes)[k].0),
        forall|k: int, j: int| 0 <= k < j < spec_named_volumes(volumes).len()
            ==> named_before(volumes, #[trigger] spec_named_volumes(volumes)[k].0, #[trigger] spec_named_volumes(volumes)[j].0),
    decreases volumes.len(),
{
    let r = spec_named_volumes(volumes);
    if volumes.len() > 0 {
        let vs = volumes.drop_last();
        let e = volumes.last();
        let last = volumes.len() - 1;
        let p = spec_named_volumes(vs);
        law_named_volumes_are_external_when_any_use_is(vs);
        match mount_volume_name(e) {
            None => {
                assert(r == p) by {
                    match e {
                        VolumeEntryView::Short(_) => {},
                        VolumeEntryView::Long(fields) => {
                            if mount_kind(fields) == "volume"@ {
                                reveal_strlit("volume");
                                reveal_strlit("bind");
                                assert("bind"@.len() != "volume"@.len());
                                assert(entry_value(fields, "type"@) matches Some(JsonView::Str(_)));
                            }
                        },
                    }
                }
                assert forall|k: int| 0 <= k < r.len() implies named_by_some_mount(volumes, #[trigger] r[k].0)
                    && r[k].1 == external_in_some_mount(volumes, r[k].0) by {
                    lemma_some_mount_step(volumes, r[k].0);
                }
                assert forall|i: int| 0 <= i < volumes.len() && #[trigger] mount_volume_name(volumes[i]) is Some
                    implies declares(r, mount_volume_name(volumes[i])->0) by {
                    assert(i != last);
                    assert(vs[i] == volumes[i]);
                }
                assert forall|k: int, j: int| 0 <= k < j < r.len() implies named_before(volumes, #[trigger] r[k].0, #[trigger] r[j].0) by {
                    lemma_named_before_extends(volumes, r[k].0, r[j].0);
                }
            },
            Some(n) => {
                let fields = e->Long_0;
                reveal_strlit("volume");
                reveal_strlit("bind");
                assert(mount_kind(fields) == "volume"@);
                assert(entry_value(fields, "source"@) == Some(JsonView::Str(n)));
                assert(volume_external(fields) == mount_marks_external(e));
                lemma_named_index_found(p, n);
                match named_index(p, n) {
                    Some(ix) => {
                        assert(r == p.update(ix as int, (n, p[ix as int].1 || mount_marks_external(e))));
                        assert forall|k: int| 0 <= k < r.len() implies #[trigger] r[k].0 == p[k].0 by {}
                        assert forall|k: int| 0 <= k < r.len() implies named_by_some_mount(volumes, #[trigger] r[k].0)
                            && r[k].1 == external_in_some_mount(volumes, r[k].0) by {
                            lemma_some_mount_step(volumes, r[k].0);
                            assert(r[k].0 == p[k].0);
                            if k != ix {
                                assert(p[k].0 != p[ix as int].0);
                            }
                        }
                        assert forall|i: int| 0 <= i < volumes.len() && #[trigger] mount_volume_name(volumes[i]) is Some
                            implies declares(r, mount_volume_name(volumes[i])->0) by {
                            if i == last {
                                assert(r[ix as int].0 == n);
                            } else {
                                assert(vs[i] == volumes[i]);
                                let m = mount_volume_name(vs[i])->0;
                                let k = choose|k: int| 0 <= k < p.len() && #[trigger] p[k].0 == m;
                                assert(r[k].0 == m);
                            }
                        }
                        assert forall|k: int, j: int| 0 <= k < j < r.len() implies named_before(volumes, #[trigger] r[k].0, #[trigger] r[j].0) by {
                            assert(r[k].0 == p[k].0 && r[j].0 == p[j].0);
                            lemma_named_before_extends(volumes, r[k].0, r[j].0);
                        }
                    },
                    None => {
                        assert(r == p.push((n, mount_marks_external(e))));
                        assert(!named_by_some_mount(vs, n)) by {
                            if named_by_some_mount(vs, n) {
                                let i = choose|i: int| 0 <= i < vs.len() && #[trigger] mount_volume_name(vs[i]) == Some(n);
                                let k = choose|k: int| 0 <= k < p.len() && #[trigger] p[k].0 == n;
                            }
                        }
                        assert(!external_in_some_mount(vs, n)) by {
                            if external_in_some_mount(vs, n) {
                                let i = choose|i: int| 0 <= i < vs.len() && #[trigger] mount_volume_name(vs[i]) == Some(n) && mount_marks_external(vs[i]);
                                assert(named_by_some_mount(vs, n));
                            }
                        }
                        assert forall|k: int| 0 <= k < r.len() implies named_by_some_mount(volumes, #[trigger] r[k].0)
                            && r[k].1 == external_in_some_mount(volumes, r[k].0) by {
                            lemma_some_mount_step(volumes, r[k].0);
                            if k < p.len() {
                                assert(r[k] == p[k]);
                                assert(p[k].0 != n);
                            }
                        }
                        assert forall|k: int, j: int| 0 <= k < j < r.len() implies #[trigger] r[k].0 != #[trigger] r[j].0 by {
                            if j == p.len() {
                                assert(r[k].0 == p[k].0);
                            } else {
                                assert(r[k].0 == p[k].0 && r[j].0 == p[j].0);
                            }
                        }
                        assert forall|i: int| 0 <= i < volumes.len() && #[trigger] mount_volume_name(volumes[i]) is Some
                            implies declares(r, mount_volume_name(volumes[i])->0) by {
                            if i == last {
                                assert(r[p.len() as int].0 == n);
                            } else {
                                assert(vs[i] == volumes[i]);
                                let m = mount_volume_name(vs[i])->0;
                                let k = choose|k: int| 0 <= k < p.len() && #[trigger] p[k].0 == m;
                                assert(r[k].0 == m);
                            }
                        }
                        assert forall|k: int, j: int| 0 <= k < j < r.len() implies named_before(volumes, #[trigger] r[k].0, #[trigger] r[j].0) by {
                            if j < p.len() {
                                assert(r[k].0 == p[k].0 && r[j].0 == p[j].0);
                                lemma_named_before_extends(volumes, r[k].0, r[j].0);
                            } else {
                                assert(r[k].0 == p[k].0 && r[j].0 == n);
                                assert(named_by_some_mount(vs, p[k].0));
                                let i = choose|i: int| 0 <= i < vs.len() && #[trigger] mount_volume_name(vs[i]) == Some(p[k].0);
                                assert(volumes[i] == vs[i]);
                                assert forall|j2: int| 0 <= j2 <= i implies #[trigger] mount_volume_name(volumes[j2]) != Some(n) by {
                                    assert(volumes[j2] == vs[j2]);
                                    if mount_volume_name(vs[j2]) == Some(n) {
                                        assert(named_by_some_mount(vs, n));
                                    }
                                }
                            }
                        }
                    },
                }
            },
        }
    }
}

pub open spec fn named_views(named: Seq<ComposeNamedVolume>) -> Seq<(Seq<char>, bool)> {
    named.map_values(|n: ComposeNamedVolume| (n.name@, n.external))
}

pub open spec fn entry_views(volumes: Seq<ComposeVolumeEntry>) -> Seq<VolumeEntryView> {
    volumes.map_values(|v: ComposeVolumeEntry| v@)
}

fn find_named(named: &Vec<ComposeNamedVolume>, name: &str) -> (r: Option<usize>)
    ensures
        match r {
            Some(i) => named_index(named_views(named@), name@) == Some(i as nat) && i < named.len(),
            None => named_index(named_views(named@), name@) is None,
        },
{
    let ghost nv = named_views(named@);
    let mut k: usize = 0;
    assert(nv.take(0) =~= Seq::<(Seq<char>, bool)>::empty());
    while k < named.len()
        invariant
            k <= named.len(),
            nv == named_views(named@),
            named_index(nv.take(k as int), name@) is None,
        decreases named.len() - k,
    {
        assert(nv.take(k + 1).drop_last() =~= nv.take(k as int));
        assert(nv.take(k + 1).last() == nv[k as int]);
        if crate::options::str_eq(named[k].name.as_str(), name) {
            proof {
                lemma_named_index_prefix(nv, k as int + 1, name@, k as nat);
            }
            return Some(k);
        }
        k = k + 1;
    }
    assert(nv.take(k as int) =~= nv);
    None
}

proof fn lemma_named_index_prefix(named: Seq<(Seq<char>, bool)>, k: int, name: Seq<char>, j: nat)
    requires
        0 <= k <= named.len(),
        named_index(named.take(k), name) == Some(j),
    ensures
        named_index(named, name) == Some(j),
    decreases named.len() - k,
{
    if k < named.len() {
        assert(named.take(k + 1).drop_last() =~= named.take(k));
        lemma_named_index_prefix(named, k + 1, name, j);
    } else {
        assert(named.take(k) =~= named);
    }
}

pub fn compose_named_volumes(volumes: &Vec<ComposeVolumeEntry>) -> (r: Vec<ComposeNamedVolume>)
    ensures
        named_views(r@) == spec_named_volumes(entry_views(volumes@)),
{
    let ghost vv = entry_views(volumes@);
    let mut named: Vec<ComposeNamedVolume> = Vec::new();
    let mut k: usize = 0;
    assert(vv.take(0) =~= Seq::<VolumeEntryView>::empty());
    assert(named_views(named@) =~= Seq::<(Seq<char>, bool)>::empty());
    while k < volumes.len()
        invariant
            k <= volumes.len(),
            vv == entry_views(volumes@),
            named_views(named@) == spec_named_volumes(vv.take(k as int)),
        decreases volumes.len() - k,
    {
        assert(vv.take(k + 1).drop_last() =~= vv.take(k as int));
        assert(vv.take(k + 1).last() == volumes@[k as int]@);
        let ghost before = named_views(named@);
        match &volumes[k] {
            ComposeVolumeEntry::Short(_) => {},
            ComposeVolumeEntry::Long(fields) => {
                let kind = mount_kind_exec(fields);
                if crate::options::str_eq(kind.as_str(), "volume") {
                    match entries_get(fields, "source") {
                        Some(JsonValue::String(name)) => {
                            if to_chars(name.as_str()).len() > 0 {
                                let external = match entries_get(fields, "volume") {
                                    Some(JsonValue::Object(v)) => match entries_get(v, "external") {
                                        Some(JsonValue::Bool(b)) => *b,
                                        _ => false,
                                    },
                                    _ => false,
                                };
                                proof {
                                    assert(external == volume_external(entries_view(fields@)));
                                }
                                match find_named(&named, name.as_str()) {
                                    Some(i) => {
                                        let merged = named[i].external || external;
                                        let entry = ComposeNamedVolume { name: from_chars(&to_chars(name.as_str())), external: merged };
                                        named.set(i, entry);
                                        assert(named_views(named@) =~= before.update(i as int, (name@, before[i as int].1 || external)));
                                    },
                                    None => {
                                        let entry = ComposeNamedVolume { name: from_chars(&to_chars(name.as_str())), external };
                                        named.push(entry);
                                        assert(named_views(named@) =~= before.push((name@, external)));
                                    },
                                }
                            }
                        },
                        _ => {},
                    }
                }
            },
        }
        k = k + 1;
    }
    assert(vv.take(k as int) =~= vv);
    named
}


/// `n` spaces.
pub open spec fn spaces(n: nat) -> Seq<char> {
    Seq::new(n, |i: int| ' ')
}

/// A scalar as YAML writes it after `key: ` or `- `: strings single-quoted
/// and escaped, numbers as their text.
pub open spec fn yaml_scalar(value: JsonView) -> Seq<char> {
    match value {
        JsonView::Str(t) => "'"@ + escape_scalar(t) + "'"@,
        JsonView::Bool(b) => if b { "true"@ } else { "false"@ },
        JsonView::Number(n) => n,
        _ => "null"@,
    }
}

/// `key: value` at an indentation, after a prefix (`- ` for the first key of a
/// list item): objects and arrays open a block indented by the prefix and two
/// more spaces.
pub open spec fn spec_render_key_value(key: Seq<char>, value: JsonView, indent: nat, prefix: Seq<char>) -> Seq<char>
    decreases value, 2nat, 0nat,
{
    match value {
        JsonView::Object(entries) => spaces(indent) + prefix + key + ":\n"@ + spec_render_entries_from(entries, 0, indent + prefix.len() + 2),
        JsonView::Array(values) => spaces(indent) + prefix + key + ":\n"@ + spec_render_items_from(values, 0, indent + prefix.len() + 2),
        _ => spaces(indent) + prefix + key + ": "@ + yaml_scalar(value) + "\n"@,
    }
}

/// The entries from `from` on, each as `key: value` at the indentation.
pub open spec fn spec_render_entries_from(entries: Seq<(Seq<char>, JsonView)>, from: nat, indent: nat) -> Seq<char>
    decreases entries, 1nat, entries.len() - from,
{
    if from >= entries.len() {
        seq![]
    } else {
        proof {
            assert(decreases_to!(entries => entries[from as int]));
        }
        spec_render_key_value(entries[from as int].0, entries[from as int].1, indent, seq![]) + spec_render_entries_from(entries, from + 1, indent)
    }
}

/// The items from `from` on, each as a list item at the indentation.
pub open spec fn spec_render_items_from(values: Seq<JsonView>, from: nat, indent: nat) -> Seq<char>
    decreases values, 1nat, values.len() - from,
{
    if from >= values.len() {
        seq![]
    } else {
        proof {
            assert(decreases_to!(values => values[from as int]));
        }
        spec_render_item(values[from as int], indent) + spec_render_items_from(values, from + 1, indent)
    }
}

/// A list item: an object's first key after `- ` and the others two spaces
/// further in; an array as `-` and its items two spaces further in; a scalar after `- `.
pub open spec fn spec_render_item(value: JsonView, indent: nat) -> Seq<char>
    decreases value, 2nat, 1nat,
{
    match value {
        JsonView::Object(entries) => if entries.len() == 0 {
            seq![]
        } else {
            proof {
                assert(decreases_to!(entries => entries[0]));
            }
            spec_render_key_value(entries[0].0, entries[0].1, indent, "- "@) + spec_render_entries_from(entries, 1, indent + 2)
        },
        JsonView::Array(values) => spaces(indent) + "-\n"@ + spec_render_items_from(values, 0, indent + 2),
        _ => spaces(indent) + "- "@ + yaml_scalar(value) + "\n"@,
    }
}

/// The long syntax of a volume as a list item of the service's `volumes`.
pub open spec fn spec_render_mapping_list_entry(entries: Seq<(Seq<char>, JsonView)>) -> Seq<char> {
    if entries.len() == 0 {
        seq![]
    } else {
        spec_render_key_value(entries[0].0, entries[0].1, 6, "- "@) + spec_render_entries_from(entries, 1, 8)
    }
}

/// A service volume: the short syntax quoted, the long syntax as a mapping.
pub open spec fn spec_render_volume_entry(entry: VolumeEntryView) -> Seq<char> {
    match entry {
        VolumeEntryView::Short(s) => "      - '"@ + escape_scalar(s) + "'\n"@,
        VolumeEntryView::Long(fields) => spec_render_mapping_list_entry(fields),
    }
}

/// A top-level volume declaration, marked external when it is.
pub open spec fn spec_render_named_volume(name: Seq<char>, external: bool) -> Seq<char> {
    "  "@ + name + ":\n"@ + if external { "    external: true\n"@ } else { seq![] }
}

fn push_spaces(out: &mut Vec<char>, n: usize)
    ensures
        final(out)@ == old(out)@ + spaces(n as nat),
{
    let ghost start = out@;
    let mut k: usize = 0;
    while k < n
        invariant
            k <= n,
            out@ == start + spaces(k as nat),
        decreases n - k,
    {
        out.push(' ');
        assert(out@ =~= start + spaces((k + 1) as nat));
        k = k + 1;
    }
}

/// Padding two spaces, and `extra` more, deeper than `pad`.
fn deeper(pad: &Vec<char>, extra: usize) -> (r: Vec<char>)
    requires
        pad@ == spaces(pad@.len()),
        extra <= 2,
    ensures
        r@ == spaces((pad@.len() + extra + 2) as nat),
{
    let mut r: Vec<char> = Vec::new();
    crate::text::push_all(&mut r, pad);
    r.push(' ');
    r.push(' ');
    if extra >= 1 {
        r.push(' ');
    }
    if extra >= 2 {
        r.push(' ');
    }
    assert(r@ =~= spaces((pad@.len() + extra + 2) as nat));
    r
}

fn push_yaml_scalar(out: &mut Vec<char>, value: &JsonValue)
    requires
        !(value@ is Object),
        !(value@ is Array),
    ensures
        final(out)@ == old(out)@ + yaml_scalar(value@),
{
    let ghost start = out@;
    match value {
        JsonValue::String(t) => {
            push_str(out, "'");
            let e = escape_compose_scalar(t.as_str());
            push_str(out, e.as_str());
            push_str(out, "'");
            assert(out@ =~= start + yaml_scalar(value@));
        },
        JsonValue::Bool(b) => {
            if *b {
                push_str(out, "true");
            } else {
                push_str(out, "false");
            }
        },
        JsonValue::Number(n) => push_str(out, n.as_str()),
        _ => push_str(out, "null"),
    }
}

#[verifier::spinoff_prover]
fn render_key_value_into(out: &mut Vec<char>, key: &str, value: &JsonValue, pad: &Vec<char>, prefix: &str)
    requires
        pad@ == spaces(pad@.len()),
        prefix@.len() <= 2,
    ensures
        final(out)@ == old(out)@ + spec_render_key_value(key@, value@, pad@.len(), prefix@),
    decreases value@, 2nat, 0nat,
{
    let ghost start = out@;
    crate::text::push_all(out, pad);
    push_str(out, prefix);
    push_str(out, key);
    let plen = to_chars(prefix).len();
    match value {
        JsonValue::Object(entries) => {
            push_str(out, ":\n");
            let nested = deeper(pad, plen);
            proof {
                assert(value@ == JsonView::Object(entries_view(entries@)));
                assert(decreases_to!(value@ => entries_view(entries@)));
            }
            render_entries_from_into(out, entries, 0, &nested);
            assert(out@ =~= start + spec_render_key_value(key@, value@, pad@.len(), prefix@));
        },
        JsonValue::Array(values) => {
            push_str(out, ":\n");
            let nested = deeper(pad, plen);
            proof {
                assert(value@ == JsonView::Array(crate::json::items_view(values@)));
                assert(value@->Array_0 == crate::json::items_view(values@));
                assert(decreases_to!(value@ => value@->Array_0));
            }
            render_items_from_into(out, values, 0, &nested);
            assert(out@ =~= start + spec_render_key_value(key@, value@, pad@.len(), prefix@));
        },
        _ => {
            push_str(out, ": ");
            push_yaml_scalar(out, value);
            push_str(out, "\n");
            assert(out@ =~= start + spec_render_key_value(key@, value@, pad@.len(), prefix@));
        },
    }
}

fn render_entries_from_into(out: &mut Vec<char>, entries: &Vec<(String, JsonValue)>, from: usize, pad: &Vec<char>)
    requires
        from <= entries.len(),
        pad@ == spaces(pad@.len()),
    ensures
        final(out)@ == old(out)@ + spec_render_entries_from(entries_view(entries@), from as nat, pad@.len()),
    decreases entries_view(entries@), 1nat, entries_view(entries@).len() - from,
{
    proof {
        lemma_entries_view(entries@);
    }
    let ghost ev = entries_view(entries@);
    let ghost start = out@;
    let ghost indent = pad@.len();
    let mut k: usize = from;
    while k < entries.len()
        invariant
            from <= k <= entries.len(),
            pad@ == spaces(indent),
            indent == pad@.len(),
            ev == entries_view(entries@),
            ev.len() == entries@.len(),
            forall|i: int| 0 <= i < entries@.len() ==> #[trigger] ev[i] == (entries@[i].0@, json_view(entries@[i].1)),
            start + spec_render_entries_from(ev, from as nat, indent) == out@ + spec_render_entries_from(ev, k as nat, indent),
        decreases entries.len() - k,
    {
        let ghost before = out@;
        proof {
            assert(decreases_to!(ev => ev[k as int]));
        }
        proof {
            reveal_strlit("");
        }
        render_key_value_into(out, entries[k].0.as_str(), &entries[k].1, pad, "");
        assert(spec_render_entries_from(ev, k as nat, indent) == spec_render_key_value(ev[k as int].0, ev[k as int].1, indent, seq![])
            + spec_render_entries_from(ev, (k + 1) as nat, indent));
        assert(""@ =~= Seq::<char>::empty()) by {
            reveal_strlit("");
        }
        assert(out@ + spec_render_entries_from(ev, (k + 1) as nat, indent) =~= before + spec_render_entries_from(ev, k as nat, indent));
        k = k + 1;
    }
    assert(out@ + spec_render_entries_from(ev, k as nat, indent) =~= out@);
}

fn render_items_from_into(out: &mut Vec<char>, values: &Vec<JsonValue>, from: usize, pad: &Vec<char>)
    requires
        from <= values.len(),
        pad@ == spaces(pad@.len()),
    ensures
        final(out)@ == old(out)@ + spec_render_items_from(crate::json::items_view(values@), from as nat, pad@.len()),
    decreases crate::json::items_view(values@), 1nat, crate::json::items_view(values@).len() - from,
{
    proof {
        crate::json::lemma_items_view(values@);
    }
    let ghost iv = crate::json::items_view(values@);
    let ghost start = out@;
    let ghost indent = pad@.len();
    let mut k: usize = from;
    while k < values.len()
        invariant
            from <= k <= values.len(),
            pad@ == spaces(indent),
            indent == pad@.len(),
            iv == crate::json::items_view(values@),
            iv.len() == values@.len(),
            forall|i: int| 0 <= i < values@.len() ==> #[trigger] iv[i] == json_view(values@[i]),
            start + spec_render_items_from(iv, from as nat, indent) == out@ + spec_render_items_from(iv, k as nat, indent),
        decreases values.len() - k,
    {
        let ghost before = out@;
        proof {
            assert(decreases_to!(iv => iv[k as int]));
        }
        render_item_into(out, &values[k], pad);
        assert(out@ + spec_render_items_from(iv, (k + 1) as nat, indent) =~= before + spec_render_items_from(iv, k as nat, indent));
        k = k + 1;
    }
    assert(out@ + spec_render_items_from(iv, k as nat, indent) =~= out@);
}

fn render_item_into(out: &mut Vec<char>, value: &JsonValue, pad: &Vec<char>)
    requires
        pad@ == spaces(pad@.len()),
    ensures
        final(out)@ == old(out)@ + spec_render_item(value@, pad@.len()),
    decreases value@, 2nat, 1nat,
{
    let ghost start = out@;
    match value {
        JsonValue::Object(entries) => {
            proof {
                lemma_entries_view(entries@);
                assert(value@ == JsonView::Object(entries_view(entries@)));
            }
            if entries.len() == 0 {
                assert(out@ =~= start + spec_render_item(value@, pad@.len()));
                return;
            }
            proof {
                assert(value@->Object_0 == entries_view(entries@));
                assert(decreases_to!(value@ => value@->Object_0));
                assert(decreases_to!(entries_view(entries@) => entries_view(entries@)[0]));
                assert(entries_view(entries@)[0].1 == json_view(entries@[0].1));
                assert(decreases_to!(value@ => json_view(entries@[0].1)));
            }
            proof {
                reveal_strlit("- ");
            }
            render_key_value_into(out, entries[0].0.as_str(), &entries[0].1, pad, "- ");
            let nested = deeper(pad, 0);
            render_entries_from_into(out, entries, 1, &nested);
            assert(out@ =~= start + spec_render_item(value@, pad@.len()));
        },
        JsonValue::Array(values) => {
            crate::text::push_all(out, pad);
            push_str(out, "-\n");
            let nested = deeper(pad, 0);
            proof {
                assert(value@ == JsonView::Array(crate::json::items_view(values@)));
                assert(value@->Array_0 == crate::json::items_view(values@));
                assert(decreases_to!(value@ => value@->Array_0));
            }
            render_items_from_into(out, values, 0, &nested);
            assert(out@ =~= start + spec_render_item(value@, pad@.len()));
        },
        _ => {
            crate::text::push_all(out, pad);
            push_str(out, "- ");
            push_yaml_scalar(out, value);
            push_str(out, "\n");
            assert(out@ =~= start + spec_render_item(value@, pad@.len()));
        },
    }
}

fn padding(n: usize) -> (r: Vec<char>)
    ensures
        r@ == spaces(n as nat),
{
    let mut r: Vec<char> = Vec::new();
    push_spaces(&mut r, n);
    assert(r@ =~= spaces(n as nat));
    r
}

/// `key: value` (see `spec_render_key_value`).
pub fn render_yaml_key_value(key: &str, value: &JsonValue, indent: usize, prefix: &str) -> (r: String)
    requires
        prefix@.len() <= 2,
    ensures
        r@ == spec_render_key_value(key@, value@, indent as nat, prefix@),
{
    let mut out: Vec<char> = Vec::new();
    let pad = padding(indent);
    render_key_value_into(&mut out, key, value, &pad, prefix);
    assert(out@ =~= spec_render_key_value(key@, value@, indent as nat, prefix@));
    from_chars(&out)
}

/// A list item (see `spec_render_item`).
pub fn render_yaml_sequence_item(value: &JsonValue, indent: usize) -> (r: String)
    ensures
        r@ == spec_render_item(value@, indent as nat),
{
    let mut out: Vec<char> = Vec::new();
    let pad = padding(indent);
    render_item_into(&mut out, value, &pad);
    assert(out@ =~= spec_render_item(value@, indent as nat));
    from_chars(&out)
}

/// A volume's long syntax as a list item.
pub fn render_yaml_mapping_list_entry(entries: &Vec<(String, JsonValue)>) -> (r: String)
    ensures
        r@ == spec_render_mapping_list_entry(entries_view(entries@)),
{
    proof {
        lemma_entries_view(entries@);
    }
    let mut out: Vec<char> = Vec::new();
    if entries.len() > 0 {
        proof {
            reveal_strlit("- ");
        }
        render_key_value_into(&mut out, entries[0].0.as_str(), &entries[0].1, &padding(6), "- ");
        render_entries_from_into(&mut out, entries, 1, &padding(8));
    }
    assert(out@ =~= spec_render_mapping_list_entry(entries_view(entries@)));
    from_chars(&out)
}

/// A service volume (see `spec_render_volume_entry`).
pub fn render_compose_volume_entry(entry: &ComposeVolumeEntry) -> (r: String)
    ensures
        r@ == spec_render_volume_entry(entry@),
{
    match entry {
        ComposeVolumeEntry::Short(s) => {
            let mut out = to_chars("      - '");
            let e = escape_compose_scalar(s.as_str());
            push_str(&mut out, e.as_str());
            push_str(&mut out, "'\n");
            from_chars(&out)
        },
        ComposeVolumeEntry::Long(fields) => render_yaml_mapping_list_entry(fields),
    }
}

/// A top-level volume declaration (see `spec_render_named_volume`).
pub fn render_named_volume_entry(entry: &ComposeNamedVolume) -> (r: String)
    ensures
        r@ == spec_render_named_volume(entry.name@, entry.external),
{
    let mut out = to_chars("  ");
    push_str(&mut out, entry.name.as_str());
    push_str(&mut out, ":\n");
    if entry.external {
        push_str(&mut out, "    external: true\n");
    }
    assert(out@ =~= spec_render_named_volume(entry.name@, entry.external));
    from_chars(&out)
}


/// The lower-case hexadecimal digit of a number below 16.
pub open spec fn hex_digit(n: u32) -> char {
    seq!['0', '1', '2', '3', '4', '5', '6', '7', '8', '9', 'a', 'b', 'c', 'd', 'e', 'f'][n as int]
}

/// How JSON text writes a character inside a string: `"` and `\` behind a
/// backslash, the usual short escapes for backspace, tab, line feed, form feed
/// and carriage return, other control characters as `\u00` and two hex
/// digits; everything else as it is.
pub open spec fn json_char_escape(c: char) -> Seq<char> {
    if c == '"' {
        seq!['\\', '"']
    } else if c == '\\' {
        seq!['\\', '\\']
    } else if c == '\u{8}' {
        seq!['\\', 'b']
    } else if c == '\t' {
        seq!['\\', 't']
    } else if c == '\n' {
        seq!['\\', 'n']
    } else if c == '\u{c}' {
        seq!['\\', 'f']
    } else if c == '\r' {
        seq!['\\', 'r']
    } else if (c as u32) < 32 {
        seq!['\\', 'u', '0', '0', hex_digit((c as u32) / 16), hex_digit((c as u32) % 16)]
    } else {
        seq![c]
    }
}

/// The characters of a string, each as JSON text writes it.
pub open spec fn json_escaped(s: Seq<char>) -> Seq<char>
    decreases s.len(),
{
    if s.len() == 0 {
        seq![]
    } else {
        json_escaped(s.drop_last()) + json_char_escape(s.last())
    }
}

/// The strings as JSON text, separated by commas.
pub open spec fn json_string_items(values: Seq<Seq<char>>) -> Seq<char>
    decreases values.len(),
{
    if values.len() == 0 {
        seq![]
    } else if values.len() == 1 {
        seq!['"'] + json_escaped(values[0]) + seq!['"']
    } else {
        json_string_items(values.drop_last()) + seq![','] + seq!['"'] + json_escaped(values.last()) + seq!['"']
    }
}

/// What `serde_json::to_string` writes for a list of strings: a JSON array
/// without spaces.
pub open spec fn json_array_text(values: Seq<Seq<char>>) -> Seq<char> {
    seq!['['] + json_string_items(values) + seq![']']
}

/// Writes a list of strings as a JSON array with `serde_json::to_string`,
/// which does not fail on strings. Trusted: the text is `json_array_text`, as
/// serde_json's compact writer and its escape table give it.
#[verifier::external_body]
fn json_string_array(values: &Vec<String>) -> (r: String)
    ensures
        r@ == json_array_text(str_views(values@)),
{
    serde_json::to_string(values).unwrap_or_default()
}

/// A list of strings as compose reads a command: a JSON array.
pub fn render_compose_string_sequence(values: &Vec<String>) -> (r: String)
    ensures
        r@ == json_array_text(str_views(values@)),
{
    json_string_array(values)
}

/// The configured entrypoints: `entrypoints` when it is an array (its
/// strings), else `entrypoint` when it is a string, else none.
pub open spec fn spec_merged_entrypoints(configuration: JsonView) -> Seq<Seq<char>> {
    match crate::json::json_get(configuration, "entrypoints"@) {
        Some(JsonView::Array(items)) => crate::json::string_items(items),
        _ => match crate::json::get_str(configuration, "entrypoint"@) {
            Some(e) => seq![e],
            None => seq![],
        },
    }
}

pub fn merged_entrypoints(configuration: &JsonValue) -> (r: Vec<String>)
    ensures
        str_views(r@) == spec_merged_entrypoints(configuration@),
{
    match configuration.get("entrypoints") {
        Some(m) => match m.as_array() {
            Some(items) => return crate::json::array_strings(items),
            None => {},
        },
        None => {},
    }
    let mut out: Vec<String> = Vec::new();
    match crate::json::get_str_exec(configuration, "entrypoint") {
        Some(e) => {
            out.push(e);
            assert(str_views(out@) =~= seq![out@[0]@]);
        },
        None => {
            assert(str_views(out@) =~= Seq::<Seq<char>>::empty());
        },
    }
    out
}

/// The pieces joined with `separator` between them.
pub open spec fn joined(pieces: Seq<Seq<char>>, separator: Seq<char>) -> Seq<char>
    decreases pieces.len(),
{
    if pieces.len() == 0 {
        seq![]
    } else if pieces.len() == 1 {
        pieces[0]
    } else {
        joined(pieces.drop_last(), separator) + separator + pieces.last()
    }
}

fn join_strings(pieces: &Vec<String>, separator: &str) -> (r: Vec<char>)
    ensures
        r@ == joined(str_views(pieces@), separator@),
{
    let ghost pv = str_views(pieces@);
    let mut out: Vec<char> = Vec::new();
    let mut k: usize = 0;
    assert(pv.take(0) =~= Seq::<Seq<char>>::empty());
    while k < pieces.len()
        invariant
            k <= pieces.len(),
            pv == str_views(pieces@),
            out@ == joined(pv.take(k as int), separator@),
        decreases pieces.len() - k,
    {
        assert(pv.take(k + 1).drop_last() =~= pv.take(k as int));
        assert(pv.take(k + 1).last() == pieces@[k as int]@);
        if k > 0 {
            push_str(&mut out, separator);
        } else {
            assert(pv.take(1) =~= seq![pieces@[0]@]);
        }
        push_str(&mut out, pieces[k].as_str());
        assert(out@ =~= joined(pv.take(k + 1), separator@));
        k = k + 1;
    }
    assert(pv.take(k as int) =~= pv);
    out
}

/// The entry script of the wrapped service: it reports the start, exits on
/// SIGTERM, runs the configured entrypoints, then the service's command, and
/// stays alive.
pub open spec fn wrapper_script(custom_entrypoints: Seq<char>) -> Seq<char> {
    "echo Container started\ntrap \"exit 0\" 15\n"@ + custom_entrypoints + "\nexec \"$$@\"\nwhile sleep 1 & wait $$!; do :; done"@
}

pub open spec fn override_command(configuration: JsonView) -> bool {
    crate::json::get_bool(configuration, "overrideCommand"@) == Some(true)
}

/// The service's entrypoint: a shell running `wrapper_script`, followed by the
/// service's own entrypoint unless `overrideCommand` is set; as a JSON array.
pub open spec fn spec_wrapper_entrypoint(configuration: JsonView, service_entrypoint: Option<Seq<Seq<char>>>) -> Seq<char> {
    let user_entrypoint = if override_command(configuration) {
        seq![]
    } else {
        match service_entrypoint {
            Some(e) => e,
            None => seq![],
        }
    };
    json_array_text(seq!["/bin/sh"@, "-c"@, wrapper_script(joined(spec_merged_entrypoints(configuration), "\n\n"@)), "-"@] + user_entrypoint)
}

pub open spec fn opt_strs(o: Option<Vec<String>>) -> Option<Seq<Seq<char>>> {
    match o {
        Some(v) => Some(str_views(v@)),
        None => None,
    }
}

pub fn compose_wrapper_entrypoint(configuration: &JsonValue, service_entrypoint: &Option<Vec<String>>) -> (r: String)
    ensures
        r@ == spec_wrapper_entrypoint(configuration@, opt_strs(*service_entrypoint)),
{
    let custom = join_strings(&merged_entrypoints(configuration), "\n\n");
    let mut script = to_chars("echo Container started\ntrap \"exit 0\" 15\n");
    crate::text::push_all(&mut script, &custom);
    push_str(&mut script, "\nexec \"$$@\"\nwhile sleep 1 & wait $$!; do :; done");
    let mut entrypoint: Vec<String> = Vec::new();
    crate::exec::push_string(&mut entrypoint, "/bin/sh");
    crate::exec::push_string(&mut entrypoint, "-c");
    let script = from_chars(&script);
    crate::exec::push_string(&mut entrypoint, script.as_str());
    crate::exec::push_string(&mut entrypoint, "-");
    let ghost head = str_views(entrypoint@);
    assert(script@ == wrapper_script(joined(spec_merged_entrypoints(configuration@), "\n\n"@)));
    assert(head =~= seq!["/bin/sh"@, "-c"@, wrapper_script(joined(spec_merged_entrypoints(configuration@), "\n\n"@)), "-"@]);
    if crate::json::get_bool_exec(configuration, "overrideCommand") != Some(true) {
        match service_entrypoint {
            Some(e) => {
                let mut k: usize = 0;
                while k < e.len()
                    invariant
                        k <= e.len(),
                        str_views(entrypoint@) == head + str_views(e@).take(k as int),
                    decreases e.len() - k,
                {
                    crate::exec::push_string(&mut entrypoint, e[k].as_str());
                    assert(str_views(e@).take(k + 1) =~= str_views(e@).take(k as int).push(e@[k as int]@));
                    k = k + 1;
                }
                assert(str_views(e@).take(k as int) =~= str_views(e@));
            },
            None => {
                assert(str_views(entrypoint@) =~= head + Seq::<Seq<char>>::empty());
            },
        }
    } else {
        assert(str_views(entrypoint@) =~= head + Seq::<Seq<char>>::empty());
    }
    render_compose_string_sequence(&entrypoint)
}

/// The service's command when it has to change: empty when `overrideCommand`
/// is set; else the service's command; else empty when the service has an
/// entrypoint (which the wrapper took over); none when that is what the
/// service already has.
pub open spec fn spec_wrapper_command(
    configuration: JsonView,
    service_entrypoint: Option<Seq<Seq<char>>>,
    service_command: Option<Seq<Seq<char>>>,
) -> Option<Seq<char>> {
    let user_command: Option<Seq<Seq<char>>> = if override_command(configuration) {
        Some(seq![])
    } else if service_command is Some {
        service_command
    } else if service_entrypoint is Some {
        Some(seq![])
    } else {
        None
    };
    if user_command == service_command {
        None
    } else {
        match user_command {
            Some(c) => Some(json_array_text(c)),
            None => None,
        }
    }
}

fn same_strings(a: &Vec<String>, b: &Vec<String>) -> (r: bool)
    ensures
        r == (str_views(a@) == str_views(b@)),
{
    if a.len() != b.len() {
        assert(str_views(a@).len() != str_views(b@).len());
        return false;
    }
    let mut k: usize = 0;
    while k < a.len()
        invariant
            k <= a.len(),
            a.len() == b.len(),
            forall|i: int| 0 <= i < k ==> a@[i]@ == b@[i]@,
        decreases a.len() - k,
    {
        if !crate::options::str_eq(a[k].as_str(), b[k].as_str()) {
            assert(str_views(a@)[k as int] != str_views(b@)[k as int]);
            return false;
        }
        k = k + 1;
    }
    assert(str_views(a@) =~= str_views(b@));
    true
}

pub fn compose_wrapper_command(
    configuration: &JsonValue,
    service_entrypoint: &Option<Vec<String>>,
    service_command: &Option<Vec<String>>,
) -> (r: Option<String>)
    ensures
        crate::options::opt_str(r) == spec_wrapper_command(configuration@, opt_strs(*service_entrypoint), opt_strs(*service_command)),
{
    let empty: Vec<String> = Vec::new();
    assert(str_views(empty@) =~= Seq::<Seq<char>>::empty());
    let user_command: Option<&Vec<String>> = if crate::json::get_bool_exec(configuration, "overrideCommand") == Some(true) {
        Some(&empty)
    } else if service_command.is_some() {
        service_command.as_ref()
    } else if service_entrypoint.is_some() {
        Some(&empty)
    } else {
        None
    };
    let same = match (user_command, service_command) {
        (Some(u), Some(c)) => same_strings(u, c),
        (None, None) => true,
        _ => false,
    };
    if same {
        return None;
    }
    match user_command {
        Some(c) => Some(render_compose_string_sequence(c)),
        None => None,
    }
}

/// The string entries of `containerEnv`, when there are any.
pub open spec fn env_string_entries(entries: Seq<(Seq<char>, JsonView)>) -> Seq<(Seq<char>, Seq<char>)>
    decreases entries.len(),
{
    if entries.len() == 0 {
        seq![]
    } else {
        env_string_entries(entries.drop_last()) + match entries.last().1 {
            JsonView::Str(v) => seq![(entries.last().0, v)],
            _ => seq![],
        }
    }
}

pub open spec fn spec_compose_environment(configuration: JsonView) -> Option<Seq<(Seq<char>, Seq<char>)>> {
    match crate::json::json_get(configuration, "containerEnv"@) {
        Some(JsonView::Object(entries)) => if env_string_entries(entries).len() > 0 {
            Some(env_string_entries(entries))
        } else {
            None
        },
        _ => None,
    }
}

pub fn compose_environment(configuration: &JsonValue) -> (r: Option<Vec<(String, String)>>)
    ensures
        match r {
            Some(v) => spec_compose_environment(configuration@) == Some(crate::engine::pair_views(v@)),
            None => spec_compose_environment(configuration@) is None,
        },
{
    let entries = match configuration.get("containerEnv") {
        Some(m) => match m.as_object() {
            Some(e) => e,
            None => return None,
        },
        None => return None,
    };
    proof {
        lemma_entries_view(entries@);
    }
    let ghost ev = entries_view(entries@);
    let mut out: Vec<(String, String)> = Vec::new();
    let mut k: usize = 0;
    assert(ev.take(0) =~= Seq::<(Seq<char>, JsonView)>::empty());
    assert(crate::engine::pair_views(out@) =~= Seq::<(Seq<char>, Seq<char>)>::empty());
    while k < entries.len()
        invariant
            k <= entries.len(),
            ev == entries_view(entries@),
            ev.len() == entries@.len(),
            forall|i: int| 0 <= i < entries@.len() ==> #[trigger] ev[i] == (entries@[i].0@, json_view(entries@[i].1)),
            crate::engine::pair_views(out@) == env_string_entries(ev.take(k as int)),
        decreases entries.len() - k,
    {
        assert(ev.take(k + 1).drop_last() =~= ev.take(k as int));
        assert(ev.take(k + 1).last() == ev[k as int]);
        match &entries[k].1 {
            JsonValue::String(v) => {
                let pair = (from_chars(&to_chars(entries[k].0.as_str())), from_chars(&to_chars(v.as_str())));
                assert(crate::engine::pair_views(out@.push(pair)) =~= crate::engine::pair_views(out@).push((pair.0@, pair.1@)));
                out.push(pair);
            },
            _ => {},
        }
        assert(crate::engine::pair_views(out@) =~= env_string_entries(ev.take(k + 1)));
        k = k + 1;
    }
    assert(ev.take(k as int) =~= ev);
    if out.len() > 0 {
        Some(out)
    } else {
        None
    }
}


/// The long syntax of each mount string that has a target.
pub open spec fn strings_volumes(mounts: Seq<Seq<char>>, float_numbers: Seq<(Seq<char>, Seq<char>)>) -> Seq<VolumeEntryView>
    decreases mounts.len(),
{
    if mounts.len() == 0 {
        seq![]
    } else {
        strings_volumes(mounts.drop_last(), float_numbers) + match spec_mount_definition_from_str(mounts.last(), float_numbers) {
            Some(f) => seq![VolumeEntryView::Long(f)],
            None => seq![],
        }
    }
}

/// The compose volume of each configured mount that has one.
pub open spec fn items_volumes(items: Seq<JsonView>, float_numbers: Seq<(Seq<char>, Seq<char>)>) -> Seq<VolumeEntryView>
    decreases items.len(),
{
    if items.len() == 0 {
        seq![]
    } else {
        items_volumes(items.drop_last(), float_numbers) + match spec_compose_mount_definition(items.last(), float_numbers) {
            Some(v) => seq![v],
            None => seq![],
        }
    }
}

/// The service's volumes besides its workspace: the mounts derived for the
/// workspace target (unless `workspaceMount` is configured), the configured
/// `mounts`, then the command line's `--mount`s, whose errors are returned.
pub open spec fn spec_additional_volumes(
    configuration: JsonView,
    args: Seq<Seq<char>>,
    workspace_target_mounts: Seq<Seq<char>>,
    float_numbers: Seq<(Seq<char>, Seq<char>)>,
) -> Result<Seq<VolumeEntryView>, Seq<char>> {
    match crate::mounts::spec_cli_mount_values(args) {
        Err(e) => Err(e),
        Ok(cli) => Ok(
            (if crate::json::json_get(configuration, "workspaceMount"@) is None {
                strings_volumes(workspace_target_mounts, float_numbers)
            } else {
                seq![]
            }) + match crate::json::json_get(configuration, "mounts"@) {
                Some(JsonView::Array(items)) => items_volumes(items, float_numbers),
                _ => seq![],
            } + strings_volumes(cli, float_numbers),
        ),
    }
}

pub open spec fn volumes_result_view(r: Result<Vec<ComposeVolumeEntry>, String>) -> Result<Seq<VolumeEntryView>, Seq<char>> {
    match r {
        Ok(v) => Ok(entry_views(v@)),
        Err(e) => Err(e@),
    }
}

fn push_string_volumes(out: &mut Vec<ComposeVolumeEntry>, mounts: &Vec<String>, float_numbers: &Vec<(String, String)>)
    ensures
        entry_views(final(out)@) == entry_views(old(out)@) + strings_volumes(str_views(mounts@), crate::engine::pair_views(float_numbers@)),
{
    let ghost start = entry_views(out@);
    let ghost fv = crate::engine::pair_views(float_numbers@);
    let ghost mv = str_views(mounts@);
    let mut k: usize = 0;
    assert(mv.take(0) =~= Seq::<Seq<char>>::empty());
    assert(start + Seq::<VolumeEntryView>::empty() =~= start);
    while k < mounts.len()
        invariant
            k <= mounts.len(),
            mv == str_views(mounts@),
            fv == crate::engine::pair_views(float_numbers@),
            entry_views(out@) == start + strings_volumes(mv.take(k as int), fv),
        decreases mounts.len() - k,
    {
        assert(mv.take(k + 1).drop_last() =~= mv.take(k as int));
        assert(mv.take(k + 1).last() == mounts@[k as int]@);
        let ghost before = entry_views(out@);
        match compose_mount_definition_from_str(mounts[k].as_str(), float_numbers) {
            Some(f) => {
                let e = ComposeVolumeEntry::Long(f);
                out.push(e);
                assert(entry_views(out@) =~= before.push(e@));
            },
            None => {},
        }
        assert(entry_views(out@) =~= start + strings_volumes(mv.take(k + 1), fv));
        k = k + 1;
    }
    assert(mv.take(k as int) =~= mv);
}

/// The service's volumes besides its workspace (see `spec_additional_volumes`).
pub fn compose_additional_volumes(
    configuration: &JsonValue,
    args: &[String],
    workspace_target_mounts: &Vec<String>,
    float_numbers: &Vec<(String, String)>,
) -> (r: Result<Vec<ComposeVolumeEntry>, String>)
    ensures
        volumes_result_view(r) == spec_additional_volumes(
            configuration@,
            str_views(args@),
            str_views(workspace_target_mounts@),
            crate::engine::pair_views(float_numbers@),
        ),
{
    let ghost fv = crate::engine::pair_views(float_numbers@);
    let mut volumes: Vec<ComposeVolumeEntry> = Vec::new();
    assert(entry_views(volumes@) =~= Seq::<VolumeEntryView>::empty());
    if configuration.get("workspaceMount").is_none() {
        push_string_volumes(&mut volumes, workspace_target_mounts, float_numbers);
    }
    let ghost a1 = entry_views(volumes@);
    match configuration.get("mounts") {
        Some(m) => match m.as_array() {
            Some(items) => {
                proof {
                    crate::json::lemma_items_view(items@);
                }
                let ghost iv = crate::json::items_view(items@);
                let mut k: usize = 0;
                assert(iv.take(0) =~= Seq::<JsonView>::empty());
                assert(a1 + Seq::<VolumeEntryView>::empty() =~= a1);
                while k < items.len()
                    invariant
                        k <= items.len(),
                        iv == crate::json::items_view(items@),
                        iv.len() == items@.len(),
                        forall|i: int| 0 <= i < items@.len() ==> #[trigger] iv[i] == json_view(items@[i]),
                        fv == crate::engine::pair_views(float_numbers@),
                        entry_views(volumes@) == a1 + items_volumes(iv.take(k as int), fv),
                    decreases items.len() - k,
                {
                    assert(iv.take(k + 1).drop_last() =~= iv.take(k as int));
                    assert(iv.take(k + 1).last() == iv[k as int]);
                    let ghost before = entry_views(volumes@);
                    match compose_mount_definition(&items[k], float_numbers) {
                        Some(e) => {
                            volumes.push(e);
                            assert(entry_views(volumes@) =~= before.push(volumes@.last()@));
                        },
                        None => {},
                    }
                    assert(entry_views(volumes@) =~= a1 + items_volumes(iv.take(k + 1), fv));
                    k = k + 1;
                }
                assert(iv.take(k as int) =~= iv);
            },
            None => {
                assert(entry_views(volumes@) =~= a1 + Seq::<VolumeEntryView>::empty());
            },
        },
        None => {
            assert(entry_views(volumes@) =~= a1 + Seq::<VolumeEntryView>::empty());
        },
    }
    let cli = match crate::mounts::cli_mount_values(args) {
        Ok(c) => c,
        Err(e) => return Err(e),
    };
    push_string_volumes(&mut volumes, &cli, float_numbers);
    Ok(volumes)
}

/// `\n      - 'label'` for each label.
pub open spec fn labels_block(labels: Seq<Seq<char>>) -> Seq<char>
    decreases labels.len(),
{
    if labels.len() == 0 {
        seq![]
    } else {
        labels_block(labels.drop_last()) + "\n      - '"@ + escape_scalar(labels.last()) + "'"@
    }
}

/// `      - 'value'` lines.
pub open spec fn list_block(values: Seq<Seq<char>>) -> Seq<char>
    decreases values.len(),
{
    if values.len() == 0 {
        seq![]
    } else {
        list_block(values.drop_last()) + "      - '"@ + escape_scalar(values.last()) + "'\n"@
    }
}

/// `      key: 'value'` lines.
pub open spec fn env_block(pairs: Seq<(Seq<char>, Seq<char>)>) -> Seq<char>
    decreases pairs.len(),
{
    if pairs.len() == 0 {
        seq![]
    } else {
        env_block(pairs.drop_last()) + "      "@ + pairs.last().0 + ": '"@ + escape_scalar(pairs.last().1) + "'\n"@
    }
}

pub open spec fn volumes_block(volumes: Seq<VolumeEntryView>) -> Seq<char>
    decreases volumes.len(),
{
    if volumes.len() == 0 {
        seq![]
    } else {
        volumes_block(volumes.drop_last()) + spec_render_volume_entry(volumes.last())
    }
}

pub open spec fn named_block(named: Seq<(Seq<char>, bool)>) -> Seq<char>
    decreases named.len(),
{
    if named.len() == 0 {
        seq![]
    } else {
        named_block(named.drop_last()) + spec_render_named_volume(named.last().0, named.last().1)
    }
}

/// A block opened by `header` when the configuration's member is an array:
/// its strings as list items.
pub open spec fn array_block(configuration: JsonView, key: Seq<char>, header: Seq<char>) -> Seq<char> {
    match crate::json::json_get(configuration, key) {
        Some(JsonView::Array(items)) => header + list_block(crate::json::string_items(items)),
        _ => seq![],
    }
}

/// The labels of the service: the folder and configuration labels, the
/// metadata, then every `--id-label`.
pub open spec fn override_labels(default_labels: Seq<Seq<char>>, metadata: Seq<char>, args: Seq<Seq<char>>) -> Seq<Seq<char>> {
    default_labels + seq!["devcontainer.metadata="@ + metadata] + crate::options::spec_option_values(args, "--id-label"@)
}

pub open spec fn gpu_block() -> Seq<char> {
    "    deploy:\n      resources:\n        reservations:\n          devices:\n            - capabilities: [gpu]\n"@
}

/// The head of the override: the version line, the service and its labels, and its image.
pub open spec fn head_section(version_prefix: Seq<char>, service_name: Seq<char>, labels: Seq<Seq<char>>, image_name: Option<Seq<char>>) -> Seq<char> {
    version_prefix + "services:\n"@ + "  '"@ + service_name + "':\n    labels:"@ + labels_block(labels) + "\n"@
        + match image_name {
            Some(i) => "    image: '"@ + escape_scalar(i) + "'\n"@,
            None => seq![],
        }
}

/// The wrapped entrypoint and, when it changes, the command.
pub open spec fn command_section(
    configuration: JsonView,
    service_entrypoint: Option<Seq<Seq<char>>>,
    service_command: Option<Seq<Seq<char>>>,
) -> Seq<char> {
    "    entrypoint: "@ + spec_wrapper_entrypoint(configuration, service_entrypoint) + "\n"@
        + match spec_wrapper_command(configuration, service_entrypoint, service_command) {
            Some(c) => "    command: "@ + c + "\n"@,
            None => seq![],
        }
}

/// The volumes, environment and user.
pub open spec fn volumes_env_section(configuration: JsonView, volumes: Seq<VolumeEntryView>) -> Seq<char> {
    (if volumes.len() > 0 { "\n    volumes:\n"@ + volumes_block(volumes) } else { seq![] })
        + (match spec_compose_environment(configuration) {
            Some(env) => "    environment:\n"@ + env_block(env),
            None => seq![],
        })
        + match crate::json::get_str(configuration, "containerUser"@) {
            Some(u) => "    user: '"@ + escape_scalar(u) + "'\n"@,
            None => seq![],
        }
}

/// `privileged`, `init`, capabilities, security options and the GPU reservation.
pub open spec fn runtime_section(configuration: JsonView, gpu: bool) -> Seq<char> {
    (if crate::json::get_bool(configuration, "privileged"@) == Some(true) { "    privileged: true\n"@ } else { seq![] })
        + (if crate::json::get_bool(configuration, "init"@) == Some(true) { "    init: true\n"@ } else { seq![] })
        + array_block(configuration, "capAdd"@, "    cap_add:\n"@)
        + array_block(configuration, "securityOpt"@, "    security_opt:\n"@)
        + if gpu { gpu_block() } else { seq![] }
}

/// The top-level declarations of the named volumes that the service uses.
pub open spec fn named_section(volumes: Seq<VolumeEntryView>) -> Seq<char> {
    if spec_named_volumes(volumes).len() > 0 {
        "\nvolumes:\n"@ + named_block(spec_named_volumes(volumes))
    } else {
        seq![]
    }
}

/// The override file of a compose service: the first compose file's version
/// line, then for the service its labels, image, wrapped entrypoint and
/// command, volumes, environment, user, `privileged`, `init`, capabilities,
/// security options and GPU reservation, then the named volumes it uses.
pub open spec fn spec_metadata_override_content(
    configuration: JsonView,
    service_name: Seq<char>,
    labels: Seq<Seq<char>>,
    version_prefix: Seq<char>,
    service_entrypoint: Option<Seq<Seq<char>>>,
    service_command: Option<Seq<Seq<char>>>,
    image_name: Option<Seq<char>>,
    volumes: Seq<VolumeEntryView>,
    gpu: bool,
) -> Seq<char> {
    head_section(version_prefix, service_name, labels, image_name)
        + command_section(configuration, service_entrypoint, service_command)
        + volumes_env_section(configuration, volumes)
        + runtime_section(configuration, gpu)
        + named_section(volumes)
}

fn push_labels_block(out: &mut Vec<char>, labels: &Vec<String>)
    ensures
        final(out)@ == old(out)@ + labels_block(str_views(labels@)),
{
    let ghost start = out@;
    let ghost lv = str_views(labels@);
    let mut k: usize = 0;
    assert(lv.take(0) =~= Seq::<Seq<char>>::empty());
    assert(start + Seq::<char>::empty() =~= start);
    while k < labels.len()
        invariant
            k <= labels.len(),
            lv == str_views(labels@),
            out@ == start + labels_block(lv.take(k as int)),
        decreases labels.len() - k,
    {
        assert(lv.take(k + 1).drop_last() =~= lv.take(k as int));
        assert(lv.take(k + 1).last() == labels@[k as int]@);
        push_str(out, "\n      - '");
        let e = escape_compose_label(labels[k].as_str());
        push_str(out, e.as_str());
        push_str(out, "'");
        assert(out@ =~= start + labels_block(lv.take(k + 1)));
        k = k + 1;
    }
    assert(lv.take(k as int) =~= lv);
}

fn push_list_block(out: &mut Vec<char>, values: &Vec<String>)
    ensures
        final(out)@ == old(out)@ + list_block(str_views(values@)),
{
    let ghost start = out@;
    let ghost lv = str_views(values@);
    let mut k: usize = 0;
    assert(lv.take(0) =~= Seq::<Seq<char>>::empty());
    assert(start + Seq::<char>::empty() =~= start);
    while k < values.len()
        invariant
            k <= values.len(),
            lv == str_views(values@),
            out@ == start + list_block(lv.take(k as int)),
        decreases values.len() - k,
    {
        assert(lv.take(k + 1).drop_last() =~= lv.take(k as int));
        assert(lv.take(k + 1).last() == values@[k as int]@);
        push_str(out, "      - '");
        let e = escape_compose_scalar(values[k].as_str());
        push_str(out, e.as_str());
        push_str(out, "'\n");
        assert(out@ =~= start + list_block(lv.take(k + 1)));
        k = k + 1;
    }
    assert(lv.take(k as int) =~= lv);
}

fn push_env_block(out: &mut Vec<char>, pairs: &Vec<(String, String)>)
    ensures
        final(out)@ == old(out)@ + env_block(crate::engine::pair_views(pairs@)),
{
    let ghost start = out@;
    let ghost pv = crate::engine::pair_views(pairs@);
    let mut k: usize = 0;
    assert(pv.take(0) =~= Seq::<(Seq<char>, Seq<char>)>::empty());
    assert(start + Seq::<char>::empty() =~= start);
    while k < pairs.len()
        invariant
            k <= pairs.len(),
            pv == crate::engine::pair_views(pairs@),
            out@ == start + env_block(pv.take(k as int)),
        decreases pairs.len() - k,
    {
        assert(pv.take(k + 1).drop_last() =~= pv.take(k as int));
        assert(pv.take(k + 1).last() == pv[k as int]);
        push_str(out, "      ");
        push_str(out, pairs[k].0.as_str());
        push_str(out, ": '");
        let e = escape_compose_scalar(pairs[k].1.as_str());
        push_str(out, e.as_str());
        push_str(out, "'\n");
        assert(out@ =~= start + env_block(pv.take(k + 1)));
        k = k + 1;
    }
    assert(pv.take(k as int) =~= pv);
}

fn push_volumes_block(out: &mut Vec<char>, volumes: &Vec<ComposeVolumeEntry>)
    ensures
        final(out)@ == old(out)@ + volumes_block(entry_views(volumes@)),
{
    let ghost start = out@;
    let ghost vv = entry_views(volumes@);
    let mut k: usize = 0;
    assert(vv.take(0) =~= Seq::<VolumeEntryView>::empty());
    assert(start + Seq::<char>::empty() =~= start);
    while k < volumes.len()
        invariant
            k <= volumes.len(),
            vv == entry_views(volumes@),
            out@ == start + volumes_block(vv.take(k as int)),
        decreases volumes.len() - k,
    {
        assert(vv.take(k + 1).drop_last() =~= vv.take(k as int));
        assert(vv.take(k + 1).last() == volumes@[k as int]@);
        let r = render_compose_volume_entry(&volumes[k]);
        push_str(out, r.as_str());
        assert(out@ =~= start + volumes_block(vv.take(k + 1)));
        k = k + 1;
    }
    assert(vv.take(k as int) =~= vv);
}

fn push_named_block(out: &mut Vec<char>, named: &Vec<ComposeNamedVolume>)
    ensures
        final(out)@ == old(out)@ + named_block(named_views(named@)),
{
    let ghost start = out@;
    let ghost nv = named_views(named@);
    let mut k: usize = 0;
    assert(nv.take(0) =~= Seq::<(Seq<char>, bool)>::empty());
    assert(start + Seq::<char>::empty() =~= start);
    while k < named.len()
        invariant
            k <= named.len(),
            nv == named_views(named@),
            out@ == start + named_block(nv.take(k as int)),
        decreases named.len() - k,
    {
        assert(nv.take(k + 1).drop_last() =~= nv.take(k as int));
        assert(nv.take(k + 1).last() == nv[k as int]);
        let r = render_named_volume_entry(&named[k]);
        push_str(out, r.as_str());
        assert(out@ =~= start + named_block(nv.take(k + 1)));
        k = k + 1;
    }
    assert(nv.take(k as int) =~= nv);
}

fn push_array_block(out: &mut Vec<char>, configuration: &JsonValue, key: &str, header: &str)
    ensures
        final(out)@ == old(out)@ + array_block(configuration@, key@, header@),
{
    let ghost start = out@;
    match configuration.get(key) {
        Some(m) => match m.as_array() {
            Some(items) => {
                push_str(out, header);
                let strings = crate::json::array_strings(items);
                push_list_block(out, &strings);
                assert(out@ =~= start + array_block(configuration@, key@, header@));
            },
            None => {
                assert(out@ =~= start + array_block(configuration@, key@, header@));
            },
        },
        None => {
            assert(out@ =~= start + array_block(configuration@, key@, header@));
        },
    }
}

fn push_head_section(out: &mut Vec<char>, version_prefix: &str, service_name: &str, labels: &Vec<String>, image_name: Option<&str>)
    ensures
        final(out)@ == old(out)@ + head_section(version_prefix@, service_name@, str_views(labels@), match image_name {
            Some(i) => Some(i@),
            None => None,
        }),
{
    let ghost start = out@;
    push_str(out, version_prefix);
    push_str(out, "services:\n");
    push_str(out, "  '");
    push_str(out, service_name);
    push_str(out, "':\n    labels:");
    push_labels_block(out, labels);
    push_str(out, "\n");
    let ghost p1 = out@;
    match image_name {
        Some(i) => {
            push_str(out, "    image: '");
            let e = escape_compose_scalar(i);
            push_str(out, e.as_str());
            push_str(out, "'\n");
            assert(out@ =~= p1 + "    image: '"@ + escape_scalar(i@) + "'\n"@);
        },
        None => {
            assert(out@ =~= p1 + Seq::<char>::empty());
        },
    }
    assert(out@ =~= start + head_section(version_prefix@, service_name@, str_views(labels@), match image_name {
        Some(i) => Some(i@),
        None => None,
    }));
}

fn push_command_section(out: &mut Vec<char>, configuration: &JsonValue, service_entrypoint: &Option<Vec<String>>, service_command: &Option<Vec<String>>)
    ensures
        final(out)@ == old(out)@ + command_section(configuration@, opt_strs(*service_entrypoint), opt_strs(*service_command)),
{
    let ghost start = out@;
    push_str(out, "    entrypoint: ");
    let entry = compose_wrapper_entrypoint(configuration, service_entrypoint);
    push_str(out, entry.as_str());
    push_str(out, "\n");
    let ghost p1 = out@;
    match compose_wrapper_command(configuration, service_entrypoint, service_command) {
        Some(c) => {
            push_str(out, "    command: ");
            push_str(out, c.as_str());
            push_str(out, "\n");
            assert(out@ =~= p1 + "    command: "@ + c@ + "\n"@);
        },
        None => {
            assert(out@ =~= p1 + Seq::<char>::empty());
        },
    }
    assert(out@ =~= start + command_section(configuration@, opt_strs(*service_entrypoint), opt_strs(*service_command)));
}

fn push_volumes_env_section(out: &mut Vec<char>, configuration: &JsonValue, volumes: &Vec<ComposeVolumeEntry>)
    ensures
        final(out)@ == old(out)@ + volumes_env_section(configuration@, entry_views(volumes@)),
{
    let ghost start = out@;
    if volumes.len() > 0 {
        push_str(out, "\n    volumes:\n");
        push_volumes_block(out, volumes);
    }
    let ghost p1 = out@;
    assert(p1 =~= start + (if entry_views(volumes@).len() > 0 { "\n    volumes:\n"@ + volumes_block(entry_views(volumes@)) } else { Seq::<char>::empty() }));
    match compose_environment(configuration) {
        Some(env) => {
            push_str(out, "    environment:\n");
            push_env_block(out, &env);
        },
        None => {},
    }
    let ghost p2 = out@;
    assert(p2 =~= p1 + match spec_compose_environment(configuration@) {
        Some(env) => "    environment:\n"@ + env_block(env),
        None => Seq::<char>::empty(),
    });
    match crate::json::get_str_exec(configuration, "containerUser") {
        Some(u) => {
            push_str(out, "    user: '");
            let e = escape_compose_scalar(u.as_str());
            push_str(out, e.as_str());
            push_str(out, "'\n");
        },
        None => {},
    }
    assert(out@ =~= p2 + match crate::json::get_str(configuration@, "containerUser"@) {
        Some(u) => "    user: '"@ + escape_scalar(u) + "'\n"@,
        None => Seq::<char>::empty(),
    });
    assert(out@ =~= start + volumes_env_section(configuration@, entry_views(volumes@)));
}

#[verifier::spinoff_prover]
#[verifier::rlimit(50)]
fn push_runtime_section(out: &mut Vec<char>, configuration: &JsonValue, gpu: bool)
    ensures
        final(out)@ == old(out)@ + runtime_section(configuration@, gpu),
{
    let ghost start = out@;
    if crate::json::get_bool_exec(configuration, "privileged") == Some(true) {
        push_str(out, "    privileged: true\n");
    }
    let ghost p1 = out@;
    assert(p1 =~= start + (if crate::json::get_bool(configuration@, "privileged"@) == Some(true) { "    privileged: true\n"@ } else { Seq::<char>::empty() }));
    if crate::json::get_bool_exec(configuration, "init") == Some(true) {
        push_str(out, "    init: true\n");
    }
    let ghost p2 = out@;
    assert(p2 =~= p1 + (if crate::json::get_bool(configuration@, "init"@) == Some(true) { "    init: true\n"@ } else { Seq::<char>::empty() }));
    push_array_block(out, configuration, "capAdd", "    cap_add:\n");
    push_array_block(out, configuration, "securityOpt", "    security_opt:\n");
    let ghost p3 = out@;
    if gpu {
        push_str(out, "    deploy:\n      resources:\n        reservations:\n          devices:\n            - capabilities: [gpu]\n");
    }
    assert(out@ =~= p3 + (if gpu { gpu_block() } else { Seq::<char>::empty() }));
    assert(out@ =~= start + runtime_section(configuration@, gpu));
}

fn push_named_section(out: &mut Vec<char>, volumes: &Vec<ComposeVolumeEntry>)
    ensures
        final(out)@ == old(out)@ + named_section(entry_views(volumes@)),
{
    let ghost start = out@;
    let named = compose_named_volumes(volumes);
    assert(named_views(named@).len() == named@.len());
    if named.len() > 0 {
        push_str(out, "\nvolumes:\n");
        push_named_block(out, &named);
        assert(out@ =~= start + named_section(entry_views(volumes@)));
    } else {
        assert(out@ =~= start + named_section(entry_views(volumes@)));
    }
}

/// The override file's text (see `spec_metadata_override_content`).
pub fn compose_metadata_override_content(
    configuration: &JsonValue,
    service_name: &str,
    labels: &Vec<String>,
    version_prefix: &str,
    service_entrypoint: &Option<Vec<String>>,
    service_command: &Option<Vec<String>>,
    image_name: Option<&str>,
    volumes: &Vec<ComposeVolumeEntry>,
    gpu: bool,
) -> (r: String)
    ensures
        r@ == spec_metadata_override_content(
            configuration@,
            service_name@,
            str_views(labels@),
            version_prefix@,
            opt_strs(*service_entrypoint),
            opt_strs(*service_command),
            match image_name {
                Some(i) => Some(i@),
                None => None,
            },
            entry_views(volumes@),
            gpu,
        ),
{
    let mut out: Vec<char> = Vec::new();
    push_head_section(&mut out, version_prefix, service_name, labels, image_name);
    push_command_section(&mut out, configuration, service_entrypoint, service_command);
    push_volumes_env_section(&mut out, configuration, volumes);
    push_runtime_section(&mut out, configuration, gpu);
    push_named_section(&mut out, volumes);
    assert(out@ =~= spec_metadata_override_content(
        configuration@,
        service_name@,
        str_views(labels@),
        version_prefix@,
        opt_strs(*service_entrypoint),
        opt_strs(*service_command),
        match image_name {
            Some(i) => Some(i@),
            None => None,
        },
        entry_views(volumes@),
        gpu,
    ));
    from_chars(&out)
}


pub open spec fn missing_service_error() -> Seq<char> {
    "Compose configuration must define service"@
}

fn override_labels_exec(default_labels: &Vec<String>, metadata: &str, args: &[String]) -> (r: Vec<String>)
    ensures
        str_views(r@) == override_labels(str_views(default_labels@), metadata@, str_views(args@)),
{
    let mut labels: Vec<String> = Vec::new();
    let mut k: usize = 0;
    while k < default_labels.len()
        invariant
            k <= default_labels.len(),
            str_views(labels@) == str_views(default_labels@).take(k as int),
        decreases default_labels.len() - k,
    {
        crate::exec::push_string(&mut labels, default_labels[k].as_str());
        assert(str_views(default_labels@).take(k + 1) =~= str_views(default_labels@).take(k as int).push(default_labels@[k as int]@));
        k = k + 1;
    }
    assert(str_views(default_labels@).take(k as int) =~= str_views(default_labels@));
    let mut m = to_chars("devcontainer.metadata=");
    push_str(&mut m, metadata);
    let m = from_chars(&m);
    crate::exec::push_string(&mut labels, m.as_str());
    let ghost before = str_views(labels@);
    let ids = crate::options::option_values(args, "--id-label");
    let mut j: usize = 0;
    while j < ids.len()
        invariant
            j <= ids.len(),
            str_views(labels@) == before + str_views(ids@).take(j as int),
        decreases ids.len() - j,
    {
        crate::exec::push_string(&mut labels, ids[j].as_str());
        assert(str_views(ids@).take(j + 1) =~= str_views(ids@).take(j as int).push(ids@[j as int]@));
        j = j + 1;
    }
    assert(str_views(ids@).take(j as int) =~= str_views(ids@));
    labels
}

/// The content of the override file of a compose service, its metadata label
/// written from the configuration (see `spec_serialized_metadata`). Errors
/// come in order: a configuration without `service`, the command-line
/// mounts' error; then the GPU decision (asking `run_engine`
/// where the configuration and options do not decide it, whose failure to
/// run is returned) completes the content of `spec_metadata_override_content`.
pub fn compose_metadata_override_file<F: FnOnce(crate::engine::ProcessRequest) -> Result<crate::engine::ProcessResult, String>>(
    configuration: &JsonValue,
    args: &[String],
    env: &crate::options::EnvDefaults,
    default_labels: &Vec<String>,
    remote_workspace_folder: &str,
    omit_remote_env: bool,
    version_prefix: &str,
    service_entrypoint: &Option<Vec<String>>,
    service_command: &Option<Vec<String>>,
    image_name: Option<&str>,
    workspace_target_mounts: &Vec<String>,
    float_numbers: &Vec<(String, String)>,
    run_engine: F,
) -> (r: Result<String, String>)
    requires
        forall|req: crate::engine::ProcessRequest| call_requires(run_engine, (req,)),
    ensures
        crate::json::get_str(configuration@, "service"@) is None ==> crate::engine_run::string_result_view(r) == Err::<Seq<char>, Seq<char>>(missing_service_error()),
        crate::json::get_str(configuration@, "service"@) is Some ==> {
            let volumes = spec_additional_volumes(configuration@, str_views(args@), str_views(workspace_target_mounts@), crate::engine::pair_views(float_numbers@));
            let content = |gpu: bool| spec_metadata_override_content(
                configuration@,
                crate::json::get_str(configuration@, "service"@)->0,
                override_labels(
                    str_views(default_labels@),
                    crate::metadata::spec_serialized_metadata(configuration@, remote_workspace_folder@, omit_remote_env),
                    str_views(args@),
                ),
                version_prefix@,
                opt_strs(*service_entrypoint),
                opt_strs(*service_command),
                match image_name {
                    Some(i) => Some(i@),
                    None => None,
                },
                volumes->Ok_0,
                gpu,
            );
            &&& volumes is Err ==> crate::engine_run::string_result_view(r) == Err::<Seq<char>, Seq<char>>(volumes->Err_0)
            &&& volumes is Ok ==> match crate::engine_run::spec_gpu_decision(configuration@, str_views(args@), *env) {
                Some(g) => crate::engine_run::string_result_view(r) == Ok::<Seq<char>, Seq<char>>(content(g)),
                None => exists|req: crate::engine::ProcessRequest, c: Result<crate::engine::ProcessResult, String>|
                    req@ == crate::engine::spec_engine_request(str_views(args@), *env, crate::engine_run::gpu_info_args())
                        && #[trigger] call_ensures(run_engine, (req,), c) && match c {
                        Err(e) => crate::engine_run::string_result_view(r) == Err::<Seq<char>, Seq<char>>(e@),
                        Ok(p) => crate::engine_run::string_result_view(r) == Ok::<Seq<char>, Seq<char>>(
                            content(p.status_code == 0 && crate::text::contains_str(p.stdout@, "nvidia-container-runtime"@)),
                        ),
                    },
            }
        },
{
    let service = match crate::json::get_str_exec(configuration, "service") {
        Some(s) => s,
        None => return Err(from_chars(&to_chars("Compose configuration must define service"))),
    };
    let metadata = match crate::metadata::serialized_container_metadata(configuration, remote_workspace_folder, omit_remote_env) {
        Ok(m) => m,
        Err(e) => return Err(e),
    };
    let labels = override_labels_exec(default_labels, metadata.as_str(), args);
    let volumes = match compose_additional_volumes(configuration, args, workspace_target_mounts, float_numbers) {
        Ok(v) => v,
        Err(e) => return Err(e),
    };
    let gpu = match crate::engine_run::should_add_gpu_capability(configuration, args, env, run_engine) {
        Ok(g) => g,
        Err(e) => return Err(e),
    };
    Ok(compose_metadata_override_content(
        configuration,
        service.as_str(),
        &labels,
        version_prefix,
        service_entrypoint,
        service_command,
        image_name,
        &volumes,
        gpu,
    ))
}

/// The build override of a compose service: with `--cache-from` values, the
/// version line and the service's `build.cache_from` list; none without them.
pub open spec fn spec_build_override_content(service: Seq<char>, args: Seq<Seq<char>>, version_prefix: Seq<char>) -> Option<Seq<char>> {
    let cache_from = crate::options::spec_option_values(args, "--cache-from"@);
    if cache_from.len() == 0 {
        None
    } else {
        Some(version_prefix + "services:\n  '"@ + service + "':\n    build:\n      cache_from:\n"@ + cache_list(cache_from))
    }
}

/// `        - 'value'` lines.
pub open spec fn cache_list(values: Seq<Seq<char>>) -> Seq<char>
    decreases values.len(),
{
    if values.len() == 0 {
        seq![]
    } else {
        cache_list(values.drop_last()) + "        - '"@ + escape_scalar(values.last()) + "'\n"@
    }
}

pub fn compose_build_override_file(service: &str, args: &[String], version_prefix: &str) -> (r: Option<String>)
    ensures
        crate::options::opt_str(r) == spec_build_override_content(service@, str_views(args@), version_prefix@),
{
    let cache_from = crate::options::option_values(args, "--cache-from");
    if cache_from.len() == 0 {
        return None;
    }
    let mut out = to_chars(version_prefix);
    push_str(&mut out, "services:\n  '");
    push_str(&mut out, service);
    push_str(&mut out, "':\n    build:\n      cache_from:\n");
    let ghost start = out@;
    let ghost cv = str_views(cache_from@);
    let mut k: usize = 0;
    assert(cv.take(0) =~= Seq::<Seq<char>>::empty());
    assert(start + Seq::<char>::empty() =~= start);
    while k < cache_from.len()
        invariant
            k <= cache_from.len(),
            cv == str_views(cache_from@),
            out@ == start + cache_list(cv.take(k as int)),
        decreases cache_from.len() - k,
    {
        assert(cv.take(k + 1).drop_last() =~= cv.take(k as int));
        assert(cv.take(k + 1).last() == cache_from@[k as int]@);
        push_str(&mut out, "        - '");
        let e = escape_compose_scalar(cache_from[k].as_str());
        push_str(&mut out, e.as_str());
        push_str(&mut out, "'\n");
        assert(out@ =~= start + cache_list(cv.take(k + 1)));
        k = k + 1;
    }
    assert(cv.take(k as int) =~= cv);
    Some(from_chars(&out))
}

} // verus!
