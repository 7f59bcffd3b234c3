//! The services of a resolved compose configuration: which depend on which,
//! and which of those to start or refresh run from a remote image.

use vstd::prelude::*;
use crate::json::{entries_view, entry_value, get_str, items_view, json_get, json_str, json_view, lemma_entries_view, lemma_items_view, string_items, JsonValue, JsonView};
use crate::yaml::{parse_yaml_json, parses_yaml};
use crate::text::{find_char, from_chars, split_once, str_views, strip_prefix, strip_prefix_str, to_chars, trim};

verus! {

/// The names of the services.
pub open spec fn service_names(services: Seq<(Seq<char>, JsonView)>) -> Seq<Seq<char>> {
    services.map_values(|e: (Seq<char>, JsonView)| e.0)
}

/// The definition of a service, when it is a mapping.
pub open spec fn service_definition(services: Seq<(Seq<char>, JsonView)>, name: Seq<char>) -> Option<Seq<(Seq<char>, JsonView)>> {
    match entry_value(services, name) {
        Some(JsonView::Object(d)) => Some(d),
        _ => None,
    }
}

/// Whether a service runs from a remote image: it names a non-blank image
/// and has no build.
pub open spec fn is_remote_service(definition: Seq<(Seq<char>, JsonView)>) -> bool {
    (match entry_value(definition, "image"@) {
        Some(JsonView::Str(image)) => trim(image).len() > 0,
        _ => false,
    }) && match entry_value(definition, "build"@) {
        Some(JsonView::Null) => true,
        Some(_) => false,
        None => true,
    }
}

/// The service a `links` or `volumes_from` entry names: the part before `:`,
/// unless empty or `container`.
pub open spec fn reference_service(reference: Seq<char>) -> Option<Seq<char>> {
    let name = match find_char(reference, ':') {
        Some(i) => reference.take(i as int),
        None => reference,
    };
    if name.len() > 0 && name != "container"@ {
        Some(name)
    } else {
        None
    }
}

pub open spec fn reference_services(references: Seq<Seq<char>>) -> Seq<Seq<char>>
    decreases references.len(),
{
    if references.len() == 0 {
        seq![]
    } else {
        reference_services(references.drop_last()) + match reference_service(references.last()) {
            Some(s) => seq![s],
            None => seq![],
        }
    }
}

/// The strings of an array member.
pub open spec fn member_array_strings(definition: Seq<(Seq<char>, JsonView)>, key: Seq<char>) -> Seq<Seq<char>> {
    match entry_value(definition, key) {
        Some(JsonView::Array(items)) => string_items(items),
        _ => seq![],
    }
}

/// The service a `service:<name>` member names.
pub open spec fn service_reference(definition: Seq<(Seq<char>, JsonView)>, key: Seq<char>) -> Seq<Seq<char>> {
    match entry_value(definition, key) {
        Some(JsonView::Str(r)) => match strip_prefix(r, "service:"@) {
            Some(s) => seq![s],
            None => seq![],
        },
        _ => seq![],
    }
}

/// The services a service depends on: `depends_on` (its keys, or its
/// strings), the services of `links` and `volumes_from`, then those that
/// `ipc`, `network_mode` and `pid` name.
pub open spec fn spec_service_dependencies(definition: Seq<(Seq<char>, JsonView)>) -> Seq<Seq<char>> {
    (match entry_value(definition, "depends_on"@) {
        Some(JsonView::Object(m)) => service_names(m),
        Some(JsonView::Array(items)) => string_items(items),
        _ => seq![],
    }) + reference_services(member_array_strings(definition, "links"@))
        + reference_services(member_array_strings(definition, "volumes_from"@))
        + service_reference(definition, "ipc"@)
        + service_reference(definition, "network_mode"@)
        + service_reference(definition, "pid"@)
}

fn push_all_strings(out: &mut Vec<String>, values: &Vec<String>)
    ensures
        str_views(final(out)@) == str_views(old(out)@) + str_views(values@),
{
    let ghost start = str_views(out@);
    let mut k: usize = 0;
    assert(str_views(values@).take(0) =~= Seq::<Seq<char>>::empty());
    assert(start + Seq::<Seq<char>>::empty() =~= start);
    while k < values.len()
        invariant
            k <= values.len(),
            str_views(out@) == start + str_views(values@).take(k as int),
        decreases values.len() - k,
    {
        crate::exec::push_string(out, values[k].as_str());
        assert(str_views(out@) =~= start + str_views(values@).take(k + 1));
        k = k + 1;
    }
    assert(str_views(values@).take(k as int) =~= str_views(values@));
}

fn push_reference_services(out: &mut Vec<String>, definition: &Vec<(String, JsonValue)>, key: &str)
    ensures
        str_views(final(out)@) == str_views(old(out)@) + reference_services(member_array_strings(entries_view(definition@), key@)),
{
    let ghost start = str_views(out@);
    let refs: Vec<String> = match crate::compose_override::entries_get(definition, key) {
        Some(JsonValue::Array(items)) => crate::json::array_strings(items),
        _ => {
            let v: Vec<String> = Vec::new();
            assert(str_views(v@) =~= Seq::<Seq<char>>::empty());
            v
        },
    };
    let ghost rv = str_views(refs@);
    assert(rv == member_array_strings(entries_view(definition@), key@));
    let mut k: usize = 0;
    assert(rv.take(0) =~= Seq::<Seq<char>>::empty());
    assert(start + Seq::<Seq<char>>::empty() =~= start);
    while k < refs.len()
        invariant
            k <= refs.len(),
            rv == str_views(refs@),
            str_views(out@) == start + reference_services(rv.take(k as int)),
        decreases refs.len() - k,
    {
        assert(rv.take(k + 1).drop_last() =~= rv.take(k as int));
        assert(rv.take(k + 1).last() == refs@[k as int]@);
        let r = to_chars(refs[k].as_str());
        let name = match crate::text::find_char_chars(&r, ':') {
            Some(i) => crate::text::slice_of(&r, 0, i),
            None => crate::text::slice_of(&r, 0, r.len()),
        };
        assert(name@ =~= match find_char(r@, ':') {
            Some(i) => r@.take(i as int),
            None => r@,
        });
        if name.len() > 0 && !crate::text::is(&name, "container") {
            let s = from_chars(&name);
            crate::exec::push_string(out, s.as_str());
        }
        assert(str_views(out@) =~= start + reference_services(rv.take(k + 1)));
        k = k + 1;
    }
    assert(rv.take(k as int) =~= rv);
}

fn push_service_reference(out: &mut Vec<String>, definition: &Vec<(String, JsonValue)>, key: &str)
    ensures
        str_views(final(out)@) == str_views(old(out)@) + service_reference(entries_view(definition@), key@),
{
    let ghost start = str_views(out@);
    match crate::compose_override::entries_get(definition, key) {
        Some(JsonValue::String(r)) => match strip_prefix_str(&to_chars(r.as_str()), "service:") {
            Some(s) => {
                let s = from_chars(&s);
                crate::exec::push_string(out, s.as_str());
            },
            None => {
                assert(str_views(out@) =~= start + Seq::<Seq<char>>::empty());
            },
        },
        _ => {
            assert(str_views(out@) =~= start + Seq::<Seq<char>>::empty());
        },
    }
}

pub fn compose_service_dependencies(definition: &Vec<(String, JsonValue)>) -> (r: Vec<String>)
    ensures
        str_views(r@) == spec_service_dependencies(entries_view(definition@)),
{
    let mut out: Vec<String> = Vec::new();
    match crate::compose_override::entries_get(definition, "depends_on") {
        Some(JsonValue::Object(m)) => {
            proof {
                lemma_entries_view(m@);
            }
            let mut k: usize = 0;
            while k < m.len()
                invariant
                    k <= m.len(),
                    entries_view(m@).len() == m@.len(),
                    forall|i: int| 0 <= i < m@.len() ==> #[trigger] entries_view(m@)[i] == (m@[i].0@, json_view(m@[i].1)),
                    str_views(out@) == service_names(entries_view(m@)).take(k as int),
                decreases m.len() - k,
            {
                crate::exec::push_string(&mut out, m[k].0.as_str());
                assert(str_views(out@) =~= service_names(entries_view(m@)).take(k + 1));
                k = k + 1;
            }
            assert(service_names(entries_view(m@)).take(k as int) =~= service_names(entries_view(m@)));
        },
        Some(JsonValue::Array(items)) => {
            out = crate::json::array_strings(items);
        },
        _ => {
            assert(str_views(out@) =~= Seq::<Seq<char>>::empty());
        },
    }
    push_reference_services(&mut out, definition, "links");
    push_reference_services(&mut out, definition, "volumes_from");
    push_service_reference(&mut out, definition, "ipc");
    push_service_reference(&mut out, definition, "network_mode");
    push_service_reference(&mut out, definition, "pid");
    out
}

pub fn is_remote_service_exec(definition: &Vec<(String, JsonValue)>) -> (r: bool)
    ensures
        r == is_remote_service(entries_view(definition@)),
{
    let has_image = match crate::compose_override::entries_get(definition, "image") {
        Some(JsonValue::String(image)) => crate::text::trim_chars(&to_chars(image.as_str())).len() > 0,
        _ => false,
    };
    let has_build = match crate::compose_override::entries_get(definition, "build") {
        Some(JsonValue::Null) => false,
        Some(_) => true,
        None => false,
    };
    has_image && !has_build
}


pub open spec fn service_lookup_error(name: Seq<char>) -> Seq<char> {
    "Unable to locate compose service `"@ + name + "` in resolved configuration"@
}

/// Visited services are defined services, each once.
pub open spec fn visited_ok(services: Seq<(Seq<char>, JsonView)>, visited: Seq<Seq<char>>) -> bool {
    &&& visited.no_duplicates()
    &&& forall|i: int| 0 <= i < visited.len() ==> service_definition(services, #[trigger] visited[i]) is Some
}

/// `to` is among the dependencies of the defined service `from`.
pub open spec fn dep_step(services: Seq<(Seq<char>, JsonView)>, from: Seq<char>, to: Seq<char>) -> bool {
    service_definition(services, from) is Some && spec_service_dependencies(service_definition(services, from)->0).contains(to)
}

/// A chain of services, each a dependency of the one before.
pub open spec fn dep_path(services: Seq<(Seq<char>, JsonView)>, path: Seq<Seq<char>>) -> bool {
    path.len() > 0 && forall|i: int| 0 < i < path.len() ==> dep_step(services, path[i - 1], #[trigger] path[i])
}

/// A chain from `first` to a service that is not defined.
pub open spec fn broken_path(services: Seq<(Seq<char>, JsonView)>, path: Seq<Seq<char>>) -> bool {
    dep_path(services, path) && service_definition(services, path.last()) is None
}

proof fn lemma_path_prepend(services: Seq<(Seq<char>, JsonView)>, s: Seq<char>, path: Seq<Seq<char>>)
    requires
        dep_path(services, path),
        dep_step(services, s, path[0]),
    ensures
        dep_path(services, seq![s] + path),
        (seq![s] + path).last() == path.last(),
        (seq![s] + path)[0] == s,
{
    let q = seq![s] + path;
    assert forall|i: int| 0 < i < q.len() implies dep_step(services, q[i - 1], #[trigger] q[i]) by {
        if i > 1 {
            assert(q[i] == path[i - 1]);
            assert(q[i - 1] == path[i - 2]);
        }
    }
}

/// Every service on a chain from a visited service is visited, where the
/// visited services are closed under dependencies.
proof fn lemma_path_visited(services: Seq<(Seq<char>, JsonView)>, visited: Seq<Seq<char>>, path: Seq<Seq<char>>, n: int)
    requires
        dep_path(services, path),
        0 <= n < path.len(),
        visited.contains(path[0]),
        forall|i: int| 0 <= i < visited.len() ==> closed_at(services, visited, #[trigger] visited[i]),
    ensures
        visited.contains(path[n]),
    decreases n,
{
    if n > 0 {
        lemma_path_visited(services, visited, path, n - 1);
        let j = choose|j: int| 0 <= j < visited.len() && visited[j] == path[n - 1];
        assert(closed_at(services, visited, visited[j]));
        assert(dep_step(services, path[n - 1], path[n]));
    }
}

/// A visited service whose dependencies are all visited.
pub open spec fn closed_at(services: Seq<(Seq<char>, JsonView)>, visited: Seq<Seq<char>>, name: Seq<char>) -> bool {
    forall|d: Seq<char>| spec_service_dependencies(service_definition(services, name)->0).contains(d) ==> visited.contains(d)
}

/// Whether a defined service runs from a remote image.
pub open spec fn remote_name(services: Seq<(Seq<char>, JsonView)>, name: Seq<char>) -> bool {
    service_definition(services, name) matches Some(d) && is_remote_service(d)
}

proof fn lemma_defined_is_named(services: Seq<(Seq<char>, JsonView)>, name: Seq<char>)
    requires
        entry_value(services, name) is Some,
    ensures
        service_names(services).contains(name),
    decreases services.len(),
{
    if services[0].0 == name {
        assert(service_names(services)[0] == name);
    } else {
        lemma_defined_is_named(services.drop_first(), name);
        let j = choose|j: int| 0 <= j < service_names(services.drop_first()).len() && service_names(services.drop_first())[j] == name;
        assert(service_names(services)[j + 1] == name);
    }
}

proof fn lemma_visited_bound(services: Seq<(Seq<char>, JsonView)>, visited: Seq<Seq<char>>)
    requires
        visited_ok(services, visited),
    ensures
        visited.len() <= services.len(),
{
    let names = service_names(services);
    visited.unique_seq_to_set();
    names.lemma_cardinality_of_set();
    assert forall|x: Seq<char>| visited.to_set().contains(x) implies names.to_set().contains(x) by {
        let i = choose|i: int| 0 <= i < visited.len() && visited[i] == x;
        assert(service_definition(services, visited[i]) is Some);
        lemma_defined_is_named(services, x);
    }
    vstd::set_lib::lemma_len_subset(visited.to_set(), names.to_set());
}

fn contains_name(names: &Vec<String>, name: &str) -> (r: bool)
    ensures
        r == str_views(names@).contains(name@),
{
    let mut k: usize = 0;
    while k < names.len()
        invariant
            k <= names.len(),
            forall|i: int| 0 <= i < k ==> str_views(names@)[i] != name@,
        decreases names.len() - k,
    {
        if crate::options::str_eq(names[k].as_str(), name) {
            assert(str_views(names@)[k as int] == name@);
            return true;
        }
        k = k + 1;
    }
    false
}

fn definition_of<'a>(services: &'a Vec<(String, JsonValue)>, name: &str) -> (r: Option<&'a Vec<(String, JsonValue)>>)
    ensures
        match r {
            Some(d) => service_definition(entries_view(services@), name@) == Some(entries_view(d@)),
            None => service_definition(entries_view(services@), name@) is None,
        },
{
    match crate::compose_override::entries_get(services, name) {
        Some(JsonValue::Object(d)) => Some(d),
        _ => None,
    }
}

/// Visits a service and, first, what it depends on: each service once;
/// those that run from a remote image are listed after their dependencies.
pub fn visit_remote_service(
    services: &Vec<(String, JsonValue)>,
    service: &str,
    visited: &mut Vec<String>,
    remote: &mut Vec<String>,
) -> (r: Result<(), String>)
    requires
        visited_ok(entries_view(services@), str_views(old(visited)@)),
    ensures
        r is Err ==> exists|path: Seq<Seq<char>>|
            #[trigger] broken_path(entries_view(services@), path) && path[0] == service@
                && r->Err_0@ == service_lookup_error(path.last()),
        r is Ok ==> {
            let sv = entries_view(services@);
            let v0 = str_views(old(visited)@);
            let v1 = str_views(final(visited)@);
            let r0 = str_views(old(remote)@);
            let r1 = str_views(final(remote)@);
            &&& visited_ok(sv, v1)
            &&& v1.take(v0.len() as int) == v0
            &&& v0.len() <= v1.len()
            &&& v1.contains(service@)
            &&& forall|i: int| v0.len() <= i < v1.len() ==> closed_at(sv, v1, #[trigger] v1[i])
            &&& r1.take(r0.len() as int) == r0
            &&& r0.len() <= r1.len()
            &&& r1.skip(r0.len() as int).no_duplicates()
            &&& forall|x: Seq<char>| #[trigger] r1.skip(r0.len() as int).contains(x)
                <==> (v1.skip(v0.len() as int).contains(x) && remote_name(sv, x))
        },
    decreases services@.len() - old(visited)@.len(),
{
    let ghost sv = entries_view(services@);
    let ghost v0 = str_views(visited@);
    let ghost r0 = str_views(remote@);
    if contains_name(visited, service) {
        assert(visited@ == old(visited)@);
        assert(str_views(visited@).take(v0.len() as int) =~= v0);
        assert(str_views(remote@).take(r0.len() as int) =~= r0);
        assert(str_views(remote@).skip(r0.len() as int) =~= Seq::<Seq<char>>::empty());
        assert(str_views(visited@).skip(v0.len() as int) =~= Seq::<Seq<char>>::empty());
        return Ok(());
    }
    let definition = match definition_of(services, service) {
        Some(d) => d,
        None => {
            let mut m = to_chars("Unable to locate compose service `");
            crate::text::push_str(&mut m, service);
            crate::text::push_str(&mut m, "` in resolved configuration");
            let e = from_chars(&m);
            assert(e@ == service_lookup_error(service@));
            assert(broken_path(sv, seq![service@]));
            return Err(e);
        },
    };
    crate::exec::push_string(visited, service);
    proof {
        let v = str_views(visited@);
        assert(v == v0.push(service@));
        assert forall|i: int, j: int| 0 <= i < j < v.len() implies v[i] != v[j] by {
            if j == v.len() - 1 {
                assert(v[j] == service@);
                assert(v0[i] == v[i]);
                if v[i] == service@ {
                    assert(v0.contains(service@));
                }
            } else {
                assert(v[i] == v0[i] && v[j] == v0[j]);
            }
        }
        assert forall|i: int| 0 <= i < v.len() implies service_definition(sv, #[trigger] v[i]) is Some by {
            if i < v0.len() {
                assert(v[i] == v0[i]);
            }
        }
        lemma_visited_bound(sv, v);
    }
    let dependencies = compose_service_dependencies(definition);
    let ghost deps = str_views(dependencies@);
    let ghost v_entry = str_views(visited@);
    let mut k: usize = 0;
    while k < dependencies.len()
        invariant
            k <= dependencies.len(),
            sv == entries_view(services@),
            deps == str_views(dependencies@),
            deps == spec_service_dependencies(service_definition(sv, service@)->0),
            service_definition(sv, service@) is Some,
            v_entry == v0.push(service@),
            v0.len() == old(visited)@.len(),
            visited_ok(sv, str_views(visited@)),
            str_views(visited@).take(v_entry.len() as int) == v_entry,
            v_entry.len() <= str_views(visited@).len(),
            forall|i: int| v_entry.len() <= i < str_views(visited@).len() ==> closed_at(sv, str_views(visited@), #[trigger] str_views(visited@)[i]),
            forall|j: int| 0 <= j < k ==> str_views(visited@).contains(#[trigger] deps[j]),
            str_views(remote@).take(r0.len() as int) == r0,
            r0.len() <= str_views(remote@).len(),
            str_views(remote@).skip(r0.len() as int).no_duplicates(),
            forall|x: Seq<char>| #[trigger] str_views(remote@).skip(r0.len() as int).contains(x)
                <==> (str_views(visited@).skip(v_entry.len() as int).contains(x) && remote_name(sv, x)),
        decreases dependencies.len() - k,
    {
        let ghost vb = str_views(visited@);
        let ghost rb = str_views(remote@);
        proof {
            lemma_visited_bound(sv, vb);
            lemma_entries_view(services@);
            assert(vb.len() == visited@.len());
            assert(visited@.len() <= services@.len());
            assert(visited@.len() > old(visited)@.len());
        }
        let res = visit_remote_service(services, dependencies[k].as_str(), visited, remote);
        match res {
            Err(e) => {
                proof {
                    let path = choose|path: Seq<Seq<char>>| #[trigger] broken_path(sv, path) && path[0] == dependencies@[k as int]@
                        && e@ == service_lookup_error(path.last());
                    assert(deps[k as int] == dependencies@[k as int]@);
                    assert(dep_step(sv, service@, path[0]));
                    lemma_path_prepend(sv, service@, path);
                    assert(broken_path(sv, seq![service@] + path));
                }
                return Err(e);
            },
            Ok(()) => {},
        }
        proof {
            let va = str_views(visited@);
            let ra = str_views(remote@);
            assert(va.take(vb.len() as int) == vb);
            assert forall|i: int| 0 <= i < vb.len() implies va[i] == vb[i] by {
                assert(va.take(vb.len() as int)[i] == va[i]);
            }
            assert(va.take(v_entry.len() as int) =~= v_entry) by {
                assert forall|i: int| 0 <= i < v_entry.len() implies va[i] == v_entry[i] by {
                    assert(vb.take(v_entry.len() as int)[i] == vb[i]);
                }
            }
            assert forall|j: int| 0 <= j < k + 1 implies va.contains(#[trigger] deps[j]) by {
                if j < k {
                    let t = choose|t: int| 0 <= t < vb.len() && vb[t] == deps[j];
                    assert(va[t] == deps[j]);
                } else {
                    assert(deps[j] == dependencies@[j]@);
                }
            }
            assert forall|i: int| v_entry.len() <= i < va.len() implies closed_at(sv, va, #[trigger] va[i]) by {
                if i < vb.len() {
                    assert(va[i] == vb[i]);
                    assert(closed_at(sv, vb, vb[i]));
                    assert forall|d: Seq<char>| spec_service_dependencies(service_definition(sv, va[i])->0).contains(d) implies va.contains(d) by {
                        assert(spec_service_dependencies(service_definition(sv, vb[i])->0).contains(d));
                        assert(vb.contains(d));
                        let t = choose|t: int| 0 <= t < vb.len() && vb[t] == d;
                        assert(va[t] == d);
                    }
                }
            }
            assert(ra.take(r0.len() as int) =~= r0) by {
                assert forall|i: int| 0 <= i < r0.len() implies ra[i] == r0[i] by {
                    assert(ra.take(rb.len() as int)[i] == ra[i]);
                    assert(rb.take(r0.len() as int)[i] == rb[i]);
                }
            }
            let old_new = rb.skip(r0.len() as int);
            let added = ra.skip(rb.len() as int);
            assert(ra.skip(r0.len() as int) =~= old_new + added) by {
                assert forall|i: int| 0 <= i < ra.len() - r0.len() implies ra.skip(r0.len() as int)[i] == (old_new + added)[i] by {
                    if i < old_new.len() {
                        assert(ra.take(rb.len() as int)[r0.len() + i] == ra[r0.len() + i]);
                    }
                }
            }
            let vnew_b = vb.skip(v_entry.len() as int);
            let vnew_a = va.skip(v_entry.len() as int);
            let vadd = va.skip(vb.len() as int);
            assert forall|x: Seq<char>| vnew_a.contains(x) <==> (vnew_b.contains(x) || vadd.contains(x)) by {
                if vnew_a.contains(x) {
                    let i = choose|i: int| 0 <= i < vnew_a.len() && vnew_a[i] == x;
                    if v_entry.len() + i < vb.len() {
                        assert(vnew_b[i] == x);
                    } else {
                        assert(vadd[v_entry.len() + i - vb.len()] == x);
                    }
                }
                if vnew_b.contains(x) {
                    let i = choose|i: int| 0 <= i < vnew_b.len() && vnew_b[i] == x;
                    assert(vnew_a[i] == x);
                }
                if vadd.contains(x) {
                    let i = choose|i: int| 0 <= i < vadd.len() && vadd[i] == x;
                    assert(vnew_a[vb.len() - v_entry.len() + i] == x);
                }
            }
            assert forall|x: Seq<char>| #[trigger] ra.skip(r0.len() as int).contains(x) <==> (vnew_a.contains(x) && remote_name(sv, x)) by {
                if (old_new + added).contains(x) {
                    let i = choose|i: int| 0 <= i < (old_new + added).len() && (old_new + added)[i] == x;
                    if i < old_new.len() {
                        assert(old_new.contains(x));
                    } else {
                        assert(added[i - old_new.len()] == x);
                        assert(added.contains(x));
                    }
                }
                if old_new.contains(x) {
                    let i = choose|i: int| 0 <= i < old_new.len() && old_new[i] == x;
                    assert((old_new + added)[i] == x);
                }
                if added.contains(x) {
                    let i = choose|i: int| 0 <= i < added.len() && added[i] == x;
                    assert((old_new + added)[old_new.len() + i] == x);
                }
            }
            assert((old_new + added).no_duplicates()) by {
                assert forall|i: int, j: int| 0 <= i < j < (old_new + added).len() implies (old_new + added)[i] != (old_new + added)[j] by {
                    if j < old_new.len() {
                    } else if i >= old_new.len() {
                        assert(added[i - old_new.len()] == (old_new + added)[i]);
                        assert(added[j - old_new.len()] == (old_new + added)[j]);
                    } else {
                        let x = (old_new + added)[i];
                        assert(old_new.contains(x));
                        assert(added[j - old_new.len()] == (old_new + added)[j]);
                        if (old_new + added)[j] == x {
                            assert(added.contains(x));
                            assert(vadd.contains(x));
                            assert(vnew_b.contains(x));
                            let p = choose|p: int| 0 <= p < vadd.len() && vadd[p] == x;
                            let q = choose|q: int| 0 <= q < vnew_b.len() && vnew_b[q] == x;
                            assert(va[vb.len() + p] == x);
                            assert(va[v_entry.len() + q] == vb[v_entry.len() + q]);
                            assert(va[v_entry.len() + q] == x);
                        }
                    }
                }
            }
        }
        k = k + 1;
    }
    let ghost vf = str_views(visited@);
    let ghost rb = str_views(remote@);
    if is_remote_service_exec(definition) {
        crate::exec::push_string(remote, service);
    }
    proof {
        let ra = str_views(remote@);
        assert(vf.take(v0.len() as int) =~= v0) by {
            assert forall|i: int| 0 <= i < v0.len() implies vf[i] == v0[i] by {
                assert(vf.take(v_entry.len() as int)[i] == vf[i]);
                assert(v_entry[i] == v0[i]);
            }
        }
        assert(vf[v0.len() as int] == service@) by {
            assert(vf.take(v_entry.len() as int)[v0.len() as int] == vf[v0.len() as int]);
        }
        assert(vf.contains(service@));
        assert forall|i: int| v0.len() <= i < vf.len() implies closed_at(sv, vf, #[trigger] vf[i]) by {
            if i == v0.len() {
                assert forall|d: Seq<char>| spec_service_dependencies(service_definition(sv, vf[i])->0).contains(d) implies vf.contains(d) by {
                    let j = choose|j: int| 0 <= j < deps.len() && deps[j] == d;
                }
            }
        }
        assert(ra.take(r0.len() as int) =~= r0) by {
            assert forall|i: int| 0 <= i < r0.len() implies ra[i] == r0[i] by {
                assert(rb.take(r0.len() as int)[i] == rb[i]);
            }
        }
        let vnew = vf.skip(v0.len() as int);
        let vlater = vf.skip(v_entry.len() as int);
        assert forall|x: Seq<char>| vnew.contains(x) <==> (x == service@ || vlater.contains(x)) by {
            if vnew.contains(x) {
                let i = choose|i: int| 0 <= i < vnew.len() && vnew[i] == x;
                if i > 0 {
                    assert(vlater[i - 1] == x);
                }
            }
            if x == service@ {
                assert(vnew[0] == x);
            }
            if vlater.contains(x) {
                let i = choose|i: int| 0 <= i < vlater.len() && vlater[i] == x;
                assert(vnew[i + 1] == x);
            }
        }
        assert(!vlater.contains(service@)) by {
            if vlater.contains(service@) {
                let i = choose|i: int| 0 <= i < vlater.len() && vlater[i] == service@;
                assert(vf[v_entry.len() + i] == service@);
                assert(vf[v0.len() as int] == service@);
            }
        }
        let before = rb.skip(r0.len() as int);
        if remote_name(sv, service@) {
            assert(ra.skip(r0.len() as int) =~= before.push(service@));
            assert(!before.contains(service@));
            assert forall|x: Seq<char>| #[trigger] ra.skip(r0.len() as int).contains(x) <==> (vnew.contains(x) && remote_name(sv, x)) by {
                if before.push(service@).contains(x) && x != service@ {
                    let i = choose|i: int| 0 <= i < before.push(service@).len() && before.push(service@)[i] == x;
                    assert(before[i] == x);
                }
                if before.contains(x) {
                    let i = choose|i: int| 0 <= i < before.len() && before[i] == x;
                    assert(before.push(service@)[i] == x);
                }
                if x == service@ {
                    assert(before.push(service@)[before.len() as int] == x);
                }
            }
        } else {
            assert(ra.skip(r0.len() as int) =~= before);
        }
    }
    Ok(())
}


/// The services to start from: those selected, else every service.
pub open spec fn closure_roots(services: Seq<(Seq<char>, JsonView)>, selected: Option<Seq<Seq<char>>>) -> Seq<Seq<char>> {
    match selected {
        Some(s) => s,
        None => service_names(services),
    }
}

pub open spec fn opt_names(selected: Option<&Vec<String>>) -> Option<Seq<Seq<char>>> {
    match selected {
        Some(s) => Some(str_views(s@)),
        None => None,
    }
}

/// `remote` holds, each once, exactly the services that run from a remote
/// image among the roots (the selected services, or all) and everything they
/// depend on: some set of visited services that contains the roots and is
/// closed under dependencies.
pub open spec fn closure_of(services: Seq<(Seq<char>, JsonView)>, selected: Option<Seq<Seq<char>>>, remote: Seq<Seq<char>>) -> bool {
    remote.no_duplicates() && exists|visited: Seq<Seq<char>>| {
        &&& #[trigger] visited_ok(services, visited)
        &&& forall|x: Seq<char>| closure_roots(services, selected).contains(x) ==> visited.contains(x)
        &&& forall|i: int| 0 <= i < visited.len() ==> closed_at(services, visited, #[trigger] visited[i])
        &&& forall|x: Seq<char>| #[trigger] remote.contains(x) <==> (visited.contains(x) && remote_name(services, x))
    }
}

/// The closure of the remote services (`out`): an error names a service that
/// is not defined, reached from a root (a selected service, or any) through
/// dependencies; a result is `closure_of` the roots, and then every service
/// so reached is defined.
pub open spec fn spec_closure_result(services: Seq<(Seq<char>, JsonView)>, selected: Option<Seq<Seq<char>>>, out: Result<Seq<Seq<char>>, Seq<char>>) -> bool {
    match out {
        Err(e) => exists|path: Seq<Seq<char>>|
            #[trigger] broken_path(services, path) && closure_roots(services, selected).contains(path[0])
                && e == service_lookup_error(path.last()),
        Ok(remote) => closure_of(services, selected, remote)
            && forall|path: Seq<Seq<char>>| #[trigger] dep_path(services, path) && closure_roots(services, selected).contains(path[0])
                ==> service_definition(services, path.last()) is Some,
    }
}

pub open spec fn names_result_view(r: Result<Vec<String>, String>) -> Result<Seq<Seq<char>>, Seq<char>> {
    match r {
        Ok(v) => Ok(str_views(v@)),
        Err(e) => Err(e@),
    }
}

/// The services that run from a remote image among the selected services
/// (or all) and everything they depend on, each once; a dependency that is
/// not defined is an error (see `spec_closure_result`).
pub fn remote_service_closure(services: &Vec<(String, JsonValue)>, selected: Option<&Vec<String>>) -> (r: Result<Vec<String>, String>)
    ensures
        spec_closure_result(entries_view(services@), opt_names(selected), names_result_view(r)),
{
    let ghost sv = entries_view(services@);
    proof {
        lemma_entries_view(services@);
    }
    let roots: Vec<String> = match selected {
        Some(s) => {
            let mut v: Vec<String> = Vec::new();
            push_all_strings(&mut v, s);
            assert(str_views(v@) =~= str_views(s@));
            v
        },
        None => {
            let mut v: Vec<String> = Vec::new();
            let mut k: usize = 0;
            while k < services.len()
                invariant
                    k <= services.len(),
                    sv == entries_view(services@),
                    sv.len() == services@.len(),
                    forall|i: int| 0 <= i < services@.len() ==> #[trigger] sv[i] == (services@[i].0@, json_view(services@[i].1)),
                    str_views(v@) == service_names(sv).take(k as int),
                decreases services.len() - k,
            {
                crate::exec::push_string(&mut v, services[k].0.as_str());
                assert(str_views(v@) =~= service_names(sv).take(k + 1));
                k = k + 1;
            }
            assert(service_names(sv).take(k as int) =~= service_names(sv));
            v
        },
    };
    let ghost rv = str_views(roots@);
    assert(rv == closure_roots(sv, opt_names(selected)));
    let mut visited: Vec<String> = Vec::new();
    let mut remote: Vec<String> = Vec::new();
    assert(str_views(visited@) =~= Seq::<Seq<char>>::empty());
    assert(str_views(remote@) =~= Seq::<Seq<char>>::empty());
    let mut k: usize = 0;
    while k < roots.len()
        invariant
            k <= roots.len(),
            sv == entries_view(services@),
            rv == str_views(roots@),
            rv == closure_roots(sv, opt_names(selected)),
            visited_ok(sv, str_views(visited@)),
            forall|j: int| 0 <= j < k ==> str_views(visited@).contains(#[trigger] rv[j]),
            forall|i: int| 0 <= i < str_views(visited@).len() ==> closed_at(sv, str_views(visited@), #[trigger] str_views(visited@)[i]),
            str_views(remote@).no_duplicates(),
            forall|x: Seq<char>| #[trigger] str_views(remote@).contains(x) <==> (str_views(visited@).contains(x) && remote_name(sv, x)),
        decreases roots.len() - k,
    {
        let ghost vb = str_views(visited@);
        let ghost rb = str_views(remote@);
        match visit_remote_service(services, roots[k].as_str(), &mut visited, &mut remote) {
            Err(e) => {
                proof {
                    let path = choose|path: Seq<Seq<char>>| #[trigger] broken_path(sv, path) && path[0] == roots@[k as int]@
                        && e@ == service_lookup_error(path.last());
                    assert(rv[k as int] == roots@[k as int]@);
                    assert(rv.contains(path[0]));
                    assert(broken_path(sv, path));
                }
                return Err(e);
            },
            Ok(()) => {},
        }
        proof {
            let va = str_views(visited@);
            let ra = str_views(remote@);
            assert forall|i: int| 0 <= i < vb.len() implies va[i] == vb[i] by {
                assert(va.take(vb.len() as int)[i] == va[i]);
            }
            assert forall|j: int| 0 <= j < k + 1 implies va.contains(#[trigger] rv[j]) by {
                if j < k {
                    assert(vb.contains(rv[j]));
                    let t = choose|t: int| 0 <= t < vb.len() && vb[t] == rv[j];
                    assert(va[t] == rv[j]);
                } else {
                    assert(rv[j] == roots@[j]@);
                }
            }
            assert forall|i: int| 0 <= i < va.len() implies closed_at(sv, va, #[trigger] va[i]) by {
                if i < vb.len() {
                    assert(va[i] == vb[i]);
                    assert(closed_at(sv, vb, vb[i]));
                    assert forall|d: Seq<char>| spec_service_dependencies(service_definition(sv, va[i])->0).contains(d) implies va.contains(d) by {
                        assert(spec_service_dependencies(service_definition(sv, vb[i])->0).contains(d));
                        assert(vb.contains(d));
                        let t = choose|t: int| 0 <= t < vb.len() && vb[t] == d;
                        assert(va[t] == d);
                    }
                }
            }
            assert forall|i: int| 0 <= i < rb.len() implies ra[i] == rb[i] by {
                assert(ra.take(rb.len() as int)[i] == ra[i]);
            }
            let added = ra.skip(rb.len() as int);
            let vadd = va.skip(vb.len() as int);
            assert(ra =~= rb + added);
            assert forall|x: Seq<char>| va.contains(x) <==> (vb.contains(x) || vadd.contains(x)) by {
                if va.contains(x) {
                    let i = choose|i: int| 0 <= i < va.len() && va[i] == x;
                    if i < vb.len() {
                        assert(vb[i] == x);
                    } else {
                        assert(vadd[i - vb.len()] == x);
                    }
                }
                if vb.contains(x) {
                    let i = choose|i: int| 0 <= i < vb.len() && vb[i] == x;
                    assert(va[i] == x);
                }
                if vadd.contains(x) {
                    let i = choose|i: int| 0 <= i < vadd.len() && vadd[i] == x;
                    assert(va[vb.len() + i] == x);
                }
            }
            assert forall|x: Seq<char>| #[trigger] ra.contains(x) <==> (va.contains(x) && remote_name(sv, x)) by {
                if ra.contains(x) {
                    let i = choose|i: int| 0 <= i < ra.len() && ra[i] == x;
                    if i < rb.len() {
                        assert(rb[i] == x);
                    } else {
                        assert(added[i - rb.len()] == x);
                    }
                }
                if rb.contains(x) {
                    let i = choose|i: int| 0 <= i < rb.len() && rb[i] == x;
                    assert(ra[i] == x);
                }
                if added.contains(x) {
                    let i = choose|i: int| 0 <= i < added.len() && added[i] == x;
                    assert(ra[rb.len() + i] == x);
                }
            }
            assert(ra.no_duplicates()) by {
                assert forall|i: int, j: int| 0 <= i < j < ra.len() implies ra[i] != ra[j] by {
                    if j < rb.len() {
                    } else if i >= rb.len() {
                        assert(added[i - rb.len()] == ra[i]);
                        assert(added[j - rb.len()] == ra[j]);
                    } else {
                        let x = ra[i];
                        assert(rb[i] == x);
                        assert(rb.contains(x));
                        assert(added[j - rb.len()] == ra[j]);
                        if ra[j] == x {
                            assert(added.contains(x));
                            assert(vadd.contains(x));
                            assert(vb.contains(x));
                            let p = choose|p: int| 0 <= p < vadd.len() && vadd[p] == x;
                            let q = choose|q: int| 0 <= q < vb.len() && vb[q] == x;
                            assert(va[vb.len() + p] == x);
                            assert(va[q] == x);
                        }
                    }
                }
            }
        }
        k = k + 1;
    }
    proof {
        let vf = str_views(visited@);
        assert forall|x: Seq<char>| closure_roots(sv, opt_names(selected)).contains(x) implies vf.contains(x) by {
            let j = choose|j: int| 0 <= j < rv.len() && rv[j] == x;
        }
        assert(visited_ok(sv, vf));
        assert(closure_of(sv, opt_names(selected), str_views(remote@)));
        assert forall|path: Seq<Seq<char>>| #[trigger] dep_path(sv, path) && closure_roots(sv, opt_names(selected)).contains(path[0])
            implies service_definition(sv, path.last()) is Some by {
            lemma_path_visited(sv, vf, path, path.len() - 1);
            let j = choose|j: int| 0 <= j < vf.len() && vf[j] == path.last();
        }
    }
    Ok(remote)
}

/// The engine arguments that pull an image, for a platform when one is set.
pub open spec fn pull_args(image: Seq<char>, platform: Option<Seq<char>>) -> Seq<Seq<char>> {
    seq!["pull"@] + match platform {
        Some(p) => seq!["--platform"@, p],
        None => seq![],
    } + seq![image]
}

/// A remote service's image and its platform when set and not blank.
pub open spec fn service_image_platform(definition: Seq<(Seq<char>, JsonView)>) -> (Seq<char>, Option<Seq<char>>) {
    let image = match entry_value(definition, "image"@) {
        Some(JsonView::Str(i)) => i,
        _ => seq![],
    };
    let platform = match entry_value(definition, "platform"@) {
        Some(JsonView::Str(p)) => if trim(p).len() > 0 { Some(p) } else { None },
        _ => None,
    };
    (image, platform)
}

/// The pulls for the remote services, in order: one per distinct image and platform.
pub open spec fn spec_pull_plan(services: Seq<(Seq<char>, JsonView)>, remote: Seq<Seq<char>>) -> Seq<(Seq<char>, Option<Seq<char>>)>
    decreases remote.len(),
{
    if remote.len() == 0 {
        seq![]
    } else {
        let before = spec_pull_plan(services, remote.drop_last());
        let pair = service_image_platform(service_definition(services, remote.last())->0);
        if before.contains(pair) {
            before
        } else {
            before.push(pair)
        }
    }
}

pub open spec fn plan_view(plan: Seq<(String, Option<String>)>) -> Seq<(Seq<char>, Option<Seq<char>>)> {
    plan.map_values(|p: (String, Option<String>)| (p.0@, crate::options::opt_str(p.1)))
}

fn same_pull(a: &(String, Option<String>), b: &(String, Option<String>)) -> (r: bool)
    ensures
        r == ((a.0@, crate::options::opt_str(a.1)) == (b.0@, crate::options::opt_str(b.1))),
{
    if !crate::options::str_eq(a.0.as_str(), b.0.as_str()) {
        return false;
    }
    match (&a.1, &b.1) {
        (Some(x), Some(y)) => crate::options::str_eq(x.as_str(), y.as_str()),
        (None, None) => true,
        _ => false,
    }
}

/// The image and platform of each pull (see `spec_pull_plan`); every named
/// service is a defined service.
pub fn pull_plan(services: &Vec<(String, JsonValue)>, remote: &Vec<String>) -> (r: Vec<(String, Option<String>)>)
    requires
        forall|i: int| 0 <= i < remote.len() ==> service_definition(entries_view(services@), #[trigger] remote@[i]@) is Some,
    ensures
        plan_view(r@) == spec_pull_plan(entries_view(services@), str_views(remote@)),
        plan_view(r@).no_duplicates(),
{
    let ghost sv = entries_view(services@);
    let ghost rv = str_views(remote@);
    let mut plan: Vec<(String, Option<String>)> = Vec::new();
    let mut k: usize = 0;
    assert(rv.take(0) =~= Seq::<Seq<char>>::empty());
    assert(plan_view(plan@) =~= Seq::<(Seq<char>, Option<Seq<char>>)>::empty());
    while k < remote.len()
        invariant
            k <= remote.len(),
            sv == entries_view(services@),
            rv == str_views(remote@),
            forall|i: int| 0 <= i < remote.len() ==> service_definition(sv, #[trigger] remote@[i]@) is Some,
            plan_view(plan@) == spec_pull_plan(sv, rv.take(k as int)),
            plan_view(plan@).no_duplicates(),
        decreases remote.len() - k,
    {
        assert(rv.take(k + 1).drop_last() =~= rv.take(k as int));
        assert(rv.take(k + 1).last() == remote@[k as int]@);
        let definition = match definition_of(services, remote[k].as_str()) {
            Some(d) => d,
            None => {
                assert(false);
                return plan;
            },
        };
        let image = match crate::compose_override::entries_get(definition, "image") {
            Some(JsonValue::String(i)) => from_chars(&to_chars(i.as_str())),
            _ => from_chars(&to_chars("")),
        };
        proof {
            reveal_strlit("");
        }
        let platform = match crate::compose_override::entries_get(definition, "platform") {
            Some(JsonValue::String(p)) => if crate::text::trim_chars(&to_chars(p.as_str())).len() > 0 {
                Some(from_chars(&to_chars(p.as_str())))
            } else {
                None
            },
            _ => None,
        };
        let pair = (image, platform);
        let ghost pv = (pair.0@, crate::options::opt_str(pair.1));
        assert(pv == service_image_platform(service_definition(sv, rv[k as int])->0));
        let mut seen = false;
        let mut j: usize = 0;
        while j < plan.len()
            invariant
                j <= plan.len(),
                pv == (pair.0@, crate::options::opt_str(pair.1)),
                seen == plan_view(plan@).take(j as int).contains(pv),
            decreases plan.len() - j,
        {
            let same = same_pull(&plan[j], &pair);
            proof {
                assert(plan_view(plan@)[j as int] == (plan@[j as int].0@, crate::options::opt_str(plan@[j as int].1)));
                let t = plan_view(plan@).take(j + 1);
                assert(t =~= plan_view(plan@).take(j as int).push(plan_view(plan@)[j as int]));
                if t.contains(pv) {
                    let i = choose|i: int| 0 <= i < t.len() && t[i] == pv;
                    if i < j {
                        assert(plan_view(plan@).take(j as int)[i] == pv);
                    }
                }
                if plan_view(plan@).take(j as int).contains(pv) {
                    let i = choose|i: int| 0 <= i < j && plan_view(plan@).take(j as int)[i] == pv;
                    assert(t[i] == pv);
                }
                if same {
                    assert(t[j as int] == pv);
                    assert(t.contains(pv));
                }
            }
            seen = seen || same;
            j = j + 1;
        }
        assert(plan_view(plan@).take(j as int) =~= plan_view(plan@));
        if !seen {
            let ghost before = plan_view(plan@);
            plan.push(pair);
            assert(plan_view(plan@) =~= before.push(pv));
            assert(plan_view(plan@).no_duplicates()) by {
                assert forall|a: int, b: int| 0 <= a < b < plan_view(plan@).len() implies plan_view(plan@)[a] != plan_view(plan@)[b] by {
                    if b == before.len() {
                        assert(before[a] == plan_view(plan@)[a]);
                    } else {
                        assert(before[a] == plan_view(plan@)[a] && before[b] == plan_view(plan@)[b]);
                    }
                }
            }
        }
        k = k + 1;
    }
    assert(rv.take(k as int) =~= rv);
    plan
}

/// The engine arguments of a pull.
pub fn pull_args_exec(image: &str, platform: &Option<String>) -> (r: Vec<String>)
    ensures
        str_views(r@) == pull_args(image@, crate::options::opt_str(*platform)),
{
    let mut out: Vec<String> = Vec::new();
    crate::exec::push_string(&mut out, "pull");
    match platform {
        Some(p) => {
            crate::exec::push_string(&mut out, "--platform");
            crate::exec::push_string(&mut out, p.as_str());
        },
        None => {},
    }
    crate::exec::push_string(&mut out, image);
    assert(str_views(out@) =~= pull_args(image@, crate::options::opt_str(*platform)));
    out
}

/// The services to start: the configured `runServices` (its strings) with the
/// main service added when missing; none when `runServices` is not a
/// non-empty array (compose then starts every service).
pub open spec fn spec_compose_services_to_start(configuration: JsonView, service: Seq<char>) -> Option<Seq<Seq<char>>> {
    match json_get(configuration, "runServices"@) {
        Some(JsonView::Array(items)) => if items.len() == 0 {
            None
        } else {
            let names = string_items(items);
            if names.contains(service) {
                Some(names)
            } else {
                Some(names.push(service))
            }
        },
        _ => None,
    }
}

pub fn compose_services_to_start(configuration: &JsonValue, service: &str) -> (r: Option<Vec<String>>)
    ensures
        opt_names(match r {
            Some(ref v) => Some(v),
            None => None,
        }) == spec_compose_services_to_start(configuration@, service@),
{
    let items = match configuration.get("runServices") {
        Some(m) => match m.as_array() {
            Some(items) => items,
            None => return None,
        },
        None => return None,
    };
    proof {
        lemma_items_view(items@);
    }
    if items.len() == 0 {
        return None;
    }
    let mut names = crate::json::array_strings(items);
    if !contains_name(&names, service) {
        crate::exec::push_string(&mut names, service);
    }
    Some(names)
}


pub open spec fn parse_compose_config_error(e: Seq<char>) -> Seq<char> {
    "Unable to parse resolved Compose configuration: "@ + e
}

pub open spec fn no_services_error() -> Seq<char> {
    "Resolved Compose configuration does not define services"@
}

/// Whether a pull ran and succeeded.
pub open spec fn pulled<F: Fn(crate::engine::ProcessRequest) -> Result<crate::engine::ProcessResult, String>>(
    run_engine: F,
    args: Seq<Seq<char>>,
    env: crate::options::EnvDefaults,
    pull: (Seq<char>, Option<Seq<char>>),
) -> bool {
    exists|req: crate::engine::ProcessRequest, p: crate::engine::ProcessResult|
        req@ == crate::engine::spec_engine_request(args, env, pull_args(pull.0, pull.1))
            && #[trigger] call_ensures(run_engine, (req,), Ok::<crate::engine::ProcessResult, String>(p))
            && p.status_code == 0
}

/// Whether an engine call failed: it did not run, or ended with a non-zero status.
pub open spec fn call_failed(c: Result<crate::engine::ProcessResult, String>) -> bool {
    c is Err || c->Ok_0.status_code != 0
}

/// What a failed engine call reports: its error, or its output.
pub open spec fn failure_text(c: Result<crate::engine::ProcessResult, String>) -> Seq<char> {
    match c {
        Err(e) => e@,
        Ok(p) => crate::engine::spec_stderr_or_stdout(p.stdout@, p.stderr@),
    }
}

/// A pull that ran and failed, its report being `out`.
pub open spec fn failed_pull<F: Fn(crate::engine::ProcessRequest) -> Result<crate::engine::ProcessResult, String>>(
    run_engine: F,
    args: Seq<Seq<char>>,
    env: crate::options::EnvDefaults,
    pull: (Seq<char>, Option<Seq<char>>),
    out: Result<(), Seq<char>>,
) -> bool {
    exists|req: crate::engine::ProcessRequest, c: Result<crate::engine::ProcessResult, String>|
        req@ == crate::engine::spec_engine_request(args, env, pull_args(pull.0, pull.1))
            && #[trigger] call_ensures(run_engine, (req,), c)
            && call_failed(c)
            && out == Err::<(), Seq<char>>(failure_text(c))
}

/// The first `k` pulls of the plan succeeded, and then the plan ended
/// (`out` is success) or the next pull failed (`out` is its report).
pub open spec fn pulls_stop_at<F: Fn(crate::engine::ProcessRequest) -> Result<crate::engine::ProcessResult, String>>(
    run_engine: F,
    args: Seq<Seq<char>>,
    env: crate::options::EnvDefaults,
    plan: Seq<(Seq<char>, Option<Seq<char>>)>,
    k: int,
    out: Result<(), Seq<char>>,
) -> bool {
    &&& 0 <= k <= plan.len()
    &&& forall|i: int| 0 <= i < k ==> pulled(run_engine, args, env, #[trigger] plan[i])
    &&& if k == plan.len() {
        out == Ok::<(), Seq<char>>(())
    } else {
        failed_pull(run_engine, args, env, plan[k], out)
    }
}

/// The pulls of the plan, in order, up to the first that fails (`out`).
pub open spec fn spec_pulls_outcome<F: Fn(crate::engine::ProcessRequest) -> Result<crate::engine::ProcessResult, String>>(
    run_engine: F,
    args: Seq<Seq<char>>,
    env: crate::options::EnvDefaults,
    plan: Seq<(Seq<char>, Option<Seq<char>>)>,
    out: Result<(), Seq<char>>,
) -> bool {
    exists|k: int| #[trigger] pulls_stop_at(run_engine, args, env, plan, k, out)
}

/// The refresh of the services (`out`) once their closure gave `cr`.
pub open spec fn spec_pull_closure<F: Fn(crate::engine::ProcessRequest) -> Result<crate::engine::ProcessResult, String>>(
    run_engine: F,
    args: Seq<Seq<char>>,
    env: crate::options::EnvDefaults,
    services: Seq<(Seq<char>, JsonView)>,
    cr: Result<Seq<Seq<char>>, Seq<char>>,
    out: Result<(), Seq<char>>,
) -> bool {
    match cr {
        Err(e) => out == Err::<(), Seq<char>>(e),
        Ok(remote) => spec_pulls_outcome(run_engine, args, env, spec_pull_plan(services, remote), out),
    }
}

/// The refresh (`out`) once the resolved configuration was parsed: its parse
/// error, or a configuration without services, is an error; else the closure
/// of the remote services decides, and then their pulls.
pub open spec fn spec_pull_after_config<F: Fn(crate::engine::ProcessRequest) -> Result<crate::engine::ProcessResult, String>>(
    run_engine: F,
    args: Seq<Seq<char>>,
    env: crate::options::EnvDefaults,
    selected: Option<Seq<Seq<char>>>,
    parsed: Result<JsonValue, String>,
    out: Result<(), Seq<char>>,
) -> bool {
    match parsed {
        Err(e) => out == Err::<(), Seq<char>>(parse_compose_config_error(e@)),
        Ok(v) => match json_get(v@, "services"@) {
            Some(JsonView::Object(svcs)) => spec_pull_services(run_engine, args, env, svcs, selected, out),
            _ => out == Err::<(), Seq<char>>(no_services_error()),
        },
    }
}

/// The refresh of the services (`out`): the closure of the remote services
/// decides, and then their pulls.
pub open spec fn spec_pull_services<F: Fn(crate::engine::ProcessRequest) -> Result<crate::engine::ProcessResult, String>>(
    run_engine: F,
    args: Seq<Seq<char>>,
    env: crate::options::EnvDefaults,
    services: Seq<(Seq<char>, JsonView)>,
    selected: Option<Seq<Seq<char>>>,
    out: Result<(), Seq<char>>,
) -> bool {
    exists|cr: Result<Seq<Seq<char>>, Seq<char>>|
        #[trigger] spec_closure_result(services, selected, cr) && spec_pull_closure(run_engine, args, env, services, cr, out)
}

pub open spec fn unit_result_view(r: Result<(), String>) -> Result<(), Seq<char>> {
    match r {
        Ok(()) => Ok(()),
        Err(e) => Err(e@),
    }
}

/// The remote services are such, and every pull of their plan succeeded.
pub open spec fn all_pulled<F: Fn(crate::engine::ProcessRequest) -> Result<crate::engine::ProcessResult, String>>(
    run_engine: F,
    args: Seq<Seq<char>>,
    env: crate::options::EnvDefaults,
    services: Seq<(Seq<char>, JsonView)>,
    remote: Seq<Seq<char>>,
) -> bool {
    &&& forall|x: Seq<char>| #[trigger] remote.contains(x) ==> remote_name(services, x)
    &&& forall|i: int| 0 <= i < spec_pull_plan(services, remote).len()
        ==> pulled(run_engine, args, env, #[trigger] spec_pull_plan(services, remote)[i])
}

/// The refresh (`out`): `run_compose` prints the resolved configuration with
/// `config_args`; its failure is the error; else the output is parsed as YAML
/// (see `spec_yaml_json_document`) and `spec_pull_after_config` decides.
pub open spec fn spec_pull_call<
    C: Fn(Vec<String>) -> Result<crate::engine::ProcessResult, String>,
    F: Fn(crate::engine::ProcessRequest) -> Result<crate::engine::ProcessResult, String>,
>(
    run_compose: C,
    run_engine: F,
    args: Seq<Seq<char>>,
    env: crate::options::EnvDefaults,
    config_args: Seq<Seq<char>>,
    selected: Option<Seq<Seq<char>>>,
    out: Result<(), Seq<char>>,
) -> bool {
    exists|a: Vec<String>, c: Result<crate::engine::ProcessResult, String>|
        str_views(a@) == config_args && #[trigger] call_ensures(run_compose, (a,), c) && if call_failed(c) {
            out == Err::<(), Seq<char>>(failure_text(c))
        } else {
            exists|t: String, parsed: Result<JsonValue, String>|
                t@ == c->Ok_0.stdout@ && #[trigger] parses_yaml(t, parsed)
                    && spec_pull_after_config(run_engine, args, env, selected, parsed, out)
        }
}

proof fn lemma_pull_call<
    C: Fn(Vec<String>) -> Result<crate::engine::ProcessResult, String>,
    F: Fn(crate::engine::ProcessRequest) -> Result<crate::engine::ProcessResult, String>,
>(
    run_compose: C,
    run_engine: F,
    args: Seq<Seq<char>>,
    env: crate::options::EnvDefaults,
    config_args: Seq<Seq<char>>,
    selected: Option<Seq<Seq<char>>>,
    a: Vec<String>,
    c: Result<crate::engine::ProcessResult, String>,
    t: String,
    parsed: Result<JsonValue, String>,
    out: Result<(), Seq<char>>,
)
    requires
        str_views(a@) == config_args,
        call_ensures(run_compose, (a,), c),
        !call_failed(c),
        t@ == c->Ok_0.stdout@,
        parses_yaml(t, parsed),
        spec_pull_after_config(run_engine, args, env, selected, parsed, out),
    ensures
        spec_pull_call(run_compose, run_engine, args, env, config_args, selected, out),
{
}

/// Refreshes the remote images of the compose services: `run_compose` prints
/// the resolved configuration (`config`, with the profile override when
/// given), it is parsed as YAML, and for the selected services (or all) and
/// their dependencies, each distinct image and platform of those that run
/// from a remote image is pulled by `run_engine`, in order; the first
/// failure is returned.
pub fn pull_compose_images_with_override<
    C: Fn(Vec<String>) -> Result<crate::engine::ProcessResult, String>,
    F: Fn(crate::engine::ProcessRequest) -> Result<crate::engine::ProcessResult, String>,
>(
    args: &[String],
    env: &crate::options::EnvDefaults,
    spec: &crate::compose::ComposeSpec,
    selected: Option<&Vec<String>>,
    profile_override_file: Option<&str>,
    run_compose: &C,
    run_engine: &F,
) -> (r: Result<(), String>)
    requires
        forall|a: Vec<String>| call_requires(*run_compose, (a,)),
        forall|req: crate::engine::ProcessRequest| call_requires(*run_engine, (req,)),
    ensures
        spec_pull_call(*run_compose, *run_engine, str_views(args@), *env, crate::compose::spec_compose_args_owned(
            spec.project_name@,
            str_views(spec.files@),
            "config"@,
            match profile_override_file {
                Some(f) => Some(f@),
                None => None,
            },
            seq![],
        ), opt_names(selected), unit_result_view(r)),
        r is Ok ==> exists|a: Vec<String>, p: crate::engine::ProcessResult, t: String, v: JsonValue, svcs: Seq<(Seq<char>, JsonView)>, remote: Seq<Seq<char>>|
            #![trigger call_ensures(*run_compose, (a,), Ok::<crate::engine::ProcessResult, String>(p)), parses_yaml(t, Ok::<JsonValue, String>(v)), all_pulled(*run_engine, str_views(args@), *env, svcs, remote)]
        {
            &&& str_views(a@) == crate::compose::spec_compose_args_owned(
                spec.project_name@,
                str_views(spec.files@),
                "config"@,
                match profile_override_file {
                    Some(f) => Some(f@),
                    None => None,
                },
                seq![],
            )
            &&& call_ensures(*run_compose, (a,), Ok::<crate::engine::ProcessResult, String>(p))
            &&& p.status_code == 0
            &&& t@ == p.stdout@
            &&& parses_yaml(t, Ok::<JsonValue, String>(v))
            &&& json_get(v@, "services"@) == Some(JsonView::Object(svcs))
            &&& closure_of(svcs, opt_names(selected), remote)
            &&& all_pulled(*run_engine, str_views(args@), *env, svcs, remote)
        },
{
    let empty: Vec<String> = Vec::new();
    assert(str_views(empty@) =~= Seq::<Seq<char>>::empty());
    let config_args = crate::compose::compose_args_owned(spec, "config", profile_override_file, empty);
    let ghost a = config_args;
    let ghost ca = str_views(a@);
    let ghost av = str_views(args@);
    let ghost sel = opt_names(selected);
    let c = run_compose(config_args);
    assert(call_ensures(*run_compose, (a,), c));
    let stdout = match &c {
        Err(e) => {
            assert(call_failed(c));
            return Err(e.clone());
        },
        Ok(p) => {
            if p.status_code != 0 {
                assert(call_failed(c));
                return Err(crate::engine::stderr_or_stdout(p));
            }
            from_chars(&to_chars(p.stdout.as_str()))
        },
    };
    let ghost tg = stdout;
    let parsed_result = parse_yaml_json(&stdout);
    assert(parses_yaml(tg, parsed_result));
    let ghost pr = parsed_result;
    let parsed = match parsed_result {
        Ok(v) => v,
        Err(e) => {
            let mut m = to_chars("Unable to parse resolved Compose configuration: ");
            crate::text::push_str(&mut m, e.as_str());
            let out = from_chars(&m);
            proof {
                lemma_pull_call(*run_compose, *run_engine, av, *env, ca, sel, a, c, tg, pr, unit_result_view(Err(out)));
            }
            return Err(out);
        },
    };
    let services = match parsed.get("services") {
        Some(JsonValue::Object(s)) => s,
        _ => {
            let out = from_chars(&to_chars("Resolved Compose configuration does not define services"));
            proof {
                lemma_pull_call(*run_compose, *run_engine, av, *env, ca, sel, a, c, tg, pr, unit_result_view(Err(out)));
            }
            return Err(out);
        },
    };
    let ghost sv = entries_view(services@);
    let closure = remote_service_closure(services, selected);
    let ghost crv = names_result_view(closure);
    assert(spec_closure_result(sv, sel, crv));
    let remote = match closure {
        Ok(r) => r,
        Err(e) => {
            proof {
                assert(spec_pull_closure(*run_engine, av, *env, sv, crv, unit_result_view(Err(e))));
                assert(spec_pull_services(*run_engine, av, *env, sv, sel, unit_result_view(Err(e))));
                lemma_pull_call(*run_compose, *run_engine, av, *env, ca, sel, a, c, tg, pr, unit_result_view(Err(e)));
            }
            return Err(e);
        },
    };
    proof {
        assert forall|i: int| 0 <= i < remote.len() implies service_definition(sv, #[trigger] remote@[i]@) is Some by {
            assert(str_views(remote@)[i] == remote@[i]@);
            assert(str_views(remote@).contains(remote@[i]@));
        }
    }
    let plan = pull_plan(services, &remote);
    let ghost pv = plan_view(plan@);
    let mut k: usize = 0;
    while k < plan.len()
        invariant
            k <= plan.len(),
            pv == plan_view(plan@),
            pv == spec_pull_plan(sv, str_views(remote@)),
            forall|req: crate::engine::ProcessRequest| call_requires(*run_engine, (req,)),
            forall|i: int| 0 <= i < k ==> pulled(*run_engine, av, *env, #[trigger] pv[i]),
            av == str_views(args@),
            sel == opt_names(selected),
            ca == str_views(a@),
            ca == crate::compose::spec_compose_args_owned(
                spec.project_name@,
                str_views(spec.files@),
                "config"@,
                match profile_override_file {
                    Some(f) => Some(f@),
                    None => None,
                },
                seq![],
            ),
            call_ensures(*run_compose, (a,), c),
            c is Ok && c->Ok_0.status_code == 0,
            tg@ == c->Ok_0.stdout@,
            parses_yaml(tg, pr),
            pr == Ok::<JsonValue, String>(parsed),
            json_get(parsed@, "services"@) == Some(JsonView::Object(sv)),
            spec_closure_result(sv, sel, crv),
            crv == Ok::<Seq<Seq<char>>, Seq<char>>(str_views(remote@)),
            crv->Ok_0 == str_views(remote@),
        decreases plan.len() - k,
    {
        let pull = pull_args_exec(plan[k].0.as_str(), &plan[k].1);
        let request = crate::engine::engine_request(args, env, pull);
        let ghost req = request;
        let pulled_result = run_engine(request);
        assert(call_ensures(*run_engine, (req,), pulled_result));
        assert(pv[k as int] == (plan@[k as int].0@, crate::options::opt_str(plan@[k as int].1)));
        let failure: Option<String> = match &pulled_result {
            Err(e) => Some(e.clone()),
            Ok(p) => if p.status_code != 0 {
                Some(crate::engine::stderr_or_stdout(p))
            } else {
                None
            },
        };
        match failure {
            Some(e) => {
                proof {
                    let out = unit_result_view(Err(e));
                    assert(call_failed(pulled_result));
                    assert(failed_pull(*run_engine, av, *env, pv[k as int], out));
                    assert(pulls_stop_at(*run_engine, av, *env, pv, k as int, out));
                    assert(spec_pull_closure(*run_engine, av, *env, sv, crv, out));
                    assert(spec_pull_services(*run_engine, av, *env, sv, sel, out));
                    lemma_pull_call(*run_compose, *run_engine, av, *env, ca, sel, a, c, tg, pr, out);
                }
                return Err(e);
            },
            None => {
                proof {
                    let p = pulled_result->Ok_0;
                    assert(call_ensures(*run_engine, (req,), Ok::<crate::engine::ProcessResult, String>(p)));
                    assert(pulled(*run_engine, av, *env, pv[k as int]));
                }
            },
        }
        k = k + 1;
    }
    proof {
        let out = unit_result_view(Ok(()));
        assert(pulls_stop_at(*run_engine, av, *env, pv, pv.len() as int, out));
        assert(spec_pull_closure(*run_engine, av, *env, sv, crv, out));
        assert(spec_pull_services(*run_engine, av, *env, sv, sel, out));
        lemma_pull_call(*run_compose, *run_engine, av, *env, ca, sel, a, c, tg, pr, out);
        assert forall|x: Seq<char>| #[trigger] str_views(remote@).contains(x) implies remote_name(sv, x) by {}
        assert(all_pulled(*run_engine, av, *env, sv, str_views(remote@)));
        let p = c->Ok_0;
        assert(c == Ok::<crate::engine::ProcessResult, String>(p));
    }
    Ok(())
}

} // verus!
