//! `deno.lock` files (version 5): a new version of a dependency, written in its
//! specifiers, its registry entries and the workspace's lists.
use vstd::prelude::*;

use super::cargo::strings_view;
use super::{diff_entry, diff_with, opt_text, push_diff};
use crate::action::{Action, ActionView};
use crate::deno::{
    check_deno_version, dep_req_of, deno_version_ok, is_object_text, lock_reads, read_lock_text, nv_of,
    nv_with_new_version, nv_with_version, parse_dep_req, parse_nv,
};
use crate::json::{
    at_key, entries_view, find_key, insert_entry, items_view, json_parse, lemma_array_view, lemma_obj_find,
    lemma_object_view, obj_find, obj_get, obj_insert, obj_remove, on_object, parse_json, put_entry,
    str_at, take_entry, Json, JsonView,
};
use crate::semver::{version_text, Version, VersionView};
use crate::text::{chars_eq, chars_of, push_str, string_of};

verus! {

// ---------------------------------------------------------------------------
// Specifiers in the workspace's lists
// ---------------------------------------------------------------------------

/// The scheme of a specifier: `npm:` or `jsr:`.
pub open spec fn scheme(npm: bool) -> Seq<char> {
    if npm {
        "npm:"@
    } else {
        "jsr:"@
    }
}

/// A specifier of `dep` at one of the old versions, written for the new version.
pub open spec fn updated_specifier(t: Seq<char>, dep: Seq<char>, olds: Seq<Seq<char>>, resolved: Seq<char>) -> Option<Seq<char>> {
    match dep_req_of(t) {
        Some(r) => if r.name == dep && olds.contains(r.version_text) {
            Some(scheme(r.npm) + dep + "@"@ + resolved)
        } else {
            None
        },
        None => None,
    }
}

pub open spec fn update_item(j: JsonView, dep: Seq<char>, olds: Seq<Seq<char>>, resolved: Seq<char>) -> JsonView {
    match j {
        JsonView::Str(t) => match updated_specifier(t, dep, olds, resolved) {
            Some(n) => JsonView::Str(n),
            None => j,
        },
        _ => j,
    }
}

/// An array of specifiers, each updated.
pub open spec fn update_array(j: JsonView, dep: Seq<char>, olds: Seq<Seq<char>>, resolved: Seq<char>) -> JsonView {
    match j {
        JsonView::Array(items) => JsonView::Array(Seq::new(items.len(), |i: int| update_item(items[i], dep, olds, resolved))),
        _ => j,
    }
}

pub open spec fn array_updater(dep: Seq<char>, olds: Seq<Seq<char>>, resolved: Seq<char>) -> spec_fn(JsonView) -> JsonView {
    |j: JsonView| update_array(j, dep, olds, resolved)
}

pub open spec fn package_json_updater(dep: Seq<char>, olds: Seq<Seq<char>>, resolved: Seq<char>) -> spec_fn(JsonView) -> JsonView {
    |j: JsonView| on_object(j, |p: Seq<(Seq<char>, JsonView)>| at_key(p, "dependencies"@, array_updater(dep, olds, resolved)))
}

/// The lists of an object: `dependencies`, `packageJson.dependencies`,
/// `optionalDependencies` and `peerDependencies`.
pub open spec fn dep_arrays(
    es: Seq<(Seq<char>, JsonView)>,
    dep: Seq<char>,
    olds: Seq<Seq<char>>,
    resolved: Seq<char>,
) -> Seq<(Seq<char>, JsonView)> {
    let f = array_updater(dep, olds, resolved);
    let e1 = at_key(es, "dependencies"@, f);
    let e2 = at_key(e1, "packageJson"@, package_json_updater(dep, olds, resolved));
    let e3 = at_key(e2, "optionalDependencies"@, f);
    at_key(e3, "peerDependencies"@, f)
}

fn contains_string(v: &Vec<String>, s: &str) -> (r: bool)
    ensures
        r == strings_view(v@).contains(s@),
{
    let t = chars_of(s);
    let mut i: usize = 0;
    while i < v.len()
        invariant
            i <= v.len(),
            t@ == s@,
            forall|j: int| 0 <= j < i ==> strings_view(v@)[j] != s@,
        decreases v.len() - i,
    {
        if chars_eq(&chars_of(v[i].as_str()), &t) {
            assert(strings_view(v@)[i as int] == s@);
            return true;
        }
        i = i + 1;
    }
    false
}

fn updated_specifier_exec(t: &str, dep: &str, olds: &Vec<String>, resolved: &str) -> (r: Option<String>)
    ensures
        match r {
            Some(n) => updated_specifier(t@, dep@, strings_view(olds@), resolved@) == Some(n@),
            None => updated_specifier(t@, dep@, strings_view(olds@), resolved@) is None,
        },
{
    let r = parse_dep_req(t)?;
    if !chars_eq(&chars_of(r.name.as_str()), &chars_of(dep)) {
        return None;
    }
    if !contains_string(olds, r.version_text.as_str()) {
        return None;
    }
    let mut out = if r.npm {
        chars_of("npm:")
    } else {
        chars_of("jsr:")
    };
    push_str(&mut out, dep);
    push_str(&mut out, "@");
    push_str(&mut out, resolved);
    Some(string_of(&out))
}

fn update_array_exec(j: Json, dep: &str, olds: &Vec<String>, resolved: &str) -> (r: Json)
    ensures
        r@ == update_array(j@, dep@, strings_view(olds@), resolved@),
{
    match j {
        Json::Array(mut items) => {
            proof {
                lemma_array_view(items);
            }
            let ghost orig = items_view(items@);
            let mut i: usize = 0;
            while i < items.len()
                invariant
                    i <= items.len(),
                    items@.len() == orig.len(),
                    items_view(items@) == Seq::new(
                        orig.len(),
                        |k: int| if k < i { update_item(orig[k], dep@, strings_view(olds@), resolved@) } else { orig[k] },
                    ),
                decreases items.len() - i,
            {
                let ghost before = items@;
                let item = items.remove(i);
                assert(items_view(before)[i as int] == orig[i as int]);
                assert(item@ == orig[i as int]);
                let new_item = match item {
                    Json::Str(t) => match updated_specifier_exec(t.as_str(), dep, olds, resolved) {
                        Some(n) => Json::Str(n),
                        None => Json::Str(t),
                    },
                    other => other,
                };
                assert(new_item@ == update_item(orig[i as int], dep@, strings_view(olds@), resolved@));
                let ghost nv = new_item;
                items.insert(i, new_item);
                assert(items@ =~= before.update(i as int, nv));
                assert(items_view(items@) =~= items_view(before).update(i as int, nv@));
                assert(items_view(items@) =~= Seq::new(
                    orig.len(),
                    |k: int| if k < i + 1 { update_item(orig[k], dep@, strings_view(olds@), resolved@) } else { orig[k] },
                ));
                i = i + 1;
            }
            proof {
                lemma_array_view(items);
            }
            assert(items_view(items@) =~= Seq::new(orig.len(), |k: int| update_item(orig[k], dep@, strings_view(olds@), resolved@)));
            Json::Array(items)
        },
        other => other,
    }
}

/// Updates the list at `key`, if it is there.
fn update_key_array(es: &mut Vec<(String, Json)>, key: &str, dep: &str, olds: &Vec<String>, resolved: &str)
    ensures
        entries_view(final(es)@) == at_key(entries_view(old(es)@), key@, array_updater(dep@, strings_view(olds@), resolved@)),
{
    let ghost ev = entries_view(es@);
    match find_key(es, key) {
        Some(i) => {
            proof {
                lemma_obj_find(ev, key@);
            }
            let (k, v) = take_entry(es, i);
            let nv = update_array_exec(v, dep, olds, resolved);
            put_entry(es, i, (k, nv));
            assert(entries_view(es@) =~= at_key(ev, key@, array_updater(dep@, strings_view(olds@), resolved@)));
        },
        None => {},
    }
}

/// Updates the lists of an object.
fn dep_arrays_exec(es: &mut Vec<(String, Json)>, dep: &str, olds: &Vec<String>, resolved: &str)
    ensures
        entries_view(final(es)@) == dep_arrays(entries_view(old(es)@), dep@, strings_view(olds@), resolved@),
{
    update_key_array(es, "dependencies", dep, olds, resolved);
    let ghost ev = entries_view(es@);
    match find_key(es, "packageJson") {
        Some(i) => {
            proof {
                lemma_obj_find(ev, "packageJson"@);
            }
            let (k, v) = take_entry(es, i);
            let nv = match v {
                Json::Object(mut p) => {
                    proof {
                        lemma_object_view(p);
                    }
                    update_key_array(&mut p, "dependencies", dep, olds, resolved);
                    proof {
                        lemma_object_view(p);
                    }
                    Json::Object(p)
                },
                other => other,
            };
            put_entry(es, i, (k, nv));
            assert(entries_view(es@) =~= at_key(ev, "packageJson"@, package_json_updater(dep@, strings_view(olds@), resolved@)));
        },
        None => {},
    }
    update_key_array(es, "optionalDependencies", dep, olds, resolved);
    update_key_array(es, "peerDependencies", dep, olds, resolved);
}

pub open spec fn arrays_fn(dep: Seq<char>, olds: Seq<Seq<char>>, resolved: Seq<char>) -> spec_fn(
    Seq<(Seq<char>, JsonView)>,
) -> Seq<(Seq<char>, JsonView)> {
    |o: Seq<(Seq<char>, JsonView)>| dep_arrays(o, dep, olds, resolved)
}

/// Every member of the workspace with its lists updated.
pub open spec fn members_update(
    ms: Seq<(Seq<char>, JsonView)>,
    dep: Seq<char>,
    olds: Seq<Seq<char>>,
    resolved: Seq<char>,
) -> Seq<(Seq<char>, JsonView)> {
    Seq::new(ms.len(), |i: int| (ms[i].0, on_object(ms[i].1, arrays_fn(dep, olds, resolved))))
}

/// The first pass over the links: each link whose key is a specifier of `dep` at
/// an old version is taken out, with its new key, in the order of the keys.
pub open spec fn links_take(
    cur: Seq<(Seq<char>, JsonView)>,
    keys: Seq<Seq<char>>,
    dep: Seq<char>,
    olds: Seq<Seq<char>>,
    resolved: Seq<char>,
) -> (Seq<(Seq<char>, JsonView)>, Seq<(Seq<char>, JsonView)>)
    decreases keys.len(),
{
    if keys.len() == 0 {
        (cur, seq![])
    } else {
        let step = match updated_specifier(keys[0], dep, olds, resolved) {
            Some(nk) => match obj_get(cur, keys[0]) {
                Some(v) => (obj_remove(cur, keys[0]), seq![(nk, v)]),
                None => (cur, Seq::<(Seq<char>, JsonView)>::empty()),
            },
            None => (cur, Seq::<(Seq<char>, JsonView)>::empty()),
        };
        let rest = links_take(step.0, keys.drop_first(), dep, olds, resolved);
        (rest.0, step.1 + rest.1)
    }
}

/// The second pass: each taken link, its lists updated, put back under its new key.
pub open spec fn links_put(
    cur: Seq<(Seq<char>, JsonView)>,
    queue: Seq<(Seq<char>, JsonView)>,
    dep: Seq<char>,
    olds: Seq<Seq<char>>,
    resolved: Seq<char>,
) -> Seq<(Seq<char>, JsonView)>
    decreases queue.len(),
{
    if queue.len() == 0 {
        cur
    } else {
        links_put(
            obj_insert(cur, queue[0].0, on_object(queue[0].1, arrays_fn(dep, olds, resolved))),
            queue.drop_first(),
            dep,
            olds,
            resolved,
        )
    }
}

pub open spec fn keys_of(es: Seq<(Seq<char>, JsonView)>) -> Seq<Seq<char>> {
    Seq::new(es.len(), |i: int| es[i].0)
}

/// The links of the workspace, renamed and updated.
pub open spec fn links_update(
    ls: Seq<(Seq<char>, JsonView)>,
    dep: Seq<char>,
    olds: Seq<Seq<char>>,
    resolved: Seq<char>,
) -> Seq<(Seq<char>, JsonView)> {
    let taken = links_take(ls, keys_of(ls), dep, olds, resolved);
    links_put(taken.0, taken.1, dep, olds, resolved)
}

pub open spec fn members_fn(dep: Seq<char>, olds: Seq<Seq<char>>, resolved: Seq<char>) -> spec_fn(JsonView) -> JsonView {
    |m: JsonView| on_object(m, |ms: Seq<(Seq<char>, JsonView)>| members_update(ms, dep, olds, resolved))
}

pub open spec fn links_fn(dep: Seq<char>, olds: Seq<Seq<char>>, resolved: Seq<char>) -> spec_fn(JsonView) -> JsonView {
    |l: JsonView| on_object(l, |ls: Seq<(Seq<char>, JsonView)>| links_update(ls, dep, olds, resolved))
}

/// The workspace: its own lists, its members' and its links'.
pub open spec fn workspace_update(
    ws: Seq<(Seq<char>, JsonView)>,
    dep: Seq<char>,
    olds: Seq<Seq<char>>,
    resolved: Seq<char>,
) -> Seq<(Seq<char>, JsonView)> {
    let w1 = dep_arrays(ws, dep, olds, resolved);
    let w2 = at_key(w1, "members"@, members_fn(dep, olds, resolved));
    at_key(w2, "links"@, links_fn(dep, olds, resolved))
}

/// `Map::remove` with `preserve_order`.
fn remove_entry(es: &mut Vec<(String, Json)>, k: &str) -> (r: Option<Json>)
    ensures
        entries_view(final(es)@) == crate::json::obj_remove(entries_view(old(es)@), k@),
        match r {
            Some(v) => obj_get(entries_view(old(es)@), k@) == Some(v@),
            None => obj_get(entries_view(old(es)@), k@) is None,
        },
{
    let ghost ev = entries_view(es@);
    match find_key(es, k) {
        Some(i) => {
            let ghost before = es@;
            let (_, v) = es.swap_remove(i);
            assert(entries_view(es@) =~= crate::json::obj_remove(ev, k@));
            Some(v)
        },
        None => None,
    }
}

/// Updates the lists of every member.
fn members_exec(ms: &mut Vec<(String, Json)>, dep: &str, olds: &Vec<String>, resolved: &str)
    ensures
        entries_view(final(ms)@) == members_update(entries_view(old(ms)@), dep@, strings_view(olds@), resolved@),
{
    let ghost orig = entries_view(ms@);
    let ghost f = arrays_fn(dep@, strings_view(olds@), resolved@);
    let mut i: usize = 0;
    while i < ms.len()
        invariant
            i <= ms.len(),
            ms@.len() == orig.len(),
            f == arrays_fn(dep@, strings_view(olds@), resolved@),
            entries_view(ms@) == Seq::new(orig.len(), |j: int| if j < i { (orig[j].0, on_object(orig[j].1, f)) } else { orig[j] }),
        decreases ms.len() - i,
    {
        let (k, v) = take_entry(ms, i);
        let nv = match v {
            Json::Object(mut o) => {
                proof {
                    lemma_object_view(o);
                }
                dep_arrays_exec(&mut o, dep, olds, resolved);
                proof {
                    lemma_object_view(o);
                }
                Json::Object(o)
            },
            other => other,
        };
        put_entry(ms, i, (k, nv));
        assert(entries_view(ms@) =~= Seq::new(orig.len(), |j: int| if j < i + 1 { (orig[j].0, on_object(orig[j].1, f)) } else { orig[j] }));
        i = i + 1;
    }
    assert(entries_view(ms@) =~= members_update(orig, dep@, strings_view(olds@), resolved@));
}

/// Renames and updates the links.
fn links_exec(ls: &mut Vec<(String, Json)>, dep: &str, olds: &Vec<String>, resolved: &str)
    ensures
        entries_view(final(ls)@) == links_update(entries_view(old(ls)@), dep@, strings_view(olds@), resolved@),
{
    let ghost orig = entries_view(ls@);
    let ghost ov = strings_view(olds@);
    let mut keys: Vec<String> = Vec::new();
    let mut i: usize = 0;
    while i < ls.len()
        invariant
            i <= ls.len(),
            orig == entries_view(ls@),
            strings_view(keys@) == keys_of(orig).take(i as int),
        decreases ls.len() - i,
    {
        let ghost before = keys@;
        let key = ls[i].0.clone();
        keys.push(key);
        assert(strings_view(keys@) =~= strings_view(before).push(key@));
        assert(keys_of(orig).take(i + 1) =~= keys_of(orig).take(i as int).push(orig[i as int].0));
        i = i + 1;
    }
    assert(keys_of(orig).take(i as int) =~= keys_of(orig));
    let ghost ks = strings_view(keys@);
    let ghost total = links_take(orig, ks, dep@, ov, resolved@);
    let mut queue: Vec<(String, Json)> = Vec::new();
    let mut k: usize = 0;
    assert(ks.skip(0) =~= ks);
    assert(entries_view(queue@) + total.1 =~= total.1);
    while k < keys.len()
        invariant
            k <= keys.len(),
            ks == strings_view(keys@),
            ov == strings_view(olds@),
            links_take(entries_view(ls@), ks.skip(k as int), dep@, ov, resolved@).0 == total.0,
            entries_view(queue@) + links_take(entries_view(ls@), ks.skip(k as int), dep@, ov, resolved@).1 == total.1,
        decreases keys.len() - k,
    {
        let ghost cur = entries_view(ls@);
        let ghost q0 = entries_view(queue@);
        assert(ks.skip(k as int)[0] == keys@[k as int]@);
        assert(ks.skip(k as int).drop_first() =~= ks.skip(k + 1));
        match updated_specifier_exec(keys[k].as_str(), dep, olds, resolved) {
            Some(nk) => match remove_entry(ls, keys[k].as_str()) {
                Some(v) => {
                    let ghost before = queue@;
                    let ghost e = (nk, v);
                    queue.push((nk, v));
                    proof {
                        crate::json::lemma_entries_push(before, e);
                    }
                },
                None => {},
            },
            None => {},
        }
        k = k + 1;
    }
    assert(ks.skip(k as int).len() == 0);
    assert(entries_view(queue@) =~= total.1);
    let ghost target = links_put(total.0, total.1, dep@, ov, resolved@);
    while queue.len() > 0
        invariant
            ov == strings_view(olds@),
            links_put(entries_view(ls@), entries_view(queue@), dep@, ov, resolved@) == target,
        decreases queue.len(),
    {
        let ghost qv = entries_view(queue@);
        let (nk, v) = queue.remove(0);
        assert(entries_view(queue@) =~= qv.drop_first());
        let nv = match v {
            Json::Object(mut o) => {
                proof {
                    lemma_object_view(o);
                }
                dep_arrays_exec(&mut o, dep, olds, resolved);
                proof {
                    lemma_object_view(o);
                }
                Json::Object(o)
            },
            other => other,
        };
        insert_entry(ls, nk, nv);
    }
    assert(links_update(orig, dep@, ov, resolved@) == target);
}

/// Updates the workspace.
fn workspace_exec(ws: &mut Vec<(String, Json)>, dep: &str, olds: &Vec<String>, resolved: &str)
    ensures
        entries_view(final(ws)@) == workspace_update(entries_view(old(ws)@), dep@, strings_view(olds@), resolved@),
{
    dep_arrays_exec(ws, dep, olds, resolved);
    let ghost w1 = entries_view(ws@);
    match find_key(ws, "members") {
        Some(i) => {
            proof {
                lemma_obj_find(w1, "members"@);
            }
            let (k, v) = take_entry(ws, i);
            let nv = match v {
                Json::Object(mut ms) => {
                    proof {
                        lemma_object_view(ms);
                    }
                    members_exec(&mut ms, dep, olds, resolved);
                    proof {
                        lemma_object_view(ms);
                    }
                    Json::Object(ms)
                },
                other => other,
            };
            put_entry(ws, i, (k, nv));
            assert(entries_view(ws@) =~= at_key(w1, "members"@, members_fn(dep@, strings_view(olds@), resolved@)));
        },
        None => {},
    }
    let ghost w2 = entries_view(ws@);
    match find_key(ws, "links") {
        Some(i) => {
            proof {
                lemma_obj_find(w2, "links"@);
            }
            let (k, v) = take_entry(ws, i);
            let nv = match v {
                Json::Object(mut ls) => {
                    proof {
                        lemma_object_view(ls);
                    }
                    links_exec(&mut ls, dep, olds, resolved);
                    proof {
                        lemma_object_view(ls);
                    }
                    Json::Object(ls)
                },
                other => other,
            };
            put_entry(ws, i, (k, nv));
            assert(entries_view(ws@) =~= at_key(w2, "links"@, links_fn(dep@, strings_view(olds@), resolved@)));
        },
        None => {},
    }
}

// ---------------------------------------------------------------------------
// Registry entries
// ---------------------------------------------------------------------------

/// The keys `name@version` of the registry entries of `dep` at an old version, in order.
pub open spec fn registry_keys(es: Seq<(Seq<char>, JsonView)>, dep: Seq<char>, olds: Seq<Seq<char>>) -> Seq<Seq<char>>
    decreases es.len(),
{
    if es.len() == 0 {
        seq![]
    } else {
        let prev = registry_keys(es.drop_last(), dep, olds);
        match nv_of(es.last().0) {
            Some((n, v)) => if n == dep && olds.contains(v) {
                prev.push(es.last().0)
            } else {
                prev
            },
            None => prev,
        }
    }
}

/// The new key of a registry entry.
pub open spec fn new_key(k: Seq<char>, dep: Seq<char>, resolved: Seq<char>) -> Seq<char> {
    match nv_with_version(k, resolved) {
        Some(s) => s,
        None => dep + "@"@ + resolved,
    }
}

/// Each of the keys, in order, taken out and put back under its new key.
pub open spec fn rename_all(
    cur: Seq<(Seq<char>, JsonView)>,
    keys: Seq<Seq<char>>,
    dep: Seq<char>,
    resolved: Seq<char>,
) -> Seq<(Seq<char>, JsonView)>
    decreases keys.len(),
{
    if keys.len() == 0 {
        cur
    } else {
        let next = match obj_get(cur, keys[0]) {
            Some(v) => obj_insert(obj_remove(cur, keys[0]), new_key(keys[0], dep, resolved), v),
            None => cur,
        };
        rename_all(next, keys.drop_first(), dep, resolved)
    }
}

pub open spec fn registry_fn(dep: Seq<char>, olds: Seq<Seq<char>>, resolved: Seq<char>) -> spec_fn(JsonView) -> JsonView {
    |s: JsonView| on_object(s, |se: Seq<(Seq<char>, JsonView)>| rename_all(se, registry_keys(se, dep, olds), dep, resolved))
}

/// Renames the registry entries of `dep` at an old version in `section`.
fn registry_exec(root: &mut Vec<(String, Json)>, section: &str, dep: &str, olds: &Vec<String>, resolved: &str)
    ensures
        entries_view(final(root)@) == at_key(entries_view(old(root)@), section@, registry_fn(dep@, strings_view(olds@), resolved@)),
{
    let ghost rv = entries_view(root@);
    let ghost ov = strings_view(olds@);
    match find_key(root, section) {
        Some(i) => {
            proof {
                lemma_obj_find(rv, section@);
            }
            let (k, v) = take_entry(root, i);
            let nv = match v {
                Json::Object(mut se) => {
                    proof {
                        lemma_object_view(se);
                    }
                    let ghost sv = entries_view(se@);
                    let mut keys: Vec<String> = Vec::new();
                    let mut j: usize = 0;
                    let dep_chars = chars_of(dep);
                    while j < se.len()
                        invariant
                            j <= se.len(),
                            sv == entries_view(se@),
                            dep_chars@ == dep@,
                            ov == strings_view(olds@),
                            strings_view(keys@) == registry_keys(sv.take(j as int), dep@, ov),
                        decreases se.len() - j,
                    {
                        assert(sv.take(j + 1).drop_last() =~= sv.take(j as int));
                        assert(sv.take(j + 1).last() == sv[j as int]);
                        match parse_nv(se[j].0.as_str()) {
                            Some((n, ver)) => {
                                if chars_eq(&chars_of(n.as_str()), &dep_chars) && contains_string(olds, ver.as_str()) {
                                    let ghost before = keys@;
                                    let key = se[j].0.clone();
                                    keys.push(key);
                                    assert(strings_view(keys@) =~= strings_view(before).push(key@));
                                }
                            },
                            None => {},
                        }
                        j = j + 1;
                    }
                    assert(sv.take(j as int) =~= sv);
                    let ghost ks = strings_view(keys@);
                    let ghost target = rename_all(sv, ks, dep@, resolved@);
                    let mut m: usize = 0;
                    assert(ks.skip(0) =~= ks);
                    while m < keys.len()
                        invariant
                            m <= keys.len(),
                            ks == strings_view(keys@),
                            rename_all(entries_view(se@), ks.skip(m as int), dep@, resolved@) == target,
                        decreases keys.len() - m,
                    {
                        assert(ks.skip(m as int)[0] == keys@[m as int]@);
                        assert(ks.skip(m as int).drop_first() =~= ks.skip(m + 1));
                        match remove_entry(&mut se, keys[m].as_str()) {
                            Some(value) => {
                                let nk = match nv_with_new_version(keys[m].as_str(), resolved) {
                                    Some(s) => s,
                                    None => {
                                        let mut t = chars_of(dep);
                                        push_str(&mut t, "@");
                                        push_str(&mut t, resolved);
                                        string_of(&t)
                                    },
                                };
                                insert_entry(&mut se, nk, value);
                            },
                            None => {},
                        }
                        m = m + 1;
                    }
                    assert(ks.skip(m as int).len() == 0);
                    proof {
                        lemma_object_view(se);
                    }
                    Json::Object(se)
                },
                other => other,
            };
            put_entry(root, i, (k, nv));
            assert(entries_view(root@) =~= at_key(rv, section@, registry_fn(dep@, ov, resolved@)));
        },
        None => {},
    }
}

// ---------------------------------------------------------------------------
// Specifiers
// ---------------------------------------------------------------------------

/// A specifier of `dep` resolved to a version.
pub open spec fn resolves_dep(e: (Seq<char>, JsonView), dep: Seq<char>) -> bool {
    match dep_req_of(e.0) {
        Some(r) => r.name == dep && e.1 is Str,
        None => false,
    }
}

/// What the specifiers of `dep` tell: the old versions (each resolved version
/// and each requirement's text), and whether there are JSR and npm ones.
pub open spec fn scan(es: Seq<(Seq<char>, JsonView)>, dep: Seq<char>) -> (Seq<Seq<char>>, bool, bool)
    decreases es.len(),
{
    if es.len() == 0 {
        (seq![], false, false)
    } else {
        let p = scan(es.drop_last(), dep);
        let e = es.last();
        if resolves_dep(e, dep) {
            let r = dep_req_of(e.0)->0;
            let resolved = e.1->Str_0;
            (p.0.push(resolved).push(r.version_text), p.1 || !r.npm, p.2 || r.npm)
        } else {
            p
        }
    }
}

/// The specifiers with those of `dep` resolved to `v`.
pub open spec fn specifiers_set(es: Seq<(Seq<char>, JsonView)>, dep: Seq<char>, v: Seq<char>) -> Seq<(Seq<char>, JsonView)> {
    Seq::new(es.len(), |i: int| if resolves_dep(es[i], dep) { (es[i].0, JsonView::Str(v)) } else { es[i] })
}

pub open spec fn specifiers_fn(dep: Seq<char>, v: Seq<char>) -> spec_fn(JsonView) -> JsonView {
    |j: JsonView| on_object(j, |es: Seq<(Seq<char>, JsonView)>| specifiers_set(es, dep, v))
}

pub open spec fn workspace_fn(dep: Seq<char>, olds: Seq<Seq<char>>, resolved: Seq<char>) -> spec_fn(JsonView) -> JsonView {
    |w: JsonView| on_object(w, |ws: Seq<(Seq<char>, JsonView)>| workspace_update(ws, dep, olds, resolved))
}

/// The lock file's entries with `dep` at version `v`: its specifiers, its
/// registry entries (JSR and npm, where its specifiers are) and its workspace;
/// `None` where no specifier of `dep` is there.
pub open spec fn lock_set(json: Seq<(Seq<char>, JsonView)>, dep: Seq<char>, v: Seq<char>) -> Option<Seq<(Seq<char>, JsonView)>> {
    match obj_get(json, "specifiers"@) {
        Some(JsonView::Object(sp)) => {
            let (olds, jsr, npm) = scan(sp, dep);
            if olds.len() == 0 {
                None
            } else {
                let j1 = at_key(json, "specifiers"@, specifiers_fn(dep, v));
                let j2 = if jsr {
                    at_key(j1, "jsr"@, registry_fn(dep, olds, v))
                } else {
                    j1
                };
                let j3 = if npm {
                    at_key(j2, "npm"@, registry_fn(dep, olds, v))
                } else {
                    j2
                };
                Some(at_key(j3, "workspace"@, workspace_fn(dep, olds, v)))
            }
        },
        _ => None,
    }
}

/// Resolves the specifiers of `dep` to `v`; gives the old versions and whether
/// there are JSR and npm ones.
fn specifiers_exec(sp: &mut Vec<(String, Json)>, dep: &str, v: &str) -> (r: (Vec<String>, bool, bool))
    ensures
        entries_view(final(sp)@) == specifiers_set(entries_view(old(sp)@), dep@, v@),
        (strings_view(r.0@), r.1, r.2) == scan(entries_view(old(sp)@), dep@),
{
    let ghost orig = entries_view(sp@);
    let dep_chars = chars_of(dep);
    let mut olds: Vec<String> = Vec::new();
    let mut jsr = false;
    let mut npm = false;
    let mut i: usize = 0;
    while i < sp.len()
        invariant
            i <= sp.len(),
            sp@.len() == orig.len(),
            dep_chars@ == dep@,
            entries_view(sp@) == Seq::new(
                orig.len(),
                |j: int| if j < i { if resolves_dep(orig[j], dep@) { (orig[j].0, JsonView::Str(v@)) } else { orig[j] } } else { orig[j] },
            ),
            (strings_view(olds@), jsr, npm) == scan(orig.take(i as int), dep@),
        decreases sp.len() - i,
    {
        assert(orig.take(i + 1).drop_last() =~= orig.take(i as int));
        assert(orig.take(i + 1).last() == orig[i as int]);
        let (k, value) = take_entry(sp, i);
        let req = parse_dep_req(k.as_str());
        let nv = match (req, value) {
            (Some(r), Json::Str(resolved)) => {
                if chars_eq(&chars_of(r.name.as_str()), &dep_chars) {
                    let ghost before = olds@;
                    olds.push(resolved);
                    let vt = r.version_text;
                    olds.push(vt);
                    assert(strings_view(olds@) =~= strings_view(before).push(resolved@).push(vt@));
                    if r.npm {
                        npm = true;
                    } else {
                        jsr = true;
                    }
                    Json::Str(string_of(&chars_of(v)))
                } else {
                    Json::Str(resolved)
                }
            },
            (_, other) => other,
        };
        put_entry(sp, i, (k, nv));
        assert(entries_view(sp@) =~= Seq::new(
            orig.len(),
            |j: int| if j < i + 1 { if resolves_dep(orig[j], dep@) { (orig[j].0, JsonView::Str(v@)) } else { orig[j] } } else { orig[j] },
        ));
        i = i + 1;
    }
    assert(orig.take(i as int) =~= orig);
    assert(entries_view(sp@) =~= specifiers_set(orig, dep@, v@));
    (olds, jsr, npm)
}

// ---------------------------------------------------------------------------
// The lock file
// ---------------------------------------------------------------------------

/// Why a deno.lock could not be read or edited.
#[derive(Debug)]
pub enum Error {
    /// Error deserializing the file: the path and the message.
    Deserialize { path: String, source: String },
    /// Unsupported lockfile version.
    UnsupportedVersion { path: String, version: String },
    /// A lockfile version that requires npm package metadata, which is not supported yet.
    LegacyLockfileNeedsNpmInfo { path: String, version: String },
    /// Error deserializing the lockfile content: the path and the message.
    LockfileDeserialize { path: String, source: String },
    /// The lockfile did not contain a valid Deno packages structure.
    UnexpectedStructure(String),
    /// Invalid version for a Deno dependency: the version and the message.
    InvalidVersion { version: String, source: String },
}

/// A deno.lock file: its entries, as `deno_lockfile` writes them, and its text.
#[derive(Debug)]
pub struct DenoLock {
    pub path: String,
    pub json: Vec<(String, Json)>,
    pub content: String,
    pub diff: Option<String>,
}

/// A lockfile version before 5, which `deno_lockfile` can only read with npm
/// metadata.
pub open spec fn is_legacy(v: Option<Seq<char>>) -> bool {
    match v {
        None => true,
        Some(s) => s == "4"@ || s == "3"@ || s == "2"@ || s == "1"@,
    }
}

/// Whether a deno.lock is read: it reads as a JSON object of version 5 whose
/// content `deno_lockfile` reads.
pub open spec fn deno_lock_reads(content: Seq<char>) -> bool {
    match json_parse(content) {
        Some(JsonView::Object(es)) => str_at(es, "version"@) == Some("5"@) && lock_reads(JsonView::Object(es)),
        _ => false,
    }
}

proof fn lemma_five_not_legacy()
    ensures
        !is_legacy(Some("5"@)),
{
    reveal_strlit("5");
    reveal_strlit("4");
    reveal_strlit("3");
    reveal_strlit("2");
    reveal_strlit("1");
    assert("5"@[0] != "4"@[0]);
    assert("5"@[0] != "3"@[0]);
    assert("5"@[0] != "2"@[0]);
    assert("5"@[0] != "1"@[0]);
}

/// The entries of a text that reads as a JSON object.
pub open spec fn lock_object(content: Seq<char>) -> Option<Seq<(Seq<char>, JsonView)>> {
    match json_parse(content) {
        Some(JsonView::Object(es)) => Some(es),
        _ => None,
    }
}

impl DenoLock {
    /// What `new` gives.
    pub open spec fn new_spec(path: Seq<char>, content: Seq<char>, r: Result<DenoLock, Error>) -> bool {
        &&& match r {
                    Ok(d) => deno_lock_reads(content) && json_parse(d.content@) == Some(
                        JsonView::Object(entries_view(d.json@)),
                    ) && d.path@ == (path) && d.diff is None,
                    Err(Error::LegacyLockfileNeedsNpmInfo { version, path: p }) => p@ == path && version@ == (match lock_object(content) {
                        Some(es) => match str_at(es, "version"@) {
                            Some(s) => s,
                            None => "1"@,
                        },
                        None => "1"@,
                    }),
                    Err(Error::UnsupportedVersion { version, path: p }) => p@ == path && (lock_object(content) matches Some(es)
                        && str_at(es, "version"@) == Some(version@)),
                    Err(Error::Deserialize { path: p, .. }) => p@ == path,
                    Err(Error::UnexpectedStructure(p)) => p@ == path,
                    Err(Error::LockfileDeserialize { path: p, .. }) => p@ == path,
                    Err(_) => false,
                }
        &&& (r is Ok) == deno_lock_reads(content)
        &&& (r matches Err(Error::Deserialize { .. })) == (json_parse(content) is None)
        &&& (r matches Err(Error::UnexpectedStructure(_))) == (json_parse(content) matches Some(j) && !(j is Object))
        &&& (r matches Err(Error::LegacyLockfileNeedsNpmInfo { .. })) == (lock_object(content) matches Some(es) && is_legacy(
            str_at(es, "version"@),
        ))
        &&& (r matches Err(Error::UnsupportedVersion { .. })) == (lock_object(content) matches Some(es) && str_at(
            es,
            "version"@,
        ) matches Some(v) && !is_legacy(Some(v)) && v != "5"@)
        &&& (r matches Err(Error::LockfileDeserialize { .. })) == (lock_object(content) matches Some(es) && str_at(
            es,
            "version"@,
        ) == Some("5"@) && !lock_reads(JsonView::Object(es)))
    }

    /// Reads a deno.lock of version 5.
    pub fn new(path: String, content: &str) -> (r: Result<DenoLock, Error>)
        ensures
            Self::new_spec(path@, content@, r),
    {
        let json = match parse_json(content) {
            Ok(j) => j,
            Err(source) => return Err(Error::Deserialize { path, source }),
        };
        let es = match json {
            Json::Object(es) => es,
            _ => return Err(Error::UnexpectedStructure(path)),
        };
        proof {
            lemma_object_view(es);
        }
        let version = crate::json::get_str(&es, "version");
        let is_five = match &version {
            Some(v) => chars_eq(&chars_of(v.as_str()), &chars_of("5")),
            None => false,
        };
        if !is_five {
            let legacy = match &version {
                None => true,
                Some(v) => {
                    let c = chars_of(v.as_str());
                    chars_eq(&c, &chars_of("4")) || chars_eq(&c, &chars_of("3")) || chars_eq(&c, &chars_of("2"))
                        || chars_eq(&c, &chars_of("1"))
                },
            };
            if legacy {
                let shown = match version {
                    Some(v) => v,
                    None => string_of(&chars_of("1")),
                };
                return Err(Error::LegacyLockfileNeedsNpmInfo { path, version: shown });
            }
            return Err(Error::UnsupportedVersion { path, version: version.unwrap() });
        }
        let ghost ev = entries_view(es@);
        let whole = Json::Object(es);
        proof {
            lemma_object_view(es);
            lemma_five_not_legacy();
            assert(lock_object(content@) == Some(ev));
            assert(str_at(ev, "version"@) == Some("5"@));
        }
        let text = match read_lock_text(&whole) {
            Ok(t) => t,
            Err(source) => {
                proof {
                    assert(!lock_reads(JsonView::Object(ev)));
                    assert(!is_legacy(str_at(ev, "version"@)));
                }
                return Err(Error::LockfileDeserialize { path, source });
            },
        };
        let canonical = match parse_json(text.as_str()) {
            Ok(j) => j,
            Err(source) => return Err(Error::Deserialize { path, source }),
        };
        match canonical {
            Json::Object(map) => {
                proof {
                    lemma_object_view(map);
                }
                Ok(DenoLock { path, json: map, content: text, diff: None })
            },
            _ => Err(Error::UnexpectedStructure(path)),
        }
    }

    pub fn get_path(&self) -> (r: &String)
        ensures
            r@ == self.path@,
    {
        &self.path
    }

    /// What `set_version` gives.
    pub open spec fn set_version_spec(self, new_version: VersionView, dependency: Option<Seq<char>>, r: Result<DenoLock, Error>) -> bool {
        &&& match dependency {
                    None => r matches Ok(d) && entries_view(d.json@) == entries_view(self.json@) && d.content@ == self.content@
                        && opt_text(d.diff) == opt_text(self.diff) && d.path@ == self.path@,
                    Some(dep) => match lock_set(entries_view(self.json@), dep, version_text(new_version)) {
                        None => r matches Ok(d) && entries_view(d.json@) == entries_view(self.json@) && d.content@ == self.content@
                            && opt_text(d.diff) == opt_text(self.diff) && d.path@ == self.path@,
                        Some(j) => match r {
                            Ok(d) => {
                                &&& deno_version_ok(version_text(new_version))
                                &&& entries_view(d.json@) == j
                                &&& lock_reads(JsonView::Object(j))
                                &&& is_object_text(d.content@)
                                &&& opt_text(d.diff) == Some(diff_with(opt_text(self.diff), dep + " = "@ + version_text(new_version)))
                                &&& d.path@ == self.path@
                            },
                            Err(Error::InvalidVersion { version, .. }) => !deno_version_ok(version_text(new_version))
                                && version@ == version_text(new_version),
                            Err(Error::LockfileDeserialize { path, .. }) => deno_version_ok(version_text(new_version))
                                && !lock_reads(JsonView::Object(j)) && path@ == self.path@,
                            Err(_) => false,
                        },
                    },
                }
    }

    /// Sets the version of a dependency: its specifiers resolve to the new version,
    /// its registry entries and the workspace's lists follow, and the lock file
    /// is read again as `deno_lockfile` content. Without a dependency, or where
    /// no specifier of it is there, nothing changes.
    #[verifier::rlimit(40)]
    pub fn set_version(self, new_version: &Version, dependency: Option<&str>) -> (r: Result<DenoLock, Error>)
        ensures
            self.set_version_spec(new_version@, super::opt_str(dependency), r),
    {
        let dep = match dependency {
            Some(d) => d,
            None => return Ok(self),
        };
        let DenoLock { path, mut json, content, mut diff } = self;
        let ghost j0 = entries_view(json@);
        let i = match find_key(&json, "specifiers") {
            Some(i) => i,
            None => return Ok(DenoLock { path, json, content, diff }),
        };
        proof {
            lemma_obj_find(j0, "specifiers"@);
        }
        let mut vt: Vec<char> = Vec::new();
        new_version.write_to(&mut vt);
        let resolved = string_of(&vt);
        let (k, value) = take_entry(&mut json, i);
        let mut sp = match value {
            Json::Object(sp) => sp,
            other => {
                put_entry(&mut json, i, (k, other));
                assert(entries_view(json@) =~= j0);
                return Ok(DenoLock { path, json, content, diff });
            },
        };
        proof {
            lemma_object_view(sp);
        }
        let ghost sv = entries_view(sp@);
        let (olds, jsr, npm) = specifiers_exec(&mut sp, dep, resolved.as_str());
        if olds.len() == 0 {
            proof {
                lemma_object_view(sp);
            }
            // Nothing resolved to `dep`: the specifiers are as they were.
            assert(entries_view(sp@) =~= sv) by {
                assert forall|x: int| 0 <= x < sv.len() implies !resolves_dep(sv[x], dep@) by {
                    lemma_scan_none(sv, dep@, x);
                }
            }
            put_entry(&mut json, i, (k, Json::Object(sp)));
            assert(entries_view(json@) =~= j0);
            return Ok(DenoLock { path, json, content, diff });
        }
        match check_deno_version(resolved.as_str()) {
            Ok(()) => {},
            Err(source) => return Err(Error::InvalidVersion { version: resolved, source }),
        }
        let spj = Json::Object(sp);
        proof {
            lemma_object_view(sp);
        }
        put_entry(&mut json, i, (k, spj));
        assert(entries_view(json@) =~= at_key(j0, "specifiers"@, specifiers_fn(dep@, resolved@)));
        if jsr {
            registry_exec(&mut json, "jsr", dep, &olds, resolved.as_str());
        }
        if npm {
            registry_exec(&mut json, "npm", dep, &olds, resolved.as_str());
        }
        let ghost j3 = entries_view(json@);
        match find_key(&json, "workspace") {
            Some(w) => {
                proof {
                    lemma_obj_find(j3, "workspace"@);
                }
                let (wk, wv) = take_entry(&mut json, w);
                let nw = match wv {
                    Json::Object(mut ws) => {
                        proof {
                            lemma_object_view(ws);
                        }
                        workspace_exec(&mut ws, dep, &olds, resolved.as_str());
                        proof {
                            lemma_object_view(ws);
                        }
                        Json::Object(ws)
                    },
                    other => other,
                };
                put_entry(&mut json, w, (wk, nw));
                assert(entries_view(json@) =~= at_key(j3, "workspace"@, workspace_fn(dep@, strings_view(olds@), resolved@)));
            },
            None => {},
        }
        let whole = Json::Object(json);
        proof {
            lemma_object_view(json);
        }
        let text = match read_lock_text(&whole) {
            Ok(t) => t,
            Err(source) => return Err(Error::LockfileDeserialize { path, source }),
        };
        let json = match whole {
            Json::Object(es) => es,
            _ => Vec::new(),
        };
        push_diff(&mut diff, &super::diff_entry(dep, new_version));
        Ok(DenoLock { path, json, content: text, diff })
    }

    /// What `write` gives.
    pub open spec fn write_spec(self, r: Option<Action>) -> bool {
        &&& match self.diff {
                    Some(d) => r matches Some(a) && a@ == (ActionView::WriteToFile { path: self.path@, content: self.content@, diff: d@ }),
                    None => r is None,
                }
    }

    /// The action that writes the file, if a version was set.
    pub fn write(self) -> (r: Option<Action>)
        ensures
            self.write_spec(r),
    {
        match self.diff {
            Some(diff) => Some(Action::WriteToFile { path: self.path, content: self.content, diff }),
            None => None,
        }
    }
}

/// Where `scan` finds no old version, no specifier resolves `dep`.
proof fn lemma_scan_none(es: Seq<(Seq<char>, JsonView)>, dep: Seq<char>, x: int)
    requires
        scan(es, dep).0.len() == 0,
        0 <= x < es.len(),
    ensures
        !resolves_dep(es[x], dep),
    decreases es.len(),
{
    if es.len() > 0 {
        let d = es.drop_last();
        if resolves_dep(es.last(), dep) {
        } else if x < es.len() - 1 {
            assert(d[x] == es[x]);
            lemma_scan_none(d, dep, x);
        }
    }
}

} // verus!
