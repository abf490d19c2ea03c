//! JSON values, held the way `serde_json` holds them with `preserve_order`:
//! objects keep their keys in insertion order, inserting an existing key keeps
//! its place, and removing a key moves the last entry into its place.
//!
//! `serde_json` reads and writes the text; the edits are this module's.
use vstd::prelude::*;

use crate::text::{chars_eq, chars_of, string_of};

verus! {

#[verifier::external_type_specification]
#[verifier::external_body]
pub struct ExNumber(serde_json::Number);

#[verifier::external_type_specification]
#[verifier::external_body]
pub struct ExValue(serde_json::Value);

/// `Clone` of `serde_json::Number` (a derived `Clone`) gives an equal number.
pub assume_specification[ <serde_json::Number as Clone>::clone ](n: &serde_json::Number) -> (r: serde_json::Number)
    ensures
        r == *n,
;

/// A JSON value.
#[derive(Debug)]
pub enum Json {
    Null,
    Bool(bool),
    Number(serde_json::Number),
    Str(String),
    Array(Vec<Json>),
    Object(Vec<(String, Json)>),
}

/// The mathematical value of a [`Json`].
pub enum JsonView {
    Null,
    Bool(bool),
    Number(serde_json::Number),
    Str(Seq<char>),
    Array(Seq<JsonView>),
    Object(Seq<(Seq<char>, JsonView)>),
}

pub open spec fn json_view(j: Json) -> JsonView
    decreases j,
{
    match j {
        Json::Null => JsonView::Null,
        Json::Bool(b) => JsonView::Bool(b),
        Json::Number(n) => JsonView::Number(n),
        Json::Str(s) => JsonView::Str(s@),
        Json::Array(v) => JsonView::Array(
            Seq::new(
                v@.len(),
                |i: int|
                    if 0 <= i < v@.len() {
                        proof {
                            assert(decreases_to!(v => v@));
                            assert(decreases_to!(v@ => v@[i]));
                        }
                        json_view(v@[i])
                    } else {
                        JsonView::Null
                    },
            ),
        ),
        Json::Object(v) => JsonView::Object(
            Seq::new(
                v@.len(),
                |i: int|
                    if 0 <= i < v@.len() {
                        proof {
                            assert(decreases_to!(v => v@));
                            assert(decreases_to!(v@ => v@[i]));
                            assert(decreases_to!(v@[i] => v@[i].1));
                        }
                        (v@[i].0@, json_view(v@[i].1))
                    } else {
                        (Seq::<char>::empty(), JsonView::Null)
                    },
            ),
        ),
    }
}

impl View for Json {
    type V = JsonView;

    open spec fn view(&self) -> JsonView {
        json_view(*self)
    }
}

/// The entries of an object, by their views.
pub open spec fn entries_view(v: Seq<(String, Json)>) -> Seq<(Seq<char>, JsonView)> {
    Seq::new(v.len(), |i: int| (v[i].0@, v[i].1@))
}

pub open spec fn items_view(v: Seq<Json>) -> Seq<JsonView> {
    Seq::new(v.len(), |i: int| v[i]@)
}

pub proof fn lemma_items_push(s: Seq<Json>, x: Json)
    ensures
        items_view(s.push(x)) == items_view(s).push(x@),
{
    assert(items_view(s.push(x)) =~= items_view(s).push(x@));
}

pub proof fn lemma_entries_push(s: Seq<(String, Json)>, e: (String, Json))
    ensures
        entries_view(s.push(e)) == entries_view(s).push((e.0@, e.1@)),
{
    assert(entries_view(s.push(e)) =~= entries_view(s).push((e.0@, e.1@)));
}

pub proof fn lemma_object_view(v: Vec<(String, Json)>)
    ensures
        Json::Object(v)@ == JsonView::Object(entries_view(v@)),
{
    assert(entries_view(v@) =~= match json_view(Json::Object(v)) {
        JsonView::Object(s) => s,
        _ => Seq::empty(),
    });
}

pub proof fn lemma_array_view(v: Vec<Json>)
    ensures
        Json::Array(v)@ == JsonView::Array(items_view(v@)),
{
    assert(items_view(v@) =~= match json_view(Json::Array(v)) {
        JsonView::Array(s) => s,
        _ => Seq::empty(),
    });
}

// ---------------------------------------------------------------------------
// Reading and writing text
// ---------------------------------------------------------------------------

/// What `serde_json::from_str::<Value>` reads from a text: the value, or `None`
/// where the text is not JSON.
pub uninterp spec fn json_parse(s: Seq<char>) -> Option<JsonView>;

/// What `serde_json::to_string_pretty` writes for a value.
pub uninterp spec fn json_pretty(j: JsonView) -> Seq<char>;

/// Converts a `serde_json::Value` to a [`Json`], variant by variant.
#[verifier::external_body]
fn json_of_value(v: serde_json::Value) -> Json {
    match v {
        serde_json::Value::Null => Json::Null,
        serde_json::Value::Bool(b) => Json::Bool(b),
        serde_json::Value::Number(n) => Json::Number(n),
        serde_json::Value::String(s) => Json::Str(s),
        serde_json::Value::Array(a) => Json::Array(a.into_iter().map(json_of_value).collect()),
        serde_json::Value::Object(m) => Json::Object(m.into_iter().map(|(k, x)| (k, json_of_value(x))).collect()),
    }
}

/// Converts a [`Json`] to a `serde_json::Value`, variant by variant.
#[verifier::external_body]
pub(crate) fn value_of_json(j: &Json) -> serde_json::Value {
    match j {
        Json::Null => serde_json::Value::Null,
        Json::Bool(b) => serde_json::Value::Bool(*b),
        Json::Number(n) => serde_json::Value::Number(n.clone()),
        Json::Str(s) => serde_json::Value::String(s.clone()),
        Json::Array(a) => serde_json::Value::Array(a.iter().map(value_of_json).collect()),
        Json::Object(m) => serde_json::Value::Object(m.iter().map(|(k, x)| (k.clone(), value_of_json(x))).collect()),
    }
}

/// Calls `serde_json::from_str::<Value>` and converts what it reads; the value
/// is named `json_parse`. An error is given by its message.
#[verifier::external_body]
pub fn parse_json(s: &str) -> (r: Result<Json, String>)
    ensures
        r matches Ok(j) ==> json_parse(s@) == Some(j@),
        r is Err ==> json_parse(s@) is None,
{
    serde_json::from_str::<serde_json::Value>(s).map(json_of_value).map_err(|e| e.to_string())
}

/// Calls `serde_json::to_string_pretty` on the value; its text is named
/// `json_pretty`. Claimed too: it succeeds. Its documentation names two causes
/// of failure, a `Serialize` impl that decides to fail and a map with keys that
/// are not strings; `Value`'s impl only forwards to the serializer, and its
/// maps are keyed by strings, so neither arises for a `Value`.
#[verifier::external_body]
pub fn pretty_json(j: &Json) -> (r: Result<String, String>)
    ensures
        r is Ok,
        r matches Ok(s) ==> s@ == json_pretty(j@),
{
    serde_json::to_string_pretty(&value_of_json(j)).map_err(|e| e.to_string())
}

// ---------------------------------------------------------------------------
// Objects
// ---------------------------------------------------------------------------

/// Where the key `k` first stands among the entries.
pub open spec fn obj_find(es: Seq<(Seq<char>, JsonView)>, k: Seq<char>) -> Option<int>
    decreases es.len(),
{
    if es.len() == 0 {
        None
    } else if es.last().0 == k && obj_find(es.drop_last(), k) is None {
        Some(es.len() - 1)
    } else {
        obj_find(es.drop_last(), k)
    }
}

/// The value at key `k`.
pub open spec fn obj_get(es: Seq<(Seq<char>, JsonView)>, k: Seq<char>) -> Option<JsonView> {
    match obj_find(es, k) {
        Some(i) => Some(es[i].1),
        None => None,
    }
}

/// `Map::insert`: an existing key keeps its place and gets the new value; a new
/// key goes at the end.
pub open spec fn obj_insert(es: Seq<(Seq<char>, JsonView)>, k: Seq<char>, v: JsonView) -> Seq<(Seq<char>, JsonView)> {
    match obj_find(es, k) {
        Some(i) => es.update(i, (k, v)),
        None => es.push((k, v)),
    }
}

/// `Map::remove` with `preserve_order`: the last entry takes the place of the
/// removed one.
pub open spec fn obj_remove(es: Seq<(Seq<char>, JsonView)>, k: Seq<char>) -> Seq<(Seq<char>, JsonView)> {
    match obj_find(es, k) {
        Some(i) => if i == es.len() - 1 {
            es.drop_last()
        } else {
            es.drop_last().update(i, es.last())
        },
        None => es,
    }
}

pub proof fn lemma_obj_find(es: Seq<(Seq<char>, JsonView)>, k: Seq<char>)
    ensures
        match obj_find(es, k) {
            Some(i) => 0 <= i < es.len() && es[i].0 == k && forall|j: int| 0 <= j < i ==> es[j].0 != k,
            None => forall|j: int| 0 <= j < es.len() ==> es[j].0 != k,
        },
    decreases es.len(),
{
    if es.len() > 0 {
        let d = es.drop_last();
        lemma_obj_find(d, k);
        assert forall|j: int| 0 <= j < d.len() implies d[j] == es[j] by {}
    }
}

/// Where `k` first stands among the entries, from the left.
pub open spec fn first_key(es: Seq<(Seq<char>, JsonView)>, k: Seq<char>, i: int) -> bool {
    0 <= i < es.len() && es[i].0 == k && forall|j: int| 0 <= j < i ==> es[j].0 != k
}

pub proof fn lemma_obj_find_first(es: Seq<(Seq<char>, JsonView)>, k: Seq<char>, i: int)
    requires
        first_key(es, k, i),
    ensures
        obj_find(es, k) == Some(i),
{
    lemma_obj_find(es, k);
    match obj_find(es, k) {
        Some(j) => {
            if j < i {
                assert(es[j].0 != k);
            } else if i < j {
                assert(es[i].0 != k);
            }
        },
        None => {
            assert(es[i].0 != k);
        },
    }
}

/// Where the key `k` stands among the entries.
pub fn find_key(es: &Vec<(String, Json)>, k: &str) -> (r: Option<usize>)
    ensures
        match r {
            Some(i) => obj_find(entries_view(es@), k@) == Some(i as int) && i < es.len(),
            None => obj_find(entries_view(es@), k@) is None,
        },
{
    let ghost ev = entries_view(es@);
    let key = chars_of(k);
    let mut i: usize = 0;
    while i < es.len()
        invariant
            i <= es.len(),
            ev == entries_view(es@),
            key@ == k@,
            forall|j: int| 0 <= j < i ==> ev[j].0 != k@,
        decreases es.len() - i,
    {
        let name = chars_of(es[i].0.as_str());
        if chars_eq(&name, &key) {
            proof {
                lemma_obj_find_first(ev, k@, i as int);
            }
            return Some(i);
        }
        i = i + 1;
    }
    proof {
        lemma_obj_find(ev, k@);
        if let Some(j) = obj_find(ev, k@) {
            assert(ev[j].0 == k@);
        }
    }
    None
}

impl Json {
    /// A copy of the value.
    pub fn duplicate(&self) -> (r: Json)
        ensures
            r@ == self@,
        decreases self,
    {
        match self {
            Json::Null => Json::Null,
            Json::Bool(b) => Json::Bool(*b),
            Json::Number(n) => Json::Number(n.clone()),
            Json::Str(s) => Json::Str(s.clone()),
            Json::Array(v) => {
                let mut out: Vec<Json> = Vec::new();
                let mut i: usize = 0;
                while i < v.len()
                    invariant
                        i <= v.len(),
                        items_view(out@) == items_view(v@).take(i as int),
                        *self == Json::Array(*v),
                    decreases v.len() - i,
                {
                    proof {
                        assert(decreases_to!(*self => (*self)->Array_0));
                        assert(decreases_to!(*v => v@));
                        assert(decreases_to!(v@ => v@[i as int]));
                    }
                    let x = v[i].duplicate();
                    let ghost before = out@;
                    out.push(x);
                    proof {
                        lemma_items_push(before, x);
                        assert(items_view(v@).take(i + 1) =~= items_view(v@).take(i as int).push(v@[i as int]@));
                    }
                    i = i + 1;
                }
                assert(items_view(v@).take(i as int) =~= items_view(v@));
                proof {
                    lemma_array_view(out);
                    lemma_array_view(*v);
                }
                Json::Array(out)
            },
            Json::Object(v) => {
                let mut out: Vec<(String, Json)> = Vec::new();
                let mut i: usize = 0;
                while i < v.len()
                    invariant
                        i <= v.len(),
                        entries_view(out@) == entries_view(v@).take(i as int),
                        *self == Json::Object(*v),
                    decreases v.len() - i,
                {
                    proof {
                        assert(decreases_to!(*self => (*self)->Object_0));
                        assert(decreases_to!(*v => v@));
                        assert(decreases_to!(v@ => v@[i as int]));
                        assert(decreases_to!(v@[i as int] => v@[i as int].1));
                    }
                    let x = v[i].1.duplicate();
                    let ghost before = out@;
                    let key = v[i].0.clone();
                    out.push((key, x));
                    proof {
                        lemma_entries_push(before, (key, x));
                        assert(entries_view(v@).take(i + 1) =~= entries_view(v@).take(i as int).push(
                            (v@[i as int].0@, v@[i as int].1@),
                        ));
                    }
                    i = i + 1;
                }
                assert(entries_view(v@).take(i as int) =~= entries_view(v@));
                proof {
                    lemma_object_view(out);
                    lemma_object_view(*v);
                }
                Json::Object(out)
            },
        }
    }
}

// ---------------------------------------------------------------------------
// Edits
// ---------------------------------------------------------------------------

/// The entries with the value at key `k` changed by `f`, if `k` is there.
pub open spec fn at_key(
    es: Seq<(Seq<char>, JsonView)>,
    k: Seq<char>,
    f: spec_fn(JsonView) -> JsonView,
) -> Seq<(Seq<char>, JsonView)> {
    match obj_find(es, k) {
        Some(i) => es.update(i, (k, f(es[i].1))),
        None => es,
    }
}

/// An object with its entries changed by `f`; any other value unchanged.
pub open spec fn on_object(
    j: JsonView,
    f: spec_fn(Seq<(Seq<char>, JsonView)>) -> Seq<(Seq<char>, JsonView)>,
) -> JsonView {
    match j {
        JsonView::Object(es) => JsonView::Object(f(es)),
        _ => j,
    }
}

/// The value at key `k` of an object, if it is a string.
pub open spec fn str_at(es: Seq<(Seq<char>, JsonView)>, k: Seq<char>) -> Option<Seq<char>> {
    match obj_get(es, k) {
        Some(JsonView::Str(s)) => Some(s),
        _ => None,
    }
}

pub proof fn lemma_entries_remove(s: Seq<(String, Json)>, i: int)
    requires
        0 <= i < s.len(),
    ensures
        entries_view(s.remove(i)) == entries_view(s).remove(i),
{
    assert(entries_view(s.remove(i)) =~= entries_view(s).remove(i));
}

pub proof fn lemma_entries_insert(s: Seq<(String, Json)>, i: int, e: (String, Json))
    requires
        0 <= i <= s.len(),
    ensures
        entries_view(s.insert(i, e)) == entries_view(s).insert(i, (e.0@, e.1@)),
{
    assert(entries_view(s.insert(i, e)) =~= entries_view(s).insert(i, (e.0@, e.1@)));
}

/// Takes the entry at `i` out; `put_entry` puts one back there.
pub fn take_entry(es: &mut Vec<(String, Json)>, i: usize) -> (r: (String, Json))
    requires
        i < old(es).len(),
    ensures
        entries_view(final(es)@) == entries_view(old(es)@).remove(i as int),
        final(es)@.len() == old(es)@.len() - 1,
        (r.0@, r.1@) == entries_view(old(es)@)[i as int],
{
    proof {
        lemma_entries_remove(es@, i as int);
    }
    es.remove(i)
}

/// Puts an entry at `i`.
pub fn put_entry(es: &mut Vec<(String, Json)>, i: usize, e: (String, Json))
    requires
        i <= old(es).len(),
    ensures
        entries_view(final(es)@) == entries_view(old(es)@).insert(i as int, (e.0@, e.1@)),
        final(es)@.len() == old(es)@.len() + 1,
{
    proof {
        lemma_entries_insert(es@, i as int, e);
    }
    es.insert(i, e);
}

/// `Map::insert`: an existing key keeps its place and gets the new value; a new
/// key goes at the end.
pub fn insert_entry(es: &mut Vec<(String, Json)>, k: String, v: Json)
    ensures
        entries_view(final(es)@) == obj_insert(entries_view(old(es)@), k@, v@),
{
    match find_key(es, k.as_str()) {
        Some(i) => {
            let ghost ev = entries_view(es@);
            let _ = take_entry(es, i);
            let ghost kv = k@;
            let ghost vv = v@;
            put_entry(es, i, (k, v));
            assert(entries_view(es@) =~= ev.update(i as int, (kv, vv)));
        },
        None => {
            proof {
                lemma_entries_push(es@, (k, v));
            }
            es.push((k, v));
        },
    }
}

/// Sets the value at `k` to the string `v`, if `k` is there.
pub fn set_if_present(es: &mut Vec<(String, Json)>, k: &str, v: &str)
    ensures
        entries_view(final(es)@) == at_key(entries_view(old(es)@), k@, |_x: JsonView| JsonView::Str(v@)),
{
    match find_key(es, k) {
        Some(i) => {
            let ghost ev = entries_view(es@);
            let (key, _) = take_entry(es, i);
            let value = Json::Str(string_of(&chars_of(v)));
            let ghost kv = key@;
            let ghost vv = value@;
            put_entry(es, i, (key, value));
            proof {
                lemma_obj_find(ev, k@);
            }
            assert(entries_view(es@) =~= ev.update(i as int, (k@, JsonView::Str(v@))));
        },
        None => {},
    }
}

/// The string at key `k` of an object.
pub fn get_str(es: &Vec<(String, Json)>, k: &str) -> (r: Option<String>)
    ensures
        match r {
            Some(s) => str_at(entries_view(es@), k@) == Some(s@),
            None => str_at(entries_view(es@), k@) is None,
        },
{
    match find_key(es, k) {
        Some(i) => match &es[i].1 {
            Json::Str(s) => Some(s.clone()),
            _ => None,
        },
        None => None,
    }
}

} // verus!
