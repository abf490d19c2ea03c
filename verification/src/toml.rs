//! TOML documents, edited in place by `toml_edit` so that the rest of a file
//! keeps its formatting. The document is `toml_edit`'s; what the logic reads of
//! it is named here: the strings and the kinds of the items found by key paths,
//! and the tables of arrays of tables.
use vstd::prelude::*;

verus! {

#[verifier::external_type_specification]
#[verifier::external_body]
pub struct ExDocumentMut(toml_edit::DocumentMut);

/// The kind of an item of a TOML document.
#[derive(Clone, Copy, Debug, PartialEq, Eq, Structural)]
pub enum TomlKind {
    Table,
    InlineTable,
    Value,
    ArrayOfTables,
}

/// The string values of a document, by key path.
pub uninterp spec fn toml_strings(d: toml_edit::DocumentMut) -> Map<Seq<Seq<char>>, Seq<char>>;

/// The kinds of the items of a document, by key path; the empty path is the root.
pub uninterp spec fn toml_kinds(d: toml_edit::DocumentMut) -> Map<Seq<Seq<char>>, TomlKind>;

/// The string values in the tables of the arrays of tables at the top of a
/// document: by the array's key, the table's index and the key in the table.
pub uninterp spec fn toml_table_strings(d: toml_edit::DocumentMut) -> Map<(Seq<char>, int, Seq<char>), Seq<char>>;

/// The lengths of the arrays of tables at the top of a document, by key.
pub uninterp spec fn toml_table_counts(d: toml_edit::DocumentMut) -> Map<Seq<char>, nat>;

/// The text of a document.
pub uninterp spec fn toml_text(d: toml_edit::DocumentMut) -> Seq<char>;

pub open spec fn keys_view(path: Seq<&str>) -> Seq<Seq<char>> {
    path.map_values(|k: &str| k@)
}

/// Parses a document with `DocumentMut::from_str`; an error is given by its
/// message. Nothing is claimed of the document but that its root is a table.
#[verifier::external_body]
pub(crate) fn toml_parse(s: &str) -> (r: Result<toml_edit::DocumentMut, String>)
    ensures
        r matches Ok(d) ==> toml_kinds(d).get(Seq::empty()) == Some(TomlKind::Table),
{
    s.parse::<toml_edit::DocumentMut>().map_err(|e| e.to_string())
}

/// The text of a document, by its `Display`; named `toml_text`.
#[verifier::external_body]
pub(crate) fn toml_to_string(d: &toml_edit::DocumentMut) -> (r: String)
    ensures
        r@ == toml_text(*d),
{
    d.to_string()
}

/// The string at a key path, found with `Item::get` and read with `Item::as_str`;
/// named by `toml_strings`.
#[verifier::external_body]
pub(crate) fn toml_str(d: &toml_edit::DocumentMut, path: &[&str]) -> (r: Option<String>)
    ensures
        r matches Some(s) ==> toml_strings(*d).get(keys_view(path@)) == Some(s@),
        r is None ==> toml_strings(*d).get(keys_view(path@)) is None,
{
    let mut item = d.as_item();
    for k in path {
        item = item.get(*k)?;
    }
    item.as_str().map(|s| s.to_string())
}

/// The kind of the item at a key path, found with `Item::get`; named by `toml_kinds`.
#[verifier::external_body]
pub(crate) fn toml_kind(d: &toml_edit::DocumentMut, path: &[&str]) -> (r: Option<TomlKind>)
    ensures
        r == toml_kinds(*d).get(keys_view(path@)),
{
    let mut item = d.as_item();
    for k in path {
        item = item.get(*k)?;
    }
    match item {
        toml_edit::Item::None => None,
        toml_edit::Item::Table(_) => Some(TomlKind::Table),
        toml_edit::Item::Value(toml_edit::Value::InlineTable(_)) => Some(TomlKind::InlineTable),
        toml_edit::Item::Value(_) => Some(TomlKind::Value),
        toml_edit::Item::ArrayOfTables(_) => Some(TomlKind::ArrayOfTables),
    }
}

/// Whether the key path `p` starts with `q`.
pub open spec fn path_starts_with(p: Seq<Seq<char>>, q: Seq<Seq<char>>) -> bool {
    p.len() >= q.len() && p.subrange(0, q.len() as int) == q
}

/// Sets the string at a key path whose parent is a table (or inline table), with
/// `IndexMut` and `toml_edit::value`. Claimed: the string is there afterwards, as
/// a value. `IndexMut` walks the existing tables to the parent and inserts or
/// replaces that one key, so what is at any key path that does not start with
/// this one stays as it was.
#[verifier::external_body]
pub(crate) fn toml_set(d: &mut toml_edit::DocumentMut, path: &[&str], v: &str)
    requires
        path@.len() >= 1,
        toml_kinds(*old(d)).get(keys_view(path@.drop_last())) == Some(TomlKind::Table)
            || toml_kinds(*old(d)).get(keys_view(path@.drop_last())) == Some(TomlKind::InlineTable),
    ensures
        toml_strings(*final(d)).get(keys_view(path@)) == Some(v@),
        toml_kinds(*final(d)).get(keys_view(path@)) == Some(TomlKind::Value),
        forall|q: Seq<Seq<char>>|
            !path_starts_with(q, keys_view(path@)) ==> #[trigger] toml_strings(*final(d)).get(q) == toml_strings(
                *old(d),
            ).get(q),
        forall|q: Seq<Seq<char>>|
            !path_starts_with(q, keys_view(path@)) ==> #[trigger] toml_kinds(*final(d)).get(q) == toml_kinds(*old(d)).get(q),
{
    let (last, parents) = path.split_last().unwrap();
    let mut item = d.as_item_mut();
    for k in parents {
        item = &mut item[*k];
    }
    item[*last] = toml_edit::value(v);
}

/// The number of tables in the array of tables at a top-level key; named by
/// `toml_table_counts`.
#[verifier::external_body]
pub(crate) fn toml_table_count(d: &toml_edit::DocumentMut, key: &str) -> (r: Option<usize>)
    ensures
        r matches Some(n) ==> toml_table_counts(*d).get(key@) == Some(n as nat),
        r is None ==> toml_table_counts(*d).get(key@) is None,
{
    d.get(key).and_then(|i| i.as_array_of_tables()).map(|a| a.len())
}

/// The string at `k` of table `i` of the array of tables at a top-level key;
/// named by `toml_table_strings`.
#[verifier::external_body]
pub(crate) fn toml_table_str(d: &toml_edit::DocumentMut, key: &str, i: usize, k: &str) -> (r: Option<String>)
    ensures
        r matches Some(s) ==> toml_table_strings(*d).get((key@, i as int, k@)) == Some(s@),
        r is None ==> toml_table_strings(*d).get((key@, i as int, k@)) is None,
{
    d.get(key)?.as_array_of_tables()?.get(i)?.get(k)?.as_str().map(|s| s.to_string())
}

/// Sets the string at `k` of table `i` of the array of tables at a top-level key,
/// with `IndexMut` and `toml_edit::value`. Claimed: the string is there
/// afterwards; `Table`'s `IndexMut` inserts or replaces that one key of that one
/// table, so every other string of the arrays of tables, and every array's
/// length, stays as it was.
#[verifier::external_body]
pub(crate) fn toml_table_set(d: &mut toml_edit::DocumentMut, key: &str, i: usize, k: &str, v: &str)
    requires
        toml_table_counts(*old(d)).get(key@) matches Some(n) && i < n,
    ensures
        toml_table_strings(*final(d)).get((key@, i as int, k@)) == Some(v@),
        toml_table_counts(*final(d)).get(key@) == toml_table_counts(*old(d)).get(key@),
        forall|t: (Seq<char>, int, Seq<char>)|
            t != (key@, i as int, k@) ==> #[trigger] toml_table_strings(*final(d)).get(t) == toml_table_strings(*old(d)).get(t),
        forall|a: Seq<char>| #[trigger] toml_table_counts(*final(d)).get(a) == toml_table_counts(*old(d)).get(a),
{
    let table = d.get_mut(key).unwrap().as_array_of_tables_mut().unwrap().get_mut(i).unwrap();
    table[k] = toml_edit::value(v);
}

/// Whether `toml_edit::Document::parse` reads the text.
pub uninterp spec fn toml_parses(text: Seq<char>) -> bool;

/// What a document that `toml_edit::Document::parse` reads holds at a key path,
/// through tables: the string there, with the range of its token (quotes
/// included), counted in characters.
pub uninterp spec fn toml_spanned(text: Seq<char>, path: Seq<Seq<char>>) -> Option<(int, int, Seq<char>)>;

/// The key path `tool.poetry.version`.
pub open spec fn poetry_version_path() -> Seq<Seq<char>> {
    seq!["tool"@, "poetry"@, "version"@]
}

/// The key path `project.version`.
pub open spec fn project_version_path() -> Seq<Seq<char>> {
    seq!["project"@, "version"@]
}

/// Parses the text with `toml_edit::Document::parse` (which keeps where each
/// value stands) and gives the strings at `tool.poetry.version` and at
/// `project.version` with their spans, in characters; named `toml_spanned`. An
/// error is given by its message.
#[verifier::external_body]
pub(crate) fn toml_version_spans(text: &str) -> (r: Result<(Option<(usize, usize, String)>, Option<(usize, usize, String)>), String>)
    ensures
        r matches Ok((a, b)) ==> {
            &&& toml_parses(text@)
            &&& span_view(a) == toml_spanned(text@, poetry_version_path())
            &&& span_view(b) == toml_spanned(text@, project_version_path())
        },
        r is Err ==> !toml_parses(text@),
{
    let doc = toml_edit::Document::parse(text).map_err(|e| e.to_string())?;
    let span = |i: Option<&toml_edit::Item>| Some((text[..i?.span()?.start].chars().count(), text[..i?.span()?.end].chars().count(), i?.as_str()?.to_string()));
    Ok((span(doc.get("tool").and_then(|t| t.get("poetry")?.get("version"))), span(doc.get("project").and_then(|t| t.get("version")))))
}

/// A span found in a text, as plain values.
pub open spec fn span_view(s: Option<(usize, usize, String)>) -> Option<(int, int, Seq<char>)> {
    match s {
        Some((a, b, t)) => Some((a as int, b as int, t@)),
        None => None,
    }
}

} // verus!
