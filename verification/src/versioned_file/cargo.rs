//! `Cargo.toml` files.
use vstd::prelude::*;

use super::diff_entry;
use crate::action::{Action, ActionView};
use crate::semver::{parse_version_spec, version_text, Version, VersionView};
use crate::text::{chars_of, join_with, push_all, push_str, string_of, views_of};
use crate::toml::{
    keys_view, path_starts_with, toml_kind, toml_kinds, toml_parse, toml_set, toml_str, toml_strings, toml_text,
    toml_to_string, TomlKind,
};

verus! {

/// Why a Cargo.toml could not be read, or has no version.
#[derive(Debug)]
pub enum Error {
    /// Invalid TOML: the path and the message.
    Toml { path: String, source: String },
    /// The file was missing a required property.
    MissingRequiredProperties { path: String, property: &'static str },
    /// The file does not contain the dependency.
    MissingDependency { path: String, dependency: String },
    Semver(crate::semver::Error),
}

/// A Cargo.toml file. The diff lists what was set (`version`, or
/// `{dependency}.version`); each is reported with the version set last.
#[derive(Debug)]
pub struct Cargo {
    pub path: String,
    pub document: toml_edit::DocumentMut,
    pub diff: Vec<String>,
    pub last_version: Option<Version>,
}

/// The entries of a Cargo.toml's diff: each key set, with the version set last.
pub open spec fn cargo_diff(keys: Seq<Seq<char>>, last: Option<VersionView>) -> Seq<Seq<char>> {
    match last {
        Some(v) => keys.map_values(|k: Seq<char>| k + " = "@ + version_text(v)),
        None => keys,
    }
}

pub open spec fn strings_view(v: Seq<String>) -> Seq<Seq<char>> {
    v.map_values(|s: String| s@)
}

impl Cargo {
    pub open spec fn path_view(&self) -> Seq<char> {
        self.path@
    }

    pub open spec fn diff_view(&self) -> Seq<Seq<char>> {
        strings_view(self.diff@)
    }

    /// What `new` gives.
    pub open spec fn new_spec(path: Seq<char>, toml: Seq<char>, r: Result<Cargo, Error>) -> bool {
        &&& match r {
                    Ok(c) => c.path_view() == (path) && c.diff_view().len() == 0 && c.last_version is None,
                    Err(Error::Toml { path: p, .. }) => p@ == (path),
                    Err(_) => false,
                }
    }

    /// Parses the TOML.
    pub fn new(path: String, toml: &str) -> (r: Result<Cargo, Error>)
        ensures
            Self::new_spec(path@, toml@, r),
    {
        match toml_parse(toml) {
            Ok(document) => {
                let c = Cargo { path, document, diff: Vec::new(), last_version: None };
                assert(strings_view(c.diff@) =~= Seq::<Seq<char>>::empty());
                Ok(c)
            },
            Err(source) => Err(Error::Toml { path, source }),
        }
    }

    /// What `get_version` gives.
    pub open spec fn get_version_spec(self, r: Result<Version, Error>) -> bool {
        &&& match toml_strings(self.document).get(seq!["package"@, "version"@]) {
                    None => r matches Err(Error::MissingRequiredProperties { path: p, property }) && p@ == self.path_view()
                        && property@ == "package.version"@,
                    Some(s) => match (r, parse_version_spec(s)) {
                        (Ok(v), Ok(w)) => v@ == w,
                        (Err(Error::Semver(e)), Err(m)) => e.0@ == m,
                        _ => false,
                    },
                }
    }

    /// The version at `package.version`.
    pub fn get_version(&self) -> (r: Result<Version, Error>)
        ensures
            (*self).get_version_spec(r),
    {
        let path = ["package", "version"];
        assert(keys_view(path@) =~= seq!["package"@, "version"@]);
        match toml_str(&self.document, &path) {
            None => Err(Error::MissingRequiredProperties { path: self.path.clone(), property: "package.version" }),
            Some(s) => match Version::parse(s.as_str()) {
                Ok(v) => Ok(v),
                Err(e) => Err(Error::Semver(e)),
            },
        }
    }

    pub fn get_path(&self) -> (r: &String)
        ensures
            r@ == self.path_view(),
    {
        &self.path
    }

    /// What `set_version` gives.
    pub open spec fn set_version_spec(self, new_version: VersionView, dependency: Option<Seq<char>>, r: Cargo) -> bool {
        &&& r.path_view() == self.path_view()
        &&& r.diff_view() == self.diff_view().push(
                    match dependency {
                        Some(dep) => dep + ".version"@,
                        None => "version"@,
                    },
                )
        &&& r.last_version matches Some(v) && v@ == new_version
        &&& dependency is None ==> if table_like(toml_kinds(self.document).get(seq!["package"@])) && toml_kinds(
                    self.document,
                ).get(seq!["package"@, "version"@]) is Some {
                    toml_strings(r.document).get(seq!["package"@, "version"@]) == Some(version_text(new_version))
                        && unchanged_outside(self.document, r.document, seq!["package"@, "version"@])
                } else {
                    r.document == self.document
                }
        &&& dependency matches Some(dep) ==> {
                    &&& dep_written(self.document, r.document, seq!["dependencies"@], dep, version_text(new_version))
                    &&& dep_written(self.document, r.document, seq!["dev-dependencies"@], dep, version_text(new_version))
                    &&& dep_written(
                        self.document,
                        r.document,
                        seq!["workspace"@, "dependencies"@],
                        dep,
                        version_text(new_version),
                    )
                }
    }

    /// Sets the version of the package (in `[package]`), or of a dependency in
    /// `dependencies`, `dev-dependencies` and `workspace.dependencies`.
    pub fn set_version(self, new_version: &Version, dependency: Option<&str>) -> (r: Cargo)
        ensures
            self.set_version_spec(new_version@, super::opt_str(dependency), r),
    {
        let Cargo { path, mut document, mut diff, last_version: _ } = self;
        let mut vt: Vec<char> = Vec::new();
        new_version.write_to(&mut vt);
        let vs = string_of(&vt);
        let entry = match dependency {
            Some(dep) => {
                let t1 = ["dependencies"];
                let t2 = ["dev-dependencies"];
                let t3 = ["workspace", "dependencies"];
                assert(keys_view(t1@) =~= seq!["dependencies"@]);
                assert(keys_view(t2@) =~= seq!["dev-dependencies"@]);
                assert(keys_view(t3@) =~= seq!["workspace"@, "dependencies"@]);
                let ghost d0 = document;
                write_dependency(&mut document, &t1, dep, vs.as_str());
                let ghost d1 = document;
                write_dependency(&mut document, &t2, dep, vs.as_str());
                let ghost d2 = document;
                write_dependency(&mut document, &t3, dep, vs.as_str());
                proof {
                    lemma_tables_differ();
                    let v = vs@;
                    let p1 = seq!["dependencies"@];
                    let p2 = seq!["dev-dependencies"@];
                    let p3 = seq!["workspace"@, "dependencies"@];
                    lemma_dep_written_moves(d0, d1, document, p1, dep@, v, p2.push(dep@), p3.push(dep@), d2);
                    lemma_unchanged_at(d0, d1, p2, dep@, p1.push(dep@));
                    lemma_dep_written_moves(d1, d2, document, p2, dep@, v, p3.push(dep@), p3.push(dep@), d2);
                    lemma_unchanged_at(d0, d1, p3, dep@, p1.push(dep@));
                    lemma_unchanged_at(d1, d2, p3, dep@, p2.push(dep@));
                }
                let mut name = chars_of(dep);
                push_str(&mut name, ".version");
                name
            },
            None => {
                let package = ["package"];
                let version_path = ["package", "version"];
                assert(keys_view(package@) =~= seq!["package"@]);
                assert(keys_view(version_path@) =~= seq!["package"@, "version"@]);
                assert(version_path@.drop_last() =~= package@);
                match toml_kind(&document, &package) {
                    Some(TomlKind::Table) | Some(TomlKind::InlineTable) => {
                        if toml_kind(&document, &version_path).is_some() {
                            toml_set(&mut document, &version_path, vs.as_str());
                        }
                    },
                    _ => {},
                }
                chars_of("version")
            },
        };
        let ghost before = diff@;
        diff.push(string_of(&entry));
        proof {
            assert(strings_view(diff@) =~= strings_view(before).push(entry@));
        }
        Cargo { path, document, diff, last_version: Some(new_version.duplicate()) }
    }

    /// What `write` gives.
    pub open spec fn write_spec(self, r: Option<Action>) -> bool {
        &&& self.diff_view().len() == 0 ==> r is None
        &&& self.diff_view().len() > 0 ==> (r matches Some(a) && a@ == (ActionView::WriteToFile {
                    path: self.path_view(),
                    content: toml_text(self.document),
                    diff: join_with(
                        cargo_diff(
                            self.diff_view(),
                            match self.last_version {
                                Some(v) => Some(v@),
                                None => None,
                            },
                        ),
                        ", "@,
                    ),
                }))
    }

    /// The action that writes the file, if a version was set.
    pub fn write(self) -> (r: Option<Action>)
        ensures
            self.write_spec(r),
    {
        if self.diff.len() == 0 {
            return None;
        }
        let content = toml_to_string(&self.document);
        let ghost keys = self.diff_view();
        let ghost last = match &self.last_version {
            Some(v) => Some(v@),
            None => None,
        };
        let mut entries: Vec<String> = Vec::new();
        let mut i: usize = 0;
        while i < self.diff.len()
            invariant
                i <= self.diff.len(),
                keys == strings_view(self.diff@),
                last == match &self.last_version {
                    Some(v) => Some(v@),
                    None => None::<VersionView>,
                },
                strings_view(entries@) == cargo_diff(keys, last).take(i as int),
            decreases self.diff.len() - i,
        {
            let entry = match &self.last_version {
                Some(v) => string_of(&diff_entry(self.diff[i].as_str(), v)),
                None => self.diff[i].clone(),
            };
            let ghost before = entries@;
            entries.push(entry);
            assert(strings_view(entries@) =~= strings_view(before).push(entry@));
            assert(cargo_diff(keys, last).take(i + 1) =~= cargo_diff(keys, last).take(i as int).push(
                cargo_diff(keys, last)[i as int],
            ));
            i = i + 1;
        }
        assert(cargo_diff(keys, last).take(i as int) =~= cargo_diff(keys, last));
        let diff = join_strings(&entries, ", ");
        Some(Action::WriteToFile { path: self.path, content, diff })
    }
}

/// The strings joined with `sep` between them.
pub fn join_strings(v: &Vec<String>, sep: &str) -> (r: String)
    ensures
        r@ == join_with(strings_view(v@), sep@),
{
    let mut parts: Vec<Vec<char>> = Vec::new();
    let mut i: usize = 0;
    while i < v.len()
        invariant
            i <= v.len(),
            views_of(parts@) == strings_view(v@).take(i as int),
        decreases v.len() - i,
    {
        let ghost before = parts@;
        let c = chars_of(v[i].as_str());
        parts.push(c);
        assert(parts@ == before.push(c));
        assert(views_of(parts@) =~= views_of(before).push(c@));
        assert(strings_view(v@).take(i + 1) =~= strings_view(v@).take(i as int).push(v@[i as int]@));
        i = i + 1;
    }
    assert(strings_view(v@).take(i as int) =~= strings_view(v@));
    let mut out: Vec<char> = Vec::new();
    crate::text::push_joined(&mut out, &parts, 0, &chars_of(sep));
    assert(views_of(parts@).skip(0) =~= views_of(parts@));
    string_of(&out)
}

/// A table or an inline table.
pub open spec fn table_like(k: Option<TomlKind>) -> bool {
    k == Some(TomlKind::Table) || k == Some(TomlKind::InlineTable)
}

/// Where the table at `table` lists `dep`, its version is `v` afterwards: at its
/// `version` key for a table requirement, in its place for a plain one.
pub open spec fn dep_written(
    before: toml_edit::DocumentMut,
    after: toml_edit::DocumentMut,
    table: Seq<Seq<char>>,
    dep: Seq<char>,
    v: Seq<char>,
) -> bool {
    table_like(toml_kinds(before).get(table)) ==> match toml_kinds(before).get(table.push(dep)) {
        Some(TomlKind::Table) | Some(TomlKind::InlineTable) => toml_strings(after).get(table.push(dep).push("version"@))
            == Some(v),
        Some(TomlKind::Value) => toml_strings(after).get(table.push(dep)) == Some(v),
        _ => true,
    }
}

/// What is at every key path that does not start with `p` stays as it was.
pub open spec fn unchanged_outside(before: toml_edit::DocumentMut, after: toml_edit::DocumentMut, p: Seq<Seq<char>>) -> bool {
    &&& forall|q: Seq<Seq<char>>|
        !path_starts_with(q, p) ==> #[trigger] toml_strings(after).get(q) == toml_strings(before).get(q)
    &&& forall|q: Seq<Seq<char>>| !path_starts_with(q, p) ==> #[trigger] toml_kinds(after).get(q) == toml_kinds(before).get(q)
}

proof fn lemma_starts_with_shorter(q: Seq<Seq<char>>, p: Seq<Seq<char>>, x: Seq<char>)
    requires
        path_starts_with(q, p.push(x)),
    ensures
        path_starts_with(q, p),
{
    assert(q.subrange(0, p.len() as int) =~= q.subrange(0, p.len() + 1int).subrange(0, p.len() as int));
    assert(p.push(x).subrange(0, p.len() as int) =~= p);
}

proof fn lemma_not_starts(q: Seq<Seq<char>>, p: Seq<Seq<char>>)
    requires
        q.len() >= 1,
        p.len() >= 1,
        q[0] != p[0],
    ensures
        !path_starts_with(q, p),
{
    if path_starts_with(q, p) {
        assert(q.subrange(0, p.len() as int)[0] == q[0]);
    }
}

proof fn lemma_tables_differ()
    ensures
        "dependencies"@ != "dev-dependencies"@,
        "dependencies"@ != "workspace"@,
        "dev-dependencies"@ != "workspace"@,
{
    reveal_strlit("dependencies");
    reveal_strlit("dev-dependencies");
    reveal_strlit("workspace");
    assert("dependencies"@.len() != "dev-dependencies"@.len());
    assert("dependencies"@.len() != "workspace"@.len());
    assert("dev-dependencies"@.len() != "workspace"@.len());
}

/// What a dependency write left in `mid` stays in `after`, where the later writes
/// were under `w1` and `w2`, key paths that the written ones do not start with.
proof fn lemma_dep_written_moves(
    before: toml_edit::DocumentMut,
    mid: toml_edit::DocumentMut,
    after: toml_edit::DocumentMut,
    table: Seq<Seq<char>>,
    dep: Seq<char>,
    v: Seq<char>,
    w1: Seq<Seq<char>>,
    w2: Seq<Seq<char>>,
    mid2: toml_edit::DocumentMut,
)
    requires
        dep_written(before, mid, table, dep, v),
        table.len() >= 1,
        w1.len() >= 1,
        w2.len() >= 1,
        table[0] != w1[0],
        table[0] != w2[0],
        unchanged_outside(mid, mid2, w1) || mid2 == mid,
        unchanged_outside(mid2, after, w2),
    ensures
        dep_written(before, after, table, dep, v),
{
    let a = table.push(dep);
    let b = a.push("version"@);
    assert(a[0] == table[0]);
    assert(b[0] == table[0]);
    lemma_not_starts(a, w1);
    lemma_not_starts(b, w1);
    lemma_not_starts(a, w2);
    lemma_not_starts(b, w2);
    assert(toml_strings(after).get(a) == toml_strings(mid2).get(a));
    assert(toml_strings(after).get(b) == toml_strings(mid2).get(b));
}

/// A table and its entry for `dep` keep their kinds through a write under `w`,
/// a key path that starts elsewhere.
proof fn lemma_unchanged_at(
    before: toml_edit::DocumentMut,
    after: toml_edit::DocumentMut,
    table: Seq<Seq<char>>,
    dep: Seq<char>,
    w: Seq<Seq<char>>,
)
    requires
        unchanged_outside(before, after, w),
        table.len() >= 1,
        w.len() >= 1,
        table[0] != w[0],
    ensures
        toml_kinds(after).get(table) == toml_kinds(before).get(table),
        toml_kinds(after).get(table.push(dep)) == toml_kinds(before).get(table.push(dep)),
{
    lemma_not_starts(table, w);
    assert(table.push(dep)[0] == table[0]);
    lemma_not_starts(table.push(dep), w);
}

/// Writes a version to a dependency in a table: to its `version` if it is a table,
/// or in its place if it is a plain value.
fn write_dependency(document: &mut toml_edit::DocumentMut, table: &[&str], dep: &str, v: &str)
    ensures
        dep_written(*old(document), *final(document), keys_view(table@), dep@, v@),
        unchanged_outside(*old(document), *final(document), keys_view(table@).push(dep@)),
{
    let table_kind = toml_kind(document, table);
    match table_kind {
        Some(TomlKind::Table) | Some(TomlKind::InlineTable) => {},
        _ => return,
    }
    let mut dep_path: Vec<&str> = Vec::new();
    let mut i: usize = 0;
    while i < table.len()
        invariant
            i <= table.len(),
            dep_path@ == table@.take(i as int),
        decreases table.len() - i,
    {
        dep_path.push(table[i]);
        assert(dep_path@ =~= table@.take(i + 1));
        i = i + 1;
    }
    assert(table@.take(i as int) =~= table@);
    dep_path.push(dep);
    assert(keys_view(dep_path@) =~= keys_view(table@).push(dep@));
    assert(dep_path@.drop_last() =~= table@);
    match toml_kind(document, dep_path.as_slice()) {
        Some(TomlKind::Table) | Some(TomlKind::InlineTable) => {
            let ghost dp = dep_path@;
            dep_path.push("version");
            assert(dep_path@.drop_last() =~= dp);
            assert(keys_view(dep_path@) =~= keys_view(table@).push(dep@).push("version"@));
            toml_set(document, dep_path.as_slice(), v);
            proof {
                assert forall|q: Seq<Seq<char>>| !path_starts_with(q, keys_view(table@).push(dep@)) implies !path_starts_with(
                    q,
                    keys_view(table@).push(dep@).push("version"@),
                ) by {
                    if path_starts_with(q, keys_view(table@).push(dep@).push("version"@)) {
                        lemma_starts_with_shorter(q, keys_view(table@).push(dep@), "version"@);
                    }
                }
            }
        },
        Some(TomlKind::Value) => {
            toml_set(document, dep_path.as_slice(), v);
        },
        _ => {},
    }
}

/// The name of the package, at `package.name`.
pub fn name_from_document(document: &toml_edit::DocumentMut) -> (r: Option<String>)
    ensures
        match r {
            Some(s) => toml_strings(*document).get(seq!["package"@, "name"@]) == Some(s@),
            None => toml_strings(*document).get(seq!["package"@, "name"@]) is None,
        },
{
    let path = ["package", "name"];
    assert(keys_view(path@) =~= seq!["package"@, "name"@]);
    toml_str(document, &path)
}

/// Whether the document lists the dependency in `dependencies`, `dev-dependencies`
/// or `workspace.dependencies`.
pub fn contains_dependency(document: &toml_edit::DocumentMut, dependency: &str) -> (r: bool)
    ensures
        r == (toml_kinds(*document).contains_key(seq!["dependencies"@, dependency@])
            || toml_kinds(*document).contains_key(seq!["dev-dependencies"@, dependency@])
            || toml_kinds(*document).contains_key(seq!["workspace"@, "dependencies"@, dependency@])),
{
    let a = ["dependencies", dependency];
    let b = ["dev-dependencies", dependency];
    let c = ["workspace", "dependencies", dependency];
    assert(keys_view(a@) =~= seq!["dependencies"@, dependency@]);
    assert(keys_view(b@) =~= seq!["dev-dependencies"@, dependency@]);
    assert(keys_view(c@) =~= seq!["workspace"@, "dependencies"@, dependency@]);
    toml_kind(document, &a).is_some() || toml_kind(document, &b).is_some() || toml_kind(document, &c).is_some()
}

} // verus!
