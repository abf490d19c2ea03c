//! `package.json` files.
use vstd::prelude::*;

use super::{diff_entry, diff_with, json_version, opt_text, push_diff, read_json_version};
use crate::action::{Action, ActionView};
use crate::json::{
    at_key, entries_view, find_key, insert_entry, json_parse, json_pretty, lemma_object_view,
    on_object, parse_json, pretty_json, put_entry, set_if_present, take_entry, Json, JsonView,
};
use crate::semver::{version_text, Version, VersionView};
use crate::text::{chars_of, string_of};

verus! {

/// Why a package.json could not be read.
#[derive(Clone, Debug, PartialEq, Eq)]
pub enum Error {
    /// Error deserializing the file: the path and the message.
    Deserialize { path: String, source: String },
}

/// A package.json file.
#[derive(Debug)]
pub struct PackageJson {
    path: String,
    raw: String,
    version: Version,
    diff: Option<String>,
}

pub struct PackageJsonView {
    pub path: Seq<char>,
    pub raw: Seq<char>,
    pub version: VersionView,
    pub diff: Option<Seq<char>>,
}

impl View for PackageJson {
    type V = PackageJsonView;

    closed spec fn view(&self) -> PackageJsonView {
        PackageJsonView { path: self.path@, raw: self.raw@, version: self.version@, diff: opt_text(self.diff) }
    }
}

/// What reading a package.json gives: its version, or the message of why not.
pub open spec fn package_json_version(content: Seq<char>) -> Result<VersionView, Seq<char>> {
    match json_parse(content) {
        None => Err(Seq::empty()),
        Some(j) => json_version(j),
    }
}

/// The value `v` at key `k` of a table at key `table`, if both are there.
pub open spec fn set_dependency(
    es: Seq<(Seq<char>, JsonView)>,
    table: Seq<char>,
    dep: Seq<char>,
    v: Seq<char>,
) -> Seq<(Seq<char>, JsonView)> {
    at_key(
        es,
        table,
        |t: JsonView| on_object(t, |d: Seq<(Seq<char>, JsonView)>| at_key(d, dep, |_x: JsonView| JsonView::Str(v))),
    )
}

/// The edit of a package.json: the version of a dependency (in `dependencies`
/// and `devDependencies`, where it is listed), or the top-level version.
pub open spec fn package_json_edit(
    es: Seq<(Seq<char>, JsonView)>,
    dependency: Option<Seq<char>>,
    v: Seq<char>,
) -> Seq<(Seq<char>, JsonView)> {
    match dependency {
        Some(dep) => set_dependency(set_dependency(es, "dependencies"@, dep, v), "devDependencies"@, dep, v),
        None => crate::json::obj_insert(es, "version"@, JsonView::Str(v)),
    }
}

/// The entry of the diff for a new version: `{dependency} = {version}` or `version = {version}`.
pub open spec fn diff_entry_text(dependency: Option<Seq<char>>, v: VersionView) -> Seq<char> {
    match dependency {
        Some(dep) => dep + " = "@ + version_text(v),
        None => "version"@ + " = "@ + version_text(v),
    }
}

/// Setting the version of a package.json: its text read again as an object,
/// edited, and written pretty. `None` where the text is not an object.
pub open spec fn package_json_set_text(raw: Seq<char>, dependency: Option<Seq<char>>, v: VersionView) -> Option<Seq<char>> {
    match json_parse(raw) {
        Some(JsonView::Object(es)) => Some(
            json_pretty(JsonView::Object(package_json_edit(es, dependency, version_text(v)))),
        ),
        _ => None,
    }
}


/// Sets the version `v` at key `k` of the table at key `table`, where both are there.
pub fn set_dependency_exec(es: &mut Vec<(String, Json)>, table: &str, dep: &str, v: &str)
    ensures
        entries_view(final(es)@) == set_dependency(entries_view(old(es)@), table@, dep@, v@),
{
    let ghost ev = entries_view(es@);
    match find_key(es, table) {
        Some(i) => {
            let (key, value) = take_entry(es, i);
            proof {
                crate::json::lemma_obj_find(ev, table@);
            }
            match value {
                Json::Object(mut d) => {
                    let ghost dv = entries_view(d@);
                    proof {
                        lemma_object_view(d);
                    }
                    set_if_present(&mut d, dep, v);
                    let ghost nv = entries_view(d@);
                    proof {
                        lemma_object_view(d);
                    }
                    put_entry(es, i, (key, Json::Object(d)));
                    assert(entries_view(es@) =~= set_dependency(ev, table@, dep@, v@));
                },
                other => {
                    put_entry(es, i, (key, other));
                    assert(entries_view(es@) =~= set_dependency(ev, table@, dep@, v@));
                },
            }
        },
        None => {},
    }
}

impl PackageJson {
    /// What `new` gives.
    pub open spec fn new_spec(path: Seq<char>, content: Seq<char>, r: Result<PackageJson, Error>) -> bool {
        &&& match r {
                    Ok(p) => package_json_version((content)) == Ok::<VersionView, Seq<char>>(p@.version)
                        && p@.path == (path) && p@.raw == (content) && p@.diff is None,
                    Err(Error::Deserialize { path: p, source }) => p@ == (path)
                        && (json_parse((content)) is None || package_json_version((content)) == Err::<VersionView, Seq<char>>(source@)),
                }
    }

    /// Reads a package.json: it must be an object with a `version`.
    pub fn new(path: String, content: String) -> (r: Result<PackageJson, Error>)
        ensures
            Self::new_spec(path@, content@, r),
    {
        match parse_json(content.as_str()) {
            Ok(j) => match read_json_version(&j) {
                Ok(version) => Ok(PackageJson { path, raw: content, version, diff: None }),
                Err(m) => Err(Error::Deserialize { path, source: m }),
            },
            Err(m) => Err(Error::Deserialize { path, source: m }),
        }
    }

    pub fn get_version(&self) -> (r: &Version)
        ensures
            r@ == self@.version,
    {
        &self.version
    }

    pub fn get_path(&self) -> (r: &String)
        ensures
            r@ == self@.path,
    {
        &self.path
    }

    /// What `set_version` gives.
    pub open spec fn set_version_spec(self, new_version: VersionView, dependency: Option<Seq<char>>, r: Result<PackageJson, String>) -> bool {
        &&& match r {
                    Ok(p) => package_json_set_text(self@.raw, dependency, new_version) == Some(p@.raw)
                        && p@.path == self@.path && p@.version == self@.version
                        && p@.diff == Some(diff_with(self@.diff, diff_entry_text(dependency, new_version))),
                    Err(_) => true,
                }
        &&& package_json_set_text(self@.raw, dependency, new_version) is None ==> r is Err
        &&& package_json_set_text(self@.raw, dependency, new_version) is Some ==> r is Ok
    }

    /// Sets the version of a dependency, or of the package: the file is read again,
    /// edited and written pretty. An error is the message of reading or writing.
    pub fn set_version(self, new_version: &Version, dependency: Option<&str>) -> (r: Result<PackageJson, String>)
        ensures
            self.set_version_spec(new_version@, super::opt_str(dependency), r),
    {
        let PackageJson { path, raw, version, mut diff } = self;
        let json = match parse_json(raw.as_str()) {
            Ok(j) => j,
            Err(m) => return Err(m),
        };
        let mut es = match json {
            Json::Object(es) => es,
            _ => return Err(string_of(&chars_of("expected a JSON object"))),
        };
        proof {
            lemma_object_view(es);
        }
        let ghost ev = entries_view(es@);
        let mut vt: Vec<char> = Vec::new();
        new_version.write_to(&mut vt);
        let vs = string_of(&vt);
        match dependency {
            Some(dep) => {
                push_diff(&mut diff, &diff_entry(dep, new_version));
                set_dependency_exec(&mut es, "dependencies", dep, vs.as_str());
                set_dependency_exec(&mut es, "devDependencies", dep, vs.as_str());
            },
            None => {
                push_diff(&mut diff, &diff_entry("version", new_version));
                insert_entry(&mut es, string_of(&chars_of("version")), Json::Str(vs));
            },
        }
        let edited = Json::Object(es);
        proof {
            lemma_object_view(es);
        }
        let text = match pretty_json(&edited) {
            Ok(t) => t,
            Err(m) => return Err(m),
        };
        Ok(PackageJson { path, raw: text, version, diff })
    }

    /// What `write` gives.
    pub open spec fn write_spec(self, r: Option<Action>) -> bool {
        &&& match self@.diff {
                    Some(d) => r matches Some(a) && a@ == (ActionView::WriteToFile { path: self@.path, content: self@.raw, diff: d }),
                    None => r is None,
                }
    }

    /// The action that writes the file, if a version was set.
    pub fn write(self) -> (r: Option<Action>)
        ensures
            self.write_spec(r),
    {
        match self.diff {
            Some(diff) => Some(Action::WriteToFile { path: self.path, content: self.raw, diff }),
            None => None,
        }
    }
}

} // verus!
