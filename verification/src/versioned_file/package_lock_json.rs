//! `package-lock.json` files.
use vstd::prelude::*;

use super::package_json::{diff_entry_text, set_dependency, set_dependency_exec};
use super::{diff_entry, diff_with, opt_text, push_diff};
use crate::action::{Action, ActionView};
use crate::json::{
    at_key, entries_view, find_key, get_str, insert_entry, json_parse, json_pretty, lemma_obj_find,
    lemma_object_view, obj_insert, on_object, parse_json, pretty_json, put_entry, str_at, take_entry,
    Json, JsonView,
};
use crate::semver::{parse_version_spec, version_text, Version, VersionView};
use crate::text::{chars_eq, chars_of, string_of};

verus! {

/// Why a package-lock.json could not be read, or has no version.
#[derive(Debug)]
pub enum Error {
    /// Error deserializing the file: the path and the message.
    Deserialize { path: String, source: String },
    /// The file did not have a `version` field.
    MissingVersion(String),
    /// The `version` is not a version.
    InvalidVersion { path: String, source: crate::semver::Error },
}

/// A package-lock.json file.
#[derive(Debug)]
pub struct PackageLockJson {
    path: String,
    parsed: Json,
    diff: Option<String>,
}

pub struct PackageLockJsonView {
    pub path: Seq<char>,
    pub parsed: JsonView,
    pub diff: Option<Seq<char>>,
}

impl View for PackageLockJson {
    type V = PackageLockJsonView;

    closed spec fn view(&self) -> PackageLockJsonView {
        PackageLockJsonView { path: self.path@, parsed: self.parsed@, diff: opt_text(self.diff) }
    }
}

/// The `version` string of a JSON object.
pub open spec fn top_version(j: JsonView) -> Option<Seq<char>> {
    match j {
        JsonView::Object(es) => str_at(es, "version"@),
        _ => None,
    }
}

/// A package of the lock file, for a new version `v` of `dep`: its own version
/// if it is `dep`, and its entries for `dep` among its dependencies.
pub open spec fn package_update(p: JsonView, dep: Seq<char>, v: Seq<char>) -> JsonView {
    on_object(
        p,
        |es: Seq<(Seq<char>, JsonView)>|
            set_dependency(
                set_dependency(
                    if str_at(es, "name"@) == Some(dep) {
                        obj_insert(es, "version"@, JsonView::Str(v))
                    } else {
                        es
                    },
                    "dependencies"@,
                    dep,
                    v,
                ),
                "devDependencies"@,
                dep,
                v,
            ),
    )
}

/// Every package of the lock file updated.
pub open spec fn packages_update(ps: Seq<(Seq<char>, JsonView)>, dep: Seq<char>, v: Seq<char>) -> Seq<(Seq<char>, JsonView)> {
    Seq::new(ps.len(), |i: int| (ps[i].0, package_update(ps[i].1, dep, v)))
}

/// The lock file with the new version `v`: of `dep` in every package, or of the
/// root package (at the top and at `packages[""]`).
pub open spec fn lock_update(j: JsonView, dependency: Option<Seq<char>>, v: Seq<char>) -> JsonView {
    match dependency {
        Some(dep) => on_object(
            j,
            |es: Seq<(Seq<char>, JsonView)>|
                at_key(es, "packages"@, |p: JsonView| on_object(p, |ps: Seq<(Seq<char>, JsonView)>| packages_update(ps, dep, v))),
        ),
        None => on_object(
            j,
            |es: Seq<(Seq<char>, JsonView)>|
                at_key(
                    obj_insert(es, "version"@, JsonView::Str(v)),
                    "packages"@,
                    |p: JsonView|
                        on_object(
                            p,
                            |ps: Seq<(Seq<char>, JsonView)>|
                                at_key(
                                    ps,
                                    ""@,
                                    |r: JsonView|
                                        on_object(
                                            r,
                                            |rs: Seq<(Seq<char>, JsonView)>| obj_insert(rs, "version"@, JsonView::Str(v)),
                                        ),
                                ),
                        ),
                ),
        ),
    }
}

/// Updates one package.
fn update_package(p: Json, dep: &str, v: &str) -> (r: Json)
    ensures
        r@ == package_update(p@, dep@, v@),
{
    match p {
        Json::Object(mut es) => {
            proof {
                lemma_object_view(es);
            }
            let ghost e0 = entries_view(es@);
            let name = get_str(&es, "name");
            let is_dep = match &name {
                Some(n) => chars_eq(&chars_of(n.as_str()), &chars_of(dep)),
                None => false,
            };
            if is_dep {
                insert_entry(&mut es, string_of(&chars_of("version")), Json::Str(string_of(&chars_of(v))));
            }
            set_dependency_exec(&mut es, "dependencies", dep, v);
            set_dependency_exec(&mut es, "devDependencies", dep, v);
            proof {
                lemma_object_view(es);
            }
            Json::Object(es)
        },
        other => other,
    }
}

/// Applies `update_package` to the value of every entry.
fn update_packages(ps: &mut Vec<(String, Json)>, dep: &str, v: &str)
    ensures
        entries_view(final(ps)@) == packages_update(entries_view(old(ps)@), dep@, v@),
{
    let ghost orig = entries_view(ps@);
    let mut i: usize = 0;
    while i < ps.len()
        invariant
            i <= ps.len(),
            ps@.len() == orig.len(),
            entries_view(ps@) == Seq::new(
                orig.len(),
                |j: int| if j < i { (orig[j].0, package_update(orig[j].1, dep@, v@)) } else { orig[j] },
            ),
        decreases ps.len() - i,
    {
        let ghost before = entries_view(ps@);
        let (k, p) = take_entry(ps, i);
        let np = update_package(p, dep, v);
        put_entry(ps, i, (k, np));
        assert(entries_view(ps@) =~= Seq::new(
            orig.len(),
            |j: int| if j < i + 1 { (orig[j].0, package_update(orig[j].1, dep@, v@)) } else { orig[j] },
        ));
        i = i + 1;
    }
    assert(entries_view(ps@) =~= packages_update(orig, dep@, v@));
}

impl PackageLockJson {
    /// What `new` gives.
    pub open spec fn new_spec(path: Seq<char>, content: Seq<char>, r: Result<PackageLockJson, Error>) -> bool {
        &&& match r {
                    Ok(p) => json_parse((content)) == Some(p@.parsed) && p@.path == (path) && p@.diff is None,
                    Err(Error::Deserialize { path: p, .. }) => p@ == (path) && json_parse((content)) is None,
                    Err(_) => false,
                }
    }

    /// Reads a package-lock.json: any JSON.
    pub fn new(path: String, content: &str) -> (r: Result<PackageLockJson, Error>)
        ensures
            Self::new_spec(path@, content@, r),
    {
        match parse_json(content) {
            Ok(parsed) => Ok(PackageLockJson { path, parsed, diff: None }),
            Err(m) => Err(Error::Deserialize { path, source: m }),
        }
    }

    /// What `get_version` gives.
    pub open spec fn get_version_spec(self, r: Result<Version, Error>) -> bool {
        &&& match top_version(self@.parsed) {
                    None => r matches Err(Error::MissingVersion(p)) && p@ == self@.path,
                    Some(s) => match (r, parse_version_spec(s)) {
                        (Ok(v), Ok(w)) => v@ == w,
                        (Err(Error::InvalidVersion { path: p, source }), Err(m)) => p@ == self@.path && source.0@ == m,
                        _ => false,
                    },
                }
    }

    /// The version at the top of the file.
    pub fn get_version(&self) -> (r: Result<Version, Error>)
        ensures
            (*self).get_version_spec(r),
    {
        let text = match &self.parsed {
            Json::Object(es) => {
                proof {
                    lemma_object_view(*es);
                }
                get_str(es, "version")
            },
            _ => None,
        };
        match text {
            None => Err(Error::MissingVersion(self.path.clone())),
            Some(t) => match Version::parse(t.as_str()) {
                Ok(v) => Ok(v),
                Err(e) => Err(Error::InvalidVersion { path: self.path.clone(), source: e }),
            },
        }
    }

    pub fn get_path(&self) -> (r: &String)
        ensures
            r@ == self@.path,
    {
        &self.path
    }

    /// What `set_version` gives.
    pub open spec fn set_version_spec(self, new_version: VersionView, dependency: Option<Seq<char>>, r: PackageLockJson) -> bool {
        &&& r@.path == self@.path
        &&& r@.parsed == lock_update(self@.parsed, dependency, version_text(new_version))
        &&& r@.diff == Some(diff_with(self@.diff, diff_entry_text(dependency, new_version)))
    }

    /// Sets the version of a dependency in every package, or of the root package.
    pub fn set_version(self, new_version: &Version, dependency: Option<&str>) -> (r: PackageLockJson)
        ensures
            self.set_version_spec(new_version@, super::opt_str(dependency), r),
    {
        let PackageLockJson { path, parsed, mut diff } = self;
        let mut vt: Vec<char> = Vec::new();
        new_version.write_to(&mut vt);
        let vs = string_of(&vt);
        let parsed = match dependency {
            Some(dep) => {
                push_diff(&mut diff, &diff_entry(dep, new_version));
                match parsed {
                    Json::Object(mut es) => {
                        proof {
                            lemma_object_view(es);
                        }
                        let ghost ev = entries_view(es@);
                        match find_key(&es, "packages") {
                            Some(i) => {
                                proof {
                                    lemma_obj_find(ev, "packages"@);
                                }
                                let (k, p) = take_entry(&mut es, i);
                                let np = match p {
                                    Json::Object(mut ps) => {
                                        proof {
                                            lemma_object_view(ps);
                                        }
                                        update_packages(&mut ps, dep, vs.as_str());
                                        proof {
                                            lemma_object_view(ps);
                                        }
                                        Json::Object(ps)
                                    },
                                    other => other,
                                };
                                put_entry(&mut es, i, (k, np));
                                assert(entries_view(es@) =~= at_key(
                                    ev,
                                    "packages"@,
                                    |p: JsonView| on_object(p, |ps: Seq<(Seq<char>, JsonView)>| packages_update(ps, dep@, vs@)),
                                ));
                            },
                            None => {},
                        }
                        proof {
                            lemma_object_view(es);
                        }
                        Json::Object(es)
                    },
                    other => other,
                }
            },
            None => {
                push_diff(&mut diff, &diff_entry("version", new_version));
                match parsed {
                    Json::Object(mut es) => {
                        proof {
                            lemma_object_view(es);
                        }
                        insert_entry(&mut es, string_of(&chars_of("version")), Json::Str(string_of(&vt)));
                        let ghost ev = entries_view(es@);
                        match find_key(&es, "packages") {
                            Some(i) => {
                                proof {
                                    lemma_obj_find(ev, "packages"@);
                                }
                                let (k, p) = take_entry(&mut es, i);
                                let np = match p {
                                    Json::Object(mut ps) => {
                                        proof {
                                            lemma_object_view(ps);
                                        }
                                        let ghost pv = entries_view(ps@);
                                        match find_key(&ps, "") {
                                            Some(r) => {
                                                proof {
                                                    lemma_obj_find(pv, ""@);
                                                }
                                                let (rk, root) = take_entry(&mut ps, r);
                                                let nroot = match root {
                                                    Json::Object(mut rs) => {
                                                        proof {
                                                            lemma_object_view(rs);
                                                        }
                                                        insert_entry(
                                                            &mut rs,
                                                            string_of(&chars_of("version")),
                                                            Json::Str(string_of(&vt)),
                                                        );
                                                        proof {
                                                            lemma_object_view(rs);
                                                        }
                                                        Json::Object(rs)
                                                    },
                                                    other => other,
                                                };
                                                put_entry(&mut ps, r, (rk, nroot));
                                                assert(entries_view(ps@) =~= at_key(
                                                    pv,
                                                    ""@,
                                                    |r: JsonView| on_object(r, |rs: Seq<(Seq<char>, JsonView)>| obj_insert(rs, "version"@, JsonView::Str(vs@))),
                                                ));
                                            },
                                            None => {},
                                        }
                                        proof {
                                            lemma_object_view(ps);
                                        }
                                        Json::Object(ps)
                                    },
                                    other => other,
                                };
                                put_entry(&mut es, i, (k, np));
                                assert(entries_view(es@) =~= at_key(
                                    ev,
                                    "packages"@,
                                    |p: JsonView|
                                        on_object(
                                            p,
                                            |ps: Seq<(Seq<char>, JsonView)>|
                                                at_key(
                                                    ps,
                                                    ""@,
                                                    |r: JsonView| on_object(r, |rs: Seq<(Seq<char>, JsonView)>| obj_insert(rs, "version"@, JsonView::Str(vs@))),
                                                ),
                                        ),
                                ));
                            },
                            None => {},
                        }
                        proof {
                            lemma_object_view(es);
                        }
                        Json::Object(es)
                    },
                    other => other,
                }
            },
        };
        PackageLockJson { path, parsed, diff }
    }

    /// What `write` gives.
    pub open spec fn write_spec(self, r: Option<Action>) -> bool {
        &&& match self@.diff {
                    Some(d) => r matches Some(a) && a@ == (ActionView::WriteToFile {
                        path: self@.path,
                        content: json_pretty(self@.parsed),
                        diff: d,
                    }),
                    None => r is None,
                }
    }

    /// The action that writes the file pretty, if a version was set.
    pub fn write(self) -> (r: Option<Action>)
        ensures
            self.write_spec(r),
    {
        match self.diff {
            Some(diff) => match pretty_json(&self.parsed) {
                Ok(content) => Some(Action::WriteToFile { path: self.path, content, diff }),
                Err(_) => None,
            },
            None => None,
        }
    }
}

} // verus!
