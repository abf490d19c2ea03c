//! `Cargo.lock` files.
use vstd::prelude::*;

use super::cargo::{join_strings, strings_view};
use super::diff_entry;
use crate::action::{Action, ActionView};
use crate::semver::{version_text, Version, VersionView};
use crate::text::{chars_eq, chars_of, join_with, string_of};
use crate::toml::{
    toml_parse, toml_table_count, toml_table_counts, toml_table_set, toml_table_str, toml_table_strings,
    toml_text, toml_to_string,
};

verus! {

/// Why a Cargo.lock could not be read.
#[derive(Debug)]
pub enum Error {
    /// Invalid TOML: the path and the message.
    Toml { path: String, source: String },
}

/// Why a version could not be set in a Cargo.lock.
#[derive(Debug, Clone, PartialEq, Eq)]
pub enum SetError {
    /// Dependency was not specified when setting the version
    MissingDependency,
    /// The file is expected to have an array of packages, but it does not
    MissingPackageArray(String),
    /// Every package is expected to have a 'name' field containing a string, but one does not
    MalformedPackage(String),
}

/// A Cargo.lock file.
#[derive(Debug)]
pub struct CargoLock {
    pub path: String,
    pub document: toml_edit::DocumentMut,
    pub diff: Vec<String>,
}

/// Every package among the first `n` has a name that is a string.
pub open spec fn names_ok(doc: toml_edit::DocumentMut, n: int) -> bool {
    forall|i: int| 0 <= i < n ==> (#[trigger] toml_table_strings(doc).get(("package"@, i, "name"@))) is Some
}

/// Whether package `i` is named `dep`.
pub open spec fn named(doc: toml_edit::DocumentMut, dep: Seq<char>, i: int) -> bool {
    toml_table_strings(doc).get(("package"@, i, "name"@)) == Some(dep)
}

/// How many of the first `k` packages are named `dep`.
pub open spec fn named_count(doc: toml_edit::DocumentMut, dep: Seq<char>, k: int) -> nat
    decreases k,
{
    if k <= 0 {
        0
    } else {
        named_count(doc, dep, k - 1) + if named(doc, dep, k - 1) {
            1nat
        } else {
            0nat
        }
    }
}

/// The document after setting the version `v` of each of the first `k` packages
/// named `dep`: everything else of the arrays of tables stays as it was.
pub open spec fn lock_updated(
    before: toml_edit::DocumentMut,
    after: toml_edit::DocumentMut,
    dep: Seq<char>,
    v: Seq<char>,
    k: int,
) -> bool {
    &&& forall|a: Seq<char>| #[trigger] toml_table_counts(after).get(a) == toml_table_counts(before).get(a)
    &&& forall|t: (Seq<char>, int, Seq<char>)|
        #[trigger] toml_table_strings(after).get(t) == (if t.0 == "package"@ && 0 <= t.1 < k && t.2 == "version"@ && named(
            before,
            dep,
            t.1,
        ) {
            Some(v)
        } else {
            toml_table_strings(before).get(t)
        })
}

proof fn lemma_version_not_name()
    ensures
        "version"@ != "name"@,
{
    reveal_strlit("version");
    reveal_strlit("name");
    assert("version"@.len() != "name"@.len());
}

impl CargoLock {
    /// What `new` gives.
    pub open spec fn new_spec(path: Seq<char>, toml: Seq<char>, r: Result<CargoLock, Error>) -> bool {
        &&& match r {
                    Ok(c) => c.path@ == (path) && c.diff@.len() == 0,
                    Err(Error::Toml { path: p, .. }) => p@ == (path),
                }
    }

    /// Parses the TOML.
    pub fn new(path: String, toml: &str) -> (r: Result<CargoLock, Error>)
        ensures
            Self::new_spec(path@, toml@, r),
    {
        match toml_parse(toml) {
            Ok(document) => Ok(CargoLock { path, document, diff: Vec::new() }),
            Err(source) => Err(Error::Toml { path, source }),
        }
    }

    /// What `set_version` gives.
    pub open spec fn set_version_spec(self, new_version: VersionView, dependency: Option<Seq<char>>, r: Result<CargoLock, SetError>) -> bool {
        match dependency {
            None => r == Err::<CargoLock, SetError>(SetError::MissingDependency),
            Some(dep) => match toml_table_counts(self.document).get("package"@) {
                None => r matches Err(SetError::MissingPackageArray(p)) && p@ == self.path@,
                Some(n) => if names_ok(self.document, n as int) {
                    r matches Ok(c) && c.path@ == self.path@ && lock_updated(
                        self.document,
                        c.document,
                        dep,
                        version_text(new_version),
                        n as int,
                    ) && strings_view(c.diff@) == strings_view(self.diff@) + Seq::new(
                        named_count(self.document, dep, n as int),
                        |_k: int| dep + " = "@ + version_text(new_version),
                    )
                } else {
                    r matches Err(SetError::MalformedPackage(p)) && p@ == self.path@
                },
            },
        }
    }

    /// Sets the version of the packages named `dependency`, in the array of tables
    /// `package`; each gets an entry in the diff.
    pub fn set_version(self, new_version: &Version, dependency: Option<&str>) -> (r: Result<CargoLock, SetError>)
        ensures
            self.set_version_spec(new_version@, super::opt_str(dependency), r),
    {
        let dep = match dependency {
            Some(d) => d,
            None => return Err(SetError::MissingDependency),
        };
        let CargoLock { path, mut document, mut diff } = self;
        let count = match toml_table_count(&document, "package") {
            Some(n) => n,
            None => return Err(SetError::MissingPackageArray(path)),
        };
        let mut vt: Vec<char> = Vec::new();
        new_version.write_to(&mut vt);
        let vs = string_of(&vt);
        let dep_chars = chars_of(dep);
        let ghost entry_view = dep@ + " = "@ + version_text(new_version@);
        proof {
            lemma_version_not_name();
        }
        let mut i: usize = 0;
        while i < count
            invariant
                i <= count,
                toml_table_counts(self.document).get("package"@) == Some(count as nat),
                dep_chars@ == dep@,
                vs@ == version_text(new_version@),
                entry_view == dep@ + " = "@ + version_text(new_version@),
                dependency == Some(dep),
                path@ == self.path@,
                "version"@ != "name"@,
                names_ok(self.document, i as int),
                lock_updated(self.document, document, dep@, vs@, i as int),
                strings_view(diff@) == strings_view(self.diff@) + Seq::new(
                    named_count(self.document, dep@, i as int),
                    |_k: int| entry_view,
                ),
            decreases count - i,
        {
            assert(toml_table_strings(document).get(("package"@, i as int, "name"@)) == toml_table_strings(
                self.document,
            ).get(("package"@, i as int, "name"@)));
            let name = match toml_table_str(&document, "package", i, "name") {
                Some(n) => n,
                None => {
                    assert(!names_ok(self.document, count as int));
                    return Err(SetError::MalformedPackage(path));
                },
            };
            let ghost doc_before = document;
            let ghost diff_before = strings_view(diff@);
            let ghost prefix = Seq::new(named_count(self.document, dep@, i as int), |_k: int| entry_view);
            if chars_eq(&chars_of(name.as_str()), &dep_chars) {
                assert(named(self.document, dep@, i as int));
                let entry = diff_entry(dep, new_version);
                diff.push(string_of(&entry));
                assert(entry@ == entry_view);
                assert(strings_view(diff@) =~= diff_before.push(entry_view));
                assert(Seq::new(named_count(self.document, dep@, i + 1), |_k: int| entry_view) =~= prefix.push(entry_view));
                assert(diff_before == strings_view(self.diff@) + prefix);
                assert((strings_view(self.diff@) + prefix).push(entry_view) =~= strings_view(self.diff@) + prefix.push(
                    entry_view,
                ));
                assert(strings_view(diff@) =~= strings_view(self.diff@) + Seq::new(
                    named_count(self.document, dep@, i + 1),
                    |_k: int| entry_view,
                ));
                toml_table_set(&mut document, "package", i, "version", vs.as_str());
            } else {
                assert(!named(self.document, dep@, i as int));
                assert(Seq::new(named_count(self.document, dep@, i + 1), |_k: int| entry_view) =~= prefix);
                assert(strings_view(diff@) =~= strings_view(self.diff@) + Seq::new(
                    named_count(self.document, dep@, i + 1),
                    |_k: int| entry_view,
                ));
            }
            proof {
                assert(strings_view(diff@) =~= strings_view(self.diff@) + Seq::new(
                    named_count(self.document, dep@, i + 1),
                    |_k: int| entry_view,
                ));
                assert forall|t: (Seq<char>, int, Seq<char>)|
                    #[trigger] toml_table_strings(document).get(t) == (if t.0 == "package"@ && 0 <= t.1 < i + 1 && t.2
                        == "version"@ && named(self.document, dep@, t.1) {
                        Some(vs@)
                    } else {
                        toml_table_strings(self.document).get(t)
                    }) by {
                    assert(toml_table_strings(doc_before).get(t) == (if t.0 == "package"@ && 0 <= t.1 < i && t.2
                        == "version"@ && named(self.document, dep@, t.1) {
                        Some(vs@)
                    } else {
                        toml_table_strings(self.document).get(t)
                    }));
                }
            }
            i = i + 1;
        }
        assert(names_ok(self.document, count as int));
        Ok(CargoLock { path, document, diff })
    }

    /// What `write` gives.
    pub open spec fn write_spec(self, r: Option<Action>) -> bool {
        &&& self.diff@.len() == 0 ==> r is None
        &&& self.diff@.len() > 0 ==> (r matches Some(a) && a@ == (ActionView::WriteToFile {
                    path: self.path@,
                    content: toml_text(self.document),
                    diff: join_with(strings_view(self.diff@), ", "@),
                }))
    }

    /// The action that writes the file, if a version was set.
    pub fn write(self) -> (r: Option<Action>)
        ensures
            self.write_spec(r),
    {
        if self.diff.len() == 0 {
            return None;
        }
        let content = toml_to_string(&self.document);
        let diff = join_strings(&self.diff, ", ");
        Some(Action::WriteToFile { path: self.path, content, diff })
    }
}

} // verus!
