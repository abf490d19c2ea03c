//! `pyproject.toml` files: the version at `tool.poetry.version` and/or
//! `project.version`, replaced in the text where it stands.
use vstd::prelude::*;

use super::opt_text;
use crate::action::{Action, ActionView};
use crate::semver::{parse_version_spec, version_text, Version, VersionView};
use crate::text::{chars_eq, chars_of, push_all, push_range, string_of};
use crate::toml::{poetry_version_path, project_version_path, span_view, toml_parses, toml_spanned, toml_version_spans};

verus! {

/// Why a pyproject.toml could not be read, or has no version.
#[derive(Debug)]
pub enum Error {
    /// Could not deserialize the file: the path and the message.
    Deserialization(String, String),
    /// Found conflicting versions.
    InconsistentVersions { project: String, poetry: String, path: String },
    /// No versions were found.
    NoVersions(String),
    Semver(crate::semver::Error),
}

/// A pyproject.toml file.
#[derive(Debug)]
pub struct PyProject {
    pub path: String,
    pub raw_toml: String,
    pub poetry_version: Option<(usize, usize, String)>,
    pub project_version: Option<(usize, usize, String)>,
    pub version: Version,
    pub diff: Option<String>,
}


/// The version of a pyproject.toml: the poetry one and the project one, which must
/// agree where both are there.
pub open spec fn pyproject_version_text(
    poetry: Option<(int, int, Seq<char>)>,
    project: Option<(int, int, Seq<char>)>,
) -> Option<Seq<char>> {
    match (poetry, project) {
        (Some(a), Some(b)) => if a.2 == b.2 {
            Some(a.2)
        } else {
            None
        },
        (Some(a), None) => Some(a.2),
        (None, Some(b)) => Some(b.2),
        (None, None) => None,
    }
}

/// `s` with the characters in `[a, b)` replaced by `rep`, where the range fits.
pub open spec fn replace_span(s: Seq<char>, a: int, b: int, rep: Seq<char>) -> Seq<char> {
    if 0 <= a <= b <= s.len() {
        s.take(a) + rep + s.skip(b)
    } else {
        s
    }
}

/// The text with a version token's content (inside its quotes) replaced.
pub open spec fn replace_token(s: Seq<char>, span: Option<(int, int, Seq<char>)>, rep: Seq<char>) -> Seq<char> {
    match span {
        Some((a, b, _)) => replace_span(s, a + 1, b - 1, rep),
        None => s,
    }
}

fn replace_token_exec(s: Vec<char>, span: &Option<(usize, usize, String)>, rep: &Vec<char>) -> (r: Vec<char>)
    ensures
        r@ == replace_token(s@, span_view(*span), rep@),
{
    match span {
        Some((a, b, _)) => {
            if *b >= 1 && *a < *b - 1 + 1 && *a < s.len() && *b - 1 <= s.len() && *a + 1 <= *b - 1 {
                let start = *a + 1;
                let end = *b - 1;
                let mut out: Vec<char> = Vec::new();
                push_range(&mut out, &s, 0, start);
                push_all(&mut out, rep);
                push_range(&mut out, &s, end, s.len());
                assert(out@ =~= s@.take(start as int) + rep@ + s@.skip(end as int));
                out
            } else {
                s
            }
        },
        None => s,
    }
}

impl PyProject {
    /// What `new` gives.
    pub open spec fn new_spec(path: Seq<char>, raw_toml: Seq<char>, r: Result<PyProject, Error>) -> bool {
        &&& match r {
                    Ok(p) => {
                        &&& toml_parses((raw_toml))
                        &&& p.path@ == (path)
                        &&& p.raw_toml@ == (raw_toml)
                        &&& p.diff is None
                        &&& span_view(p.poetry_version) == toml_spanned((raw_toml), poetry_version_path())
                        &&& span_view(p.project_version) == toml_spanned((raw_toml), project_version_path())
                        &&& pyproject_version_text(span_view(p.poetry_version), span_view(p.project_version)) matches Some(t)
                        &&& parse_version_spec(t) == Ok::<VersionView, Seq<char>>(p.version@)
                    },
                    Err(Error::Deserialization(p, _)) => p@ == (path) && !toml_parses((raw_toml)),
                    Err(Error::NoVersions(p)) => p@ == (path) && toml_spanned((raw_toml), poetry_version_path()) is None
                        && toml_spanned((raw_toml), project_version_path()) is None,
                    Err(Error::InconsistentVersions { project, poetry, path: p }) => {
                        &&& p@ == (path)
                        &&& toml_spanned((raw_toml), poetry_version_path()) matches Some(a)
                        &&& toml_spanned((raw_toml), project_version_path()) matches Some(b)
                        &&& a.2 == poetry@
                        &&& b.2 == project@
                        &&& a.2 != b.2
                    },
                    Err(Error::Semver(e)) => pyproject_version_text(
                        toml_spanned((raw_toml), poetry_version_path()),
                        toml_spanned((raw_toml), project_version_path()),
                    ) matches Some(t) && parse_version_spec(t) == Err::<VersionView, Seq<char>>(e.0@),
                }
    }

    /// Reads the versions; they must agree and read as a version.
    pub fn new(path: String, raw_toml: String) -> (r: Result<PyProject, Error>)
        ensures
            Self::new_spec(path@, raw_toml@, r),
    {
        let (poetry_version, project_version) = match toml_version_spans(raw_toml.as_str()) {
            Ok(v) => v,
            Err(m) => return Err(Error::Deserialization(path, m)),
        };
        let text = match (&poetry_version, &project_version) {
            (Some(a), Some(b)) => {
                if chars_eq(&chars_of(a.2.as_str()), &chars_of(b.2.as_str())) {
                    a.2.clone()
                } else {
                    return Err(Error::InconsistentVersions { project: b.2.clone(), poetry: a.2.clone(), path });
                }
            },
            (Some(a), None) => a.2.clone(),
            (None, Some(b)) => b.2.clone(),
            (None, None) => return Err(Error::NoVersions(path)),
        };
        match Version::parse(text.as_str()) {
            Ok(version) => Ok(PyProject { path, raw_toml, poetry_version, project_version, version, diff: None }),
            Err(e) => Err(Error::Semver(e)),
        }
    }

    /// What `set_version` gives.
    pub open spec fn set_version_spec(self, new_version: VersionView, r: PyProject) -> bool {
        &&& r.path@ == self.path@
        &&& r.raw_toml@ == replace_token(
                    replace_token(self.raw_toml@, span_view(self.poetry_version), version_text(new_version)),
                    span_view(self.project_version),
                    version_text(new_version),
                )
        &&& opt_text(r.diff) == Some(version_text(new_version))
        &&& r.version@ == self.version@
    }

    /// Replaces the poetry version and then the project version where they stand
    /// (by the places found when the file was read); the diff is the new version.
    pub fn set_version(self, new_version: &Version) -> (r: PyProject)
        ensures
            self.set_version_spec(new_version@, r),
    {
        let PyProject { path, raw_toml, poetry_version, project_version, version, diff: _ } = self;
        let mut vt: Vec<char> = Vec::new();
        new_version.write_to(&mut vt);
        let s = chars_of(raw_toml.as_str());
        let s = replace_token_exec(s, &poetry_version, &vt);
        let s = replace_token_exec(s, &project_version, &vt);
        PyProject {
            path,
            raw_toml: string_of(&s),
            poetry_version,
            project_version,
            version,
            diff: Some(string_of(&vt)),
        }
    }

    /// What `write` gives.
    pub open spec fn write_spec(self, r: Option<Action>) -> bool {
        &&& match self.diff {
                    Some(d) => r matches Some(a) && a@ == (ActionView::WriteToFile { path: self.path@, content: self.raw_toml@, diff: d@ }),
                    None => r is None,
                }
    }

    /// The action that writes the file, if a version was set.
    pub fn write(self) -> (r: Option<Action>)
        ensures
            self.write_spec(r),
    {
        match self.diff {
            Some(diff) => Some(Action::WriteToFile { path: self.path, content: self.raw_toml, diff }),
            None => None,
        }
    }
}

} // verus!
