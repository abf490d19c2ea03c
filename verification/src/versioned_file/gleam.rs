//! `gleam.toml` files.
use vstd::prelude::*;

use super::{diff_entry, opt_text};
use crate::action::{Action, ActionView};
use crate::semver::{parse_version_spec, version_text, Version, VersionView};
use crate::text::string_of;
use crate::toml::{
    keys_view, toml_kind, toml_kinds, toml_parse, toml_set, toml_str, toml_strings, toml_text,
    toml_to_string, TomlKind,
};

verus! {

/// Why a gleam.toml could not be read, or has no version.
#[derive(Debug)]
pub enum Error {
    /// Invalid TOML: the path and the message.
    Toml { path: String, source: String },
    /// The file was missing a required property.
    MissingRequiredProperties { path: String, property: &'static str },
    Semver(crate::semver::Error),
}

/// A gleam.toml file.
#[derive(Debug)]
pub struct Gleam {
    pub path: String,
    pub document: toml_edit::DocumentMut,
    pub diff: Option<String>,
}

impl Gleam {
    /// What `new` gives.
    pub open spec fn new_spec(path: Seq<char>, toml: Seq<char>, r: Result<Gleam, Error>) -> bool {
        &&& match r {
                    Ok(g) => g.path@ == (path) && g.diff is None && toml_kinds(g.document).get(Seq::empty())
                        == Some(TomlKind::Table),
                    Err(Error::Toml { path: p, .. }) => p@ == (path),
                    Err(_) => false,
                }
    }

    /// Parses the TOML; its content is not checked yet.
    pub fn new(path: String, toml: &str) -> (r: Result<Gleam, Error>)
        ensures
            Self::new_spec(path@, toml@, r),
    {
        match toml_parse(toml) {
            Ok(document) => Ok(Gleam { path, document, diff: None }),
            Err(source) => Err(Error::Toml { path, source }),
        }
    }

    /// What `get_version` gives.
    pub open spec fn get_version_spec(self, r: Result<Version, Error>) -> bool {
        &&& match toml_strings(self.document).get(seq!["version"@]) {
                    None => r matches Err(Error::MissingRequiredProperties { path: p, property }) && p@ == self.path@
                        && property@ == "version"@,
                    Some(s) => match (r, parse_version_spec(s)) {
                        (Ok(v), Ok(w)) => v@ == w,
                        (Err(Error::Semver(e)), Err(m)) => e.0@ == m,
                        _ => false,
                    },
                }
    }

    /// The version at the top of the file.
    pub fn get_version(&self) -> (r: Result<Version, Error>)
        ensures
            (*self).get_version_spec(r),
    {
        let path = ["version"];
        assert(keys_view(path@) =~= seq!["version"@]);
        match toml_str(&self.document, &path) {
            None => Err(Error::MissingRequiredProperties { path: self.path.clone(), property: "version" }),
            Some(s) => match Version::parse(s.as_str()) {
                Ok(v) => Ok(v),
                Err(e) => Err(Error::Semver(e)),
            },
        }
    }

    /// What `set_version` gives.
    pub open spec fn set_version_spec(self, new_version: VersionView, r: Gleam) -> bool {
        &&& r.path@ == self.path@
        &&& opt_text(r.diff) == Some("version"@ + " = "@ + version_text(new_version))
        &&& toml_kinds(self.document).get(Seq::empty()) == Some(TomlKind::Table) ==> toml_strings(r.document).get(
                    seq!["version"@],
                ) == Some(version_text(new_version))
    }

    /// Sets the version at the top of the file, adding it if it is missing.
    pub fn set_version(self, new_version: &Version) -> (r: Gleam)
        ensures
            self.set_version_spec(new_version@, r),
    {
        let Gleam { path, mut document, diff: _ } = self;
        let mut vt: Vec<char> = Vec::new();
        new_version.write_to(&mut vt);
        let root: [&str; 0] = [];
        let at = ["version"];
        assert(keys_view(root@) =~= Seq::<Seq<char>>::empty());
        assert(keys_view(at@) =~= seq!["version"@]);
        assert(at@.drop_last() =~= root@);
        if toml_kind(&document, &root) == Some(TomlKind::Table) {
            toml_set(&mut document, &at, string_of(&vt).as_str());
        }
        let entry = diff_entry("version", new_version);
        Gleam { path, document, diff: Some(string_of(&entry)) }
    }

    /// What `write` gives.
    pub open spec fn write_spec(self, r: Option<Action>) -> bool {
        &&& match self.diff {
                    Some(d) => r matches Some(a) && a@ == (ActionView::WriteToFile {
                        path: self.path@,
                        content: toml_text(self.document),
                        diff: d@,
                    }),
                    None => r is None,
                }
    }

    /// The action that writes the file, if a version was set.
    pub fn write(self) -> (r: Option<Action>)
        ensures
            self.write_spec(r),
    {
        match self.diff {
            Some(diff) => {
                let content = toml_to_string(&self.document);
                Some(Action::WriteToFile { path: self.path, content, diff })
            },
            None => None,
        }
    }
}

} // verus!
