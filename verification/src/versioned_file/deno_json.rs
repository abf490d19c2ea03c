//! `deno.json` and `deno.jsonc` files.
use vstd::prelude::*;

use super::package_json::diff_entry_text;
use super::{diff_entry, diff_with, opt_text, push_diff};
use crate::action::{Action, ActionView};
use crate::json::{
    find_key, insert_entry, json_parse, json_pretty, lemma_object_view, obj_get, obj_insert, parse_json,
    pretty_json, Json, JsonView,
};
use crate::jsonc::{strip_json_comments, strip_json_comments_spec};
use crate::semver::{parse_version_spec, version_text, Version, VersionView};
use crate::text::{chars_of, string_of};

verus! {

/// Why a deno.json could not be read.
#[derive(Clone, Debug, PartialEq, Eq)]
pub enum Error {
    /// Could not deserialize the file: the path and the message.
    Deserialize { path: String, source: String },
}

/// A deno.json file.
#[derive(Debug)]
pub struct DenoJson {
    path: String,
    raw: String,
    version: Option<Version>,
    diff: Option<String>,
}

pub struct DenoJsonView {
    pub path: Seq<char>,
    pub raw: Seq<char>,
    pub version: Option<VersionView>,
    pub diff: Option<Seq<char>>,
}

impl View for DenoJson {
    type V = DenoJsonView;

    closed spec fn view(&self) -> DenoJsonView {
        DenoJsonView {
            path: self.path@,
            raw: self.raw@,
            version: crate::versioned_file::go_mod::opt_version_view(self.version),
            diff: opt_text(self.diff),
        }
    }
}

/// The optional version of a JSON object: none where `version` is missing or
/// null; a `version` must otherwise be a string that reads as a version.
pub open spec fn json_opt_version(j: JsonView) -> Option<Option<VersionView>> {
    match j {
        JsonView::Object(es) => match obj_get(es, "version"@) {
            None => Some(None),
            Some(JsonView::Null) => Some(None),
            Some(JsonView::Str(s)) => match parse_version_spec(s) {
                Ok(v) => Some(Some(v)),
                Err(_) => None,
            },
            Some(_) => None,
        },
        _ => None,
    }
}

/// Reads the version of a text as JSON.
pub open spec fn read_opt_version(content: Seq<char>) -> Option<Option<VersionView>> {
    match json_parse(content) {
        Some(j) => json_opt_version(j),
        None => None,
    }
}

/// Reads the version of a deno.json: as JSON, or else as JSON with comments.
pub open spec fn deno_json_version(content: Seq<char>) -> Option<Option<VersionView>> {
    match read_opt_version(content) {
        Some(v) => Some(v),
        None => read_opt_version(strip_json_comments_spec(content)),
    }
}

/// The object that a text holds, read as JSON or else as JSON with comments.
pub open spec fn deno_json_object(raw: Seq<char>) -> Option<Seq<(Seq<char>, JsonView)>> {
    match json_parse(raw) {
        Some(JsonView::Object(es)) => Some(es),
        _ => match json_parse(strip_json_comments_spec(raw)) {
            Some(JsonView::Object(es)) => Some(es),
            _ => None,
        },
    }
}

/// Setting the version: the object with the new `version`, written pretty.
pub open spec fn deno_set_text(raw: Seq<char>, v: VersionView) -> Option<Seq<char>> {
    match deno_json_object(raw) {
        Some(es) => Some(json_pretty(JsonView::Object(obj_insert(es, "version"@, JsonView::Str(version_text(v)))))),
        None => None,
    }
}

/// Reads the optional version of a JSON value.
fn read_opt_json_version(j: &Json) -> (r: Option<Option<Version>>)
    ensures
        match (r, json_opt_version(j@)) {
            (Some(Some(v)), Some(Some(w))) => v@ == w,
            (Some(None), Some(None)) => true,
            (None, None) => true,
            _ => false,
        },
{
    match j {
        Json::Object(es) => {
            proof {
                lemma_object_view(*es);
            }
            match find_key(es, "version") {
                None => Some(None),
                Some(i) => match &es[i].1 {
                    Json::Null => Some(None),
                    Json::Str(s) => match Version::parse(s.as_str()) {
                        Ok(v) => Some(Some(v)),
                        Err(_) => None,
                    },
                    _ => None,
                },
            }
        },
        _ => None,
    }
}

/// The object of a text read as JSON, or else as JSON with comments.
fn read_object(raw: &str) -> (r: Result<Vec<(String, Json)>, String>)
    ensures
        match r {
            Ok(es) => deno_json_object(raw@) == Some(crate::json::entries_view(es@)),
            Err(_) => deno_json_object(raw@) is None,
        },
{
    match parse_json(raw) {
        Ok(Json::Object(es)) => {
            proof {
                lemma_object_view(es);
            }
            return Ok(es);
        },
        _ => {},
    }
    let stripped = strip_json_comments(raw);
    match parse_json(stripped.as_str()) {
        Ok(Json::Object(es)) => {
            proof {
                lemma_object_view(es);
            }
            Ok(es)
        },
        Ok(_) => Err(string_of(&chars_of("expected a JSON object"))),
        Err(m) => Err(m),
    }
}

impl DenoJson {
    /// What `new` gives.
    pub open spec fn new_spec(path: Seq<char>, content: Seq<char>, r: Result<DenoJson, Error>) -> bool {
        &&& match r {
                    Ok(d) => deno_json_version((content)) == Some(d@.version) && d@.path == (path) && d@.raw == (content)
                        && d@.diff is None,
                    Err(Error::Deserialize { path: p, .. }) => p@ == (path) && deno_json_version((content)) is None,
                }
    }

    /// Reads a deno.json, with or without comments; a version is optional.
    pub fn new(path: String, content: String) -> (r: Result<DenoJson, Error>)
        ensures
            Self::new_spec(path@, content@, r),
    {
        let first = match parse_json(content.as_str()) {
            Ok(j) => read_opt_json_version(&j),
            Err(_) => None,
        };
        let version = match first {
            Some(v) => v,
            None => {
                let stripped = strip_json_comments(content.as_str());
                match parse_json(stripped.as_str()) {
                    Ok(j) => match read_opt_json_version(&j) {
                        Some(v) => v,
                        None => {
                            return Err(Error::Deserialize { path, source: string_of(&chars_of("invalid `version`")) });
                        },
                    },
                    Err(m) => return Err(Error::Deserialize { path, source: m }),
                }
            },
        };
        Ok(DenoJson { path, raw: content, version, diff: None })
    }

    pub fn get_version(&self) -> (r: Option<&Version>)
        ensures
            match (r, self@.version) {
                (Some(v), Some(w)) => v@ == w,
                (None, None) => true,
                _ => false,
            },
    {
        match &self.version {
            Some(v) => Some(v),
            None => None,
        }
    }

    pub fn get_path(&self) -> (r: &String)
        ensures
            r@ == self@.path,
    {
        &self.path
    }

    /// What `set_version` gives.
    pub open spec fn set_version_spec(self, new_version: VersionView, dependency: Option<Seq<char>>, r: Result<DenoJson, String>) -> bool {
        &&& dependency is Some ==> (r matches Ok(d) && d@ == self@)
        &&& dependency is None ==> match r {
                    Ok(d) => deno_set_text(self@.raw, new_version) == Some(d@.raw) && d@.path == self@.path
                        && d@.version == Some(new_version)
                        && d@.diff == Some(diff_with(self@.diff, diff_entry_text(None, new_version))),
                    Err(_) => true,
                }
        &&& dependency is None && deno_set_text(self@.raw, new_version) is None ==> r is Err
    }

    /// Sets the version of the package; with a dependency, nothing changes
    /// (dependency versions live in deno.lock).
    pub fn set_version(self, new_version: &Version, dependency: Option<&str>) -> (r: Result<DenoJson, String>)
        ensures
            self.set_version_spec(new_version@, super::opt_str(dependency), r),
    {
        if dependency.is_some() {
            return Ok(self);
        }
        let DenoJson { path, raw, version: _, mut diff } = self;
        let mut es = match read_object(raw.as_str()) {
            Ok(es) => es,
            Err(m) => return Err(m),
        };
        let mut vt: Vec<char> = Vec::new();
        new_version.write_to(&mut vt);
        insert_entry(&mut es, string_of(&chars_of("version")), Json::Str(string_of(&vt)));
        push_diff(&mut diff, &diff_entry("version", new_version));
        let edited = Json::Object(es);
        proof {
            lemma_object_view(es);
        }
        let text = match pretty_json(&edited) {
            Ok(t) => t,
            Err(m) => return Err(m),
        };
        Ok(DenoJson { path, raw: text, version: Some(new_version.duplicate()), diff })
    }

    /// What `write` gives.
    pub open spec fn write_spec(self, r: Option<Action>) -> bool {
        &&& match self@.diff {
                    Some(d) => r matches Some(a) && a@ == (ActionView::WriteToFile { path: self@.path, content: self@.raw, diff: d }),
                    None => r is None,
                }
    }

    /// The action that writes the file, if a version was set.
    pub fn write(self) -> (r: Option<Action>)
        ensures
            self.write_spec(r),
    {
        match self.diff {
            Some(diff) => Some(Action::WriteToFile { path: self.path, content: self.raw, diff }),
            None => None,
        }
    }
}

} // verus!
