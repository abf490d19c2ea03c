//! `tauri.conf.json` files (and the platform ones).
use vstd::prelude::*;

use super::package_json::package_json_version;
use super::{opt_text, read_json_version};
use crate::action::{Action, ActionView};
use crate::json::{
    entries_view, find_key, insert_entry, json_parse, json_pretty, lemma_object_view, obj_find, obj_insert,
    parse_json, pretty_json, put_entry, take_entry, Json, JsonView,
};
use crate::semver::{version_text, Version, VersionView};
use crate::text::{chars_of, string_of};

verus! {

/// Why a tauri.conf.json could not be read.
#[derive(Clone, Debug, PartialEq, Eq)]
pub enum Error {
    /// Error deserializing the file: the path and the message.
    Deserialize { path: String, source: String },
}

/// A tauri.conf.json file.
#[derive(Debug)]
pub struct TauriConfJson {
    path: String,
    raw: String,
    version: Version,
    diff: Option<String>,
}

pub struct TauriConfJsonView {
    pub path: Seq<char>,
    pub raw: Seq<char>,
    pub version: VersionView,
    pub diff: Option<Seq<char>>,
}

impl View for TauriConfJson {
    type V = TauriConfJsonView;

    closed spec fn view(&self) -> TauriConfJsonView {
        TauriConfJsonView { path: self.path@, raw: self.raw@, version: self.version@, diff: opt_text(self.diff) }
    }
}

/// In a configuration of the layout that has a top-level `identifier`, the
/// product's name is written under `name`: a top-level `productName` takes that
/// key, in its place, where no `name` is there already.
pub open spec fn product_name_renamed(es: Seq<(Seq<char>, JsonView)>) -> Seq<(Seq<char>, JsonView)> {
    if obj_find(es, "identifier"@) is Some && obj_find(es, "name"@) is None {
        match obj_find(es, "productName"@) {
            Some(i) => es.update(i, ("name"@, es[i].1)),
            None => es,
        }
    } else {
        es
    }
}

/// Setting the version: the text read again as an object, with the new
/// `version` and the product name under its key, written pretty. `None` where
/// the text is not an object.
pub open spec fn tauri_set_text(raw: Seq<char>, v: VersionView) -> Option<Seq<char>> {
    match json_parse(raw) {
        Some(JsonView::Object(es)) => Some(
            json_pretty(JsonView::Object(product_name_renamed(obj_insert(es, "version"@, JsonView::Str(version_text(v)))))),
        ),
        _ => None,
    }
}

impl TauriConfJson {
    /// What `new` gives.
    pub open spec fn new_spec(path: Seq<char>, content: Seq<char>, r: Result<TauriConfJson, Error>) -> bool {
        &&& match r {
                    Ok(p) => package_json_version((content)) == Ok::<VersionView, Seq<char>>(p@.version)
                        && p@.path == (path) && p@.raw == (content) && p@.diff is None,
                    Err(Error::Deserialize { path: p, source }) => p@ == (path)
                        && (json_parse((content)) is None || package_json_version((content)) == Err::<VersionView, Seq<char>>(source@)),
                }
    }

    /// Reads the file: it must be an object with a `version`.
    pub fn new(path: String, content: String) -> (r: Result<TauriConfJson, Error>)
        ensures
            Self::new_spec(path@, content@, r),
    {
        match parse_json(content.as_str()) {
            Ok(j) => match read_json_version(&j) {
                Ok(version) => Ok(TauriConfJson { path, raw: content, version, diff: None }),
                Err(m) => Err(Error::Deserialize { path, source: m }),
            },
            Err(m) => Err(Error::Deserialize { path, source: m }),
        }
    }

    pub fn get_version(&self) -> (r: &Version)
        ensures
            r@ == self@.version,
    {
        &self.version
    }

    pub fn get_path(&self) -> (r: &String)
        ensures
            r@ == self@.path,
    {
        &self.path
    }

    /// What `set_version` gives.
    pub open spec fn set_version_spec(self, new_version: VersionView, r: Result<TauriConfJson, String>) -> bool {
        &&& match r {
                    Ok(p) => tauri_set_text(self@.raw, new_version) == Some(p@.raw) && p@.path == self@.path
                        && p@.version == self@.version && p@.diff == Some(version_text(new_version)),
                    Err(_) => true,
                }
        &&& tauri_set_text(self@.raw, new_version) is None ==> r is Err
        &&& tauri_set_text(self@.raw, new_version) is Some ==> r is Ok
    }

    /// Sets the version; the diff is the new version.
    pub fn set_version(self, new_version: &Version) -> (r: Result<TauriConfJson, String>)
        ensures
            self.set_version_spec(new_version@, r),
    {
        let TauriConfJson { path, raw, version, diff: _ } = self;
        let json = match parse_json(raw.as_str()) {
            Ok(j) => j,
            Err(m) => return Err(m),
        };
        let mut es = match json {
            Json::Object(es) => es,
            _ => return Err(string_of(&chars_of("expected a JSON object"))),
        };
        proof {
            lemma_object_view(es);
        }
        let mut vt: Vec<char> = Vec::new();
        new_version.write_to(&mut vt);
        insert_entry(&mut es, string_of(&chars_of("version")), Json::Str(string_of(&vt)));
        let ghost inserted = entries_view(es@);
        if find_key(&es, "identifier").is_some() && find_key(&es, "name").is_none() {
            match find_key(&es, "productName") {
                Some(i) => {
                    let (_, value) = take_entry(&mut es, i);
                    put_entry(&mut es, i, (string_of(&chars_of("name")), value));
                    assert(entries_view(es@) =~= inserted.update(i as int, ("name"@, inserted[i as int].1)));
                },
                None => {},
            }
        }
        assert(entries_view(es@) == product_name_renamed(inserted));
        let edited = Json::Object(es);
        proof {
            lemma_object_view(es);
        }
        let text = match pretty_json(&edited) {
            Ok(t) => t,
            Err(m) => return Err(m),
        };
        Ok(TauriConfJson { path, raw: text, version, diff: Some(string_of(&vt)) })
    }

    /// What `write` gives.
    pub open spec fn write_spec(self, r: Option<Action>) -> bool {
        &&& match self@.diff {
                    Some(d) => r matches Some(a) && a@ == (ActionView::WriteToFile { path: self@.path, content: self@.raw, diff: d }),
                    None => r is None,
                }
    }

    /// The action that writes the file, if a version was set.
    pub fn write(self) -> (r: Option<Action>)
        ensures
            self.write_spec(r),
    {
        match self.diff {
            Some(diff) => Some(Action::WriteToFile { path: self.path, content: self.raw, diff }),
            None => None,
        }
    }
}

} // verus!
