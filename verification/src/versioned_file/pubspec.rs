//! `pubspec.yaml` files.
use vstd::prelude::*;

use super::{diff_entry, opt_text};
use crate::action::{Action, ActionView};
use crate::semver::{parse_version_spec, version_text, Version, VersionView};
use crate::text::{
    chars_of, has_prefix, lines_in, lines_of, replace_all, replace_exec, string_of, trim, trim_range,
    views_of, slice_chars,
};
use crate::yaml::{yaml_pair, yaml_read_str, yaml_set_str, yaml_top_str, yaml_with, yaml_write_pair};

verus! {

/// Why a pubspec.yaml could not be read.
#[derive(Debug)]
pub enum Error {
    /// Error deserializing the file: the path and the message.
    Deserialize { path: String, source: String },
    Version(crate::semver::Error),
}

/// A pubspec.yaml file.
#[derive(Debug)]
pub struct PubSpec {
    pub path: String,
    pub raw: String,
    pub version: Version,
    pub diff: Option<String>,
}

/// The first line that sets the version.
pub open spec fn first_version_line(ls: Seq<Seq<char>>) -> Option<Seq<char>>
    decreases ls.len(),
{
    if ls.len() == 0 {
        None
    } else if has_prefix(ls[0], "version: "@) {
        Some(ls[0])
    } else {
        first_version_line(ls.drop_first())
    }
}

/// The new text of a pubspec.yaml: its version line replaced by the written pair
/// (trimmed), or, without a version line, the whole mapping written again.
pub open spec fn pubspec_set_text(raw: Seq<char>, v: Seq<char>) -> Option<Seq<char>> {
    match first_version_line(lines_of(raw)) {
        Some(line) => match yaml_pair("version"@, v) {
            Some(p) => Some(replace_all(raw, line, trim(p))),
            None => None,
        },
        None => yaml_with(raw, "version"@, v),
    }
}

impl PubSpec {
    /// What `new` gives.
    pub open spec fn new_spec(path: Seq<char>, content: Seq<char>, r: Result<PubSpec, Error>) -> bool {
        &&& match r {
                    Ok(p) => yaml_top_str((content), "version"@) matches Some(Some(s)) && parse_version_spec(s) == Ok::<
                        VersionView,
                        Seq<char>,
                    >(p.version@) && p.path@ == (path) && p.raw@ == (content) && p.diff is None,
                    Err(Error::Deserialize { path: p, .. }) => p@ == (path) && (yaml_top_str((content), "version"@) is None
                        || yaml_top_str((content), "version"@) == Some(None::<Seq<char>>)),
                    Err(Error::Version(e)) => yaml_top_str((content), "version"@) matches Some(Some(s)) && parse_version_spec(s)
                        == Err::<VersionView, Seq<char>>(e.0@),
                }
    }

    /// Reads a pubspec.yaml: a mapping whose `version` reads as a version.
    pub fn new(path: String, content: String) -> (r: Result<PubSpec, Error>)
        ensures
            Self::new_spec(path@, content@, r),
    {
        match yaml_read_str(content.as_str(), "version") {
            Err(m) => Err(Error::Deserialize { path, source: m }),
            Ok(None) => Err(Error::Deserialize { path, source: string_of(&chars_of("missing field `version`")) }),
            Ok(Some(s)) => match Version::parse(s.as_str()) {
                Ok(version) => Ok(PubSpec { path, raw: content, version, diff: None }),
                Err(e) => Err(Error::Version(e)),
            },
        }
    }

    pub fn get_version(&self) -> (r: &Version)
        ensures
            r@ == self.version@,
    {
        &self.version
    }

    pub fn get_path(&self) -> (r: &String)
        ensures
            r@ == self.path@,
    {
        &self.path
    }

    /// What `set_version` gives.
    pub open spec fn set_version_spec(self, new_version: VersionView, r: Result<PubSpec, String>) -> bool {
        &&& match r {
                    Ok(p) => pubspec_set_text(self.raw@, version_text(new_version)) == Some(p.raw@) && p.path@ == self.path@
                        && p.version@ == self.version@ && opt_text(p.diff) == Some("version"@ + " = "@ + version_text(new_version)),
                    Err(_) => pubspec_set_text(self.raw@, version_text(new_version)) is None,
                }
    }

    /// Sets the version: only the version line is replaced, to keep formatting and
    /// comments; without one, the whole mapping is written again.
    pub fn set_version(self, new_version: &Version) -> (r: Result<PubSpec, String>)
        ensures
            self.set_version_spec(new_version@, r),
    {
        let PubSpec { path, raw, version, diff: _ } = self;
        let mut vt: Vec<char> = Vec::new();
        new_version.write_to(&mut vt);
        let vs = string_of(&vt);
        let cs = chars_of(raw.as_str());
        assert(cs@.subrange(0, cs@.len() as int) =~= cs@);
        let ls = lines_in(&cs, 0, cs.len());
        let ghost lv = views_of(ls@);
        let prefix = chars_of("version: ");
        let mut i: usize = 0;
        assert(lv.skip(0) =~= lv);
        while i < ls.len() && !crate::text::starts_with(&ls[i], &prefix)
            invariant
                i <= ls.len(),
                lv == views_of(ls@),
                prefix@ == "version: "@,
                first_version_line(lv) == first_version_line(lv.skip(i as int)),
            decreases ls.len() - i,
        {
            assert(lv.skip(i as int)[0] == ls@[i as int]@);
            assert(lv.skip(i as int).drop_first() =~= lv.skip(i + 1));
            i = i + 1;
        }
        let new_content = if i < ls.len() {
            assert(lv.skip(i as int)[0] == ls@[i as int]@);
            let pair = match yaml_write_pair("version", vs.as_str()) {
                Ok(p) => p,
                Err(m) => return Err(m),
            };
            let pc = chars_of(pair.as_str());
            let (a, b) = trim_range(&pc, 0, pc.len());
            assert(pc@.subrange(0, pc@.len() as int) =~= pc@);
            let replaced = replace_exec(&cs, &ls[i], &slice_chars(&pc, a, b));
            string_of(&replaced)
        } else {
            assert(lv.skip(i as int).len() == 0);
            match yaml_set_str(raw.as_str(), "version", vs.as_str()) {
                Ok(t) => t,
                Err(m) => return Err(m),
            }
        };
        let entry = diff_entry("version", new_version);
        Ok(PubSpec { path, raw: new_content, version, diff: Some(string_of(&entry)) })
    }

    /// What `write` gives.
    pub open spec fn write_spec(self, r: Option<Action>) -> bool {
        &&& match self.diff {
                    Some(d) => r matches Some(a) && a@ == (ActionView::WriteToFile { path: self.path@, content: self.raw@, diff: d@ }),
                    None => r is None,
                }
    }

    /// The action that writes the file, if a version was set.
    pub fn write(self) -> (r: Option<Action>)
        ensures
            self.write_spec(r),
    {
        match self.diff {
            Some(diff) => Some(Action::WriteToFile { path: self.path, content: self.raw, diff }),
            None => None,
        }
    }
}

} // verus!
