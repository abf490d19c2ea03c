//! Maven `pom.xml` files: the version of the project.
use vstd::prelude::*;

use super::opt_text;
use crate::action::{Action, ActionView};
use crate::semver::{parse_version_spec, version_text, Version, VersionView};
use crate::text::{chars_eq, chars_of, push_str, string_of};
use crate::xml::{
    xml_child_names, xml_child_text, xml_child_texts, xml_element_name, xml_insert_child, xml_name,
    xml_names, xml_parse, xml_set_child_text, xml_text, xml_write,
};

verus! {

/// Why a pom.xml could not be read or written, or has no version.
#[derive(Debug)]
pub enum Error {
    /// Invalid XML: the path and the message.
    Xml { path: String, source: String },
    /// Failed to serialize XML: the path and the message.
    Serialize { path: String, source: String },
    /// The file was missing a required property.
    MissingRequiredProperties { path: String, property: &'static str },
    Semver(crate::semver::Error),
}

/// A pom.xml file.
#[derive(Debug)]
pub struct MavenPom {
    pub path: String,
    pub raw: String,
    pub project: xmltree::Element,
    pub diff: Option<String>,
}

/// The first child element named `name`.
pub open spec fn first_child(names: Seq<Option<Seq<char>>>, name: Seq<char>) -> Option<int>
    decreases names.len(),
{
    if names.len() == 0 {
        None
    } else if names.last() == Some(name) && first_child(names.drop_last(), name) is None {
        Some(names.len() - 1)
    } else {
        first_child(names.drop_last(), name)
    }
}

proof fn lemma_first_child(names: Seq<Option<Seq<char>>>, name: Seq<char>)
    ensures
        match first_child(names, name) {
            Some(i) => 0 <= i < names.len() && names[i] == Some(name) && forall|j: int| 0 <= j < i ==> names[j] != Some(name),
            None => forall|j: int| 0 <= j < names.len() ==> names[j] != Some(name),
        },
    decreases names.len(),
{
    if names.len() > 0 {
        let d = names.drop_last();
        lemma_first_child(d, name);
        assert forall|j: int| 0 <= j < d.len() implies d[j] == names[j] by {}
    }
}

proof fn lemma_first_child_at(names: Seq<Option<Seq<char>>>, name: Seq<char>, i: int)
    requires
        0 <= i < names.len(),
        names[i] == Some(name),
        forall|j: int| 0 <= j < i ==> names[j] != Some(name),
    ensures
        first_child(names, name) == Some(i),
{
    lemma_first_child(names, name);
    match first_child(names, name) {
        Some(k) => {
            if k < i {
                assert(names[k] != Some(name));
            } else if i < k {
                assert(names[i] != Some(name));
            }
        },
        None => {
            assert(names[i] != Some(name));
        },
    }
}

/// Where the child named `name` is, among the children.
fn find_child(names: &Vec<Option<String>>, name: &str, spec_names: Ghost<Seq<Option<Seq<char>>>>) -> (r: Option<usize>)
    requires
        names@.len() == spec_names@.len(),
        forall|i: int|
            0 <= i < names@.len() ==> match (#[trigger] names@[i], spec_names@[i]) {
                (Some(a), Some(b)) => a@ == b,
                (None, None) => true,
                _ => false,
            },
    ensures
        match r {
            Some(i) => first_child(spec_names@, name@) == Some(i as int) && i < names@.len(),
            None => first_child(spec_names@, name@) is None,
        },
{
    let target = chars_of(name);
    let mut i: usize = 0;
    while i < names.len()
        invariant
            i <= names.len(),
            target@ == name@,
            names@.len() == spec_names@.len(),
            forall|k: int|
                0 <= k < names@.len() ==> match (#[trigger] names@[k], spec_names@[k]) {
                    (Some(a), Some(b)) => a@ == b,
                    (None, None) => true,
                    _ => false,
                },
            forall|j: int| 0 <= j < i ==> spec_names@[j] != Some(name@),
        decreases names.len() - i,
    {
        let found = match &names[i] {
            Some(n) => chars_eq(&chars_of(n.as_str()), &target),
            None => false,
        };
        proof {
            let _ = names@[i as int];
        }
        if found {
            proof {
                lemma_first_child_at(spec_names@, name@, i as int);
            }
            return Some(i);
        }
        i = i + 1;
    }
    proof {
        lemma_first_child(spec_names@, name@);
        if let Some(j) = first_child(spec_names@, name@) {
            assert(spec_names@[j] == Some(name@));
        }
    }
    None
}

/// Where a new version element goes: after the first `artifactId`, or at the end.
pub open spec fn version_position(names: Seq<Option<Seq<char>>>) -> int {
    match first_child(names, "artifactId"@) {
        Some(i) => i + 1,
        None => names.len() as int,
    }
}

impl MavenPom {
    /// What `new` gives.
    pub open spec fn new_spec(path: Seq<char>, content: Seq<char>, r: Result<MavenPom, Error>) -> bool {
        &&& match r {
                    Ok(p) => xml_name(p.project) == "project"@ && p.path@ == (path) && p.raw@ == (content) && p.diff is None
                        && xml_child_texts(p.project).len() == xml_child_names(p.project).len(),
                    Err(Error::Xml { path: p, .. }) => p@ == (path),
                    Err(Error::MissingRequiredProperties { path: p, property }) => p@ == (path) && property@ == "project"@,
                    Err(_) => false,
                }
    }

    /// Reads a pom.xml: its root must be a `project`.
    pub fn new(path: String, content: String) -> (r: Result<MavenPom, Error>)
        ensures
            Self::new_spec(path@, content@, r),
    {
        let element = match xml_parse(content.as_str()) {
            Ok(e) => e,
            Err(source) => return Err(Error::Xml { path, source }),
        };
        let name = xml_element_name(&element);
        if !chars_eq(&chars_of(name.as_str()), &chars_of("project")) {
            return Err(Error::MissingRequiredProperties { path, property: "project" });
        }
        Ok(MavenPom { path, raw: content, project: element, diff: None })
    }

    /// What `get_version` gives.
    pub open spec fn get_version_spec(self, r: Result<Version, Error>) -> bool {
        &&& match first_child(xml_child_names(self.project), "version"@) {
                    Some(i) => match xml_child_texts(self.project)[i] {
                        Some(t) => match (r, parse_version_spec(t)) {
                            (Ok(v), Ok(w)) => v@ == w,
                            (Err(Error::Semver(e)), Err(m)) => e.0@ == m,
                            _ => false,
                        },
                        None => r matches Err(Error::MissingRequiredProperties { property, .. }) && property@ == "project.version"@,
                    },
                    None => r matches Err(Error::MissingRequiredProperties { property, .. }) && property@ == "project.version"@,
                }
    }

    /// The text of the project's `version`.
    pub fn get_version(&self) -> (r: Result<Version, Error>)
        requires
            xml_child_texts(self.project).len() == xml_child_names(self.project).len(),
        ensures
            (*self).get_version_spec(r),
    {
        let names = xml_names(&self.project);
        match find_child(&names, "version", Ghost(xml_child_names(self.project))) {
            Some(i) => match xml_child_text(&self.project, i) {
                Some(t) => match Version::parse(t.as_str()) {
                    Ok(v) => Ok(v),
                    Err(e) => Err(Error::Semver(e)),
                },
                None => Err(Error::MissingRequiredProperties { path: self.path.clone(), property: "project.version" }),
            },
            None => Err(Error::MissingRequiredProperties { path: self.path.clone(), property: "project.version" }),
        }
    }

    /// What `set_version` gives.
    pub open spec fn set_version_spec(self, new_version: VersionView, r: Result<MavenPom, Error>) -> bool {
        &&& match r {
                    Ok(p) => {
                        &&& xml_name(p.project) == xml_name(self.project)
                        &&& xml_child_texts(p.project).len() == xml_child_names(p.project).len()
                        &&& first_child(xml_child_names(p.project), "version"@) matches Some(i)
                        &&& xml_child_texts(p.project)[i] == Some(version_text(new_version))
                        &&& xml_text(p.project) == Some(p.raw@)
                        &&& p.path@ == self.path@
                        &&& opt_text(p.diff) == Some("project.version = "@ + version_text(new_version))
                    },
                    Err(Error::Serialize { path: p, .. }) => p@ == self.path@,
                    Err(_) => false,
                }
        &&& first_child(xml_child_names(self.project), "version"@) is None ==> (r matches Ok(p) ==> xml_child_names(p.project)
                    == xml_child_names(self.project).insert(version_position(xml_child_names(self.project)), Some("version"@)))
    }

    /// Sets the project's version (adding the element after `artifactId`, or at the
    /// end, if it is missing) and writes the project again.
    pub fn set_version(self, new_version: &Version) -> (r: Result<MavenPom, Error>)
        requires
            xml_child_texts(self.project).len() == xml_child_names(self.project).len(),
        ensures
            self.set_version_spec(new_version@, r),
    {
        let MavenPom { path, raw: _, mut project, diff: _ } = self;
        let ghost names0 = xml_child_names(project);
        let names = xml_names(&project);
        let index = match find_child(&names, "version", Ghost(xml_child_names(project))) {
            Some(i) => i,
            None => {
                let n = names.len();
                let pos = match find_child(&names, "artifactId", Ghost(xml_child_names(project))) {
                    Some(i) => {
                        assert(i < n);
                        i + 1
                    },
                    None => names.len(),
                };
                proof {
                    lemma_first_child(names0, "artifactId"@);
                    lemma_first_child(names0, "version"@);
                }
                xml_insert_child(&mut project, pos, "version");
                proof {
                    let n1 = xml_child_names(project);
                    assert(n1[pos as int] == Some("version"@));
                    assert forall|j: int| 0 <= j < pos implies n1[j] != Some("version"@) by {
                        assert(n1[j] == names0[j]);
                    }
                    lemma_first_child_at(n1, "version"@, pos as int);
                }
                pos
            },
        };
        let mut vt: Vec<char> = Vec::new();
        new_version.write_to(&mut vt);
        proof {
            lemma_first_child(xml_child_names(project), "version"@);
        }
        xml_set_child_text(&mut project, index, string_of(&vt).as_str());
        let mut diff = chars_of("project.version = ");
        new_version.write_to(&mut diff);
        let raw = match xml_write(&project) {
            Ok(s) => s,
            Err(source) => return Err(Error::Serialize { path, source }),
        };
        Ok(MavenPom { path, raw, project, diff: Some(string_of(&diff)) })
    }

    /// What `write` gives.
    pub open spec fn write_spec(self, r: Option<Action>) -> bool {
        &&& match self.diff {
                    Some(d) => r matches Some(a) && a@ == (ActionView::WriteToFile { path: self.path@, content: self.raw@, diff: d@ }),
                    None => r is None,
                }
    }

    /// The action that writes the file, if a version was set.
    pub fn write(self) -> (r: Option<Action>)
        ensures
            self.write_spec(r),
    {
        match self.diff {
            Some(diff) => Some(Action::WriteToFile { path: self.path, content: self.raw, diff }),
            None => None,
        }
    }
}

} // verus!
