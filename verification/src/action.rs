//! The actions that finish a release, and the tags that mark releases.
use vstd::prelude::*;

use crate::package::{Name, NameView};
use crate::release_notes::release::{Release, ReleaseView};
use crate::semver::{lacks, lemma_parse_version_text, parse_version_spec, version_text, Version, VersionView};
use crate::text::{chars_of, has_prefix, push_str, starts_with, string_of};

verus! {

/// Actions to take to finish updating a package.
#[derive(Clone, Debug, PartialEq, Eq)]
pub enum Action {
    WriteToFile { path: String, content: String, diff: String },
    RemoveFile { path: String },
    AddTag { tag: String },
    CreateRelease(Release),
}

pub enum ActionView {
    WriteToFile { path: Seq<char>, content: Seq<char>, diff: Seq<char> },
    RemoveFile { path: Seq<char> },
    AddTag { tag: Seq<char> },
    CreateRelease(ReleaseView),
}

impl View for Action {
    type V = ActionView;

    open spec fn view(&self) -> ActionView {
        match self {
            Action::WriteToFile { path, content, diff } => ActionView::WriteToFile {
                path: path@,
                content: content@,
                diff: diff@,
            },
            Action::RemoveFile { path } => ActionView::RemoveFile { path: path@ },
            Action::AddTag { tag } => ActionView::AddTag { tag: tag@ },
            Action::CreateRelease(r) => ActionView::CreateRelease(r@),
        }
    }
}

pub open spec fn actions_view(v: Seq<Action>) -> Seq<ActionView> {
    v.map_values(|a: Action| a@)
}

/// The tag that marks a release of a package.
#[derive(Clone, Debug, PartialEq, Eq)]
pub struct ReleaseTag(String);

impl View for ReleaseTag {
    type V = Seq<char>;

    closed spec fn view(&self) -> Seq<char> {
        self.0@
    }
}

/// The prefix of a package's tags: `v`, or `{name}/v` for a custom name.
pub open spec fn tag_prefix_text(name: NameView) -> Seq<char> {
    match name {
        NameView::Custom(n) => n + seq!['/', 'v'],
        NameView::Default => seq!['v'],
    }
}

/// Whether `val` is a release tag of the package: its prefix, then a version.
pub open spec fn is_release_tag_spec(val: Seq<char>, name: NameView) -> bool {
    let p = tag_prefix_text(name);
    has_prefix(val, p) && parse_version_spec(val.skip(p.len() as int)) is Ok
}

impl ReleaseTag {
    /// The tag that a particular version should have for a particular package.
    pub fn new(version: &Version, package_name: &Name) -> (r: Self)
        ensures
            r@ == tag_prefix_text(package_name@) + version_text(version@),
    {
        let mut out = Self::tag_prefix(package_name);
        version.write_to(&mut out);
        ReleaseTag(string_of(&out))
    }

    /// Whether `val` is a release tag of the package.
    pub fn is_release_tag(val: &str, package_name: &Name) -> (r: bool)
        ensures
            r == is_release_tag_spec(val@, package_name@),
    {
        let prefix = Self::tag_prefix(package_name);
        let v = chars_of(val);
        if !starts_with(&v, &prefix) {
            return false;
        }
        assert(v@.subrange(prefix@.len() as int, v@.len() as int) =~= v@.skip(prefix@.len() as int));
        Version::parse_range(&v, prefix.len(), v.len()).is_ok()
    }

    /// The prefix for tags for a particular package.
    fn tag_prefix(package_name: &Name) -> (r: Vec<char>)
        ensures
            r@ == tag_prefix_text(package_name@),
    {
        let mut out: Vec<char> = Vec::new();
        match package_name.as_custom() {
            Some(name) => {
                push_str(&mut out, name);
                out.push('/');
                out.push('v');
            },
            None => {
                out.push('v');
            },
        }
        assert(out@ =~= tag_prefix_text(package_name@));
        out
    }

    pub fn as_str(&self) -> (r: &str)
        ensures
            r@ == self@,
    {
        self.0.as_str()
    }
}

impl From<ReleaseTag> for String {
    fn from(tag: ReleaseTag) -> Self {
        tag.0
    }
}

impl vstd::std_specs::convert::FromSpecImpl<ReleaseTag> for String {
    open spec fn obeys_from_spec() -> bool {
        true
    }

    closed spec fn from_spec(v: ReleaseTag) -> String {
        v.0
    }
}

/// The tag made for a version is recognised as a release tag of the same
/// package (as long as the pre-release label, if any, holds no `.`).
pub proof fn lemma_new_tag_is_release_tag(version: VersionView, name: NameView)
    requires
        version matches VersionView::Pre(_, p) ==> lacks(p.label, '.'),
    ensures
        is_release_tag_spec(tag_prefix_text(name) + version_text(version), name),
{
    let p = tag_prefix_text(name);
    let t = p + version_text(version);
    assert(t.take(p.len() as int) =~= p);
    assert(t.skip(p.len() as int) =~= version_text(version));
    lemma_parse_version_text(version);
}

} // verus!
