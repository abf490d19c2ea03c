use vstd::prelude::*;

use crate::package::{Name, NameView};
use crate::semver::{Version, VersionView};

verus! {

/// A release: its title (without any Markdown header), version, notes and package.
#[derive(Clone, Debug, PartialEq, Eq)]
pub struct Release {
    /// The title of the release without any markdown header prefix
    pub title: String,
    pub version: Version,
    /// The full release notes in Markdown, at header level 1
    pub notes: String,
    pub package_name: Name,
}

pub struct ReleaseView {
    pub title: Seq<char>,
    pub version: VersionView,
    pub notes: Seq<char>,
    pub package_name: NameView,
}

impl View for Release {
    type V = ReleaseView;

    open spec fn view(&self) -> ReleaseView {
        ReleaseView {
            title: self.title@,
            version: self.version@,
            notes: self.notes@,
            package_name: self.package_name@,
        }
    }
}

impl Release {
    pub fn duplicate(&self) -> (r: Release)
        ensures
            r@ == self@,
    {
        Release {
            title: self.title.clone(),
            version: self.version.duplicate(),
            notes: self.notes.clone(),
            package_name: self.package_name.duplicate(),
        }
    }
}

} // verus!
