//! The precedence order between versions.
//!
//! Stable components compare by major, then minor, then patch. With equal
//! stable components a stable version is greater than a pre-release, and two
//! pre-releases compare by label (character by character) and then by number.
use vstd::prelude::*;

use super::{Label, Prerelease, StableVersion, Version};
use super::precedence::{label_lt, label_relation, lemma_label_total, prerelease_lt, stable_lt, version_lt};
use core::cmp::Ordering;

verus! {

/// The ordering that `Ord::cmp` gives for an order `lt`.
pub open spec fn ordering_of(lt: bool, eq: bool) -> Ordering {
    if lt {
        Ordering::Less
    } else if eq {
        Ordering::Equal
    } else {
        Ordering::Greater
    }
}

// ---------------------------------------------------------------------------
// Comparisons
// ---------------------------------------------------------------------------

/// Compares two labels as strings compare.
pub fn compare_labels(a: &Label, b: &Label) -> (r: Ordering)
    ensures
        r == ordering_of(label_lt(a@, b@), a@ == b@),
{
    let (lt, eq) = label_relation(a, b);
    if lt {
        Ordering::Less
    } else if eq {
        Ordering::Equal
    } else {
        Ordering::Greater
    }
}

/// Compares two stable versions.
pub fn compare_stable(a: &StableVersion, b: &StableVersion) -> (r: Ordering)
    ensures
        r == ordering_of(stable_lt(*a, *b), *a == *b),
{
    if a.major != b.major {
        if a.major < b.major {
            Ordering::Less
        } else {
            Ordering::Greater
        }
    } else if a.minor != b.minor {
        if a.minor < b.minor {
            Ordering::Less
        } else {
            Ordering::Greater
        }
    } else if a.patch != b.patch {
        if a.patch < b.patch {
            Ordering::Less
        } else {
            Ordering::Greater
        }
    } else {
        Ordering::Equal
    }
}

impl Prerelease {
    /// Compares by label, then by number.
    pub fn compare(&self, other: &Prerelease) -> (r: Ordering)
        ensures
            r == ordering_of(prerelease_lt(self@, other@), self@ == other@),
    {
        match compare_labels(&self.label, &other.label) {
            Ordering::Equal => {
                if self.version < other.version {
                    Ordering::Less
                } else if self.version == other.version {
                    Ordering::Equal
                } else {
                    Ordering::Greater
                }
            },
            Ordering::Less => {
                proof {
                    lemma_label_total(self.label@, other.label@);
                }
                Ordering::Less
            },
            Ordering::Greater => {
                proof {
                    lemma_label_total(self.label@, other.label@);
                }
                Ordering::Greater
            },
        }
    }
}

impl Version {
    /// Compares two versions by precedence.
    pub fn compare(&self, other: &Version) -> (r: Ordering)
        ensures
            r == ordering_of(version_lt(self@, other@), self@ == other@),
    {
        let a = self.stable_component();
        let b = other.stable_component();
        match compare_stable(&a, &b) {
            Ordering::Equal => match (self, other) {
                (Version::Stable(_), Version::Stable(_)) => Ordering::Equal,
                (Version::Stable(_), Version::Pre(_)) => Ordering::Greater,
                (Version::Pre(_), Version::Stable(_)) => Ordering::Less,
                (Version::Pre(p), Version::Pre(q)) => {
                    let r = p.pre_component.compare(&q.pre_component);
                    proof {
                        if self@ == other@ {
                            assert(p.pre_component@ == q.pre_component@);
                        }
                    }
                    r
                },
            },
            Ordering::Less => Ordering::Less,
            Ordering::Greater => {
                proof {
                    if self@ == other@ {
                        assert(a == b);
                    }
                }
                Ordering::Greater
            },
        }
    }
}

} // verus!
