//! The precedence order between versions, as predicates, with its laws.
//!
//! Stable components compare by major, then minor, then patch. With equal
//! stable components a stable version is greater than a pre-release, and two
//! pre-releases compare by label (character by character) and then by number.
use vstd::prelude::*;

use super::{Label, PrereleaseView, StableVersion, Version, VersionView};
use crate::text::chars_of;

verus! {

pub open spec fn stable_lt(a: StableVersion, b: StableVersion) -> bool {
    ||| a.major < b.major
    ||| a.major == b.major && a.minor < b.minor
    ||| a.major == b.major && a.minor == b.minor && a.patch < b.patch
}

/// Labels compare like strings: character by character, a prefix first.
pub open spec fn label_lt(a: Seq<char>, b: Seq<char>) -> bool
    decreases a.len(),
{
    if b.len() == 0 {
        false
    } else if a.len() == 0 {
        true
    } else if a[0] != b[0] {
        a[0] < b[0]
    } else {
        label_lt(a.drop_first(), b.drop_first())
    }
}

pub open spec fn prerelease_lt(a: PrereleaseView, b: PrereleaseView) -> bool {
    label_lt(a.label, b.label) || (a.label == b.label && a.version < b.version)
}

pub open spec fn version_lt(a: VersionView, b: VersionView) -> bool {
    if a.stable() != b.stable() {
        stable_lt(a.stable(), b.stable())
    } else {
        match (a, b) {
            (VersionView::Pre(_, p), VersionView::Pre(_, q)) => prerelease_lt(p, q),
            (VersionView::Pre(_, _), VersionView::Stable(_)) => true,
            _ => false,
        }
    }
}

/// Whether `a` precedes `b`, and whether they are equal.
pub fn stable_relation(a: &StableVersion, b: &StableVersion) -> (r: (bool, bool))
    ensures
        r.0 == stable_lt(*a, *b),
        r.1 == (*a == *b),
{
    let lt = a.major < b.major || (a.major == b.major && (a.minor < b.minor || (a.minor == b.minor
        && a.patch < b.patch)));
    (lt, a.major == b.major && a.minor == b.minor && a.patch == b.patch)
}

// ---------------------------------------------------------------------------
// Laws: each of these is a strict total order.
// ---------------------------------------------------------------------------

/// Label order is irreflexive and asymmetric, and any two labels compare.
pub proof fn lemma_label_total(a: Seq<char>, b: Seq<char>)
    ensures
        !label_lt(a, a),
        label_lt(a, b) ==> !label_lt(b, a),
        label_lt(a, b) || label_lt(b, a) || a == b,
    decreases a.len(),
{
    if a.len() > 0 && b.len() > 0 {
        lemma_label_total(a.drop_first(), b.drop_first());
        lemma_label_total(a.drop_first(), a.drop_first());
        if a[0] == b[0] && a.drop_first() == b.drop_first() {
            assert(a =~= seq![a[0]] + a.drop_first());
            assert(b =~= seq![b[0]] + b.drop_first());
        }
    } else if a.len() == 0 && b.len() == 0 {
        assert(a =~= b);
    } else if a.len() > 0 {
        lemma_label_total(a.drop_first(), a.drop_first());
    }
}

/// Label order is transitive.
pub proof fn lemma_label_transitive(a: Seq<char>, b: Seq<char>, c: Seq<char>)
    requires
        label_lt(a, b),
        label_lt(b, c),
    ensures
        label_lt(a, c),
    decreases a.len(),
{
    if a.len() > 0 && a[0] == b[0] && b[0] == c[0] {
        lemma_label_transitive(a.drop_first(), b.drop_first(), c.drop_first());
    }
}

/// A pre-release comes before the stable version it leads to; a version with a
/// greater major component comes after any with a smaller one, pre-release or
/// not; and of two pre-releases of one stable version with the same label, the
/// one with the greater number comes after.
pub proof fn lemma_version_order_examples(s: StableVersion, p: PrereleaseView, a: VersionView, b: VersionView, n: u64)
    ensures
        version_lt(VersionView::Pre(s, p), VersionView::Stable(s)),
        !version_lt(VersionView::Stable(s), VersionView::Pre(s, p)),
        a.stable().major < b.stable().major ==> version_lt(a, b) && !version_lt(b, a),
        p.version < n ==> version_lt(
            VersionView::Pre(s, p),
            VersionView::Pre(s, PrereleaseView { label: p.label, version: n }),
        ),
{
}

/// Version order is irreflexive, asymmetric and total.
pub proof fn lemma_version_total(a: VersionView, b: VersionView)
    ensures
        !version_lt(a, a),
        version_lt(a, b) ==> !version_lt(b, a),
        version_lt(a, b) || version_lt(b, a) || a == b,
{
    match (a, b) {
        (VersionView::Pre(_, p), VersionView::Pre(_, q)) => {
            lemma_label_total(p.label, q.label);
        },
        (VersionView::Pre(_, p), _) => {
            lemma_label_total(p.label, p.label);
        },
        (_, VersionView::Pre(_, q)) => {
            lemma_label_total(q.label, q.label);
        },
        _ => {},
    }
}

/// Version order is transitive.
pub proof fn lemma_version_transitive(a: VersionView, b: VersionView, c: VersionView)
    requires
        version_lt(a, b),
        version_lt(b, c),
    ensures
        version_lt(a, c),
{
    match (a, b, c) {
        (VersionView::Pre(_, p), VersionView::Pre(_, q), VersionView::Pre(_, r)) => {
            if label_lt(p.label, q.label) && label_lt(q.label, r.label) {
                lemma_label_transitive(p.label, q.label, r.label);
            }
        },
        _ => {},
    }
}

/// Whether `a` sorts before `b`, and whether they are equal, as strings compare.
pub fn label_relation(a: &Label, b: &Label) -> (r: (bool, bool))
    ensures
        r.0 == label_lt(a@, b@),
        r.1 == (a@ == b@),
{
    let x = chars_of(a.0.as_str());
    let y = chars_of(b.0.as_str());
    let mut i: usize = 0;
    assert(x@.skip(0) =~= x@);
    assert(y@.skip(0) =~= y@);
    while i < x.len() && i < y.len()
        invariant
            i <= x.len(),
            i <= y.len(),
            x@ == a@,
            y@ == b@,
            x@.take(i as int) == y@.take(i as int),
            label_lt(x@, y@) == label_lt(x@.skip(i as int), y@.skip(i as int)),
        decreases x.len() - i,
    {
        assert(x@.skip(i as int).drop_first() =~= x@.skip(i + 1));
        assert(y@.skip(i as int).drop_first() =~= y@.skip(i + 1));
        if x[i] != y[i] {
            proof {
                lemma_label_total(x@, y@);
                if x@ == y@ {
                    assert(x@[i as int] == y@[i as int]);
                }
            }
            return (x[i] < y[i], false);
        }
        assert(x@.take(i + 1) =~= x@.take(i as int).push(x@[i as int]));
        assert(y@.take(i + 1) =~= y@.take(i as int).push(y@[i as int]));
        i = i + 1;
    }
    proof {
        lemma_label_total(x@, y@);
    }
    if x.len() < y.len() {
        assert(x@.skip(i as int).len() == 0);
        assert(y@.skip(i as int).len() > 0);
        proof {
            if x@ == y@ {
                assert(x@.len() == y@.len());
            }
        }
        (true, false)
    } else if x.len() > y.len() {
        assert(y@.skip(i as int).len() == 0);
        proof {
            if x@ == y@ {
                assert(x@.len() == y@.len());
            }
        }
        (false, false)
    } else {
        assert(x@ =~= x@.take(i as int));
        assert(y@ =~= y@.take(i as int));
        (false, true)
    }
}

impl Version {
    /// Whether two versions are the same version.
    pub fn equals(&self, other: &Version) -> (r: bool)
        ensures
            r == (self@ == other@),
    {
        match (self, other) {
            (Version::Stable(a), Version::Stable(b)) => *a == *b,
            (Version::Pre(p), Version::Pre(q)) => {
                let (_, same_label) = label_relation(&p.pre_component.label, &q.pre_component.label);
                p.stable_component == q.stable_component && same_label
                    && p.pre_component.version == q.pre_component.version
            },
            _ => false,
        }
    }
}

} // verus!
