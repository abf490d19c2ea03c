//! The versions of a package that matter for the next release: the latest stable
//! version (if any) and, for each stable version, the last pre-release of each label.
//!
//! So we might have 1.2.3, 1.2.4-rc.1, 1.3.0-beta.0, and 2.0.0-alpha.4.
use vstd::prelude::*;

use super::precedence::{stable_lt, stable_relation, version_lt};
use super::prerelease_map::{label_order, lemma_label_order, PrereleaseMap};
use super::rule::{Rule, RuleView, Stable};
use super::{
    parse_version_spec, Label, PreVersion, Prerelease, PrereleaseView, StableVersion, Version,
    VersionView,
};
use crate::sorted_map::{
    assoc, is_max_key, lemma_assoc_drop_last, lemma_assoc_empty, lemma_assoc_index,
    lemma_assoc_insert, lemma_assoc_last_max, lemma_assoc_set, lemma_max_key_unique, max_key,
    strict_total, strictly_sorted,
};
use crate::text::{chars_of, starts_with};

verus! {

/// Stable versions in precedence order.
pub open spec fn stable_order() -> spec_fn(StableVersion, StableVersion) -> bool {
    |a: StableVersion, b: StableVersion| stable_lt(a, b)
}

pub proof fn lemma_stable_order()
    ensures
        strict_total(stable_order()),
{
}

/// The mathematical value of [`PackageVersions`]: the latest stable version, and
/// for each stable version the number of the last pre-release of each label.
pub struct PackageVersionsView {
    pub stable: Option<StableVersion>,
    pub prereleases: Map<StableVersion, Map<Seq<char>, u64>>,
}

/// The versions of a package relevant to choosing its next version.
#[derive(Clone, Debug, PartialEq, Eq)]
pub struct PackageVersions {
    stable: Option<StableVersion>,
    prereleases: Vec<(StableVersion, PrereleaseMap)>,
}

/// No release of `Rule::Release` could find a pre-release to promote.
#[derive(Debug)]
pub struct PreReleaseNotFound;

pub open spec fn version_pairs(s: Seq<(StableVersion, PrereleaseMap)>) -> Seq<(StableVersion, Map<Seq<char>, u64>)> {
    s.map_values(|e: (StableVersion, PrereleaseMap)| (e.0, e.1@))
}

impl View for PackageVersions {
    type V = PackageVersionsView;

    closed spec fn view(&self) -> PackageVersionsView {
        PackageVersionsView { stable: self.stable, prereleases: assoc(self.pairs()) }
    }
}

// ---------------------------------------------------------------------------
// The model of each operation
// ---------------------------------------------------------------------------

pub open spec fn no_prereleases(v: PackageVersionsView) -> bool {
    v.prereleases == Map::<StableVersion, Map<Seq<char>, u64>>::empty()
}

/// The greatest stable component among the pre-releases.
pub open spec fn last_prerelease_stable(v: PackageVersionsView) -> StableVersion {
    max_key(v.prereleases, stable_order())
}

/// The most recent version: the last pre-release of the greatest stable component,
/// or else the stable version.
pub open spec fn latest_spec(v: PackageVersionsView) -> Option<VersionView> {
    if no_prereleases(v) {
        match v.stable {
            Some(s) => Some(VersionView::Stable(s)),
            None => None,
        }
    } else {
        let k = last_prerelease_stable(v);
        let m = v.prereleases[k];
        let l = max_key(m, label_order());
        Some(VersionView::Pre(k, PrereleaseView { label: l, version: m[l] }))
    }
}

/// Recording a version: a newer stable version replaces the stable version and
/// forgets all pre-releases; a pre-release replaces the one with the same stable
/// component and label unless that one is at least as new.
pub open spec fn update_spec(v: PackageVersionsView, new: VersionView) -> PackageVersionsView {
    match new {
        VersionView::Stable(n) => {
            if v.stable matches Some(s) && (stable_lt(n, s) || n == s) {
                v
            } else {
                PackageVersionsView { stable: Some(n), prereleases: Map::empty() }
            }
        },
        VersionView::Pre(sc, p) => {
            if v.prereleases.contains_key(sc) && v.prereleases[sc].contains_key(p.label)
                && v.prereleases[sc][p.label] >= p.version {
                v
            } else {
                let labels = if v.prereleases.contains_key(sc) {
                    v.prereleases[sc]
                } else {
                    Map::empty()
                };
                PackageVersionsView {
                    stable: v.stable,
                    prereleases: v.prereleases.insert(sc, labels.insert(p.label, p.version)),
                }
            }
        },
    }
}

/// The stable version a rule leads to. With major version 0, a major change
/// bumps the minor component and a minor change bumps the patch component.
pub open spec fn bump_stable_spec(v: StableVersion, rule: Stable) -> StableVersion {
    let major = StableVersion { major: (v.major + 1) as u64, minor: 0, patch: 0 };
    let minor = StableVersion { major: v.major, minor: (v.minor + 1) as u64, patch: 0 };
    let patch = StableVersion { major: v.major, minor: v.minor, patch: (v.patch + 1) as u64 };
    match rule {
        Stable::Major => if v.major == 0 {
            minor
        } else {
            major
        },
        Stable::Minor => if v.major == 0 {
            patch
        } else {
            minor
        },
        Stable::Patch => patch,
    }
}

/// A bump always gives a greater version. A patch keeps the major and minor
/// components; a minor bump of a version 1 or later keeps the major component
/// and resets the patch; a major bump of a version 1 or later resets both; below
/// 1.0.0 a major bump moves the minor component and a minor bump the patch.
pub proof fn lemma_bump_stable_laws(v: StableVersion, rule: Stable)
    requires
        bump_stable_ok(v, rule),
    ensures
        stable_lt(v, bump_stable_spec(v, rule)),
        rule == Stable::Patch ==> bump_stable_spec(v, rule) == (StableVersion { major: v.major, minor: v.minor, patch: (v.patch + 1) as u64 }),
        v.major > 0 && rule == Stable::Minor ==> bump_stable_spec(v, rule) == (StableVersion { major: v.major, minor: (v.minor + 1) as u64, patch: 0 }),
        v.major > 0 && rule == Stable::Major ==> bump_stable_spec(v, rule) == (StableVersion { major: (v.major + 1) as u64, minor: 0, patch: 0 }),
        v.major == 0 && rule == Stable::Major ==> bump_stable_spec(v, rule) == (StableVersion { major: 0, minor: (v.minor + 1) as u64, patch: 0 }),
        v.major == 0 && rule == Stable::Minor ==> bump_stable_spec(v, rule) == (StableVersion { major: 0, minor: v.minor, patch: (v.patch + 1) as u64 }),
{
}

/// The component that `rule` increments is not at its maximum.
pub open spec fn bump_stable_ok(v: StableVersion, rule: Stable) -> bool {
    match rule {
        Stable::Major => if v.major == 0 {
            v.minor < u64::MAX
        } else {
            v.major < u64::MAX
        },
        Stable::Minor => if v.major == 0 {
            v.patch < u64::MAX
        } else {
            v.minor < u64::MAX
        },
        Stable::Patch => v.patch < u64::MAX,
    }
}

/// The stable component of the next pre-release.
pub open spec fn pre_stable_spec(v: PackageVersionsView, rule: Stable) -> StableVersion {
    match v.stable {
        Some(s) => bump_stable_spec(s, rule),
        None => if no_prereleases(v) {
            StableVersion { major: 0, minor: 0, patch: 0 }
        } else {
            last_prerelease_stable(v)
        },
    }
}

/// The next pre-release with `label`: one past the last of that label for the
/// same stable component, or 0. All other pre-releases are forgotten.
pub open spec fn bump_pre_spec(v: PackageVersionsView, label: Seq<char>, rule: Stable) -> (PackageVersionsView, VersionView) {
    let sc = pre_stable_spec(v, rule);
    let n: u64 = if v.prereleases.contains_key(sc) && v.prereleases[sc].contains_key(label) {
        (v.prereleases[sc][label] + 1) as u64
    } else {
        0
    };
    let version = VersionView::Pre(sc, PrereleaseView { label, version: n });
    (update_spec(PackageVersionsView { stable: v.stable, prereleases: Map::empty() }, version), version)
}

/// Applying a rule: the new versions and the version chosen, or `Err` for a
/// `Release` without any pre-release.
pub open spec fn bump_spec(v: PackageVersionsView, rule: RuleView) -> (PackageVersionsView, Result<VersionView, ()>) {
    match rule {
        RuleView::Stable(r) => match v.stable {
            Some(s) => {
                let n = VersionView::Stable(bump_stable_spec(s, r));
                (update_spec(v, n), Ok(n))
            },
            None => {
                let k = if no_prereleases(v) {
                    StableVersion { major: 0, minor: 0, patch: 0 }
                } else {
                    last_prerelease_stable(v)
                };
                let rest = PackageVersionsView {
                    stable: v.stable,
                    prereleases: v.prereleases.remove(k),
                };
                (update_spec(rest, VersionView::Stable(k)), Ok(VersionView::Stable(k)))
            },
        },
        RuleView::Pre(label, r) => {
            let (w, version) = bump_pre_spec(v, label, r);
            (w, Ok(version))
        },
        RuleView::Release => if no_prereleases(v) {
            (v, Err(()))
        } else {
            let k = last_prerelease_stable(v);
            let rest = PackageVersionsView { stable: v.stable, prereleases: v.prereleases.remove(k) };
            (update_spec(rest, VersionView::Stable(k)), Ok(VersionView::Stable(k)))
        },
    }
}

/// Applying `rule` overflows no number.
pub open spec fn bump_ok(v: PackageVersionsView, rule: RuleView) -> bool {
    match rule {
        RuleView::Stable(r) => v.stable matches Some(s) ==> bump_stable_ok(s, r),
        RuleView::Pre(label, r) => {
            &&& (v.stable matches Some(s) ==> bump_stable_ok(s, r))
            &&& {
                let sc = pre_stable_spec(v, r);
                v.prereleases.contains_key(sc) && v.prereleases[sc].contains_key(label)
                    ==> v.prereleases[sc][label] < u64::MAX
            }
        },
        RuleView::Release => true,
    }
}

/// Bumping by a stable or a pre-release rule makes the chosen version the
/// latest version of the package, and it is newer than the stable version the
/// package had.
pub proof fn lemma_bump_gives_latest(v: PackageVersionsView, rule: RuleView)
    requires
        !(rule is Release),
        bump_ok(v, rule),
    ensures
        bump_spec(v, rule).1 matches Ok(n) && {
            &&& latest_spec(bump_spec(v, rule).0) == Some(n)
            &&& v.stable matches Some(s) ==> version_lt(VersionView::Stable(s), n)
        },
{
    lemma_stable_order();
    lemma_label_order();
    match rule {
        RuleView::Stable(r) => {
            let after = bump_spec(v, rule).0;
            assert(no_prereleases(after));
        },
        RuleView::Pre(label, r) => {
            let (after, n) = bump_pre_spec(v, label, r);
            let sc = pre_stable_spec(v, r);
            let m = after.prereleases;
            assert(m.contains_key(sc));
            assert(!no_prereleases(after)) by {
                assert(!Map::<StableVersion, Map<Seq<char>, u64>>::empty().contains_key(sc));
            }
            assert(is_max_key(m, sc, stable_order()));
            lemma_max_key_unique(m, stable_order(), sc);
            assert(is_max_key(m[sc], label, label_order()));
            lemma_max_key_unique(m[sc], label_order(), label);
        },
        RuleView::Release => {},
    }
}

/// The tag prefix: `v`, or `{prefix}/v`.
pub open spec fn tag_pattern(prefix: Option<Seq<char>>) -> Seq<char> {
    match prefix {
        None => seq!['v'],
        Some(p) => p + seq!['/', 'v'],
    }
}

/// Reading tags, newest first: tags that start with `pattern` are parsed after
/// it; pre-releases are recorded, and the first stable version ends the search.
pub open spec fn from_tags_spec(pattern: Seq<char>, tags: Seq<Seq<char>>, acc: PackageVersionsView) -> PackageVersionsView
    decreases tags.len(),
{
    if tags.len() == 0 {
        acc
    } else {
        let t = tags[0];
        if pattern.len() <= t.len() && t.take(pattern.len() as int) == pattern {
            match parse_version_spec(t.skip(pattern.len() as int)) {
                Ok(VersionView::Stable(s)) => PackageVersionsView { stable: Some(s), prereleases: acc.prereleases },
                Ok(pre) => from_tags_spec(pattern, tags.drop_first(), update_spec(acc, pre)),
                Err(_) => from_tags_spec(pattern, tags.drop_first(), acc),
            }
        } else {
            from_tags_spec(pattern, tags.drop_first(), acc)
        }
    }
}

/// The version a tag names under `pattern`: the rest of a tag that starts with
/// it, where that reads as a version.
pub open spec fn tag_reading(pattern: Seq<char>, t: Seq<char>) -> Option<VersionView> {
    if pattern.len() <= t.len() && t.take(pattern.len() as int) == pattern {
        match parse_version_spec(t.skip(pattern.len() as int)) {
            Ok(v) => Some(v),
            Err(_) => None,
        }
    } else {
        None
    }
}

/// A tag that names no version under the pattern has no effect on the versions
/// read from the tags.
pub proof fn lemma_other_tags_ignored(pattern: Seq<char>, tags: Seq<Seq<char>>, acc: PackageVersionsView, j: int)
    requires
        0 <= j < tags.len(),
        tag_reading(pattern, tags[j]) is None,
    ensures
        from_tags_spec(pattern, tags.remove(j), acc) == from_tags_spec(pattern, tags, acc),
    decreases j,
{
    if j == 0 {
        assert(tags.remove(0) =~= tags.drop_first());
    } else {
        let t = tags[0];
        assert(tags.remove(j)[0] == t);
        assert(tags.remove(j).drop_first() =~= tags.drop_first().remove(j - 1));
        if pattern.len() <= t.len() && t.take(pattern.len() as int) == pattern {
            match parse_version_spec(t.skip(pattern.len() as int)) {
                Ok(VersionView::Stable(_)) => {},
                Ok(pre) => {
                    lemma_other_tags_ignored(pattern, tags.drop_first(), update_spec(acc, pre), j - 1);
                },
                Err(_) => {
                    lemma_other_tags_ignored(pattern, tags.drop_first(), acc, j - 1);
                },
            }
        } else {
            lemma_other_tags_ignored(pattern, tags.drop_first(), acc, j - 1);
        }
    }
}

/// The package name a tag prefix is for.
pub open spec fn name_of_prefix(prefix: Option<Seq<char>>) -> crate::package::NameView {
    match prefix {
        Some(n) => crate::package::NameView::Custom(n),
        None => crate::package::NameView::Default,
    }
}

/// The tag that `ReleaseTag::new` makes for version `v` of a package is `v{v}`,
/// or `{name}/v{v}` for a package with a name; `from_tags` with that name as the
/// prefix reads it back as `v`, and a stable release tag read first gives the
/// stable version.
pub proof fn lemma_release_tag_read_back(
    prefix: Option<Seq<char>>,
    v: VersionView,
    acc: PackageVersionsView,
    more: Seq<Seq<char>>,
)
    requires
        v matches VersionView::Pre(_, p) ==> super::lacks(p.label, '.'),
    ensures
        crate::action::tag_prefix_text(name_of_prefix(prefix)) + super::version_text(v) == match prefix {
            Some(n) => n + seq!['/', 'v'] + super::version_text(v),
            None => seq!['v'] + super::version_text(v),
        },
        tag_pattern(prefix) == crate::action::tag_prefix_text(name_of_prefix(prefix)),
        tag_reading(tag_pattern(prefix), crate::action::tag_prefix_text(name_of_prefix(prefix)) + super::version_text(v))
            == Some(v),
        v matches VersionView::Stable(st) ==> from_tags_spec(
            tag_pattern(prefix),
            seq![crate::action::tag_prefix_text(name_of_prefix(prefix)) + super::version_text(v)] + more,
            acc,
        ).stable == Some(st),
{
    let p = tag_pattern(prefix);
    let t = p + super::version_text(v);
    assert(t.take(p.len() as int) =~= p);
    assert(t.skip(p.len() as int) =~= super::version_text(v));
    super::lemma_parse_version_text(v);
    if let VersionView::Stable(st) = v {
        let tags = seq![t] + more;
        assert(tags[0] == t);
        assert(tags.take(0) =~= Seq::<Seq<char>>::empty());
        lemma_first_stable_tag(p, tags, acc, 0, st);
    }
}

/// No tag names a stable version under the pattern.
pub open spec fn no_stable_tag(pattern: Seq<char>, tags: Seq<Seq<char>>) -> bool {
    forall|j: int| 0 <= j < tags.len() ==> !(tag_reading(pattern, #[trigger] tags[j]) matches Some(VersionView::Stable(_)))
}

/// The stable version read from the tags is that of the first tag that names a
/// stable version.
pub proof fn lemma_first_stable_tag(
    pattern: Seq<char>,
    tags: Seq<Seq<char>>,
    acc: PackageVersionsView,
    k: int,
    s: StableVersion,
)
    requires
        0 <= k < tags.len(),
        tag_reading(pattern, tags[k]) == Some(VersionView::Stable(s)),
        no_stable_tag(pattern, tags.take(k)),
    ensures
        from_tags_spec(pattern, tags, acc).stable == Some(s),
    decreases k,
{
    let t = tags[0];
    let rest = tags.drop_first();
    if k > 0 {
        assert(tags.take(k)[0] == t);
        assert(!(tag_reading(pattern, t) matches Some(VersionView::Stable(_))));
        assert(rest[k - 1] == tags[k]);
        assert forall|j: int| 0 <= j < k - 1 implies !(tag_reading(pattern, #[trigger] rest.take(k - 1)[j]) matches Some(
            VersionView::Stable(_),
        )) by {
            assert(rest.take(k - 1)[j] == tags.take(k)[j + 1]);
        }
        if pattern.len() <= t.len() && t.take(pattern.len() as int) == pattern {
            match parse_version_spec(t.skip(pattern.len() as int)) {
                Ok(VersionView::Stable(_)) => {},
                Ok(pre) => {
                    lemma_first_stable_tag(pattern, rest, update_spec(acc, pre), k - 1, s);
                },
                Err(_) => {
                    lemma_first_stable_tag(pattern, rest, acc, k - 1, s);
                },
            }
        } else {
            lemma_first_stable_tag(pattern, rest, acc, k - 1, s);
        }
    }
}

/// Where no tag names a stable version, the stable version stays the one known.
pub proof fn lemma_no_stable_tag(pattern: Seq<char>, tags: Seq<Seq<char>>, acc: PackageVersionsView)
    requires
        no_stable_tag(pattern, tags),
    ensures
        from_tags_spec(pattern, tags, acc).stable == acc.stable,
    decreases tags.len(),
{
    if tags.len() > 0 {
        let t = tags[0];
        let rest = tags.drop_first();
        assert(!(tag_reading(pattern, tags[0]) matches Some(VersionView::Stable(_))));
        assert forall|j: int| 0 <= j < rest.len() implies !(tag_reading(pattern, #[trigger] rest[j]) matches Some(
            VersionView::Stable(_),
        )) by {
            assert(rest[j] == tags[j + 1]);
        }
        if pattern.len() <= t.len() && t.take(pattern.len() as int) == pattern {
            match parse_version_spec(t.skip(pattern.len() as int)) {
                Ok(VersionView::Stable(_)) => {},
                Ok(pre) => {
                    lemma_no_stable_tag(pattern, rest, update_spec(acc, pre));
                },
                Err(_) => {
                    lemma_no_stable_tag(pattern, rest, acc);
                },
            }
        } else {
            lemma_no_stable_tag(pattern, rest, acc);
        }
    }
}

pub open spec fn empty_versions() -> PackageVersionsView {
    PackageVersionsView { stable: None, prereleases: Map::empty() }
}

// ---------------------------------------------------------------------------
// Implementation
// ---------------------------------------------------------------------------

/// Applies a stable rule to a stable version.
pub fn bump_stable(version: StableVersion, rule: Stable) -> (r: StableVersion)
    requires
        bump_stable_ok(version, rule),
    ensures
        r == bump_stable_spec(version, rule),
        stable_lt(version, r),
{
    let is_0 = version.major == 0;
    match (rule, is_0) {
        (Stable::Major, false) => version.increment_major(),
        (Stable::Minor, false) => version.increment_minor(),
        (Stable::Major, true) => version.increment_minor(),
        (Stable::Minor, true) => version.increment_patch(),
        (Stable::Patch, _) => version.increment_patch(),
    }
}

impl PackageVersions {
    pub closed spec fn pairs(self) -> Seq<(StableVersion, Map<Seq<char>, u64>)> {
        version_pairs(self.prereleases@)
    }

    /// Stable components strictly increasing, and every pre-release map well formed.
    pub closed spec fn wf(self) -> bool {
        &&& strictly_sorted(self.pairs(), stable_order())
        &&& forall|i: int| 0 <= i < self.prereleases.len() ==> (#[trigger] self.prereleases@[i]).1.wf()
    }

    /// No versions at all.
    pub fn empty() -> (r: Self)
        ensures
            r.wf(),
            r@ == empty_versions(),
    {
        let r = PackageVersions { stable: None, prereleases: Vec::new() };
        proof {
            lemma_assoc_empty(r.pairs());
        }
        r
    }

    /// Only a stable version.
    pub fn from_stable(version: StableVersion) -> (r: Self)
        ensures
            r.wf(),
            r@ == (PackageVersionsView { stable: Some(version), prereleases: Map::empty() }),
    {
        let r = PackageVersions { stable: Some(version), prereleases: Vec::new() };
        proof {
            lemma_assoc_empty(r.pairs());
        }
        r
    }

    /// The versions after recording `version` into no versions.
    pub fn from_version(version: Version) -> (r: Self)
        ensures
            r.wf(),
            r@ == update_spec(empty_versions(), version@),
    {
        let mut r = Self::empty();
        r.update_version(version);
        r
    }

    /// The latest stable version, if any.
    pub fn stable(&self) -> (r: Option<StableVersion>)
        ensures
            r == self@.stable,
    {
        self.stable
    }

    /// The last pre-release with `label` recorded for `stable`, if any.
    pub fn get_prerelease(&self, stable: &StableVersion, label: &Label) -> (r: Option<Prerelease>)
        requires
            self.wf(),
        ensures
            r matches Some(p) ==> self@.prereleases.contains_key(*stable)
                && self@.prereleases[*stable].contains_key(label@) && p@ == (PrereleaseView {
                label: label@,
                version: self@.prereleases[*stable][label@],
            }),
            r is None ==> !(self@.prereleases.contains_key(*stable)
                && self@.prereleases[*stable].contains_key(label@)),
    {
        let (found, pos) = self.find_stable(stable);
        if !found {
            return None;
        }
        proof {
            lemma_stable_order();
            lemma_assoc_index(self.pairs(), stable_order(), pos as int);
        }
        match self.prereleases[pos].1.get(label) {
            None => None,
            Some(p) => Some(p.duplicate()),
        }
    }

    /// The position of `key` among the stable components, or where it belongs.
    fn find_stable(&self, key: &StableVersion) -> (r: (bool, usize))
        requires
            self.wf(),
        ensures
            r.1 <= self.prereleases.len(),
            forall|j: int| 0 <= j < r.1 ==> stable_lt(#[trigger] self.pairs()[j].0, *key),
            r.0 ==> r.1 < self.prereleases.len() && self.pairs()[r.1 as int].0 == *key,
            !r.0 ==> r.1 == self.prereleases.len() || stable_lt(*key, self.pairs()[r.1 as int].0),
            r.0 <==> self@.prereleases.contains_key(*key),
    {
        let ghost s = self.pairs();
        let mut i: usize = 0;
        let mut found = false;
        while i < self.prereleases.len()
            invariant_except_break
                !found,
            invariant
                self.wf(),
                s == self.pairs(),
                i <= self.prereleases.len(),
                forall|j: int| 0 <= j < i ==> stable_lt(#[trigger] s[j].0, *key),
            ensures
                i <= self.prereleases.len(),
                found ==> i < self.prereleases.len() && s[i as int].0 == *key,
                !found ==> i == self.prereleases.len() || stable_lt(*key, s[i as int].0),
            decreases self.prereleases.len() - i,
        {
            let k = self.prereleases[i].0;
            assert(s[i as int].0 == k);
            let (lt, eq) = stable_relation(&k, key);
            if eq {
                found = true;
                break;
            }
            if !lt {
                break;
            }
            i = i + 1;
        }
        proof {
            lemma_stable_order();
            if found {
                lemma_assoc_index(s, stable_order(), i as int);
            } else if self@.prereleases.contains_key(*key) {
                let j = choose|j: int| 0 <= j < s.len() && s[j].0 == *key;
                if j < i {
                    assert(stable_lt(s[j].0, *key));
                } else if j > i {
                    assert(stable_lt(s[i as int].0, s[j].0));
                }
            }
        }
        (found, i)
    }

    /// Replace or insert the version in the correct location if it's newer than the current
    /// equivalent version.
    /// If the version is a newer stable version, it will update `stable`
    /// and erase all pre-releases.
    /// If the version is a newer prerelease, it will overwrite the prerelease with
    /// the same stable component and label.
    pub fn update_version(&mut self, version: Version)
        requires
            old(self).wf(),
        ensures
            final(self).wf(),
            final(self)@ == update_spec(old(self)@, version@),
    {
        proof {
            lemma_stable_order();
        }
        match version {
            Version::Stable(new) => {
                if let Some(s) = self.stable {
                    let (lt, eq) = stable_relation(&new, &s);
                    if lt || eq {
                        return;
                    }
                }
                self.stable = Some(new);
                self.prereleases.clear();
                proof {
                    lemma_assoc_empty(self.pairs());
                }
            },
            Version::Pre(PreVersion { stable_component, pre_component }) => {
                let ghost old_pairs = self.pairs();
                let ghost key = pre_component.label@;
                let ghost num = pre_component.version;
                let (found, pos) = self.find_stable(&stable_component);
                if found {
                    proof {
                        lemma_assoc_index(old_pairs, stable_order(), pos as int);
                    }
                    match self.prereleases[pos].1.get(&pre_component.label) {
                        Some(recorded) => {
                            if recorded.version >= pre_component.version {
                                return;
                            }
                        },
                        None => {},
                    }
                    let (k, mut labels) = self.prereleases.remove(pos);
                    let ghost before = labels@;
                    labels.insert(pre_component);
                    let ghost after = labels@;
                    self.prereleases.insert(pos, (k, labels));
                    proof {
                        lemma_assoc_set(old_pairs, stable_order(), pos as int, after);
                        assert(self.pairs() =~= old_pairs.update(pos as int, (old_pairs[pos as int].0, after)));
                    }
                } else {
                    let labels = PrereleaseMap::new(pre_component);
                    let ghost fresh = labels@;
                    self.prereleases.insert(pos, (stable_component, labels));
                    proof {
                        lemma_assoc_insert(old_pairs, stable_order(), pos as int, stable_component, fresh);
                        assert(self.pairs() =~= old_pairs.insert(pos as int, (stable_component, fresh)));
                        assert(fresh =~= Map::<Seq<char>, u64>::empty().insert(key, num));
                    }
                }
            },
        }
    }

    /// Removes the pre-releases of the greatest stable component, giving that component.
    fn pop_last_stable(&mut self) -> (r: Option<StableVersion>)
        requires
            old(self).wf(),
        ensures
            final(self).wf(),
            no_prereleases(old(self)@) ==> r is None && final(self)@ == old(self)@,
            !no_prereleases(old(self)@) ==> r == Some(last_prerelease_stable(old(self)@))
                && final(self)@ == (PackageVersionsView {
                stable: old(self)@.stable,
                prereleases: old(self)@.prereleases.remove(last_prerelease_stable(old(self)@)),
            }),
    {
        proof {
            lemma_stable_order();
        }
        let ghost s = self.pairs();
        if self.prereleases.len() == 0 {
            proof {
                lemma_assoc_empty(s);
            }
            return None;
        }
        proof {
            lemma_assoc_last_max(s, stable_order());
            lemma_assoc_drop_last(s, stable_order());
            assert(!no_prereleases(self@)) by {
                assert(self@.prereleases.contains_key(s.last().0));
            }
        }
        let (k, _) = self.prereleases.pop().unwrap();
        assert(self.pairs() =~= s.drop_last());
        Some(k)
    }

    /// Consumes `self` to produce the most recent version (determined by order of tags).
    pub fn into_latest(self) -> (r: Option<Version>)
        requires
            self.wf(),
        ensures
            match r {
                Some(v) => latest_spec(self@) == Some(v@),
                None => latest_spec(self@) is None,
            },
    {
        proof {
            lemma_stable_order();
        }
        let ghost s = self.pairs();
        let n = self.prereleases.len();
        if n == 0 {
            proof {
                lemma_assoc_empty(s);
            }
            return match self.stable {
                Some(st) => Some(Version::Stable(st)),
                None => None,
            };
        }
        let entry = &self.prereleases[n - 1];
        let last = entry.1.last();
        proof {
            lemma_assoc_last_max(s, stable_order());
            assert(!no_prereleases(self@)) by {
                assert(self@.prereleases.contains_key(s.last().0));
            }
            assert(s.last() == (entry.0, entry.1@));
            assert(self.prereleases@[n - 1].1.wf());
        }
        Some(Version::Pre(PreVersion { stable_component: entry.0, pre_component: last.duplicate() }))
    }

    /// Apply a Rule to a [`PackageVersions`], incrementing & resetting the correct components.
    ///
    /// # Versions 0.x
    ///
    /// Versions with major component 0 have special meaning in Semantic Versioning and therefore have
    /// different behavior:
    /// 1. [`Rule::Major`] will bump the minor component.
    /// 2. [`Stable(Minor)`] will bump the patch component.
    ///
    /// # Errors
    ///
    /// Can fail if trying to run [`Rule::Release`] when there is no pre-release.
    pub fn bump(&mut self, rule: Rule) -> (r: Result<Version, PreReleaseNotFound>)
        requires
            old(self).wf(),
            bump_ok(old(self)@, rule@),
        ensures
            final(self).wf(),
            final(self)@ == bump_spec(old(self)@, rule@).0,
            match r {
                Ok(v) => bump_spec(old(self)@, rule@).1 == Ok::<VersionView, ()>(v@),
                Err(_) => bump_spec(old(self)@, rule@).1 is Err,
            },
    {
        match rule {
            Rule::Stable(stable_rule) => match self.stable {
                Some(stable) => {
                    let next = bump_stable(stable, stable_rule);
                    self.update_version(Version::Stable(next));
                    Ok(Version::Stable(next))
                },
                None => {
                    let k = match self.pop_last_stable() {
                        Some(k) => k,
                        None => StableVersion { major: 0, minor: 0, patch: 0 },
                    };
                    proof {
                        if no_prereleases(old(self)@) {
                            assert(old(self)@.prereleases.remove(k) =~= old(self)@.prereleases);
                        }
                    }
                    self.update_version(Version::Stable(k));
                    Ok(Version::Stable(k))
                },
            },
            Rule::Pre { label, stable_rule } => Ok(self.bump_pre(label, stable_rule)),
            Rule::Release => match self.pop_last_stable() {
                None => Err(PreReleaseNotFound),
                Some(k) => {
                    self.update_version(Version::Stable(k));
                    Ok(Version::Stable(k))
                },
            },
        }
    }

    /// Bumps the pre-release component of a [`Version`] after applying the `stable_rule`.
    fn bump_pre(&mut self, label: Label, stable_rule: Stable) -> (r: Version)
        requires
            old(self).wf(),
            bump_ok(old(self)@, RuleView::Pre(label@, stable_rule)),
        ensures
            final(self).wf(),
            (final(self)@, r@) == bump_pre_spec(old(self)@, label@, stable_rule),
    {
        proof {
            lemma_stable_order();
        }
        let ghost s = self.pairs();
        let stable_component = match self.stable {
            Some(stable) => bump_stable(stable, stable_rule),
            None => {
                let n = self.prereleases.len();
                if n == 0 {
                    proof {
                        lemma_assoc_empty(s);
                    }
                    StableVersion { major: 0, minor: 0, patch: 0 }
                } else {
                    proof {
                        lemma_assoc_last_max(s, stable_order());
                        assert(!no_prereleases(self@)) by {
                            assert(self@.prereleases.contains_key(s.last().0));
                        }
                    }
                    self.prereleases[n - 1].0
                }
            },
        };
        let pre_version: u64 = match self.get_prerelease(&stable_component, &label) {
            Some(pre) => pre.version + 1,
            None => 0,
        };
        let ghost lab = label@;
        let pre = Prerelease::new(label, pre_version);
        self.prereleases.clear();
        proof {
            lemma_assoc_empty(self.pairs());
        }
        let version = Version::Pre(PreVersion { stable_component, pre_component: pre });
        let copy = version.duplicate();
        self.update_version(version);
        copy
    }

    /// Get the (relevant) current versions from a slice of Git tags, newest first.
    ///
    /// Tags are expected to either be `v{version}` or `{prefix}/v{version}` (if supplied),
    ///
    /// ## Parameters
    /// - `prefix`: Only tag names starting with this string will be considered.
    /// - `all_tags`: All tags in the repository.
    pub fn from_tags(prefix: Option<&str>, all_tags: &[&str]) -> (r: Self)
        ensures
            r.wf(),
            r@ == from_tags_spec(
                tag_pattern(
                    match prefix {
                        Some(p) => Some(p@),
                        None => None,
                    },
                ),
                all_tags@.map_values(|t: &str| t@),
                empty_versions(),
            ),
    {
        let ghost tags = all_tags@.map_values(|t: &str| t@);
        let mut pattern: Vec<char> = match prefix {
            Some(p) => chars_of(p),
            None => Vec::new(),
        };
        if prefix.is_some() {
            pattern.push('/');
        }
        pattern.push('v');
        let ghost pat = tag_pattern(
            match prefix {
                Some(p) => Some(p@),
                None => None,
            },
        );
        assert(pattern@ =~= pat);
        let mut current = Self::empty();
        let mut i: usize = 0;
        assert(tags.skip(0) =~= tags);
        while i < all_tags.len()
            invariant
                current.wf(),
                i <= all_tags.len(),
                tags == all_tags@.map_values(|t: &str| t@),
                pattern@ == pat,
                pat == tag_pattern(
                    match prefix {
                        Some(p) => Some(p@),
                        None => None,
                    },
                ),
                from_tags_spec(pat, tags, empty_versions()) == from_tags_spec(
                    pat,
                    tags.skip(i as int),
                    current@,
                ),
            decreases all_tags.len() - i,
        {
            let ghost rest = tags.skip(i as int);
            assert(rest.drop_first() =~= tags.skip(i + 1));
            assert(rest[0] == all_tags@[i as int]@);
            let tag = chars_of(all_tags[i]);
            assert(rest[0] == tag@);
            if starts_with(&tag, &pattern) {
                assert(tag@.take(pattern@.len() as int) == pattern@);
                match Version::parse_range(&tag, pattern.len(), tag.len()) {
                    Ok(version) => {
                        assert(tag@.subrange(pattern@.len() as int, tag@.len() as int) =~= tag@.skip(pattern@.len() as int));
                        match version {
                            Version::Stable(stable) => {
                                let ghost before = current@;
                                assert(parse_version_spec(rest[0].skip(pat.len() as int))
                                    == Ok::<VersionView, Seq<char>>(VersionView::Stable(stable)));
                                current.stable = Some(stable);
                                assert(current@ == (PackageVersionsView {
                                    stable: Some(stable),
                                    prereleases: before.prereleases,
                                }));
                                assert(from_tags_spec(pat, rest, before) == current@);
                                return current;
                            },
                            Version::Pre(_) => {
                                current.update_version(version);
                            },
                        }
                    },
                    Err(_) => {
                        assert(tag@.subrange(pattern@.len() as int, tag@.len() as int) =~= tag@.skip(pattern@.len() as int));
                    },
                }
            } else {
                proof {
                    if pat.len() <= rest[0].len() && rest[0].take(pat.len() as int) == pat {
                        assert(false);
                    }
                }
            }
            i = i + 1;
        }
        assert(tags.skip(i as int).len() == 0);
        current
    }
}

impl Default for PackageVersions {
    fn default() -> (r: Self)
        ensures
            r.wf(),
            r@ == empty_versions(),
    {
        Self::empty()
    }
}

impl From<StableVersion> for PackageVersions {
    fn from(version: StableVersion) -> Self {
        Self::from_stable(version)
    }
}

/// `PackageVersions::from_stable` states what this conversion gives; the value has
/// no form in a specification, so nothing is claimed here.
impl vstd::std_specs::convert::FromSpecImpl<StableVersion> for PackageVersions {
    open spec fn obeys_from_spec() -> bool {
        false
    }

    open spec fn from_spec(v: StableVersion) -> PackageVersions {
        arbitrary()
    }
}

impl From<Version> for PackageVersions {
    fn from(version: Version) -> Self {
        Self::from_version(version)
    }
}

/// `PackageVersions::from_version` states what this conversion gives; the value has
/// no form in a specification, so nothing is claimed here.
impl vstd::std_specs::convert::FromSpecImpl<Version> for PackageVersions {
    open spec fn obeys_from_spec() -> bool {
        false
    }

    open spec fn from_spec(v: Version) -> PackageVersions {
        arbitrary()
    }
}

} // verus!
