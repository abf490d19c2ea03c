//! Semantic versions: `MAJOR.MINOR.PATCH`, optionally followed by a pre-release
//! `-LABEL.N`. Parsing, printing and the precedence order between versions.
use vstd::prelude::*;

use crate::text::{
    chars_of, find_char, first_index_of, int_error_message, int_error_string, is_first_index,
    lemma_first_index_of, lemma_first_index_of_none, lemma_first_index_of_some, lemma_digit_char,
    lemma_parse_u64_text, lemma_u64_text, parse_u64, parse_u64_spec, push_all, push_u64,
    split_char, split_ranges, string_of, u64_text, IntErrorKind,
};

pub mod order;
pub mod precedence;
pub mod package_versions;
pub mod prerelease_map;
pub mod rule;

pub use self::package_versions::{PackageVersions, PreReleaseNotFound};
pub use self::rule::{Rule, Stable as StableRule};




verus! {

/// The `MAJOR.MINOR.PATCH` part of a version.
#[derive(Clone, Copy, Debug, PartialEq, Eq, Structural)]
pub struct StableVersion {
    pub major: u64,
    pub minor: u64,
    pub patch: u64,
}

impl Default for StableVersion {
    fn default() -> (r: Self)
        ensures
            r == (StableVersion { major: 0, minor: 0, patch: 0 }),
    {
        StableVersion { major: 0, minor: 0, patch: 0 }
    }
}

/// The label component of a pre-release (e.g., "alpha" in "1.0.0-alpha.1").
#[derive(Clone, Debug, PartialEq, Eq, Hash)]
pub struct Label(pub String);

impl View for Label {
    type V = Seq<char>;

    open spec fn view(&self) -> Seq<char> {
        self.0@
    }
}

/// The pre-release component of a version, like `rc.1`.
#[derive(Clone, Debug, PartialEq, Eq)]
pub struct Prerelease {
    pub label: Label,
    pub version: u64,
}

/// The mathematical value of a [`Prerelease`].
pub struct PrereleaseView {
    pub label: Seq<char>,
    pub version: u64,
}

impl View for Prerelease {
    type V = PrereleaseView;

    open spec fn view(&self) -> PrereleaseView {
        PrereleaseView { label: self.label@, version: self.version }
    }
}

/// A version with a pre-release component.
#[derive(Clone, Debug, PartialEq, Eq)]
pub struct PreVersion {
    pub stable_component: StableVersion,
    pub pre_component: Prerelease,
}

/// A semantic version.
#[derive(Clone, Debug, PartialEq, Eq)]
pub enum Version {
    Stable(StableVersion),
    Pre(PreVersion),
}

/// The mathematical value of a [`Version`].
pub enum VersionView {
    Stable(StableVersion),
    Pre(StableVersion, PrereleaseView),
}

impl VersionView {
    pub open spec fn stable(self) -> StableVersion {
        match self {
            VersionView::Stable(s) => s,
            VersionView::Pre(s, _) => s,
        }
    }
}

impl View for Version {
    type V = VersionView;

    open spec fn view(&self) -> VersionView {
        match self {
            Version::Stable(s) => VersionView::Stable(*s),
            Version::Pre(p) => VersionView::Pre(p.stable_component, p.pre_component@),
        }
    }
}

/// The error of parsing a version, with its message.
#[derive(Debug)]
pub struct Error(pub String);

pub open spec fn msg_three_parts() -> Seq<char> {
    "Version must have exactly 3 parts"@
}

pub open spec fn msg_invalid_prerelease() -> Seq<char> {
    "Invalid prerelease"@
}

// ---------------------------------------------------------------------------
// Printing
// ---------------------------------------------------------------------------

/// `MAJOR.MINOR.PATCH`
pub open spec fn stable_text(s: StableVersion) -> Seq<char> {
    u64_text(s.major as nat) + seq!['.'] + u64_text(s.minor as nat) + seq!['.'] + u64_text(
        s.patch as nat,
    )
}

/// `LABEL.N`
pub open spec fn prerelease_text(p: PrereleaseView) -> Seq<char> {
    p.label + seq!['.'] + u64_text(p.version as nat)
}

/// How a version is printed.
pub open spec fn version_text(v: VersionView) -> Seq<char> {
    match v {
        VersionView::Stable(s) => stable_text(s),
        VersionView::Pre(s, p) => stable_text(s) + seq!['-'] + prerelease_text(p),
    }
}

// ---------------------------------------------------------------------------
// Parsing
// ---------------------------------------------------------------------------

/// Parses each of `parts` as a `u64`, stopping at the first that fails.
pub open spec fn parse_parts(parts: Seq<Seq<char>>) -> Result<Seq<u64>, Seq<char>>
    decreases parts.len(),
{
    if parts.len() == 0 {
        Ok(seq![])
    } else {
        match parse_parts(parts.drop_last()) {
            Err(e) => Err(e),
            Ok(ns) => match parse_u64_spec(parts.last()) {
                Err(k) => Err(int_error_message(k)),
                Ok(n) => Ok(ns.push(n)),
            },
        }
    }
}

/// `MAJOR.MINOR.PATCH`: the parts between dots must each be a `u64`, and there must be three.
pub open spec fn parse_stable_spec(s: Seq<char>) -> Result<StableVersion, Seq<char>> {
    match parse_parts(split_char(s, '.')) {
        Err(e) => Err(e),
        Ok(ns) => if ns.len() != 3 {
            Err(msg_three_parts())
        } else {
            Ok(StableVersion { major: ns[0], minor: ns[1], patch: ns[2] })
        },
    }
}

/// `LABEL.N`: the label runs up to the first dot, and the rest must be a `u64`.
pub open spec fn parse_prerelease_spec(s: Seq<char>) -> Result<PrereleaseView, Seq<char>> {
    match first_index_of(s, '.') {
        None => Err(msg_invalid_prerelease()),
        Some(i) => match parse_u64_spec(s.skip(i + 1)) {
            Err(k) => Err(int_error_message(k)),
            Ok(n) => Ok(PrereleaseView { label: s.take(i), version: n }),
        },
    }
}

/// A version is split at its first `-` into the stable part and the pre-release part.
pub open spec fn parse_version_spec(s: Seq<char>) -> Result<VersionView, Seq<char>> {
    match first_index_of(s, '-') {
        None => match parse_stable_spec(s) {
            Err(e) => Err(e),
            Ok(st) => Ok(VersionView::Stable(st)),
        },
        Some(i) => match parse_stable_spec(s.take(i)) {
            Err(e) => Err(e),
            Ok(st) => match parse_prerelease_spec(s.skip(i + 1)) {
                Err(e) => Err(e),
                Ok(p) => Ok(VersionView::Pre(st, p)),
            },
        },
    }
}

/// Whether a parse result (exec) matches the spec result.
pub open spec fn parse_matches<T: View>(r: Result<T, Error>, spec: Result<T::V, Seq<char>>) -> bool {
    match (r, spec) {
        (Ok(v), Ok(w)) => v@ == w,
        (Err(e), Err(m)) => e.0@ == m,
        _ => false,
    }
}

impl StableVersion {
    /// The next major version: `X+1.0.0`.
    pub fn increment_major(self) -> (r: Self)
        requires
            self.major < u64::MAX,
        ensures
            r == (StableVersion { major: (self.major + 1) as u64, minor: 0, patch: 0 }),
    {
        StableVersion { major: self.major + 1, minor: 0, patch: 0 }
    }

    /// The next minor version: `X.Y+1.0`.
    pub fn increment_minor(self) -> (r: Self)
        requires
            self.minor < u64::MAX,
        ensures
            r == (StableVersion { major: self.major, minor: (self.minor + 1) as u64, patch: 0 }),
    {
        StableVersion { major: self.major, minor: self.minor + 1, patch: 0 }
    }

    /// The next patch version: `X.Y.Z+1`.
    pub fn increment_patch(self) -> (r: Self)
        requires
            self.patch < u64::MAX,
        ensures
            r == (StableVersion {
                major: self.major,
                minor: self.minor,
                patch: (self.patch + 1) as u64,
            }),
    {
        StableVersion { major: self.major, minor: self.minor, patch: self.patch + 1 }
    }

    /// Appends `MAJOR.MINOR.PATCH`.
    pub fn write_to(&self, out: &mut Vec<char>)
        ensures
            final(out)@ == old(out)@ + stable_text(*self),
    {
        push_u64(out, self.major);
        out.push('.');
        push_u64(out, self.minor);
        out.push('.');
        push_u64(out, self.patch);
        assert(final(out)@ =~= old(out)@ + stable_text(*self));
    }

    /// The text of this version, as `Display` prints it.
    pub fn to_string(&self) -> (s: String)
        ensures
            s@ == stable_text(*self),
    {
        let mut out: Vec<char> = Vec::new();
        self.write_to(&mut out);
        assert(out@ =~= stable_text(*self));
        string_of(&out)
    }

    /// Parses `src[start..end]` as `MAJOR.MINOR.PATCH`.
    pub fn parse_range(src: &Vec<char>, start: usize, end: usize) -> (r: Result<Self, Error>)
        requires
            start <= end <= src.len(),
        ensures
            match (r, parse_stable_spec(src@.subrange(start as int, end as int))) {
                (Ok(v), Ok(w)) => v == w,
                (Err(e), Err(m)) => e.0@ == m,
                _ => false,
            },
    {
        let ghost s = src@.subrange(start as int, end as int);
        let ghost parts = split_char(s, '.');
        let ranges = split_ranges(src, start, end, '.');
        let mut nums: Vec<u64> = Vec::new();
        let mut k: usize = 0;
        while k < ranges.len()
            invariant
                k <= ranges.len(),
                end <= src.len(),
                ranges.len() == parts.len(),
                parts == split_char(src@.subrange(start as int, end as int), '.'),
                forall|j: int|
                    0 <= j < ranges.len() ==> {
                        &&& start <= (#[trigger] ranges@[j]).0 <= ranges@[j].1 <= end
                        &&& src@.subrange(ranges@[j].0 as int, ranges@[j].1 as int) == parts[j]
                    },
                parse_parts(parts.take(k as int)) == Ok::<Seq<u64>, Seq<char>>(nums@),
            decreases ranges.len() - k,
        {
            let (a, b) = ranges[k];
            assert(parts.take(k + 1).drop_last() =~= parts.take(k as int));
            assert(parts.take(k + 1).last() == parts[k as int]);
            match parse_u64(src, a, b) {
                Err(kind) => {
                    proof {
                        lemma_parse_parts_prefix_err(parts, k + 1);
                    }
                    return Err(Error(int_error_string(kind)));
                },
                Ok(n) => {
                    nums.push(n);
                },
            }
            k = k + 1;
        }
        assert(parts.take(k as int) =~= parts);
        if nums.len() != 3 {
            return Err(Error("Version must have exactly 3 parts".to_string()));
        }
        Ok(StableVersion { major: nums[0], minor: nums[1], patch: nums[2] })
    }
}

/// An error in the parts read so far is the error of all the parts.
pub proof fn lemma_parse_parts_prefix_err(parts: Seq<Seq<char>>, k: int)
    requires
        0 <= k <= parts.len(),
        parse_parts(parts.take(k)) is Err,
    ensures
        parse_parts(parts) == parse_parts(parts.take(k)),
    decreases parts.len() - k,
{
    if k < parts.len() {
        assert(parts.take(k + 1).drop_last() =~= parts.take(k));
        lemma_parse_parts_prefix_err(parts, k + 1);
    } else {
        assert(parts.take(k) =~= parts);
    }
}

impl Label {
    /// A copy of this label.
    pub fn duplicate(&self) -> (r: Label)
        ensures
            r@ == self@,
    {
        Label(self.0.clone())
    }

    /// The label `s`.
    pub fn from_text(s: &str) -> (r: Label)
        ensures
            r@ == s@,
    {
        Label(s.to_string())
    }
}

impl<'a> From<&'a str> for Label {
    fn from(s: &'a str) -> Self {
        Label::from_text(s)
    }
}

/// `Label::from_text` states what this conversion gives; a `Label` value cannot
/// be written in a specification from a `&str`, so nothing is claimed here.
impl<'a> vstd::std_specs::convert::FromSpecImpl<&'a str> for Label {
    open spec fn obeys_from_spec() -> bool {
        false
    }

    open spec fn from_spec(v: &'a str) -> Label {
        arbitrary()
    }
}

impl Prerelease {
    #[allow(clippy::new_ret_no_self)]
    pub fn new(label: Label, version: u64) -> (r: Self)
        ensures
            r@ == (PrereleaseView { label: label@, version }),
    {
        Prerelease { label, version }
    }

    /// A copy of this pre-release.
    pub fn duplicate(&self) -> (r: Prerelease)
        ensures
            r@ == self@,
    {
        Prerelease { label: self.label.duplicate(), version: self.version }
    }

    /// Appends `LABEL.N`.
    pub fn write_to(&self, out: &mut Vec<char>)
        ensures
            final(out)@ == old(out)@ + prerelease_text(self@),
    {
        let label = chars_of(self.label.0.as_str());
        push_all(out, &label);
        out.push('.');
        push_u64(out, self.version);
        assert(final(out)@ =~= old(out)@ + prerelease_text(self@));
    }

    /// The text of this pre-release, as `Display` prints it.
    pub fn to_string(&self) -> (s: String)
        ensures
            s@ == prerelease_text(self@),
    {
        let mut out: Vec<char> = Vec::new();
        self.write_to(&mut out);
        assert(out@ =~= prerelease_text(self@));
        string_of(&out)
    }

    /// Parses `src[start..end]` as `LABEL.N`.
    pub fn parse_range(src: &Vec<char>, start: usize, end: usize) -> (r: Result<Self, Error>)
        requires
            start <= end <= src.len(),
        ensures
            parse_matches(r, parse_prerelease_spec(src@.subrange(start as int, end as int))),
    {
        let ghost s = src@.subrange(start as int, end as int);
        match find_char(src, start, end, '.') {
            None => Err(Error("Invalid prerelease".to_string())),
            Some(i) => {
                let dot = start + i;
                assert(s.skip(i + 1) =~= src@.subrange(dot + 1, end as int));
                assert(s.take(i as int) =~= src@.subrange(start as int, dot as int));
                match parse_u64(src, dot + 1, end) {
                    Err(kind) => Err(Error(int_error_string(kind))),
                    Ok(n) => {
                        let label = string_of(&crate::text::slice_chars(src, start, dot));
                        Ok(Prerelease { label: Label(label), version: n })
                    },
                }
            },
        }
    }

    /// Parses `LABEL.N`.
    pub fn parse(s: &str) -> (r: Result<Self, Error>)
        ensures
            parse_matches(r, parse_prerelease_spec(s@)),
    {
        let cs = chars_of(s);
        assert(cs@.subrange(0, cs@.len() as int) =~= cs@);
        Self::parse_range(&cs, 0, cs.len())
    }
}

impl core::str::FromStr for Prerelease {
    type Err = Error;

    fn from_str(s: &str) -> (r: Result<Self, Error>)
        ensures
            parse_matches(r, parse_prerelease_spec(s@)),
    {
        Prerelease::parse(s)
    }
}

impl Version {
    /// A version from its components.
    pub fn new(major: u64, minor: u64, patch: u64, pre: Option<Prerelease>) -> (r: Self)
        ensures
            r@ == (match pre {
                Some(p) => VersionView::Pre(StableVersion { major, minor, patch }, p@),
                None => VersionView::Stable(StableVersion { major, minor, patch }),
            }),
    {
        let stable = StableVersion { major, minor, patch };
        match pre {
            Some(pre) => Version::Pre(PreVersion { stable_component: stable, pre_component: pre }),
            None => Version::Stable(stable),
        }
    }

    /// The `MAJOR.MINOR.PATCH` part.
    pub fn stable_component(&self) -> (r: StableVersion)
        ensures
            r == self@.stable(),
    {
        match self {
            Version::Stable(stable) => *stable,
            Version::Pre(pre) => pre.stable_component,
        }
    }

    /// Whether there is a pre-release component.
    pub fn is_prerelease(&self) -> (r: bool)
        ensures
            r == (self@ is Pre),
    {
        match self {
            Version::Pre(_) => true,
            Version::Stable(_) => false,
        }
    }

    /// A copy of this version.
    pub fn duplicate(&self) -> (r: Version)
        ensures
            r@ == self@,
    {
        match self {
            Version::Stable(s) => Version::Stable(*s),
            Version::Pre(p) => Version::Pre(
                PreVersion {
                    stable_component: p.stable_component,
                    pre_component: p.pre_component.duplicate(),
                },
            ),
        }
    }

    /// Appends the text of this version.
    pub fn write_to(&self, out: &mut Vec<char>)
        ensures
            final(out)@ == old(out)@ + version_text(self@),
    {
        match self {
            Version::Stable(s) => s.write_to(out),
            Version::Pre(p) => {
                p.stable_component.write_to(out);
                out.push('-');
                p.pre_component.write_to(out);
                assert(final(out)@ =~= old(out)@ + version_text(self@));
            },
        }
    }

    /// The text of this version, as `Display` prints it.
    pub fn to_string(&self) -> (s: String)
        ensures
            s@ == version_text(self@),
    {
        let mut out: Vec<char> = Vec::new();
        self.write_to(&mut out);
        assert(out@ =~= version_text(self@));
        string_of(&out)
    }

    /// Parses `src[start..end]` as a version.
    pub fn parse_range(src: &Vec<char>, start: usize, end: usize) -> (r: Result<Self, Error>)
        requires
            start <= end <= src.len(),
        ensures
            parse_matches(r, parse_version_spec(src@.subrange(start as int, end as int))),
    {
        let ghost s = src@.subrange(start as int, end as int);
        match find_char(src, start, end, '-') {
            None => match StableVersion::parse_range(src, start, end) {
                Err(e) => Err(e),
                Ok(st) => Ok(Version::Stable(st)),
            },
            Some(i) => {
                let dash = start + i;
                assert(s.take(i as int) =~= src@.subrange(start as int, dash as int));
                assert(s.skip(i + 1) =~= src@.subrange(dash + 1, end as int));
                match StableVersion::parse_range(src, start, dash) {
                    Err(e) => Err(e),
                    Ok(st) => match Prerelease::parse_range(src, dash + 1, end) {
                        Err(e) => Err(e),
                        Ok(p) => Ok(Version::Pre(PreVersion { stable_component: st, pre_component: p })),
                    },
                }
            },
        }
    }

    /// Parses a version, as `FromStr` does.
    pub fn parse(s: &str) -> (r: Result<Self, Error>)
        ensures
            parse_matches(r, parse_version_spec(s@)),
    {
        let cs = chars_of(s);
        assert(cs@.subrange(0, cs@.len() as int) =~= cs@);
        Self::parse_range(&cs, 0, cs.len())
    }
}

impl From<StableVersion> for Version {
    fn from(stable: StableVersion) -> Self {
        Version::Stable(stable)
    }
}

impl vstd::std_specs::convert::FromSpecImpl<StableVersion> for Version {
    open spec fn obeys_from_spec() -> bool {
        true
    }

    open spec fn from_spec(v: StableVersion) -> Version {
        Version::Stable(v)
    }
}

impl core::str::FromStr for Version {
    type Err = Error;

    fn from_str(s: &str) -> (r: Result<Self, Error>)
        ensures
            parse_matches(r, parse_version_spec(s@)),
    {
        Version::parse(s)
    }
}

// ---------------------------------------------------------------------------
// Printing then parsing gives the version back
// ---------------------------------------------------------------------------

/// `c` does not occur in `s`.
pub open spec fn lacks(s: Seq<char>, c: char) -> bool {
    forall|i: int| 0 <= i < s.len() ==> s[i] != c
}

proof fn lemma_u64_text_lacks(n: u64)
    ensures
        lacks(u64_text(n as nat), '.'),
        lacks(u64_text(n as nat), '-'),
{
    lemma_u64_text(n);
    let t = u64_text(n as nat);
    assert forall|i: int| 0 <= i < t.len() implies t[i] != '.' && t[i] != '-' by {
        assert(crate::text::is_digit(t[i]));
    }
}

/// Splitting `a + [c] + b` at `c`, where `a` lacks `c`.
proof fn lemma_split_concat(a: Seq<char>, b: Seq<char>, c: char)
    requires
        lacks(a, c),
    ensures
        split_char(a + seq![c] + b, c) == seq![a] + split_char(b, c),
{
    let s = a + seq![c] + b;
    assert(is_first_index(s, c, a.len() as int));
    lemma_first_index_of(s, c, a.len() as int);
    assert(s.take(a.len() as int) =~= a);
    assert(s.skip(a.len() as int + 1) =~= b);
}

proof fn lemma_split_none(a: Seq<char>, c: char)
    requires
        lacks(a, c),
    ensures
        split_char(a, c) == seq![a],
{
    lemma_first_index_of_none(a, c);
}

proof fn lemma_parse_stable_text(st: StableVersion)
    ensures
        parse_stable_spec(stable_text(st)) == Ok::<StableVersion, Seq<char>>(st),
        lacks(stable_text(st), '-'),
{
    let d1 = u64_text(st.major as nat);
    let d2 = u64_text(st.minor as nat);
    let d3 = u64_text(st.patch as nat);
    lemma_u64_text_lacks(st.major);
    lemma_u64_text_lacks(st.minor);
    lemma_u64_text_lacks(st.patch);
    lemma_parse_u64_text(st.major);
    lemma_parse_u64_text(st.minor);
    lemma_parse_u64_text(st.patch);
    let t = stable_text(st);
    assert(t =~= d1 + seq!['.'] + (d2 + seq!['.'] + d3));
    lemma_split_concat(d1, d2 + seq!['.'] + d3, '.');
    lemma_split_concat(d2, d3, '.');
    lemma_split_none(d3, '.');
    let parts = split_char(t, '.');
    assert(parts =~= seq![d1, d2, d3]);
    assert(parts.drop_last() =~= seq![d1, d2]);
    assert(parts.drop_last().drop_last() =~= seq![d1]);
    assert(parts.drop_last().drop_last().drop_last() =~= Seq::<Seq<char>>::empty());
    assert(seq![d1].drop_last() =~= Seq::<Seq<char>>::empty());
    assert(seq![d1, d2].drop_last() =~= seq![d1]);
    assert(parse_parts(Seq::<Seq<char>>::empty()) == Ok::<Seq<u64>, Seq<char>>(seq![]));
    assert(parse_parts(seq![d1]) == Ok::<Seq<u64>, Seq<char>>(seq![st.major]));
    assert(seq![st.major].push(st.minor) =~= seq![st.major, st.minor]);
    assert(seq![st.major, st.minor].push(st.patch) =~= seq![st.major, st.minor, st.patch]);
    assert(parse_parts(seq![d1, d2]) == Ok::<Seq<u64>, Seq<char>>(seq![st.major, st.minor]));
    assert(parse_parts(parts) == Ok::<Seq<u64>, Seq<char>>(seq![st.major, st.minor, st.patch]));
    assert forall|i: int| 0 <= i < t.len() implies t[i] != '-' by {
        if i < d1.len() {
            assert(t[i] == d1[i]);
        } else if i == d1.len() {
        } else if i < d1.len() + 1 + d2.len() {
            assert(t[i] == d2[i - d1.len() - 1]);
        } else if i == d1.len() + 1 + d2.len() {
        } else {
            assert(t[i] == d3[i - d1.len() - 2 - d2.len()]);
        }
    }
}

/// Printing a version and parsing the text gives the version back, as long as
/// its pre-release label holds no `.` (the first `.` of a pre-release ends its label).
pub proof fn lemma_parse_version_text(v: VersionView)
    requires
        v matches VersionView::Pre(_, p) ==> lacks(p.label, '.'),
    ensures
        parse_version_spec(version_text(v)) == Ok::<VersionView, Seq<char>>(v),
{
    match v {
        VersionView::Stable(st) => {
            lemma_parse_stable_text(st);
            lemma_first_index_of_none(stable_text(st), '-');
        },
        VersionView::Pre(st, p) => {
            lemma_parse_stable_text(st);
            let a = stable_text(st);
            let b = prerelease_text(p);
            let t = a + seq!['-'] + b;
            assert(is_first_index(t, '-', a.len() as int));
            lemma_first_index_of(t, '-', a.len() as int);
            assert(t.take(a.len() as int) =~= a);
            assert(t.skip(a.len() as int + 1) =~= b);
            let d = u64_text(p.version as nat);
            assert(is_first_index(b, '.', p.label.len() as int));
            lemma_first_index_of(b, '.', p.label.len() as int);
            assert(b.take(p.label.len() as int) =~= p.label);
            assert(b.skip(p.label.len() as int + 1) =~= d);
            lemma_parse_u64_text(p.version);
        },
    }
}

} // verus!
