//! Packages: a name, the versions found for it, the files that hold its version,
//! and how its release notes are written.
use vstd::prelude::*;

use crate::action::{actions_view, Action, ActionView};
use crate::changes::conventional_commit::{all_commit_changes, changes_from_commit_messages, scopes_view, Commit};
use crate::changes::{changes_view, changeset_change, Change, ChangeView, ChangeSource, GitInfo, PackageChange, CHANGESET_DIR};
use crate::path::{path_eq, path_file_name, path_join, rel_eq, rel_file_name, rel_join};
use crate::release_notes::{release_done, release_of, ReleaseNotes, TimeError};
use crate::semver::package_versions::{bump_ok, bump_spec, empty_versions, from_tags_spec, tag_pattern, update_spec, PackageVersionsView};
use crate::semver::rule::{rule_for_changes, RuleView};
use crate::semver::{Label, PackageVersions, PreReleaseNotFound, Rule, StableRule, Version, VersionView};
use crate::text::{chars_of, push_str, string_of};
use crate::versioned_file::cargo::name_from_document;
use crate::versioned_file::{opt_text, Config, FileFormat, GoVersioning, SetError, VersionedFile};
use crate::versioned_file::versioned::{set_spec, version_of};

verus! {

/// The name of a package: a custom name, or the default package of a project.
#[derive(Clone, Debug, PartialEq, Eq, Hash)]
pub enum Name {
    Custom(String),
    Default,
}

pub enum NameView {
    Custom(Seq<char>),
    Default,
}

impl View for Name {
    type V = NameView;

    open spec fn view(&self) -> NameView {
        match self {
            Name::Custom(s) => NameView::Custom(s@),
            Name::Default => NameView::Default,
        }
    }
}

/// How a name reads: the custom name, or `default`.
pub open spec fn name_text(n: NameView) -> Seq<char> {
    match n {
        NameView::Custom(s) => s,
        NameView::Default => "default"@,
    }
}

impl Name {
    /// The custom name, if this is not the default package.
    pub fn as_custom(&self) -> (r: Option<&str>)
        ensures
            match (self@, r) {
                (NameView::Custom(s), Some(t)) => t@ == s,
                (NameView::Default, None) => true,
                _ => false,
            },
    {
        match self {
            Name::Custom(name) => Some(name.as_str()),
            Name::Default => None,
        }
    }

    /// The name as text: the custom name, or `default`.
    pub fn as_str(&self) -> (r: &str)
        ensures
            r@ == name_text(self@),
    {
        match self {
            Name::Custom(name) => name.as_str(),
            Name::Default => "default",
        }
    }

    /// The name as `Display` prints it.
    pub fn to_string(&self) -> (r: String)
        ensures
            r@ == name_text(self@),
    {
        self.as_str().to_string()
    }

    /// A copy of this name.
    pub fn duplicate(&self) -> (r: Name)
        ensures
            r@ == self@,
    {
        match self {
            Name::Custom(name) => Name::Custom(name.clone()),
            Name::Default => Name::Default,
        }
    }
}

impl Default for Name {
    fn default() -> (r: Self)
        ensures
            r@ == NameView::Default,
    {
        Name::Default
    }
}

impl<'a> From<&'a str> for Name {
    fn from(name: &'a str) -> Self {
        Name::Custom(name.to_string())
    }
}

/// Nothing is claimed of this conversion; `Name::Custom(name.to_string())` is all it does.
impl<'a> vstd::std_specs::convert::FromSpecImpl<&'a str> for Name {
    open spec fn obeys_from_spec() -> bool {
        false
    }

    open spec fn from_spec(v: &'a str) -> Name {
        arbitrary()
    }
}

impl From<String> for Name {
    fn from(name: String) -> Self {
        Name::Custom(name)
    }
}

impl vstd::std_specs::convert::FromSpecImpl<String> for Name {
    open spec fn obeys_from_spec() -> bool {
        true
    }

    open spec fn from_spec(v: String) -> Name {
        Name::Custom(v)
    }
}

// ---------------------------------------------------------------------------
// Packages
// ---------------------------------------------------------------------------

/// How the new version of a package is chosen.
pub enum ChangeConfig {
    /// This version, whatever the changes.
    Force(Version),
    /// A version computed from the changes: a pre-release with the label, if any.
    Calculate { prerelease_label: Option<Label>, go_versioning: GoVersioning },
}

/// Why a package could not be made.
#[derive(Debug)]
pub enum NewError {
    /// Found inconsistent versions in package.
    InconsistentVersions { first_path: String, first_version: Version, second_path: String, second_version: Version },
    /// Versioned file not found.
    NotFound(String),
    /// Dependencies are not supported in files of this name.
    UnsupportedDependency(String),
    /// Cargo.lock must specify a dependency.
    CargoLockNoDependency,
    /// Packages must have at least one versioned file.
    NoPackages,
    VersionedFile(crate::versioned_file::Error),
}

/// Why a package could not get a new version.
#[derive(Debug)]
pub enum BumpError {
    SetError(SetError),
    PreReleaseNotFound(PreReleaseNotFound),
    Time(TimeError),
}

/// A package: its name, versions, versioned files and release notes.
#[derive(Debug)]
pub struct Package {
    pub name: Name,
    pub versions: PackageVersions,
    pub versioned_files: Vec<Config>,
    pub release_notes: ReleaseNotes,
    pub scopes: Option<Vec<String>>,
}

/// The rule for the next version: a pre-release with the label, or a stable one.
pub open spec fn rule_of(changes: Seq<Change>, label: Option<Label>) -> RuleView {
    let stable = rule_for_changes(changes.map_values(|c: Change| c@));
    match label {
        Some(l) => RuleView::Pre(l@, stable),
        None => RuleView::Stable(stable),
    }
}

/// The actions that remove the change files of the changes: none for a pre-release.
pub open spec fn removals(changes: Seq<ChangeView>, prerelease: bool) -> Seq<ActionView>
    decreases changes.len(),
{
    if changes.len() == 0 || prerelease {
        seq![]
    } else {
        let prev = removals(changes.drop_last(), prerelease);
        match changes.last().source {
            crate::changes::SourceView::File(id) => prev.push(
                ActionView::RemoveFile { path: rel_join(".changeset"@, crate::changes::change_file_name(id)) },
            ),
            _ => prev,
        }
    }
}

/// The versions that a package's tags give: tags `v{version}`, or
/// `{name}/v{version}` for a custom name.
pub open spec fn versions_from_tags(name: NameView, tags: Seq<Seq<char>>) -> PackageVersionsView {
    from_tags_spec(
        tag_pattern(
            match name {
                NameView::Custom(n) => Some(n),
                NameView::Default => None,
            },
        ),
        tags,
        empty_versions(),
    )
}

/// The versions of a new package: those of its tags, updated with the version
/// of its files, if they have one.
pub open spec fn new_versions(name: NameView, tags: Seq<&str>, files_version: Option<VersionView>) -> PackageVersionsView {
    let from_tags = versions_from_tags(name, tags.map_values(|t: &str| t@));
    match files_version {
        Some(v) => update_spec(from_tags, v),
        None => from_tags,
    }
}

/// Whether one of the files is at `path`.
pub open spec fn found_in(files: Seq<VersionedFile>, path: Seq<char>) -> bool {
    exists|j: int| 0 <= j < files.len() && rel_eq((#[trigger] files[j]).path_view(), path)
}

/// The index of the first of the first `j` files that is at `path`.
pub open spec fn file_index(all: Seq<VersionedFile>, path: Seq<char>, j: int) -> Option<int>
    decreases j,
{
    if j <= 0 {
        None
    } else {
        match file_index(all, path, j - 1) {
            Some(x) => Some(x),
            None => if rel_eq(all[j - 1].path_view(), path) {
                Some(j - 1)
            } else {
                None
            },
        }
    }
}

/// The first of the first `k` configurations whose file is not among `all`.
pub open spec fn first_missing(listed: Seq<Config>, all: Seq<VersionedFile>, k: int) -> Option<int>
    decreases k,
{
    if k <= 0 {
        None
    } else {
        match first_missing(listed, all, k - 1) {
            Some(i) => Some(i),
            None => if file_index(all, listed[k - 1].path@, all.len() as int) is None {
                Some(k - 1)
            } else {
                None
            },
        }
    }
}

/// The file of the `k`th configuration.
pub open spec fn file_of(listed: Seq<Config>, all: Seq<VersionedFile>, k: int) -> int {
    match file_index(all, listed[k].path@, all.len() as int) {
        Some(x) => x,
        None => 0,
    }
}

/// The package name at `package.name` of the first Cargo.toml among the first `k`
/// configurations that is no dependency and has one.
pub open spec fn cargo_name_of(listed: Seq<Config>, all: Seq<VersionedFile>, k: int) -> Option<Seq<char>>
    decreases k,
{
    if k <= 0 {
        None
    } else {
        match cargo_name_of(listed, all, k - 1) {
            Some(n) => Some(n),
            None => if listed[k - 1].dependency is None {
                match all[file_of(listed, all, k - 1)] {
                    VersionedFile::Cargo(f) => crate::toml::toml_strings(f.document).get(seq!["package"@, "name"@]),
                    _ => None,
                }
            } else {
                None
            },
        }
    }
}

/// What checking the dependency of a configuration gives: the dependency that it
/// keeps (a Cargo.lock without one takes the name of the package of a
/// Cargo.toml), or why it is refused.
pub enum DepCheck {
    Keep(Option<Seq<char>>),
    Unsupported,
    NoCargoName,
}

pub open spec fn dep_check(c: Config, cargo_name: Option<Seq<char>>) -> DepCheck {
    match c.format {
        FileFormat::Cargo | FileFormat::PackageJson | FileFormat::PackageLockJson => DepCheck::Keep(opt_text(c.dependency)),
        FileFormat::CargoLock => if c.dependency is Some {
            DepCheck::Keep(opt_text(c.dependency))
        } else {
            match cargo_name {
                Some(n) => DepCheck::Keep(Some(n)),
                None => DepCheck::NoCargoName,
            }
        },
        _ => if c.dependency is Some {
            DepCheck::Unsupported
        } else {
            DepCheck::Keep(None)
        },
    }
}

/// How far the check of the files of a package gets through the first `k`
/// configurations: through all of them, with the first file that holds a
/// package version and that version, or to the one that stops it.
pub enum Scan {
    Fine(Option<(int, VersionView)>),
    Stop(int),
}

pub open spec fn scan(listed: Seq<Config>, all: Seq<VersionedFile>, k: int) -> Scan
    decreases k,
{
    if k <= 0 {
        Scan::Fine(None)
    } else {
        match scan(listed, all, k - 1) {
            Scan::Stop(i) => Scan::Stop(i),
            Scan::Fine(first) => match dep_check(listed[k - 1], cargo_name_of(listed, all, listed.len() as int)) {
                DepCheck::Keep(Some(_)) => Scan::Fine(first),
                DepCheck::Keep(None) => {
                    let x = file_of(listed, all, k - 1);
                    match version_of(all[x]) {
                        None => Scan::Stop(k - 1),
                        Some(v) => match first {
                            None => Scan::Fine(Some((x, v))),
                            Some((_, v0)) => if v == v0 {
                                Scan::Fine(first)
                            } else {
                                Scan::Stop(k - 1)
                            },
                        },
                    }
                },
                _ => Scan::Stop(k - 1),
            },
        }
    }
}

/// The error at which the check of the files stops, at configuration `k`.
pub open spec fn stop_error(listed: Seq<Config>, all: Seq<VersionedFile>, k: int, e: NewError) -> bool {
    let x = file_of(listed, all, k);
    match dep_check(listed[k], cargo_name_of(listed, all, listed.len() as int)) {
        DepCheck::Unsupported => e is UnsupportedDependency,
        DepCheck::NoCargoName => e is CargoLockNoDependency,
        DepCheck::Keep(_) => match version_of(all[x]) {
            None => e is VersionedFile,
            Some(v) => match (scan(listed, all, k), e) {
                (
                    Scan::Fine(Some((x0, v0))),
                    NewError::InconsistentVersions { first_path, first_version, second_path, second_version },
                ) => first_path@ == all[x0].path_view() && first_version@ == v0 && second_path@ == all[x].path_view()
                    && second_version@ == v,
                _ => false,
            },
        },
    }
}

/// The version the files of a package agree on, if any holds one.
pub open spec fn files_version(s: Scan) -> Option<VersionView> {
    match s {
        Scan::Fine(Some((_, v))) => Some(v),
        _ => None,
    }
}

/// Configurations of the package version of files that all hold one: none is a
/// dependency or a Cargo.lock, each file is among `all`, and each reads a version.
pub open spec fn plain_configs(listed: Seq<Config>, all: Seq<VersionedFile>) -> bool {
    forall|i: int|
        0 <= i < listed.len() ==> {
            &&& (#[trigger] listed[i]).dependency is None
            &&& listed[i].format != FileFormat::CargoLock
            &&& file_index(all, listed[i].path@, all.len() as int) is Some
            &&& version_of(all[file_of(listed, all, i)]) is Some
        }
}

/// The version that the file of configuration `i` holds.
pub open spec fn version_at(listed: Seq<Config>, all: Seq<VersionedFile>, i: int) -> VersionView {
    match version_of(all[file_of(listed, all, i)]) {
        Some(v) => v,
        None => arbitrary(),
    }
}

/// The first of the first `k` configurations whose version differs from the
/// first configuration's.
pub open spec fn first_difference(listed: Seq<Config>, all: Seq<VersionedFile>, k: int) -> Option<int>
    decreases k,
{
    if k <= 1 {
        None
    } else {
        match first_difference(listed, all, k - 1) {
            Some(j) => Some(j),
            None => if version_at(listed, all, k - 1) != version_at(listed, all, 0) {
                Some(k - 1)
            } else {
                None
            },
        }
    }
}

/// For files that all hold a package version, the check stops at the first
/// whose version differs from the first file's (so `Package::new` names these
/// two versions in `InconsistentVersions`), and otherwise agrees on the first
/// file's version.
pub proof fn lemma_scan_plain(listed: Seq<Config>, all: Seq<VersionedFile>, k: int)
    requires
        plain_configs(listed, all),
        1 <= k <= listed.len(),
    ensures
        scan(listed, all, k) == match first_difference(listed, all, k) {
            Some(j) => Scan::Stop(j),
            None => Scan::Fine(Some((file_of(listed, all, 0), version_at(listed, all, 0)))),
        },
    decreases k,
{
    let c = listed[k - 1];
    assert(c.dependency is None && c.format != FileFormat::CargoLock);
    assert(dep_check(c, cargo_name_of(listed, all, listed.len() as int)) == DepCheck::Keep(None));
    if k > 1 {
        lemma_scan_plain(listed, all, k - 1);
    } else {
        assert(scan(listed, all, 0) == Scan::Fine(None));
    }
}

/// A configuration's file, found among the first `j`, stays the one found.
pub proof fn lemma_file_index_more(all: Seq<VersionedFile>, path: Seq<char>, j: int, j2: int)
    requires
        0 <= j <= j2,
        file_index(all, path, j) is Some,
    ensures
        file_index(all, path, j2) == file_index(all, path, j),
        file_index(all, path, j) matches Some(x) && 0 <= x < j && rel_eq(all[x].path_view(), path),
    decreases j2,
{
    if j2 > j {
        lemma_file_index_more(all, path, j, j2 - 1);
    } else {
        lemma_file_index_bound(all, path, j);
    }
}

pub proof fn lemma_file_index_bound(all: Seq<VersionedFile>, path: Seq<char>, j: int)
    ensures
        file_index(all, path, j) matches Some(x) ==> 0 <= x < j && rel_eq(all[x].path_view(), path),
        file_index(all, path, j) is None ==> forall|y: int| 0 <= y < j ==> !rel_eq(#[trigger] all[y].path_view(), path),
    decreases j,
{
    if j > 0 {
        lemma_file_index_bound(all, path, j - 1);
    }
}

/// A missing file found among the first `k` configurations stays the first.
pub proof fn lemma_first_missing_more(listed: Seq<Config>, all: Seq<VersionedFile>, k: int, k2: int)
    requires
        0 <= k <= k2,
        first_missing(listed, all, k) is Some,
    ensures
        first_missing(listed, all, k2) == first_missing(listed, all, k),
    decreases k2,
{
    if k2 > k {
        lemma_first_missing_more(listed, all, k, k2 - 1);
    }
}

/// A stop among the first `k` configurations stays the stop.
pub proof fn lemma_scan_stop_more(listed: Seq<Config>, all: Seq<VersionedFile>, k: int, k2: int)
    requires
        0 <= k <= k2,
        scan(listed, all, k) is Stop,
    ensures
        scan(listed, all, k2) == scan(listed, all, k),
    decreases k2,
{
    if k2 > k {
        lemma_scan_stop_more(listed, all, k, k2 - 1);
    }
}

/// A Cargo.toml name found among the first `k` configurations stays the one.
pub proof fn lemma_cargo_name_more(listed: Seq<Config>, all: Seq<VersionedFile>, k: int, k2: int)
    requires
        0 <= k <= k2,
        cargo_name_of(listed, all, k) is Some,
    ensures
        cargo_name_of(listed, all, k2) == cargo_name_of(listed, all, k),
    decreases k2,
{
    if k2 > k {
        lemma_cargo_name_more(listed, all, k, k2 - 1);
    }
}

/// The configurations for the file at `path`, in order.
pub open spec fn matching(configs: Seq<Config>, path: Seq<char>) -> Seq<Config>
    decreases configs.len(),
{
    if configs.len() == 0 {
        seq![]
    } else if rel_eq(configs.last().path@, path) {
        matching(configs.drop_last(), path).push(configs.last())
    } else {
        matching(configs.drop_last(), path)
    }
}

/// What `bump_version` does to one file: a file that no configuration is for is
/// kept as it is; one that a single configuration is for gets the version set
/// as that configuration says.
pub open spec fn bumped(configs: Seq<Config>, version: VersionView, before: VersionedFile, after: VersionedFile) -> bool {
    &&& after.path_view() == before.path_view()
    &&& after.format() == before.format()
    &&& after.wf()
    &&& matching(configs, before.path_view()).len() == 0 ==> after == before
    &&& matching(configs, before.path_view()).len() == 1 ==> set_spec(
        before,
        version,
        opt_text(matching(configs, before.path_view())[0].dependency),
        Ok::<VersionedFile, SetError>(after),
    )
}

/// What setting the version in a file can give: as `VersionedFile::set_version`
/// states it, a go.mod by the Go rules for major versions.
pub open spec fn set_result(
    f: VersionedFile,
    version: VersionView,
    dependency: Option<Seq<char>>,
    go_versioning: GoVersioning,
    r: Result<VersionedFile, SetError>,
) -> bool {
    &&& set_spec(f, version, dependency, r)
    &&& f matches VersionedFile::GoMod(g) ==> match r {
        Ok(VersionedFile::GoMod(h)) => crate::versioned_file::go_mod::set_version_spec(g@, version, go_versioning) matches Ok(a)
            && h.pending() == Some(a),
        Err(SetError::GoMod(e)) => crate::versioned_file::go_mod::set_version_spec(g@, version, go_versioning) == Err::<
            Seq<crate::action::ActionView>,
            crate::versioned_file::go_mod::SetError,
        >(e),
        _ => false,
    }
}

/// Whether `bump_version` can stop on the file with the error `e`: some
/// configuration is for the file, and where only one is, setting the version as
/// it says gives `e`.
pub open spec fn bump_failed_on(
    configs: Seq<Config>,
    version: VersionView,
    go_versioning: GoVersioning,
    f: VersionedFile,
    e: SetError,
) -> bool {
    &&& matching(configs, f.path_view()).len() >= 1
    &&& matching(configs, f.path_view()).len() == 1 ==> set_result(
        f,
        version,
        opt_text(matching(configs, f.path_view())[0].dependency),
        go_versioning,
        Err(e),
    )
}

/// The configurations for a path among the first `j` are the first of those
/// among all.
pub proof fn lemma_matching_prefix(configs: Seq<Config>, path: Seq<char>, j: int)
    requires
        0 <= j <= configs.len(),
    ensures
        matching(configs.take(j), path).len() <= matching(configs, path).len(),
        forall|t: int|
            0 <= t < matching(configs.take(j), path).len() ==> #[trigger] matching(configs.take(j), path)[t]
                == matching(configs, path)[t],
    decreases configs.len(),
{
    if j == configs.len() {
        assert(configs.take(j) =~= configs);
    } else {
        let d = configs.drop_last();
        lemma_matching_prefix(d, path, j);
        assert(d.take(j) =~= configs.take(j));
    }
}

/// The version that `apply_changes` sets: the forced one, or the next one by the
/// rule of the changes.
pub open spec fn chosen_version(versions: PackageVersionsView, changes: Seq<Change>, config: ChangeConfig) -> Result<
    VersionView,
    (),
> {
    match config {
        ChangeConfig::Force(v) => Ok(v@),
        ChangeConfig::Calculate { prerelease_label, .. } => bump_spec(versions, rule_of(changes, prerelease_label)).1,
    }
}

/// The rule for go.mod files that `apply_changes` follows.
pub open spec fn go_versioning_of(config: ChangeConfig) -> GoVersioning {
    match config {
        ChangeConfig::Force(_) => GoVersioning::BumpMajor,
        ChangeConfig::Calculate { go_versioning, .. } => go_versioning,
    }
}

/// The versions after `apply_changes`: unchanged for a forced version.
pub open spec fn versions_after(versions: PackageVersionsView, changes: Seq<Change>, config: ChangeConfig) -> PackageVersionsView {
    match config {
        ChangeConfig::Force(_) => versions,
        ChangeConfig::Calculate { prerelease_label, .. } => bump_spec(versions, rule_of(changes, prerelease_label)).0,
    }
}

/// `apply_changes` overflows no number with this configuration.
pub open spec fn change_config_ok(versions: PackageVersionsView, changes: Seq<Change>, config: ChangeConfig) -> bool {
    config matches ChangeConfig::Calculate { prerelease_label, .. } ==> bump_ok(
        versions,
        rule_of(changes, prerelease_label),
    )
}

pub open spec fn configs_of(files: Seq<VersionedFile>) -> bool {
    forall|i: int| 0 <= i < files.len() ==> (#[trigger] files[i]).wf()
}

impl Package {
    pub open spec fn scopes_spec(&self) -> Option<Seq<Seq<char>>> {
        match self.scopes {
            Some(v) => Some(v@.map_values(|s: String| s@)),
            None => None,
        }
    }

    /// Combines versioned files into one package; its versions come from the tags,
    /// and from the files, which must agree. There must be at least one file;
    /// each must be among `all_versioned_files`; checked in order, the first
    /// whose dependency its type refuses, whose version cannot be read, or whose
    /// version differs from the first file's, gives the error.
    pub fn new(
        name: Name,
        git_tags: &[&str],
        files_in_package: Vec<Config>,
        all_versioned_files: &[VersionedFile],
        release_notes: ReleaseNotes,
        scopes: Option<Vec<String>>,
    ) -> (r: Result<Package, NewError>)
        requires
            configs_of(all_versioned_files@),
        ensures
            r matches Ok(p) ==> {
                &&& p.versions.wf()
                &&& p.name == name
                &&& p.release_notes == release_notes
                &&& p.scopes == scopes
                &&& p.versioned_files@.len() == files_in_package@.len()
                &&& forall|i: int|
                    0 <= i < files_in_package@.len() ==> found_in(
                        all_versioned_files@,
                        (#[trigger] files_in_package@[i]).path@,
                    ) && p.versioned_files@[i].path == files_in_package@[i].path && p.versioned_files@[i].format
                        == files_in_package@[i].format
            },
            files_in_package@.len() == 0 ==> r matches Err(NewError::NoPackages),
            files_in_package@.len() > 0 ==> match first_missing(
                files_in_package@,
                all_versioned_files@,
                files_in_package@.len() as int,
            ) {
                Some(i) => r matches Err(NewError::NotFound(p)) && p@ == files_in_package@[i].path@,
                None => match scan(files_in_package@, all_versioned_files@, files_in_package@.len() as int) {
                    Scan::Stop(k) => r matches Err(e) && stop_error(files_in_package@, all_versioned_files@, k, e),
                    Scan::Fine(first) => r matches Ok(p) && p.versions@ == new_versions(
                        name@,
                        git_tags@,
                        files_version(Scan::Fine(first)),
                    ),
                },
            },
    {
        if files_in_package.len() == 0 {
            return Err(NewError::NoPackages);
        }
        let (versioned_files, version_from_files) = match validate_versioned_files(files_in_package, all_versioned_files) {
            Ok(x) => x,
            Err(e) => return Err(e),
        };
        let mut versions = PackageVersions::from_tags(name.as_custom(), git_tags);
        let ghost fv: Option<VersionView> = match &version_from_files {
            Some(v) => Some(v@),
            None => None,
        };
        match version_from_files {
            Some(v) => versions.update_version(v),
            None => {},
        }
        assert(versions@ == new_versions(name@, git_tags@, fv));
        Ok(Package { name, versions, versioned_files, release_notes, scopes })
    }

    /// Sets the version in each of the files, once for each configuration of it.
    pub fn bump_version(&mut self, version: &Version, go_versioning: GoVersioning, versioned_files: Vec<VersionedFile>) -> (r: Result<
        Vec<VersionedFile>,
        BumpError,
    >)
        requires
            configs_of(versioned_files@),
        ensures
            *final(self) == *old(self),
            r matches Ok(v) ==> {
                &&& v@.len() == versioned_files@.len()
                &&& forall|i: int|
                    0 <= i < v@.len() ==> bumped(old(self).versioned_files@, version@, versioned_files@[i], #[trigger] v@[i])
            },
            r matches Err(e) ==> e matches BumpError::SetError(se) && exists|i: int|
                0 <= i < versioned_files@.len() && #[trigger] bump_failed_on(
                    old(self).versioned_files@,
                    version@,
                    go_versioning,
                    versioned_files@[i],
                    se,
                ),
    {
        let mut files = versioned_files;
        let mut out: Vec<VersionedFile> = Vec::new();
        let ghost orig = files@;
        assert(orig == versioned_files@);
        let n = files.len();
        while files.len() > 0
            invariant
                out@.len() + files@.len() == n,
                n == orig.len(),
                orig == versioned_files@,
                *self == *old(self),
                configs_of(files@),
                configs_of(out@),
                files@ == orig.skip(out@.len() as int),
                forall|i: int| 0 <= i < out@.len() ==> bumped(self.versioned_files@, version@, orig[i], #[trigger] out@[i]),
            decreases files.len(),
        {
            let ghost before = files@;
            let mut file = files.remove(0);
            assert(files@ =~= orig.skip(out@.len() + 1int));
            let ghost p = file.path_view();
            let mut k: usize = 0;
            while k < self.versioned_files.len()
                invariant
                    k <= self.versioned_files.len(),
                    orig == versioned_files@,
                    *self == *old(self),
                    out@.len() < orig.len(),
                    file.wf(),
                    file.path_view() == p,
                    file.format() == orig[out@.len() as int].format(),
                    orig[out@.len() as int].path_view() == p,
                    matching(self.versioned_files@.take(k as int), p).len() == 0 ==> file == orig[out@.len() as int],
                    matching(self.versioned_files@.take(k as int), p).len() == 1 ==> set_spec(
                        orig[out@.len() as int],
                        version@,
                        opt_text(matching(self.versioned_files@.take(k as int), p)[0].dependency),
                        Ok::<VersionedFile, SetError>(file),
                    ),
                decreases self.versioned_files.len() - k,
            {
                if path_eq(self.versioned_files[k].path.as_str(), file.path().as_str()) {
                    let dependency = match &self.versioned_files[k].dependency {
                        Some(d) => Some(d.as_str()),
                        None => None,
                    };
                    assert(crate::versioned_file::opt_str(dependency) == opt_text(self.versioned_files@[k as int].dependency));
                    let ghost file_before = file;
                    file = match file.set_version(version, dependency, go_versioning) {
                        Ok(f) => f,
                        Err(e) => {
                            proof {
                                let cs = self.versioned_files@;
                                let ki = k as int;
                                assert(cs.take(ki + 1).drop_last() =~= cs.take(ki));
                                assert(cs.take(ki + 1).last() == cs[ki]);
                                lemma_matching_prefix(cs, p, ki + 1);
                                lemma_matching_prefix(cs.take(ki + 1), p, ki);
                                assert(cs.take(ki + 1).take(ki) =~= cs.take(ki));
                                if matching(cs, p).len() == 1 {
                                    assert(matching(cs.take(ki + 1), p)[matching(cs.take(ki), p).len() as int] == cs[ki]);
                                    assert(matching(cs, p)[0] == cs[ki]);
                                }
                                assert(bump_failed_on(cs, version@, go_versioning, orig[out@.len() as int], e));
                            }
                            return Err(BumpError::SetError(e));
                        },
                    };
                }
                assert(self.versioned_files@.take(k + 1int).last() == self.versioned_files@[k as int]);
                k = k + 1;
                assert(self.versioned_files@.take(k as int).drop_last() =~= self.versioned_files@.take(k - 1));
            }
            assert(self.versioned_files@.take(k as int) =~= self.versioned_files@);
            let ghost out_before = out@;
            out.push(file);
            assert(forall|i: int| 0 <= i < out_before.len() ==> out@[i] == out_before[i]);
        }
        Ok(out)
    }

    /// The changes of the package: from the commit messages, then from the change files.
    pub fn get_changes(&self, changeset: &Vec<(PackageChange, Option<GitInfo>)>, commit_messages: &[Commit]) -> (r: Vec<Change>)
        ensures
            changes_view(r@).take(all_commit_changes(commit_messages@, self.scopes_spec(), self.release_notes.sections@).len() as int)
                == all_commit_changes(commit_messages@, self.scopes_spec(), self.release_notes.sections@),
            r@.len() == all_commit_changes(commit_messages@, self.scopes_spec(), self.release_notes.sections@).len()
                + changeset@.len(),
            forall|i: int|
                0 <= i < changeset@.len() ==> r@[all_commit_changes(
                    commit_messages@,
                    self.scopes_spec(),
                    self.release_notes.sections@,
                ).len() + i]@ == changeset_change((#[trigger] changeset@[i]).0, changeset@[i].1),
    {
        let scopes = match &self.scopes {
            Some(v) => Some(v),
            None => None,
        };
        let mut out = changes_from_commit_messages(commit_messages, scopes, &self.release_notes.sections);
        let ghost first = changes_view(out@);
        let mut more = Change::from_changeset(changeset);
        let ghost m = more@;
        let ghost before = out@;
        out.append(&mut more);
        assert(changes_view(out@).take(first.len() as int) =~= first);
        assert(forall|i: int| 0 <= i < m.len() ==> out@[before.len() + i] == m[i]);
        out
    }

    /// Sets the package to its new version: the forced one, or the next one by
    /// the rule of the changes. Returns the updated files and the actions that
    /// finish the release: removing the change files (not for a pre-release),
    /// then what writing the release notes takes.
    pub fn apply_changes(&mut self, changes: &[Change], versioned_files: Vec<VersionedFile>, config: ChangeConfig) -> (r: Result<
        (Vec<VersionedFile>, Vec<Action>),
        BumpError,
    >)
        requires
            old(self).versions.wf(),
            configs_of(versioned_files@),
            change_config_ok(old(self).versions@, changes@, config),
        ensures
            final(self).versions.wf(),
            final(self).name == old(self).name,
            final(self).versioned_files == old(self).versioned_files,
            final(self).scopes == old(self).scopes,
            final(self).versions@ == versions_after(old(self).versions@, changes@, config),
            chosen_version(old(self).versions@, changes@, config) is Err <==> r matches Err(
                BumpError::PreReleaseNotFound(_),
            ),
            r matches Err(BumpError::Time(_)) ==> chosen_version(old(self).versions@, changes@, config) is Ok
                && final(self).release_notes == old(self).release_notes,
            r matches Err(BumpError::SetError(se)) ==> chosen_version(old(self).versions@, changes@, config) matches Ok(v)
                && exists|i: int|
                0 <= i < versioned_files@.len() && #[trigger] bump_failed_on(
                    old(self).versioned_files@,
                    v,
                    go_versioning_of(config),
                    versioned_files@[i],
                    se,
                ),
            r matches Ok((files, actions)) ==> {
                &&& chosen_version(old(self).versions@, changes@, config) matches Ok(v)
                &&& files@.len() == versioned_files@.len()
                &&& configs_of(files@)
                &&& forall|i: int|
                    0 <= i < files@.len() ==> bumped(old(self).versioned_files@, v, versioned_files@[i], #[trigger] files@[i])
                &&& actions_view(actions@).take(removals(changes_view(changes@), v is Pre).len() as int) == removals(
                    changes_view(changes@),
                    v is Pre,
                )
                &&& exists|date: Seq<char>|
                    release_done(
                        &old(self).release_notes,
                        &final(self).release_notes,
                        #[trigger] release_of(&old(self).release_notes, v, changes@, &old(self).name, date),
                        actions_view(actions@).skip(removals(changes_view(changes@), v is Pre).len() as int),
                    )
            },
    {
        let ghost cfg = config;
        let (version, go_versioning) = match config {
            ChangeConfig::Force(version) => (version, GoVersioning::BumpMajor),
            ChangeConfig::Calculate { prerelease_label, go_versioning } => {
                let stable_rule = StableRule::from_changes(changes);
                let rule = match prerelease_label {
                    Some(label) => Rule::Pre { label, stable_rule },
                    None => Rule::Stable(stable_rule),
                };
                match self.versions.bump(rule) {
                    Ok(v) => (v, go_versioning),
                    Err(e) => return Err(BumpError::PreReleaseNotFound(e)),
                }
            },
        };
        assert(chosen_version(old(self).versions@, changes@, cfg) == Ok::<VersionView, ()>(version@));
        let updated = match self.bump_version(&version, go_versioning, versioned_files) {
            Ok(u) => u,
            Err(e) => return Err(e),
        };
        let is_pre = version.is_prerelease();
        let mut actions: Vec<Action> = Vec::new();
        let mut i: usize = 0;
        while i < changes.len()
            invariant
                i <= changes.len(),
                actions_view(actions@) == removals(changes_view(changes@).take(i as int), is_pre),
            decreases changes.len() - i,
        {
            let ghost before = actions@;
            match &changes[i].original_source {
                ChangeSource::ChangeFile { id } => {
                    if !is_pre {
                        let mut name: Vec<char> = chars_of(id.as_str());
                        push_str(&mut name, ".md");
                        let path = path_join(CHANGESET_DIR, string_of(&name).as_str());
                        actions.push(Action::RemoveFile { path });
                    }
                },
                _ => {},
            }
            assert(changes_view(changes@).take(i + 1int).drop_last() =~= changes_view(changes@).take(i as int));
            assert(actions_view(actions@) =~= removals(changes_view(changes@).take(i + 1int), is_pre));
            i = i + 1;
        }
        assert(changes_view(changes@).take(changes@.len() as int) =~= changes_view(changes@));
        let ghost removed = actions_view(actions@);
        let ghost v = version;
        let ghost notes_before = self.release_notes;
        let mut released = match self.release_notes.create_release(version, changes, &self.name) {
            Ok(a) => a,
            Err(e) => return Err(BumpError::Time(e)),
        };
        let ghost notes = actions_view(released@);
        actions.append(&mut released);
        assert(actions_view(actions@) =~= removed + notes);
        assert(actions_view(actions@).take(removed.len() as int) =~= removed);
        assert(actions_view(actions@).skip(removed.len() as int) =~= notes);
        Ok((updated, actions))
    }
}

/// The configurations with their files: each file found among `all`.
pub open spec fn relevant_ok(relevant: Seq<(Config, usize)>, listed: Seq<Config>, all: Seq<VersionedFile>, n: int) -> bool {
    &&& relevant.len() == n
    &&& forall|x: int|
        0 <= x < n ==> {
            &&& (#[trigger] relevant[x]).1 < all.len()
            &&& relevant[x].1 == file_of(listed, all, x)
            &&& file_index(all, listed[x].path@, all.len() as int) is Some
            &&& relevant[x].0.path == listed[x].path
            &&& relevant[x].0.format == listed[x].format
            &&& opt_text(relevant[x].0.dependency) == opt_text(listed[x].dependency)
        }
}

/// Finds the file of each configuration, checks their dependencies, and finds
/// the version that the files agree on.
fn validate_versioned_files(listed: Vec<Config>, all: &[VersionedFile]) -> (r: Result<(Vec<Config>, Option<Version>), NewError>)
    requires
        configs_of(all@),
    ensures
        r matches Ok((c, _)) ==> {
            &&& c@.len() == listed@.len()
            &&& forall|i: int| 0 <= i < listed@.len() ==> found_in(all@, (#[trigger] listed@[i]).path@)
            &&& forall|i: int|
                0 <= i < c@.len() ==> (#[trigger] c@[i]).path == listed@[i].path && c@[i].format == listed@[i].format
        },
        match first_missing(listed@, all@, listed@.len() as int) {
            Some(i) => r matches Err(NewError::NotFound(p)) && p@ == listed@[i].path@,
            None => match scan(listed@, all@, listed@.len() as int) {
                Scan::Stop(k) => r matches Err(e) && stop_error(listed@, all@, k, e),
                Scan::Fine(first) => r matches Ok((_, v)) && (match v {
                    Some(w) => Some(w@),
                    None => None,
                }) == files_version(Scan::Fine(first)),
            },
        },
{
    let ghost lv = listed@;
    let ghost n = listed@.len() as int;
    let mut relevant: Vec<(Config, usize)> = Vec::new();
    let mut i: usize = 0;
    while i < listed.len()
        invariant
            i <= listed.len(),
            lv == listed@,
            n == lv.len(),
            relevant_ok(relevant@, lv, all@, i as int),
            first_missing(lv, all@, i as int) is None,
            forall|k: int| 0 <= k < i ==> found_in(all@, (#[trigger] listed@[k]).path@),
        decreases listed.len() - i,
    {
        let mut found: Option<usize> = None;
        let mut j: usize = 0;
        while j < all.len()
            invariant
                j <= all.len(),
                i < listed.len(),
                found matches Some(x) ==> file_index(all@, listed@[i as int].path@, j as int) == Some(x as int),
                found is None ==> file_index(all@, listed@[i as int].path@, j as int) is None,
            decreases all.len() - j,
        {
            if found.is_none() && path_eq(all[j].path().as_str(), listed[i].path.as_str()) {
                found = Some(j);
            }
            j = j + 1;
        }
        proof {
            lemma_file_index_bound(all@, listed@[i as int].path@, all@.len() as int);
        }
        match found {
            Some(j) => {
                let c = Config {
                    path: listed[i].path.clone(),
                    format: listed[i].format,
                    dependency: listed[i].dependency.clone(),
                    regex: listed[i].regex.clone(),
                };
                let ghost before = relevant@;
                relevant.push((c, j));
                proof {
                    assert(relevant@[i as int] == (c, j));
                    assert(forall|x: int| 0 <= x < i ==> relevant@[x] == before[x]);
                    assert(rel_eq(all@[j as int].path_view(), listed@[i as int].path@));
                }
            },
            None => {
                proof {
                    lemma_first_missing_more(lv, all@, i + 1, n);
                }
                return Err(NewError::NotFound(listed[i].as_path()));
            },
        }
        i = i + 1;
    }
    let mut first: Option<(usize, Version)> = None;
    let mut validated: Vec<Config> = Vec::new();
    let mut k: usize = 0;
    while k < relevant.len()
        invariant
            k <= relevant.len(),
            validated@.len() == k,
            lv == listed@,
            n == lv.len(),
            relevant_ok(relevant@, lv, all@, n),
            first_missing(lv, all@, n) is None,
            forall|x: int| 0 <= x < listed@.len() ==> found_in(all@, (#[trigger] listed@[x]).path@),
            forall|x: int|
                0 <= x < k ==> (#[trigger] validated@[x]).path == listed@[x].path && validated@[x].format
                    == listed@[x].format,
            configs_of(all@),
            scan(lv, all@, k as int) == Scan::Fine(
                match first {
                    Some((fi, fv)) => Some((fi as int, fv@)),
                    None => None,
                },
            ),
            first matches Some((x, _)) ==> x < all@.len(),
        decreases relevant.len() - k,
    {
        assert(relevant_ok(relevant@, lv, all@, n));
        assert(relevant@[k as int].1 < all@.len());
        let listed_config = Config {
            path: relevant[k].0.path.clone(),
            format: relevant[k].0.format,
            dependency: relevant[k].0.dependency.clone(),
            regex: relevant[k].0.regex.clone(),
        };
        let ghost cn = cargo_name_of(lv, all@, n);
        assert(dep_check(listed_config, cn) == dep_check(lv[k as int], cn));
        let config = match validate_dependency(listed_config, &relevant, all, Ghost(lv)) {
            Ok(c) => c,
            Err(e) => {
                proof {
                    lemma_scan_stop_more(lv, all@, k + 1, n);
                }
                return Err(e);
            },
        };
        let is_dep = config.dependency.is_some();
        validated.push(config);
        if !is_dep {
            let file = &all[relevant[k].1];
            let version = match file.version() {
                Ok(v) => v,
                Err(e) => {
                    proof {
                        lemma_scan_stop_more(lv, all@, k + 1, n);
                    }
                    return Err(NewError::VersionedFile(e));
                },
            };
            match &first {
                Some((fi, fv)) => {
                    if !fv.equals(&version) {
                        let first_path = all[*fi].path().clone();
                        let second_path = file.path().clone();
                        proof {
                            lemma_scan_stop_more(lv, all@, k + 1, n);
                        }
                        return Err(
                            NewError::InconsistentVersions {
                                first_path,
                                first_version: fv.duplicate(),
                                second_path,
                                second_version: version,
                            },
                        );
                    }
                },
                None => {
                    first = Some((relevant[k].1, version));
                },
            }
        }
        k = k + 1;
    }
    let version = match first {
        Some((_, v)) => Some(v),
        None => None,
    };
    Ok((validated, version))
}

/// Checks that a file's type supports its dependency; a Cargo.lock without one
/// gets the name of the package of a Cargo.toml among the files.
#[verifier::loop_isolation(false)]
fn validate_dependency(
    config: Config,
    relevant: &Vec<(Config, usize)>,
    all: &[VersionedFile],
    Ghost(listed): Ghost<Seq<Config>>,
) -> (r: Result<Config, NewError>)
    requires
        relevant_ok(relevant@, listed, all@, listed.len() as int),
    ensures
        match dep_check(config, cargo_name_of(listed, all@, listed.len() as int)) {
            DepCheck::Keep(d) => r matches Ok(c) && c.path == config.path && c.format == config.format && opt_text(
                c.dependency,
            ) == d,
            DepCheck::Unsupported => r matches Err(NewError::UnsupportedDependency(_)),
            DepCheck::NoCargoName => r matches Err(NewError::CargoLockNoDependency),
        },
{
    let has_dep = config.dependency.is_some();
    match config.format {
        FileFormat::Cargo | FileFormat::PackageJson | FileFormat::PackageLockJson => Ok(config),
        FileFormat::CargoLock => {
            if has_dep {
                return Ok(config);
            }
            let ghost orig = config;
            let ghost n = listed.len() as int;
            let mut k: usize = 0;
            while k < relevant.len()
                invariant
                    k <= relevant.len(),
                    config == orig,
                    orig.format == FileFormat::CargoLock,
                    orig.dependency is None,
                    relevant_ok(relevant@, listed, all@, n),
                    cargo_name_of(listed, all@, k as int) is None,
                decreases relevant.len() - k,
            {
                assert(relevant@[k as int].1 < all@.len());
                if relevant[k].0.dependency.is_none() {
                    match &all[relevant[k].1] {
                        VersionedFile::Cargo(file) => match name_from_document(&file.document) {
                            Some(name) => {
                                proof {
                                    assert(cargo_name_of(listed, all@, k + 1) == Some(name@));
                                    lemma_cargo_name_more(listed, all@, k + 1, n);
                                }
                                let mut c = config;
                                c.dependency = Some(name);
                                return Ok(c);
                            },
                            None => {},
                        },
                        _ => {},
                    }
                }
                k = k + 1;
            }
            Err(NewError::CargoLockNoDependency)
        },
        _ => {
            if has_dep {
                let name = match path_file_name(config.path.as_str()) {
                    Some(n) => n,
                    None => string_of(&Vec::new()),
                };
                Err(NewError::UnsupportedDependency(name))
            } else {
                Ok(config)
            }
        },
    }
}

} // verus!
