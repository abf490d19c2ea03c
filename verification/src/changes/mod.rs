//! Changes to a package: where they came from (a conventional commit or a change
//! file), what kind of change they are, and their summary and details.
use vstd::prelude::*;

use crate::release_notes::config::{CommitFooter, CustomChangeType, SectionSource};
use crate::text::{
    chars_of, is_whitespace, join_with, lines_in, lines_of, push_all, push_joined, push_str,
    string_of, trim, trim_range, views_of,
};

pub mod conventional_commit;

use crate::text::text_eq;

verus! {

/// The directory holding change files.
pub const CHANGESET_DIR: &'static str = ".changeset";

/// Git commit information including hash and author.
#[derive(Clone, Debug, PartialEq, Eq)]
pub struct GitInfo {
    pub hash: String,
    pub author_name: String,
}

pub struct GitInfoView {
    pub hash: Seq<char>,
    pub author_name: Seq<char>,
}

impl View for GitInfo {
    type V = GitInfoView;

    open spec fn view(&self) -> GitInfoView {
        GitInfoView { hash: self.hash@, author_name: self.author_name@ }
    }
}

impl GitInfo {
    pub fn duplicate(&self) -> (r: GitInfo)
        ensures
            r@ == self@,
    {
        GitInfo { hash: self.hash.clone(), author_name: self.author_name.clone() }
    }
}

pub open spec fn git_view(g: Option<GitInfo>) -> Option<GitInfoView> {
    match g {
        Some(g) => Some(g@),
        None => None,
    }
}

pub fn duplicate_git(g: &Option<GitInfo>) -> (r: Option<GitInfo>)
    ensures
        git_view(r) == git_view(*g),
{
    match g {
        Some(g) => Some(g.duplicate()),
        None => None,
    }
}

pub open spec fn opt_text(o: Option<String>) -> Option<Seq<char>> {
    match o {
        Some(s) => Some(s@),
        None => None,
    }
}

/// The kind of a change.
#[derive(Clone, Debug, Hash, PartialEq, Eq)]
pub enum ChangeType {
    Breaking,
    Feature,
    Fix,
    Custom(SectionSource),
}

/// The mathematical value of a [`ChangeType`]; `Footer` and `Custom` are the two
/// kinds of custom source.
pub enum ChangeTypeView {
    Breaking,
    Feature,
    Fix,
    Footer(Seq<char>),
    Custom(Seq<char>),
}

impl View for ChangeType {
    type V = ChangeTypeView;

    open spec fn view(&self) -> ChangeTypeView {
        match self {
            ChangeType::Breaking => ChangeTypeView::Breaking,
            ChangeType::Feature => ChangeTypeView::Feature,
            ChangeType::Fix => ChangeTypeView::Fix,
            ChangeType::Custom(SectionSource::CommitFooter(f)) => ChangeTypeView::Footer(f.0@),
            ChangeType::Custom(SectionSource::CustomChangeType(c)) => ChangeTypeView::Custom(c.0@),
        }
    }
}

/// The change types of the change-file format: `major`, `minor`, `patch` or a custom name.
#[derive(Clone, Debug, PartialEq, Eq)]
pub enum ChangesetType {
    Patch,
    Minor,
    Major,
    Custom(String),
}

pub enum ChangesetTypeView {
    Patch,
    Minor,
    Major,
    Custom(Seq<char>),
}

impl View for ChangesetType {
    type V = ChangesetTypeView;

    open spec fn view(&self) -> ChangesetTypeView {
        match self {
            ChangesetType::Patch => ChangesetTypeView::Patch,
            ChangesetType::Minor => ChangesetTypeView::Minor,
            ChangesetType::Major => ChangesetTypeView::Major,
            ChangesetType::Custom(s) => ChangesetTypeView::Custom(s@),
        }
    }
}

/// The change-file type that a name stands for: `patch`, `minor`, `major`, or custom.
pub open spec fn changeset_type_of_name(s: Seq<char>) -> ChangesetTypeView {
    if s == "patch"@ {
        ChangesetTypeView::Patch
    } else if s == "minor"@ {
        ChangesetTypeView::Minor
    } else if s == "major"@ {
        ChangesetTypeView::Major
    } else {
        ChangesetTypeView::Custom(s)
    }
}

/// The kind of change that a change-file type stands for.
pub open spec fn change_type_of_changeset(t: ChangesetTypeView) -> ChangeTypeView {
    match t {
        ChangesetTypeView::Major => ChangeTypeView::Breaking,
        ChangesetTypeView::Minor => ChangeTypeView::Feature,
        ChangesetTypeView::Patch => ChangeTypeView::Fix,
        ChangesetTypeView::Custom(s) => ChangeTypeView::Custom(s),
    }
}

impl ChangesetType {
    /// The change-file type named `s`.
    pub fn from_name(s: &str) -> (r: ChangesetType)
        ensures
            r@ == changeset_type_of_name(s@),
    {
        if text_eq(s, "patch") {
            ChangesetType::Patch
        } else if text_eq(s, "minor") {
            ChangesetType::Minor
        } else if text_eq(s, "major") {
            ChangesetType::Major
        } else {
            ChangesetType::Custom(s.to_string())
        }
    }
}

impl ChangeType {
    /// A copy of this change type.
    pub fn duplicate(&self) -> (r: ChangeType)
        ensures
            r@ == self@,
    {
        match self {
            ChangeType::Breaking => ChangeType::Breaking,
            ChangeType::Feature => ChangeType::Feature,
            ChangeType::Fix => ChangeType::Fix,
            ChangeType::Custom(SectionSource::CommitFooter(f)) => ChangeType::Custom(
                SectionSource::CommitFooter(CommitFooter(f.0.clone())),
            ),
            ChangeType::Custom(SectionSource::CustomChangeType(c)) => ChangeType::Custom(
                SectionSource::CustomChangeType(CustomChangeType(c.0.clone())),
            ),
        }
    }

    /// Whether two change types are the same.
    pub fn same_as(&self, other: &ChangeType) -> (r: bool)
        ensures
            r == (self@ == other@),
    {
        match (self, other) {
            (ChangeType::Breaking, ChangeType::Breaking) => true,
            (ChangeType::Feature, ChangeType::Feature) => true,
            (ChangeType::Fix, ChangeType::Fix) => true,
            (
                ChangeType::Custom(SectionSource::CommitFooter(a)),
                ChangeType::Custom(SectionSource::CommitFooter(b)),
            ) => text_eq(a.0.as_str(), b.0.as_str()),
            (
                ChangeType::Custom(SectionSource::CustomChangeType(a)),
                ChangeType::Custom(SectionSource::CustomChangeType(b)),
            ) => text_eq(a.0.as_str(), b.0.as_str()),
            _ => false,
        }
    }

    /// Whether `types` holds `self`.
    pub fn is_in(&self, types: &Vec<ChangeType>) -> (r: bool)
        ensures
            r == exists|i: int| 0 <= i < types.len() && (#[trigger] types@[i])@ == self@,
    {
        let mut i: usize = 0;
        while i < types.len()
            invariant
                i <= types.len(),
                forall|j: int| 0 <= j < i ==> (#[trigger] types@[j])@ != self@,
            decreases types.len() - i,
        {
            if types[i].same_as(self) {
                return true;
            }
            i = i + 1;
        }
        false
    }

    /// The kind of change that a change-file type stands for.
    pub fn from_changeset_type(t: &ChangesetType) -> (r: ChangeType)
        ensures
            r@ == change_type_of_changeset(t@),
    {
        match t {
            ChangesetType::Major => ChangeType::Breaking,
            ChangesetType::Minor => ChangeType::Feature,
            ChangesetType::Patch => ChangeType::Fix,
            ChangesetType::Custom(s) => ChangeType::Custom(
                SectionSource::CustomChangeType(CustomChangeType(s.clone())),
            ),
        }
    }

    /// A custom change type is read as a change-file type name, so `major`, `minor`
    /// and `patch` stand for the built-in kinds.
    pub fn from_custom(custom: CustomChangeType) -> (r: ChangeType)
        ensures
            r@ == change_type_of_changeset(changeset_type_of_name(custom.0@)),
    {
        let t = ChangesetType::from_name(custom.0.as_str());
        ChangeType::from_changeset_type(&t)
    }

    /// A footer's change type.
    pub fn from_footer(footer: CommitFooter) -> (r: ChangeType)
        ensures
            r == ChangeType::Custom(SectionSource::CommitFooter(footer)),
            r@ == ChangeTypeView::Footer(footer.0@),
    {
        ChangeType::Custom(SectionSource::CommitFooter(footer))
    }

    /// The change-file type of this change, if it has one (footers have none).
    pub fn to_changeset_type(&self) -> (r: Option<ChangesetType>)
        ensures
            match (self@, r) {
                (ChangeTypeView::Breaking, Some(t)) => t@ == ChangesetTypeView::Major,
                (ChangeTypeView::Feature, Some(t)) => t@ == ChangesetTypeView::Minor,
                (ChangeTypeView::Fix, Some(t)) => t@ == ChangesetTypeView::Patch,
                (ChangeTypeView::Custom(c), Some(t)) => t@ == ChangesetTypeView::Custom(c),
                (ChangeTypeView::Footer(_), None) => true,
                _ => false,
            },
    {
        match self {
            ChangeType::Breaking => Some(ChangesetType::Major),
            ChangeType::Feature => Some(ChangesetType::Minor),
            ChangeType::Fix => Some(ChangesetType::Patch),
            ChangeType::Custom(SectionSource::CustomChangeType(custom)) => Some(
                ChangesetType::Custom(custom.0.clone()),
            ),
            ChangeType::Custom(SectionSource::CommitFooter(_)) => None,
        }
    }
}

impl From<CustomChangeType> for ChangeType {
    fn from(custom: CustomChangeType) -> Self {
        ChangeType::from_custom(custom)
    }
}

/// `ChangeType::from_custom` states what this conversion gives.
impl vstd::std_specs::convert::FromSpecImpl<CustomChangeType> for ChangeType {
    open spec fn obeys_from_spec() -> bool {
        false
    }

    open spec fn from_spec(v: CustomChangeType) -> ChangeType {
        arbitrary()
    }
}

impl From<CommitFooter> for ChangeType {
    fn from(footer: CommitFooter) -> Self {
        ChangeType::from_footer(footer)
    }
}

impl vstd::std_specs::convert::FromSpecImpl<CommitFooter> for ChangeType {
    open spec fn obeys_from_spec() -> bool {
        true
    }

    open spec fn from_spec(v: CommitFooter) -> ChangeType {
        ChangeType::Custom(SectionSource::CommitFooter(v))
    }
}

/// Where a change came from.
#[derive(Clone, Debug, PartialEq, Eq)]
pub enum ChangeSource {
    ConventionalCommit { description: String },
    ChangeFile { id: String },
}

pub enum SourceView {
    Commit(Seq<char>),
    File(Seq<char>),
}

impl View for ChangeSource {
    type V = SourceView;

    open spec fn view(&self) -> SourceView {
        match self {
            ChangeSource::ConventionalCommit { description } => SourceView::Commit(description@),
            ChangeSource::ChangeFile { id } => SourceView::File(id@),
        }
    }
}

impl ChangeSource {
    pub fn duplicate(&self) -> (r: ChangeSource)
        ensures
            r@ == self@,
    {
        match self {
            ChangeSource::ConventionalCommit { description } => ChangeSource::ConventionalCommit {
                description: description.clone(),
            },
            ChangeSource::ChangeFile { id } => ChangeSource::ChangeFile { id: id.clone() },
        }
    }

    /// How the source is described in logs: `commit {message}` or `changeset {file}`.
    pub fn to_string(&self) -> (s: String)
        ensures
            s@ == source_text(self@),
    {
        let mut out: Vec<char> = Vec::new();
        match self {
            ChangeSource::ConventionalCommit { description } => {
                push_str(&mut out, "commit ");
                push_str(&mut out, description.as_str());
            },
            ChangeSource::ChangeFile { id } => {
                push_str(&mut out, "changeset ");
                push_str(&mut out, id.as_str());
                push_str(&mut out, ".md");
            },
        }
        string_of(&out)
    }
}

/// The file name of a change file: its id and `.md`.
pub open spec fn change_file_name(id: Seq<char>) -> Seq<char> {
    id + ".md"@
}

pub open spec fn source_text(s: SourceView) -> Seq<char> {
    match s {
        SourceView::Commit(d) => "commit "@ + d,
        SourceView::File(id) => "changeset "@ + change_file_name(id),
    }
}

/// The change that a change file makes for a package, with the commit that added it.
pub open spec fn changeset_change(c: PackageChange, git: Option<GitInfo>) -> ChangeView {
    ChangeView {
        change_type: change_type_of_changeset(c.change_type@),
        summary: change_file_summary(c.summary@),
        details: if change_file_details(c.summary@).len() == 0 {
            None
        } else {
            Some(change_file_details(c.summary@))
        },
        source: SourceView::File(c.unique_id@),
        git: git_view(git),
    }
}

/// A change to one or more packages.
#[derive(Clone, Debug, PartialEq, Eq)]
pub struct Change {
    pub change_type: ChangeType,
    pub summary: String,
    pub details: Option<String>,
    pub original_source: ChangeSource,
    pub git: Option<GitInfo>,
}

pub struct ChangeView {
    pub change_type: ChangeTypeView,
    pub summary: Seq<char>,
    pub details: Option<Seq<char>>,
    pub source: SourceView,
    pub git: Option<GitInfoView>,
}

impl View for Change {
    type V = ChangeView;

    open spec fn view(&self) -> ChangeView {
        ChangeView {
            change_type: self.change_type@,
            summary: self.summary@,
            details: opt_text(self.details),
            source: self.original_source@,
            git: git_view(self.git),
        }
    }
}

pub open spec fn changes_view(v: Seq<Change>) -> Seq<ChangeView> {
    v.map_values(|c: Change| c@)
}

/// The part of a change file's text that applies to one package.
#[derive(Clone, Debug, PartialEq, Eq)]
pub struct PackageChange {
    pub unique_id: String,
    pub change_type: ChangesetType,
    pub summary: String,
}

/// The lines from `k` on, past any empty ones: the index of the first non-empty line.
pub open spec fn skip_empty_lines(ls: Seq<Seq<char>>, k: int) -> int
    decreases ls.len() - k,
{
    if 0 <= k < ls.len() && ls[k].len() == 0 {
        skip_empty_lines(ls, k + 1)
    } else {
        k
    }
}

/// A line without its leading `#`s and spaces.
pub open spec fn strip_heading(l: Seq<char>) -> Seq<char>
    decreases l.len(),
{
    if l.len() > 0 && (l[0] == '#' || l[0] == ' ') {
        strip_heading(l.drop_first())
    } else {
        l
    }
}

/// The summary of a change file: its first non-empty line, without heading marks.
pub open spec fn change_file_summary(text: Seq<char>) -> Seq<char> {
    let ls = lines_of(trim(text));
    let k = skip_empty_lines(ls, 0);
    if k < ls.len() {
        strip_heading(ls[k])
    } else {
        seq![]
    }
}

/// The details of a change file: the lines after the summary, past empty ones,
/// joined by newlines.
pub open spec fn change_file_details(text: Seq<char>) -> Seq<char> {
    let ls = lines_of(trim(text));
    let k = skip_empty_lines(ls, 0);
    let k2 = if k < ls.len() {
        skip_empty_lines(ls, k + 1)
    } else {
        ls.len() as int
    };
    join_with(ls.skip(k2), "\n"@)
}

proof fn lemma_skip_empty_lines(ls: Seq<Seq<char>>, k: int)
    requires
        0 <= k <= ls.len(),
    ensures
        k <= skip_empty_lines(ls, k) <= ls.len(),
    decreases ls.len() - k,
{
    if k < ls.len() && ls[k].len() == 0 {
        lemma_skip_empty_lines(ls, k + 1);
    }
}

fn skip_empty(ls: &Vec<Vec<char>>, k: usize) -> (r: usize)
    requires
        k <= ls.len(),
    ensures
        r as int == skip_empty_lines(views_of(ls@), k as int),
        k <= r <= ls.len(),
{
    let mut i = k;
    while i < ls.len() && ls[i].len() == 0
        invariant
            k <= i <= ls.len(),
            skip_empty_lines(views_of(ls@), k as int) == skip_empty_lines(views_of(ls@), i as int),
        decreases ls.len() - i,
    {
        i = i + 1;
    }
    i
}

impl Change {
    /// A change made from a change file's text for one package, with the commit
    /// that added the file (if any).
    pub fn from_package_change_and_commit(package_change: &PackageChange, git: Option<GitInfo>) -> (r: Change)
        ensures
            r@ == (ChangeView {
                change_type: change_type_of_changeset(package_change.change_type@),
                summary: change_file_summary(package_change.summary@),
                details: if change_file_details(package_change.summary@).len() == 0 {
                    None
                } else {
                    Some(change_file_details(package_change.summary@))
                },
                source: SourceView::File(package_change.unique_id@),
                git: git_view(git),
            }),
    {
        let text = chars_of(package_change.summary.as_str());
        let (a, b) = trim_range(&text, 0, text.len());
        assert(text@.subrange(0, text@.len() as int) =~= text@);
        let ls = lines_in(&text, a, b);
        let ghost lv = views_of(ls@);
        let k = skip_empty(&ls, 0);
        let mut summary: Vec<char> = Vec::new();
        let mut k2 = ls.len();
        if k < ls.len() {
            let line = &ls[k];
            let mut j: usize = 0;
            assert(line@.skip(0) =~= line@);
            while j < line.len() && (line[j] == '#' || line[j] == ' ')
                invariant
                    j <= line.len(),
                    strip_heading(line@) == strip_heading(line@.skip(j as int)),
                decreases line.len() - j,
            {
                assert(line@.skip(j as int).drop_first() =~= line@.skip(j + 1));
                j = j + 1;
            }
            let mut t = j;
            while t < line.len()
                invariant
                    j <= t <= line.len(),
                    summary@ == line@.subrange(j as int, t as int),
                decreases line.len() - t,
            {
                summary.push(line[t]);
                t = t + 1;
                assert(summary@ =~= line@.subrange(j as int, t as int));
            }
            assert(line@.skip(j as int) =~= line@.subrange(j as int, line@.len() as int));
            assert(lv[k as int] == line@);
            k2 = skip_empty(&ls, k + 1);
        }
        let mut details: Vec<char> = Vec::new();
        let nl = chars_of("\n");
        push_joined(&mut details, &ls, k2, &nl);
        assert(details@ =~= change_file_details(package_change.summary@));
        assert(summary@ =~= change_file_summary(package_change.summary@));
        let details = if details.len() == 0 {
            None
        } else {
            Some(string_of(&details))
        };
        Change {
            change_type: ChangeType::from_changeset_type(&package_change.change_type),
            summary: string_of(&summary),
            details,
            original_source: ChangeSource::ChangeFile { id: package_change.unique_id.clone() },
            git,
        }
    }

    /// Changes made from change files, each with the commit that added it (if any), in order.
    pub fn from_changeset(changes: &Vec<(PackageChange, Option<GitInfo>)>) -> (r: Vec<Change>)
        ensures
            r.len() == changes.len(),
            forall|i: int|
                0 <= i < changes.len() ==> (#[trigger] r@[i])@ == changeset_change(changes@[i].0, changes@[i].1),
    {
        let mut r: Vec<Change> = Vec::new();
        let mut i: usize = 0;
        while i < changes.len()
            invariant
                i <= changes.len(),
                r.len() == i,
                forall|j: int|
                    0 <= j < i ==> (#[trigger] r@[j])@ == changeset_change(changes@[j].0, changes@[j].1),
            decreases changes.len() - i,
        {
            let git = duplicate_git(&changes[i].1);
            r.push(Change::from_package_change_and_commit(&changes[i].0, git));
            i = i + 1;
        }
        r
    }

    /// A copy of this change.
    pub fn duplicate(&self) -> (r: Change)
        ensures
            r@ == self@,
    {
        Change {
            change_type: self.change_type.duplicate(),
            summary: self.summary.clone(),
            details: match &self.details {
                Some(d) => Some(d.clone()),
                None => None,
            },
            original_source: self.original_source.duplicate(),
            git: duplicate_git(&self.git),
        }
    }
}

} // verus!
