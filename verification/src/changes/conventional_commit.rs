//! Changes read from [conventional commit](https://www.conventionalcommits.org/) messages.
//!
//! The commit grammar is `git_conventional`'s: this module hands it the message
//! and decides, from the parts it returns, which changes the commit makes.
use vstd::prelude::*;

use super::{changes_view, Change, ChangeSource, ChangeType, ChangeTypeView, ChangeView, GitInfo, GitInfoView, SourceView, duplicate_git, git_view};
use crate::release_notes::config::{contains_footer_spec, CommitFooter, Sections, SectionSource};
use crate::text::{chars_of, push_str, slice_chars, string_of, trim, trim_range};

verus! {

/// A commit message, with the commit's hash and author if known.
#[derive(Clone, Debug)]
pub struct Commit {
    pub message: String,
    pub info: Option<GitInfo>,
}

impl Default for Commit {
    fn default() -> (r: Self)
        ensures
            r.message@ == Seq::<char>::empty(),
            r.info is None,
    {
        Commit { message: String::new(), info: None }
    }
}

/// A footer of a conventional commit, as `git_conventional` reads it.
#[derive(Clone, Debug)]
pub struct ConventionalFooter {
    pub token: String,
    pub separator: String,
    pub value: String,
    pub breaking: bool,
}

pub struct FooterView {
    pub token: Seq<char>,
    pub separator: Seq<char>,
    pub value: Seq<char>,
    pub breaking: bool,
}

impl View for ConventionalFooter {
    type V = FooterView;

    open spec fn view(&self) -> FooterView {
        FooterView {
            token: self.token@,
            separator: self.separator@,
            value: self.value@,
            breaking: self.breaking,
        }
    }
}

/// The parts of a conventional commit, as `git_conventional` reads them.
#[derive(Clone, Debug)]
pub struct ConventionalParts {
    pub kind: String,
    pub scope: Option<String>,
    pub description: String,
    pub breaking: bool,
    pub footers: Vec<ConventionalFooter>,
}

pub struct CommitPartsView {
    pub kind: Seq<char>,
    pub scope: Option<Seq<char>>,
    pub description: Seq<char>,
    pub breaking: bool,
    pub footers: Seq<FooterView>,
}

impl View for ConventionalParts {
    type V = CommitPartsView;

    open spec fn view(&self) -> CommitPartsView {
        CommitPartsView {
            kind: self.kind@,
            scope: super::opt_text(self.scope),
            description: self.description@,
            breaking: self.breaking,
            footers: self.footers@.map_values(|f: ConventionalFooter| f@),
        }
    }
}

/// The name of what `git_conventional::Commit::parse` reads from a message: `None`
/// if the message is not a conventional commit.
pub uninterp spec fn conventional_commit_parse(message: Seq<char>) -> Option<CommitPartsView>;

/// The name of what comparing two commit types gives in `git_conventional`.
pub uninterp spec fn commit_type_eq(a: Seq<char>, b: Seq<char>) -> bool;

/// The name of what `FooterToken`'s comparison with a `&str` gives.
pub uninterp spec fn footer_token_eq(token: Seq<char>, other: Seq<char>) -> bool;

/// Calls `git_conventional::Commit::parse` and copies out the type, scope,
/// description, breaking flag and footers (token, separator, value, and the
/// footer's breaking flag) as text. What it reads is named
/// `conventional_commit_parse`; nothing more is claimed of it.
#[verifier::external_body]
fn parse_conventional_commit(message: &str) -> (r: Option<ConventionalParts>)
    ensures
        match r {
            Some(c) => conventional_commit_parse(message@) == Some(c@),
            None => conventional_commit_parse(message@) is None,
        },
{
    let c = git_conventional::Commit::parse(message).ok()?;
    let footers = c.footers().iter().map(|f| ConventionalFooter {
        token: f.token().to_string(),
        separator: f.separator().to_string(),
        value: f.value().to_string(),
        breaking: f.breaking(),
    }).collect();
    Some(ConventionalParts {
        kind: c.type_().to_string(),
        scope: c.scope().map(|s| s.to_string()),
        description: c.description().to_string(),
        breaking: c.breaking(),
        footers,
    })
}

/// Two texts that are equal once ASCII letters are lower-cased.
pub open spec fn ascii_case_eq(a: Seq<char>, b: Seq<char>) -> bool {
    a.len() == b.len() && forall|i: int| 0 <= i < a.len() ==> ascii_lower(#[trigger] a[i]) == ascii_lower(b[i])
}

/// `git_conventional`'s comparison of two commit types (case-insensitive, by
/// Unicode case folding through `UniCase::unicode`). The result is named
/// `commit_type_eq`. Claimed too: texts that differ only in the case of ASCII
/// letters compare equal, as case folding maps each such letter to the same one.
#[verifier::external_body]
fn commit_type_is(ty: &str, name: &str) -> (r: bool)
    ensures
        r == commit_type_eq(ty@, name@),
        ascii_case_eq(ty@, name@) ==> r,
{
    git_conventional::Type::new_unchecked(ty) == git_conventional::Type::new_unchecked(name)
}

/// `git_conventional`'s comparison of a footer token with a string (case-insensitive,
/// by Unicode case folding through `UniCase::unicode`). The result is named
/// `footer_token_eq`. Claimed too: texts that differ only in the case of ASCII
/// letters compare equal.
#[verifier::external_body]
pub fn footer_token_is(token: &str, other: &str) -> (r: bool)
    ensures
        r == footer_token_eq(token@, other@),
        ascii_case_eq(token@, other@) ==> r,
{
    git_conventional::FooterToken::new_unchecked(token) == other
}

// ---------------------------------------------------------------------------
// The model
// ---------------------------------------------------------------------------

pub open spec fn ascii_lower(c: char) -> char {
    if 'A' <= c && c <= 'Z' {
        ((c as int) + 32) as char
    } else {
        c
    }
}

/// `str::eq_ignore_ascii_case`.
pub open spec fn eq_ignore_ascii_case(a: Seq<char>, b: Seq<char>) -> bool {
    a.len() == b.len() && forall|i: int| 0 <= i < a.len() ==> ascii_lower(#[trigger] a[i]) == ascii_lower(b[i])
}

pub open spec fn has_breaking_footer(fs: Seq<FooterView>) -> bool {
    exists|i: int| 0 <= i < fs.len() && (#[trigger] fs[i]).breaking
}

/// `{type}({scope})!: {description}`: the scope only if there is one, and the `!`
/// only for a breaking commit without a breaking footer.
pub open spec fn commit_summary_text(c: CommitPartsView) -> Seq<char> {
    let scope = match c.scope {
        Some(s) => seq!['('] + s + seq![')'],
        None => seq![],
    };
    let bang = if c.breaking && !has_breaking_footer(c.footers) {
        seq!['!']
    } else {
        seq![]
    };
    c.kind + scope + bang + seq![':', ' '] + c.description
}

/// How a footer's change describes its source.
pub open spec fn footer_source_text(summary: Seq<char>, f: FooterView) -> Seq<char> {
    summary + "\n\tContaining footer "@ + f.token + f.separator + seq![' '] + f.value
}

/// The changes that the footers make: each breaking footer, and each footer that
/// some section collects.
pub open spec fn footer_changes(
    fs: Seq<FooterView>,
    summary: Seq<char>,
    sections: Seq<(Seq<char>, Seq<ChangeTypeView>)>,
    git: Option<GitInfoView>,
) -> Seq<ChangeView>
    decreases fs.len(),
{
    if fs.len() == 0 {
        seq![]
    } else {
        let prev = footer_changes(fs.drop_last(), summary, sections, git);
        let f = fs.last();
        if f.breaking || contains_footer_spec(sections, f.token) {
            prev.push(
                ChangeView {
                    change_type: if f.breaking {
                        ChangeTypeView::Breaking
                    } else {
                        ChangeTypeView::Footer(f.token)
                    },
                    summary: f.value,
                    details: None,
                    source: SourceView::Commit(footer_source_text(summary, f)),
                    git,
                },
            )
        } else {
            prev
        }
    }
}

/// A commit with a scope counts only if no scopes are given or its scope is one of
/// them (ignoring ASCII case).
pub open spec fn scope_allowed(scope: Option<Seq<char>>, scopes: Option<Seq<Seq<char>>>) -> bool {
    match scope {
        None => true,
        Some(sc) => match scopes {
            None => true,
            Some(list) => scope_listed(list, sc),
        },
    }
}

/// `scope` is one of `list`, ignoring ASCII case.
pub open spec fn scope_listed(list: Seq<Seq<char>>, scope: Seq<char>) -> bool {
    exists|i: int| 0 <= i < list.len() && eq_ignore_ascii_case(#[trigger] list[i], scope)
}

/// `a` and `b` have the same length and, once ASCII capital letters are made
/// small, the same characters.
pub open spec fn equal_but_ascii_case(a: Seq<char>, b: Seq<char>) -> bool {
    &&& a.len() == b.len()
    &&& forall|k: int|
        0 <= k < a.len() ==> (if 'A' <= #[trigger] a[k] <= 'Z' {
            ((a[k] as int) + 32) as char
        } else {
            a[k]
        }) == (if 'A' <= b[k] <= 'Z' {
            ((b[k] as int) + 32) as char
        } else {
            b[k]
        })
}

/// A commit is kept when it has no scope or no scopes are configured; with
/// scopes configured, a commit with a scope is kept exactly when some
/// configured scope equals it but for ASCII case, whichever place that scope
/// has in the list.
pub proof fn lemma_scope_filter(scope: Option<Seq<char>>, scopes: Option<Seq<Seq<char>>>)
    ensures
        scope is None ==> scope_allowed(scope, scopes),
        scopes is None ==> scope_allowed(scope, scopes),
        scope is Some && scopes is Some ==> (scope_allowed(scope, scopes) <==> exists|i: int|
            0 <= i < scopes->0.len() && equal_but_ascii_case(#[trigger] scopes->0[i], scope->0)),
{
    if scope is Some && scopes is Some {
        let sc = scope->0;
        let list = scopes->0;
        {
            assert forall|i: int| 0 <= i < list.len() implies equal_but_ascii_case(#[trigger] list[i], sc)
                == eq_ignore_ascii_case(list[i], sc) by {
                if equal_but_ascii_case(list[i], sc) {
                    assert forall|k: int| 0 <= k < list[i].len() implies ascii_lower(#[trigger] list[i][k]) == ascii_lower(
                        sc[k],
                    ) by {
                        assert(equal_but_ascii_case(list[i], sc));
                    }
                }
                if eq_ignore_ascii_case(list[i], sc) {
                    assert forall|k: int| 0 <= k < list[i].len() implies (if 'A' <= #[trigger] list[i][k] <= 'Z' {
                        ((list[i][k] as int) + 32) as char
                    } else {
                        list[i][k]
                    }) == (if 'A' <= sc[k] <= 'Z' {
                        ((sc[k] as int) + 32) as char
                    } else {
                        sc[k]
                    }) by {
                        assert(ascii_lower(list[i][k]) == ascii_lower(sc[k]));
                    }
                }
            }
            if scope_allowed(scope, scopes) {
                assert(scope_listed(list, sc));
                let i = choose|i: int| 0 <= i < list.len() && eq_ignore_ascii_case(#[trigger] list[i], sc);
                assert(equal_but_ascii_case(list[i], sc));
            }
            if exists|i: int| 0 <= i < list.len() && equal_but_ascii_case(#[trigger] list[i], sc) {
                let i = choose|i: int| 0 <= i < list.len() && equal_but_ascii_case(#[trigger] list[i], sc);
                assert(eq_ignore_ascii_case(list[i], sc));
                assert(scope_listed(list, sc));
            }
        }
    }
}

/// Whether a footer makes a change: it is breaking, or some section collects it.
pub open spec fn footer_counts(f: FooterView, sections: Seq<(Seq<char>, Seq<ChangeTypeView>)>) -> bool {
    f.breaking || contains_footer_spec(sections, f.token)
}

/// The change that a footer makes: breaking, or of its own kind, with the
/// footer's value as its summary.
pub open spec fn footer_change(f: FooterView, summary: Seq<char>, git: Option<GitInfoView>) -> ChangeView {
    ChangeView {
        change_type: if f.breaking {
            ChangeTypeView::Breaking
        } else {
            ChangeTypeView::Footer(f.token)
        },
        summary: f.value,
        details: None,
        source: SourceView::Commit(footer_source_text(summary, f)),
        git,
    }
}

pub open spec fn counting(sections: Seq<(Seq<char>, Seq<ChangeTypeView>)>) -> spec_fn(FooterView) -> bool {
    |f: FooterView| footer_counts(f, sections)
}

pub open spec fn making(summary: Seq<char>, git: Option<GitInfoView>) -> spec_fn(FooterView) -> ChangeView {
    |f: FooterView| footer_change(f, summary, git)
}

/// The footers make one change each, in order, exactly those that are breaking
/// or that some section collects.
pub proof fn lemma_footer_changes(
    fs: Seq<FooterView>,
    summary: Seq<char>,
    sections: Seq<(Seq<char>, Seq<ChangeTypeView>)>,
    git: Option<GitInfoView>,
)
    ensures
        footer_changes(fs, summary, sections, git) == fs.filter(counting(sections)).map_values(making(summary, git)),
    decreases fs.len(),
{
    let pred = counting(sections);
    let mk = making(summary, git);
    reveal(Seq::filter);
    if fs.len() > 0 {
        lemma_footer_changes(fs.drop_last(), summary, sections, git);
        let sub = fs.drop_last().filter(pred);
        assert(fs.filter(pred) == if pred(fs.last()) {
            sub.push(fs.last())
        } else {
            sub
        });
        if pred(fs.last()) {
            assert(sub.push(fs.last()).map_values(mk) =~= sub.map_values(mk).push(mk(fs.last())));
            assert(footer_changes(fs, summary, sections, git) =~= sub.map_values(mk).push(mk(fs.last())));
        }
    } else {
        assert(fs.filter(pred) =~= Seq::<FooterView>::empty());
        assert(fs.filter(pred).map_values(mk) =~= Seq::<ChangeView>::empty());
    }
}

/// The kind of change that a commit's description makes, if any.
pub open spec fn description_change_type(c: CommitPartsView) -> Option<ChangeTypeView> {
    if c.breaking && !has_breaking_footer(c.footers) {
        Some(ChangeTypeView::Breaking)
    } else if commit_type_eq(c.kind, "feat"@) {
        Some(ChangeTypeView::Feature)
    } else if commit_type_eq(c.kind, "fix"@) {
        Some(ChangeTypeView::Fix)
    } else {
        None
    }
}

/// The changes that one commit message makes: none if it is not a conventional
/// commit or its scope is filtered out; else those of its footers, then that of
/// its description.
pub open spec fn commit_changes(
    message: Seq<char>,
    scopes: Option<Seq<Seq<char>>>,
    sections: Seq<(Seq<char>, Seq<ChangeTypeView>)>,
    git: Option<GitInfoView>,
) -> Seq<ChangeView> {
    match conventional_commit_parse(trim(message)) {
        None => seq![],
        Some(c) => if !scope_allowed(c.scope, scopes) {
            seq![]
        } else {
            let summary = commit_summary_text(c);
            let fcs = footer_changes(c.footers, summary, sections, git);
            match description_change_type(c) {
                None => fcs,
                Some(t) => fcs.push(
                    ChangeView {
                        change_type: t,
                        summary: c.description,
                        details: None,
                        source: SourceView::Commit(summary),
                        git,
                    },
                ),
            }
        },
    }
}

/// What one commit message gives: nothing where it is not a conventional commit
/// or its scope is not among the allowed ones; else one change per footer that
/// is breaking or that a section collects (its value as the summary), then one
/// for the description where that is breaking without a breaking footer, a
/// feature or a fix.
pub proof fn lemma_commit_changes(
    message: Seq<char>,
    scopes: Option<Seq<Seq<char>>>,
    sections: Seq<(Seq<char>, Seq<ChangeTypeView>)>,
    git: Option<GitInfoView>,
)
    ensures
        commit_changes(message, scopes, sections, git) == match conventional_commit_parse(trim(message)) {
            None => Seq::<ChangeView>::empty(),
            Some(c) => if !scope_allowed(c.scope, scopes) {
                Seq::<ChangeView>::empty()
            } else {
                let footers = c.footers.filter(counting(sections)).map_values(making(commit_summary_text(c), git));
                match description_change_type(c) {
                    None => footers,
                    Some(t) => footers.push(
                        ChangeView {
                            change_type: t,
                            summary: c.description,
                            details: None,
                            source: SourceView::Commit(commit_summary_text(c)),
                            git,
                        },
                    ),
                }
            },
        },
{
    match conventional_commit_parse(trim(message)) {
        None => {},
        Some(c) => {
            lemma_footer_changes(c.footers, commit_summary_text(c), sections, git);
        },
    }
}

/// The changes of all commits, in order.
pub open spec fn all_commit_changes(
    commits: Seq<Commit>,
    scopes: Option<Seq<Seq<char>>>,
    sections: Seq<(Seq<char>, Seq<ChangeTypeView>)>,
) -> Seq<ChangeView>
    decreases commits.len(),
{
    if commits.len() == 0 {
        seq![]
    } else {
        all_commit_changes(commits.drop_last(), scopes, sections) + commit_changes(
            commits.last().message@,
            scopes,
            sections,
            git_view(commits.last().info),
        )
    }
}

pub open spec fn scopes_view(scopes: Option<&Vec<String>>) -> Option<Seq<Seq<char>>> {
    match scopes {
        Some(v) => Some(v@.map_values(|s: String| s@)),
        None => None,
    }
}


// ---------------------------------------------------------------------------
// Implementation
// ---------------------------------------------------------------------------

fn to_ascii_lower(c: char) -> (r: char)
    ensures
        r == ascii_lower(c),
{
    if 'A' <= c && c <= 'Z' {
        let n: u8 = (c as u8) + 32;
        n as char
    } else {
        c
    }
}

/// `str::eq_ignore_ascii_case`.
pub fn str_eq_ignore_ascii_case(a: &str, b: &str) -> (r: bool)
    ensures
        r == eq_ignore_ascii_case(a@, b@),
{
    let x = chars_of(a);
    let y = chars_of(b);
    if x.len() != y.len() {
        return false;
    }
    let mut i: usize = 0;
    while i < x.len()
        invariant
            x@ == a@,
            y@ == b@,
            x.len() == y.len(),
            i <= x.len(),
            forall|j: int| 0 <= j < i ==> ascii_lower(#[trigger] x@[j]) == ascii_lower(y@[j]),
        decreases x.len() - i,
    {
        if to_ascii_lower(x[i]) != to_ascii_lower(y[i]) {
            return false;
        }
        i = i + 1;
    }
    true
}

fn any_footer_breaking(fs: &Vec<ConventionalFooter>) -> (r: bool)
    ensures
        r == has_breaking_footer(fs@.map_values(|f: ConventionalFooter| f@)),
{
    let ghost v = fs@.map_values(|f: ConventionalFooter| f@);
    let mut i: usize = 0;
    while i < fs.len()
        invariant
            i <= fs.len(),
            v == fs@.map_values(|f: ConventionalFooter| f@),
            forall|j: int| 0 <= j < i ==> !(#[trigger] v[j]).breaking,
        decreases fs.len() - i,
    {
        assert(v[i as int] == fs@[i as int]@);
        if fs[i].breaking {
            return true;
        }
        i = i + 1;
    }
    false
}

/// `{type}({scope})!: {description}`.
fn format_commit_summary(c: &ConventionalParts) -> (r: String)
    ensures
        r@ == commit_summary_text(c@),
{
    let mut out: Vec<char> = Vec::new();
    push_str(&mut out, c.kind.as_str());
    match &c.scope {
        Some(s) => {
            out.push('(');
            push_str(&mut out, s.as_str());
            out.push(')');
        },
        None => {},
    }
    if c.breaking && !any_footer_breaking(&c.footers) {
        out.push('!');
    }
    out.push(':');
    out.push(' ');
    push_str(&mut out, c.description.as_str());
    assert(out@ =~= commit_summary_text(c@));
    string_of(&out)
}

/// `{summary}\n\tContaining footer {token}{separator} {value}`.
fn format_commit_footer(summary: &str, f: &ConventionalFooter) -> (r: String)
    ensures
        r@ == footer_source_text(summary@, f@),
{
    let mut out: Vec<char> = Vec::new();
    push_str(&mut out, summary);
    push_str(&mut out, "\n\tContaining footer ");
    push_str(&mut out, f.token.as_str());
    push_str(&mut out, f.separator.as_str());
    out.push(' ');
    push_str(&mut out, f.value.as_str());
    assert(out@ =~= footer_source_text(summary@, f@));
    string_of(&out)
}

fn scope_is_allowed(scope: &Option<String>, scopes: Option<&Vec<String>>) -> (r: bool)
    ensures
        r == scope_allowed(super::opt_text(*scope), scopes_view(scopes)),
{
    match (scope, scopes) {
        (Some(sc), Some(list)) => {
            let ghost lv = list@.map_values(|s: String| s@);
            let mut i: usize = 0;
            while i < list.len()
                invariant
                    i <= list.len(),
                    lv == list@.map_values(|s: String| s@),
                    scopes_view(scopes) == Some(lv),
                    super::opt_text(*scope) == Some(sc@),
                    forall|j: int| 0 <= j < i ==> !eq_ignore_ascii_case(#[trigger] lv[j], sc@),
                decreases list.len() - i,
            {
                assert(lv[i as int] == list@[i as int]@);
                if str_eq_ignore_ascii_case(list[i].as_str(), sc.as_str()) {
                    assert(eq_ignore_ascii_case(lv[i as int], sc@));
                    assert(scope_listed(lv, sc@));
                    return true;
                }
                i = i + 1;
            }
            false
        },
        _ => true,
    }
}

/// The changes that one commit message makes.
fn changes_from_commit_message(
    commit_info: &Commit,
    scopes: Option<&Vec<String>>,
    changelog_sections: &Sections,
) -> (r: Vec<Change>)
    ensures
        changes_view(r@) == commit_changes(
            commit_info.message@,
            scopes_view(scopes),
            changelog_sections@,
            git_view(commit_info.info),
        ),
{
    let text = chars_of(commit_info.message.as_str());
    assert(text@.subrange(0, text@.len() as int) =~= text@);
    let (a, b) = trim_range(&text, 0, text.len());
    let trimmed = string_of(&slice_chars(&text, a, b));
    let commit = match parse_conventional_commit(trimmed.as_str()) {
        Some(c) => c,
        None => return Vec::new(),
    };
    let commit_summary = format_commit_summary(&commit);
    if !scope_is_allowed(&commit.scope, scopes) {
        return Vec::new();
    }
    let ghost sections = changelog_sections@;
    let ghost git = git_view(commit_info.info);
    let ghost fv = commit@.footers;
    let mut saw_breaking = false;
    let mut changes: Vec<Change> = Vec::new();
    let mut i: usize = 0;
    while i < commit.footers.len()
        invariant
            i <= commit.footers.len(),
            fv == commit@.footers,
            sections == changelog_sections@,
            git == git_view(commit_info.info),
            changes_view(changes@) == footer_changes(fv.take(i as int), commit_summary@, sections, git),
            saw_breaking == has_breaking_footer(fv.take(i as int)),
        decreases commit.footers.len() - i,
    {
        let footer = &commit.footers[i];
        let ghost t = fv.take(i + 1);
        assert(t.drop_last() =~= fv.take(i as int));
        assert(t.last() == footer@);
        let ghost before = changes@;
        if footer.breaking {
            saw_breaking = true;
        } else if !changelog_sections.contains_footer(footer.token.as_str()) {
            proof {
                assert(!has_breaking_footer(t) == !has_breaking_footer(fv.take(i as int))) by {
                    if has_breaking_footer(t) {
                        let j = choose|j: int| 0 <= j < t.len() && (#[trigger] t[j]).breaking;
                        assert(j < i);
                        assert(fv.take(i as int)[j] == t[j]);
                    }
                }
            }
            i = i + 1;
            continue;
        }
        let change_type = if footer.breaking {
            ChangeType::Breaking
        } else {
            ChangeType::Custom(SectionSource::CommitFooter(CommitFooter(footer.token.clone())))
        };
        changes.push(
            Change {
                change_type,
                summary: footer.value.clone(),
                details: None,
                original_source: ChangeSource::ConventionalCommit {
                    description: format_commit_footer(commit_summary.as_str(), footer),
                },
                git: duplicate_git(&commit_info.info),
            },
        );
        proof {
            assert(changes_view(changes@) =~= changes_view(before).push(changes@.last()@));
            if footer.breaking {
                assert(t[i as int].breaking);
            } else {
                assert(!has_breaking_footer(t) == !has_breaking_footer(fv.take(i as int))) by {
                    if has_breaking_footer(t) {
                        let j = choose|j: int| 0 <= j < t.len() && (#[trigger] t[j]).breaking;
                        assert(j < i);
                        assert(fv.take(i as int)[j] == t[j]);
                    }
                }
            }
            if has_breaking_footer(fv.take(i as int)) {
                let j = choose|j: int| 0 <= j < i && (#[trigger] fv.take(i as int)[j]).breaking;
                assert(t[j] == fv.take(i as int)[j]);
            }
        }
        i = i + 1;
    }
    assert(fv.take(i as int) =~= fv);
    let description_type = if commit.breaking && !saw_breaking {
        ChangeType::Breaking
    } else if commit_type_is(commit.kind.as_str(), "feat") {
        ChangeType::Feature
    } else if commit_type_is(commit.kind.as_str(), "fix") {
        ChangeType::Fix
    } else {
        return changes;
    };
    let ghost before = changes@;
    changes.push(
        Change {
            change_type: description_type,
            summary: commit.description.clone(),
            details: None,
            original_source: ChangeSource::ConventionalCommit { description: commit_summary },
            git: duplicate_git(&commit_info.info),
        },
    );
    assert(changes_view(changes@) =~= changes_view(before).push(changes@.last()@));
    changes
}

/// Try to parse each commit message as a [conventional commit](https://www.conventionalcommits.org/).
///
/// # Filtering
///
/// 1. If the commit message doesn't follow the conventional commit format, it is ignored.
/// 2. For non-standard change types, only those included will be considered.
/// 3. For non-standard footers, only those included will be considered.
pub fn changes_from_commit_messages(
    commit_messages: &[Commit],
    scopes: Option<&Vec<String>>,
    changelog_sections: &Sections,
) -> (r: Vec<Change>)
    ensures
        changes_view(r@) == all_commit_changes(commit_messages@, scopes_view(scopes), changelog_sections@),
{
    let mut out: Vec<Change> = Vec::new();
    let mut i: usize = 0;
    while i < commit_messages.len()
        invariant
            i <= commit_messages.len(),
            changes_view(out@) == all_commit_changes(
                commit_messages@.take(i as int),
                scopes_view(scopes),
                changelog_sections@,
            ),
        decreases commit_messages.len() - i,
    {
        let ghost before = out@;
        let mut more = changes_from_commit_message(&commit_messages[i], scopes, changelog_sections);
        let ghost added = more@;
        out.append(&mut more);
        proof {
            let t = commit_messages@.take(i + 1);
            assert(t.drop_last() =~= commit_messages@.take(i as int));
            assert(t.last() == commit_messages@[i as int]);
            assert(changes_view(out@) =~= changes_view(before) + changes_view(added));
        }
        i = i + 1;
    }
    assert(commit_messages@.take(i as int) =~= commit_messages@);
    out
}

} // verus!
