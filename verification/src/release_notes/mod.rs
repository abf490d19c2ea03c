//! Release notes: the text of a new release, built from the changes of each
//! section, and the changelog and release actions that publish it.
use vstd::prelude::*;

use crate::action::{actions_view, Action, ActionView};
use crate::changes::{changes_view, Change, ChangeType, ChangeTypeView, ChangeView};
use crate::package::Name;
use crate::semver::{version_text, Version};
use crate::text::{
    chars_of, contains_exec, contains_sub, push_all, push_str, replace_all, replace_exec, string_of,
};
use self::changelog::{new_changes_text, with_release_content, HeaderLevel};
use self::config::{types_view};
use self::release::ReleaseView;

pub mod changelog;
pub mod config;
pub mod release;

pub use self::changelog::{Changelog, ParseError};
pub use self::config::{CommitFooter, CustomChangeType, SectionName, SectionSource, Sections};
pub use self::release::Release;

verus! {

// ---------------------------------------------------------------------------
// Change templates
// ---------------------------------------------------------------------------

/// A template for the line of one change in release notes. `$summary`,
/// `$details`, `$commit_author_name` and `$commit_hash` stand for the parts of
/// the change.
#[derive(Clone, Debug, PartialEq, Eq)]
pub struct ChangeTemplate(pub String);

impl View for ChangeTemplate {
    type V = Seq<char>;

    open spec fn view(&self) -> Seq<char> {
        self.0@
    }
}

pub open spec fn templates_view(v: Seq<ChangeTemplate>) -> Seq<Seq<char>> {
    v.map_values(|t: ChangeTemplate| t@)
}

/// The template after the commit variables are filled in, if it needs them.
pub open spec fn fill_commit(t: Seq<char>, c: ChangeView) -> Option<Seq<char>> {
    if contains_sub(t, "$commit_author_name"@) || contains_sub(t, "$commit_hash"@) {
        match c.git {
            Some(g) => Some(
                replace_all(replace_all(t, "$commit_author_name"@, g.author_name), "$commit_hash"@, g.hash),
            ),
            None => None,
        }
    } else {
        Some(t)
    }
}

/// The template after `$details` is filled in, if it needs it.
pub open spec fn fill_details(t: Seq<char>, c: ChangeView) -> Option<Seq<char>> {
    if contains_sub(t, "$details"@) {
        match c.details {
            Some(d) => Some(replace_all(t, "$details"@, d)),
            None => None,
        }
    } else {
        Some(t)
    }
}

/// What a template writes for a change, or `None` if the change lacks a part
/// that the template uses.
pub open spec fn template_output(t: Seq<char>, c: ChangeView) -> Option<Seq<char>> {
    match fill_commit(t, c) {
        None => None,
        Some(t1) => match fill_details(t1, c) {
            None => None,
            Some(t2) => Some(replace_all(t2, "$summary"@, c.summary)),
        },
    }
}

impl ChangeTemplate {
    /// Writes the change with this template, if the change has every part that the
    /// template uses; returns whether it wrote.
    pub fn write(&self, change: &Change, out: &mut String) -> (r: bool)
        ensures
            r == (template_output(self@, change@) is Some),
            r ==> final(out)@ == old(out)@ + template_output(self@, change@)->0,
            !r ==> final(out)@ == old(out)@,
    {
        let author = chars_of("$commit_author_name");
        let hash = chars_of("$commit_hash");
        let details = chars_of("$details");
        let summary = chars_of("$summary");
        let mut result = chars_of(self.0.as_str());
        if contains_exec(&result, &author) || contains_exec(&result, &hash) {
            match &change.git {
                Some(git) => {
                    let a = replace_exec(&result, &author, &chars_of(git.author_name.as_str()));
                    result = replace_exec(&a, &hash, &chars_of(git.hash.as_str()));
                },
                None => return false,
            }
        }
        assert(fill_commit(self@, change@) == Some(result@));
        if contains_exec(&result, &details) {
            match &change.details {
                Some(d) => {
                    result = replace_exec(&result, &details, &chars_of(d.as_str()));
                },
                None => return false,
            }
        }
        let text = replace_exec(&result, &summary, &chars_of(change.summary.as_str()));
        let mut cs = chars_of(out.as_str());
        push_all(&mut cs, &text);
        *out = string_of(&cs);
        true
    }
}

impl From<String> for ChangeTemplate {
    fn from(template: String) -> (r: Self)
        ensures
            r@ == template@,
    {
        ChangeTemplate(template)
    }
}

impl vstd::std_specs::convert::FromSpecImpl<String> for ChangeTemplate {
    open spec fn obeys_from_spec() -> bool {
        true
    }

    open spec fn from_spec(v: String) -> ChangeTemplate {
        ChangeTemplate(v)
    }
}

impl From<&'static str> for ChangeTemplate {
    fn from(template: &'static str) -> (r: Self)
        ensures
            r@ == template@,
    {
        ChangeTemplate(string_of(&chars_of(template)))
    }
}

/// Nothing is claimed of this conversion beyond its `ensures`; the text is copied.
impl vstd::std_specs::convert::FromSpecImpl<&'static str> for ChangeTemplate {
    open spec fn obeys_from_spec() -> bool {
        false
    }

    open spec fn from_spec(v: &'static str) -> ChangeTemplate {
        arbitrary()
    }
}

// ---------------------------------------------------------------------------
// The text of release notes
// ---------------------------------------------------------------------------

/// A change written without a template: a bullet, or a header with the details.
pub open spec fn default_change_text(c: ChangeView) -> Seq<char> {
    match c.details {
        Some(d) => "### "@ + c.summary + "\n\n"@ + d,
        None => "- "@ + c.summary,
    }
}

/// A change written with the first template that applies to it, or without one.
pub open spec fn change_text(c: ChangeView, ts: Seq<Seq<char>>) -> Seq<char>
    decreases ts.len(),
{
    if ts.len() == 0 {
        default_change_text(c)
    } else {
        match template_output(ts[0], c) {
            Some(o) => o,
            None => change_text(c, ts.drop_first()),
        }
    }
}

/// What separates a change from the one before it: a blank line before a change
/// with details.
pub open spec fn sep_before(c: ChangeView) -> Seq<char> {
    if c.details is Some {
        "\n\n"@
    } else {
        "\n"@
    }
}

/// The changes of a section, written one after the other.
pub open spec fn body_text(cs: Seq<ChangeView>, ts: Seq<Seq<char>>) -> Seq<char>
    decreases cs.len(),
{
    if cs.len() == 0 {
        seq![]
    } else if cs.len() == 1 {
        change_text(cs[0], ts)
    } else {
        body_text(cs.drop_last(), ts) + sep_before(cs.last()) + change_text(cs.last(), ts)
    }
}

/// A section with the change types `types` collects `c`, among the changes with
/// details or among those without.
pub open spec fn collects(types: Seq<ChangeTypeView>, c: ChangeView, detailed: bool) -> bool {
    types.contains(c.change_type) && (c.details is Some) == detailed
}

/// The changes that `collects` keeps, in their order.
pub open spec fn keep(cs: Seq<ChangeView>, types: Seq<ChangeTypeView>, detailed: bool) -> Seq<ChangeView>
    decreases cs.len(),
{
    if cs.len() == 0 {
        seq![]
    } else {
        let prev = keep(cs.drop_last(), types, detailed);
        if collects(types, cs.last(), detailed) {
            prev.push(cs.last())
        } else {
            prev
        }
    }
}

/// The changes of a section: those of its types, the ones without details first,
/// each group in the order given.
pub open spec fn section_changes(cs: Seq<ChangeView>, types: Seq<ChangeTypeView>) -> Seq<ChangeView> {
    keep(cs, types, false) + keep(cs, types, true)
}

proof fn lemma_sub_suffix(a: Seq<char>, b: Seq<char>)
    ensures
        contains_sub(a + b, b),
{
    assert((a + b).subrange(a.len() as int, (a.len() + b.len()) as int) =~= b);
    assert(crate::text::occurs_at(a + b, b, a.len() as int));
}

proof fn lemma_sub_left(a: Seq<char>, b: Seq<char>, p: Seq<char>)
    requires
        contains_sub(a, p),
    ensures
        contains_sub(a + b, p),
{
    let i = choose|i: int| crate::text::occurs_at(a, p, i);
    assert((a + b).subrange(i, i + p.len()) =~= a.subrange(i, i + p.len()));
    assert(crate::text::occurs_at(a + b, p, i));
}

proof fn lemma_sub_trans(s: Seq<char>, p: Seq<char>, q: Seq<char>)
    requires
        contains_sub(s, p),
        contains_sub(p, q),
    ensures
        contains_sub(s, q),
{
    let i = choose|i: int| crate::text::occurs_at(s, p, i);
    let j = choose|j: int| crate::text::occurs_at(p, q, j);
    assert(s.subrange(i + j, i + j + q.len()) =~= p.subrange(j, j + q.len()));
    assert(crate::text::occurs_at(s, q, i + j));
}

proof fn lemma_sub_self(s: Seq<char>)
    ensures
        contains_sub(s, s),
{
    assert(s.subrange(0, s.len() as int) =~= s);
    assert(crate::text::occurs_at(s, s, 0));
}

/// Each change of a section is written in its body.
proof fn lemma_body_has(cs: Seq<ChangeView>, ts: Seq<Seq<char>>, j: int)
    requires
        0 <= j < cs.len(),
    ensures
        contains_sub(body_text(cs, ts), change_text(cs[j], ts)),
    decreases cs.len(),
{
    if cs.len() == 1 {
        lemma_sub_self(change_text(cs[0], ts));
    } else {
        let prev = body_text(cs.drop_last(), ts);
        let last = change_text(cs.last(), ts);
        assert(body_text(cs, ts) == prev + sep_before(cs.last()) + last);
        if j < cs.len() - 1 {
            lemma_body_has(cs.drop_last(), ts, j);
            assert(cs.drop_last()[j] == cs[j]);
            lemma_sub_left(prev, sep_before(cs.last()), change_text(cs[j], ts));
            lemma_sub_left(prev + sep_before(cs.last()), last, change_text(cs[j], ts));
        } else {
            lemma_sub_suffix(prev + sep_before(cs.last()), last);
        }
    }
}

/// A change that a section collects is among those `keep` gives.
proof fn lemma_keep_has(cs: Seq<ChangeView>, types: Seq<ChangeTypeView>, detailed: bool, k: int)
    requires
        0 <= k < cs.len(),
        collects(types, cs[k], detailed),
    ensures
        exists|j: int| 0 <= j < keep(cs, types, detailed).len() && keep(cs, types, detailed)[j] == cs[k],
    decreases cs.len(),
{
    let prev = keep(cs.drop_last(), types, detailed);
    if k == cs.len() - 1 {
        assert(keep(cs, types, detailed)[prev.len() as int] == cs[k]);
    } else {
        lemma_keep_has(cs.drop_last(), types, detailed, k);
        assert(cs.drop_last()[k] == cs[k]);
        let j = choose|j: int| 0 <= j < prev.len() && prev[j] == cs[k];
        assert(keep(cs, types, detailed)[j] == cs[k]);
    }
}

/// The notes hold, for each section with changes, its `## ` heading followed by
/// the section's changes.
proof fn lemma_notes_has_section(
    secs: Seq<(Seq<char>, Seq<ChangeTypeView>)>,
    cs: Seq<ChangeView>,
    ts: Seq<Seq<char>>,
    i: int,
)
    requires
        0 <= i < secs.len(),
        section_changes(cs, secs[i].1).len() > 0,
    ensures
        contains_sub(
            notes_text(secs, cs, ts),
            "## "@ + secs[i].0 + "\n\n"@ + body_text(section_changes(cs, secs[i].1), ts),
        ),
    decreases secs.len(),
{
    let prev = notes_text(secs.drop_last(), cs, ts);
    let block = "## "@ + secs[i].0 + "\n\n"@ + body_text(section_changes(cs, secs[i].1), ts);
    if i == secs.len() - 1 {
        let sep = if prev.len() == 0 {
            Seq::<char>::empty()
        } else {
            "\n\n"@
        };
        assert(notes_text(secs, cs, ts) =~= (prev + sep) + block);
        lemma_sub_suffix(prev + sep, block);
    } else {
        lemma_notes_has_section(secs.drop_last(), cs, ts, i);
        assert(secs.drop_last()[i] == secs[i]);
        let sc = section_changes(cs, secs.last().1);
        if sc.len() > 0 {
            let rest = (if prev.len() == 0 {
                Seq::<char>::empty()
            } else {
                "\n\n"@
            }) + "## "@ + secs.last().0 + "\n\n"@ + body_text(sc, ts);
            assert(notes_text(secs, cs, ts) =~= prev + rest);
            lemma_sub_left(prev, rest, block);
        }
    }
}

/// Every section that collects some change is written: its `## {name}` heading
/// followed by its changes, each change that the section's types list among
/// them. So every change whose type a section lists is in the notes, under
/// that section's heading, whatever other sections have changes.
pub proof fn lemma_notes_hold_every_change(
    secs: Seq<(Seq<char>, Seq<ChangeTypeView>)>,
    cs: Seq<ChangeView>,
    ts: Seq<Seq<char>>,
    i: int,
    k: int,
)
    requires
        0 <= i < secs.len(),
        0 <= k < cs.len(),
        secs[i].1.contains(cs[k].change_type),
    ensures
        exists|j: int| 0 <= j < section_changes(cs, secs[i].1).len() && section_changes(cs, secs[i].1)[j] == cs[k],
        contains_sub(
            notes_text(secs, cs, ts),
            "## "@ + secs[i].0 + "\n\n"@ + body_text(section_changes(cs, secs[i].1), ts),
        ),
        contains_sub(body_text(section_changes(cs, secs[i].1), ts), change_text(cs[k], ts)),
        contains_sub(notes_text(secs, cs, ts), change_text(cs[k], ts)),
{
    let types = secs[i].1;
    let detailed = cs[k].details is Some;
    let a = keep(cs, types, false);
    let b = keep(cs, types, true);
    lemma_keep_has(cs, types, detailed, k);
    let sc = section_changes(cs, types);
    let j = if detailed {
        let j0 = choose|j: int| 0 <= j < b.len() && b[j] == cs[k];
        assert(sc[a.len() + j0] == cs[k]);
        a.len() + j0
    } else {
        let j0 = choose|j: int| 0 <= j < a.len() && a[j] == cs[k];
        assert(sc[j0] == cs[k]);
        j0
    };
    assert(0 <= j < sc.len() && sc[j] == cs[k]);
    lemma_notes_has_section(secs, cs, ts, i);
    lemma_body_has(sc, ts, j);
    let block = "## "@ + secs[i].0 + "\n\n"@ + body_text(sc, ts);
    lemma_sub_suffix("## "@ + secs[i].0 + "\n\n"@, body_text(sc, ts));
    lemma_sub_trans(block, body_text(sc, ts), change_text(cs[k], ts));
    lemma_sub_trans(notes_text(secs, cs, ts), block, change_text(cs[k], ts));
}

/// The notes of a release: for each section with changes, its title at level 2
/// and its changes, sections apart by a blank line.
pub open spec fn notes_text(
    secs: Seq<(Seq<char>, Seq<ChangeTypeView>)>,
    cs: Seq<ChangeView>,
    ts: Seq<Seq<char>>,
) -> Seq<char>
    decreases secs.len(),
{
    if secs.len() == 0 {
        seq![]
    } else {
        let prev = notes_text(secs.drop_last(), cs, ts);
        let sc = section_changes(cs, secs.last().1);
        if sc.len() == 0 {
            prev
        } else {
            prev + (if prev.len() == 0 {
                Seq::<char>::empty()
            } else {
                "\n\n"@
            }) + "## "@ + secs.last().0 + "\n\n"@ + body_text(sc, ts)
        }
    }
}

/// The title of a release: its version and date.
pub open spec fn release_title_text(version: crate::semver::VersionView, date: Seq<char>) -> Seq<char> {
    version_text(version) + " ("@ + date + ")"@
}

/// Writes a change with the first template that applies, or without a template.
fn write_change(out: &mut Vec<char>, change: &Change, templates: &[ChangeTemplate])
    ensures
        final(out)@ == old(out)@ + change_text(change@, templates_view(templates@)),
{
    let ghost ts = templates_view(templates@);
    let mut k: usize = 0;
    assert(ts.skip(0) =~= ts);
    while k < templates.len()
        invariant
            k <= templates.len(),
            ts == templates_view(templates@),
            out@ == old(out)@,
            change_text(change@, ts) == change_text(change@, ts.skip(k as int)),
        decreases templates.len() - k,
    {
        assert(ts.skip(k as int)[0] == templates@[k as int]@);
        assert(ts.skip(k as int).drop_first() =~= ts.skip(k + 1));
        let mut piece = String::new();
        if templates[k].write(change, &mut piece) {
            push_str(out, piece.as_str());
            return;
        }
        k = k + 1;
    }
    assert(ts.skip(k as int).len() == 0);
    match &change.details {
        Some(d) => {
            push_str(out, "### ");
            push_str(out, change.summary.as_str());
            push_str(out, "\n\n");
            push_str(out, d.as_str());
        },
        None => {
            push_str(out, "- ");
            push_str(out, change.summary.as_str());
        },
    }
    assert(out@ =~= old(out)@ + default_change_text(change@));
}

/// Writes the changes one after the other.
fn write_body(out: &mut Vec<char>, changes: &Vec<Change>, templates: &[ChangeTemplate])
    ensures
        final(out)@ == old(out)@ + body_text(changes_view(changes@), templates_view(templates@)),
{
    let ghost cv = changes_view(changes@);
    let ghost ts = templates_view(templates@);
    let mut i: usize = 0;
    while i < changes.len()
        invariant
            i <= changes.len(),
            cv == changes_view(changes@),
            ts == templates_view(templates@),
            out@ == old(out)@ + body_text(cv.take(i as int), ts),
        decreases changes.len() - i,
    {
        let ghost before = out@;
        assert(cv.take(i + 1).drop_last() =~= cv.take(i as int));
        assert(cv.take(i + 1).last() == changes@[i as int]@);
        if i > 0 {
            if changes[i].details.is_some() {
                push_str(out, "\n\n");
            } else {
                push_str(out, "\n");
            }
        }
        write_change(out, &changes[i], templates);
        proof {
            if i == 0 {
                assert(cv.take(1) =~= seq![cv[0]]);
            }
        }
        assert(out@ =~= old(out)@ + body_text(cv.take(i + 1), ts));
        i = i + 1;
    }
    assert(cv.take(i as int) =~= cv);
}

/// Appends the changes that `collects` keeps.
fn keep_changes(out: &mut Vec<Change>, changes: &[Change], types: &Vec<ChangeType>, detailed: bool)
    ensures
        changes_view(final(out)@) == changes_view(old(out)@) + keep(changes_view(changes@), types_view(types@), detailed),
{
    let ghost cv = changes_view(changes@);
    let ghost tv = types_view(types@);
    let mut i: usize = 0;
    while i < changes.len()
        invariant
            i <= changes.len(),
            cv == changes_view(changes@),
            tv == types_view(types@),
            changes_view(out@) == changes_view(old(out)@) + keep(cv.take(i as int), tv, detailed),
        decreases changes.len() - i,
    {
        let ghost before = out@;
        let c = &changes[i];
        assert(cv.take(i + 1).drop_last() =~= cv.take(i as int));
        assert(cv.take(i + 1).last() == c@);
        let listed = c.change_type.is_in(types);
        proof {
            if listed {
                let j = choose|j: int| 0 <= j < types.len() && (#[trigger] types@[j])@ == c.change_type@;
                assert(tv[j] == c@.change_type);
            } else {
                assert forall|j: int| 0 <= j < tv.len() implies tv[j] != c@.change_type by {
                    assert(tv[j] == types@[j]@);
                }
            }
        }
        if listed && c.details.is_some() == detailed {
            out.push(c.duplicate());
            assert(changes_view(out@) =~= changes_view(before).push(c@));
        }
        assert(changes_view(out@) =~= changes_view(old(out)@) + keep(cv.take(i + 1), tv, detailed));
        i = i + 1;
    }
    assert(cv.take(i as int) =~= cv);
}

/// The changes of a section, the ones without details first.
fn select_changes(changes: &[Change], types: &Vec<ChangeType>) -> (r: Vec<Change>)
    ensures
        changes_view(r@) == section_changes(changes_view(changes@), types_view(types@)),
{
    let mut r: Vec<Change> = Vec::new();
    keep_changes(&mut r, changes, types, false);
    keep_changes(&mut r, changes, types, true);
    assert(changes_view(Seq::<Change>::empty()) =~= Seq::<ChangeView>::empty());
    r
}

// ---------------------------------------------------------------------------
// Creating a release
// ---------------------------------------------------------------------------

/// Defines how release notes are handled for a package.
#[derive(Clone, Debug, PartialEq, Eq)]
pub struct ReleaseNotes {
    pub sections: Sections,
    pub changelog: Option<Changelog>,
    pub change_templates: Vec<ChangeTemplate>,
}

impl Default for ReleaseNotes {
    fn default() -> (r: Self)
        ensures
            r.sections@ == config::default_sections().map_values(
                |e: (Seq<char>, ChangeTypeView)| (e.0, seq![e.1]),
            ),
            r.changelog is None,
            r.change_templates@.len() == 0,
    {
        ReleaseNotes { sections: Sections::default(), changelog: None, change_templates: Vec::new() }
    }
}

/// The release that `create_release` makes, dated `date`.
pub open spec fn release_of(
    notes: &ReleaseNotes,
    version: crate::semver::VersionView,
    changes: Seq<Change>,
    package_name: &Name,
    date: Seq<char>,
) -> ReleaseView {
    ReleaseView {
        title: release_title_text(version, date),
        version: version,
        notes: notes_text(notes.sections@, changes_view(changes), templates_view(notes.change_templates@)),
        package_name: package_name@,
    }
}

/// What `create_release` does with a release: it writes it into the changelog,
/// if there is one, and then creates it.
pub open spec fn release_done(before: &ReleaseNotes, after: &ReleaseNotes, rel: ReleaseView, actions: Seq<ActionView>) -> bool {
    &&& after.sections == before.sections
    &&& after.change_templates == before.change_templates
    &&& match before.changelog {
        None => {
            &&& after.changelog is None
            &&& actions == seq![ActionView::CreateRelease(rel)]
        },
        Some(c) => {
            let new = new_changes_text(c.level(), rel);
            &&& after.changelog matches Some(c2)
            &&& c2.path@ == c.path@
            &&& c2.level() == c.level()
            &&& c2.content@ == with_release_content(c.content@, new)
            &&& actions == seq![
                ActionView::WriteToFile { path: c.path@, content: c2.content@, diff: seq!['\n'] + new + seq!['\n'] },
                ActionView::CreateRelease(rel),
            ]
        },
    }
}

/// `Failed to format current time`
#[derive(Debug)]
pub struct TimeError(pub time::error::Format);

#[verifier::external_type_specification]
#[verifier::external_body]
pub struct ExFormatError(time::error::Format);

/// Today's date in UTC, written year-month-day: calls `time::OffsetDateTime::now_utc`,
/// takes its `date`, and formats it with `Iso8601::DATE`. The date depends on the
/// clock, so nothing is claimed of the text.
#[verifier::external_body]
fn today_text() -> (r: Result<String, time::error::Format>) {
    time::OffsetDateTime::now_utc().date().format(&time::format_description::well_known::Iso8601::DATE)
}

impl ReleaseNotes {
    /// Create new release notes for use in changelogs / forges, dated today.
    ///
    /// # Errors
    ///
    /// If the current date can't be formatted
    pub fn create_release(&mut self, version: Version, changes: &[Change], package_name: &Name) -> (r: Result<Vec<Action>, TimeError>)
        ensures
            match r {
                Ok(actions) => exists|date: Seq<char>|
                    release_done(old(self), final(self), #[trigger] release_of(old(self), version@, changes@, package_name, date), actions_view(actions@)),
                Err(_) => *final(self) == *old(self),
            },
    {
        match today_text() {
            Err(e) => Err(TimeError(e)),
            Ok(date) => {
                let ghost v = version;
                let actions = self.create_release_dated(version, changes, package_name, date.as_str());
                assert(release_done(old(self), self, release_of(old(self), v@, changes@, package_name, date@), actions_view(actions@)));
                Ok(actions)
            },
        }
    }

    /// Create new release notes for use in changelogs / forges, with the date `date`
    /// in the title.
    pub fn create_release_dated(&mut self, version: Version, changes: &[Change], package_name: &Name, date: &str) -> (r: Vec<Action>)
        ensures
            release_done(old(self), final(self), release_of(old(self), version@, changes@, package_name, date@), actions_view(r@)),
    {
        let mut notes: Vec<char> = Vec::new();
        let ghost cv = changes_view(changes@);
        let ghost ts = templates_view(self.change_templates@);
        let ghost secs = self.sections@;
        let mut k: usize = 0;
        while k < self.sections.0.len()
            invariant
                k <= self.sections.0.len(),
                cv == changes_view(changes@),
                ts == templates_view(self.change_templates@),
                secs == self.sections@,
                notes@ == notes_text(secs.take(k as int), cv, ts),
            decreases self.sections.0.len() - k,
        {
            assert(secs.take(k + 1).drop_last() =~= secs.take(k as int));
            assert(secs.take(k + 1).last() == secs[k as int]);
            let selected = select_changes(changes, &self.sections.0[k].1);
            if selected.len() > 0 {
                if notes.len() > 0 {
                    push_str(&mut notes, "\n\n");
                }
                push_str(&mut notes, "## ");
                push_str(&mut notes, self.sections.0[k].0.0.as_str());
                push_str(&mut notes, "\n\n");
                write_body(&mut notes, &selected, self.change_templates.as_slice());
            }
            assert(notes@ =~= notes_text(secs.take(k + 1), cv, ts));
            k = k + 1;
        }
        assert(secs.take(k as int) =~= secs);
        let mut title: Vec<char> = Vec::new();
        version.write_to(&mut title);
        push_str(&mut title, " (");
        push_str(&mut title, date);
        push_str(&mut title, ")");
        assert(title@ =~= release_title_text(version@, date@));
        let release = Release {
            title: string_of(&title),
            version,
            notes: string_of(&notes),
            package_name: package_name.duplicate(),
        };
        let mut actions: Vec<Action> = Vec::new();
        match self.changelog.take() {
            Some(mut changelog) => {
                let new_changes = changelog.with_release(&release);
                let mut diff: Vec<char> = vec!['\n'];
                push_str(&mut diff, new_changes.as_str());
                diff.push('\n');
                actions.push(
                    Action::WriteToFile {
                        path: changelog.path.clone(),
                        content: changelog.content.clone(),
                        diff: string_of(&diff),
                    },
                );
                assert(actions@.len() == 1);
                assert(changelog.path@ == old(self).changelog->0.path@);
                assert(new_changes@ == new_changes_text(old(self).changelog->0.level(), release@));
                assert(diff@ == seq!['\n'] + new_changes@ + seq!['\n']);
                assert(actions@[0]@ == ActionView::WriteToFile {
                    path: old(self).changelog->0.path@,
                    content: changelog.content@,
                    diff: seq!['\n'] + new_changes_text(old(self).changelog->0.level(), release@) + seq!['\n'],
                });
                self.changelog = Some(changelog);
            },
            None => {},
        }
        let ghost rel = release@;
        assert(rel == release_of(old(self), version@, changes@, package_name, date@));
        actions.push(Action::CreateRelease(release));
        assert(self.sections == old(self).sections);
        assert(self.change_templates == old(self).change_templates);
        proof {
            match old(self).changelog {
                None => {
                    assert(actions_view(actions@) =~= seq![ActionView::CreateRelease(rel)]);
                },
                Some(c) => {
                    let new = new_changes_text(c.level(), rel);
                    let c2 = self.changelog->0;
                    assert(actions_view(actions@) =~= seq![
                        ActionView::WriteToFile { path: c.path@, content: c2.content@, diff: seq!['\n'] + new + seq!['\n'] },
                        ActionView::CreateRelease(rel),
                    ]);
                },
            }
        }
        actions
    }
}

} // verus!
