//! The parts of the configuration file that shape versioning: extra sections
//! of the changelog, how changes are tracked, and template variables.
use vstd::prelude::*;

use crate::changes::{change_type_of_changeset, changeset_type_of_name, ChangeType, ChangeTypeView};
use crate::release_notes::config::{default_sections, types_view};
use crate::pattern::str_replace;
use crate::release_notes::{ChangeTemplate, CommitFooter, CustomChangeType, SectionName, Sections};
use crate::path::{path_file_name, rel_file_name};
use crate::text::{chars_of, contains_exec, contains_sub, replace_exec, string_of};
use crate::versioned_file::{Config as FileConfig, ConfigError, UnknownFile};

verus! {

/// An extra section of the changelog: its name, and the commit footers and
/// custom change types whose changes it collects.
#[derive(Clone, Debug, PartialEq, Eq)]
pub struct ChangelogSection {
    pub name: SectionName,
    pub footers: Vec<CommitFooter>,
    pub types: Vec<CustomChangeType>,
}

/// The change types that a configured section collects: its footers, then its
/// custom types.
pub open spec fn section_sources(s: ChangelogSection) -> Seq<ChangeTypeView> {
    s.footers@.map_values(footer_type()) + s.types@.map_values(custom_type())
}

/// The change type of a commit footer.
pub open spec fn footer_type() -> spec_fn(CommitFooter) -> ChangeTypeView {
    |f: CommitFooter| ChangeTypeView::Footer(f.0@)
}

/// The change type that a custom type's name stands for.
pub open spec fn custom_type() -> spec_fn(CustomChangeType) -> ChangeTypeView {
    |t: CustomChangeType| change_type_of_changeset(changeset_type_of_name(t.0@))
}

/// A built-in section with its one change type.
pub open spec fn single_section() -> spec_fn((Seq<char>, ChangeTypeView)) -> (Seq<char>, Seq<ChangeTypeView>) {
    |e: (Seq<char>, ChangeTypeView)| (e.0, seq![e.1])
}

/// The built-in sections whose change type is not among `srcs`, in order.
pub open spec fn drop_sources(d: Seq<(Seq<char>, ChangeTypeView)>, srcs: Seq<ChangeTypeView>) -> Seq<
    (Seq<char>, ChangeTypeView),
>
    decreases d.len(),
{
    if d.len() == 0 {
        seq![]
    } else {
        let prev = drop_sources(d.drop_last(), srcs);
        if srcs.contains(d.last().1) {
            prev
        } else {
            prev.push(d.last())
        }
    }
}

/// The change types of the built-in sections named `name`, in order.
pub open spec fn types_named(d: Seq<(Seq<char>, ChangeTypeView)>, name: Seq<char>) -> Seq<ChangeTypeView>
    decreases d.len(),
{
    if d.len() == 0 {
        seq![]
    } else {
        let prev = types_named(d.drop_last(), name);
        if d.last().0 == name {
            prev.push(d.last().1)
        } else {
            prev
        }
    }
}

/// The built-in sections not named `name`, in order.
pub open spec fn others_named(d: Seq<(Seq<char>, ChangeTypeView)>, name: Seq<char>) -> Seq<(Seq<char>, ChangeTypeView)>
    decreases d.len(),
{
    if d.len() == 0 {
        seq![]
    } else {
        let prev = others_named(d.drop_last(), name);
        if d.last().0 == name {
            prev
        } else {
            prev.push(d.last())
        }
    }
}

/// Folds the configured sections into the built-in ones: each configured
/// section takes the change types it names away from the built-in sections, and
/// absorbs the built-in sections of its own name. Gives the built-in sections
/// that are left and the configured sections, in order.
pub open spec fn fold_sections(defaults: Seq<(Seq<char>, ChangeTypeView)>, sections: Seq<ChangelogSection>) -> (
    Seq<(Seq<char>, ChangeTypeView)>,
    Seq<(Seq<char>, Seq<ChangeTypeView>)>,
)
    decreases sections.len(),
{
    if sections.len() == 0 {
        (defaults, seq![])
    } else {
        let (d, out) = fold_sections(defaults, sections.drop_last());
        let s = sections.last();
        let kept = drop_sources(d, section_sources(s));
        (
            others_named(kept, s.name@),
            out.push((s.name@, section_sources(s) + types_named(kept, s.name@))),
        )
    }
}

/// The sections of the release notes for configured extra sections: the
/// built-in sections that are left, each with its one change type, then the
/// configured ones.
pub open spec fn converted_sections(sections: Seq<ChangelogSection>) -> Seq<(Seq<char>, Seq<ChangeTypeView>)> {
    let (d, out) = fold_sections(default_sections(), sections);
    d.map_values(single_section()) + out
}

/// A built-in section whose change type is not among `srcs`.
pub open spec fn not_source(srcs: Seq<ChangeTypeView>) -> spec_fn((Seq<char>, ChangeTypeView)) -> bool {
    |e: (Seq<char>, ChangeTypeView)| !srcs.contains(e.1)
}

/// A built-in section not named `name`.
pub open spec fn not_named(name: Seq<char>) -> spec_fn((Seq<char>, ChangeTypeView)) -> bool {
    |e: (Seq<char>, ChangeTypeView)| e.0 != name
}

/// A built-in section that none of the first `k` configured sections takes: its
/// change type is none of theirs, and its name is none of theirs.
pub open spec fn survives(sections: Seq<ChangelogSection>, k: int) -> spec_fn((Seq<char>, ChangeTypeView)) -> bool {
    |e: (Seq<char>, ChangeTypeView)|
        forall|j: int| 0 <= j < k ==> !section_sources(#[trigger] sections[j]).contains(e.1) && e.0 != sections[j].name@
}

/// A built-in section that configured section `i` absorbs: it has its name, no
/// earlier configured section has that name, and its change type is taken by
/// none of the sections up to `i`.
pub open spec fn absorbed(sections: Seq<ChangelogSection>, i: int) -> spec_fn((Seq<char>, ChangeTypeView)) -> bool {
    |e: (Seq<char>, ChangeTypeView)|
        survives(sections, i)(e) && !section_sources(sections[i]).contains(e.1) && e.0 == sections[i].name@
}

pub open spec fn change_type_of_section() -> spec_fn((Seq<char>, ChangeTypeView)) -> ChangeTypeView {
    |e: (Seq<char>, ChangeTypeView)| e.1
}

proof fn lemma_drop_sources_filter(d: Seq<(Seq<char>, ChangeTypeView)>, srcs: Seq<ChangeTypeView>)
    ensures
        drop_sources(d, srcs) == d.filter(not_source(srcs)),
    decreases d.len(),
{
    reveal(Seq::filter);
    if d.len() > 0 {
        lemma_drop_sources_filter(d.drop_last(), srcs);
    }
}

proof fn lemma_others_named_filter(d: Seq<(Seq<char>, ChangeTypeView)>, name: Seq<char>)
    ensures
        others_named(d, name) == d.filter(not_named(name)),
    decreases d.len(),
{
    reveal(Seq::filter);
    if d.len() > 0 {
        lemma_others_named_filter(d.drop_last(), name);
    }
}

/// The change types of the sections of `d` that `p` keeps and that are named `name`.
proof fn lemma_types_named_filter(
    d: Seq<(Seq<char>, ChangeTypeView)>,
    p: spec_fn((Seq<char>, ChangeTypeView)) -> bool,
    q: spec_fn((Seq<char>, ChangeTypeView)) -> bool,
    name: Seq<char>,
)
    requires
        forall|e: (Seq<char>, ChangeTypeView)| #[trigger] q(e) == (p(e) && e.0 == name),
    ensures
        types_named(d.filter(p), name) == d.filter(q).map_values(change_type_of_section()),
    decreases d.len(),
{
    reveal(Seq::filter);
    if d.len() > 0 {
        lemma_types_named_filter(d.drop_last(), p, q, name);
        let a = d.drop_last().filter(p);
        let b = d.drop_last().filter(q);
        let e = d.last();
        if p(e) {
            assert(d.filter(p) == a.push(e));
            assert(a.push(e).drop_last() =~= a);
            if e.0 == name {
                assert(q(e));
                assert(b.push(e).map_values(change_type_of_section()) =~= b.map_values(change_type_of_section()).push(e.1));
            } else {
                assert(!q(e));
            }
        } else {
            assert(!q(e));
        }
    } else {
        assert(d.filter(q).map_values(change_type_of_section()) =~= Seq::<ChangeTypeView>::empty());
    }
}

proof fn lemma_filter_filter(
    d: Seq<(Seq<char>, ChangeTypeView)>,
    p: spec_fn((Seq<char>, ChangeTypeView)) -> bool,
    q: spec_fn((Seq<char>, ChangeTypeView)) -> bool,
    r: spec_fn((Seq<char>, ChangeTypeView)) -> bool,
)
    requires
        forall|e: (Seq<char>, ChangeTypeView)| #[trigger] r(e) == (p(e) && q(e)),
    ensures
        d.filter(p).filter(q) == d.filter(r),
    decreases d.len(),
{
    reveal(Seq::filter);
    if d.len() > 0 {
        lemma_filter_filter(d.drop_last(), p, q, r);
        let e = d.last();
        if p(e) {
            assert(d.filter(p).drop_last() =~= d.drop_last().filter(p));
        }
    }
}

/// The built-in sections left after the first `k` configured sections are those
/// that none of them takes, in order; configured section `i` collects its own
/// change types, then those of the built-in sections it absorbs.
proof fn lemma_fold_sections(sections: Seq<ChangelogSection>, k: int)
    requires
        0 <= k <= sections.len(),
    ensures
        fold_sections(default_sections(), sections.take(k)).0 == default_sections().filter(survives(sections, k)),
        fold_sections(default_sections(), sections.take(k)).1.len() == k,
        forall|i: int|
            0 <= i < k ==> #[trigger] fold_sections(default_sections(), sections.take(k)).1[i] == (
                sections[i].name@,
                section_sources(sections[i]) + default_sections().filter(absorbed(sections, i)).map_values(
                    change_type_of_section(),
                ),
            ),
    decreases k,
{
    let dd = default_sections();
    if k == 0 {
        reveal(Seq::filter);
        assert(survives(sections, 0) =~= (|e: (Seq<char>, ChangeTypeView)| true));
        lemma_filter_all(dd, survives(sections, 0));
    } else {
        lemma_fold_sections(sections, k - 1);
        let t = sections.take(k);
        assert(t.drop_last() =~= sections.take(k - 1));
        assert(t.last() == sections[k - 1]);
        let s = sections[k - 1];
        let own = section_sources(s);
        let prev = fold_sections(dd, sections.take(k - 1));
        let d = prev.0;
        let kept = drop_sources(d, own);
        lemma_drop_sources_filter(d, own);
        lemma_others_named_filter(kept, s.name@);
        let both = |e: (Seq<char>, ChangeTypeView)| survives(sections, k - 1)(e) && not_source(own)(e);
        lemma_filter_filter(dd, survives(sections, k - 1), not_source(own), both);
        assert forall|e: (Seq<char>, ChangeTypeView)| #[trigger] survives(sections, k)(e) == (both(e) && not_named(s.name@)(e)) by {
            if survives(sections, k)(e) {
                assert forall|j: int| 0 <= j < k - 1 implies !section_sources(#[trigger] sections[j]).contains(e.1) && e.0
                    != sections[j].name@ by {
                    assert(survives(sections, k)(e));
                }
            }
            if both(e) && not_named(s.name@)(e) {
                assert forall|j: int| 0 <= j < k implies !section_sources(#[trigger] sections[j]).contains(e.1) && e.0
                    != sections[j].name@ by {
                    if j < k - 1 {
                        assert(survives(sections, k - 1)(e));
                    }
                }
            }
        }
        lemma_filter_filter(dd, both, not_named(s.name@), survives(sections, k));
        lemma_types_named_filter(dd, both, absorbed(sections, k - 1), s.name@);
        assert forall|i: int| 0 <= i < k implies #[trigger] fold_sections(dd, t).1[i] == (
            sections[i].name@,
            section_sources(sections[i]) + dd.filter(absorbed(sections, i)).map_values(change_type_of_section()),
        ) by {
            if i < k - 1 {
                assert(fold_sections(dd, t).1[i] == prev.1[i]);
            }
        }
    }
}

proof fn lemma_filter_all(d: Seq<(Seq<char>, ChangeTypeView)>, p: spec_fn((Seq<char>, ChangeTypeView)) -> bool)
    requires
        forall|e: (Seq<char>, ChangeTypeView)| #[trigger] p(e),
    ensures
        d.filter(p) == d,
    decreases d.len(),
{
    reveal(Seq::filter);
    if d.len() > 0 {
        lemma_filter_all(d.drop_last(), p);
        assert(d.drop_last().push(d.last()) =~= d);
    }
}

/// The sections that `convert_to_versioning` gives, in closed form: the built-in
/// sections that no configured section takes (by change type or by name), each
/// with its one change type, in order; then each configured section with its
/// own change types followed by those of the built-in sections it absorbs.
pub proof fn lemma_converted_sections(sections: Seq<ChangelogSection>)
    ensures
        converted_sections(sections) == default_sections().filter(survives(sections, sections.len() as int)).map_values(
            single_section(),
        ) + Seq::new(
            sections.len(),
            |i: int|
                (
                    sections[i].name@,
                    section_sources(sections[i]) + default_sections().filter(absorbed(sections, i)).map_values(
                        change_type_of_section(),
                    ),
                ),
        ),
{
    lemma_fold_sections(sections, sections.len() as int);
    assert(sections.take(sections.len() as int) =~= sections);
    let out = fold_sections(default_sections(), sections).1;
    assert(out =~= Seq::new(
        sections.len(),
        |i: int|
            (
                sections[i].name@,
                section_sources(sections[i]) + default_sections().filter(absorbed(sections, i)).map_values(
                    change_type_of_section(),
                ),
            ),
    ));
}

pub open spec fn pairs_view(v: Seq<(SectionName, ChangeType)>) -> Seq<(Seq<char>, ChangeTypeView)> {
    v.map_values(|e: (SectionName, ChangeType)| (e.0@, e.1@))
}

/// Whether one of the change types is `t`.
fn types_contain(v: &Vec<ChangeType>, t: &ChangeType) -> (r: bool)
    ensures
        r == types_view(v@).contains(t@),
{
    let mut i: usize = 0;
    while i < v.len()
        invariant
            i <= v.len(),
            forall|k: int| 0 <= k < i ==> (#[trigger] v@[k])@ != t@,
        decreases v.len() - i,
    {
        if v[i].same_as(t) {
            assert(types_view(v@)[i as int] == t@);
            return true;
        }
        i = i + 1;
    }
    assert forall|k: int| 0 <= k < types_view(v@).len() implies types_view(v@)[k] != t@ by {
        assert(types_view(v@)[k] == v@[k]@);
    }
    false
}

/// The change types that a configured section collects, as values.
fn sources_of(s: &ChangelogSection) -> (r: Vec<ChangeType>)
    ensures
        types_view(r@) == section_sources(*s),
{
    let mut r: Vec<ChangeType> = Vec::new();
    let mut i: usize = 0;
    while i < s.footers.len()
        invariant
            i <= s.footers.len(),
            types_view(r@) == s.footers@.take(i as int).map_values(footer_type()),
        decreases s.footers.len() - i,
    {
        let ghost before = r@;
        r.push(ChangeType::from_footer(CommitFooter(s.footers[i].0.clone())));
        assert(types_view(r@) =~= types_view(before).push(footer_type()(s.footers@[i as int])));
        assert(s.footers@.take(i + 1int) =~= s.footers@.take(i as int).push(s.footers@[i as int]));
        assert(types_view(r@) =~= s.footers@.take(i + 1int).map_values(footer_type()));
        i = i + 1;
    }
    assert(s.footers@.take(i as int) =~= s.footers@);
    let ghost first = types_view(r@);
    let mut j: usize = 0;
    while j < s.types.len()
        invariant
            j <= s.types.len(),
            types_view(r@) == first + s.types@.take(j as int).map_values(custom_type()),
        decreases s.types.len() - j,
    {
        let ghost before = r@;
        r.push(ChangeType::from_custom(CustomChangeType(s.types[j].0.clone())));
        assert(types_view(r@) =~= types_view(before).push(custom_type()(s.types@[j as int])));
        assert(s.types@.take(j + 1int) =~= s.types@.take(j as int).push(s.types@[j as int]));
        assert(types_view(r@) =~= first + s.types@.take(j + 1int).map_values(custom_type()));
        j = j + 1;
    }
    assert(s.types@.take(j as int) =~= s.types@);
    r
}

/// Turns the configured extra sections into the sections of the release notes.
/// Each configured section takes its change types away from the built-in
/// sections and absorbs a built-in section of the same name; the built-in
/// sections that are left come first.
pub fn convert_to_versioning(changelog_sections: Vec<ChangelogSection>) -> (r: Sections)
    ensures
        r@ == converted_sections(changelog_sections@),
{
    let mut defaults = Sections::defaults();
    let mut sections: Vec<(SectionName, Vec<ChangeType>)> = Vec::new();
    let mut k: usize = 0;
    while k < changelog_sections.len()
        invariant
            k <= changelog_sections.len(),
            (pairs_view(defaults@), crate::release_notes::config::sections_view(sections@)) == fold_sections(
                default_sections(),
                changelog_sections@.take(k as int),
            ),
        decreases changelog_sections.len() - k,
    {
        let section = &changelog_sections[k];
        let mut sources = sources_of(section);
        let ghost srcs = types_view(sources@);
        let ghost d = pairs_view(defaults@);
        let mut kept: Vec<(SectionName, ChangeType)> = Vec::new();
        let mut i: usize = 0;
        while i < defaults.len()
            invariant
                i <= defaults.len(),
                d == pairs_view(defaults@),
                srcs == types_view(sources@),
                pairs_view(kept@) == drop_sources(d.take(i as int), srcs),
            decreases defaults.len() - i,
        {
            assert(d.take(i + 1int).drop_last() =~= d.take(i as int));
            assert(d[i as int] == (defaults@[i as int].0@, defaults@[i as int].1@));
            if !types_contain(&sources, &defaults[i].1) {
                kept.push((defaults[i].0.duplicate(), defaults[i].1.duplicate()));
            }
            assert(pairs_view(kept@) =~= drop_sources(d.take(i + 1int), srcs));
            i = i + 1;
        }
        assert(d.take(i as int) =~= d);
        let ghost kv = pairs_view(kept@);
        let mut rest: Vec<(SectionName, ChangeType)> = Vec::new();
        let mut j: usize = 0;
        while j < kept.len()
            invariant
                j <= kept.len(),
                kv == pairs_view(kept@),
                types_view(sources@) == srcs + types_named(kv.take(j as int), section.name@),
                pairs_view(rest@) == others_named(kv.take(j as int), section.name@),
            decreases kept.len() - j,
        {
            assert(kv.take(j + 1int).drop_last() =~= kv.take(j as int));
            assert(kv[j as int] == (kept@[j as int].0@, kept@[j as int].1@));
            let ghost sb = sources@;
            if crate::text::text_eq(kept[j].0.as_str(), section.name.as_str()) {
                sources.push(kept[j].1.duplicate());
                assert(types_view(sources@) =~= types_view(sb).push(kv[j as int].1));
            } else {
                rest.push((kept[j].0.duplicate(), kept[j].1.duplicate()));
            }
            assert(types_view(sources@) =~= srcs + types_named(kv.take(j + 1int), section.name@)) by {
                assert(types_named(kv.take(j + 1int), section.name@) == if kv[j as int].0 == section.name@ {
                    types_named(kv.take(j as int), section.name@).push(kv[j as int].1)
                } else {
                    types_named(kv.take(j as int), section.name@)
                });
            }
            assert(pairs_view(rest@) =~= others_named(kv.take(j + 1int), section.name@));
            j = j + 1;
        }
        assert(kv.take(j as int) =~= kv);
        let ghost before = sections@;
        sections.push((section.name.duplicate(), sources));
        defaults = rest;
        assert(changelog_sections@.take(k + 1int).drop_last() =~= changelog_sections@.take(k as int));
        assert(crate::release_notes::config::sections_view(sections@) =~= crate::release_notes::config::sections_view(
            before,
        ).push((section.name@, srcs + types_named(kv, section.name@))));
        k = k + 1;
    }
    assert(changelog_sections@.take(k as int) =~= changelog_sections@);
    let ghost dv = pairs_view(defaults@);
    let ghost sv = crate::release_notes::config::sections_view(sections@);
    let mut out: Vec<(SectionName, Vec<ChangeType>)> = Vec::new();
    let mut i: usize = 0;
    while i < defaults.len()
        invariant
            i <= defaults.len(),
            dv == pairs_view(defaults@),
            crate::release_notes::config::sections_view(out@) == dv.take(i as int).map_values(single_section()),
            out@.len() == i,
        decreases defaults.len() - i,
    {
        let ghost before = out@;
        out.push((defaults[i].0.duplicate(), vec![defaults[i].1.duplicate()]));
        assert(dv.take(i + 1int) =~= dv.take(i as int).push(dv[i as int]));
        assert(dv[i as int] == (defaults@[i as int].0@, defaults@[i as int].1@));
        assert(types_view(out@[i as int].1@) =~= seq![dv[i as int].1]);
        assert(crate::release_notes::config::sections_view(out@) =~= crate::release_notes::config::sections_view(before).push(
            single_section()(dv[i as int]),
        ));
        assert(crate::release_notes::config::sections_view(out@) =~= dv.take(i + 1int).map_values(single_section()));
        i = i + 1;
    }
    assert(dv.take(i as int) =~= dv);
    let ghost first = out@;
    out.append(&mut sections);
    assert(crate::release_notes::config::sections_view(out@) =~= crate::release_notes::config::sections_view(first)
        + sv);
    Sections(out)
}

/// How changes are tracked.
#[derive(Debug, Default)]
pub struct Changes {
    /// Whether conventional commits are ignored across all workflows.
    pub ignore_conventional_commits: bool,
}

/// A value that can replace a name in a template.
#[derive(Clone, Copy, Debug, PartialEq, Eq, Structural)]
pub enum Variable {
    /// The version of the package, if only one package is configured.
    Version,
    /// The branch name for the selected issue.
    IssueBranch,
    /// The changelog entry of the latest release.
    ChangelogEntry,
}

/// A template text and the variables that are replaced in it, by name, in order.
#[derive(Clone, Debug)]
pub struct Template {
    pub template: String,
    pub variables: Vec<(String, Variable)>,
}

pub open spec fn variables_view(v: Seq<(String, Variable)>) -> Seq<(Seq<char>, Variable)> {
    v.map_values(|e: (String, Variable)| (e.0@, e.1))
}

/// The variables of a template unless others are given: `$version` and `$changelog`.
pub open spec fn default_variables() -> Seq<(Seq<char>, Variable)> {
    seq![("$version"@, Variable::Version), ("$changelog"@, Variable::ChangelogEntry)]
}

/// One step of filling in a template: where the text holds the name, every
/// occurrence of it is replaced by the value.
pub open spec fn fill_step(text: Seq<char>, name: Seq<char>, value: Seq<char>) -> Seq<char> {
    if contains_sub(text, name) {
        str_replace(text, name, value)
    } else {
        text
    }
}

/// A template filled in with the values of its variables, variable by variable.
pub open spec fn filled(text: Seq<char>, vars: Seq<(Seq<char>, Variable)>, values: Seq<Seq<char>>) -> Seq<char>
    decreases vars.len(),
{
    if vars.len() == 0 {
        text
    } else {
        fill_step(filled(text, vars.drop_last(), values.drop_last()), vars.last().0, values.last())
    }
}

/// Whether the `i`th variable is looked up: its name is in the text filled in so far.
pub open spec fn looked_up(text: Seq<char>, vars: Seq<(Seq<char>, Variable)>, values: Seq<Seq<char>>, i: int) -> bool {
    contains_sub(filled(text, vars.take(i), values.take(i)), vars[i].0)
}

/// Whether the lookup can give `value` for the variable.
pub open spec fn gave<Lookup: Fn(Variable) -> Result<String, Error>, Error>(lookup: Lookup, v: Variable, value: Seq<char>) -> bool {
    exists|x: String| call_ensures(lookup, (v,), Ok::<String, Error>(x)) && x@ == value
}

/// Whether filling in the template stops at variable `values.len()` with the
/// error `e`: the variables before it were filled in with `values` (each that
/// was looked up with a value the lookup gave), its name is in the text so far,
/// and the lookup can give `e` for it.
pub open spec fn failed_at<Lookup: Fn(Variable) -> Result<String, Error>, Error>(
    text: Seq<char>,
    variables: Seq<(String, Variable)>,
    lookup: Lookup,
    values: Seq<Seq<char>>,
    e: Error,
) -> bool {
    let vars = variables_view(variables);
    let i = values.len() as int;
    &&& i < variables.len()
    &&& contains_sub(filled(text, vars.take(i), values), vars[i].0)
    &&& forall|k: int|
        0 <= k < i && looked_up(text, vars.take(i), values, k) ==> gave(lookup, variables[k].1, #[trigger] values[k])
    &&& call_ensures(lookup, (variables[i].1,), Err::<String, Error>(e))
}

impl Template {
    /// A template with the given variables, or with `$version` and `$changelog`.
    pub fn new(template: String, variables: Option<Vec<(String, Variable)>>) -> (r: Template)
        ensures
            r.template == template,
            variables_view(r.variables@) == match variables {
                Some(v) => variables_view(v@),
                None => default_variables(),
            },
    {
        let variables = match variables {
            Some(v) => v,
            None => {
                let v = vec![("$version".to_string(), Variable::Version), ("$changelog".to_string(), Variable::ChangelogEntry)];
                assert(variables_view(v@) =~= default_variables());
                v
            },
        };
        Template { template, variables }
    }

    /// The template with each variable whose name it holds replaced by the value
    /// that `lookup` gives for it, variable by variable; a variable whose name is
    /// not there is not looked up. The first error of `lookup` is returned.
    pub fn replace_variables<Lookup, Error>(&self, lookup: Lookup) -> (r: Result<String, Error>)
        where
            Lookup: Fn(Variable) -> Result<String, Error>,
        requires
            forall|v: Variable| call_requires(lookup, (v,)),
        ensures
            r matches Ok(s) ==> exists|values: Seq<Seq<char>>|
                {
                    &&& values.len() == self.variables@.len()
                    &&& s@ == #[trigger] filled(self.template@, variables_view(self.variables@), values)
                    &&& forall|i: int|
                        0 <= i < values.len() && looked_up(self.template@, variables_view(self.variables@), values, i)
                            ==> gave(lookup, self.variables@[i].1, #[trigger] values[i])
                },
        r matches Err(e) ==> exists|values: Seq<Seq<char>>|
            #[trigger] failed_at(self.template@, self.variables@, lookup, values, e),
    {
        let ghost vars = variables_view(self.variables@);
        let ghost mut values: Seq<Seq<char>> = seq![];
        let mut res: Vec<char> = chars_of(self.template.as_str());
        let mut i: usize = 0;
        while i < self.variables.len()
            invariant
                i <= self.variables.len(),
                vars == variables_view(self.variables@),
                forall|v: Variable| call_requires(lookup, (v,)),
                values.len() == i,
                res@ == filled(self.template@, vars.take(i as int), values),
                forall|k: int|
                    0 <= k < i && looked_up(self.template@, vars.take(i as int), values, k) ==> gave(
                        lookup,
                        self.variables@[k].1,
                        #[trigger] values[k],
                    ),
            decreases self.variables.len() - i,
        {
            let name = chars_of(self.variables[i].0.as_str());
            let ghost prev = values;
            assert(vars.take(i + 1int).drop_last() =~= vars.take(i as int));
            assert(vars[i as int] == (self.variables@[i as int].0@, self.variables@[i as int].1));
            if contains_exec(&res, &name) {
                let value = match lookup(self.variables[i].1) {
                    Ok(v) => v,
                    Err(e) => {
                        assert(failed_at(self.template@, self.variables@, lookup, values, e));
                        return Err(e);
                    },
                };
                let vc = chars_of(value.as_str());
                res = string_replace(&res, &name, &vc);
                proof {
                    values = values.push(value@);
                    assert(gave(lookup, self.variables@[i as int].1, value@));
                }
            } else {
                proof {
                    values = values.push(seq![]);
                }
            }
            assert(values.drop_last() =~= prev);
            assert forall|k: int|
                0 <= k < i + 1 && looked_up(self.template@, vars.take(i + 1int), values, k) implies gave(
                lookup,
                self.variables@[k].1,
                #[trigger] values[k],
            ) by {
                if k < i {
                    assert(vars.take(i + 1int).take(k) =~= vars.take(i as int).take(k));
                    assert(values.take(k) =~= prev.take(k));
                    assert(looked_up(self.template@, vars.take(i as int), prev, k));
                } else {
                    assert(vars.take(i + 1int).take(k) =~= vars.take(i as int));
                    assert(values.take(k) =~= prev);
                }
            }
            i = i + 1;
        }
        assert(vars.take(i as int) =~= vars);
        proof {
            assert forall|k: int|
                0 <= k < values.len() && looked_up(self.template@, vars, values, k) implies gave(
                lookup,
                self.variables@[k].1,
                #[trigger] values[k],
            ) by {
                assert(looked_up(self.template@, vars.take(i as int), values, k));
            }
        }
        Ok(string_of(&res))
    }
}

/// `str::replace` of a name found in the text.
fn string_replace(s: &Vec<char>, pat: &Vec<char>, rep: &Vec<char>) -> (r: Vec<char>)
    requires
        contains_sub(s@, pat@),
    ensures
        r@ == str_replace(s@, pat@, rep@),
{
    if pat.len() == 0 {
        let full = string_of(s);
        let p = string_of(pat);
        let q = string_of(rep);
        let out = crate::pattern::replace_in_match(full.as_str(), Some(p.as_str()), q.as_str());
        chars_of(out.as_str())
    } else {
        replace_exec(s, pat, rep)
    }
}

/// A versioned file as the configuration names it: a path, or a path and the
/// dependency within it whose version is set.
#[derive(Clone, Debug, PartialEq, Eq)]
pub enum VersionedFile {
    Simple(String),
    Dependency { path: String, dependency: String },
}

impl VersionedFile {
    /// How the configuration names a file: with its dependency, if it has one.
    pub fn from_config(config: FileConfig) -> (r: VersionedFile)
        ensures
            r == match config.dependency {
                Some(d) => VersionedFile::Dependency { path: config.path, dependency: d },
                None => VersionedFile::Simple(config.path),
            },
    {
        match config.dependency {
            Some(dependency) => VersionedFile::Dependency { path: config.path, dependency },
            None => VersionedFile::Simple(config.path),
        }
    }

    /// The configuration of the file: its type comes from its file name.
    pub fn into_config(self) -> (r: Result<FileConfig, UnknownFile>)
        ensures
            ({
                let (path, dependency) = match self {
                    VersionedFile::Simple(p) => (p, None::<String>),
                    VersionedFile::Dependency { path, dependency } => (path, Some(dependency)),
                };
                match rel_file_name(path@) {
                    None => r matches Err(u) && u.path@ == path@,
                    Some(name) => match crate::versioned_file::format_of_name(crate::versioned_file::file_names(), name) {
                        None => r matches Err(u) && u.path@ == path@,
                        Some(f) => r matches Ok(c) && c.path@ == path@ && c.format == f && c.dependency == dependency
                            && c.regex is None,
                    },
                }
            }),
    {
        let (path, dependency) = match self {
            VersionedFile::Simple(p) => (p, None),
            VersionedFile::Dependency { path, dependency } => (path, Some(dependency)),
        };
        match FileConfig::new(path, dependency, None) {
            Ok(c) => Ok(c),
            Err(ConfigError::UnknownFile(u)) => Err(u),
            Err(ConfigError::ConflictingOptions(c)) => Err(UnknownFile { path: c.path }),
        }
    }
}

impl From<FileConfig> for VersionedFile {
    fn from(config: FileConfig) -> (r: Self) {
        VersionedFile::from_config(config)
    }
}

/// `VersionedFile::from_config` states what this conversion gives.
impl vstd::std_specs::convert::FromSpecImpl<FileConfig> for VersionedFile {
    open spec fn obeys_from_spec() -> bool {
        true
    }

    open spec fn from_spec(config: FileConfig) -> VersionedFile {
        match config.dependency {
            Some(d) => VersionedFile::Dependency { path: config.path, dependency: d },
            None => VersionedFile::Simple(config.path),
        }
    }
}

/// The assets to upload with a release: a glob pattern, or a list.
#[derive(Clone, Debug, PartialEq, Eq)]
pub enum Assets {
    Glob(String),
    List(Vec<Asset>),
}

/// An asset to upload with a release: its path, and the name it is uploaded by.
#[derive(Clone, Debug, PartialEq, Eq)]
pub struct Asset {
    pub path: String,
    pub name: Option<String>,
}

/// `No asset name set, and name could not be determined from path {path}`
#[derive(Debug)]
pub struct AssetNameError {
    pub path: String,
}

impl Asset {
    /// The name of the asset: the one set, else the file name of its path.
    pub fn name(&self) -> (r: Result<String, AssetNameError>)
        ensures
            match self.name {
                Some(n) => r matches Ok(s) && s@ == n@,
                None => match rel_file_name(self.path@) {
                    Some(f) => r matches Ok(s) && s@ == f,
                    None => r matches Err(e) && e.path@ == self.path@,
                },
            },
    {
        match &self.name {
            Some(n) => Ok(n.clone()),
            None => match path_file_name(self.path.as_str()) {
                Some(f) => Ok(f),
                None => Err(AssetNameError { path: self.path.clone() }),
            },
        }
    }
}

/// A package as the configuration file describes it.
#[derive(Clone, Debug, Default, PartialEq, Eq)]
pub struct Package {
    /// The files which define the current version of the package.
    pub versioned_files: Vec<VersionedFile>,
    /// The changelog to update when preparing a release, if any.
    pub changelog: Option<String>,
    /// Scopes by which commits are filtered, if any.
    pub scopes: Option<Vec<String>>,
    /// Extra sections of the changelog, for custom footers and change types.
    pub extra_changelog_sections: Vec<ChangelogSection>,
    /// The assets, if any, to upload with each release.
    pub assets: Option<Assets>,
    pub ignore_go_major_versioning: bool,
}

/// How release notes are written.
#[derive(Clone, Debug, Default)]
pub struct ReleaseNotes {
    pub change_templates: Vec<ChangeTemplate>,
}

/// The parts of the configuration file that apply to all packages.
#[derive(Debug, Default)]
pub struct Config {
    pub release_notes: Option<ReleaseNotes>,
    pub changes: Option<Changes>,
}

} // verus!
