//! Which changes go into which section of the release notes.
use vstd::prelude::*;

use crate::changes::conventional_commit::{footer_token_eq, footer_token_is};
use crate::changes::{ChangeType, ChangeTypeView};
use crate::text::string_of;

verus! {

/// The title of a section of release notes.
#[derive(Clone, Debug, PartialEq, Eq)]
pub struct SectionName(pub String);

/// The token of a commit footer whose changes get a section.
#[derive(Clone, Debug, PartialEq, Eq, Hash)]
pub struct CommitFooter(pub String);

/// A change type named in change files, beyond major, minor and patch.
#[derive(Clone, Debug, PartialEq, Eq, Hash)]
pub struct CustomChangeType(pub String);

/// Where the changes of a custom section come from.
#[derive(Clone, Debug, PartialEq, Eq, Hash)]
pub enum SectionSource {
    CommitFooter(CommitFooter),
    CustomChangeType(CustomChangeType),
}

impl View for SectionName {
    type V = Seq<char>;

    open spec fn view(&self) -> Seq<char> {
        self.0@
    }
}

impl SectionName {
    pub fn from_text(s: &str) -> (r: SectionName)
        ensures
            r@ == s@,
    {
        SectionName(s.to_string())
    }

    pub fn duplicate(&self) -> (r: SectionName)
        ensures
            r@ == self@,
    {
        SectionName(self.0.clone())
    }

    pub fn as_str(&self) -> (r: &str)
        ensures
            r@ == self@,
    {
        self.0.as_str()
    }
}

impl<'a> From<&'a str> for SectionName {
    fn from(s: &'a str) -> Self {
        SectionName::from_text(s)
    }
}

/// `SectionName::from_text` states what this conversion gives.
impl<'a> vstd::std_specs::convert::FromSpecImpl<&'a str> for SectionName {
    open spec fn obeys_from_spec() -> bool {
        false
    }

    open spec fn from_spec(v: &'a str) -> SectionName {
        arbitrary()
    }
}

impl<'a> From<&'a str> for CommitFooter {
    fn from(s: &'a str) -> Self {
        CommitFooter(s.to_string())
    }
}

/// Nothing is claimed of this conversion; `CommitFooter(s.to_string())` is all it does.
impl<'a> vstd::std_specs::convert::FromSpecImpl<&'a str> for CommitFooter {
    open spec fn obeys_from_spec() -> bool {
        false
    }

    open spec fn from_spec(v: &'a str) -> CommitFooter {
        arbitrary()
    }
}

impl<'a> From<&'a str> for CustomChangeType {
    fn from(s: &'a str) -> Self {
        CustomChangeType(s.to_string())
    }
}

/// Nothing is claimed of this conversion; `CustomChangeType(s.to_string())` is all it does.
impl<'a> vstd::std_specs::convert::FromSpecImpl<&'a str> for CustomChangeType {
    open spec fn obeys_from_spec() -> bool {
        false
    }

    open spec fn from_spec(v: &'a str) -> CustomChangeType {
        arbitrary()
    }
}

/// The sections of release notes, in order, each with the change types it collects.
#[derive(Clone, Debug, PartialEq, Eq)]
pub struct Sections(pub Vec<(SectionName, Vec<ChangeType>)>);

pub open spec fn types_view(v: Seq<ChangeType>) -> Seq<ChangeTypeView> {
    v.map_values(|t: ChangeType| t@)
}

pub open spec fn sections_view(v: Seq<(SectionName, Vec<ChangeType>)>) -> Seq<(Seq<char>, Seq<ChangeTypeView>)> {
    v.map_values(|e: (SectionName, Vec<ChangeType>)| (e.0@, types_view(e.1@)))
}

impl View for Sections {
    type V = Seq<(Seq<char>, Seq<ChangeTypeView>)>;

    open spec fn view(&self) -> Seq<(Seq<char>, Seq<ChangeTypeView>)> {
        sections_view(self.0@)
    }
}

/// The built-in sections: breaking changes, features, fixes.
pub open spec fn default_sections() -> Seq<(Seq<char>, ChangeTypeView)> {
    seq![
        ("Breaking Changes"@, ChangeTypeView::Breaking),
        ("Features"@, ChangeTypeView::Feature),
        ("Fixes"@, ChangeTypeView::Fix),
    ]
}

/// `t` is a footer whose token matches `token`.
pub open spec fn is_matching_footer(t: ChangeTypeView, token: Seq<char>) -> bool {
    match t {
        ChangeTypeView::Footer(f) => footer_token_eq(f, token),
        _ => false,
    }
}

/// Some section collects a footer whose token matches `token`.
pub open spec fn contains_footer_spec(sections: Seq<(Seq<char>, Seq<ChangeTypeView>)>, token: Seq<char>) -> bool {
    exists|i: int, j: int|
        0 <= i < sections.len() && 0 <= j < sections[i].1.len() && is_matching_footer(
            #[trigger] sections[i].1[j],
            token,
        )
}

impl Sections {
    /// The built-in sections, each with its single change type.
    pub fn defaults() -> (r: Vec<(SectionName, ChangeType)>)
        ensures
            r@.map_values(|e: (SectionName, ChangeType)| (e.0@, e.1@)) == default_sections(),
    {
        let r = vec![
            (SectionName::from_text("Breaking Changes"), ChangeType::Breaking),
            (SectionName::from_text("Features"), ChangeType::Feature),
            (SectionName::from_text("Fixes"), ChangeType::Fix),
        ];
        assert(r@.map_values(|e: (SectionName, ChangeType)| (e.0@, e.1@)) =~= default_sections());
        r
    }

    /// Whether some section collects the footer `token`, matched as `git_conventional`
    /// matches footer tokens.
    pub fn contains_footer(&self, token: &str) -> (r: bool)
        ensures
            r == contains_footer_spec(self@, token@),
    {
        let mut i: usize = 0;
        while i < self.0.len()
            invariant
                i <= self.0.len(),
                forall|a: int, b: int|
                    0 <= a < i && 0 <= b < self@[a].1.len() ==> !is_matching_footer(#[trigger] self@[a].1[b], token@),
            decreases self.0.len() - i,
        {
            let sources = &self.0[i].1;
            let mut j: usize = 0;
            while j < sources.len()
                invariant
                    i < self.0.len(),
                    sources == &self.0@[i as int].1,
                    j <= sources.len(),
                    forall|a: int, b: int|
                        0 <= a < i && 0 <= b < self@[a].1.len() ==> !is_matching_footer(#[trigger] self@[a].1[b], token@),
                    forall|b: int|
                        0 <= b < j ==> !is_matching_footer(#[trigger] self@[i as int].1[b], token@),
                decreases sources.len() - j,
            {
                assert(self@[i as int].1[j as int] == sources@[j as int]@);
                if let ChangeType::Custom(SectionSource::CommitFooter(footer)) = &sources[j] {
                    if footer_token_is(footer.0.as_str(), token) {
                        return true;
                    }
                }
                j = j + 1;
            }
            i = i + 1;
        }
        false
    }
}

impl Default for Sections {
    fn default() -> (r: Self)
        ensures
            r@ == default_sections().map_values(|e: (Seq<char>, ChangeTypeView)| (e.0, seq![e.1])),
    {
        let r = Sections(
            vec![
                (SectionName::from_text("Breaking Changes"), vec![ChangeType::Breaking]),
                (SectionName::from_text("Features"), vec![ChangeType::Feature]),
                (SectionName::from_text("Fixes"), vec![ChangeType::Fix]),
            ],
        );
        assert(types_view(r.0@[0].1@) =~= seq![ChangeTypeView::Breaking]);
        assert(types_view(r.0@[1].1@) =~= seq![ChangeTypeView::Feature]);
        assert(types_view(r.0@[2].1@) =~= seq![ChangeTypeView::Fix]);
        assert(r@ =~= default_sections().map_values(|e: (Seq<char>, ChangeTypeView)| (e.0, seq![e.1])));
        r
    }
}

} // verus!
