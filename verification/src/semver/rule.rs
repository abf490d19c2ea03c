//! The rules by which a version is bumped.
use vstd::prelude::*;

use super::Label;
use crate::changes::{Change, ChangeType, ChangeTypeView, ChangeView};

verus! {

/// The rules that only apply to stable versions (no pre-releases).
/// Ordered `Patch < Minor < Major`.
#[derive(Clone, Copy, Debug, PartialEq, Eq, Structural)]
pub enum Stable {
    Major,
    Minor,
    Patch,
}

impl Default for Stable {
    fn default() -> (r: Self)
        ensures
            r == Stable::Patch,
    {
        Stable::Patch
    }
}

/// The position of a rule in the order `Patch < Minor < Major`.
pub open spec fn stable_rank(r: Stable) -> int {
    match r {
        Stable::Patch => 0,
        Stable::Minor => 1,
        Stable::Major => 2,
    }
}

impl Stable {
    /// Whether `self` comes before `other` in the order `Patch < Minor < Major`.
    pub fn is_less_than(self, other: Stable) -> (r: bool)
        ensures
            r == (stable_rank(self) < stable_rank(other)),
    {
        match (self, other) {
            (Stable::Patch, Stable::Minor) | (Stable::Patch, Stable::Major) | (
                Stable::Minor,
                Stable::Major,
            ) => true,
            _ => false,
        }
    }

    /// The greater of two rules.
    pub fn max(self, other: Stable) -> (r: Stable)
        ensures
            stable_rank(r) == if stable_rank(self) < stable_rank(other) {
                stable_rank(other)
            } else {
                stable_rank(self)
            },
            r == self || r == other,
    {
        if self.is_less_than(other) {
            other
        } else {
            self
        }
    }

    /// The name of the rule, as `Display` prints it.
    pub fn to_string(&self) -> (s: String)
        ensures
            s@ == stable_rule_name(*self),
    {
        match self {
            Stable::Major => "MAJOR".to_string(),
            Stable::Minor => "MINOR".to_string(),
            Stable::Patch => "PATCH".to_string(),
        }
    }
}

/// The rule a kind of change implies: breaking is major, a feature is minor,
/// anything else is a patch.
pub open spec fn rule_of_change_type(t: ChangeTypeView) -> Stable {
    match t {
        ChangeTypeView::Breaking => Stable::Major,
        ChangeTypeView::Feature => Stable::Minor,
        _ => Stable::Patch,
    }
}

pub open spec fn max_rule(a: Stable, b: Stable) -> Stable {
    if stable_rank(a) < stable_rank(b) {
        b
    } else {
        a
    }
}

/// The greatest rule that the changes imply, or `Patch` if there are none.
pub open spec fn rule_for_changes(changes: Seq<ChangeView>) -> Stable
    decreases changes.len(),
{
    if changes.len() == 0 {
        Stable::Patch
    } else {
        max_rule(rule_for_changes(changes.drop_last()), rule_of_change_type(changes.last().change_type))
    }
}

/// Only a breaking change implies a major bump and only a feature a minor one;
/// every other kind of change (a fix, a custom change type, a commit footer)
/// implies a patch.
pub proof fn lemma_rule_of_each_change_type(t: ChangeTypeView)
    ensures
        (rule_of_change_type(t) == Stable::Major) <==> (t is Breaking),
        (rule_of_change_type(t) == Stable::Minor) <==> (t is Feature),
        (rule_of_change_type(t) == Stable::Patch) <==> !(t is Breaking || t is Feature),
{
}

/// The rule for changes from two sources together, such as conventional commits
/// and change files, is the greater of the rules for each: it does not matter
/// where a change comes from or in which order the changes come.
pub proof fn lemma_rule_for_combined_changes(a: Seq<ChangeView>, b: Seq<ChangeView>)
    ensures
        rule_for_changes(a + b) == max_rule(rule_for_changes(a), rule_for_changes(b)),
        rule_for_changes(a + b) == rule_for_changes(b + a),
{
    lemma_rule_for_appended(a, b);
    lemma_rule_for_appended(b, a);
}

/// The rule for a list of changes is the highest that any of them implies
/// (Major over Minor over Patch), and Patch for no changes.
pub proof fn lemma_rule_is_greatest(changes: Seq<ChangeView>)
    ensures
        forall|i: int|
            0 <= i < changes.len() ==> stable_rank(rule_of_change_type(#[trigger] changes[i].change_type)) <= stable_rank(
                rule_for_changes(changes),
            ),
        changes.len() == 0 ==> rule_for_changes(changes) == Stable::Patch,
        changes.len() > 0 ==> exists|i: int|
            0 <= i < changes.len() && rule_for_changes(changes) == rule_of_change_type(#[trigger] changes[i].change_type),
    decreases changes.len(),
{
    if changes.len() > 0 {
        let rest = changes.drop_last();
        lemma_rule_is_greatest(rest);
        assert forall|i: int| 0 <= i < rest.len() implies rest[i] == changes[i] by {}
        let n = changes.len() - 1;
        if rest.len() > 0 {
            let j = choose|j: int| 0 <= j < rest.len() && rule_for_changes(rest) == rule_of_change_type(#[trigger] rest[j].change_type);
            assert(rest[j] == changes[j]);
            if rule_for_changes(changes) == rule_for_changes(rest) {
                assert(rule_for_changes(changes) == rule_of_change_type(changes[j].change_type));
            } else {
                assert(rule_for_changes(changes) == rule_of_change_type(changes[n].change_type));
            }
        } else {
            assert(rule_for_changes(rest) == Stable::Patch);
            assert(rule_for_changes(changes) == rule_of_change_type(changes[n].change_type));
        }
    }
}

proof fn lemma_rule_for_appended(a: Seq<ChangeView>, b: Seq<ChangeView>)
    ensures
        rule_for_changes(a + b) == max_rule(rule_for_changes(a), rule_for_changes(b)),
    decreases b.len(),
{
    if b.len() == 0 {
        assert(a + b =~= a);
    } else {
        assert((a + b).drop_last() =~= a + b.drop_last());
        lemma_rule_for_appended(a, b.drop_last());
    }
}

impl Stable {
    /// The rule a kind of change implies.
    pub fn from_change_type(value: &ChangeType) -> (r: Stable)
        ensures
            r == rule_of_change_type(value@),
    {
        match value {
            ChangeType::Feature => Stable::Minor,
            ChangeType::Breaking => Stable::Major,
            ChangeType::Custom(_) | ChangeType::Fix => Stable::Patch,
        }
    }

    /// The greatest rule that the changes imply, or `Patch` if there are none.
    pub fn from_changes(changes: &[Change]) -> (r: Stable)
        ensures
            r == rule_for_changes(changes@.map_values(|c: Change| c@)),
    {
        let ghost cv = changes@.map_values(|c: Change| c@);
        let mut rule = Stable::Patch;
        let mut i: usize = 0;
        while i < changes.len()
            invariant
                i <= changes.len(),
                cv == changes@.map_values(|c: Change| c@),
                rule == rule_for_changes(cv.take(i as int)),
            decreases changes.len() - i,
        {
            assert(cv.take(i + 1).drop_last() =~= cv.take(i as int));
            assert(cv.take(i + 1).last() == changes@[i as int]@);
            rule = rule.max(Stable::from_change_type(&changes[i].change_type));
            i = i + 1;
        }
        assert(cv.take(i as int) =~= cv);
        rule
    }
}

pub open spec fn stable_rule_name(r: Stable) -> Seq<char> {
    match r {
        Stable::Major => "MAJOR"@,
        Stable::Minor => "MINOR"@,
        Stable::Patch => "PATCH"@,
    }
}

/// The various rules that can be used when bumping semantic versions.
#[derive(Clone, Debug, PartialEq, Eq)]
pub enum Rule {
    Stable(Stable),
    Pre { label: Label, stable_rule: Stable },
    Release,
}

/// The mathematical value of a [`Rule`].
pub enum RuleView {
    Stable(Stable),
    Pre(Seq<char>, Stable),
    Release,
}

impl View for Rule {
    type V = RuleView;

    open spec fn view(&self) -> RuleView {
        match self {
            Rule::Stable(s) => RuleView::Stable(*s),
            Rule::Pre { label, stable_rule } => RuleView::Pre(label@, *stable_rule),
            Rule::Release => RuleView::Release,
        }
    }
}

impl From<Stable> for Rule {
    fn from(rule: Stable) -> Self {
        Rule::Stable(rule)
    }
}

impl vstd::std_specs::convert::FromSpecImpl<Stable> for Rule {
    open spec fn obeys_from_spec() -> bool {
        true
    }

    open spec fn from_spec(v: Stable) -> Rule {
        Rule::Stable(v)
    }
}

} // verus!
