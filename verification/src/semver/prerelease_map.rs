//! The pre-releases recorded for one stable version, one per label, in label order.
use vstd::prelude::*;

use super::precedence::{label_lt, label_relation, lemma_label_total, lemma_label_transitive};
use super::{Label, Prerelease};
use crate::sorted_map::{
    assoc, is_max_key, lemma_assoc_index, lemma_assoc_insert, lemma_assoc_last_max,
    lemma_assoc_set, lemma_assoc_single, max_key, strict_total, strictly_sorted,
};

verus! {

/// Labels ordered as strings are.
pub open spec fn label_order() -> spec_fn(Seq<char>, Seq<char>) -> bool {
    |a: Seq<char>, b: Seq<char>| label_lt(a, b)
}

/// Label order is a strict total order.
pub proof fn lemma_label_order()
    ensures
        strict_total(label_order()),
{
    assert forall|a: Seq<char>| !#[trigger] label_order()(a, a) by {
        lemma_label_total(a, a);
    }
    assert forall|a: Seq<char>, b: Seq<char>, c: Seq<char>|
        #[trigger] label_order()(a, b) && #[trigger] label_order()(b, c) implies label_order()(a, c) by {
        lemma_label_transitive(a, b, c);
    }
    assert forall|a: Seq<char>, b: Seq<char>|
        #[trigger] label_order()(a, b) || label_order()(b, a) || a == b by {
        lemma_label_total(a, b);
    }
}

/// The pre-releases of one stable version, keyed by label. Never empty.
#[derive(Clone, Debug, PartialEq, Eq)]
pub struct PrereleaseMap {
    entries: Vec<Prerelease>,
}

pub open spec fn prerelease_pairs(s: Seq<Prerelease>) -> Seq<(Seq<char>, u64)> {
    s.map_values(|p: Prerelease| (p.label@, p.version))
}

impl PrereleaseMap {
    /// The entries as (label, number) pairs, in order.
    pub closed spec fn pairs(self) -> Seq<(Seq<char>, u64)> {
        prerelease_pairs(self.entries@)
    }

    /// Not empty, and labels strictly increasing.
    pub closed spec fn wf(self) -> bool {
        &&& self.entries.len() > 0
        &&& strictly_sorted(self.pairs(), label_order())
    }

    /// A map holding one pre-release.
    pub fn new(prerelease: Prerelease) -> (r: Self)
        ensures
            r.wf(),
            r@ == map![prerelease.label@ => prerelease.version],
    {
        let ghost key = prerelease.label@;
        let ghost num = prerelease.version;
        let mut entries: Vec<Prerelease> = Vec::new();
        entries.push(prerelease);
        let r = PrereleaseMap { entries };
        proof {
            assert(r.pairs() =~= seq![(key, num)]);
            lemma_assoc_single(key, num);
        }
        r
    }

    /// The pre-release with the greatest label.
    pub fn last(&self) -> (r: &Prerelease)
        requires
            self.wf(),
        ensures
            r.label@ == max_key(self@, label_order()),
            is_max_key(self@, r.label@, label_order()),
            self@[r.label@] == r.version,
    {
        proof {
            lemma_label_order();
            lemma_assoc_last_max(self.pairs(), label_order());
        }
        let n = self.entries.len() - 1;
        &self.entries[n]
    }

    /// The pre-release with label `key`, if any.
    pub fn get(&self, key: &Label) -> (r: Option<&Prerelease>)
        requires
            self.wf(),
        ensures
            r matches Some(p) ==> self@.contains_key(key@) && p.label@ == key@ && p.version
                == self@[key@],
            r is None ==> !self@.contains_key(key@),
    {
        proof {
            lemma_label_order();
        }
        let mut i: usize = 0;
        while i < self.entries.len()
            invariant
                self.wf(),
                strict_total(label_order()),
                i <= self.entries.len(),
                forall|j: int| 0 <= j < i ==> self.entries@[j].label@ != key@,
            decreases self.entries.len() - i,
        {
            let (_, eq) = label_relation(&self.entries[i].label, key);
            if eq {
                proof {
                    assert(self.pairs()[i as int] == (self.entries@[i as int].label@, self.entries@[i as int].version));
                    lemma_assoc_index(self.pairs(), label_order(), i as int);
                }
                return Some(&self.entries[i]);
            }
            i = i + 1;
        }
        proof {
            if self@.contains_key(key@) {
                let j = choose|j: int| 0 <= j < self.pairs().len() && self.pairs()[j].0 == key@;
                assert(self.pairs()[j].0 == self.entries@[j].label@);
            }
        }
        None
    }

    /// Records `prerelease`, replacing any with the same label.
    pub fn insert(&mut self, prerelease: Prerelease)
        requires
            old(self).wf(),
        ensures
            final(self).wf(),
            final(self)@ == old(self)@.insert(prerelease.label@, prerelease.version),
    {
        proof {
            lemma_label_order();
        }
        let ghost s = self.pairs();
        let ghost key = prerelease.label@;
        let ghost num = prerelease.version;
        let mut i: usize = 0;
        let mut found = false;
        while i < self.entries.len()
            invariant_except_break
                !found,
            invariant
                self.wf(),
                s == self.pairs(),
                key == prerelease.label@,
                i <= self.entries.len(),
                strict_total(label_order()),
                forall|j: int| 0 <= j < i ==> label_lt(#[trigger] s[j].0, key),
            ensures
                i <= self.entries.len(),
                found ==> i < self.entries.len() && s[i as int].0 == key,
                !found ==> i == self.entries.len() || label_lt(key, s[i as int].0),
            decreases self.entries.len() - i,
        {
            let (lt, eq) = label_relation(&self.entries[i].label, &prerelease.label);
            assert(s[i as int].0 == self.entries@[i as int].label@);
            if eq {
                found = true;
                break;
            }
            if !lt {
                proof {
                    lemma_label_total(s[i as int].0, key);
                }
                break;
            }
            i = i + 1;
        }
        if found {
            proof {
                lemma_assoc_set(s, label_order(), i as int, num);
            }
            self.entries.set(i, prerelease);
            assert(self.pairs() =~= s.update(i as int, (s[i as int].0, num)));
        } else {
            proof {
                assert forall|j: int| i <= j < s.len() implies label_lt(key, #[trigger] s[j].0) by {
                    if j > i {
                        assert(label_lt(s[i as int].0, s[j].0));
                        lemma_label_transitive(key, s[i as int].0, s[j].0);
                    }
                }
                lemma_assoc_insert(s, label_order(), i as int, key, num);
            }
            self.entries.insert(i, prerelease);
            assert(self.pairs() =~= s.insert(i as int, (key, num)));
        }
    }
}

/// The map that `PrereleaseMap::new` of `first` followed by `insert` of each of
/// `inserted`, in order, describes (by `new`'s and `insert`'s contracts).
pub open spec fn built(first: (Seq<char>, u64), inserted: Seq<(Seq<char>, u64)>) -> Map<Seq<char>, u64>
    decreases inserted.len(),
{
    if inserted.len() == 0 {
        map![first.0 => first.1]
    } else {
        built(first, inserted.drop_last()).insert(inserted.last().0, inserted.last().1)
    }
}

/// The number of the pre-release last recorded with label `label`, if any.
pub open spec fn latest_for(first: (Seq<char>, u64), inserted: Seq<(Seq<char>, u64)>, label: Seq<char>) -> Option<u64>
    decreases inserted.len(),
{
    if inserted.len() == 0 {
        if first.0 == label {
            Some(first.1)
        } else {
            None
        }
    } else if inserted.last().0 == label {
        Some(inserted.last().1)
    } else {
        latest_for(first, inserted.drop_last(), label)
    }
}

/// A map made by `new` and any number of `insert`s is never empty (so `last`
/// has something to give), and under each label it holds the pre-release
/// recorded last with that label.
pub proof fn lemma_built_map(first: (Seq<char>, u64), inserted: Seq<(Seq<char>, u64)>, label: Seq<char>)
    ensures
        built(first, inserted).dom().finite(),
        built(first, inserted).contains_key(first.0),
        built(first, inserted).contains_key(label) <==> latest_for(first, inserted, label) is Some,
        built(first, inserted).contains_key(label) ==> latest_for(first, inserted, label) == Some(
            built(first, inserted)[label],
        ),
    decreases inserted.len(),
{
    if inserted.len() > 0 {
        lemma_built_map(first, inserted.drop_last(), label);
        lemma_built_map(first, inserted.drop_last(), first.0);
    } else {
        assert(map![first.0 => first.1].dom() =~= set![first.0]);
    }
}

impl View for PrereleaseMap {
    type V = Map<Seq<char>, u64>;

    closed spec fn view(&self) -> Map<Seq<char>, u64> {
        assoc(self.pairs())
    }
}

} // verus!
