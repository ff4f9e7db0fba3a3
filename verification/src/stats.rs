//! A counter of labelled occurrences.
//!
//! The model of a counter is its tally: the labels it has seen, each once, in
//! the order in which they first came, every one with its signed count.

use crate::text::{decimal, decimal_string, join, joined, str_eq};
use vstd::prelude::*;
use vstd::string::StringExecFns;

verus! {

/// Whether `label` occurs in the tally.
pub open spec fn has_label(t: Seq<(Seq<char>, int)>, label: Seq<char>) -> bool {
    exists|i: int| 0 <= i < t.len() && (#[trigger] t[i]).0 == label
}

/// A place at which `label` occurs in the tally, if it occurs.
pub open spec fn label_index(t: Seq<(Seq<char>, int)>, label: Seq<char>) -> int {
    choose|i: int| 0 <= i < t.len() && (#[trigger] t[i]).0 == label
}

/// No label occurs twice.
pub open spec fn distinct_labels(t: Seq<(Seq<char>, int)>) -> bool {
    forall|i: int, j: int| 0 <= i < j < t.len() ==> (#[trigger] t[i]).0 != (#[trigger] t[j]).0
}

/// The count that the tally holds for `label`; zero for a label it has not seen.
pub open spec fn count_of(t: Seq<(Seq<char>, int)>, label: Seq<char>) -> int {
    if has_label(t, label) {
        t[label_index(t, label)].1
    } else {
        0
    }
}

/// The tally after `v` was added to the count of `label`: a label that is
/// there keeps its place, a new one goes to the end.
pub open spec fn tally_add(t: Seq<(Seq<char>, int)>, label: Seq<char>, v: int) -> Seq<
    (Seq<char>, int),
> {
    if has_label(t, label) {
        let i = label_index(t, label);
        t.update(i, (label, t[i].1 + v))
    } else {
        t.push((label, v))
    }
}

/// The sum of all counts.
pub open spec fn tally_total(t: Seq<(Seq<char>, int)>) -> int
    decreases t.len(),
{
    if t.len() == 0 {
        0
    } else {
        tally_total(t.drop_last()) + t.last().1
    }
}

/// How one entry is shown: the label, a colon, a blank and the count.
pub open spec fn shown_entry(label: Seq<char>, count: int) -> Seq<char> {
    label + ": "@ + decimal(count as nat)
}

/// The entries that are shown, in order: those with a positive count.
pub open spec fn shown(t: Seq<(Seq<char>, int)>) -> Seq<Seq<char>>
    decreases t.len(),
{
    if t.len() == 0 {
        Seq::empty()
    } else if t.last().1 > 0 {
        shown(t.drop_last()).push(shown_entry(t.last().0, t.last().1))
    } else {
        shown(t.drop_last())
    }
}

/// The text of a tally: its shown entries, joined by a comma and a blank.
pub open spec fn tally_text(t: Seq<(Seq<char>, int)>) -> Seq<char> {
    joined(shown(t), ", "@)
}

/// Adding to one label changes the count of that label by what was added and
/// the count of no other label, and no label comes to stand twice. So adding
/// `v` and then `-v` to a label leaves every count as it was.
pub proof fn lemma_add_count(t: Seq<(Seq<char>, int)>, label: Seq<char>, v: int, other: Seq<char>)
    requires
        distinct_labels(t),
    ensures
        distinct_labels(tally_add(t, label, v)),
        has_label(tally_add(t, label, v), other) == (has_label(t, other) || other == label),
        count_of(tally_add(t, label, v), other) == count_of(t, other) + if other == label {
            v
        } else {
            0
        },
{
    let u = tally_add(t, label, v);
    if has_label(t, label) {
        let i = label_index(t, label);
        assert(u.len() == t.len());
        assert forall|j: int| 0 <= j < t.len() implies (#[trigger] u[j]).0 == t[j].0 by {}
        assert(u[i].0 == label);
        if has_label(t, other) {
            let j = label_index(t, other);
            assert(u[j].0 == other);
            assert(has_label(u, other));
            let k = label_index(u, other);
            assert(t[k].0 == u[k].0);
            assert(k == j);
        } else {
            if has_label(u, other) {
                let k = label_index(u, other);
                assert(t[k].0 == other);
                assert(false);
            }
        }
    } else {
        let n = t.len() as int;
        assert(u.len() == n + 1);
        assert(u[n].0 == label);
        assert forall|j: int| 0 <= j < n implies (#[trigger] u[j]) == t[j] by {}
        assert forall|a: int, b: int| 0 <= a < b < u.len() implies (#[trigger] u[a]).0 != (
        #[trigger] u[b]).0 by {
            if b == n {
                assert(t[a].0 != label);
            } else {
                assert(t[a].0 != t[b].0);
            }
        }
        if other == label {
            assert(has_label(u, other));
            let k = label_index(u, other);
            if k < n {
                assert(t[k].0 == label);
                assert(false);
            }
        } else if has_label(t, other) {
            let j = label_index(t, other);
            assert(u[j].0 == other);
            assert(has_label(u, other));
            let k = label_index(u, other);
            assert(k == j);
        } else {
            if has_label(u, other) {
                let k = label_index(u, other);
                assert(t[k].0 == other);
                assert(false);
            }
        }
    }
}

proof fn lemma_update_total(t: Seq<(Seq<char>, int)>, i: int, e: (Seq<char>, int))
    requires
        0 <= i < t.len(),
    ensures
        tally_total(t.update(i, e)) == tally_total(t) - t[i].1 + e.1,
    decreases t.len(),
{
    let u = t.update(i, e);
    if i == t.len() - 1 {
        assert(u.drop_last() =~= t.drop_last());
    } else {
        assert(u.drop_last() =~= t.drop_last().update(i, e));
        lemma_update_total(t.drop_last(), i, e);
    }
}

/// Adding `v` to any label raises the sum of all counts by `v`.
pub proof fn lemma_add_total(t: Seq<(Seq<char>, int)>, label: Seq<char>, v: int)
    ensures
        tally_total(tally_add(t, label, v)) == tally_total(t) + v,
{
    if has_label(t, label) {
        let i = label_index(t, label);
        lemma_update_total(t, i, (label, t[i].1 + v));
    } else {
        assert(t.push((label, v)).drop_last() =~= t);
    }
}

/// The tally that a list of pairs spells out.
pub open spec fn as_tally(pairs: Seq<(Seq<char>, isize)>) -> Seq<(Seq<char>, int)> {
    Seq::new(pairs.len(), |i: int| (pairs[i].0, pairs[i].1 as int))
}

/// Counts occurrences by label.
#[derive(Debug, PartialEq, Eq)]
pub struct Stats {
    labels: Vec<String>,
    counts: Vec<isize>,
}

impl View for Stats {
    type V = Seq<(Seq<char>, int)>;

    closed spec fn view(&self) -> Seq<(Seq<char>, int)> {
        Seq::new(self.labels@.len(), |i: int| (self.labels@[i]@, self.counts@[i] as int))
    }
}

impl Stats {
    #[verifier::type_invariant]
    spec fn well_formed(&self) -> bool {
        &&& self.labels@.len() == self.counts@.len()
        &&& distinct_labels(self@)
    }

    /// An empty counter.
    pub fn new() -> (s: Self)
        ensures
            s@ == Seq::<(Seq<char>, int)>::empty(),
    {
        let s = Stats { labels: Vec::new(), counts: Vec::new() };
        assert(s@ =~= Seq::<(Seq<char>, int)>::empty());
        s
    }

    /// The number of labels seen, whatever their counts.
    pub fn len(&self) -> (n: usize)
        ensures
            n == self@.len(),
            distinct_labels(self@),
    {
        proof {
            use_type_invariant(self);
        }
        self.labels.len()
    }

    fn find(&self, k: &str) -> (at: Option<usize>)
        ensures
            distinct_labels(self@),
            self.labels@.len() == self.counts@.len(),
            match at {
                Some(i) => i < self@.len() && self@[i as int].0 == k@ && has_label(self@, k@)
                    && label_index(self@, k@) == i,
                None => !has_label(self@, k@),
            },
    {
        proof {
            use_type_invariant(self);
        }
        let mut i: usize = 0;
        while i < self.labels.len()
            invariant
                i <= self.labels@.len(),
                self.labels@.len() == self.counts@.len(),
                distinct_labels(self@),
                forall|j: int| 0 <= j < i ==> (#[trigger] self@[j]).0 != k@,
            decreases self.labels@.len() - i,
        {
            if str_eq(self.labels[i].as_str(), k) {
                assert(self@[i as int].0 == k@);
                return Some(i);
            }
            i += 1;
        }
        None
    }

    /// The count held for `k`; zero for a label never added.
    pub fn count(&self, k: &str) -> (c: isize)
        ensures
            c == count_of(self@, k@),
    {
        match self.find(k) {
            Some(i) => self.counts[i],
            None => 0,
        }
    }

    /// Adds `v`, which may be negative, to the count of `k`.
    pub fn add(&mut self, k: &str, v: isize)
        requires
            isize::MIN <= count_of(old(self)@, k@) + v <= isize::MAX,
        ensures
            final(self)@ == tally_add(old(self)@, k@, v as int),
            distinct_labels(final(self)@),
    {
        let found = self.find(k);
        let mut taken = Stats::new();
        std::mem::swap(&mut taken, self);
        let Stats { mut labels, mut counts } = taken;
        let ghost before = Seq::new(labels@.len(), |i: int| (labels@[i]@, counts@[i] as int));
        match found {
            Some(i) => {
                let c: isize = counts[i];
                counts.set(i, c + v);
            },
            None => {
                labels.push(String::from_str(k));
                counts.push(v);
            },
        }
        let ghost after = Seq::new(labels@.len(), |i: int| (labels@[i]@, counts@[i] as int));
        assert(after =~= tally_add(before, k@, v as int));
        *self = Stats { labels, counts };
    }

    /// The entries in order, each label with its count.
    pub fn entries(&self) -> (all: Vec<(String, isize)>)
        ensures
            as_tally(all.deep_view()) == self@,
            distinct_labels(self@),
    {
        proof {
            use_type_invariant(self);
        }
        let mut all: Vec<(String, isize)> = Vec::new();
        let mut i: usize = 0;
        while i < self.labels.len()
            invariant
                i <= self.labels@.len(),
                self.labels@.len() == self.counts@.len(),
                all@.len() == i,
                as_tally(all.deep_view()) == self@.take(i as int),
            decreases self.labels@.len() - i,
        {
            let label = self.labels[i].clone();
            let c: isize = self.counts[i];
            all.push((label, c));
            proof {
                let ghost pairs = all.deep_view();
                assert(pairs[i as int] == (self.labels@[i as int]@, c));
                assert forall|j: int| 0 <= j < i implies as_tally(pairs)[j] == self@[j] by {
                    assert(as_tally(pairs)[j] == self@.take(i as int)[j]);
                }
                assert(as_tally(pairs) =~= self@.take(i + 1));
            }
            i += 1;
        }
        assert(self@.take(self@.len() as int) =~= self@);
        all
    }

    /// The entries with a positive count as `label: count`, joined by `, `.
    pub fn to_string(&self) -> (text: String)
        ensures
            text@ == tally_text(self@),
    {
        proof {
            use_type_invariant(self);
        }
        let mut parts: Vec<String> = Vec::new();
        let mut i: usize = 0;
        while i < self.labels.len()
            invariant
                i <= self.labels@.len(),
                self.labels@.len() == self.counts@.len(),
                parts.deep_view() == shown(self@.take(i as int)),
            decreases self.labels@.len() - i,
        {
            let c: isize = self.counts[i];
            proof {
                assert(self@.take(i + 1).drop_last() =~= self@.take(i as int));
                assert(self@.take(i + 1).last() == self@[i as int]);
            }
            if c > 0 {
                let mut part = self.labels[i].clone();
                part.append(": ");
                part.append(decimal_string(c as usize).as_str());
                parts.push(part);
                assert(parts.deep_view() =~= shown(self@.take(i + 1)));
            }
            i += 1;
        }
        assert(self@.take(self@.len() as int) =~= self@);
        join(&parts, ", ")
    }
}

} // verus!
