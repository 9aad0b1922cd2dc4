//! Tables that count rows by a grouping key.
//!
//! A table is modelled as a sequence of `(label, count)` pairs in the order in
//! which the labels were first seen; no label occurs twice.

use vstd::prelude::*;

verus! {

/// The sum of all counts of a table.
pub open spec fn sum_counts(entries: Seq<(Seq<char>, nat)>) -> nat
    decreases entries.len(),
{
    if entries.len() == 0 {
        0
    } else {
        sum_counts(entries.drop_last()) + entries.last().1
    }
}

/// The count that a table holds for `label`: zero where it has no entry.
pub open spec fn count_of(entries: Seq<(Seq<char>, nat)>, label: Seq<char>) -> nat
    decreases entries.len(),
{
    if entries.len() == 0 {
        0
    } else if entries.last().0 == label {
        count_of(entries.drop_last(), label) + entries.last().1
    } else {
        count_of(entries.drop_last(), label)
    }
}

/// No label has two entries.
pub open spec fn distinct_labels(entries: Seq<(Seq<char>, nat)>) -> bool {
    forall|i: int, j: int|
        0 <= i < j < entries.len() ==> (#[trigger] entries[i]).0 != (#[trigger] entries[j]).0
}

/// `i` is the position of an entry for `label`.
pub open spec fn is_entry_for(entries: Seq<(Seq<char>, nat)>, label: Seq<char>, i: int) -> bool {
    0 <= i < entries.len() && entries[i].0 == label
}

/// The table has an entry for `label`.
pub open spec fn has_label(entries: Seq<(Seq<char>, nat)>, label: Seq<char>) -> bool {
    exists|i: int| is_entry_for(entries, label, i)
}

/// The table after one more row with `label`: the label's entry counts one
/// more, or a new entry with count one is appended.
pub open spec fn bumped(entries: Seq<(Seq<char>, nat)>, label: Seq<char>) -> Seq<(Seq<char>, nat)> {
    if has_label(entries, label) {
        let i = choose|i: int| is_entry_for(entries, label, i);
        entries.update(i, (label, entries[i].1 + 1))
    } else {
        entries.push((label, 1nat))
    }
}

/// Replacing one count changes the sum by the difference.
pub proof fn lemma_sum_update(entries: Seq<(Seq<char>, nat)>, i: int, entry: (Seq<char>, nat))
    requires
        0 <= i < entries.len(),
    ensures
        sum_counts(entries.update(i, entry)) + entries[i].1 == sum_counts(entries) + entry.1,
    decreases entries.len(),
{
    let after = entries.update(i, entry);
    if i == entries.len() - 1 {
        assert(after.drop_last() =~= entries.drop_last());
    } else {
        assert(after.drop_last() =~= entries.drop_last().update(i, entry));
        lemma_sum_update(entries.drop_last(), i, entry);
    }
}

/// No single count exceeds the sum.
pub proof fn lemma_count_within_sum(entries: Seq<(Seq<char>, nat)>, i: int)
    requires
        0 <= i < entries.len(),
    ensures
        entries[i].1 <= sum_counts(entries),
    decreases entries.len(),
{
    if i < entries.len() - 1 {
        lemma_count_within_sum(entries.drop_last(), i);
    }
}

/// A table without an entry for `label` counts zero for it.
pub proof fn lemma_count_absent(entries: Seq<(Seq<char>, nat)>, label: Seq<char>)
    requires
        !has_label(entries, label),
    ensures
        count_of(entries, label) == 0,
    decreases entries.len(),
{
    if entries.len() > 0 {
        assert(!is_entry_for(entries, label, entries.len() - 1));
        assert forall|i: int| !is_entry_for(entries.drop_last(), label, i) by {
            assert(!is_entry_for(entries, label, i));
        }
        lemma_count_absent(entries.drop_last(), label);
    }
}

/// In a table of distinct labels, the count for a label is that of its entry.
pub proof fn lemma_count_at(entries: Seq<(Seq<char>, nat)>, i: int)
    requires
        0 <= i < entries.len(),
        distinct_labels(entries),
    ensures
        count_of(entries, entries[i].0) == entries[i].1,
    decreases entries.len(),
{
    let label = entries[i].0;
    let rest = entries.drop_last();
    if i == entries.len() - 1 {
        assert forall|k: int| !is_entry_for(rest, label, k) by {
            if 0 <= k < rest.len() {
                assert(entries[k].0 != entries[i].0);
            }
        }
        lemma_count_absent(rest, label);
    } else {
        assert(entries[i].0 != entries[entries.len() - 1].0);
        assert(distinct_labels(rest)) by {
            assert forall|a: int, b: int| 0 <= a < b < rest.len() implies (#[trigger] rest[a]).0
                != (#[trigger] rest[b]).0 by {
                assert(entries[a].0 != entries[b].0);
            }
        }
        lemma_count_at(rest, i);
    }
}

/// Replacing the count of one entry leaves the counts of all other labels.
pub proof fn lemma_count_update(
    entries: Seq<(Seq<char>, nat)>,
    i: int,
    count: nat,
    other: Seq<char>,
)
    requires
        0 <= i < entries.len(),
        other != entries[i].0,
    ensures
        count_of(entries.update(i, (entries[i].0, count)), other) == count_of(entries, other),
    decreases entries.len(),
{
    let after = entries.update(i, (entries[i].0, count));
    if i == entries.len() - 1 {
        assert(after.drop_last() =~= entries.drop_last());
    } else {
        assert(after.drop_last() =~= entries.drop_last().update(i, (entries[i].0, count)));
        lemma_count_update(entries.drop_last(), i, count, other);
    }
}

/// Counting one more row with `label` keeps the labels distinct, adds one to
/// the sum and to the count for `label`, and leaves every other count.
pub proof fn lemma_bumped(entries: Seq<(Seq<char>, nat)>, label: Seq<char>)
    requires
        distinct_labels(entries),
    ensures
        distinct_labels(bumped(entries, label)),
        sum_counts(bumped(entries, label)) == sum_counts(entries) + 1,
        count_of(bumped(entries, label), label) == count_of(entries, label) + 1,
        forall|other: Seq<char>|
            other != label ==> count_of(bumped(entries, label), other) == count_of(entries, other),
{
    let after = bumped(entries, label);
    if has_label(entries, label) {
        let i = choose|i: int| is_entry_for(entries, label, i);
        assert(is_entry_for(entries, label, i));
        lemma_sum_update(entries, i, (label, entries[i].1 + 1));
        assert(distinct_labels(after)) by {
            assert forall|a: int, b: int| 0 <= a < b < after.len() implies (#[trigger] after[a]).0
                != (#[trigger] after[b]).0 by {
                assert(entries[a].0 != entries[b].0);
            }
        }
        lemma_count_at(entries, i);
        lemma_count_at(after, i);
        assert forall|other: Seq<char>| other != label implies count_of(after, other) == count_of(
            entries,
            other,
        ) by {
            lemma_count_update(entries, i, entries[i].1 + 1, other);
        }
    } else {
        assert(after.drop_last() =~= entries);
        lemma_count_absent(entries, label);
        assert(distinct_labels(after)) by {
            assert forall|a: int, b: int| 0 <= a < b < after.len() implies (#[trigger] after[a]).0
                != (#[trigger] after[b]).0 by {
                if b == entries.len() {
                    assert(!is_entry_for(entries, label, a));
                } else {
                    assert(entries[a].0 != entries[b].0);
                }
            }
        }
    }
}

/// The count of one grouping key.
#[derive(Debug)]
struct Tally {
    label: String,
    count: usize,
}

/// Row counts by grouping key, in the order in which the keys were first seen.
#[derive(Debug)]
pub struct CountTable {
    entries: Vec<Tally>,
}

impl View for CountTable {
    type V = Seq<(Seq<char>, nat)>;

    closed spec fn view(&self) -> Seq<(Seq<char>, nat)> {
        Seq::new(
            self.entries@.len(),
            |i: int| (self.entries@[i].label@, self.entries@[i].count as nat),
        )
    }
}

impl CountTable {
    /// An empty table.
    pub fn new() -> (table: CountTable)
        ensures
            table@ == Seq::<(Seq<char>, nat)>::empty(),
    {
        let table = CountTable { entries: Vec::new() };
        assert(table@ =~= Seq::<(Seq<char>, nat)>::empty());
        table
    }

    /// The number of distinct labels seen.
    pub fn len(&self) -> (n: usize)
        ensures
            n == self@.len(),
    {
        self.entries.len()
    }

    /// The label of the entry at `index`.
    pub fn label(&self, index: usize) -> (label: &String)
        requires
            index < self@.len(),
        ensures
            label@ == self@[index as int].0,
    {
        &self.entries[index].label
    }

    /// The count of the entry at `index`.
    pub fn count(&self, index: usize) -> (count: usize)
        requires
            index < self@.len(),
        ensures
            count == self@[index as int].1,
    {
        self.entries[index].count
    }

    /// The position of the first entry for `label`, if there is one.
    pub fn position(&self, label: &String) -> (found: Option<usize>)
        ensures
            found.is_some() == has_label(self@, label@),
            match found {
                Some(i) => is_entry_for(self@, label@, i as int) && forall|j: int|
                    0 <= j < i ==> !is_entry_for(self@, label@, j),
                None => true,
            },
    {
        let mut i: usize = 0;
        while i < self.entries.len()
            invariant
                i <= self.entries@.len(),
                forall|j: int| 0 <= j < i ==> !is_entry_for(self@, label@, j),
            decreases self.entries@.len() - i,
        {
            if self.entries[i].label == *label {
                assert(is_entry_for(self@, label@, i as int));
                return Some(i);
            }
            i += 1;
        }
        None
    }

    /// The number of rows counted for `label`: zero where it was never seen.
    pub fn get(&self, label: &String) -> (count: usize)
        requires
            distinct_labels(self@),
        ensures
            count == count_of(self@, label@),
    {
        match self.position(label) {
            Some(i) => {
                proof {
                    lemma_count_at(self@, i as int);
                }
                self.entries[i].count
            },
            None => {
                proof {
                    lemma_count_absent(self@, label@);
                }
                0
            },
        }
    }

    /// Counts one more row for `label`.
    pub fn bump(&mut self, label: &String)
        requires
            distinct_labels(old(self)@),
            sum_counts(old(self)@) < usize::MAX,
        ensures
            final(self)@ == bumped(old(self)@, label@),
            distinct_labels(final(self)@),
            sum_counts(final(self)@) == sum_counts(old(self)@) + 1,
    {
        proof {
            lemma_bumped(self@, label@);
        }
        let found = self.position(label);
        match found {
            Some(i) => {
                let ghost before = self@;
                proof {
                    lemma_count_within_sum(before, i as int);
                    let c = choose|c: int| is_entry_for(before, label@, c);
                    assert(is_entry_for(before, label@, c));
                    if c < i {
                        assert(before[c].0 != before[i as int].0);
                    } else if i < c {
                        assert(before[i as int].0 != before[c].0);
                    }
                }
                let count: usize = self.entries[i].count;
                let entry = Tally { label: label.clone(), count: count + 1 };
                self.entries.set(i, entry);
                assert(self@ =~= before.update(i as int, (label@, before[i as int].1 + 1)));
            },
            None => {
                let ghost before = self@;
                self.entries.push(Tally { label: label.clone(), count: 1 });
                assert(self@ =~= before.push((label@, 1nat)));
            },
        }
    }
}

} // verus!
