//! The accumulator of a run: the total number of rows, and the rows per month
//! and per time control.

use crate::counts::{bumped, count_of, distinct_labels, lemma_bumped, sum_counts, CountTable};
use crate::record::{GameRecord, GameRecordView};
use vstd::prelude::*;

verus! {

/// The mathematical value of a [`Statistics`].
pub struct StatisticsView {
    pub total_rows: nat,
    pub rows_per_month: Seq<(Seq<char>, nat)>,
    pub rows_per_time_control: Seq<(Seq<char>, nat)>,
}

impl StatisticsView {
    /// The statistics of a run that has seen no row.
    pub open spec fn empty() -> StatisticsView {
        StatisticsView {
            total_rows: 0,
            rows_per_month: Seq::empty(),
            rows_per_time_control: Seq::empty(),
        }
    }

    /// Every row is counted once in each of the three places: the counts per
    /// month sum to the total, and so do the counts per time control.
    pub open spec fn consistent(self) -> bool {
        &&& distinct_labels(self.rows_per_month)
        &&& distinct_labels(self.rows_per_time_control)
        &&& sum_counts(self.rows_per_month) == self.total_rows
        &&& sum_counts(self.rows_per_time_control) == self.total_rows
    }

    /// The statistics after one more record.
    pub open spec fn observed(self, record: GameRecordView) -> StatisticsView {
        StatisticsView {
            total_rows: self.total_rows + 1,
            rows_per_month: bumped(self.rows_per_month, record.month),
            rows_per_time_control: bumped(self.rows_per_time_control, record.time_control),
        }
    }

    /// The statistics after the records of `records`, in their order.
    pub open spec fn observed_all(self, records: Seq<GameRecordView>) -> StatisticsView
        decreases records.len(),
    {
        if records.len() == 0 {
            self
        } else {
            self.observed_all(records.drop_last()).observed(records.last())
        }
    }
}

/// The number of records of `records` whose month is `month`.
pub open spec fn rows_in_month(records: Seq<GameRecordView>, month: Seq<char>) -> nat
    decreases records.len(),
{
    if records.len() == 0 {
        0
    } else if records.last().month == month {
        rows_in_month(records.drop_last(), month) + 1
    } else {
        rows_in_month(records.drop_last(), month)
    }
}

/// The number of records of `records` whose time control is `time_control`.
pub open spec fn rows_in_time_control(
    records: Seq<GameRecordView>,
    time_control: Seq<char>,
) -> nat
    decreases records.len(),
{
    if records.len() == 0 {
        0
    } else if records.last().time_control == time_control {
        rows_in_time_control(records.drop_last(), time_control) + 1
    } else {
        rows_in_time_control(records.drop_last(), time_control)
    }
}

/// Observing a record keeps the three counters in step: if the counts of each
/// grouping summed to the total before, they do so after.
pub proof fn lemma_observed_consistent(stats: StatisticsView, record: GameRecordView)
    requires
        stats.consistent(),
    ensures
        stats.observed(record).consistent(),
{
    lemma_bumped(stats.rows_per_month, record.month);
    lemma_bumped(stats.rows_per_time_control, record.time_control);
}

/// After any sequence of records the counts per month sum to the total number
/// of rows, and so do the counts per time control.
pub proof fn lemma_groups_sum_to_total(stats: StatisticsView, records: Seq<GameRecordView>)
    requires
        stats.consistent(),
    ensures
        stats.observed_all(records).consistent(),
        sum_counts(stats.observed_all(records).rows_per_month) == stats.observed_all(
            records,
        ).total_rows,
        sum_counts(stats.observed_all(records).rows_per_time_control) == stats.observed_all(
            records,
        ).total_rows,
    decreases records.len(),
{
    if records.len() > 0 {
        lemma_groups_sum_to_total(stats, records.drop_last());
        lemma_observed_consistent(stats.observed_all(records.drop_last()), records.last());
    }
}

/// The total grows by exactly the number of records observed.
pub proof fn lemma_total_counts_records(stats: StatisticsView, records: Seq<GameRecordView>)
    ensures
        stats.observed_all(records).total_rows == stats.total_rows + records.len(),
    decreases records.len(),
{
    if records.len() > 0 {
        lemma_total_counts_records(stats, records.drop_last());
    }
}

/// Starting from nothing, the total is the number of records observed, the
/// count of each month is the number of records of that month, and the count
/// of each time control is the number of records of that time control.
pub proof fn lemma_run_counts_rows(records: Seq<GameRecordView>, label: Seq<char>)
    ensures
        StatisticsView::empty().observed_all(records).total_rows == records.len(),
        count_of(StatisticsView::empty().observed_all(records).rows_per_month, label)
            == rows_in_month(records, label),
        count_of(StatisticsView::empty().observed_all(records).rows_per_time_control, label)
            == rows_in_time_control(records, label),
    decreases records.len(),
{
    lemma_total_counts_records(StatisticsView::empty(), records);
    if records.len() > 0 {
        let before = StatisticsView::empty().observed_all(records.drop_last());
        lemma_run_counts_rows(records.drop_last(), label);
        lemma_groups_sum_to_total(StatisticsView::empty(), records.drop_last());
        lemma_bumped(before.rows_per_month, records.last().month);
        lemma_bumped(before.rows_per_time_control, records.last().time_control);
    }
}

/// Observing the records of two files one after the other is observing the
/// records of both in one sequence: a file's contribution does not depend on
/// what the other files held.
pub proof fn lemma_observed_all_concat(
    stats: StatisticsView,
    first: Seq<GameRecordView>,
    second: Seq<GameRecordView>,
)
    ensures
        stats.observed_all(first + second) == stats.observed_all(first).observed_all(second),
    decreases second.len(),
{
    if second.len() == 0 {
        assert(first + second =~= first);
    } else {
        assert((first + second).drop_last() =~= first + second.drop_last());
        lemma_observed_all_concat(stats, first, second.drop_last());
    }
}

/// Aggregated statistics of a run.
#[derive(Debug)]
pub struct Statistics {
    total_rows: usize,
    rows_per_month: CountTable,
    rows_per_time_control: CountTable,
}

impl View for Statistics {
    type V = StatisticsView;

    closed spec fn view(&self) -> StatisticsView {
        StatisticsView {
            total_rows: self.total_rows as nat,
            rows_per_month: self.rows_per_month@,
            rows_per_time_control: self.rows_per_time_control@,
        }
    }
}

impl Statistics {
    /// The three counters agree: see [`StatisticsView::consistent`].
    pub open spec fn well_formed(&self) -> bool {
        self@.consistent()
    }

    /// Statistics of a run that has seen no row: total zero, both groupings
    /// empty.
    pub fn new() -> (stats: Statistics)
        ensures
            stats@ == StatisticsView::empty(),
            stats.well_formed(),
    {
        Statistics {
            total_rows: 0,
            rows_per_month: CountTable::new(),
            rows_per_time_control: CountTable::new(),
        }
    }

    /// Counts one record: the total, the count of its month and the count of
    /// its time control each grow by one, and nothing else changes.
    pub fn observe(&mut self, record: &GameRecord)
        requires
            old(self).well_formed(),
            old(self)@.total_rows < usize::MAX,
        ensures
            final(self)@ == old(self)@.observed(record@),
            final(self).well_formed(),
    {
        self.total_rows = self.total_rows + 1;
        self.rows_per_month.bump(&record.month);
        self.rows_per_time_control.bump(&record.time_control);
    }

    /// The number of rows observed.
    pub fn total_rows(&self) -> (n: usize)
        ensures
            n == self@.total_rows,
    {
        self.total_rows
    }

    /// The rows counted per month.
    pub fn rows_per_month(&self) -> (table: &CountTable)
        ensures
            table@ == self@.rows_per_month,
    {
        &self.rows_per_month
    }

    /// The rows counted per time control.
    pub fn rows_per_time_control(&self) -> (table: &CountTable)
        ensures
            table@ == self@.rows_per_time_control,
    {
        &self.rows_per_time_control
    }
}

} // verus!
