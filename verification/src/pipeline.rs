//! The run over a corpus: which key is processed next, what each file
//! contributes, and what the statistics hold at the end.

use crate::reader::{decoded_row, first_missing, ingest_row, ColumnIndices, SchemaViolation};
use crate::record::GameRecordView;
use crate::stats::{lemma_total_counts_records, Statistics, StatisticsView};
use crate::text::names_view;
use parquet::record::Row;
use vstd::prelude::*;

verus! {

/// What became of one file of a corpus.
pub enum FileTrace {
    /// The download failed, at the request or in the middle of the body.
    DownloadFailed,
    /// The file was opened: its column names, and the records of the rows
    /// that its row stream gave before it ended.
    Read { columns: Seq<Seq<char>>, records: Seq<GameRecordView> },
}

/// The records that a file contributes to the statistics: those of its rows,
/// if it was downloaded and has every required column, and none otherwise.
pub open spec fn contribution(file: FileTrace) -> Seq<GameRecordView> {
    match file {
        FileTrace::DownloadFailed => Seq::empty(),
        FileTrace::Read { columns, records } => if first_missing(columns).is_none() {
            records
        } else {
            Seq::empty()
        },
    }
}

/// The records that the files of a corpus contribute, in processing order.
pub open spec fn corpus_records(files: Seq<FileTrace>) -> Seq<GameRecordView>
    decreases files.len(),
{
    if files.len() == 0 {
        Seq::empty()
    } else {
        corpus_records(files.drop_last()) + contribution(files.last())
    }
}

/// The number of rows parsed over all files of a corpus.
pub open spec fn rows_parsed(files: Seq<FileTrace>) -> nat
    decreases files.len(),
{
    if files.len() == 0 {
        0
    } else {
        rows_parsed(files.drop_last()) + contribution(files.last()).len()
    }
}

/// The statistics at the end of a run over a corpus.
pub open spec fn run_statistics(files: Seq<FileTrace>) -> StatisticsView {
    StatisticsView::empty().observed_all(corpus_records(files))
}

/// At the end of a run the total is the number of rows parsed over all files;
/// files whose download failed or whose schema was rejected add nothing.
pub proof fn lemma_total_is_rows_parsed(files: Seq<FileTrace>)
    ensures
        corpus_records(files).len() == rows_parsed(files),
        run_statistics(files).total_rows == rows_parsed(files),
    decreases files.len(),
{
    if files.len() > 0 {
        lemma_total_is_rows_parsed(files.drop_last());
    }
    lemma_total_counts_records(StatisticsView::empty(), corpus_records(files));
}

/// A file that contributes no record can be left out of the corpus without
/// changing what the others contribute.
pub proof fn lemma_silent_file_leaves_corpus(files: Seq<FileTrace>, index: int)
    requires
        0 <= index < files.len(),
        contribution(files[index]).len() == 0,
    ensures
        corpus_records(files) == corpus_records(files.remove(index)),
    decreases files.len(),
{
    if index == files.len() - 1 {
        assert(files.remove(index) =~= files.drop_last());
        assert(corpus_records(files.drop_last()) + contribution(files.last()) =~= corpus_records(
            files.drop_last(),
        ));
    } else {
        assert(files.remove(index).drop_last() =~= files.drop_last().remove(index));
        assert(files.remove(index).last() == files.last());
        lemma_silent_file_leaves_corpus(files.drop_last(), index);
    }
}

/// A file that lacks a required column contributes no row, and the
/// statistics of the run are those of the run without that file.
pub proof fn lemma_rejected_file_changes_nothing(files: Seq<FileTrace>, index: int)
    requires
        0 <= index < files.len(),
        files[index] is Read,
        first_missing(files[index]->columns).is_some(),
    ensures
        contribution(files[index]) == Seq::<GameRecordView>::empty(),
        run_statistics(files) == run_statistics(files.remove(index)),
{
    lemma_silent_file_leaves_corpus(files, index);
}

/// A file whose download failed contributes no row, and the statistics of
/// the run are those of the run without that file.
pub proof fn lemma_failed_download_changes_nothing(files: Seq<FileTrace>, index: int)
    requires
        0 <= index < files.len(),
        files[index] is DownloadFailed,
    ensures
        contribution(files[index]) == Seq::<GameRecordView>::empty(),
        run_statistics(files) == run_statistics(files.remove(index)),
{
    lemma_silent_file_leaves_corpus(files, index);
}

/// How the processing of one file ended.
#[derive(Clone, Copy, Debug, PartialEq, Eq, Structural)]
pub enum FileOutcome {
    /// Every row was read and counted.
    Processed,
    /// The retrieval request or the reading of a chunk failed.
    TransportFailed,
    /// The file lacks a required column.
    SchemaRejected(SchemaViolation),
    /// The row stream failed before its end.
    RowStreamFailed,
}

/// What the run does next.
#[derive(Clone, Copy, Debug, PartialEq, Eq, Structural)]
pub enum RunStep {
    /// The listing found no data file: the run ends without a report.
    NothingFound,
    /// Fetch, read and count the file whose key is at this position.
    Process(usize),
    /// Every key has been processed: report the statistics.
    Report,
}

/// The state of a run: the keys in listing order, the position of the key in
/// work, and the statistics of the rows counted so far.
pub struct Run {
    keys: Vec<String>,
    position: usize,
    stats: Statistics,
    counted: Ghost<Seq<GameRecordView>>,
}

impl Run {
    /// The keys of the run, in listing order.
    pub closed spec fn key_seq(&self) -> Seq<Seq<char>> {
        names_view(self.keys@)
    }

    /// The number of keys whose processing has ended.
    pub closed spec fn files_done(&self) -> nat {
        self.position as nat
    }

    /// The records counted so far, in the order in which they were counted.
    pub closed spec fn counted(&self) -> Seq<GameRecordView> {
        self.counted@
    }

    /// The statistics so far.
    pub closed spec fn stats(&self) -> StatisticsView {
        self.stats@
    }

    /// The statistics are those of the records counted, and no more files
    /// are done than there are keys.
    pub closed spec fn well_formed(&self) -> bool {
        &&& self.stats.well_formed()
        &&& self.stats@ == StatisticsView::empty().observed_all(self.counted@)
        &&& self.position <= self.keys@.len()
    }

    /// What the run does next, as a function of its state.
    pub open spec fn step_of(&self) -> RunStep {
        if self.key_seq().len() == 0 {
            RunStep::NothingFound
        } else if self.files_done() < self.key_seq().len() {
            RunStep::Process(self.files_done() as usize)
        } else {
            RunStep::Report
        }
    }

    /// A run over `keys` that has processed nothing: all counters zero.
    pub fn new(keys: Vec<String>) -> (run: Run)
        ensures
            run.well_formed(),
            run.key_seq() == names_view(keys@),
            run.files_done() == 0,
            run.counted() == Seq::<GameRecordView>::empty(),
            run.stats() == StatisticsView::empty(),
    {
        Run { keys, position: 0, stats: Statistics::new(), counted: Ghost(Seq::empty()) }
    }

    /// What to do next: nothing where no key was listed, the next key while
    /// one is left, the report after the last.
    pub fn next_step(&self) -> (step: RunStep)
        requires
            self.well_formed(),
        ensures
            step == self.step_of(),
    {
        assert(self.key_seq().len() == self.keys@.len());
        if self.keys.len() == 0 {
            RunStep::NothingFound
        } else if self.position < self.keys.len() {
            RunStep::Process(self.position)
        } else {
            RunStep::Report
        }
    }

    /// The key at `index`.
    pub fn key(&self, index: usize) -> (key: &String)
        requires
            index < self.key_seq().len(),
        ensures
            key@ == self.key_seq()[index as int],
    {
        &self.keys[index]
    }

    /// Decodes one row of the file in work and counts it.
    pub fn ingest_row(&mut self, columns: &ColumnIndices, row: &Row)
        requires
            old(self).well_formed(),
            old(self).stats().total_rows < usize::MAX,
        ensures
            final(self).well_formed(),
            final(self).counted() == old(self).counted().push(decoded_row(*row, *columns)),
            final(self).stats() == old(self).stats().observed(decoded_row(*row, *columns)),
            final(self).key_seq() == old(self).key_seq(),
            final(self).files_done() == old(self).files_done(),
    {
        ingest_row(&mut self.stats, columns, row);
        proof {
            let ghost record = decoded_row(*row, *columns);
            assert(self.counted@.push(record).drop_last() =~= self.counted@);
            self.counted@ = self.counted@.push(record);
        }
    }

    /// Ends the processing of the key in work and goes on to the next one.
    /// However the file ended, the statistics stay as they are: a failure
    /// costs the rows of its file and nothing else.
    pub fn finish_file(&mut self, outcome: FileOutcome)
        requires
            old(self).well_formed(),
            old(self).files_done() < old(self).key_seq().len(),
        ensures
            final(self).well_formed(),
            final(self).files_done() == old(self).files_done() + 1,
            final(self).counted() == old(self).counted(),
            final(self).stats() == old(self).stats(),
            final(self).key_seq() == old(self).key_seq(),
    {
        let count: usize = self.keys.len();
        assert(self.key_seq().len() == count);
        self.position = self.position + 1;
    }

    /// The statistics of the rows counted so far: the total is their number.
    pub fn statistics(&self) -> (stats: &Statistics)
        requires
            self.well_formed(),
        ensures
            stats@ == self.stats(),
            stats@ == StatisticsView::empty().observed_all(self.counted()),
            stats@.total_rows == self.counted().len(),
            stats.well_formed(),
    {
        proof {
            lemma_total_counts_records(StatisticsView::empty(), self.counted@);
        }
        &self.stats
    }
}

} // verus!
