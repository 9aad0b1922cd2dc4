//! Reading a data file: resolving the required columns of its schema and
//! decoding its rows into records.

use crate::record::{decoded, GameRecord, GameRecordView};
use crate::text::{names_view, text_view};
use crate::counts::{count_of, lemma_bumped};
use crate::stats::{Statistics, StatisticsView};
use parquet::record::{Row, RowAccessor};
use parquet::schema::types::SchemaDescriptor;
use vstd::prelude::*;

verus! {

/// A row of a Parquet file, as `parquet` hands it out. Opaque here.
#[verifier::external_type_specification]
#[verifier::external_body]
pub struct ExRow(Row);

/// The schema of a Parquet file, as `parquet` describes it. Opaque here.
#[verifier::external_type_specification]
#[verifier::external_body]
pub struct ExSchemaDescriptor(SchemaDescriptor);

/// The names of the leaf columns of a schema, in their order.
pub uninterp spec fn schema_column_names(schema: SchemaDescriptor) -> Seq<Seq<char>>;

/// The string at position `index` of a row: `None` where the row has no such
/// position or the field there is not a string.
pub uninterp spec fn row_text(row: Row, index: usize) -> Option<Seq<char>>;

/// The bit pattern of the single-precision float at position `index` of a
/// row: `None` where the row has no such position or the field there is not a
/// single-precision float.
pub uninterp spec fn row_float_bits(row: Row, index: usize) -> Option<u32>;

/// `SchemaDescriptor::num_columns`: the number of leaf columns, which is the
/// number of names that [`schema_column_names`] stands for.
#[verifier::external_body]
fn schema_num_columns(schema: &SchemaDescriptor) -> (n: usize)
    ensures
        n == schema_column_names(*schema).len(),
{
    schema.num_columns()
}

/// `SchemaDescriptor::column` and `ColumnDescriptor::name`: the name of the
/// leaf column at `index`. The outside function panics on an index that is
/// not below the number of columns, so such an index is excluded.
#[verifier::external_body]
fn schema_column_name(schema: &SchemaDescriptor, index: usize) -> (name: String)
    requires
        index < schema_column_names(*schema).len(),
    ensures
        name@ == schema_column_names(*schema)[index as int],
{
    schema.column(index).name().to_string()
}

/// `RowAccessor::get_string` on a `Row`: a copy of the string at `index`, and
/// `None` for every error that the outside function returns (no such position,
/// or a field of another type).
#[verifier::external_body]
fn row_string(row: &Row, index: usize) -> (out: Option<String>)
    ensures
        text_view(out) == row_text(*row, index),
{
    match row.get_string(index) {
        Ok(text) => Some(text.clone()),
        Err(_) => None,
    }
}

/// `RowAccessor::get_float` on a `Row`: the bits of the float at `index`, and
/// `None` for every error that the outside function returns (no such position,
/// or a field of another type).
#[verifier::external_body]
fn row_outcome_bits(row: &Row, index: usize) -> (out: Option<u32>)
    ensures
        out == row_float_bits(*row, index),
{
    match row.get_float(index) {
        Ok(value) => Some(value.to_bits()),
        Err(_) => None,
    }
}

/// One of the five columns that every data file must have.
#[derive(Clone, Copy, Debug, PartialEq, Eq, Structural)]
pub enum RequiredColumn {
    Player1,
    Player2,
    Outcome,
    Month,
    TimeControl,
}

impl RequiredColumn {
    /// The column's name in a file's schema.
    pub open spec fn spec_name(self) -> Seq<char> {
        match self {
            RequiredColumn::Player1 => "player1"@,
            RequiredColumn::Player2 => "player2"@,
            RequiredColumn::Outcome => "outcome"@,
            RequiredColumn::Month => "month"@,
            RequiredColumn::TimeControl => "time_control"@,
        }
    }

    /// The column's name in a file's schema.
    pub fn name(self) -> (name: &'static str)
        ensures
            name@ == self.spec_name(),
    {
        match self {
            RequiredColumn::Player1 => "player1",
            RequiredColumn::Player2 => "player2",
            RequiredColumn::Outcome => "outcome",
            RequiredColumn::Month => "month",
            RequiredColumn::TimeControl => "time_control",
        }
    }
}

/// A file's schema lacks a required column: the file yields no row.
#[derive(Clone, Copy, Debug, PartialEq, Eq, Structural)]
pub struct SchemaViolation {
    /// The first required column that is missing, in the order `player1`,
    /// `player2`, `outcome`, `month`, `time_control`.
    pub missing: RequiredColumn,
}

/// The positions of the five required columns in a file.
#[derive(Clone, Copy, Debug, PartialEq, Eq, Structural)]
pub struct ColumnIndices {
    pub player1: usize,
    pub player2: usize,
    pub outcome: usize,
    pub month: usize,
    pub time_control: usize,
}

/// The position that a name resolves to: that of the last column with this
/// name, or `None` where no column has it.
pub open spec fn column_index(names: Seq<Seq<char>>, name: Seq<char>) -> Option<int>
    decreases names.len(),
{
    if names.len() == 0 {
        None
    } else if names.last() == name {
        Some(names.len() - 1)
    } else {
        column_index(names.drop_last(), name)
    }
}

/// The first required column that `names` lacks, if it lacks one.
pub open spec fn first_missing(names: Seq<Seq<char>>) -> Option<RequiredColumn> {
    if column_index(names, RequiredColumn::Player1.spec_name()).is_none() {
        Some(RequiredColumn::Player1)
    } else if column_index(names, RequiredColumn::Player2.spec_name()).is_none() {
        Some(RequiredColumn::Player2)
    } else if column_index(names, RequiredColumn::Outcome.spec_name()).is_none() {
        Some(RequiredColumn::Outcome)
    } else if column_index(names, RequiredColumn::Month.spec_name()).is_none() {
        Some(RequiredColumn::Month)
    } else if column_index(names, RequiredColumn::TimeControl.spec_name()).is_none() {
        Some(RequiredColumn::TimeControl)
    } else {
        None
    }
}

/// `indices` holds the position that each required column resolves to.
pub open spec fn resolves(names: Seq<Seq<char>>, indices: ColumnIndices) -> bool {
    &&& column_index(names, RequiredColumn::Player1.spec_name()) == Some(indices.player1 as int)
    &&& column_index(names, RequiredColumn::Player2.spec_name()) == Some(indices.player2 as int)
    &&& column_index(names, RequiredColumn::Outcome.spec_name()) == Some(indices.outcome as int)
    &&& column_index(names, RequiredColumn::Month.spec_name()) == Some(indices.month as int)
    &&& column_index(names, RequiredColumn::TimeControl.spec_name()) == Some(
        indices.time_control as int,
    )
}

/// A column is present exactly if some position holds its name, and the
/// position it resolves to holds its name.
pub proof fn lemma_column_index(names: Seq<Seq<char>>, name: Seq<char>)
    ensures
        column_index(names, name).is_some() <==> names.contains(name),
        match column_index(names, name) {
            Some(i) => 0 <= i < names.len() && names[i] == name && forall|j: int|
                i < j < names.len() ==> names[j] != name,
            None => true,
        },
    decreases names.len(),
{
    if names.len() > 0 {
        lemma_column_index(names.drop_last(), name);
        assert forall|j: int| 0 <= j < names.len() - 1 implies names.drop_last()[j] == names[j] by {}
        if names.last() == name {
            assert(names[names.len() - 1] == name);
        } else if names.contains(name) {
            let k = choose|k: int| 0 <= k < names.len() && names[k] == name;
            assert(names.drop_last()[k] == name);
        } else if names.drop_last().contains(name) {
            let k = choose|k: int| 0 <= k < names.drop_last().len() && names.drop_last()[k] == name;
            assert(names[k] == name);
        }
    }
}

/// A list of column names is rejected exactly if one of the five required
/// names is not in it, and the column that the rejection names is absent.
pub proof fn lemma_rejected_iff_column_absent(names: Seq<Seq<char>>)
    ensures
        first_missing(names).is_some() <==> exists|column: RequiredColumn|
            !names.contains(#[trigger] column.spec_name()),
        match first_missing(names) {
            Some(column) => !names.contains(column.spec_name()),
            None => true,
        },
{
    lemma_column_index(names, RequiredColumn::Player1.spec_name());
    lemma_column_index(names, RequiredColumn::Player2.spec_name());
    lemma_column_index(names, RequiredColumn::Outcome.spec_name());
    lemma_column_index(names, RequiredColumn::Month.spec_name());
    lemma_column_index(names, RequiredColumn::TimeControl.spec_name());
    match first_missing(names) {
        Some(column) => {
            assert(!names.contains(column.spec_name()));
        },
        None => {},
    }
}

/// The position of the last of `names` that equals `name`.
pub fn find_column(names: &Vec<String>, name: &str) -> (found: Option<usize>)
    ensures
        match found {
            Some(i) => column_index(names_view(names@), name@) == Some(i as int) && i < names@.len(),
            None => column_index(names_view(names@), name@).is_none(),
        },
{
    let wanted: String = name.to_owned();
    let ghost all = names_view(names@);
    let mut i: usize = names.len();
    assert(all.take(i as int) =~= all);
    while i > 0
        invariant
            i <= names@.len(),
            all == names_view(names@),
            wanted@ == name@,
            column_index(all, name@) == column_index(all.take(i as int), name@),
        decreases i,
    {
        proof {
            assert(all.take(i as int).drop_last() =~= all.take(i - 1));
            assert(all.take(i as int).last() == names@[i - 1]@);
        }
        if names[i - 1] == wanted {
            return Some(i - 1);
        }
        i -= 1;
    }
    assert(all.take(0).len() == 0);
    None
}

/// Resolves the five required columns among the column names of a file.
///
/// Fails exactly if a required column is missing, and then names the first
/// one that is.
pub fn resolve_columns(names: &Vec<String>) -> (result: Result<ColumnIndices, SchemaViolation>)
    ensures
        match first_missing(names_view(names@)) {
            Some(column) => result == Err::<ColumnIndices, SchemaViolation>(
                SchemaViolation { missing: column },
            ),
            None => result.is_ok() && resolves(names_view(names@), result.unwrap()),
        },
{
    let player1: usize = match find_column(names, RequiredColumn::Player1.name()) {
        Some(i) => i,
        None => { return Err(SchemaViolation { missing: RequiredColumn::Player1 }); },
    };
    let player2: usize = match find_column(names, RequiredColumn::Player2.name()) {
        Some(i) => i,
        None => { return Err(SchemaViolation { missing: RequiredColumn::Player2 }); },
    };
    let outcome: usize = match find_column(names, RequiredColumn::Outcome.name()) {
        Some(i) => i,
        None => { return Err(SchemaViolation { missing: RequiredColumn::Outcome }); },
    };
    let month: usize = match find_column(names, RequiredColumn::Month.name()) {
        Some(i) => i,
        None => { return Err(SchemaViolation { missing: RequiredColumn::Month }); },
    };
    let time_control: usize = match find_column(names, RequiredColumn::TimeControl.name()) {
        Some(i) => i,
        None => { return Err(SchemaViolation { missing: RequiredColumn::TimeControl }); },
    };
    Ok(ColumnIndices { player1, player2, outcome, month, time_control })
}

/// The names of the leaf columns of a schema.
pub fn column_names(schema: &SchemaDescriptor) -> (names: Vec<String>)
    ensures
        names_view(names@) == schema_column_names(*schema),
{
    let n: usize = schema_num_columns(schema);
    let mut names: Vec<String> = Vec::new();
    let mut i: usize = 0;
    while i < n
        invariant
            n == schema_column_names(*schema).len(),
            i <= n,
            names@.len() == i,
            forall|j: int| 0 <= j < i ==> (#[trigger] names@[j])@ == schema_column_names(*schema)[j],
        decreases n - i,
    {
        names.push(schema_column_name(schema, i));
        i += 1;
    }
    assert(names_view(names@) =~= schema_column_names(*schema));
    names
}

/// Resolves the five required columns in the schema of a file.
///
/// Fails exactly if the schema lacks a required column, and then names the
/// first one that it lacks.
pub fn resolve_schema(schema: &SchemaDescriptor) -> (result: Result<
    ColumnIndices,
    SchemaViolation,
>)
    ensures
        match first_missing(schema_column_names(*schema)) {
            Some(column) => result == Err::<ColumnIndices, SchemaViolation>(
                SchemaViolation { missing: column },
            ),
            None => result.is_ok() && resolves(schema_column_names(*schema), result.unwrap()),
        },
{
    let names = column_names(schema);
    resolve_columns(&names)
}

/// The record that `row` decodes to with the columns at `columns`.
pub open spec fn decoded_row(row: Row, columns: ColumnIndices) -> GameRecordView {
    decoded(
        row_text(row, columns.player1),
        row_text(row, columns.player2),
        row_float_bits(row, columns.outcome),
        row_text(row, columns.month),
        row_text(row, columns.time_control),
    )
}

/// The records that `rows` decode to, in their order.
pub open spec fn decoded_rows(rows: Seq<Row>, columns: ColumnIndices) -> Seq<GameRecordView> {
    Seq::new(rows.len(), |i: int| decoded_row(rows[i], columns))
}

/// Decodes one row. A field that cannot be read in its expected type is
/// replaced by its default; the row is never dropped.
pub fn record_from_row(row: &Row, columns: &ColumnIndices) -> (record: GameRecord)
    ensures
        record@ == decoded_row(*row, *columns),
{
    let player1 = row_string(row, columns.player1);
    let player2 = row_string(row, columns.player2);
    let outcome = row_outcome_bits(row, columns.outcome);
    let month = row_string(row, columns.month);
    let time_control = row_string(row, columns.time_control);
    GameRecord::from_fields(player1, player2, outcome, month, time_control)
}

/// A row whose outcome cannot be read as a number is not dropped: it decodes
/// to a record whose outcome is the bit pattern of `0.0`, and counting it adds
/// one to the total, to the count of its month and to the count of its time
/// control.
pub proof fn lemma_unreadable_outcome_is_counted(
    stats: StatisticsView,
    row: Row,
    columns: ColumnIndices,
)
    requires
        stats.consistent(),
        row_float_bits(row, columns.outcome).is_none(),
    ensures
        decoded_row(row, columns).outcome_bits == 0,
        stats.observed(decoded_row(row, columns)).total_rows == stats.total_rows + 1,
        count_of(
            stats.observed(decoded_row(row, columns)).rows_per_month,
            decoded_row(row, columns).month,
        ) == count_of(stats.rows_per_month, decoded_row(row, columns).month) + 1,
        count_of(
            stats.observed(decoded_row(row, columns)).rows_per_time_control,
            decoded_row(row, columns).time_control,
        ) == count_of(stats.rows_per_time_control, decoded_row(row, columns).time_control) + 1,
{
    lemma_bumped(stats.rows_per_month, decoded_row(row, columns).month);
    lemma_bumped(stats.rows_per_time_control, decoded_row(row, columns).time_control);
}

/// Decodes one row and counts it.
pub fn ingest_row(stats: &mut Statistics, columns: &ColumnIndices, row: &Row)
    requires
        old(stats).well_formed(),
        old(stats)@.total_rows < usize::MAX,
    ensures
        final(stats)@ == old(stats)@.observed(decoded_row(*row, *columns)),
        final(stats).well_formed(),
{
    let record = record_from_row(row, columns);
    stats.observe(&record);
}

/// Decodes and counts the rows of one file, in their order.
pub fn ingest_rows(stats: &mut Statistics, columns: &ColumnIndices, rows: &Vec<Row>)
    requires
        old(stats).well_formed(),
        old(stats)@.total_rows + rows@.len() <= usize::MAX,
    ensures
        final(stats)@ == old(stats)@.observed_all(decoded_rows(rows@, *columns)),
        final(stats)@.total_rows == old(stats)@.total_rows + rows@.len(),
        final(stats).well_formed(),
{
    let ghost all = decoded_rows(rows@, *columns);
    let mut i: usize = 0;
    while i < rows.len()
        invariant
            i <= rows@.len(),
            all == decoded_rows(rows@, *columns),
            stats.well_formed(),
            stats@ == old(stats)@.observed_all(all.take(i as int)),
            stats@.total_rows == old(stats)@.total_rows + i,
            old(stats)@.total_rows + rows@.len() <= usize::MAX,
        decreases rows@.len() - i,
    {
        proof {
            assert(all.take(i + 1).drop_last() =~= all.take(i as int));
            assert(all.take(i + 1).last() == decoded_row(rows@[i as int], *columns));
        }
        ingest_row(stats, columns, &rows[i]);
        i += 1;
    }
    assert(all.take(i as int) =~= all);
}

} // verus!
