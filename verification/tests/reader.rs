use parquet::record::{Field, Row};
use parquet::schema::parser::parse_message_type;
use parquet::schema::types::SchemaDescriptor;
use parquet_ingest::reader::{
    column_names, find_column, ingest_row, ingest_rows, record_from_row, resolve_columns,
    resolve_schema, ColumnIndices, RequiredColumn, SchemaViolation,
};
use parquet_ingest::stats::Statistics;
use std::sync::Arc;

fn names(list: &[&str]) -> Vec<String> {
    list.iter().map(|s| s.to_string()).collect()
}

fn schema(message: &str) -> SchemaDescriptor {
    SchemaDescriptor::new(Arc::new(parse_message_type(message).unwrap()))
}

fn full_schema() -> SchemaDescriptor {
    schema(
        "message games {
            required int64 id;
            required binary player1 (UTF8);
            required binary player2 (UTF8);
            required float outcome;
            required binary month (UTF8);
            required binary time_control (UTF8);
        }",
    )
}

fn row(first: Field, second: Field, outcome: Field, month: Field, control: Field) -> Row {
    Row::new(vec![
        ("id".to_string(), Field::Long(7)),
        ("player1".to_string(), first),
        ("player2".to_string(), second),
        ("outcome".to_string(), outcome),
        ("month".to_string(), month),
        ("time_control".to_string(), control),
    ])
}

fn text(s: &str) -> Field {
    Field::Str(s.to_string())
}

const COLUMNS: ColumnIndices =
    ColumnIndices { player1: 1, player2: 2, outcome: 3, month: 4, time_control: 5 };

#[test]
fn required_column_names() {
    assert_eq!(RequiredColumn::Player1.name(), "player1");
    assert_eq!(RequiredColumn::Player2.name(), "player2");
    assert_eq!(RequiredColumn::Outcome.name(), "outcome");
    assert_eq!(RequiredColumn::Month.name(), "month");
    assert_eq!(RequiredColumn::TimeControl.name(), "time_control");
}

#[test]
fn find_column_takes_the_last_of_equal_names() {
    let list = names(&["a", "b", "a", "c"]);
    assert_eq!(find_column(&list, "a"), Some(2));
    assert_eq!(find_column(&list, "b"), Some(1));
    assert_eq!(find_column(&list, "c"), Some(3));
    assert_eq!(find_column(&list, "d"), None);
    assert_eq!(find_column(&Vec::new(), "a"), None);
}

#[test]
fn resolve_columns_in_any_order() {
    let list = names(&["month", "x", "outcome", "time_control", "player2", "player1"]);
    assert_eq!(
        resolve_columns(&list),
        Ok(ColumnIndices { player1: 5, player2: 4, outcome: 2, month: 0, time_control: 3 })
    );
}

#[test]
fn each_missing_column_is_named() {
    let all = ["player1", "player2", "outcome", "month", "time_control"];
    let expected = [
        RequiredColumn::Player1,
        RequiredColumn::Player2,
        RequiredColumn::Outcome,
        RequiredColumn::Month,
        RequiredColumn::TimeControl,
    ];
    for skip in 0..all.len() {
        let list: Vec<String> =
            all.iter().enumerate().filter(|(i, _)| *i != skip).map(|(_, s)| s.to_string()).collect();
        assert_eq!(resolve_columns(&list), Err(SchemaViolation { missing: expected[skip] }));
    }
}

#[test]
fn the_first_missing_column_is_reported() {
    assert_eq!(
        resolve_columns(&names(&["player1", "month"])),
        Err(SchemaViolation { missing: RequiredColumn::Player2 })
    );
    assert_eq!(
        resolve_columns(&Vec::new()),
        Err(SchemaViolation { missing: RequiredColumn::Player1 })
    );
}

#[test]
fn column_names_of_a_schema() {
    assert_eq!(
        column_names(&full_schema()),
        names(&["id", "player1", "player2", "outcome", "month", "time_control"])
    );
    assert_eq!(column_names(&schema("message empty { }")), Vec::<String>::new());
}

#[test]
fn resolve_schema_finds_the_positions() {
    assert_eq!(resolve_schema(&full_schema()), Ok(COLUMNS));
}

#[test]
fn resolve_schema_rejects_a_file_without_a_required_column() {
    let partial = schema(
        "message games {
            required binary player1 (UTF8);
            required binary player2 (UTF8);
            required float outcome;
            required binary time_control (UTF8);
        }",
    );
    assert_eq!(resolve_schema(&partial), Err(SchemaViolation { missing: RequiredColumn::Month }));
}

#[test]
fn a_row_is_decoded_field_by_field() {
    let r = row(text("alice"), text("bob"), Field::Float(0.5), text("2023-01"), text("blitz"));
    let record = record_from_row(&r, &COLUMNS);
    assert_eq!(record.player1, "alice");
    assert_eq!(record.player2, "bob");
    assert_eq!(f32::from_bits(record.outcome_bits), 0.5);
    assert_eq!(record.month, "2023-01");
    assert_eq!(record.time_control, "blitz");
}

#[test]
fn a_non_numeric_outcome_defaults_to_zero_and_the_row_is_counted() {
    let r = row(text("alice"), text("bob"), text("won"), text("2023-01"), text("blitz"));
    let record = record_from_row(&r, &COLUMNS);
    assert_eq!(f32::from_bits(record.outcome_bits), 0.0);
    assert_eq!(record.outcome_bits, 0);
    assert_eq!(record.month, "2023-01");
    let mut stats = Statistics::new();
    ingest_row(&mut stats, &COLUMNS, &r);
    assert_eq!(stats.total_rows(), 1);
    assert_eq!(stats.rows_per_month().get(&"2023-01".to_string()), 1);
    assert_eq!(stats.rows_per_time_control().get(&"blitz".to_string()), 1);
}

#[test]
fn a_double_is_not_read_as_the_outcome() {
    let r = row(text("alice"), text("bob"), Field::Double(1.0), text("m"), text("t"));
    assert_eq!(record_from_row(&r, &COLUMNS).outcome_bits, 0);
}

#[test]
fn text_fields_of_another_type_default_to_empty() {
    let r = row(Field::Null, Field::Int(3), Field::Float(1.0), Field::Bool(true), Field::Long(9));
    let record = record_from_row(&r, &COLUMNS);
    assert_eq!(record.player1, "");
    assert_eq!(record.player2, "");
    assert_eq!(f32::from_bits(record.outcome_bits), 1.0);
    assert_eq!(record.month, "");
    assert_eq!(record.time_control, "");
}

#[test]
fn a_position_beyond_the_row_defaults_too() {
    let short = Row::new(vec![("player1".to_string(), text("alice"))]);
    let columns = ColumnIndices { player1: 0, player2: 1, outcome: 2, month: 3, time_control: 4 };
    let record = record_from_row(&short, &columns);
    assert_eq!(record.player1, "alice");
    assert_eq!(record.player2, "");
    assert_eq!(record.outcome_bits, 0);
    assert_eq!(record.month, "");
    assert_eq!(record.time_control, "");
}

#[test]
fn ingest_rows_counts_every_row() {
    let rows = vec![
        row(text("a"), text("b"), Field::Float(1.0), text("2023-01"), text("blitz")),
        row(text("a"), text("c"), Field::Float(0.0), text("2023-01"), text("rapid")),
        row(text("b"), text("c"), text("?"), Field::Null, text("rapid")),
    ];
    let mut stats = Statistics::new();
    ingest_rows(&mut stats, &COLUMNS, &rows);
    assert_eq!(stats.total_rows(), 3);
    assert_eq!(stats.rows_per_month().get(&"2023-01".to_string()), 2);
    assert_eq!(stats.rows_per_month().get(&String::new()), 1);
    assert_eq!(stats.rows_per_time_control().get(&"blitz".to_string()), 1);
    assert_eq!(stats.rows_per_time_control().get(&"rapid".to_string()), 2);
    ingest_rows(&mut stats, &COLUMNS, &Vec::new());
    assert_eq!(stats.total_rows(), 3);
}
