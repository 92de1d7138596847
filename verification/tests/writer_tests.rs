use table_extractor::parser::PostgresParser;
use table_extractor::writer::tsv::output_delimiter_conflict;
use table_extractor::writer::{CsvWriter, TsvWriter};
use table_extractor::{Parser, Table, Writer};

#[test]
fn test_write_csv() {
    let table = Table::new(
        vec!["id".to_string(), "name".to_string()],
        vec![
            vec!["1".to_string(), "Alice".to_string()],
            vec!["2".to_string(), "Bob".to_string()],
        ],
    );

    let writer = CsvWriter::new();
    let mut output = String::new();
    writer.write(&table, &mut output).unwrap();

    assert_eq!(output, "id,name\n1,Alice\n2,Bob\n");
}

#[test]
fn test_write_csv_with_quotes() {
    let table = Table::new(
        vec!["id".to_string(), "name".to_string()],
        vec![vec![
            "1".to_string(),
            "Alice, Bob".to_string(), // Contains comma, should be quoted
        ]],
    );

    let writer = CsvWriter::new();
    let mut output = String::new();
    writer.write(&table, &mut output).unwrap();

    assert_eq!(output, "id,name\n1,\"Alice, Bob\"\n");
}

#[test]
fn test_write_tsv() {
    let table = Table::new(
        vec!["id".to_string(), "name".to_string()],
        vec![
            vec!["1".to_string(), "Alice".to_string()],
            vec!["2".to_string(), "Bob".to_string()],
        ],
    );

    let writer = TsvWriter::default();
    let mut output = String::new();
    writer.write(&table, &mut output).unwrap();

    assert_eq!(output, "id\tname\n1\tAlice\n2\tBob\n");
}

#[test]
fn test_write_custom_delimiter() {
    let table = Table::new(
        vec!["id".to_string(), "name".to_string()],
        vec![vec!["1".to_string(), "Alice".to_string()]],
    );

    let writer = TsvWriter::new('|');
    let mut output = String::new();
    writer.write(&table, &mut output).unwrap();

    assert_eq!(output, "id|name\n1|Alice\n");
}

#[test]
fn test_reject_tab_in_data() {
    let table = Table::new(
        vec!["id".to_string(), "name".to_string()],
        vec![vec!["1".to_string(), "Alice\tBob".to_string()]],
    );

    let writer = TsvWriter::default();
    let mut output = String::new();
    let result = writer.write(&table, &mut output);

    assert!(result.is_err());
    assert!(result.unwrap_err().to_string().contains("delimiter"));
}

#[test]
fn test_reject_custom_delimiter_in_data() {
    let table = Table::new(
        vec!["id".to_string(), "name".to_string()],
        vec![vec!["1".to_string(), "Uses | pipes".to_string()]],
    );

    let writer = TsvWriter::new('|');
    let mut output = String::new();
    let result = writer.write(&table, &mut output);

    assert!(result.is_err());
    let error_msg = result.unwrap_err().to_string();
    assert!(error_msg.contains("delimiter"));
    assert!(error_msg.contains("|"));
}

#[test]
fn test_reject_delimiter_in_header() {
    let table = Table::new(
        vec!["id".to_string(), "name|alias".to_string()],
        vec![vec!["1".to_string(), "Alice".to_string()]],
    );

    let writer = TsvWriter::new('|');
    let mut output = String::new();
    let result = writer.write(&table, &mut output);

    assert!(result.is_err());
    let error_msg = result.unwrap_err().to_string();
    assert!(error_msg.contains("Header"));
    assert!(error_msg.contains("name|alias"));
}

#[test]
fn test_postgres_null_round_trip_to_tsv() {
    // A PostgreSQL table with a NULL-representing empty cell keeps the
    // empty trailing field through TSV serialization
    let input = "id | name | email\n----+-------+-----\n 1 | Alice |\n";
    let table = PostgresParser.parse(input).unwrap();
    assert_eq!(table.rows()[0], vec!["1", "Alice", ""]);

    let writer = TsvWriter::default();
    let mut output = String::new();
    writer.write(&table, &mut output).unwrap();
    assert_eq!(output, "id\tname\temail\n1\tAlice\t\n");
    assert!(output.contains("1\tAlice\t"));
}

#[test]
fn test_output_delimiter_conflict_check() {
    let clean = Table::new(
        vec!["id".to_string(), "name".to_string()],
        vec![vec!["1".to_string(), "Alice".to_string()]],
    );
    assert!(output_delimiter_conflict(&clean, '\t').is_none());

    let header_conflict = Table::new(
        vec!["id".to_string(), "name|alias".to_string()],
        vec![vec!["1".to_string(), "Alice".to_string()]],
    );
    let msg = output_delimiter_conflict(&header_conflict, '|').unwrap();
    assert!(msg.contains("Header 'name|alias'"));

    let row_conflict = Table::new(
        vec!["id".to_string(), "name".to_string()],
        vec![
            vec!["1".to_string(), "Alice".to_string()],
            vec!["2".to_string(), "B|b".to_string()],
        ],
    );
    let msg = output_delimiter_conflict(&row_conflict, '|').unwrap();
    assert!(msg.contains("Row 2"));
}

#[test]
fn test_write_csv_empty_cells_quoted_distinctly() {
    // The encoder, not the caller, decides quoting: cells pass through it
    let table = Table::new(
        vec!["a".to_string(), "b".to_string()],
        vec![vec!["say \"hi\"".to_string(), "x\ny".to_string()]],
    );
    let writer = CsvWriter::new();
    let mut output = String::new();
    writer.write(&table, &mut output).unwrap();
    assert_eq!(output, "a,b\n\"say \"\"hi\"\"\",\"x\ny\"\n");
}

#[test]
fn test_write_csv_inconsistent_table_errors() {
    // An unvalidated table with mismatched row widths is refused by the
    // encoder
    let table = Table::new(
        vec!["a".to_string(), "b".to_string()],
        vec![vec!["1".to_string()]],
    );
    let writer = CsvWriter::new();
    let mut output = String::new();
    let result = writer.write(&table, &mut output);
    assert!(result.is_err());
    assert_eq!(output, "", "Nothing is appended on failure");
}
