use std::str::FromStr;
use table_extractor::error::Error;
use table_extractor::{Format, Table};

#[test]
fn test_validate_consistent_columns() {
    let table = Table::new(
        vec!["id".to_string(), "name".to_string()],
        vec![
            vec!["1".to_string(), "Alice".to_string()],
            vec!["2".to_string(), "Bob".to_string()],
        ],
    );
    assert!(table.validate().is_ok());
}

#[test]
fn test_validate_inconsistent_columns() {
    let table = Table::new(
        vec!["id".to_string(), "name".to_string()],
        vec![
            vec!["1".to_string(), "Alice".to_string()],
            vec!["2".to_string()], // Missing column
        ],
    );
    let result = table.validate();
    assert!(result.is_err());
    if let Err(Error::InconsistentColumns {
        row,
        expected,
        found,
    }) = result
    {
        assert_eq!(row, 2);
        assert_eq!(expected, 2);
        assert_eq!(found, 1);
    } else {
        panic!("Expected InconsistentColumns error");
    }
}

#[test]
fn test_new_validated_success() {
    let result = Table::new_validated(
        vec!["id".to_string(), "name".to_string()],
        vec![
            vec!["1".to_string(), "Alice".to_string()],
            vec!["2".to_string(), "Bob".to_string()],
        ],
    );
    assert!(result.is_ok());
}

#[test]
fn test_new_validated_fails_on_inconsistent_columns() {
    let result = Table::new_validated(
        vec!["id".to_string(), "name".to_string()],
        vec![
            vec!["1".to_string(), "Alice".to_string()],
            vec!["2".to_string()], // Missing column
        ],
    );
    assert!(result.is_err());
}

#[test]
fn test_validate_empty_table() {
    let table = Table::new(vec![], vec![]);
    assert!(table.validate().is_ok());
}

#[test]
fn test_validate_no_rows() {
    let table = Table::new(vec!["id".to_string(), "name".to_string()], vec![]);
    assert!(table.validate().is_ok());
}

#[test]
fn test_new_validated_rejects_too_many_columns() {
    let headers: Vec<String> = (0..10001).map(|i| format!("col{}", i)).collect();
    let result = Table::new_validated(headers, vec![]);
    assert!(result.is_err());
    if let Err(Error::InvalidFormat(msg)) = result {
        assert!(msg.contains("Too many columns"));
        assert!(msg.contains("10001"));
        assert!(msg.contains("10000"));
    } else {
        panic!("Expected InvalidFormat error");
    }
}

#[test]
fn test_new_validated_accepts_max_columns() {
    let headers: Vec<String> = (0..10000).map(|i| format!("col{}", i)).collect();
    let result = Table::new_validated(headers, vec![]);
    assert!(result.is_ok());
}

#[test]
fn test_new_validated_accepts_just_under_max() {
    let headers: Vec<String> = (0..9999).map(|i| format!("col{}", i)).collect();
    let result = Table::new_validated(headers, vec![]);
    assert!(result.is_ok());
}

#[test]
fn test_format_display() {
    // The canonical name of each Format variant
    assert_eq!(Format::Markdown.to_string(), "markdown");
    assert_eq!(Format::MySQL.to_string(), "mysql");
    assert_eq!(Format::PostgreSQL.to_string(), "postgresql");
    assert_eq!(Format::CSV.to_string(), "csv");
    assert_eq!(Format::TSV.to_string(), "tsv");
}

#[test]
fn test_format_display_roundtrip() {
    // The canonical name parses back to the same Format
    let formats = vec![
        Format::Markdown,
        Format::MySQL,
        Format::PostgreSQL,
        Format::CSV,
        Format::TSV,
    ];

    for format in formats {
        let string = format.to_string();
        let parsed = Format::from_str(&string).unwrap();
        assert_eq!(format, parsed, "Round-trip failed for {}", string);
    }
}

#[test]
fn test_format_from_str_aliases() {
    assert_eq!(Format::from_str("markdown").unwrap(), Format::Markdown);
    assert_eq!(Format::from_str("md").unwrap(), Format::Markdown);
    assert_eq!(Format::from_str("MySQL").unwrap(), Format::MySQL);
    assert_eq!(Format::from_str("psql").unwrap(), Format::PostgreSQL);
    assert_eq!(Format::from_str("postgres").unwrap(), Format::PostgreSQL);
    assert_eq!(Format::from_str("POSTGRESQL").unwrap(), Format::PostgreSQL);
    assert_eq!(Format::from_str("csv").unwrap(), Format::CSV);
    assert_eq!(Format::from_str("tsv").unwrap(), Format::TSV);
}

#[test]
fn test_format_from_str_rejects_unknown() {
    let err = Format::from_str("excel").unwrap_err();
    assert_eq!(
        err,
        "Invalid format: 'excel'. Valid formats: markdown, mysql, postgres, csv, tsv"
    );
}

#[test]
fn test_error_to_string_io() {
    let e = Error::IoError("broken pipe".to_string());
    assert_eq!(e.to_string(), "I/O error: broken pipe");
}

#[test]
fn test_error_to_string_inconsistent() {
    let e = Error::InconsistentColumns {
        row: 12,
        expected: 30,
        found: 405,
    };
    assert_eq!(
        e.to_string(),
        "Inconsistent column count at row 12: expected 30, found 405"
    );
}

#[test]
fn test_table_accessors() {
    let table = Table::new(
        vec!["id".to_string(), "name".to_string()],
        vec![vec!["1".to_string(), "Alice".to_string()]],
    );
    assert_eq!(table.column_count(), 2);
    assert!(!table.is_empty());
    assert_eq!(table.headers(), &["id", "name"]);
    assert_eq!(table.rows().len(), 1);
    let (headers, rows) = table.into_parts();
    assert_eq!(headers, vec!["id", "name"]);
    assert_eq!(rows, vec![vec!["1", "Alice"]]);
}

#[test]
fn test_many_columns() {
    // A table with 1000 columns
    let mut headers = Vec::new();
    let mut row = Vec::new();

    for i in 0..1000 {
        headers.push(format!("col{}", i));
        row.push(i.to_string());
    }

    let table = Table::new_validated(headers.clone(), vec![row.clone()]);
    assert!(table.is_ok());

    let table = table.unwrap();
    assert_eq!(table.column_count(), 1000);
    assert_eq!(table.rows().len(), 1);
    assert_eq!(table.rows()[0].len(), 1000);
}

#[test]
fn test_max_columns_limit() {
    // Exactly at the limit (10,000 columns)
    let headers: Vec<String> = (0..10_000).map(|i| format!("col{}", i)).collect();
    let result = Table::new_validated(headers, vec![]);
    assert!(result.is_ok());
}

#[test]
fn test_exceed_max_columns() {
    // Exceeding the limit (10,001 columns)
    let headers: Vec<String> = (0..10_001).map(|i| format!("col{}", i)).collect();
    let result = Table::new_validated(headers, vec![]);

    assert!(result.is_err());
    let err_msg = result.unwrap_err().to_string();
    assert!(err_msg.contains("Too many columns"));
    assert!(err_msg.contains("10001"));
    assert!(err_msg.contains("10000"));
}

#[test]
fn test_very_long_cell() {
    // A cell with 1 MB of data
    let long_cell = "a".repeat(1_000_000); // 1 MB

    let table = Table::new_validated(
        vec!["id".to_string(), "data".to_string()],
        vec![vec!["1".to_string(), long_cell.clone()]],
    );

    assert!(table.is_ok());
    let table = table.unwrap();
    assert_eq!(table.rows()[0][1].len(), 1_000_000);
}

#[test]
fn test_single_column_table() {
    let table = Table::new_validated(
        vec!["id".to_string()],
        vec![
            vec!["1".to_string()],
            vec!["2".to_string()],
            vec!["3".to_string()],
        ],
    );

    assert!(table.is_ok());
    let table = table.unwrap();
    assert_eq!(table.column_count(), 1);
    assert_eq!(table.rows().len(), 3);
}

#[test]
fn test_table_with_empty_cells() {
    let table = Table::new_validated(
        vec!["id".to_string(), "name".to_string(), "email".to_string()],
        vec![
            vec![
                "1".to_string(),
                "Alice".to_string(),
                "alice@example.com".to_string(),
            ],
            vec!["2".to_string(), "".to_string(), "".to_string()], // Empty cells
            vec![
                "3".to_string(),
                "Charlie".to_string(),
                "charlie@example.com".to_string(),
            ],
        ],
    );

    assert!(table.is_ok());
    let table = table.unwrap();
    assert_eq!(table.rows()[1][1], "");
    assert_eq!(table.rows()[1][2], "");
}

#[test]
fn test_headers_only_no_data() {
    let table = Table::new_validated(
        vec!["id".to_string(), "name".to_string(), "email".to_string()],
        vec![],
    );

    assert!(table.is_ok());
    let table = table.unwrap();
    assert!(table.is_empty());
    assert_eq!(table.column_count(), 3);
}

#[test]
fn test_special_characters_in_headers() {
    let table = Table::new_validated(
        vec![
            "id@#$".to_string(),
            "name%^&".to_string(),
            "email*()".to_string(),
        ],
        vec![vec![
            "1".to_string(),
            "Alice".to_string(),
            "alice@example.com".to_string(),
        ]],
    );

    assert!(table.is_ok());
}

#[test]
fn test_all_empty_cells() {
    let table = Table::new_validated(
        vec!["col1".to_string(), "col2".to_string(), "col3".to_string()],
        vec![
            vec!["".to_string(), "".to_string(), "".to_string()],
            vec!["".to_string(), "".to_string(), "".to_string()],
        ],
    );

    assert!(table.is_ok());
}

#[test]
fn test_mixed_row_lengths_detected() {
    let table = Table::new_validated(
        vec!["a".to_string(), "b".to_string(), "c".to_string()],
        vec![
            vec!["1".to_string(), "2".to_string(), "3".to_string()], // 3 columns - OK
            vec!["4".to_string(), "5".to_string()],                  // 2 columns - ERROR
        ],
    );

    assert!(table.is_err());
    let err = table.unwrap_err();
    assert!(err.to_string().contains("row 2"));
    assert!(err.to_string().contains("expected 3"));
    assert!(err.to_string().contains("found 2"));
}

#[test]
fn test_extra_columns_in_row() {
    let table = Table::new_validated(
        vec!["a".to_string(), "b".to_string()],
        vec![
            vec!["1".to_string(), "2".to_string()], // 2 columns - OK
            vec!["3".to_string(), "4".to_string(), "5".to_string()], // 3 columns - ERROR
        ],
    );

    assert!(table.is_err());
    let err = table.unwrap_err();
    assert!(err.to_string().contains("row 2"));
    assert!(err.to_string().contains("expected 2"));
    assert!(err.to_string().contains("found 3"));
}
