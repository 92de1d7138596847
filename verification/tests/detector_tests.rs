use std::time::Instant;
use table_extractor::detector::{detect_format, is_md_separator_line, is_mysql_border_line};
use table_extractor::parser::postgres::is_separator_line;
use table_extractor::Format;

#[test]
fn test_detect_mysql() {
    let input = r#"+----+-------+
| id | name  |
+----+-------+
|  1 | Alice |
+----+-------+"#;
    assert_eq!(detect_format(input), Format::MySQL);
}

#[test]
fn test_detect_postgres() {
    let input = r#" id | name
----+-------
  1 | Alice
  2 | Bob"#;
    assert_eq!(detect_format(input), Format::PostgreSQL);
}

#[test]
fn test_detect_markdown() {
    let input = r#"| id | name  |
|----|-------|
| 1  | Alice |
| 2  | Bob   |"#;
    assert_eq!(detect_format(input), Format::Markdown);
}

#[test]
fn test_detect_tsv() {
    let input = "id\tname\n1\tAlice\n2\tBob";
    assert_eq!(detect_format(input), Format::TSV);
}

#[test]
fn test_detect_csv() {
    let input = "id,name\n1,Alice\n2,Bob";
    assert_eq!(detect_format(input), Format::CSV);
}

#[test]
fn test_detect_tsv_with_pipes_in_data() {
    // TSV should be detected even if data contains pipe characters
    let input = "id\tname\tdesc\n1\tAlice\tUses | pipes\n2\tBob\tNormal text";
    assert_eq!(detect_format(input), Format::TSV);
}

#[test]
fn test_postgres_sep_redos_protection() {
    // A pattern with nested unbounded quantifiers would hang on inputs of
    // many ambiguous characters followed by a non-matching one
    let attack_string = format!("{} X", " -".repeat(100));

    // This should complete quickly (not hang)
    let result = is_separator_line(&attack_string);
    assert!(
        !result,
        "Attack string should not match valid PostgreSQL separator"
    );

    // Valid PostgreSQL separators should still match
    assert!(is_separator_line("----+----+----"));
    assert!(is_separator_line("  ----+-------  "));
    assert!(is_separator_line("-+-"));
}

#[test]
fn test_markdown_sep_redos_protection() {
    // A pattern with overlapping quantifiers would hang on a pipe followed
    // by many spaces, colons and dashes without a closing pipe
    let attack_string = format!("|{} X", " :-".repeat(100));

    // This should complete quickly (not hang)
    let result = is_md_separator_line(&attack_string);
    assert!(
        !result,
        "Attack string should not match valid Markdown separator"
    );

    // Valid Markdown separators should still match
    assert!(is_md_separator_line("|---|---|"));
    assert!(is_md_separator_line("|:---|:---:|"));
    assert!(is_md_separator_line("| --- | --- |"));
    assert!(is_md_separator_line("|:-|:-:|"));
}

#[test]
fn test_mysql_border_edge_cases() {
    // The MySQL border matcher is anchored and exact
    assert!(is_mysql_border_line("+--+"));
    assert!(is_mysql_border_line("+----+----+"));
    assert!(is_mysql_border_line("+-+"));

    // Should not match invalid patterns
    assert!(!is_mysql_border_line("+ - +"));
    assert!(!is_mysql_border_line("++"));
    assert!(!is_mysql_border_line("----"));
}

#[test]
fn test_postgres_format_detection_with_various_separators() {
    // Detection with different valid PostgreSQL separator styles
    let input1 = " id | name\n----+-------\n  1 | Alice";
    assert_eq!(detect_format(input1), Format::PostgreSQL);

    let input2 = " id | name\n--+--\n  1 | Alice";
    assert_eq!(detect_format(input2), Format::PostgreSQL);

    let input3 = " id | name | age\n----+-------+-----\n  1 | Alice | 30";
    assert_eq!(detect_format(input3), Format::PostgreSQL);
}

#[test]
fn test_markdown_format_detection_with_alignment() {
    // Detection with different Markdown alignment styles
    let input1 = "| id | name |\n|---|---|\n| 1 | Alice |";
    assert_eq!(detect_format(input1), Format::Markdown);

    let input2 = "| id | name |\n|:---|:---:|\n| 1 | Alice |";
    assert_eq!(detect_format(input2), Format::Markdown);

    let input3 = "| id | name |\n| :--- | ---: |\n| 1 | Alice |";
    assert_eq!(detect_format(input3), Format::Markdown);
}

#[test]
fn test_no_catastrophic_backtracking_large_input() {
    // A large ambiguous string that would trigger catastrophic
    // backtracking in a matcher with nested quantifiers
    let large_attack = format!("{}X", " -".repeat(1000));

    // This should complete quickly
    let start = Instant::now();
    let _ = is_separator_line(&large_attack);
    let duration = start.elapsed();

    // Should complete in milliseconds, not seconds
    assert!(
        duration.as_millis() < 100,
        "Separator matching took too long: {:?}",
        duration
    );
}

#[test]
fn test_detect_empty_input_defaults_to_csv() {
    assert_eq!(detect_format(""), Format::CSV);
}

#[test]
fn test_detect_is_deterministic() {
    // Detection is a pure function: the same input always yields the same
    // format
    let inputs = [
        "",
        "id,name\n1,Alice",
        "| a |\n|---|",
        "+--+\n| a |\n+--+",
        "a\tb\n1\t2",
        " x | y\n---+---\n 1 | 2",
    ];
    for input in inputs {
        assert_eq!(detect_format(input), detect_format(input));
    }
}

#[test]
fn test_detect_precedence_mysql_over_markdown() {
    // An input holding both a MySQL border and a Markdown separator line
    // detects as MySQL: the border is checked first
    let input = "| id | name |\n|----|----|\n+----+----+\n| 1 | Alice |";
    assert_eq!(detect_format(input), Format::MySQL);
}
