//! The per-format parsers: each consumes raw text and produces a validated
//! table or a structural error, exactly as its model-level specification
//! says.

pub mod csv;
pub mod markdown;
pub mod mysql;
pub mod postgres;


pub use self::csv::CsvParser;
pub use markdown::MarkdownParser;
pub use mysql::MySqlParser;
pub use postgres::PostgresParser;
