//! The output serializers: CSV with standard quoting, and plain
//! delimiter-joined lines for TSV or a custom delimiter.

pub mod csv;
pub mod tsv;

pub use self::csv::CsvWriter;
pub use tsv::TsvWriter;
