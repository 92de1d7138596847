//! The error taxonomy shared by all parsers and writers, and its
//! mathematical model.

use vstd::prelude::*;

use crate::text::dec_str;
use crate::text::usize_to_string;

verus! {

/// Errors raised while parsing, validating or writing tables.
#[derive(Debug)]
pub enum Error {
    /// Malformed low-level syntax, such as a broken quoted field; carries a
    /// human-readable description.
    ParseError(String),
    /// A failure in the surrounding input or output layer, carrying the
    /// lower-level cause's description.
    IoError(String),
    /// A structural or policy violation, such as exceeding the column
    /// ceiling or an unrecognized format name.
    InvalidFormat(String),
    /// A data row whose cell count disagrees with the header; `row` is
    /// 1-indexed over data rows.
    InconsistentColumns { row: usize, expected: usize, found: usize },
}

/// The model of an [`Error`]: the same tags over sequences and integers.
pub enum ErrModel {
    Parse(Seq<char>),
    Io(Seq<char>),
    Invalid(Seq<char>),
    BadColumns { row: int, expected: int, found: int },
}

/// The model that an [`Error`] value denotes.
pub open spec fn err_view(e: Error) -> ErrModel {
    match e {
        Error::ParseError(m) => ErrModel::Parse(m@),
        Error::IoError(m) => ErrModel::Io(m@),
        Error::InvalidFormat(m) => ErrModel::Invalid(m@),
        Error::InconsistentColumns { row, expected, found } => ErrModel::BadColumns {
            row: row as int,
            expected: expected as int,
            found: found as int,
        },
    }
}

/// The human-readable message for each error model.
pub open spec fn err_message(m: ErrModel) -> Seq<char> {
    match m {
        ErrModel::Parse(s) => "Parse error: "@ + s,
        ErrModel::Io(s) => "I/O error: "@ + s,
        ErrModel::Invalid(s) => "Invalid format: "@ + s,
        ErrModel::BadColumns { row, expected, found } => "Inconsistent column count at row "@
            + dec_str(row) + ": expected "@ + dec_str(expected) + ", found "@ + dec_str(found),
    }
}

impl Error {
    /// Renders the error as its human-readable message.
    pub fn to_string(&self) -> (r: String)
        ensures
            r@ == err_message(err_view(*self)),
    {
        match self {
            Error::ParseError(m) => {
                let mut s = String::from_str("Parse error: ");
                s.append(m.as_str());
                s
            },
            Error::IoError(m) => {
                let mut s = String::from_str("I/O error: ");
                s.append(m.as_str());
                s
            },
            Error::InvalidFormat(m) => {
                let mut s = String::from_str("Invalid format: ");
                s.append(m.as_str());
                s
            },
            Error::InconsistentColumns { row, expected, found } => {
                let mut s = String::from_str("Inconsistent column count at row ");
                let r = usize_to_string(*row);
                s.append(r.as_str());
                s.append(": expected ");
                let e = usize_to_string(*expected);
                s.append(e.as_str());
                s.append(", found ");
                let f = usize_to_string(*found);
                s.append(f.as_str());
                s
            },
        }
    }
}

} // verus!
