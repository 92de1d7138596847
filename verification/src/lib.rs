//! Converts tabular text rendered in human-oriented display formats
//! (Markdown, MySQL CLI, PostgreSQL CLI, CSV, TSV) into one validated table
//! model, and serializes that model back out as CSV or TSV text.

use vstd::prelude::*;

pub mod detector;
pub mod error;
pub mod parser;
pub mod text;
pub mod writer;

use crate::error::err_view;
use crate::error::ErrModel;
use crate::error::Error;
use crate::text::dec_str;
use crate::text::strings_view;
use crate::text::usize_to_string;

verus! {

/// Maximum number of columns allowed in a table; wider inputs are rejected
/// to bound memory use.
pub const MAX_COLUMNS: usize = 10_000;

/// A parsed table: ordered header strings plus ordered rows of cell strings.
/// Every row of a validated table has as many cells as the header.
#[derive(Debug, Clone, PartialEq)]
pub struct Table {
    headers: Vec<String>,
    rows: Vec<Vec<String>>,
}

/// The model of a [`Table`]: its headers and rows as character sequences.
pub struct TableModel {
    pub headers: Seq<Seq<char>>,
    pub rows: Seq<Seq<Seq<char>>>,
}

/// The views of a vector of rows.
pub open spec fn rows_view(rs: Seq<Vec<String>>) -> Seq<Seq<Seq<char>>> {
    rs.map_values(|r: Vec<String>| strings_view(r@))
}

impl View for Table {
    type V = TableModel;

    closed spec fn view(&self) -> TableModel {
        TableModel { headers: strings_view(self.headers@), rows: rows_view(self.rows@) }
    }
}

/// The model of a parse result.
pub open spec fn result_view(r: Result<Table, Error>) -> Result<TableModel, ErrModel> {
    match r {
        Ok(t) => Ok(t@),
        Err(e) => Err(err_view(e)),
    }
}

/// The first row at or after `i` whose cell count disagrees with the header,
/// reported 1-indexed, or success when there is none.
pub open spec fn first_bad_from(t: TableModel, i: int) -> Result<(), ErrModel>
    decreases t.rows.len() - i,
{
    if i < 0 || i >= t.rows.len() {
        Ok(())
    } else if t.rows[i].len() != t.headers.len() {
        Err(
            ErrModel::BadColumns {
                row: i + 1,
                expected: t.headers.len() as int,
                found: t.rows[i].len() as int,
            },
        )
    } else {
        first_bad_from(t, i + 1)
    }
}

/// Whether validation of `t` succeeds, and with which error it fails.
pub open spec fn validate_spec(t: TableModel) -> Result<(), ErrModel> {
    first_bad_from(t, 0)
}

/// The message reported when a table is wider than [`MAX_COLUMNS`].
pub open spec fn too_many_columns_msg(n: int) -> Seq<char> {
    "Too many columns: "@ + dec_str(n) + " (maximum: "@ + dec_str(MAX_COLUMNS as int) + ")"@
}

/// Whether construction of a table from `hs` and `rs` succeeds: the header
/// count must not exceed the column ceiling and every row must match it.
pub open spec fn new_validated_spec(hs: Seq<Seq<char>>, rs: Seq<Seq<Seq<char>>>) -> Result<
    TableModel,
    ErrModel,
> {
    if hs.len() > MAX_COLUMNS {
        Err(ErrModel::Invalid(too_many_columns_msg(hs.len() as int)))
    } else {
        let t = TableModel { headers: hs, rows: rs };
        match validate_spec(t) {
            Ok(()) => Ok(t),
            Err(e) => Err(e),
        }
    }
}

/// Every row of `t` has exactly as many cells as the header.
pub open spec fn consistent(t: TableModel) -> bool {
    forall|i: int| 0 <= i < t.rows.len() ==> #[trigger] t.rows[i].len() == t.headers.len()
}

/// Validation succeeds exactly on the tables whose rows all match the
/// header's cell count.
pub proof fn lemma_validate_ok_iff_consistent(t: TableModel)
    ensures
        validate_spec(t) is Ok <==> consistent(t),
{
    lemma_first_bad_ok_iff(t, 0);
}

proof fn lemma_first_bad_ok_iff(t: TableModel, i: int)
    requires
        0 <= i <= t.rows.len(),
    ensures
        first_bad_from(t, i) is Ok <==> (forall|k: int|
            i <= k < t.rows.len() ==> #[trigger] t.rows[k].len() == t.headers.len()),
    decreases t.rows.len() - i,
{
    if i < t.rows.len() {
        lemma_first_bad_ok_iff(t, i + 1);
    }
}

/// Construction fails with the column-ceiling error exactly when the header
/// count exceeds [`MAX_COLUMNS`]; at or under the ceiling it succeeds
/// exactly when every row matches the header.
pub proof fn lemma_column_ceiling(hs: Seq<Seq<char>>, rs: Seq<Seq<Seq<char>>>)
    ensures
        hs.len() > MAX_COLUMNS ==> new_validated_spec(hs, rs) == Err::<TableModel, ErrModel>(
            ErrModel::Invalid(too_many_columns_msg(hs.len() as int)),
        ),
        hs.len() <= MAX_COLUMNS && consistent(TableModel { headers: hs, rows: rs })
            ==> new_validated_spec(hs, rs) == Ok::<TableModel, ErrModel>(
            TableModel { headers: hs, rows: rs },
        ),
        new_validated_spec(hs, rs) is Ok ==> hs.len() <= MAX_COLUMNS && consistent(
            TableModel { headers: hs, rows: rs },
        ),
{
    lemma_validate_ok_iff_consistent(TableModel { headers: hs, rows: rs });
    if hs.len() <= MAX_COLUMNS {
        let t = TableModel { headers: hs, rows: rs };
        if consistent(t) {
            assert(new_validated_spec(hs, rs) == Ok::<TableModel, ErrModel>(t));
        }
    }
}

impl Table {
    /// Creates a table without validation.
    pub fn new(headers: Vec<String>, rows: Vec<Vec<String>>) -> (t: Table)
        ensures
            t@.headers == strings_view(headers@),
            t@.rows == rows_view(rows@),
    {
        Table { headers, rows }
    }

    /// Checks that every row has the same number of cells as the header,
    /// reporting the first row (1-indexed) that does not.
    pub fn validate(&self) -> (r: Result<(), Error>)
        ensures
            match r {
                Ok(()) => validate_spec(self@) is Ok,
                Err(e) => validate_spec(self@) == Err::<(), ErrModel>(err_view(e)),
            },
    {
        let expected = self.headers.len();
        let n = self.rows.len();
        let mut idx: usize = 0;
        while idx < n
            invariant
                idx <= n == self@.rows.len(),
                expected == self@.headers.len(),
                n == self.rows@.len(),
                first_bad_from(self@, 0) == first_bad_from(self@, idx as int),
            decreases n - idx,
        {
            let found = self.rows[idx].len();
            proof {
                assert(self@.rows[idx as int] == strings_view(self.rows@[idx as int]@));
            }
            if found != expected {
                return Err(Error::InconsistentColumns { row: idx + 1, expected, found });
            }
            idx = idx + 1;
        }
        Ok(())
    }

    /// Creates a table and validates it: the header count must not exceed
    /// [`MAX_COLUMNS`] and every row must match the header's cell count.
    pub fn new_validated(headers: Vec<String>, rows: Vec<Vec<String>>) -> (r: Result<
        Table,
        Error,
    >)
        ensures
            result_view(r) == new_validated_spec(strings_view(headers@), rows_view(rows@)),
    {
        if headers.len() > MAX_COLUMNS {
            let mut m = String::from_str("Too many columns: ");
            let n = usize_to_string(headers.len());
            m.append(n.as_str());
            m.append(" (maximum: ");
            let c = usize_to_string(MAX_COLUMNS);
            m.append(c.as_str());
            m.append(")");
            return Err(Error::InvalidFormat(m));
        }
        let table = Table { headers, rows };
        match table.validate() {
            Ok(()) => Ok(table),
            Err(e) => Err(e),
        }
    }

    /// Whether the table has no data rows.
    pub fn is_empty(&self) -> (r: bool)
        ensures
            r == (self@.rows.len() == 0),
    {
        self.rows.len() == 0
    }

    /// The number of columns, which is the header count.
    pub fn column_count(&self) -> (r: usize)
        ensures
            r == self@.headers.len(),
    {
        self.headers.len()
    }

    /// The table's headers.
    pub fn headers(&self) -> (r: &Vec<String>)
        ensures
            strings_view(r@) == self@.headers,
    {
        &self.headers
    }

    /// The table's data rows.
    pub fn rows(&self) -> (r: &Vec<Vec<String>>)
        ensures
            rows_view(r@) == self@.rows,
    {
        &self.rows
    }

    /// Consumes the table, handing out its headers and rows.
    pub fn into_parts(self) -> (r: (Vec<String>, Vec<Vec<String>>))
        ensures
            strings_view(r.0@) == self@.headers,
            rows_view(r.1@) == self@.rows,
    {
        (self.headers, self.rows)
    }
}

/// The supported table formats, produced by detection or chosen explicitly.
#[derive(Debug, Clone, Copy, PartialEq, Eq, Structural)]
pub enum Format {
    /// Markdown tables with pipe delimiters, such as `| a | b |`.
    Markdown,
    /// MySQL CLI output with box-drawing borders, such as `+----+----+`.
    MySQL,
    /// PostgreSQL CLI output with a dash-and-plus separator, such as
    /// `----+----`.
    PostgreSQL,
    /// Comma-separated values.
    CSV,
    /// Tab-separated values.
    TSV,
}

/// `c` lowered to its ASCII lowercase counterpart; other characters are
/// unchanged.
pub open spec fn lower_char(c: char) -> char {
    if 65 <= c as u32 && c as u32 <= 90 {
        ((c as u32 + 32) as u8) as char
    } else {
        c
    }
}

/// `s` with every ASCII uppercase letter lowered.
pub open spec fn ascii_lower(s: Seq<char>) -> Seq<char> {
    s.map_values(|c: char| lower_char(c))
}

/// Lowers every ASCII uppercase letter of `s`.
pub fn ascii_lowercase(s: &str) -> (r: String)
    ensures
        r@ == ascii_lower(s@),
{
    let v = crate::text::chars_of(s);
    let n = v.len();
    let mut out = String::new();
    let mut i: usize = 0;
    proof {
        assert(out@ =~= ascii_lower(s@).take(0));
    }
    while i < n
        invariant
            i <= n == s@.len(),
            v@ == s@,
            out@ == ascii_lower(s@).take(i as int),
        decreases n - i,
    {
        let c = v[i];
        let u: u32 = c as u32;
        if 65 <= u && u <= 90 {
            crate::text::push_char(&mut out, ((u + 32) as u8) as char);
        } else {
            crate::text::push_char(&mut out, c);
        }
        i = i + 1;
        proof {
            assert(out@ =~= ascii_lower(s@).take(i as int));
        }
    }
    proof {
        assert(ascii_lower(s@).take(n as int) =~= ascii_lower(s@));
    }
    out
}

/// The message reported for an unrecognized format name `s`.
pub open spec fn invalid_format_name_msg(s: Seq<char>) -> Seq<char> {
    "Invalid format: '"@ + s + "'. Valid formats: markdown, mysql, postgres, csv, tsv"@
}

/// The format a name denotes, case-insensitively and with the accepted
/// aliases, or the message for an unrecognized name.
pub open spec fn format_of_name(s: Seq<char>) -> Result<Format, Seq<char>> {
    let t = ascii_lower(s);
    if t == "markdown"@ || t == "md"@ {
        Ok(Format::Markdown)
    } else if t == "mysql"@ {
        Ok(Format::MySQL)
    } else if t == "postgres"@ || t == "postgresql"@ || t == "psql"@ {
        Ok(Format::PostgreSQL)
    } else if t == "csv"@ {
        Ok(Format::CSV)
    } else if t == "tsv"@ {
        Ok(Format::TSV)
    } else {
        Err(invalid_format_name_msg(s))
    }
}

impl Format {
    /// The canonical lowercase name of the format.
    pub open spec fn spec_name(self) -> Seq<char> {
        match self {
            Format::Markdown => "markdown"@,
            Format::MySQL => "mysql"@,
            Format::PostgreSQL => "postgresql"@,
            Format::CSV => "csv"@,
            Format::TSV => "tsv"@,
        }
    }

    /// Renders the canonical lowercase name of the format.
    pub fn to_string(&self) -> (r: String)
        ensures
            r@ == self.spec_name(),
    {
        match self {
            Format::Markdown => String::from_str("markdown"),
            Format::MySQL => String::from_str("mysql"),
            Format::PostgreSQL => String::from_str("postgresql"),
            Format::CSV => String::from_str("csv"),
            Format::TSV => String::from_str("tsv"),
        }
    }

    /// Parses a format name, case-insensitively; accepts the aliases `md`,
    /// `postgres` and `psql`.
    pub fn parse_name(s: &str) -> (r: Result<Format, String>)
        ensures
            match r {
                Ok(f) => format_of_name(s@) == Ok::<Format, Seq<char>>(f),
                Err(m) => format_of_name(s@) == Err::<Format, Seq<char>>(m@),
            },
    {
        let t = ascii_lowercase(s);
        if t == String::from_str("markdown") || t == String::from_str("md") {
            Ok(Format::Markdown)
        } else if t == String::from_str("mysql") {
            Ok(Format::MySQL)
        } else if t == String::from_str("postgres") || t == String::from_str("postgresql") || t
            == String::from_str("psql") {
            Ok(Format::PostgreSQL)
        } else if t == String::from_str("csv") {
            Ok(Format::CSV)
        } else if t == String::from_str("tsv") {
            Ok(Format::TSV)
        } else {
            let mut m = String::from_str("Invalid format: '");
            m.append(s);
            m.append("'. Valid formats: markdown, mysql, postgres, csv, tsv");
            Err(m)
        }
    }
}

/// Lowering a sequence without ASCII uppercase letters changes nothing.
proof fn lemma_ascii_lower_lowercase(s: Seq<char>)
    requires
        forall|i: int| 0 <= i < s.len() ==> !(65 <= (#[trigger] s[i]) as u32 && s[i] as u32 <= 90),
    ensures
        ascii_lower(s) == s,
{
    assert(ascii_lower(s) =~= s);
}

/// Round trip: the canonical name of every format parses back to that
/// format.
pub proof fn lemma_format_name_roundtrip(f: Format)
    ensures
        format_of_name(f.spec_name()) == Ok::<Format, Seq<char>>(f),
{
    reveal_strlit("markdown");
    reveal_strlit("md");
    reveal_strlit("mysql");
    reveal_strlit("postgres");
    reveal_strlit("postgresql");
    reveal_strlit("psql");
    reveal_strlit("csv");
    reveal_strlit("tsv");
    lemma_ascii_lower_lowercase(f.spec_name());
    match f {
        Format::Markdown => {
            assert(format_of_name("markdown"@) == Ok::<Format, Seq<char>>(Format::Markdown));
        },
        Format::MySQL => {
            assert(format_of_name("mysql"@) == Ok::<Format, Seq<char>>(Format::MySQL));
        },
        Format::PostgreSQL => {
            assert(format_of_name("postgresql"@) == Ok::<Format, Seq<char>>(Format::PostgreSQL));
        },
        Format::CSV => {
            assert(format_of_name("csv"@) == Ok::<Format, Seq<char>>(Format::CSV));
        },
        Format::TSV => {
            assert("tsv"@ != "csv"@) by {
                assert("tsv"@[0] == 't');
                assert("csv"@[0] == 'c');
            }
            assert(format_of_name("tsv"@) == Ok::<Format, Seq<char>>(Format::TSV));
        },
    }
}

impl core::str::FromStr for Format {
    type Err = String;

    fn from_str(s: &str) -> Result<Format, String> {
        Format::parse_name(s)
    }
}

/// The parse that [`parse_with_format`] performs: the tagged format
/// selects the parser; CSV and TSV take the delimiter override, or their
/// own default (comma, byte 44, and tab, byte 9).
pub open spec fn dispatch_spec(
    format: Format,
    input: Seq<char>,
    input_delimiter: Option<u8>,
) -> Result<TableModel, ErrModel> {
    match format {
        Format::Markdown => crate::parser::markdown::md_parse_spec(input),
        Format::MySQL => crate::parser::mysql::mysql_parse_spec(input),
        Format::PostgreSQL => crate::parser::postgres::pg_parse_spec(input),
        Format::CSV => crate::parser::csv::csv_parse_spec(
            input,
            match input_delimiter {
                Some(d) => d,
                None => 44u8,
            },
        ),
        Format::TSV => crate::parser::csv::csv_parse_spec(
            input,
            match input_delimiter {
                Some(d) => d,
                None => 9u8,
            },
        ),
    }
}

/// Parses `input` with the parser the format tag selects; the delimiter
/// override applies to the delimiter-separated formats only.
pub fn parse_with_format(format: Format, input: &str, input_delimiter: Option<u8>) -> (r: Result<
    Table,
    Error,
>)
    ensures
        result_view(r) == dispatch_spec(format, input@, input_delimiter),
{
    match format {
        Format::Markdown => {
            let p = crate::parser::MarkdownParser;
            p.parse(input)
        },
        Format::MySQL => {
            let p = crate::parser::MySqlParser;
            p.parse(input)
        },
        Format::PostgreSQL => {
            let p = crate::parser::PostgresParser;
            p.parse(input)
        },
        Format::CSV => {
            let d = match input_delimiter {
                Some(d) => d,
                None => 44,
            };
            let p = crate::parser::CsvParser::new(d);
            p.parse(input)
        },
        Format::TSV => {
            let d = match input_delimiter {
                Some(d) => d,
                None => 9,
            };
            let p = crate::parser::CsvParser::new(d);
            p.parse(input)
        },
    }
}

/// A parser from raw text to a validated table. Each implementation gives
/// its exact model as [`Parser::spec_parse`], and its executable `parse`
/// returns precisely that model's result.
pub trait Parser {
    /// The parse that this parser performs, at the model level.
    spec fn spec_parse(&self, input: Seq<char>) -> Result<TableModel, ErrModel>;

    /// Parses the input into a validated table.
    fn parse(&self, input: &str) -> (r: Result<Table, Error>)
        ensures
            result_view(r) == self.spec_parse(input@),
    ;
}

/// A writer from a validated table to output text. Each implementation
/// gives its rendering as [`Writer::spec_write`]; on failure,
/// [`Writer::spec_write_partial`] is what has been appended to the output
/// and [`Writer::err_matches`] delimits the reported error.
pub trait Writer {
    /// The rendering that this writer produces, or that it fails, at the
    /// model level; which error it then reports is delimited by
    /// [`Writer::err_matches`].
    spec fn spec_write(&self, t: TableModel) -> Result<Seq<char>, ()>;

    /// What the writer has appended to the output when it fails.
    spec fn spec_write_partial(&self, t: TableModel) -> Seq<char>;

    /// Which reported errors are consistent with a failure on `t`.
    spec fn err_matches(&self, t: TableModel, e: ErrModel) -> bool;

    /// Appends the rendered table to `out`.
    fn write(&self, table: &Table, out: &mut String) -> (r: Result<(), Error>)
        ensures
            match r {
                Ok(()) => self.spec_write(table@) matches Ok(text) && final(out)@ == old(out)@
                    + text,
                Err(e) => self.spec_write(table@) is Err && self.err_matches(
                    table@,
                    err_view(e),
                ) && final(out)@ == old(out)@ + self.spec_write_partial(table@),
            },
    ;
}

} // verus!
