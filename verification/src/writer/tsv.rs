//! Delimiter-joined writer for TSV and other single-character delimiters.
//! The delimiter admits no escaping, so any header or cell that contains
//! it is rejected before it could corrupt the output.

use vstd::prelude::*;

use crate::error::err_view;
use crate::error::ErrModel;
use crate::error::Error;
use crate::text::dec_str;
use crate::text::has_char;
use crate::text::push_char;
use crate::text::str_contains_char;
use crate::text::strings_view;
use crate::text::usize_to_string;
use crate::Table;
use crate::TableModel;
use crate::Writer;

verus! {

/// The first `i` cells joined with the delimiter `d` between them.
pub open spec fn join_upto(cells: Seq<Seq<char>>, d: char, i: int) -> Seq<char>
    decreases i,
{
    if i <= 0 {
        Seq::empty()
    } else if i == 1 {
        cells[0]
    } else {
        join_upto(cells, d, i - 1) + seq![d] + cells[i - 1]
    }
}

/// The cells joined with the delimiter `d` between them.
pub open spec fn joined(cells: Seq<Seq<char>>, d: char) -> Seq<char> {
    join_upto(cells, d, cells.len() as int)
}

/// The first `i` rows, each joined and ended with a line feed.
pub open spec fn row_lines_upto(rows: Seq<Seq<Seq<char>>>, d: char, i: int) -> Seq<char>
    decreases i,
{
    if i <= 0 {
        Seq::empty()
    } else {
        row_lines_upto(rows, d, i - 1) + joined(rows[i - 1], d) + seq!['\n']
    }
}

/// The first header at or after `i` that contains the delimiter, or the
/// header count when none does.
pub open spec fn first_header_conflict(hs: Seq<Seq<char>>, d: char, i: int) -> int
    decreases hs.len() - i,
{
    if i < 0 || i >= hs.len() {
        hs.len() as int
    } else if has_char(hs[i], d) {
        i
    } else {
        first_header_conflict(hs, d, i + 1)
    }
}

/// Whether some cell of the row contains the delimiter.
pub open spec fn row_conflicts(row: Seq<Seq<char>>, d: char) -> bool {
    exists|c: int| 0 <= c < row.len() && has_char(#[trigger] row[c], d)
}

/// The first row at or after `i` with a cell that contains the delimiter,
/// or the row count when none has one.
pub open spec fn first_row_conflict(rows: Seq<Seq<Seq<char>>>, d: char, i: int) -> int
    decreases rows.len() - i,
{
    if i < 0 || i >= rows.len() {
        rows.len() as int
    } else if row_conflicts(rows[i], d) {
        i
    } else {
        first_row_conflict(rows, d, i + 1)
    }
}

/// The message reported when header `h` contains the delimiter.
pub open spec fn header_conflict_msg(h: Seq<char>, d: char) -> Seq<char> {
    "Header '"@ + h + "' contains delimiter character '"@ + seq![d]
        + "'. Use -o csv for proper escaping."@
}

/// The message reported when the 0-indexed row `idx` contains the
/// delimiter; rows are reported 1-indexed.
pub open spec fn row_conflict_msg(idx: int, d: char) -> Seq<char> {
    "Row "@ + dec_str(idx + 1) + " contains delimiter character '"@ + seq![d]
        + "' in data. Use -o csv for proper escaping."@
}

/// The full successful rendering: the joined header line, then each row.
pub open spec fn tsv_write_ok(t: TableModel, d: char) -> Seq<char> {
    joined(t.headers, d) + seq!['\n'] + row_lines_upto(t.rows, d, t.rows.len() as int)
}

/// Whether writing succeeds: it fails exactly when a header or a cell
/// contains the delimiter.
pub open spec fn tsv_write_spec(t: TableModel, d: char) -> Result<Seq<char>, ()> {
    if first_header_conflict(t.headers, d, 0) < t.headers.len() || first_row_conflict(
        t.rows,
        d,
        0,
    ) < t.rows.len() {
        Err(())
    } else {
        Ok(tsv_write_ok(t, d))
    }
}

/// The error reported on failure: the first conflicting header wins over
/// any conflicting row.
pub open spec fn tsv_write_err(t: TableModel, d: char) -> ErrModel {
    let hc = first_header_conflict(t.headers, d, 0);
    if hc < t.headers.len() {
        ErrModel::Invalid(header_conflict_msg(t.headers[hc], d))
    } else {
        ErrModel::Invalid(row_conflict_msg(first_row_conflict(t.rows, d, 0), d))
    }
}

/// What has been appended to the output when writing fails: nothing on a
/// header conflict; the header line and the rows before the first
/// conflicting one on a row conflict.
pub open spec fn tsv_write_partial(t: TableModel, d: char) -> Seq<char> {
    if first_header_conflict(t.headers, d, 0) < t.headers.len() {
        Seq::empty()
    } else {
        joined(t.headers, d) + seq!['\n'] + row_lines_upto(
            t.rows,
            d,
            first_row_conflict(t.rows, d, 0),
        )
    }
}

/// Joins the cells with the delimiter between them.
fn join_cells(cells: &Vec<String>, d: char) -> (r: String)
    ensures
        r@ == joined(strings_view(cells@), d),
{
    let n = cells.len();
    let mut r = String::new();
    let mut i: usize = 0;
    proof {
        assert(r@ =~= join_upto(strings_view(cells@), d, 0));
    }
    while i < n
        invariant
            i <= n == cells@.len(),
            r@ == join_upto(strings_view(cells@), d, i as int),
        decreases n - i,
    {
        if i > 0 {
            push_char(&mut r, d);
        }
        r.append(cells[i].as_str());
        proof {
            assert(cells@[i as int]@ == strings_view(cells@)[i as int]);
            if i == 0 {
                assert(r@ =~= join_upto(strings_view(cells@), d, 1));
            } else {
                assert(r@ =~= join_upto(strings_view(cells@), d, i + 1));
            }
        }
        i = i + 1;
    }
    r
}

/// Whether some cell of the row contains the delimiter.
fn row_has_conflict(row: &Vec<String>, d: char) -> (b: bool)
    ensures
        b == row_conflicts(strings_view(row@), d),
{
    let n = row.len();
    let mut c: usize = 0;
    while c < n
        invariant
            c <= n == row@.len(),
            forall|j: int| 0 <= j < c ==> !has_char(#[trigger] strings_view(row@)[j], d),
        decreases n - c,
    {
        if str_contains_char(row[c].as_str(), d) {
            proof {
                assert(has_char(strings_view(row@)[c as int], d));
            }
            return true;
        }
        c = c + 1;
    }
    false
}

/// Writes tables as delimiter-joined lines; tab-separated by default.
pub struct TsvWriter {
    delimiter: char,
}

impl TsvWriter {
    /// The output delimiter this writer joins with.
    pub closed spec fn spec_delimiter(&self) -> char {
        self.delimiter
    }

    /// A writer over the given output delimiter.
    pub fn new(delimiter: char) -> (r: Self)
        ensures
            r.spec_delimiter() == delimiter,
    {
        TsvWriter { delimiter }
    }
}

impl Default for TsvWriter {
    /// The tab-separated writer.
    fn default() -> (r: Self)
        ensures
            r.spec_delimiter() == '\t',
    {
        TsvWriter::new('\t')
    }
}

impl Writer for TsvWriter {
    open spec fn spec_write(&self, t: TableModel) -> Result<Seq<char>, ()> {
        tsv_write_spec(t, self.spec_delimiter())
    }

    open spec fn spec_write_partial(&self, t: TableModel) -> Seq<char> {
        tsv_write_partial(t, self.spec_delimiter())
    }

    open spec fn err_matches(&self, t: TableModel, e: ErrModel) -> bool {
        e == tsv_write_err(t, self.spec_delimiter())
    }

    fn write(&self, table: &Table, out: &mut String) -> (r: Result<(), Error>) {
        let d = self.delimiter;
        let hs = table.headers();
        let ghost hv = table@.headers;
        let nh = hs.len();
        let mut k: usize = 0;
        while k < nh
            invariant
                k <= nh == hv.len(),
                strings_view(hs@) == hv,
                hv == table@.headers,
                first_header_conflict(hv, d, 0) == first_header_conflict(hv, d, k as int),
                d == self.spec_delimiter(),
                out@ == old(out)@,
            decreases nh - k,
        {
            if str_contains_char(hs[k].as_str(), d) {
                proof {
                    assert(has_char(hv[k as int], d));
                    assert(first_header_conflict(hv, d, 0) == k);
                }
                let mut m = String::from_str("Header '");
                m.append(hs[k].as_str());
                m.append("' contains delimiter character '");
                push_char(&mut m, d);
                m.append("'. Use -o csv for proper escaping.");
                proof {
                    assert(m@ =~= header_conflict_msg(hv[k as int], d));
                    assert(old(out)@ + tsv_write_partial(table@, d) =~= old(out)@);
                }
                return Err(Error::InvalidFormat(m));
            }
            k = k + 1;
        }
        let hline = join_cells(hs, d);
        out.append(hline.as_str());
        push_char(out, '\n');
        let rows = table.rows();
        let ghost rv = table@.rows;
        let nr = rows.len();
        let mut i: usize = 0;
        proof {
            assert(out@ =~= old(out)@ + (joined(hv, d) + seq!['\n'] + row_lines_upto(
                rv,
                d,
                0,
            )));
        }
        while i < nr
            invariant
                i <= nr == rv.len(),
                rows_view_ok(rows@, rv),
                strings_view(hs@) == hv,
                hv == table@.headers,
                rv == table@.rows,
                d == self.spec_delimiter(),
                first_header_conflict(hv, d, 0) == hv.len(),
                first_row_conflict(rv, d, 0) == first_row_conflict(rv, d, i as int),
                out@ == old(out)@ + (joined(hv, d) + seq!['\n'] + row_lines_upto(
                    rv,
                    d,
                    i as int,
                )),
            decreases nr - i,
        {
            proof {
                assert(crate::rows_view(rows@)[i as int] == strings_view(rows@[i as int]@));
            }
            if row_has_conflict(&rows[i], d) {
                proof {
                    assert(row_conflicts(rv[i as int], d));
                    assert(first_row_conflict(rv, d, 0) == i);
                }
                let mut m = String::from_str("Row ");
                let num = usize_to_string(i + 1);
                m.append(num.as_str());
                m.append(" contains delimiter character '");
                push_char(&mut m, d);
                m.append("' in data. Use -o csv for proper escaping.");
                proof {
                    assert(m@ =~= row_conflict_msg(i as int, d));
                    assert(out@ =~= old(out)@ + tsv_write_partial(table@, d));
                }
                return Err(Error::InvalidFormat(m));
            }
            let rline = join_cells(&rows[i], d);
            out.append(rline.as_str());
            push_char(out, '\n');
            proof {
                assert(out@ =~= old(out)@ + (joined(hv, d) + seq!['\n'] + row_lines_upto(
                    rv,
                    d,
                    i + 1,
                )));
            }
            i = i + 1;
        }
        proof {
            assert(tsv_write_spec(table@, d) is Ok);
            assert(out@ =~= old(out)@ + tsv_write_ok(table@, d));
        }
        Ok(())
    }
}

/// The rows vector views elementwise as the model rows.
pub open spec fn rows_view_ok(rows: Seq<Vec<String>>, rv: Seq<Seq<Seq<char>>>) -> bool {
    crate::rows_view(rows) == rv
}

/// Checks the table against an output delimiter before any writing
/// begins, handing back the message the delimiter-joined writer would
/// fail with: the first conflicting header, or else the first row with a
/// conflicting cell. `None` means no header and no cell contains the
/// delimiter.
pub fn output_delimiter_conflict(table: &Table, delimiter: char) -> (r: Option<String>)
    ensures
        match r {
            None => first_header_conflict(table@.headers, delimiter, 0) == table@.headers.len()
                && first_row_conflict(table@.rows, delimiter, 0) == table@.rows.len(),
            Some(m) => (first_header_conflict(table@.headers, delimiter, 0)
                < table@.headers.len() || first_row_conflict(table@.rows, delimiter, 0)
                < table@.rows.len()) && ErrModel::Invalid(m@) == tsv_write_err(
                table@,
                delimiter,
            ),
        },
{
    let d = delimiter;
    let hs = table.headers();
    let ghost hv = table@.headers;
    let nh = hs.len();
    let mut k: usize = 0;
    while k < nh
        invariant
            k <= nh == hv.len(),
            strings_view(hs@) == hv,
            hv == table@.headers,
            d == delimiter,
            first_header_conflict(hv, d, 0) == first_header_conflict(hv, d, k as int),
        decreases nh - k,
    {
        if str_contains_char(hs[k].as_str(), d) {
            proof {
                assert(has_char(hv[k as int], d));
                assert(first_header_conflict(hv, d, 0) == k);
            }
            let mut m = String::from_str("Header '");
            m.append(hs[k].as_str());
            m.append("' contains delimiter character '");
            push_char(&mut m, d);
            m.append("'. Use -o csv for proper escaping.");
            proof {
                assert(m@ =~= header_conflict_msg(hv[k as int], d));
            }
            return Some(m);
        }
        k = k + 1;
    }
    let rows = table.rows();
    let ghost rv = table@.rows;
    let nr = rows.len();
    let mut i: usize = 0;
    while i < nr
        invariant
            i <= nr == rv.len(),
            rows_view_ok(rows@, rv),
            rv == table@.rows,
            hv == table@.headers,
            d == delimiter,
            first_header_conflict(hv, d, 0) == hv.len(),
            first_row_conflict(rv, d, 0) == first_row_conflict(rv, d, i as int),
        decreases nr - i,
    {
        proof {
            assert(crate::rows_view(rows@)[i as int] == strings_view(rows@[i as int]@));
        }
        if row_has_conflict(&rows[i], d) {
            proof {
                assert(row_conflicts(rv[i as int], d));
                assert(first_row_conflict(rv, d, 0) == i);
            }
            let mut m = String::from_str("Row ");
            let num = usize_to_string(i + 1);
            m.append(num.as_str());
            m.append(" contains delimiter character '");
            push_char(&mut m, d);
            m.append("' in data. Use -o csv for proper escaping.");
            proof {
                assert(m@ =~= row_conflict_msg(i as int, d));
            }
            return Some(m);
        }
        i = i + 1;
    }
    None
}

} // verus!
