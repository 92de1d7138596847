//! PostgreSQL CLI table parser: a single dash-and-plus separator line
//! divides the header from the data, and lines carry no enclosing pipes.
//! Cells are split on `|` and trimmed; empty cells are preserved, since an
//! empty cell stands for a SQL NULL and dropping it would shift the
//! columns after it.

use vstd::prelude::*;

use crate::detector::is_pg_separator;
use crate::detector::is_pg_separator_line;
use crate::error::ErrModel;
use crate::error::Error;
use crate::text::chars_of;
use crate::text::is_blank;
use crate::text::is_blank_line;
use crate::text::lines_of;
use crate::text::skip_ws;
use crate::text::skip_ws_back;
use crate::text::split_lines;
use crate::text::split_trim_in;
use crate::text::split_trim_range;
use crate::text::strings_view;
use crate::text::ws_bwd;
use crate::text::ws_fwd;
use crate::new_validated_spec;
use crate::rows_view;
use crate::Parser;
use crate::Table;
use crate::TableModel;

verus! {

/// The cells of a PostgreSQL row: trim the line, split on `|`, trim each
/// piece, and keep empty pieces.
pub open spec fn pg_row_cells(s: Seq<char>) -> Seq<Seq<char>> {
    let n = s.len() as int;
    let lo = ws_fwd(s, 0, n);
    let hi = ws_bwd(s, lo, n);
    split_trim_in(s, '|', lo, lo, hi)
}

/// The scan state of the PostgreSQL parser.
pub struct PgScan {
    pub headers: Seq<Seq<char>>,
    pub found_sep: bool,
    pub rows: Seq<Seq<Seq<char>>>,
}

/// One line's effect on the scan: blank lines are skipped, a strict
/// separator marks the header/data boundary, the first other line before
/// the separator is the header, and lines after it are data rows.
pub open spec fn pg_step(st: PgScan, line: Seq<char>) -> PgScan {
    if is_blank(line) {
        st
    } else if is_pg_separator(line) {
        PgScan { headers: st.headers, found_sep: true, rows: st.rows }
    } else if !st.found_sep && st.headers.len() == 0 {
        PgScan { headers: pg_row_cells(line), found_sep: st.found_sep, rows: st.rows }
    } else if st.found_sep {
        PgScan { headers: st.headers, found_sep: st.found_sep, rows: st.rows.push(pg_row_cells(line)) }
    } else {
        st
    }
}

/// The scan state after folding the lines from `i` on over `st`.
pub open spec fn pg_scan_from(ls: Seq<Seq<char>>, i: int, st: PgScan) -> PgScan
    decreases ls.len() - i,
{
    if i < 0 || i >= ls.len() {
        st
    } else {
        pg_scan_from(ls, i + 1, pg_step(st, ls[i]))
    }
}

/// The empty scan state.
pub open spec fn pg_scan_init() -> PgScan {
    PgScan { headers: Seq::empty(), found_sep: false, rows: Seq::empty() }
}

/// The PostgreSQL parse of `input`: scan the lines, then validate the
/// gathered header and rows.
pub open spec fn pg_parse_spec(input: Seq<char>) -> Result<TableModel, ErrModel> {
    let st = pg_scan_from(lines_of(input), 0, pg_scan_init());
    new_validated_spec(st.headers, st.rows)
}

/// Whether `line` is a strict PostgreSQL separator: dashes and single plus
/// signs only, anchored, so dash-and-plus noise such as `+ - + -` does not
/// count.
pub fn is_separator_line(line: &str) -> (b: bool)
    ensures
        b == is_pg_separator(line@),
{
    is_pg_separator_line(line)
}

/// Extracts the cells of a PostgreSQL row, preserving empty cells.
pub fn parse_postgres_row(line: &str) -> (cells: Vec<String>)
    ensures
        strings_view(cells@) == pg_row_cells(line@),
{
    let v = chars_of(line);
    let n = v.len();
    let lo = skip_ws(&v, 0, n);
    let hi = skip_ws_back(&v, lo, n);
    split_trim_range(line, &v, '|', lo, hi)
}

/// Parses PostgreSQL CLI output.
pub struct PostgresParser;

impl Parser for PostgresParser {
    open spec fn spec_parse(&self, input: Seq<char>) -> Result<TableModel, ErrModel> {
        pg_parse_spec(input)
    }

    fn parse(&self, input: &str) -> (r: Result<Table, Error>) {
        let lines = split_lines(input);
        let ghost ls = lines_of(input@);
        let n = lines.len();
        let mut headers: Vec<String> = Vec::new();
        let mut rows: Vec<Vec<String>> = Vec::new();
        let mut found_sep = false;
        proof {
            assert(strings_view(headers@) =~= Seq::<Seq<char>>::empty());
            assert(rows_view(rows@) =~= Seq::<Seq<Seq<char>>>::empty());
        }
        let mut i: usize = 0;
        while i < n
            invariant
                i <= n == lines@.len(),
                strings_view(lines@) == ls,
                pg_scan_from(ls, 0, pg_scan_init()) == pg_scan_from(
                    ls,
                    i as int,
                    PgScan {
                        headers: strings_view(headers@),
                        found_sep: found_sep,
                        rows: rows_view(rows@),
                    },
                ),
            decreases n - i,
        {
            let ghost cur = PgScan {
                headers: strings_view(headers@),
                found_sep: found_sep,
                rows: rows_view(rows@),
            };
            proof {
                assert(lines@[i as int]@ == ls[i as int]);
            }
            if is_blank_line(lines[i].as_str()) {
                proof {
                    assert(pg_step(cur, ls[i as int]) == cur);
                }
            } else if is_separator_line(lines[i].as_str()) {
                found_sep = true;
            } else {
                let cells = parse_postgres_row(lines[i].as_str());
                if !found_sep && headers.len() == 0 {
                    proof {
                        assert(strings_view(headers@).len() == 0);
                    }
                    headers = cells;
                } else if found_sep {
                    let ghost cv = strings_view(cells@);
                    rows.push(cells);
                    proof {
                        assert(rows_view(rows@) =~= cur.rows.push(cv));
                    }
                }
            }
            proof {
                assert(PgScan {
                    headers: strings_view(headers@),
                    found_sep: found_sep,
                    rows: rows_view(rows@),
                } == pg_step(cur, ls[i as int]));
            }
            i = i + 1;
        }
        Table::new_validated(headers, rows)
    }
}

} // verus!
