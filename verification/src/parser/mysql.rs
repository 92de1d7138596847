//! MySQL CLI table parser: box-drawn tables whose border lines start with
//! `+` and whose content lines start and end with `|`. Borders delimit the
//! sections by position, so the first content line is the header.

use vstd::prelude::*;

use crate::error::ErrModel;
use crate::error::Error;
use crate::parser::markdown::md_row_cells;
use crate::parser::markdown::parse_markdown_row;
use crate::text::chars_of;
use crate::text::is_blank;
use crate::text::lines_of;
use crate::text::skip_ws;
use crate::text::skip_ws_back;
use crate::text::split_lines;
use crate::text::strings_view;
use crate::text::ws_bwd;
use crate::text::ws_fwd;
use crate::new_validated_spec;
use crate::rows_view;
use crate::Parser;
use crate::Table;
use crate::TableModel;

verus! {

/// A border line: the trimmed line starts with `+`.
pub open spec fn starts_with_plus(s: Seq<char>) -> bool {
    let n = s.len() as int;
    let lo = ws_fwd(s, 0, n);
    lo < n && s[lo] == '+'
}

/// A content line: the trimmed line starts and ends with `|`.
pub open spec fn is_mysql_content(s: Seq<char>) -> bool {
    let n = s.len() as int;
    let lo = ws_fwd(s, 0, n);
    let hi = ws_bwd(s, lo, n);
    lo < hi && s[lo] == '|' && s[hi - 1] == '|'
}

/// The scan state of the MySQL parser: header cells seen and data rows
/// gathered.
pub struct MySqlScan {
    pub headers: Seq<Seq<char>>,
    pub rows: Seq<Seq<Seq<char>>>,
}

/// One line's effect on the scan: blank lines and borders are skipped, the
/// first content line is the header, later content lines are data rows, and
/// anything else is ignored.
pub open spec fn mysql_step(st: MySqlScan, line: Seq<char>) -> MySqlScan {
    if is_blank(line) || starts_with_plus(line) {
        st
    } else if is_mysql_content(line) {
        if st.headers.len() == 0 {
            MySqlScan { headers: md_row_cells(line), rows: st.rows }
        } else {
            MySqlScan { headers: st.headers, rows: st.rows.push(md_row_cells(line)) }
        }
    } else {
        st
    }
}

/// The scan state after folding the lines from `i` on over `st`.
pub open spec fn mysql_scan_from(ls: Seq<Seq<char>>, i: int, st: MySqlScan) -> MySqlScan
    decreases ls.len() - i,
{
    if i < 0 || i >= ls.len() {
        st
    } else {
        mysql_scan_from(ls, i + 1, mysql_step(st, ls[i]))
    }
}

/// The MySQL parse of `input`: scan the lines, then validate the gathered
/// header and rows.
pub open spec fn mysql_parse_spec(input: Seq<char>) -> Result<TableModel, ErrModel> {
    let st = mysql_scan_from(
        lines_of(input),
        0,
        MySqlScan { headers: Seq::empty(), rows: Seq::empty() },
    );
    new_validated_spec(st.headers, st.rows)
}

/// Extracts the cells of a box-drawn content row: identical to the
/// Markdown row extraction.
pub fn parse_mysql_row(line: &str) -> (cells: Vec<String>)
    ensures
        strings_view(cells@) == md_row_cells(line@),
{
    parse_markdown_row(line)
}

/// Parses MySQL CLI box-drawn tables.
pub struct MySqlParser;

impl Parser for MySqlParser {
    open spec fn spec_parse(&self, input: Seq<char>) -> Result<TableModel, ErrModel> {
        mysql_parse_spec(input)
    }

    fn parse(&self, input: &str) -> (r: Result<Table, Error>) {
        let lines = split_lines(input);
        let ghost ls = lines_of(input@);
        let n = lines.len();
        let mut headers: Vec<String> = Vec::new();
        let mut rows: Vec<Vec<String>> = Vec::new();
        let ghost init = MySqlScan { headers: Seq::empty(), rows: Seq::empty() };
        proof {
            assert(strings_view(headers@) =~= Seq::<Seq<char>>::empty());
            assert(rows_view(rows@) =~= Seq::<Seq<Seq<char>>>::empty());
        }
        let mut i: usize = 0;
        while i < n
            invariant
                i <= n == lines@.len(),
                strings_view(lines@) == ls,
                mysql_scan_from(ls, 0, MySqlScan { headers: Seq::empty(), rows: Seq::empty() })
                    == mysql_scan_from(
                    ls,
                    i as int,
                    MySqlScan { headers: strings_view(headers@), rows: rows_view(rows@) },
                ),
            decreases n - i,
        {
            let ghost cur = MySqlScan { headers: strings_view(headers@), rows: rows_view(rows@) };
            proof {
                assert(lines@[i as int]@ == ls[i as int]);
            }
            let v = chars_of(lines[i].as_str());
            let ln = v.len();
            let lo = skip_ws(&v, 0, ln);
            let hi = skip_ws_back(&v, lo, ln);
            if lo == ln || v[lo] == '+' {
                proof {
                    assert(mysql_step(cur, ls[i as int]) == cur);
                }
            } else if lo < hi && v[lo] == '|' && v[hi - 1] == '|' {
                let cells = parse_mysql_row(lines[i].as_str());
                if headers.len() == 0 {
                    proof {
                        assert(strings_view(headers@).len() == 0);
                    }
                    headers = cells;
                } else {
                    let ghost cv = strings_view(cells@);
                    rows.push(cells);
                    proof {
                        assert(rows_view(rows@) =~= cur.rows.push(cv));
                    }
                }
            } else {
                proof {
                    assert(mysql_step(cur, ls[i as int]) == cur);
                }
            }
            proof {
                assert(MySqlScan { headers: strings_view(headers@), rows: rows_view(rows@) }
                    == mysql_step(cur, ls[i as int]));
            }
            i = i + 1;
        }
        Table::new_validated(headers, rows)
    }
}

} // verus!
