//! Markdown table parser: pipe-delimited rows with a separator row that
//! divides the single header line from the data lines.

use vstd::prelude::*;

use crate::error::ErrModel;
use crate::error::Error;
use crate::text::char_run_bwd;
use crate::text::char_run_fwd;
use crate::text::chars_of;
use crate::text::has_char_in;
use crate::text::is_blank;
use crate::text::is_blank_line;
use crate::text::lines_of;
use crate::text::skip_char_run;
use crate::text::skip_char_run_back;
use crate::text::skip_ws;
use crate::text::skip_ws_back;
use crate::text::split_lines;
use crate::text::split_trim_in;
use crate::text::split_trim_range;
use crate::text::strings_view;
use crate::text::ws_bwd;
use crate::text::ws_fwd;
use crate::new_validated_spec;
use crate::result_view;
use crate::rows_view;
use crate::Parser;
use crate::Table;
use crate::TableModel;

verus! {

/// A Markdown separator row: after trimming it holds only `|`, `-`, `:` and
/// spaces, with at least one `-` and one `|`.
pub open spec fn is_md_row_separator(s: Seq<char>) -> bool {
    let n = s.len() as int;
    let lo = ws_fwd(s, 0, n);
    let hi = ws_bwd(s, lo, n);
    &&& forall|k: int|
        lo <= k < hi ==> (#[trigger] s[k]) == '|' || s[k] == '-' || s[k] == ':' || s[k] == ' '
    &&& has_char_in(s, lo, hi, '-')
    &&& has_char_in(s, lo, hi, '|')
}

/// The cells of a pipe-delimited row: trim the line, strip the runs of
/// leading and trailing pipes, split what remains on `|`, and trim each
/// piece.
pub open spec fn md_row_cells(s: Seq<char>) -> Seq<Seq<char>> {
    let n = s.len() as int;
    let lo = ws_fwd(s, 0, n);
    let hi = ws_bwd(s, lo, n);
    let a = char_run_fwd(s, '|', lo, hi);
    let b = char_run_bwd(s, '|', a, hi);
    split_trim_in(s, '|', a, a, b)
}

/// The scan state of the Markdown parser: the header cells seen, whether a
/// separator row has been passed, and the data rows gathered.
pub struct MdScan {
    pub headers: Seq<Seq<char>>,
    pub found_sep: bool,
    pub rows: Seq<Seq<Seq<char>>>,
}

/// One line's effect on the scan state: blank lines are skipped, a
/// separator marks the header/data boundary, the first other line before
/// the separator is the header, lines after the separator are data rows,
/// and further pre-separator lines are ignored.
pub open spec fn md_step(st: MdScan, line: Seq<char>) -> MdScan {
    if is_blank(line) {
        st
    } else if is_md_row_separator(line) {
        MdScan { headers: st.headers, found_sep: true, rows: st.rows }
    } else if !st.found_sep && st.headers.len() == 0 {
        MdScan { headers: md_row_cells(line), found_sep: st.found_sep, rows: st.rows }
    } else if st.found_sep {
        MdScan { headers: st.headers, found_sep: st.found_sep, rows: st.rows.push(md_row_cells(line)) }
    } else {
        st
    }
}

/// The scan state after folding the lines from `i` on over `st`.
pub open spec fn md_scan_from(ls: Seq<Seq<char>>, i: int, st: MdScan) -> MdScan
    decreases ls.len() - i,
{
    if i < 0 || i >= ls.len() {
        st
    } else {
        md_scan_from(ls, i + 1, md_step(st, ls[i]))
    }
}

/// The empty scan state.
pub open spec fn md_scan_init() -> MdScan {
    MdScan { headers: Seq::empty(), found_sep: false, rows: Seq::empty() }
}

/// The Markdown parse of `input`: scan the lines, then validate the
/// gathered header and rows.
pub open spec fn md_parse_spec(input: Seq<char>) -> Result<TableModel, ErrModel> {
    let st = md_scan_from(lines_of(input), 0, md_scan_init());
    new_validated_spec(st.headers, st.rows)
}

/// Whether `line`, trimmed, is a Markdown separator row.
pub fn is_separator_line(line: &str) -> (b: bool)
    ensures
        b == is_md_row_separator(line@),
{
    let v = chars_of(line);
    let n = v.len();
    let lo = skip_ws(&v, 0, n);
    let hi = skip_ws_back(&v, lo, n);
    let mut has_dash = false;
    let mut has_pipe = false;
    let mut k: usize = lo;
    while k < hi
        invariant
            lo <= k <= hi <= n == v@.len(),
            v@ == line@,
            lo == ws_fwd(line@, 0, n as int),
            hi == ws_bwd(line@, lo as int, n as int),
            forall|j: int|
                lo <= j < k ==> (#[trigger] v@[j]) == '|' || v@[j] == '-' || v@[j] == ':' || v@[j]
                    == ' ',
            has_dash == has_char_in(v@, lo as int, k as int, '-'),
            has_pipe == has_char_in(v@, lo as int, k as int, '|'),
        decreases hi - k,
    {
        let c = v[k];
        if c != '|' && c != '-' && c != ':' && c != ' ' {
            proof {
                assert(v@[k as int] != '|' && v@[k as int] != '-' && v@[k as int] != ':'
                    && v@[k as int] != ' ');
            }
            return false;
        }
        if c == '-' {
            has_dash = true;
        }
        if c == '|' {
            has_pipe = true;
        }
        k = k + 1;
        proof {
            if has_dash && v@[k - 1] != '-' {
                assert(has_char_in(v@, lo as int, (k - 1) as int, '-'));
            }
            if !has_dash {
                assert(v@[k - 1] != '-');
                assert(!has_char_in(v@, lo as int, (k - 1) as int, '-'));
            }
            if has_pipe && v@[k - 1] != '|' {
                assert(has_char_in(v@, lo as int, (k - 1) as int, '|'));
            }
            if !has_pipe {
                assert(v@[k - 1] != '|');
                assert(!has_char_in(v@, lo as int, (k - 1) as int, '|'));
            }
        }
    }
    has_dash && has_pipe
}

/// Extracts the cells of a pipe-delimited row.
pub fn parse_markdown_row(line: &str) -> (cells: Vec<String>)
    ensures
        strings_view(cells@) == md_row_cells(line@),
{
    let v = chars_of(line);
    let n = v.len();
    let lo = skip_ws(&v, 0, n);
    let hi = skip_ws_back(&v, lo, n);
    let a = skip_char_run(&v, '|', lo, hi);
    let b = skip_char_run_back(&v, '|', a, hi);
    split_trim_range(line, &v, '|', a, b)
}

/// Parses Markdown tables.
pub struct MarkdownParser;

impl Parser for MarkdownParser {
    open spec fn spec_parse(&self, input: Seq<char>) -> Result<TableModel, ErrModel> {
        md_parse_spec(input)
    }

    fn parse(&self, input: &str) -> (r: Result<Table, Error>) {
        let lines = split_lines(input);
        let ghost ls = lines_of(input@);
        let n = lines.len();
        let mut headers: Vec<String> = Vec::new();
        let mut rows: Vec<Vec<String>> = Vec::new();
        let mut found_sep = false;
        proof {
            assert(strings_view(headers@) =~= Seq::<Seq<char>>::empty());
            assert(rows_view(rows@) =~= Seq::<Seq<Seq<char>>>::empty());
        }
        let mut i: usize = 0;
        while i < n
            invariant
                i <= n == lines@.len(),
                strings_view(lines@) == ls,
                md_scan_from(ls, 0, md_scan_init()) == md_scan_from(
                    ls,
                    i as int,
                    MdScan {
                        headers: strings_view(headers@),
                        found_sep: found_sep,
                        rows: rows_view(rows@),
                    },
                ),
            decreases n - i,
        {
            let ghost cur = MdScan {
                headers: strings_view(headers@),
                found_sep: found_sep,
                rows: rows_view(rows@),
            };
            proof {
                assert(lines@[i as int]@ == ls[i as int]);
            }
            if is_blank_line(lines[i].as_str()) {
                proof {
                    assert(md_step(cur, ls[i as int]) == cur);
                }
            } else if is_separator_line(lines[i].as_str()) {
                found_sep = true;
            } else {
                let cells = parse_markdown_row(lines[i].as_str());
                if !found_sep && headers.len() == 0 {
                    proof {
                        assert(strings_view(headers@).len() == 0);
                    }
                    headers = cells;
                } else if found_sep {
                    let ghost cv = strings_view(cells@);
                    rows.push(cells);
                    proof {
                        assert(rows_view(rows@) =~= cur.rows.push(cv));
                    }
                }
            }
            proof {
                assert(MdScan {
                    headers: strings_view(headers@),
                    found_sep: found_sep,
                    rows: rows_view(rows@),
                } == md_step(cur, ls[i as int]));
            }
            i = i + 1;
        }
        Table::new_validated(headers, rows)
    }
}

} // verus!
