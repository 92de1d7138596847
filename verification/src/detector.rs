//! Heuristic format detection: examines at most the first ten lines of the
//! input and classifies them by the most discriminating signature first
//! (MySQL border, then PostgreSQL separator, then Markdown separator, then
//! tab presence), defaulting to CSV. Detection is total: it never fails.
//!
//! The separator matchers are anchored single-pass scans, so detection cost
//! is linear in the examined text even on adversarial inputs.

use vstd::prelude::*;

use crate::text::char_run_fwd;
use crate::text::chars_of;
use crate::text::contains_char;
use crate::text::has_char;
use crate::text::has_char_in;
use crate::text::lines_of;
use crate::text::skip_char_run;
use crate::text::skip_ws;
use crate::text::skip_ws_back;
use crate::text::split_lines;
use crate::text::strings_view;
use crate::text::ws_bwd;
use crate::text::ws_fwd;
use crate::Format;

verus! {

/// Number of leading lines examined for format detection.
pub const FORMAT_DETECTION_LINE_LIMIT: usize = 10;

/// A MySQL border line: after trimming, a `+`, then one or more `-` or `+`
/// characters, then a closing `+`, and nothing else.
pub open spec fn is_mysql_border(s: Seq<char>) -> bool {
    let n = s.len() as int;
    let lo = ws_fwd(s, 0, n);
    let hi = ws_bwd(s, lo, n);
    &&& hi - lo >= 3
    &&& s[lo] == '+'
    &&& s[hi - 1] == '+'
    &&& forall|k: int| lo < k < hi - 1 ==> (#[trigger] s[k]) == '-' || s[k] == '+'
}

/// A PostgreSQL separator line: optionally padded with whitespace, one or
/// more dashes, then one or more groups of a `+` followed by one or more
/// dashes, and nothing else. Equivalently, the trimmed line is non-empty,
/// holds only `-` and `+`, starts and ends with `-`, has at least one `+`,
/// and never two `+` in a row.
pub open spec fn is_pg_separator(s: Seq<char>) -> bool {
    let n = s.len() as int;
    let lo = ws_fwd(s, 0, n);
    let hi = ws_bwd(s, lo, n);
    &&& lo < hi
    &&& forall|k: int| lo <= k < hi ==> (#[trigger] s[k]) == '-' || s[k] == '+'
    &&& s[lo] == '-'
    &&& s[hi - 1] == '-'
    &&& has_char_in(s, lo, hi, '+')
    &&& forall|k: int| lo <= k < hi - 1 ==> !((#[trigger] s[k]) == '+' && s[k + 1] == '+')
}

/// One group of a Markdown separator, starting at `i`: optional whitespace,
/// an optional colon, optional whitespace, one or more dashes, optional
/// whitespace, an optional colon, optional whitespace, then a `|`.
pub open spec fn md_sep_group(s: Seq<char>, i: int) -> bool {
    let n = s.len() as int;
    let a = ws_fwd(s, i, n);
    let b = if a < n && s[a] == ':' {
        a + 1
    } else {
        a
    };
    let c = ws_fwd(s, b, n);
    let d = char_run_fwd(s, '-', c, n);
    &&& d > c
    &&& {
        let e = ws_fwd(s, d, n);
        let f = if e < n && s[e] == ':' {
            e + 1
        } else {
            e
        };
        let g = ws_fwd(s, f, n);
        g < n && s[g] == '|'
    }
}

/// A Markdown separator line: optional whitespace, a `|`, then at least one
/// separator group. Trailing content after the group is not examined, as
/// the signature is an anchored prefix.
pub open spec fn is_md_separator(s: Seq<char>) -> bool {
    let n = s.len() as int;
    let p = ws_fwd(s, 0, n);
    p < n && s[p] == '|' && md_sep_group(s, p + 1)
}

/// A line whose trimmed text starts and ends with a pipe, the structural
/// shape that rules TSV out.
pub open spec fn is_piped_line(s: Seq<char>) -> bool {
    let n = s.len() as int;
    let lo = ws_fwd(s, 0, n);
    let hi = ws_bwd(s, lo, n);
    lo < hi && s[lo] == '|' && s[hi - 1] == '|'
}

/// Whether the trimmed `line` wholly matches the MySQL border shape.
pub fn is_mysql_border_line(line: &str) -> (b: bool)
    ensures
        b == is_mysql_border(line@),
{
    let v = chars_of(line);
    let n = v.len();
    let lo = skip_ws(&v, 0, n);
    let hi = skip_ws_back(&v, lo, n);
    if hi - lo < 3 || v[lo] != '+' || v[hi - 1] != '+' {
        return false;
    }
    let mut k: usize = lo + 1;
    while k < hi - 1
        invariant
            lo + 1 <= k <= hi - 1,
            hi <= n == v@.len(),
            v@ == line@,
            lo == ws_fwd(line@, 0, n as int),
            hi == ws_bwd(line@, lo as int, n as int),
            forall|j: int| lo < j < k ==> (#[trigger] v@[j]) == '-' || v@[j] == '+',
        decreases hi - k,
    {
        if v[k] != '-' && v[k] != '+' {
            proof {
                assert(v@[k as int] != '-' && v@[k as int] != '+');
            }
            return false;
        }
        k = k + 1;
    }
    true
}

/// Whether `line` wholly matches the PostgreSQL separator shape.
pub fn is_pg_separator_line(line: &str) -> (b: bool)
    ensures
        b == is_pg_separator(line@),
{
    let v = chars_of(line);
    let n = v.len();
    let lo = skip_ws(&v, 0, n);
    let hi = skip_ws_back(&v, lo, n);
    if lo >= hi || v[lo] != '-' || v[hi - 1] != '-' {
        return false;
    }
    let mut seen_plus = false;
    let mut k: usize = lo;
    while k < hi
        invariant
            lo <= k <= hi <= n == v@.len(),
            v@ == line@,
            lo < hi,
            lo == ws_fwd(line@, 0, n as int),
            hi == ws_bwd(line@, lo as int, n as int),
            line@[lo as int] == '-',
            line@[hi - 1] == '-',
            forall|j: int| lo <= j < k ==> (#[trigger] v@[j]) == '-' || v@[j] == '+',
            seen_plus == has_char_in(v@, lo as int, k as int, '+'),
            forall|j: int| lo <= j < k - 1 ==> !((#[trigger] v@[j]) == '+' && v@[j + 1] == '+'),
        decreases hi - k,
    {
        let c = v[k];
        if c != '-' && c != '+' {
            proof {
                assert(v@[k as int] != '-' && v@[k as int] != '+');
            }
            return false;
        }
        if c == '+' {
            if k > lo && v[k - 1] == '+' {
                proof {
                    assert(v@[k - 1] == '+' && v@[k as int] == '+');
                }
                return false;
            }
            seen_plus = true;
        }
        k = k + 1;
        proof {
            if seen_plus {
                if v@[k - 1] == '+' {
                    assert(has_char_in(v@, lo as int, k as int, '+'));
                } else {
                    assert(has_char_in(v@, lo as int, (k - 1) as int, '+'));
                    assert(has_char_in(v@, lo as int, k as int, '+'));
                }
            } else {
                assert(!has_char_in(v@, lo as int, k as int, '+')) by {
                    assert(v@[k - 1] != '+');
                    assert(!has_char_in(v@, lo as int, (k - 1) as int, '+'));
                }
            }
        }
    }
    seen_plus
}

/// Whether `line` begins with the Markdown separator signature.
pub fn is_md_separator_line(line: &str) -> (b: bool)
    ensures
        b == is_md_separator(line@),
{
    let v = chars_of(line);
    let n = v.len();
    let p = skip_ws(&v, 0, n);
    if p >= n || v[p] != '|' {
        return false;
    }
    let a = skip_ws(&v, p + 1, n);
    let b = if a < n && v[a] == ':' {
        a + 1
    } else {
        a
    };
    let c = skip_ws(&v, b, n);
    let d = skip_char_run(&v, '-', c, n);
    if d == c {
        return false;
    }
    let e = skip_ws(&v, d, n);
    let f = if e < n && v[e] == ':' {
        e + 1
    } else {
        e
    };
    let g = skip_ws(&v, f, n);
    g < n && v[g] == '|'
}

/// Whether the trimmed `line` starts and ends with a pipe.
fn is_piped_line_exec(line: &str) -> (b: bool)
    ensures
        b == is_piped_line(line@),
{
    let v = chars_of(line);
    let n = v.len();
    let lo = skip_ws(&v, 0, n);
    let hi = skip_ws_back(&v, lo, n);
    lo < hi && v[lo] == '|' && v[hi - 1] == '|'
}

/// Some examined line is a MySQL border.
pub open spec fn any_mysql_border(ls: Seq<Seq<char>>) -> bool {
    exists|k: int| 0 <= k < ls.len() && is_mysql_border(#[trigger] ls[k])
}

/// At least two lines were examined and some line is a PostgreSQL
/// separator.
pub open spec fn any_pg_separator(ls: Seq<Seq<char>>) -> bool {
    ls.len() >= 2 && exists|k: int| 0 <= k < ls.len() && is_pg_separator(#[trigger] ls[k])
}

/// Some examined line is a Markdown separator.
pub open spec fn any_md_separator(ls: Seq<Seq<char>>) -> bool {
    exists|k: int| 0 <= k < ls.len() && is_md_separator(#[trigger] ls[k])
}

/// Some line holds a tab, no line has the piped shape, and no line holds a
/// `+`: tab-separated data, ruled out when pipe or border structure is
/// present because data cells may hold literal pipes.
pub open spec fn tsv_signature(ls: Seq<Seq<char>>) -> bool {
    &&& exists|k: int| 0 <= k < ls.len() && has_char(#[trigger] ls[k], '\t')
    &&& !(exists|k: int| 0 <= k < ls.len() && is_piped_line(#[trigger] ls[k]))
    &&& !(exists|k: int| 0 <= k < ls.len() && has_char(#[trigger] ls[k], '+'))
}

/// The lines detection examines: the first ten.
pub open spec fn detect_lines(input: Seq<char>) -> Seq<Seq<char>> {
    let all = lines_of(input);
    if all.len() > FORMAT_DETECTION_LINE_LIMIT {
        all.take(FORMAT_DETECTION_LINE_LIMIT as int)
    } else {
        all
    }
}

/// The format detected for `input`: the signatures in strict priority
/// order, with CSV for empty or unrecognized input. Total: every input
/// yields exactly one format.
pub open spec fn detect_spec(input: Seq<char>) -> Format {
    let ls = detect_lines(input);
    if ls.len() == 0 {
        Format::CSV
    } else if any_mysql_border(ls) {
        Format::MySQL
    } else if any_pg_separator(ls) {
        Format::PostgreSQL
    } else if any_md_separator(ls) {
        Format::Markdown
    } else if tsv_signature(ls) {
        Format::TSV
    } else {
        Format::CSV
    }
}

/// Whether some of the given lines is a MySQL border line.
pub fn is_mysql_format(lines: &Vec<String>) -> (b: bool)
    ensures
        b == any_mysql_border(strings_view(lines@)),
{
    let n = lines.len();
    let mut k: usize = 0;
    while k < n
        invariant
            k <= n == lines@.len(),
            forall|j: int| 0 <= j < k ==> !is_mysql_border(#[trigger] strings_view(lines@)[j]),
        decreases n - k,
    {
        if is_mysql_border_line(lines[k].as_str()) {
            proof {
                assert(is_mysql_border(strings_view(lines@)[k as int]));
            }
            return true;
        }
        k = k + 1;
    }
    false
}

/// Whether the given lines carry a PostgreSQL separator; fewer than two
/// lines never count, as a separator needs a header above it.
pub fn is_postgres_format(lines: &Vec<String>) -> (b: bool)
    ensures
        b == any_pg_separator(strings_view(lines@)),
{
    let n = lines.len();
    if n < 2 {
        return false;
    }
    let mut k: usize = 0;
    while k < n
        invariant
            2 <= n,
            k <= n == lines@.len(),
            forall|j: int| 0 <= j < k ==> !is_pg_separator(#[trigger] strings_view(lines@)[j]),
        decreases n - k,
    {
        if is_pg_separator_line(lines[k].as_str()) {
            proof {
                assert(is_pg_separator(strings_view(lines@)[k as int]));
            }
            return true;
        }
        k = k + 1;
    }
    false
}

/// Whether some of the given lines is a Markdown separator line.
pub fn is_markdown_format(lines: &Vec<String>) -> (b: bool)
    ensures
        b == any_md_separator(strings_view(lines@)),
{
    let n = lines.len();
    let mut k: usize = 0;
    while k < n
        invariant
            k <= n == lines@.len(),
            forall|j: int| 0 <= j < k ==> !is_md_separator(#[trigger] strings_view(lines@)[j]),
        decreases n - k,
    {
        if is_md_separator_line(lines[k].as_str()) {
            proof {
                assert(is_md_separator(strings_view(lines@)[k as int]));
            }
            return true;
        }
        k = k + 1;
    }
    false
}

/// Whether the given lines look like tab-separated data: tabs present, and
/// neither piped lines nor `+` characters anywhere.
pub fn is_tsv_format(lines: &Vec<String>) -> (b: bool)
    ensures
        b == tsv_signature(strings_view(lines@)),
{
    let n = lines.len();
    let mut has_tab = false;
    let mut piped = false;
    let mut has_plus = false;
    let mut k: usize = 0;
    while k < n
        invariant
            k <= n == lines@.len(),
            has_tab == exists|j: int|
                0 <= j < k && has_char(#[trigger] strings_view(lines@)[j], '\t'),
            piped == exists|j: int| 0 <= j < k && is_piped_line(#[trigger] strings_view(lines@)[j]),
            has_plus == exists|j: int|
                0 <= j < k && has_char(#[trigger] strings_view(lines@)[j], '+'),
        decreases n - k,
    {
        let v = chars_of(lines[k].as_str());
        proof {
            assert(v@ == strings_view(lines@)[k as int]);
        }
        if contains_char(&v, '\t') {
            has_tab = true;
        }
        if is_piped_line_exec(lines[k].as_str()) {
            piped = true;
        }
        if contains_char(&v, '+') {
            has_plus = true;
        }
        k = k + 1;
    }
    has_tab && !piped && !has_plus
}

/// Detects the table format of `input`, never failing: ambiguous or empty
/// input falls back to CSV.
pub fn detect_format(input: &str) -> (f: Format)
    ensures
        f == detect_spec(input@),
{
    let mut lines = split_lines(input);
    if lines.len() > FORMAT_DETECTION_LINE_LIMIT {
        lines.truncate(FORMAT_DETECTION_LINE_LIMIT);
        proof {
            assert(strings_view(lines@) =~= detect_lines(input@));
        }
    }
    proof {
        assert(strings_view(lines@) =~= detect_lines(input@));
    }
    if lines.len() == 0 {
        return Format::CSV;
    }
    if is_mysql_format(&lines) {
        return Format::MySQL;
    }
    if is_postgres_format(&lines) {
        return Format::PostgreSQL;
    }
    if is_markdown_format(&lines) {
        return Format::Markdown;
    }
    if is_tsv_format(&lines) {
        return Format::TSV;
    }
    Format::CSV
}

/// Detection precedence: any input among whose examined lines a MySQL
/// border appears is detected as MySQL, whatever else — in particular a
/// Markdown separator — also appears.
pub proof fn lemma_detect_precedence_mysql(input: Seq<char>)
    requires
        any_mysql_border(detect_lines(input)),
    ensures
        detect_spec(input) == Format::MySQL,
{
}

/// Detection is total and defaults to CSV: empty input is CSV, and input
/// with none of the four signatures among its examined lines is CSV.
pub proof fn lemma_detect_defaults_to_csv(input: Seq<char>)
    requires
        !any_mysql_border(detect_lines(input)),
        !any_pg_separator(detect_lines(input)),
        !any_md_separator(detect_lines(input)),
        !tsv_signature(detect_lines(input)),
    ensures
        detect_spec(input) == Format::CSV,
{
}

} // verus!
