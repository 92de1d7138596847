//! Character-level text utilities shared by the detector and the parsers:
//! whitespace classification, trimming, line splitting and decimal rendering
//! of counters for error messages.

use vstd::prelude::*;

verus! {

/// The Unicode `White_Space` code points, the set that `str::trim` and the
/// `\s` character class of common pattern languages strip.
pub open spec fn is_ws_code(u: u32) -> bool {
    ||| u == 0x20
    ||| (0x09 <= u && u <= 0x0D)
    ||| u == 0x85
    ||| u == 0xA0
    ||| u == 0x1680
    ||| (0x2000 <= u && u <= 0x200A)
    ||| u == 0x2028
    ||| u == 0x2029
    ||| u == 0x202F
    ||| u == 0x205F
    ||| u == 0x3000
}

pub open spec fn is_ws_char(c: char) -> bool {
    is_ws_code(c as u32)
}

pub fn char_is_ws(c: char) -> (b: bool)
    ensures
        b == is_ws_char(c),
{
    let u: u32 = c as u32;
    u == 0x20 || (0x09 <= u && u <= 0x0D) || u == 0x85 || u == 0xA0 || u == 0x1680 || (0x2000
        <= u && u <= 0x200A) || u == 0x2028 || u == 0x2029 || u == 0x202F || u == 0x205F || u
        == 0x3000
}

/// First index in `[i, end)` whose character is not whitespace, or `end`
/// when all of the window is whitespace.
pub open spec fn ws_fwd(s: Seq<char>, i: int, end: int) -> int
    decreases end - i,
{
    if i >= end {
        end
    } else if !is_ws_char(s[i]) {
        i
    } else {
        ws_fwd(s, i + 1, end)
    }
}

/// Largest `j' <= j` such that `s[j' - 1]` is not whitespace, stopping at
/// `start`: the exclusive end of the window once trailing whitespace is gone.
pub open spec fn ws_bwd(s: Seq<char>, start: int, j: int) -> int
    decreases j - start,
{
    if j <= start {
        start
    } else if !is_ws_char(s[j - 1]) {
        j
    } else {
        ws_bwd(s, start, j - 1)
    }
}

/// The window `[a, b)` of `s` with surrounding whitespace removed.
pub open spec fn trim_in(s: Seq<char>, a: int, b: int) -> Seq<char> {
    let lo = ws_fwd(s, a, b);
    let hi = ws_bwd(s, lo, b);
    s.subrange(lo, hi)
}

/// Advances past whitespace: the executable form of `ws_fwd`.
pub fn skip_ws(v: &Vec<char>, from: usize, end: usize) -> (r: usize)
    requires
        from <= end <= v@.len(),
    ensures
        r == ws_fwd(v@, from as int, end as int),
        from <= r <= end,
{
    let mut i: usize = from;
    while i < end && char_is_ws(v[i])
        invariant
            from <= i <= end <= v@.len(),
            ws_fwd(v@, from as int, end as int) == ws_fwd(v@, i as int, end as int),
        decreases end - i,
    {
        i = i + 1;
    }
    i
}

/// Retreats over trailing whitespace: the executable form of `ws_bwd`.
pub fn skip_ws_back(v: &Vec<char>, start: usize, from: usize) -> (r: usize)
    requires
        start <= from <= v@.len(),
    ensures
        r == ws_bwd(v@, start as int, from as int),
        start <= r <= from,
{
    let mut j: usize = from;
    while j > start && char_is_ws(v[j - 1])
        invariant
            start <= j <= from <= v@.len(),
            ws_bwd(v@, start as int, from as int) == ws_bwd(v@, start as int, j as int),
        decreases j,
    {
        j = j - 1;
    }
    j
}

/// Whether `s` contains the character `c`.
pub fn str_contains_char(s: &str, c: char) -> (b: bool)
    ensures
        b == has_char(s@, c),
{
    let v = chars_of(s);
    contains_char(&v, c)
}

/// A line that is empty once trimmed.
pub open spec fn is_blank(s: Seq<char>) -> bool {
    ws_fwd(s, 0, s.len() as int) == s.len()
}

/// Whether `line` is empty once trimmed.
pub fn is_blank_line(line: &str) -> (b: bool)
    ensures
        b == is_blank(line@),
{
    let v = chars_of(line);
    let n = v.len();
    let lo = skip_ws(&v, 0, n);
    lo == n
}

/// Does the window `[a, b)` of `s` contain `c`?
pub open spec fn has_char_in(s: Seq<char>, a: int, b: int, c: char) -> bool {
    exists|k: int| a <= k < b && s[k] == c
}

pub open spec fn has_char(s: Seq<char>, c: char) -> bool {
    has_char_in(s, 0, s.len() as int, c)
}

pub fn contains_char(v: &Vec<char>, c: char) -> (b: bool)
    ensures
        b == has_char(v@, c),
{
    let n = v.len();
    let mut i: usize = 0;
    while i < n
        invariant
            i <= n == v@.len(),
            forall|k: int| 0 <= k < i ==> v@[k] != c,
        decreases n - i,
    {
        if v[i] == c {
            return true;
        }
        i = i + 1;
    }
    false
}

/// The characters of `s` as a vector, for random access while scanning.
pub fn chars_of(s: &str) -> (v: Vec<char>)
    ensures
        v@ == s@,
{
    let n = s.unicode_len();
    let mut v: Vec<char> = Vec::new();
    let mut i: usize = 0;
    while i < n
        invariant
            i <= n == s@.len(),
            v@ == s@.subrange(0, i as int),
        decreases n - i,
    {
        v.push(s.get_char(i));
        i = i + 1;
        proof {
            assert(v@ =~= s@.subrange(0, i as int));
        }
    }
    proof {
        assert(v@ =~= s@);
    }
    v
}

/// Relies on `String::push`: appends exactly the one character `c`.
#[verifier::external_body]
pub fn push_char(s: &mut String, c: char) -> (r: ())
    ensures
        final(s)@ == old(s)@ + seq![c],
{
    s.push(c)
}

/// First index in `[i, end)` whose character is not `c`, or `end`.
pub open spec fn char_run_fwd(s: Seq<char>, c: char, i: int, end: int) -> int
    decreases end - i,
{
    if i >= end {
        end
    } else if s[i] != c {
        i
    } else {
        char_run_fwd(s, c, i + 1, end)
    }
}

/// Largest `j' <= j` with `s[j' - 1] != c`, stopping at `start`.
pub open spec fn char_run_bwd(s: Seq<char>, c: char, start: int, j: int) -> int
    decreases j - start,
{
    if j <= start {
        start
    } else if s[j - 1] != c {
        j
    } else {
        char_run_bwd(s, c, start, j - 1)
    }
}

pub fn skip_char_run(v: &Vec<char>, c: char, from: usize, end: usize) -> (r: usize)
    requires
        from <= end <= v@.len(),
    ensures
        r == char_run_fwd(v@, c, from as int, end as int),
        from <= r <= end,
{
    let mut i: usize = from;
    while i < end && v[i] == c
        invariant
            from <= i <= end <= v@.len(),
            char_run_fwd(v@, c, from as int, end as int) == char_run_fwd(
                v@,
                c,
                i as int,
                end as int,
            ),
        decreases end - i,
    {
        i = i + 1;
    }
    i
}

pub fn skip_char_run_back(v: &Vec<char>, c: char, start: usize, from: usize) -> (r: usize)
    requires
        start <= from <= v@.len(),
    ensures
        r == char_run_bwd(v@, c, start as int, from as int),
        start <= r <= from,
{
    let mut j: usize = from;
    while j > start && v[j - 1] == c
        invariant
            start <= j <= from <= v@.len(),
            char_run_bwd(v@, c, start as int, from as int) == char_run_bwd(
                v@,
                c,
                start as int,
                j as int,
            ),
        decreases j,
    {
        j = j - 1;
    }
    j
}

/// The window `[start, end)` of `s` split on `sep` from position `i` on,
/// each piece trimmed of surrounding whitespace. Splitting always yields one
/// more piece than there are separators, so an empty window yields one empty
/// cell.
pub open spec fn split_trim_in(s: Seq<char>, sep: char, i: int, start: int, end: int) -> Seq<
    Seq<char>,
>
    decreases end - i,
{
    if i >= end {
        seq![trim_in(s, start, end)]
    } else if s[i] == sep {
        seq![trim_in(s, start, i)] + split_trim_in(s, sep, i + 1, i + 1, end)
    } else {
        split_trim_in(s, sep, i + 1, start, end)
    }
}

/// Splits the window `[a, b)` of `line` on `sep` and trims each piece.
pub fn split_trim_range(line: &str, v: &Vec<char>, sep: char, a: usize, b: usize) -> (cells: Vec<
    String,
>)
    requires
        v@ == line@,
        a <= b <= v@.len(),
    ensures
        strings_view(cells@) == split_trim_in(line@, sep, a as int, a as int, b as int),
{
    let mut cells: Vec<String> = Vec::new();
    let mut start: usize = a;
    let mut i: usize = a;
    proof {
        assert(strings_view(cells@) =~= Seq::<Seq<char>>::empty());
    }
    while i < b
        invariant
            a <= start <= i <= b <= v@.len(),
            v@ == line@,
            split_trim_in(line@, sep, a as int, a as int, b as int) == strings_view(cells@)
                + split_trim_in(line@, sep, i as int, start as int, b as int),
        decreases b - i,
    {
        if v[i] == sep {
            let lo = skip_ws(v, start, i);
            let hi = skip_ws_back(v, lo, i);
            let piece = line.substring_char(lo, hi).to_owned();
            let ghost prev = cells@;
            proof {
                assert(piece@ =~= trim_in(line@, start as int, i as int));
            }
            cells.push(piece);
            start = i + 1;
            proof {
                assert(strings_view(cells@) =~= strings_view(prev).push(piece@));
                assert(strings_view(cells@) + split_trim_in(
                    line@,
                    sep,
                    (i + 1) as int,
                    (i + 1) as int,
                    b as int,
                ) =~= strings_view(prev) + (seq![piece@] + split_trim_in(
                    line@,
                    sep,
                    (i + 1) as int,
                    (i + 1) as int,
                    b as int,
                )));
            }
        }
        i = i + 1;
    }
    let lo = skip_ws(v, start, b);
    let hi = skip_ws_back(v, lo, b);
    let piece = line.substring_char(lo, hi).to_owned();
    proof {
        assert(piece@ =~= trim_in(line@, start as int, b as int));
    }
    cells.push(piece);
    proof {
        assert(strings_view(cells@) =~= split_trim_in(
            line@,
            sep,
            a as int,
            a as int,
            b as int,
        ));
    }
    cells
}

/// `cur` with one trailing carriage return removed, as line splitting does
/// at each line feed.
pub open spec fn strip_cr(cur: Seq<char>) -> Seq<char> {
    if cur.len() > 0 && cur[cur.len() - 1] == '\r' {
        cur.drop_last()
    } else {
        cur
    }
}

/// The lines of `s` from position `i` on, with `cur` the partial line read
/// so far: each line feed ends a line (dropping one carriage return before
/// it), and a non-empty final segment is a line of its own.
pub open spec fn lines_acc(s: Seq<char>, i: int, cur: Seq<char>) -> Seq<Seq<char>>
    decreases s.len() - i,
{
    if i < 0 || i >= s.len() {
        if cur.len() == 0 {
            Seq::empty()
        } else {
            seq![cur]
        }
    } else if s[i] == '\n' {
        seq![strip_cr(cur)] + lines_acc(s, i + 1, Seq::empty())
    } else {
        lines_acc(s, i + 1, cur.push(s[i]))
    }
}

/// The lines of `s`, as `str::lines` yields them.
pub open spec fn lines_of(s: Seq<char>) -> Seq<Seq<char>> {
    lines_acc(s, 0, Seq::empty())
}

/// The views of a vector of strings.
pub open spec fn strings_view(v: Seq<String>) -> Seq<Seq<char>> {
    v.map_values(|s: String| s@)
}

/// Splits `s` into its lines.
pub fn split_lines(s: &str) -> (out: Vec<String>)
    ensures
        strings_view(out@) == lines_of(s@),
{
    let v = chars_of(s);
    let n = v.len();
    let mut out: Vec<String> = Vec::new();
    let mut start: usize = 0;
    let mut i: usize = 0;
    proof {
        assert(s@.subrange(0, 0) =~= Seq::<char>::empty());
        assert(strings_view(out@) =~= Seq::<Seq<char>>::empty());
        assert(strings_view(out@) + lines_acc(s@, 0, Seq::<char>::empty()) =~= lines_acc(
            s@,
            0,
            Seq::<char>::empty(),
        ));
    }
    while i < n
        invariant
            start <= i <= n == s@.len(),
            v@ == s@,
            lines_of(s@) == strings_view(out@) + lines_acc(
                s@,
                i as int,
                s@.subrange(start as int, i as int),
            ),
        decreases n - i,
    {
        if v[i] == '\n' {
            let end: usize = if i > start && v[i - 1] == '\r' {
                i - 1
            } else {
                i
            };
            let piece = s.substring_char(start, end).to_owned();
            let ghost prev = out@;
            proof {
                assert(piece@ =~= strip_cr(s@.subrange(start as int, i as int)));
            }
            out.push(piece);
            start = i + 1;
            proof {
                assert(s@.subrange(start as int, start as int) =~= Seq::<char>::empty());
                assert(strings_view(out@) =~= strings_view(prev).push(piece@));
                assert(strings_view(out@) + lines_acc(s@, (i + 1) as int, Seq::<char>::empty())
                    =~= strings_view(prev) + (seq![piece@] + lines_acc(
                    s@,
                    (i + 1) as int,
                    Seq::<char>::empty(),
                )));
            }
        } else {
            proof {
                assert(s@.subrange(start as int, (i + 1) as int) =~= s@.subrange(
                    start as int,
                    i as int,
                ).push(s@[i as int]));
            }
        }
        i = i + 1;
    }
    if start < n {
        let piece = s.substring_char(start, n).to_owned();
        out.push(piece);
    }
    proof {
        assert(strings_view(out@) =~= lines_of(s@));
    }
    out
}

/// The character for the decimal digit `d`.
pub open spec fn digit_char(d: int) -> char {
    ((d + 48) as u8) as char
}

/// The decimal rendering of `n`, most significant digit first.
pub open spec fn dec_str(n: int) -> Seq<char>
    decreases n,
{
    if n < 10 {
        seq![digit_char(if n < 0 { 0 } else { n })]
    } else {
        dec_str(n / 10).push(digit_char(n % 10))
    }
}

/// Renders `n` in decimal.
pub fn usize_to_string(n: usize) -> (r: String)
    ensures
        r@ == dec_str(n as int),
    decreases n,
{
    if n < 10 {
        let mut s = String::new();
        push_char(&mut s, ((n as u8) + 48) as char);
        proof {
            assert(s@ =~= dec_str(n as int));
        }
        s
    } else {
        let mut s = usize_to_string(n / 10);
        push_char(&mut s, (((n % 10) as u8) + 48) as char);
        proof {
            assert(s@ =~= dec_str(n as int));
        }
        s
    }
}

} // verus!
