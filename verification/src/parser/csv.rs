//! Delimiter-separated parser for CSV and TSV, with a configurable
//! single-byte delimiter. Record splitting is delegated to the `csv`
//! crate's standards-compliant reader, which honors quoting: quoted fields
//! may contain the delimiter, embedded newlines and doubled quote
//! characters. The records the reader yields, and the loop that folds them
//! into a table, are verified against the record stream's model.

use vstd::prelude::*;

use crate::error::ErrModel;
use crate::error::Error;
use crate::text::dec_str;
use crate::text::strings_view;
use crate::text::usize_to_string;
use crate::new_validated_spec;
use crate::Parser;
use crate::Table;
use crate::TableModel;

verus! {

#[verifier::external_type_specification]
#[verifier::external_body]
#[verifier::reject_recursive_types(T)]
pub struct ExCursor<T>(std::io::Cursor<T>);

#[verifier::external_type_specification]
#[verifier::external_body]
#[verifier::reject_recursive_types(R)]
pub struct ExCsvReader<R>(csv::Reader<R>);

/// The outcomes of the record reads that the `csv` crate performs on
/// `input` with the given field delimiter, in order: each is the record's
/// fields, or the reader error's description. The first outcome, when
/// there is one, is the header row. The stream is a function of the input
/// text and the delimiter alone.
pub uninterp spec fn csv_stream(input: Seq<char>, delim: u8) -> Seq<
    Result<Seq<Seq<char>>, Seq<char>>,
>;

/// The record-read outcomes still pending on this reader.
pub uninterp spec fn reader_pending(r: csv::Reader<std::io::Cursor<Vec<u8>>>) -> Seq<
    Result<Seq<Seq<char>>, Seq<char>>,
>;

/// Relies on `csv::ReaderBuilder`: a reader over the input bytes with the
/// given field delimiter, configured to yield every record including the
/// first, yields exactly the outcomes of [`csv_stream`]. Blank lines yield
/// no record and every record spans at least one character of input, so
/// the stream is no longer than the input.
#[verifier::external_body]
fn new_reader(input: &str, delimiter: u8) -> (r: csv::Reader<std::io::Cursor<Vec<u8>>>)
    ensures
        reader_pending(r) == csv_stream(input@, delimiter),
        reader_pending(r).len() <= input@.len(),
{
    csv::ReaderBuilder::new().delimiter(delimiter).has_headers(false).from_reader(
        std::io::Cursor::new(input.as_bytes().to_vec()),
    )
}

/// Relies on `csv::Reader::read_record`: reads the next record, handing
/// back its fields, or the error's description; at end of input it reports
/// that nothing is left. A failed read consumes its record, and reading
/// continues after it.
#[verifier::external_body]
fn read_record(r: &mut csv::Reader<std::io::Cursor<Vec<u8>>>) -> (rec: Option<
    Result<Vec<String>, String>,
>)
    ensures
        reader_pending(*old(r)).len() == 0 ==> rec is None && reader_pending(*final(r))
            == reader_pending(*old(r)),
        reader_pending(*old(r)).len() > 0 ==> {
            &&& reader_pending(*final(r)) == reader_pending(*old(r)).drop_first()
            &&& match (rec, reader_pending(*old(r))[0]) {
                (Some(Ok(v)), Ok(fields)) => strings_view(v@) == fields,
                (Some(Err(m)), Err(em)) => m@ == em,
                _ => false,
            }
        },
{
    let mut rec = csv::StringRecord::new();
    match r.read_record(&mut rec) {
        Ok(false) => None,
        Ok(true) => Some(Ok(rec.iter().map(|f| f.to_string()).collect())),
        Err(e) => Some(Err(e.to_string())),
    }
}

/// The data rows gathered from the stream outcomes from `i` on, or the
/// position and description of the first failed read.
pub open spec fn csv_collect(st: Seq<Result<Seq<Seq<char>>, Seq<char>>>, i: int) -> Result<
    Seq<Seq<Seq<char>>>,
    (int, Seq<char>),
>
    decreases st.len() - i,
{
    if i < 0 || i >= st.len() {
        Ok(Seq::empty())
    } else {
        match st[i] {
            Err(m) => Err((i, m)),
            Ok(fields) => match csv_collect(st, i + 1) {
                Ok(rest) => Ok(seq![fields] + rest),
                Err(e) => Err(e),
            },
        }
    }
}

/// The delimiter-separated parse of `input`: the first record is the
/// header, the rest are data rows; a failed read on a data record is
/// reported with its 1-indexed physical row (the header is row 1); the
/// gathered table is then validated.
pub open spec fn csv_parse_spec(input: Seq<char>, delim: u8) -> Result<TableModel, ErrModel> {
    let st = csv_stream(input, delim);
    if st.len() == 0 {
        new_validated_spec(Seq::empty(), Seq::empty())
    } else {
        match st[0] {
            Err(m) => Err(ErrModel::Parse(m)),
            Ok(hs) => match csv_collect(st, 1) {
                Err((i, m)) => Err(ErrModel::Parse("CSV row "@ + dec_str(i + 1) + ": "@ + m)),
                Ok(rows) => new_validated_spec(hs, rows),
            },
        }
    }
}

proof fn lemma_csv_collect_all_ok(
    st: Seq<Result<Seq<Seq<char>>, Seq<char>>>,
    j: int,
    rows: Seq<Seq<Seq<char>>>,
)
    requires
        0 <= j <= st.len(),
        rows.len() == st.len() - j,
        forall|k: int| j <= k < st.len() ==> (#[trigger] st[k]) is Ok,
        forall|k: int| j <= k < st.len() ==> rows[k - j] == (#[trigger] st[k])->Ok_0,
    ensures
        csv_collect(st, j) == Ok::<Seq<Seq<Seq<char>>>, (int, Seq<char>)>(rows),
    decreases st.len() - j,
{
    if j >= st.len() {
        assert(rows =~= Seq::<Seq<Seq<char>>>::empty());
    } else {
        lemma_csv_collect_all_ok(st, j + 1, rows.drop_first());
        assert(rows =~= seq![st[j]->Ok_0] + rows.drop_first());
    }
}

proof fn lemma_csv_collect_err(st: Seq<Result<Seq<Seq<char>>, Seq<char>>>, j: int, i: int)
    requires
        0 <= j <= i < st.len(),
        forall|k: int| j <= k < i ==> (#[trigger] st[k]) is Ok,
        st[i] is Err,
    ensures
        csv_collect(st, j) == Err::<Seq<Seq<Seq<char>>>, (int, Seq<char>)>((i, st[i]->Err_0)),
    decreases i - j,
{
    if j < i {
        lemma_csv_collect_err(st, j + 1, i);
    }
}

/// Parses delimiter-separated values: CSV, TSV, or any other single-byte
/// delimiter.
pub struct CsvParser {
    delimiter: u8,
}

impl CsvParser {
    /// The field delimiter this parser splits on.
    pub closed spec fn spec_delimiter(&self) -> u8 {
        self.delimiter
    }

    /// A parser over the given single-byte field delimiter.
    pub fn new(delimiter: u8) -> (r: Self)
        ensures
            r.spec_delimiter() == delimiter,
    {
        CsvParser { delimiter }
    }

    /// A comma-separated parser: the delimiter is the comma, byte 44.
    pub fn csv() -> (r: Self)
        ensures
            r.spec_delimiter() == 44u8,
    {
        CsvParser::new(44)
    }

    /// A tab-separated parser: the delimiter is the tab, byte 9.
    pub fn tsv() -> (r: Self)
        ensures
            r.spec_delimiter() == 9u8,
    {
        CsvParser::new(9)
    }
}

impl Parser for CsvParser {
    open spec fn spec_parse(&self, input: Seq<char>) -> Result<TableModel, ErrModel> {
        csv_parse_spec(input, self.spec_delimiter())
    }

    fn parse(&self, input: &str) -> (r: Result<Table, Error>) {
        let ghost st = csv_stream(input@, self.delimiter);
        let n = input.unicode_len();
        let mut reader = new_reader(input, self.delimiter);
        let mut headers: Vec<String> = Vec::new();
        let mut rows: Vec<Vec<String>> = Vec::new();
        let mut i: usize = 0;
        proof {
            assert(strings_view(headers@) =~= Seq::<Seq<char>>::empty());
            assert(crate::rows_view(rows@) =~= Seq::<Seq<Seq<char>>>::empty());
        }
        loop
            invariant
                reader_pending(reader) == st.skip(i as int),
                0 <= (i as int) <= st.len() <= n == input@.len(),
                st == csv_stream(input@, self.delimiter),
                forall|k: int| 0 <= k < i ==> (#[trigger] st[k]) is Ok,
                (i as int) > 0 ==> strings_view(headers@) == st[0]->Ok_0,
                (i as int) == 0 ==> headers@.len() == 0,
                crate::rows_view(rows@).len() == if (i as int) > 0 {
                    i - 1
                } else {
                    0
                },
                forall|k: int|
                    1 <= k < i ==> crate::rows_view(rows@)[k - 1] == (#[trigger] st[k])->Ok_0,
            ensures
                (i as int) == st.len(),
                st == csv_stream(input@, self.delimiter),
                forall|k: int| 0 <= k < st.len() ==> (#[trigger] st[k]) is Ok,
                (i as int) > 0 ==> strings_view(headers@) == st[0]->Ok_0,
                (i as int) == 0 ==> headers@.len() == 0,
                crate::rows_view(rows@).len() == if (i as int) > 0 {
                    i - 1
                } else {
                    0
                },
                forall|k: int|
                    1 <= k < i ==> crate::rows_view(rows@)[k - 1] == (#[trigger] st[k])->Ok_0,
            decreases st.len() - i,
        {
            proof {
                if (i as int) < st.len() {
                    assert(st.skip(i as int)[0] == st[i as int]);
                    assert(st.skip(i as int).drop_first() =~= st.skip(i as int + 1));
                }
            }
            match read_record(&mut reader) {
                None => {
                    proof {
                        assert(st.skip(i as int).len() == 0);
                        assert((i as int) == st.len());
                    }
                    break ;
                },
                Some(Ok(fields)) => {
                    proof {
                        assert(st[i as int] is Ok);
                    }
                    if i == 0 {
                        headers = fields;
                    } else {
                        let ghost prev = crate::rows_view(rows@);
                        let ghost fv = strings_view(fields@);
                        rows.push(fields);
                        proof {
                            assert(crate::rows_view(rows@) =~= prev.push(fv));
                        }
                    }
                    i = i + 1;
                },
                Some(Err(msg)) => {
                    proof {
                        assert(st[i as int] is Err);
                        assert(st[i as int]->Err_0 == msg@);
                    }
                    if i == 0 {
                        proof {
                            assert(csv_parse_spec(input@, self.delimiter) == Err::<
                                TableModel,
                                ErrModel,
                            >(ErrModel::Parse(msg@)));
                        }
                        return Err(Error::ParseError(msg));
                    }
                    proof {
                        lemma_csv_collect_err(st, 1, i as int);
                    }
                    let mut m = String::from_str("CSV row ");
                    let num = usize_to_string(i + 1);
                    m.append(num.as_str());
                    m.append(": ");
                    m.append(msg.as_str());
                    return Err(Error::ParseError(m));
                },
            }
        }
        proof {
            if st.len() == 0 {
                assert(headers@.len() == 0);
                assert(strings_view(headers@) =~= Seq::<Seq<char>>::empty());
                assert(crate::rows_view(rows@) =~= Seq::<Seq<Seq<char>>>::empty());
            } else {
                lemma_csv_collect_all_ok(st, 1, crate::rows_view(rows@));
            }
        }
        Table::new_validated(headers, rows)
    }
}

} // verus!
