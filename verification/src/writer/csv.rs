//! CSV writer: delegates field quoting and escaping to the `csv` crate's
//! standards-compliant encoder, one record at a time, and is verified to
//! hand the encoder exactly the table's header and rows in order.

use vstd::prelude::*;

use crate::error::ErrModel;
use crate::error::Error;
use crate::text::strings_view;
use crate::consistent;
use crate::Table;
use crate::TableModel;
use crate::Writer;

verus! {

/// Holds the `csv` crate's encoder over an in-memory buffer. The encoder
/// type is generic over an output sink bounded by an outside trait, which
/// cannot be declared here, so the whole struct is opaque.
#[verifier::external_body]
pub struct CsvEmitter {
    inner: csv::Writer<Vec<u8>>,
}

/// The text the emitter has accepted so far.
pub uninterp spec fn emitter_out(w: CsvEmitter) -> Seq<char>;

/// The field count of the first record the emitter accepted, which every
/// later record must repeat, or nothing before the first record.
pub uninterp spec fn emitter_width(w: CsvEmitter) -> Option<int>;

/// The comma-separated encoding of one record, quoted and escaped as the
/// `csv` crate renders it, ended by a line feed. A function of the fields
/// alone.
pub uninterp spec fn csv_record_line(fields: Seq<Seq<char>>) -> Seq<char>;

/// Relies on `csv::WriterBuilder`: a fresh encoder over an empty buffer
/// has accepted no text and no record.
#[verifier::external_body]
fn new_emitter() -> (w: CsvEmitter)
    ensures
        emitter_out(w) == Seq::<char>::empty(),
        emitter_width(w) is None,
{
    CsvEmitter { inner: csv::WriterBuilder::new().has_headers(false).from_writer(Vec::new()) }
}

/// Relies on `csv::Writer::write_record`: with an in-memory buffer the
/// write fails exactly when the record's field count differs from the
/// first record's; on success the record's encoding is appended. On
/// failure it reports the encoder error's description, and the emitter is
/// not used further.
#[verifier::external_body]
fn emit_record(w: &mut CsvEmitter, fields: &Vec<String>) -> (r: Result<(), String>)
    ensures
        r is Ok <==> (emitter_width(*old(w)) is None || emitter_width(*old(w)) == Some(
            fields@.len() as int,
        )),
        r is Ok ==> emitter_out(*final(w)) == emitter_out(*old(w)) + csv_record_line(
            strings_view(fields@),
        ) && emitter_width(*final(w)) == Some(
            if emitter_width(*old(w)) is None {
                fields@.len() as int
            } else {
                emitter_width(*old(w))->0
            },
        ),
{
    match w.inner.write_record(fields.iter()) {
        Ok(()) => Ok(()),
        Err(e) => Err(e.to_string()),
    }
}

/// Relies on `csv::Writer::into_inner`: flushes the encoder and hands back
/// everything it accepted. The encoder writes the fields it was given, so
/// the buffer is valid text.
#[verifier::external_body]
fn emitter_string(w: CsvEmitter) -> (r: String)
    ensures
        r@ == emitter_out(w),
{
    match w.inner.into_inner() {
        Ok(buf) => String::from_utf8_lossy(&buf).into_owned(),
        Err(_) => String::new(),
    }
}

/// The encodings of the first `i` rows, concatenated.
pub open spec fn csv_rows_upto(rows: Seq<Seq<Seq<char>>>, i: int) -> Seq<char>
    decreases i,
{
    if i <= 0 {
        Seq::empty()
    } else {
        csv_rows_upto(rows, i - 1) + csv_record_line(rows[i - 1])
    }
}

/// The full rendering of a table: the header record, then each row.
pub open spec fn csv_doc(t: TableModel) -> Seq<char> {
    csv_record_line(t.headers) + csv_rows_upto(t.rows, t.rows.len() as int)
}

/// Whether writing succeeds: it fails exactly when some row's cell count
/// differs from the header's, which a validated table never has.
pub open spec fn csv_write_spec(t: TableModel) -> Result<Seq<char>, ()> {
    if consistent(t) {
        Ok(csv_doc(t))
    } else {
        Err(())
    }
}

/// Writes tables as standard CSV with quoting and escaping.
pub struct CsvWriter;

impl CsvWriter {
    /// A CSV writer.
    pub fn new() -> CsvWriter {
        CsvWriter
    }
}

impl Default for CsvWriter {
    fn default() -> CsvWriter {
        CsvWriter::new()
    }
}

impl Writer for CsvWriter {
    open spec fn spec_write(&self, t: TableModel) -> Result<Seq<char>, ()> {
        csv_write_spec(t)
    }

    open spec fn spec_write_partial(&self, t: TableModel) -> Seq<char> {
        Seq::empty()
    }

    open spec fn err_matches(&self, t: TableModel, e: ErrModel) -> bool {
        e is Parse
    }

    fn write(&self, table: &Table, out: &mut String) -> (r: Result<(), Error>) {
        let mut em = new_emitter();
        let hs = table.headers();
        let ghost hv = table@.headers;
        match emit_record(&mut em, hs) {
            Ok(()) => {},
            Err(m) => {
                proof {
                    assert(false);
                }
                return Err(Error::ParseError(m));
            },
        }
        let rows = table.rows();
        let ghost rv = table@.rows;
        let nr = rows.len();
        let mut i: usize = 0;
        while i < nr
            invariant
                i <= nr == rv.len(),
                crate::rows_view(rows@) == rv,
                hv == table@.headers,
                rv == table@.rows,
                emitter_width(em) == Some(hv.len() as int),
                emitter_out(em) == csv_record_line(hv) + csv_rows_upto(rv, i as int),
                forall|j: int| 0 <= j < i ==> (#[trigger] rv[j]).len() == hv.len(),
            decreases nr - i,
        {
            proof {
                assert(crate::rows_view(rows@)[i as int] == strings_view(rows@[i as int]@));
            }
            match emit_record(&mut em, &rows[i]) {
                Ok(()) => {},
                Err(m) => {
                    proof {
                        assert(rv[i as int].len() != hv.len());
                        assert(!consistent(table@));
                        assert(out@ =~= old(out)@ + Seq::<char>::empty());
                    }
                    return Err(Error::ParseError(m));
                },
            }
            i = i + 1;
        }
        let text = emitter_string(em);
        out.append(text.as_str());
        proof {
            assert(consistent(table@));
            assert(out@ =~= old(out)@ + csv_doc(table@));
        }
        Ok(())
    }
}

} // verus!
