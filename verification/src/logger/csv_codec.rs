//! What is believed of the csv crate: its writer and its reader, each with a
//! contract that names what it puts out.

use crate::text::texts;
use vstd::prelude::*;

verus! {

/// A writer of the csv crate that writes into a vector of bytes. Verus
/// cannot take the crate's own type, whose parameter is bound by a trait of
/// std that it does not know, so the writer is kept behind this struct.
#[verifier::external_body]
pub struct RecordWriter {
    inner: csv::Writer<Vec<u8>>,
}

/// The records that have been written to a writer, each as the texts of its
/// fields, in the order in which they were written.
pub uninterp spec fn written_records(w: RecordWriter) -> Seq<Seq<Seq<char>>>;

/// The bytes that the csv crate's writer, with its default settings, puts out
/// for the given records.
pub uninterp spec fn csv_bytes(records: Seq<Seq<Seq<char>>>) -> Seq<u8>;

/// The records that the csv crate's reader, set to treat no record as a
/// header and otherwise with its default settings, reads from the given
/// bytes; `None` where it reports an error.
pub uninterp spec fn csv_records(bytes: Seq<u8>) -> Option<Seq<Seq<Seq<char>>>>;

/// The texts of the fields of each record.
pub open spec fn record_texts(records: Seq<Vec<String>>) -> Seq<Seq<Seq<char>>> {
    Seq::new(records.len(), |i: int| texts(records[i]@))
}

/// Whether a record may follow those written: it has a field, and as many
/// fields as the first record written, if there is one.
pub open spec fn fits_records(written: Seq<Seq<Seq<char>>>, fields: Seq<Seq<char>>) -> bool {
    &&& fields.len() > 0
    &&& written.len() > 0 ==> written[0].len() == fields.len()
}

/// `Writer::from_writer` on an empty vector of bytes: a writer to which no
/// record has been written.
#[verifier::external_body]
pub(crate) fn new_writer() -> (w: RecordWriter)
    ensures
        written_records(w) == Seq::<Seq<Seq<char>>>::empty(),
{
    RecordWriter { inner: csv::Writer::from_writer(Vec::new()) }
}

/// `Writer::write_record`: the record is written after those written before.
/// The writer refuses a record whose number of fields differs from that of
/// the first record; such a record is kept out here, and so is the record
/// without a field, which the writer turns into a record of one empty field.
/// Nothing else makes the call fail: the writer passes its bytes on to a
/// vector, which takes whatever it is given. The error, which therefore does
/// not come, would be given as its text.
#[verifier::external_body]
pub(crate) fn write_row(w: &mut RecordWriter, fields: &Vec<String>) -> (r: Result<(), String>)
    requires
        fits_records(written_records(*old(w)), texts(fields@)),
    ensures
        r is Ok,
        written_records(*final(w)) == written_records(*old(w)).push(texts(fields@)),
{
    w.inner.write_record(fields.iter()).map_err(|e| e.to_string())
}

/// `Writer::into_inner`: the bytes are those that the writer puts out for the
/// records written to it. The call only passes the writer's last bytes on to
/// the vector, which takes them, so it gives the vector back.
#[verifier::external_body]
pub(crate) fn finish_writer(w: RecordWriter) -> (r: Option<Vec<u8>>)
    ensures
        r is Some,
        r->Some_0@ == csv_bytes(written_records(w)),
{
    w.inner.into_inner().ok()
}

/// Reads every record of the bytes with a `Reader` built by
/// `ReaderBuilder::has_headers(false)` and `from_reader`, through
/// `Reader::records`; the first error ends the reading, and its text is given.
#[verifier::external_body]
pub(crate) fn read_records(bytes: &[u8]) -> (r: Result<Vec<Vec<String>>, String>)
    ensures
        match r {
            Ok(records) => csv_records(bytes@) == Some(record_texts(records@)),
            Err(_) => csv_records(bytes@) is None,
        },
{
    csv::ReaderBuilder::new().has_headers(false).from_reader(bytes).records().map(
        |r| r.map(|record| record.iter().map(|field| field.to_string()).collect()),
    ).collect::<Result<Vec<Vec<String>>, csv::Error>>().map_err(|e| e.to_string())
}

} // verus!
