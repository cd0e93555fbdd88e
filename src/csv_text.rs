//! The CSV reader and writer, seen as functions on bytes and fields.
use vstd::prelude::*;

verus! {

/// The rows that csv's reader finds in a text, each as its fields, when it
/// reads the whole text without error.
pub uninterp spec fn csv_records(bytes: Seq<u8>) -> Option<Seq<Seq<Seq<char>>>>;

/// The bytes that csv's writer produces for one record, when it does.
pub uninterp spec fn csv_line(fields: Seq<Seq<char>>) -> Option<Seq<u8>>;

/// Relies on `csv::Reader::records`, with no row taken as a header: every
/// row of the text as its fields, or the reader's first error.
#[verifier::external_body]
pub(crate) fn read_rows(bytes: &[u8]) -> (r: Result<Vec<Vec<String>>, csv::Error>)
    ensures
        r is Ok <==> csv_records(bytes@) is Some,
        r matches Ok(rows) ==> csv_records(bytes@) == Some(rows.deep_view()),
{
    let mut reader = csv::ReaderBuilder::new().has_headers(false).from_reader(bytes);
    let mut rows = Vec::new();
    for row in reader.records() {
        rows.push(row?.iter().map(String::from).collect());
    }
    Ok(rows)
}

/// Relies on `csv::Writer::write_record` and `csv::Writer::into_inner`:
/// the bytes of one record written to an empty buffer, or the writer's
/// error.
#[verifier::external_body]
pub(crate) fn write_row(fields: &Vec<String>) -> (r: Result<Vec<u8>, csv::Error>)
    ensures
        r is Ok <==> csv_line(fields.deep_view()) is Some,
        r matches Ok(b) ==> csv_line(fields.deep_view()) == Some(b@),
{
    let mut writer = csv::WriterBuilder::new().has_headers(false).from_writer(Vec::new());
    writer.write_record(fields)?;
    writer.into_inner().map_err(|e| csv::Error::from(e.into_error()))
}

} // verus!
