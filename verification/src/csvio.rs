//! The two trusted bridges to the `csv` crate.
//!
//! Raw field-delimited text is decoded and encoded by the `csv` crate; what
//! it computes is named by two uninterpreted functions, and everything the
//! library does with rows of fields is verified against those names.

use vstd::prelude::*;

verus! {

/// The rows of fields that semicolon-delimited parsing yields for a given
/// byte sequence.
pub uninterp spec fn csv_rows_of(input: Seq<u8>) -> Seq<Seq<Seq<char>>>;

/// Relies on `csv::ReaderBuilder` and `csv::Reader::records` of the `csv`
/// crate: parses the bytes as semicolon-delimited rows of fields, in input
/// order. Rows the reader rejects (for example rows whose field count
/// differs from the first row's) are skipped. The result depends on the
/// bytes alone.
#[verifier::external_body]
pub(crate) fn parse_semicolon_rows(input: &[u8]) -> (r: Vec<Vec<String>>)
    ensures
        r.deep_view() == csv_rows_of(input@),
{
    let mut rdr = csv::ReaderBuilder::new().delimiter(b';').has_headers(false).from_reader(
        input,
    );
    rdr.records().filter_map(|rec| rec.ok()).map(
        |rec| rec.iter().map(|f| f.to_string()).collect(),
    ).collect()
}

/// The comma-delimited encoding of rows of fields.
pub uninterp spec fn csv_encoding_of(rows: Seq<Seq<Seq<char>>>) -> Seq<u8>;

/// Relies on `csv::WriterBuilder` and `csv::Writer::write_record` of the
/// `csv` crate: encodes the rows comma-delimited, one line per row, quoting
/// fields only where needed. Writing into a byte vector cannot fail, so the
/// result depends on the rows alone.
#[verifier::external_body]
pub(crate) fn encode_comma_rows(rows: &Vec<Vec<String>>) -> (r: Vec<u8>)
    ensures
        r@ == csv_encoding_of(rows.deep_view()),
{
    let mut wtr = csv::WriterBuilder::new().flexible(true).from_writer(Vec::new());
    for row in rows.iter() {
        let _ = wtr.write_record(row);
    }
    wtr.into_inner().unwrap_or_default()
}

} // verus!
