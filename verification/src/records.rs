//! Comma-separated records, read by the `csv` crate.
use vstd::prelude::*;

verus! {

/// The error of the `csv` crate, `csv::Error`. Nothing is read from it: any
/// error of the reader fails the load.
#[verifier::external_type_specification]
#[verifier::external_body]
pub struct ExCsvError(csv::Error);

/// What the `csv` crate reads from `data` as comma-separated records without a
/// header row: the fields of each record in order, or `None` where it reports
/// an error.
pub uninterp spec fn csv_records(data: Seq<u8>) -> Option<Seq<Seq<Seq<char>>>>;

/// Reads all of `data` with `csv::ReaderBuilder`, set to no header row and to
/// the comma as delimiter, through `csv::Reader::records`.
///
/// Believed, not proved: the outcome depends on the bytes alone. The records
/// come back in the order of the data, each with its fields as text; the first
/// error that the reader reports (bytes that are not UTF-8, a record whose
/// number of fields differs from that of the first) comes back in their place.
#[verifier::external_body]
pub(crate) fn read_records(data: &[u8]) -> (r: Result<Vec<Vec<String>>, csv::Error>)
    ensures
        match r {
            Ok(records) => csv_records(data@) == Some(records.deep_view()),
            Err(_) => csv_records(data@) is None,
        },
{
    let mut reader = csv::ReaderBuilder::new().has_headers(false).delimiter(b',').from_reader(data);
    let records: Result<Vec<csv::StringRecord>, csv::Error> = reader.records().collect();
    Ok(records?.iter().map(|record| record.iter().map(String::from).collect()).collect())
}

} // verus!
