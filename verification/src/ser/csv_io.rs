//! The calls into the `csv` crate: reading a file record by record, and
//! writing one record.

use vstd::prelude::*;

verus! {

/// `csv::Error`, which is carried through and never looked into.
#[verifier::external_type_specification]
#[verifier::external_body]
pub struct ExCsvError(csv::Error);

/// `csv::Reader`, a parser that owns its input.
#[verifier::external_type_specification]
#[verifier::external_body]
#[verifier::reject_recursive_types(R)]
pub struct ExCsvReader<R>(csv::Reader<R>);

/// The records that the `csv` crate finds in a file when records may differ
/// in length, the header row first: the fields of each, or `None` for a
/// record that is not valid UTF-8.
pub uninterp spec fn csv_rows(file: Seq<u8>) -> Seq<Option<Seq<Seq<char>>>>;

/// The records that a reader has not handed out yet.
pub uninterp spec fn reader_rest(reader: csv::Reader<&[u8]>) -> Seq<Option<Seq<Seq<char>>>>;

/// The bytes that the `csv` crate writes for one record.
pub uninterp spec fn csv_record_bytes(fields: Seq<Seq<char>>) -> Seq<u8>;

/// The fields of a record, as plain values.
pub open spec fn fields_view(fields: Seq<String>) -> Seq<Seq<char>> {
    Seq::new(fields.len(), |i: int| fields[i]@)
}

/// `csv::ReaderBuilder::from_reader` with `flexible(true)`, followed by
/// `csv::Reader::headers`. The contract claims that the reader then holds
/// every record of the file but the first, that the first comes back as the
/// header, that a file without records gives an empty header, and that the
/// call fails exactly when the first record is not valid UTF-8.
#[verifier::external_body]
pub(crate) fn open_reader<'a>(file: &'a [u8]) -> (r: Result<(csv::Reader<&'a [u8]>, Vec<String>), csv::Error>)
    ensures
        csv_rows(file@).len() == 0 ==> r is Ok && r->Ok_0.1@.len() == 0 && reader_rest(r->Ok_0.0).len() == 0,
        csv_rows(file@).len() > 0 && csv_rows(file@)[0] is None ==> r is Err,
        csv_rows(file@).len() > 0 && csv_rows(file@)[0] is Some ==> r is Ok && fields_view(r->Ok_0.1@) == csv_rows(
            file@,
        )[0]->Some_0 && reader_rest(r->Ok_0.0) == csv_rows(file@).skip(1),
{
    let mut reader = csv::ReaderBuilder::new().flexible(true).from_reader(file);
    let header = reader.headers()?.iter().map(String::from).collect();
    Ok((reader, header))
}

/// `csv::Reader::read_record`, on a reader whose header was read. The
/// contract claims that the next record is handed out, with `true`, and
/// leaves the reader, that `false` comes back once no record is left, and
/// that the call fails exactly when the next record is not valid UTF-8.
#[verifier::external_body]
pub(crate) fn next_record<'a>(reader: &mut csv::Reader<&'a [u8]>) -> (r: Result<(bool, Vec<String>), csv::Error>)
    ensures
        reader_rest(*old(reader)).len() == 0 ==> r is Ok && !r->Ok_0.0 && reader_rest(*final(reader)).len() == 0,
        reader_rest(*old(reader)).len() > 0 && reader_rest(*old(reader))[0] is None ==> r is Err,
        reader_rest(*old(reader)).len() > 0 && reader_rest(*old(reader))[0] is Some ==> r is Ok && r->Ok_0.0
            && fields_view(r->Ok_0.1@) == reader_rest(*old(reader))[0]->Some_0 && reader_rest(*final(reader))
            == reader_rest(*old(reader)).skip(1),
{
    let mut line = csv::StringRecord::new();
    let more = reader.read_record(&mut line)?;
    Ok((more, line.iter().map(String::from).collect()))
}

/// `csv::Writer::write_record` on a writer of its own, followed by
/// `csv::Writer::into_inner`. The contract names the bytes that come out.
#[verifier::external_body]
pub(crate) fn encode_record(fields: &Vec<String>) -> (r: Vec<u8>)
    ensures
        r@ == csv_record_bytes(fields_view(fields@)),
{
    let mut writer = csv::Writer::from_writer(Vec::new());
    let _ = writer.write_record(fields);
    match writer.into_inner() {
        Ok(bytes) => bytes,
        Err(_) => Vec::new(),
    }
}

} // verus!
