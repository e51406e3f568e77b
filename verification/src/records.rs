//! Trusted boundary around the delimited-record reader and writer.
//!
//! Parsing and serializing the delimited-text grammar (quoting, escaping,
//! record splitting) is consumed as a capability of the csv crate.  The
//! items here declare the crate's types to the verifier and state, over a
//! few named results, what its calls return; everything else in the crate
//! is proved against these contracts.

use vstd::prelude::*;

verus! {

#[verifier::external_type_specification]
#[verifier::external_body]
pub struct ExByteRecord(csv::ByteRecord);

#[verifier::external_type_specification]
#[verifier::external_body]
pub struct ExCsvError(csv::Error);

#[verifier::external_type_specification]
#[verifier::external_body]
#[verifier::reject_recursive_types(T)]
pub struct ExCursor<T>(std::io::Cursor<T>);

#[verifier::external_type_specification]
#[verifier::external_body]
#[verifier::reject_recursive_types(R)]
pub struct ExReader<R>(csv::Reader<R>);

/// A record sink that serializes into an in-memory buffer.  The csv writer
/// it holds carries a trait bound the verifier cannot declare, so the whole
/// struct is opaque and its behaviour is stated by the wrappers below.
#[verifier::external_body]
pub struct RecordSink {
    inner: csv::Writer<Vec<u8>>,
}

/// The fields a record holds, in order, as raw bytes.
pub uninterp spec fn record_fields(r: csv::ByteRecord) -> Seq<Seq<u8>>;

/// The records a reader has yet to yield, in order.
pub uninterp spec fn reader_pending(r: csv::Reader<std::io::Cursor<Vec<u8>>>) -> Seq<Seq<Seq<u8>>>;

/// Whether the reader's input ends cleanly after the pending records, with
/// no structural error.
pub uninterp spec fn reader_clean(r: csv::Reader<std::io::Cursor<Vec<u8>>>) -> bool;

/// The records that parsing `input` under `delimiter` yields, up to the
/// first structural error if there is one.
pub uninterp spec fn csv_records(input: Seq<u8>, delimiter: u8) -> Seq<Seq<Seq<u8>>>;

/// Whether `input` parses under `delimiter` without a structural error.
pub uninterp spec fn csv_wellformed(input: Seq<u8>, delimiter: u8) -> bool;

/// The records a writer has accepted so far, in order.
pub uninterp spec fn writer_written(w: RecordSink) -> Seq<Seq<Seq<u8>>>;

/// The delimiter a writer was configured with.
pub uninterp spec fn writer_delim(w: RecordSink) -> u8;

/// Whether the sink stands at a record boundary: every record handed to it
/// so far was accepted whole.  A rejected write leaves the sink mid-record,
/// and nothing more is stated of such a sink.
pub uninterp spec fn writer_ok(w: RecordSink) -> bool;

/// The serialization of `records` under `delimiter`, re-quoted as needed.
pub uninterp spec fn csv_encode(records: Seq<Seq<Seq<u8>>>, delimiter: u8) -> Seq<u8>;

/// Relies on `csv::ByteRecord::new`: a fresh record has no fields.
#[verifier::external_body]
pub(crate) fn record_new() -> (r: csv::ByteRecord)
    ensures
        record_fields(r) == Seq::<Seq<u8>>::empty(),
{
    csv::ByteRecord::new()
}

/// Relies on `csv::ByteRecord::len`: the number of fields in the record.
#[verifier::external_body]
pub(crate) fn record_len(r: &csv::ByteRecord) -> (n: usize)
    ensures
        n == record_fields(*r).len(),
{
    r.len()
}

/// Relies on `csv::ByteRecord::get`: an in-bounds index yields that field.
#[verifier::external_body]
pub(crate) fn record_field(r: &csv::ByteRecord, i: usize) -> (f: Vec<u8>)
    requires
        i < record_fields(*r).len(),
    ensures
        f@ == record_fields(*r)[i as int],
{
    r.get(i).unwrap().to_vec()
}

/// Relies on `csv::ByteRecord::push_field`: the field is appended.
#[verifier::external_body]
pub(crate) fn record_push(r: &mut csv::ByteRecord, field: &Vec<u8>)
    ensures
        record_fields(*final(r)) == record_fields(*old(r)).push(field@),
{
    r.push_field(field.as_slice());
}

/// Relies on `csv::ReaderBuilder` (`has_headers(false)`, `delimiter`) and
/// `csv::Reader::from_reader` over an in-memory cursor: the reader will
/// yield, in order, the records of `input`, honoring the grammar's quoting.
/// With the default non-flexible setting a record whose field count differs
/// from the first record's is reported as an error instead of being yielded,
/// so every yielded record has the same field count; and a record always
/// consumes at least one input byte, so there are at most as many records as
/// bytes.
#[verifier::external_body]
pub(crate) fn reader_from_bytes(input: &Vec<u8>, delimiter: u8) -> (r: csv::Reader<
    std::io::Cursor<Vec<u8>>,
>)
    ensures
        reader_pending(r) == csv_records(input@, delimiter),
        reader_clean(r) == csv_wellformed(input@, delimiter),
        reader_pending(r).len() <= input@.len(),
        forall|i: int|
            0 <= i < reader_pending(r).len() ==> (#[trigger] reader_pending(r)[i]).len()
                == reader_pending(r)[0].len(),
{
    csv::ReaderBuilder::new().has_headers(false).delimiter(delimiter).from_reader(
        std::io::Cursor::new(input.clone()),
    )
}

/// Relies on `csv::Reader::read_byte_record`: it yields the next record,
/// reports end of input with `false`, and reports a structural error (a row
/// whose field count differs from the first row's) as `Err` once the clean
/// records are exhausted.
#[verifier::external_body]
pub(crate) fn read_next(rdr: &mut csv::Reader<std::io::Cursor<Vec<u8>>>) -> (r: Result<
    Option<csv::ByteRecord>,
    csv::Error,
>)
    ensures
        match r {
            Ok(Some(rec)) => reader_pending(*old(rdr)).len() > 0 && record_fields(rec)
                == reader_pending(*old(rdr))[0] && reader_pending(*final(rdr)) == reader_pending(
                *old(rdr),
            ).skip(1) && reader_clean(*final(rdr)) == reader_clean(*old(rdr)),
            Ok(None) => reader_pending(*old(rdr)).len() == 0 && reader_clean(*old(rdr))
                && reader_pending(*final(rdr)) == reader_pending(*old(rdr)) && reader_clean(
                *final(rdr),
            ) == reader_clean(*old(rdr)),
            Err(_) => reader_pending(*old(rdr)).len() == 0 && !reader_clean(*old(rdr)),
        },
{
    let mut rec = csv::ByteRecord::new();
    match rdr.read_byte_record(&mut rec) {
        Ok(true) => Ok(Some(rec)),
        Ok(false) => Ok(None),
        Err(e) => Err(e),
    }
}

/// Relies on `csv::WriterBuilder` (`has_headers(false)`, `delimiter`) and
/// `csv::Writer::from_writer` over a fresh in-memory buffer.
#[verifier::external_body]
pub(crate) fn writer_to_bytes_new(delimiter: u8) -> (w: RecordSink)
    ensures
        writer_written(w) == Seq::<Seq<Seq<u8>>>::empty(),
        writer_delim(w) == delimiter,
        writer_ok(w),
{
    RecordSink {
        inner: csv::WriterBuilder::new().has_headers(false).delimiter(delimiter).from_writer(
            Vec::new(),
        ),
    }
}

/// Relies on `csv::Writer::write_byte_record` writing to a `Vec<u8>`: a
/// write to an in-memory buffer cannot fail at the I/O level, so with the
/// default non-flexible setting the write succeeds whenever the record's
/// field count agrees with the first record written; a successful write
/// appends the record, serialized with re-quoting as needed.
#[verifier::external_body]
pub(crate) fn write_record(w: &mut RecordSink, rec: &csv::ByteRecord) -> (r: Result<
    (),
    csv::Error,
>)
    requires
        writer_ok(*old(w)),
    ensures
        writer_delim(*final(w)) == writer_delim(*old(w)),
        r is Ok ==> writer_ok(*final(w)) && writer_written(*final(w)) == writer_written(
            *old(w),
        ).push(record_fields(*rec)),
        writer_written(*old(w)).len() == 0 || record_fields(*rec).len() == writer_written(
            *old(w),
        )[0].len() ==> r is Ok,
{
    w.inner.write_byte_record(rec)
}

/// Relies on `csv::Writer::into_inner` over a `Vec<u8>` sink: flushing to an
/// in-memory buffer cannot fail, and the buffer holds the serialization of
/// exactly the records written.
#[verifier::external_body]
pub(crate) fn writer_into_bytes(w: RecordSink) -> (out: Vec<u8>)
    requires
        writer_ok(w),
    ensures
        out@ == csv_encode(writer_written(w), writer_delim(w)),
{
    w.inner.into_inner().ok().unwrap()
}

} // verus!
