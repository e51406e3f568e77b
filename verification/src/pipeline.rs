//! The streaming record pipeline.
//!
//! Records are pulled one at a time, every field is sanitized, and the
//! record is written out with the same field count and in the same order.
//! Per-field change notifications are aggregated as log entries carrying
//! zero-based record and field numbers.

use crate::records::{
    csv_encode, csv_records, csv_wellformed, read_next, reader_clean, reader_from_bytes,
    reader_pending, record_field, record_fields, record_len, record_new, record_push,
    write_record, writer_delim, writer_into_bytes, writer_ok, writer_to_bytes_new,
    writer_written,
};
use crate::sanitize::{changes_of, sanitize, sanitized, Changes};
use vstd::pervasive::unreached;
use vstd::prelude::*;

verus! {

/// One diagnostic entry: which categories fired for one field.
#[derive(Clone, Copy, Debug, PartialEq, Eq, Structural)]
pub struct LogEntry {
    pub record_number: usize,
    pub field_number: usize,
    pub changes: Changes,
}

/// A record with every field sanitized, in order.
pub open spec fn sanitized_record(rec: Seq<Seq<u8>>, delimiter: u8) -> Seq<Seq<u8>> {
    rec.map_values(|f: Seq<u8>| sanitized(f, delimiter))
}

/// Every record sanitized, in order.
pub open spec fn sanitized_records(rs: Seq<Seq<Seq<u8>>>, delimiter: u8) -> Seq<Seq<Seq<u8>>> {
    rs.map_values(|rec: Seq<Seq<u8>>| sanitized_record(rec, delimiter))
}

/// The log entries one record produces: one entry per field whose change
/// set is non-empty, in field order.
pub open spec fn record_log(rec: Seq<Seq<u8>>, delimiter: u8, record_number: usize) -> Seq<
    LogEntry,
>
    decreases rec.len(),
{
    if rec.len() == 0 {
        Seq::empty()
    } else {
        record_log(rec.drop_last(), delimiter, record_number) + if changes_of(
            rec.last(),
            delimiter,
        ) != Changes::none() {
            seq![
                LogEntry {
                    record_number,
                    field_number: (rec.len() - 1) as usize,
                    changes: changes_of(rec.last(), delimiter),
                },
            ]
        } else {
            Seq::empty()
        }
    }
}

/// The log entries a whole run produces, with records numbered from zero in
/// arrival order.
pub open spec fn run_log(rs: Seq<Seq<Seq<u8>>>, delimiter: u8) -> Seq<LogEntry>
    decreases rs.len(),
{
    if rs.len() == 0 {
        Seq::empty()
    } else {
        run_log(rs.drop_last(), delimiter) + record_log(
            rs.last(),
            delimiter,
            (rs.len() - 1) as usize,
        )
    }
}

/// Check the configured delimiter: it must be exactly one byte.
pub fn parse_delimiter(bytes: &Vec<u8>) -> (r: Option<u8>)
    ensures
        r matches Some(d) ==> bytes@.len() == 1 && d == bytes@[0],
        r is None <==> bytes@.len() != 1,
{
    if bytes.len() == 1 {
        Some(bytes[0])
    } else {
        None
    }
}

/// What one write to the record sink reported, classified at the sink
/// boundary: accepted, failed because the consumer closed its end of the
/// output, or failed for any other reason.
#[derive(Clone, Copy, Debug, PartialEq, Eq, Structural)]
pub enum WriteStatus {
    Accepted,
    ConsumerClosed,
    Failed,
}

/// The outcome a terminated run reports.
#[derive(Clone, Copy, Debug, PartialEq, Eq, Structural)]
pub enum Outcome {
    Success,
    Failure,
}

/// Decide how a run goes on after one write.  An accepted write keeps the
/// run going.  A consumer that closed its end of the output terminates the
/// run as a success, with the failure suppressed, no matter how many records
/// remained.  Any other write failure terminates the run as a failure.
pub fn after_write(status: WriteStatus) -> (r: Option<Outcome>)
    ensures
        status == WriteStatus::Accepted ==> r is None,
        status == WriteStatus::ConsumerClosed ==> r == Some(Outcome::Success),
        status == WriteStatus::Failed ==> r == Some(Outcome::Failure),
{
    match status {
        WriteStatus::Accepted => None,
        WriteStatus::ConsumerClosed => Some(Outcome::Success),
        WriteStatus::Failed => Some(Outcome::Failure),
    }
}

/// Why a run failed.
#[derive(Debug)]
pub enum PipelineError {
    /// A record in the input violates the delimited-text grammar.
    Parse(csv::Error),
}

/// The per-run state: the configured delimiter and the number of records
/// consumed so far, which is the next record's zero-based number.
pub struct Pipeline {
    pub delimiter: u8,
    pub record_number: usize,
}

impl Pipeline {
    pub fn new(delimiter: u8) -> (p: Pipeline)
        ensures
            p.delimiter == delimiter,
            p.record_number == 0,
    {
        Pipeline { delimiter, record_number: 0 }
    }

    /// Sanitize every field of one record, in order, and number the record.
    ///
    /// The output record holds exactly one sanitized field per source field,
    /// in the same order; the log entries carry this record's number and the
    /// zero-based numbers of the fields that changed; and the record counter
    /// advances by one.
    pub fn on_record(&mut self, rec: &csv::ByteRecord) -> (r: (csv::ByteRecord, Vec<LogEntry>))
        requires
            old(self).record_number < usize::MAX,
        ensures
            final(self).delimiter == old(self).delimiter,
            final(self).record_number == old(self).record_number + 1,
            record_fields(r.0) == sanitized_record(record_fields(*rec), old(self).delimiter),
            record_fields(r.0).len() == record_fields(*rec).len(),
            r.1@ == record_log(record_fields(*rec), old(self).delimiter, old(self).record_number),
    {
        let delimiter = self.delimiter;
        let record_number = self.record_number;
        let n = record_len(rec);
        let mut out = record_new();
        let mut logs: Vec<LogEntry> = Vec::new();
        let mut j: usize = 0;
        while j < n
            invariant
                j <= n,
                n == record_fields(*rec).len(),
                record_fields(out) == sanitized_record(
                    record_fields(*rec).take(j as int),
                    delimiter,
                ),
                logs@ == record_log(record_fields(*rec).take(j as int), delimiter, record_number),
            decreases n - j,
        {
            let ghost prefix = record_fields(*rec).take(j as int);
            let field = record_field(rec, j);
            let (clean, ch) = sanitize(&field, delimiter);
            record_push(&mut out, &clean);
            if ch.any() {
                logs.push(LogEntry { record_number, field_number: j, changes: ch });
            }
            j += 1;
            proof {
                let cur = record_fields(*rec).take(j as int);
                assert(cur =~= prefix.push(field@));
                assert(cur.drop_last() =~= prefix);
                assert(record_fields(out) =~= sanitized_record(cur, delimiter));
                if ch != Changes::none() {
                    assert(logs@ =~= record_log(prefix, delimiter, record_number) + seq![
                        LogEntry {
                            record_number,
                            field_number: (j - 1) as usize,
                            changes: ch,
                        },
                    ]);
                } else {
                    assert(logs@ =~= record_log(prefix, delimiter, record_number)
                        + Seq::<LogEntry>::empty());
                }
                assert(logs@ == record_log(cur, delimiter, record_number));
            }
        }
        proof {
            assert(record_fields(*rec).take(n as int) =~= record_fields(*rec));
        }
        self.record_number = record_number + 1;
        (out, logs)
    }
}

/// Run the whole pipeline over an in-memory input.
///
/// The input bytes are parsed into records under `delimiter`, every field of
/// every record is sanitized, and the records are re-serialized in the same
/// order with the same field counts.  On success the result holds the output
/// bytes and the aggregated log entries, with records numbered from zero in
/// arrival order.  A structural parse error is returned as `Err`; an input
/// that parses cleanly is always processed completely.
pub fn run(input: Vec<u8>, delimiter: u8) -> (r: Result<(Vec<u8>, Vec<LogEntry>), PipelineError>)
    ensures
        r is Ok <==> csv_wellformed(input@, delimiter),
        r matches Ok(out) ==> out.0@ == csv_encode(
            sanitized_records(csv_records(input@, delimiter), delimiter),
            delimiter,
        ) && out.1@ == run_log(csv_records(input@, delimiter), delimiter),
{
    let ghost recs = csv_records(input@, delimiter);
    let ghost wf = csv_wellformed(input@, delimiter);
    let input_len = input.len();
    let mut reader = reader_from_bytes(&input, delimiter);
    let mut sink = writer_to_bytes_new(delimiter);
    let mut pipe = Pipeline::new(delimiter);
    let mut logs: Vec<LogEntry> = Vec::new();
    proof {
        assert(recs.skip(0) =~= recs);
        assert(recs.take(0) =~= Seq::<Seq<Seq<u8>>>::empty());
        assert(sanitized_records(recs.take(0), delimiter) =~= Seq::<Seq<Seq<u8>>>::empty());
    }
    loop
        invariant
            pipe.delimiter == delimiter,
            pipe.record_number <= recs.len(),
            recs.len() <= input_len,
            recs == csv_records(input@, delimiter),
            wf == csv_wellformed(input@, delimiter),
            reader_pending(reader) == recs.skip(pipe.record_number as int),
            reader_clean(reader) == wf,
            forall|i: int| 0 <= i < recs.len() ==> (#[trigger] recs[i]).len() == recs[0].len(),
            writer_delim(sink) == delimiter,
            writer_ok(sink),
            writer_written(sink) == sanitized_records(
                recs.take(pipe.record_number as int),
                delimiter,
            ),
            logs@ == run_log(recs.take(pipe.record_number as int), delimiter),
        ensures
            wf,
            pipe.record_number == recs.len(),
            writer_delim(sink) == delimiter,
            writer_ok(sink),
            writer_written(sink) == sanitized_records(recs, delimiter),
            logs@ == run_log(recs, delimiter),
        decreases recs.len() - pipe.record_number,
    {
        let ghost i = pipe.record_number as int;
        proof {
            assert(recs.skip(i).len() == recs.len() - i);
        }
        match read_next(&mut reader) {
            Err(e) => {
                return Err(PipelineError::Parse(e));
            },
            Ok(None) => {
                proof {
                    assert(recs.take(i) =~= recs);
                }
                break;
            },
            Ok(Some(rec)) => {
                proof {
                    assert(record_fields(rec) == recs.skip(i)[0]);
                    assert(recs.skip(i)[0] == recs[i]);
                }
                let (out_rec, mut entries) = pipe.on_record(&rec);
                logs.append(&mut entries);
                proof {
                    if i > 0 {
                        assert(writer_written(sink)[0] == sanitized_record(
                            recs.take(i)[0],
                            delimiter,
                        ));
                        assert(recs.take(i)[0] == recs[0]);
                        assert(writer_written(sink)[0].len() == recs[0].len());
                        assert(record_fields(out_rec).len() == recs[0].len());
                    }
                }
                // The sink is in-memory and sanitization preserves field
                // counts, which the source guarantees are uniform, so the
                // write cannot fail.
                match write_record(&mut sink, &out_rec) {
                    Ok(()) => {},
                    Err(_) => {
                        return unreached();
                    },
                }
                proof {
                    assert(reader_pending(reader) =~= recs.skip(i + 1));
                    let cur = recs.take(i + 1);
                    assert(cur =~= recs.take(i).push(recs[i]));
                    assert(cur.drop_last() =~= recs.take(i));
                    assert(writer_written(sink) =~= sanitized_records(cur, delimiter));
                    assert(logs@ =~= run_log(recs.take(i), delimiter) + record_log(
                        recs[i],
                        delimiter,
                        i as usize,
                    ));
                    assert(logs@ == run_log(cur, delimiter));
                }
            },
        }
    }
    let out = writer_into_bytes(sink);
    Ok((out, logs))
}

} // verus!
