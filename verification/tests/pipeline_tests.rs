use cleanse::pipeline::{
    after_write, parse_delimiter, run, LogEntry, Outcome, Pipeline, PipelineError, WriteStatus,
};
use cleanse::sanitize::Changes;

fn entry(record_number: usize, field_number: usize, d: bool, t: bool, e: bool) -> LogEntry {
    LogEntry {
        record_number,
        field_number,
        changes: Changes {
            delimiter_replacement: d,
            terminator_replacement: t,
            encoding_repair: e,
        },
    }
}

#[test]
fn test_simple() {
    let input = b"\
        a,b,c,d\n\
        1,\"2,3\",4,5\n\
        this,is,\"a\n\
        very gross\",li\xffe\n"
        .to_vec();

    let expected = String::from(
        "\
        a,b,c,d\n\
        1,2 3,4,5\n\
        this,is,a very gross,li\u{FFFD}e\n",
    );

    let (out, _) = run(input, b',').unwrap();
    assert_eq!(expected, String::from_utf8(out).unwrap());
}

#[test]
fn quoted_delimiter_is_escaped() {
    let (out, logs) = run(b"a,\"b,c\"\n".to_vec(), b',').unwrap();
    assert_eq!(out, b"a,b c\n".to_vec());
    assert_eq!(logs, vec![entry(0, 1, true, false, false)]);
}

#[test]
fn quoted_terminator_is_escaped() {
    let (out, logs) = run(b"\"a\nb\",x\n".to_vec(), b',').unwrap();
    assert_eq!(out, b"a b,x\n".to_vec());
    assert_eq!(logs, vec![entry(0, 0, false, true, false)]);
}

#[test]
fn invalid_encoding_is_repaired() {
    let (out, logs) = run(b"li\xFFe,x\n".to_vec(), b',').unwrap();
    assert_eq!(out, "li\u{FFFD}e,x\n".as_bytes().to_vec());
    assert_eq!(logs, vec![entry(0, 0, false, false, true)]);
}

#[test]
fn clean_records_round_trip_unchanged() {
    let input = b"a,b\nc,d\ne,f\n".to_vec();
    let (out, logs) = run(input.clone(), b',').unwrap();
    assert_eq!(out, input);
    assert_eq!(logs, Vec::new());
}

#[test]
fn empty_input_yields_empty_output() {
    let (out, logs) = run(Vec::new(), b',').unwrap();
    assert_eq!(out, Vec::<u8>::new());
    assert_eq!(logs, Vec::new());
}

#[test]
fn records_are_numbered_in_arrival_order() {
    let input = b"x,y\n\"a,a\",b\n\"c\nd\",e\n".to_vec();
    let (out, logs) = run(input, b',').unwrap();
    assert_eq!(out, b"x,y\na a,b\nc d,e\n".to_vec());
    assert_eq!(
        logs,
        vec![entry(1, 0, true, false, false), entry(2, 0, false, true, false)]
    );
}

#[test]
fn unequal_field_counts_are_a_parse_error() {
    let r = run(b"a,b\nc\n".to_vec(), b',');
    assert!(matches!(r, Err(PipelineError::Parse(_))));
}

#[test]
fn tab_delimited_input_works() {
    let (out, logs) = run(b"a\tb,c\nd\te\n".to_vec(), b'\t').unwrap();
    assert_eq!(out, b"a\tb,c\nd\te\n".to_vec());
    assert_eq!(logs, Vec::new());
}

#[test]
fn field_counts_are_preserved() {
    let (out, _) = run(b"a,\"b,b\",c\nd,e,\"f\nf\"\n".to_vec(), b',').unwrap();
    let text = String::from_utf8(out).unwrap();
    for line in text.lines() {
        assert_eq!(line.split(',').count(), 3);
    }
}

#[test]
fn on_record_sanitizes_and_counts() {
    let mut pipe = Pipeline::new(b',');
    let rec = csv::ByteRecord::from(vec!["a", "b,c"]);
    let (out, logs) = pipe.on_record(&rec);
    assert_eq!(out.len(), 2);
    assert_eq!(out.get(0), Some(&b"a"[..]));
    assert_eq!(out.get(1), Some(&b"b c"[..]));
    assert_eq!(logs, vec![entry(0, 1, true, false, false)]);
    assert_eq!(pipe.record_number, 1);

    let rec2 = csv::ByteRecord::from(vec!["x\ny"]);
    let (out2, logs2) = pipe.on_record(&rec2);
    assert_eq!(out2.get(0), Some(&b"x y"[..]));
    assert_eq!(logs2, vec![entry(1, 0, false, true, false)]);
    assert_eq!(pipe.record_number, 2);
}

#[test]
fn consumer_closed_terminates_with_success() {
    assert_eq!(after_write(WriteStatus::Accepted), None);
    assert_eq!(after_write(WriteStatus::ConsumerClosed), Some(Outcome::Success));
    assert_eq!(after_write(WriteStatus::Failed), Some(Outcome::Failure));
}

#[test]
fn delimiter_must_be_one_byte() {
    assert_eq!(parse_delimiter(&b"\t".to_vec()), Some(b'\t'));
    assert_eq!(parse_delimiter(&b",".to_vec()), Some(b','));
    assert_eq!(parse_delimiter(&Vec::new()), None);
    assert_eq!(parse_delimiter(&b"ab".to_vec()), None);
}
