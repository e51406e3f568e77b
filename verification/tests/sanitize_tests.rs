use cleanse::sanitize::{sanitize, Changes};

fn no_changes() -> Changes {
    Changes {
        delimiter_replacement: false,
        terminator_replacement: false,
        encoding_repair: false,
    }
}

#[test]
fn clean_field_is_identity() {
    let (out, changes) = sanitize(&b"hello world".to_vec(), b',');
    assert_eq!(out, b"hello world".to_vec());
    assert_eq!(changes, no_changes());
    assert!(!changes.any());
}

#[test]
fn empty_field_is_identity() {
    let (out, changes) = sanitize(&Vec::new(), b'\t');
    assert_eq!(out, Vec::<u8>::new());
    assert_eq!(changes, no_changes());
}

#[test]
fn delimiter_becomes_space() {
    let (out, changes) = sanitize(&b"b,c".to_vec(), b',');
    assert_eq!(out, b"b c".to_vec());
    assert!(changes.delimiter_replacement);
    assert!(!changes.terminator_replacement);
    assert!(!changes.encoding_repair);
}

#[test]
fn terminator_becomes_space() {
    let (out, changes) = sanitize(&b"a\nb".to_vec(), b',');
    assert_eq!(out, b"a b".to_vec());
    assert!(!changes.delimiter_replacement);
    assert!(changes.terminator_replacement);
    assert!(!changes.encoding_repair);
}

#[test]
fn invalid_byte_is_repaired() {
    let (out, changes) = sanitize(&b"li\xFFe".to_vec(), b',');
    assert_eq!(out, "li\u{FFFD}e".as_bytes().to_vec());
    assert!(!changes.delimiter_replacement);
    assert!(!changes.terminator_replacement);
    assert!(changes.encoding_repair);
}

#[test]
fn field_of_only_delimiters_and_terminators() {
    let (out, changes) = sanitize(&b",,\n".to_vec(), b',');
    assert_eq!(out, b"   ".to_vec());
    assert!(changes.delimiter_replacement);
    assert!(changes.terminator_replacement);
    assert!(!changes.encoding_repair);
    assert!(changes.any());
}

#[test]
fn output_never_holds_delimiter_or_terminator() {
    let samples: Vec<Vec<u8>> = vec![
        b"a,b\nc".to_vec(),
        b",\n,\n".to_vec(),
        b"\xFF,\xFE\n".to_vec(),
        b"plain".to_vec(),
        Vec::new(),
    ];
    for s in samples {
        let (out, _) = sanitize(&s, b',');
        assert!(!out.contains(&b','));
        assert!(!out.contains(&b'\n'));
    }
}

#[test]
fn sanitizing_twice_changes_nothing_more() {
    let samples: Vec<Vec<u8>> = vec![
        b"a,b\nc".to_vec(),
        b"li\xFFe".to_vec(),
        b",,\n".to_vec(),
        b"clean".to_vec(),
    ];
    for s in samples {
        let (once, _) = sanitize(&s, b'\t');
        let (twice, changes) = sanitize(&once, b'\t');
        assert_eq!(once, twice);
        assert_eq!(changes, no_changes());
    }
}

#[test]
fn delimiter_and_terminator_in_one_field() {
    let (out, changes) = sanitize(&b"x;y\nz".to_vec(), b';');
    assert_eq!(out, b"x y z".to_vec());
    assert!(changes.delimiter_replacement);
    assert!(changes.terminator_replacement);
    assert!(!changes.encoding_repair);
}

#[test]
fn repair_keeps_valid_multibyte_text() {
    let (out, changes) = sanitize(&"na\u{EF}ve caf\u{E9}".as_bytes().to_vec(), b',');
    assert_eq!(out, "na\u{EF}ve caf\u{E9}".as_bytes().to_vec());
    assert_eq!(changes, no_changes());
}
