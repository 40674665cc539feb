use journal_fs::record::{make_link_record, make_write_record, read_record, ParsedRecord};
use journal_fs::text::{char_is_space, decimal_text, field_bounds, parse_decimal};

#[test]
fn decimal_rendering() {
    assert_eq!(decimal_text(0), "0");
    assert_eq!(decimal_text(7), "7");
    assert_eq!(decimal_text(1234567890), "1234567890");
    assert_eq!(decimal_text(u64::MAX), "18446744073709551615");
}

#[test]
fn decimal_parsing() {
    let s = "18446744073709551615";
    assert_eq!(parse_decimal(s, 0, s.len()), Some(u64::MAX));
    let s = "18446744073709551616";
    assert_eq!(parse_decimal(s, 0, s.len()), None);
    let s = "+042";
    assert_eq!(parse_decimal(s, 0, 4), Some(42));
    assert_eq!(parse_decimal(s, 0, 1), None);
    assert_eq!(parse_decimal(s, 0, 0), None);
    let s = "-1";
    assert_eq!(parse_decimal(s, 0, 2), None);
    let s = "1 2";
    assert_eq!(parse_decimal(s, 0, 3), None);
}

#[test]
fn fields_are_split_and_trimmed() {
    assert_eq!(field_bounds("abc"), None);
    assert_eq!(field_bounds("  ab :  cd  : ef"), Some(((2, 4), (8, 10))));
    assert_eq!(field_bounds("ab:"), Some(((0, 2), (3, 3))));
    assert_eq!(field_bounds(": \t"), Some(((0, 0), (3, 3))));
}

#[test]
fn whitespace_is_unicode_white_space() {
    for c in [' ', '\t', '\n', '\r', '\u{b}', '\u{c}', '\u{85}', '\u{a0}', '\u{2003}', '\u{3000}'] {
        assert!(char_is_space(c));
    }
    for c in ['a', ':', '\u{200b}', '0'] {
        assert!(!char_is_space(c));
    }
}

#[test]
fn records_read_back() {
    let w = make_write_record(31);
    assert_eq!(w, "WRITE TO FILE: 31");
    assert!(matches!(read_record(&w), ParsedRecord::WriteTo(Some(31))));
    let l = make_link_record(2, 10);
    assert_eq!(l, "ADD FILE: 2 TO DIRECTORY: 10");
    match read_record(&l) {
        ParsedRecord::Other(verb) => assert_eq!(verb, "ADD FILE"),
        other => panic!("unexpected record {:?}", other),
    }
    assert!(matches!(read_record("WRITE TO FILE"), ParsedRecord::Malformed));
    assert!(matches!(read_record("WRITE TO FILE:"), ParsedRecord::WriteTo(None)));
    match read_record("write to file: 3") {
        ParsedRecord::Other(verb) => assert_eq!(verb, "write to file"),
        other => panic!("unexpected record {:?}", other),
    }
}
