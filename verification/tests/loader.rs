use test_asset_loader::events::{should_log, AssetEvent};
use test_asset_loader::loader::{extensions, load, load_read_outcome};
use test_asset_loader::record::LoadError;

#[test]
fn plain_document_loads() {
    let rec = load(b"test_field: \"Test string!\"").unwrap();
    assert_eq!(rec.test_field, "Test string!");
}

#[test]
fn braced_document_loads() {
    let rec = load(b"{ test_field: \"value\" }").unwrap();
    assert_eq!(rec.test_field, "value");
}

#[test]
fn parenthesized_document_loads() {
    let rec = load(b"(test_field: \"value\")").unwrap();
    assert_eq!(rec.test_field, "value");
}

#[test]
fn trailing_comma_accepted() {
    let rec = load(b"( test_field: \"v\", )").unwrap();
    assert_eq!(rec.test_field, "v");
}

#[test]
fn whitespace_tolerated() {
    let rec = load(b"\n\t test_field \t:\r\n \"x\" \n").unwrap();
    assert_eq!(rec.test_field, "x");
}

#[test]
fn empty_string_value_loads() {
    let rec = load(b"test_field: \"\"").unwrap();
    assert_eq!(rec.test_field, "");
}

#[test]
fn escapes_decoded() {
    let rec = load(b"test_field: \"a\\nb\\tc\\rd\\0e\\\"f\\\\g\"").unwrap();
    assert_eq!(rec.test_field, "a\nb\tc\rd\0e\"f\\g");
}

#[test]
fn unicode_text_loads() {
    let rec = load("test_field: \"h\u{e9}llo \u{2713}\"".as_bytes()).unwrap();
    assert_eq!(rec.test_field, "h\u{e9}llo \u{2713}");
}

#[test]
fn empty_input_rejected() {
    let err = load(b"").unwrap_err();
    assert!(matches!(err, LoadError::FormatError { .. }));
}

#[test]
fn empty_object_rejected() {
    let err = load(b"{}").unwrap_err();
    assert!(matches!(err, LoadError::FormatError { .. }));
}

#[test]
fn missing_key_rejected() {
    let err = load(b"{ other: \"x\" }").unwrap_err();
    assert!(matches!(err, LoadError::FormatError { .. }));
    let err = load(b"other: \"x\"").unwrap_err();
    assert!(matches!(err, LoadError::FormatError { .. }));
}

#[test]
fn number_value_rejected() {
    let err = load(b"test_field: 42").unwrap_err();
    assert!(matches!(err, LoadError::FormatError { .. }));
}

#[test]
fn nested_object_value_rejected() {
    let err = load(b"test_field: (a: 1)").unwrap_err();
    assert!(matches!(err, LoadError::FormatError { .. }));
    let err = load(b"{ test_field: { a: 1 } }").unwrap_err();
    assert!(matches!(err, LoadError::FormatError { .. }));
}

#[test]
fn unknown_escape_rejected() {
    let err = load(b"test_field: \"a\\qb\"").unwrap_err();
    assert!(matches!(err, LoadError::FormatError { .. }));
}

#[test]
fn unterminated_string_rejected() {
    let err = load(b"test_field: \"abc").unwrap_err();
    assert!(matches!(err, LoadError::FormatError { .. }));
}

#[test]
fn trailing_content_rejected() {
    let err = load(b"test_field: \"x\" y").unwrap_err();
    assert!(matches!(err, LoadError::FormatError { .. }));
    let err = load(b"test_field: \"a\", test_field: \"b\"").unwrap_err();
    assert!(matches!(err, LoadError::FormatError { .. }));
}

#[test]
fn mismatched_delimiter_rejected() {
    let err = load(b"( test_field: \"x\" }").unwrap_err();
    assert!(matches!(err, LoadError::FormatError { .. }));
}

#[test]
fn invalid_utf8_rejected() {
    let err = load(&[0xff, 0xfe, 0x00]).unwrap_err();
    assert!(matches!(err, LoadError::FormatError { .. }));
}

#[test]
fn failed_read_is_io_error() {
    let err = load_read_outcome(None).unwrap_err();
    assert!(matches!(err, LoadError::IoError));
    assert!(!matches!(err, LoadError::FormatError { .. }));
}

#[test]
fn completed_read_is_parsed() {
    let rec = load_read_outcome(Some(b"test_field: \"from a read\"".to_vec())).unwrap();
    assert_eq!(rec.test_field, "from a read");
}

#[test]
fn loading_twice_gives_equal_records() {
    let bytes: &[u8] = b"( test_field: \"same\" )";
    let first = load(bytes).unwrap();
    let second = load(bytes).unwrap();
    assert_eq!(first.test_field, second.test_field);
}

#[test]
fn extension_list_is_the_compound_suffix() {
    let exts = extensions();
    assert_eq!(exts.len(), 1);
    assert_eq!(exts[0], "test.ron");
}

#[test]
fn only_added_and_modified_are_logged() {
    assert!(should_log(&AssetEvent::Added));
    assert!(should_log(&AssetEvent::Modified));
    assert!(!should_log(&AssetEvent::Removed));
    assert!(!should_log(&AssetEvent::Unused));
    assert!(!should_log(&AssetEvent::LoadedWithDependencies));
}
