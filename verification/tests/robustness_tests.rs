use office2pdf::error::{is_ole2, parse_err, ConvertError};

#[test]
fn test_is_ole2_with_magic_bytes() {
    let ole2_magic: [u8; 8] = [0xD0, 0xCF, 0x11, 0xE0, 0xA1, 0xB1, 0x1A, 0xE1];
    let mut data = ole2_magic.to_vec();
    data.extend_from_slice(&[0x00; 100]);
    assert!(is_ole2(&data));
}

#[test]
fn test_is_ole2_with_zip_bytes() {
    let zip_data = [0x50, 0x4B, 0x03, 0x04, 0x00, 0x00, 0x00, 0x00];
    assert!(!is_ole2(&zip_data));
}

#[test]
fn test_is_ole2_with_short_data() {
    let short = [0xD0, 0xCF, 0x11];
    assert!(!is_ole2(&short));
}

#[test]
fn test_is_ole2_with_empty_data() {
    assert!(!is_ole2(&[]));
}

#[test]
fn is_ole2_needs_every_magic_byte() {
    let mut data: Vec<u8> = vec![0xD0, 0xCF, 0x11, 0xE0, 0xA1, 0xB1, 0x1A, 0xE0];
    assert!(!is_ole2(&data));
    data[7] = 0xE1;
    assert!(is_ole2(&data));
}

#[test]
fn parse_err_creates_parse_variant_with_string_message() {
    let err = parse_err("something went wrong");
    match err {
        ConvertError::Parse(msg) => assert_eq!(msg, "something went wrong"),
        other => panic!("Expected Parse variant, got: {other:?}"),
    }
}

#[test]
fn parse_err_works_with_format_display_types() {
    let io_error = std::io::Error::new(std::io::ErrorKind::NotFound, "file missing");
    let err = parse_err(format!("I/O failure: {io_error}"));
    match err {
        ConvertError::Parse(msg) => assert!(
            msg.contains("I/O failure") && msg.contains("file missing"),
            "Unexpected message: {msg}"
        ),
        other => panic!("Expected Parse variant, got: {other:?}"),
    }
}

#[test]
fn parse_err_accepts_display_impl_directly() {
    let number: i32 = 42;
    let err = parse_err(number);
    match err {
        ConvertError::Parse(msg) => assert_eq!(msg, "42"),
        other => panic!("Expected Parse variant, got: {other:?}"),
    }
}
