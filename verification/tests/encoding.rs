use passwg::encode::append_decimal;
use passwg::writer::{append_footer, append_header, OutputFormat};

#[test]
fn decimal_encoding_exact_values() {
    let cases: &[(u64, &str)] = &[
        (0, "0"),
        (1, "1"),
        (9, "9"),
        (10, "10"),
        (105, "105"),
        (99999, "99999"),
        (1_000_000, "1000000"),
        (u64::MAX, "18446744073709551615"),
    ];
    for &(n, expected) in cases {
        let mut buf: Vec<u8> = Vec::new();
        append_decimal(&mut buf, n);
        assert_eq!(buf.as_slice(), expected.as_bytes(), "for {}", n);
    }
}

#[test]
fn decimal_encoding_appends_after_existing_bytes() {
    let mut buf: Vec<u8> = b"id=".to_vec();
    append_decimal(&mut buf, 42);
    assert_eq!(buf.as_slice(), b"id=42");
}

#[test]
fn headers_and_footers_are_bit_exact() {
    let mut buf: Vec<u8> = Vec::new();
    append_header(&mut buf, OutputFormat::Csv);
    assert_eq!(buf.as_slice(), b"id,password\n");

    let mut buf: Vec<u8> = Vec::new();
    append_header(&mut buf, OutputFormat::Json);
    assert_eq!(buf.as_slice(), b"[\n");

    let mut buf: Vec<u8> = Vec::new();
    append_header(&mut buf, OutputFormat::Plain);
    assert_eq!(buf.as_slice(), b"");

    let mut buf: Vec<u8> = Vec::new();
    append_footer(&mut buf, OutputFormat::Json);
    assert_eq!(buf.as_slice(), b"\n]");

    let mut buf: Vec<u8> = Vec::new();
    append_footer(&mut buf, OutputFormat::Csv);
    append_footer(&mut buf, OutputFormat::Plain);
    assert_eq!(buf.as_slice(), b"");
}
