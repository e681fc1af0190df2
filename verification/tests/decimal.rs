use fi::ascii::decimal::{push_decimal, read_number, read_numeral};

#[test]
fn numerals_are_written_without_leading_zero() {
    let cases: [(u32, &[u8]); 8] = [
        (0, b"0"),
        (7, b"7"),
        (10, b"10"),
        (99, b"99"),
        (100, b"100"),
        (1049, b"1049"),
        (1000000, b"1000000"),
        (4294967295, b"4294967295"),
    ];
    for (n, text) in cases {
        let mut buf = b"x".to_vec();
        push_decimal(&mut buf, n);
        assert_eq!(&buf[..1], b"x");
        assert_eq!(&buf[1..], text, "{}", n);
    }
}

#[test]
fn numbers_are_read_with_leading_zeros() {
    assert_eq!(read_number(b"0", 0, 1, u32::MAX), Some(0));
    assert_eq!(read_number(b"000", 0, 3, u32::MAX), Some(0));
    assert_eq!(read_number(b"0042", 0, 4, u32::MAX), Some(42));
    assert_eq!(read_number(b"ab123cd", 2, 5, u32::MAX), Some(123));
    assert_eq!(read_number(b"4294967295", 0, 10, u32::MAX), Some(4294967295));
    assert_eq!(read_number(b"255", 0, 3, 255), Some(255));
    assert_eq!(read_number(b"00000000000000255", 0, 17, 255), Some(255));
}

#[test]
fn what_is_no_number_reads_as_nothing() {
    assert_eq!(read_number(b"", 0, 0, u32::MAX), None);
    assert_eq!(read_number(b"123", 1, 1, u32::MAX), None);
    assert_eq!(read_number(b"12a", 0, 3, u32::MAX), None);
    assert_eq!(read_number(b"1;2", 0, 3, u32::MAX), None);
    assert_eq!(read_number(b"+1", 0, 2, u32::MAX), None);
    assert_eq!(read_number(b"-1", 0, 2, u32::MAX), None);
    assert_eq!(read_number(b"4294967296", 0, 10, u32::MAX), None);
    assert_eq!(read_number(b"99999999999999999999", 0, 20, u32::MAX), None);
    assert_eq!(read_number(b"256", 0, 3, 255), None);
    assert_eq!(read_number(b"1000", 0, 4, 255), None);
    assert_eq!(read_number(b"7", 0, 1, 5), None);
}

#[test]
fn numerals_are_read_only_in_their_shortest_form() {
    assert_eq!(read_numeral(b"0", 0, 1), Some(0));
    assert_eq!(read_numeral(b"1049", 0, 4), Some(1049));
    assert_eq!(read_numeral(b"x38;", 1, 3), Some(38));
    assert_eq!(read_numeral(b"4294967295", 0, 10), Some(4294967295));
    assert_eq!(read_numeral(b"4294967296", 0, 10), None);
    assert_eq!(read_numeral(b"01", 0, 2), None);
    assert_eq!(read_numeral(b"00", 0, 2), None);
    assert_eq!(read_numeral(b"", 0, 0), None);
    assert_eq!(read_numeral(b"1a", 0, 2), None);
}

#[test]
fn written_numerals_read_back() {
    for n in [0u32, 1, 9, 10, 11, 99, 100, 255, 256, 65535, 65536, 4294967294, 4294967295] {
        let mut buf = Vec::new();
        push_decimal(&mut buf, n);
        assert_eq!(read_numeral(&buf, 0, buf.len()), Some(n));
        assert_eq!(read_number(&buf, 0, buf.len(), u32::MAX), Some(n));
    }
}
