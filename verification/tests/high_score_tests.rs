use flappy_rust::high_score::{format_high_score, parse_high_score};

#[test]
fn parses_plain_digits() {
    assert_eq!(parse_high_score(b"42"), 42);
    assert_eq!(parse_high_score(b"0"), 0);
    assert_eq!(parse_high_score(b"007"), 7);
}

#[test]
fn parses_with_surrounding_whitespace() {
    assert_eq!(parse_high_score(b"  42\n"), 42);
    assert_eq!(parse_high_score(b"\t\r\n13 \x0b\x0c"), 13);
    assert_eq!(parse_high_score("\u{3000}12\u{85}".as_bytes()), 12);
    assert_eq!(parse_high_score("\u{a0}\u{2003}9\u{2029}\u{205f}\u{1680}".as_bytes()), 9);
}

#[test]
fn parses_a_leading_plus() {
    assert_eq!(parse_high_score(b"+7"), 7);
    assert_eq!(parse_high_score(b" +15 "), 15);
}

#[test]
fn rejects_what_is_not_a_number() {
    assert_eq!(parse_high_score(b""), 0);
    assert_eq!(parse_high_score(b"   "), 0);
    assert_eq!(parse_high_score(b"+"), 0);
    assert_eq!(parse_high_score(b"-1"), 0);
    assert_eq!(parse_high_score(b"-0"), 0);
    assert_eq!(parse_high_score(b"1 2"), 0);
    assert_eq!(parse_high_score(b"12a"), 0);
    assert_eq!(parse_high_score(b"++3"), 0);
    assert_eq!(parse_high_score(&[0xFF, b'3']), 0);
    assert_eq!(parse_high_score("\u{200b}5".as_bytes()), 0);
}

#[test]
fn rejects_values_beyond_u32() {
    assert_eq!(parse_high_score(b"4294967295"), u32::MAX);
    assert_eq!(parse_high_score(b"4294967296"), 0);
    assert_eq!(parse_high_score(b"99999999999999999999"), 0);
}

#[test]
fn agrees_with_std_parse() {
    let cases = [
        "1", " 1 ", "+0", "-", "", "\n\n77\n", "12 ", "x", "4294967295", "4294967296",
        "\u{2000}8\u{200a}", "\u{2028}3", "\u{202f}4", "00000000000000000001", "1+",
    ];
    for case in cases {
        let expected = case.trim().parse::<u32>().ok().unwrap_or(0);
        assert_eq!(parse_high_score(case.as_bytes()), expected, "case {:?}", case);
    }
}

#[test]
fn formats_decimal_digits() {
    assert_eq!(format_high_score(0), b"0".to_vec());
    assert_eq!(format_high_score(7), b"7".to_vec());
    assert_eq!(format_high_score(10), b"10".to_vec());
    assert_eq!(format_high_score(1234), b"1234".to_vec());
    assert_eq!(format_high_score(u32::MAX), b"4294967295".to_vec());
}

#[test]
fn saved_score_reads_back() {
    for score in [0u32, 1, 9, 10, 99, 100, 65535, 1_000_000, u32::MAX - 1, u32::MAX] {
        assert_eq!(parse_high_score(&format_high_score(score)), score);
        assert_eq!(format_high_score(score), score.to_string().into_bytes());
    }
}
