use noobest_rt::codec::{dec_string_of_u64, parse_u64_dec};

#[test]
fn encodes_small_numbers() {
    assert_eq!(dec_string_of_u64(0), "0");
    assert_eq!(dec_string_of_u64(7), "7");
    assert_eq!(dec_string_of_u64(10), "10");
    assert_eq!(dec_string_of_u64(90071), "90071");
}

#[test]
fn encodes_max_identifier() {
    assert_eq!(dec_string_of_u64(u64::MAX), "18446744073709551615");
}

#[test]
fn parses_what_it_encodes() {
    for n in [0u64, 1, 9, 10, 99, 100, 1122912368021737472, u64::MAX] {
        let s = dec_string_of_u64(n);
        assert_eq!(parse_u64_dec(&s), Some(n));
    }
}

#[test]
fn parse_accepts_leading_zeros() {
    assert_eq!(parse_u64_dec("007"), Some(7));
    assert_eq!(parse_u64_dec("0"), Some(0));
}

#[test]
fn parse_rejects_empty_string() {
    assert_eq!(parse_u64_dec(""), None);
}

#[test]
fn parse_rejects_non_digits() {
    assert_eq!(parse_u64_dec("12a"), None);
    assert_eq!(parse_u64_dec("-5"), None);
    assert_eq!(parse_u64_dec("12 3"), None);
    assert_eq!(parse_u64_dec("十二"), None);
}

#[test]
fn parse_rejects_values_over_range() {
    assert_eq!(parse_u64_dec("18446744073709551616"), None);
    assert_eq!(parse_u64_dec("99999999999999999999999"), None);
    assert_eq!(parse_u64_dec("18446744073709551615"), Some(u64::MAX));
}
