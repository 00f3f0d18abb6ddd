use rocket_container::identifier::{identifier_to_string, parse_identifier, push_identifier};

#[test]
fn parses_decimal_digits() {
    assert_eq!(parse_identifier("0"), Some(0));
    assert_eq!(parse_identifier("5"), Some(5));
    assert_eq!(parse_identifier("1404"), Some(1404));
    assert_eq!(parse_identifier("4294967295"), Some(u32::MAX));
}

#[test]
fn parses_leading_zeros_and_plus_sign() {
    assert_eq!(parse_identifier("007"), Some(7));
    assert_eq!(parse_identifier("+12"), Some(12));
}

#[test]
fn rejects_text_that_is_no_number() {
    assert_eq!(parse_identifier(""), None);
    assert_eq!(parse_identifier("+"), None);
    assert_eq!(parse_identifier("-1"), None);
    assert_eq!(parse_identifier("12a"), None);
    assert_eq!(parse_identifier(" 12"), None);
    assert_eq!(parse_identifier("12 "), None);
    assert_eq!(parse_identifier("1+2"), None);
    assert_eq!(parse_identifier("١٢"), None);
    assert_eq!(parse_identifier("1é"), None);
}

#[test]
fn rejects_numbers_beyond_32_bits() {
    assert_eq!(parse_identifier("4294967296"), None);
    assert_eq!(parse_identifier("99999999999999999999999999"), None);
}

#[test]
fn parses_as_the_standard_library_does() {
    let texts = [
        "", "0", "00", "+0", "-0", "+", "42", "+42", "4294967295", "4294967296", "abc", "4 2",
        "0x10", "1_000", "٣",
    ];
    for text in texts {
        assert_eq!(parse_identifier(text), text.parse::<u32>().ok(), "text {:?}", text);
    }
}

#[test]
fn writes_decimal_text() {
    assert_eq!(identifier_to_string(0), "0");
    assert_eq!(identifier_to_string(9), "9");
    assert_eq!(identifier_to_string(10), "10");
    assert_eq!(identifier_to_string(1404), "1404");
    assert_eq!(identifier_to_string(u32::MAX), "4294967295");
}

#[test]
fn pushes_decimal_text_at_the_end() {
    let mut text = String::from("container-");
    push_identifier(&mut text, 305);
    assert_eq!(text, "container-305");
}

#[test]
fn reading_what_was_written_gives_the_identifier_back() {
    for identifier in [0u32, 1, 9, 10, 99, 100, 12345, 4294967294, u32::MAX] {
        assert_eq!(parse_identifier(&identifier_to_string(identifier)), Some(identifier));
    }
}
