use tank_battle::text::{digit_of, parse_i32};

#[test]
fn digits_have_their_characters() {
    let all: String = (0..10).map(digit_of).collect();
    assert_eq!(all, "0123456789");
}

#[test]
fn numbers_are_read_like_the_standard_library_reads_them() {
    for text in [
        "0", "7", "42", "007", "+5", "-5", "-0", "+0", "2147483647", "2147483648", "-2147483648",
        "-2147483649", "99999999999999999999999", "-99999999999999999999999", "", "+", "-",
        "++1", "+-1", "1+", "1-1", " 1", "1 ", "1.0", "1e3", "0x10", "abc", "12a", "a12",
        "\u{661}\u{662}", "1\u{a0}", "١", "0000000000000000000000000000000000001",
        "-0000000000000000000000000000000002147483648",
    ] {
        assert_eq!(parse_i32(text), text.parse::<i32>().ok(), "{:?}", text);
    }
}

#[test]
fn the_ends_of_the_range_are_read() {
    assert_eq!(parse_i32("2147483647"), Some(i32::MAX));
    assert_eq!(parse_i32("-2147483648"), Some(i32::MIN));
    assert_eq!(parse_i32("2147483648"), None);
    assert_eq!(parse_i32("-2147483649"), None);
}

#[test]
fn every_small_number_is_read_back() {
    for n in -1200..1200 {
        assert_eq!(parse_i32(&n.to_string()), Some(n));
    }
}
