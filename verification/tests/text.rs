use wluma::text::{compare, equal, parse_decimal, parse_u64, parse_u8, Order};

#[test]
fn strings_are_ordered_by_their_bytes() {
    assert_eq!(Order::Equal, compare("", ""));
    assert_eq!(Order::Less, compare("", "a"));
    assert_eq!(Order::Greater, compare("a", ""));
    assert_eq!(Order::Less, compare("bright", "dark"));
    assert_eq!(Order::Less, compare("dark", "dim"));
    assert_eq!(Order::Greater, compare("dim", "dark"));
    assert_eq!(Order::Less, compare("dim", "dimmer"));
    assert_eq!(Order::Less, compare("Z", "a"));
    assert_eq!(Order::Less, compare("z", "é"));
    assert_eq!(Order::Equal, compare("día", "día"));

    for (first, second) in [("a", "b"), ("ab", "a"), ("", ""), ("é", "e"), ("10", "9")] {
        let expected = match first.cmp(second) {
            std::cmp::Ordering::Less => Order::Less,
            std::cmp::Ordering::Equal => Order::Equal,
            std::cmp::Ordering::Greater => Order::Greater,
        };
        assert_eq!(expected, compare(first, second));
    }
}

#[test]
fn strings_are_equal_when_they_are_the_same() {
    assert!(equal("", ""));
    assert!(equal("dim", "dim"));
    assert!(!equal("dim", "dim "));
    assert!(!equal("dim", "Dim"));
}

#[test]
fn decimal_numbers_are_read() {
    assert_eq!(Some(0), parse_u64("0"));
    assert_eq!(Some(10), parse_u64("10"));
    assert_eq!(Some(10), parse_u64("+10"));
    assert_eq!(Some(10), parse_u64("0010"));
    assert_eq!(Some(u64::MAX), parse_u64("18446744073709551615"));
    assert_eq!(None, parse_u64("18446744073709551616"));
    assert_eq!(None, parse_u64("99999999999999999999999999"));
    assert_eq!(None, parse_u64(""));
    assert_eq!(None, parse_u64("+"));
    assert_eq!(None, parse_u64("++1"));
    assert_eq!(None, parse_u64("1+"));
    assert_eq!(None, parse_u64("-1"));
    assert_eq!(None, parse_u64("1_000"));
    assert_eq!(None, parse_u64("0x10"));
    assert_eq!(None, parse_u64("１"));

    assert_eq!(Some(255), parse_u8("255"));
    assert_eq!(None, parse_u8("256"));
    assert_eq!(Some(0), parse_u8("000"));

    assert_eq!(Some(100), parse_decimal(b"100", 100));
    assert_eq!(None, parse_decimal(b"101", 100));
    assert_eq!(Some(0), parse_decimal(b"0", 0));
    assert_eq!(None, parse_decimal(b"1", 0));

    for text in ["0", "+5", "007", "", "+", "-3", "1 ", "18446744073709551615", "18446744073709551616"] {
        assert_eq!(text.parse::<u64>().ok(), parse_u64(text));
        assert_eq!(text.parse::<u8>().ok(), parse_u8(text));
    }
}
