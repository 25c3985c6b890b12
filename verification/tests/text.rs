use artnet_to_hass::text::{
    decimal_string, parse_unsigned_decimal, split_list, white_space, IntErrorKind,
};

#[test]
fn split_list_trims_and_drops_empty_entries() {
    assert_eq!(split_list(" a ,, b\t,\u{3000}c\u{a0}, "), vec!["a", "b", "c"]);
    assert_eq!(split_list(""), Vec::<String>::new());
    assert_eq!(split_list("light.x"), vec!["light.x"]);
    assert_eq!(split_list("é , ü"), vec!["é", "ü"]);
}

#[test]
fn white_space_matches_std() {
    for c in ['\t', '\n', '\u{b}', '\u{c}', '\r', ' ', '\u{85}', '\u{a0}', '\u{2000}', '\u{3000}', 'a', ',', '_', '\u{200b}'] {
        assert_eq!(white_space(c), c.is_whitespace(), "char {:?}", c);
    }
}

#[test]
fn parses_decimal_like_std() {
    assert_eq!(parse_unsigned_decimal("0", 65535), Ok(0));
    assert_eq!(parse_unsigned_decimal("+42", 65535), Ok(42));
    assert_eq!(parse_unsigned_decimal("65535", 65535), Ok(65535));
    assert_eq!(parse_unsigned_decimal("65536", 65535), Err(IntErrorKind::Overflow));
    assert_eq!(parse_unsigned_decimal("", 65535), Err(IntErrorKind::Empty));
    assert_eq!(parse_unsigned_decimal("+", 65535), Err(IntErrorKind::InvalidDigit));
    assert_eq!(parse_unsigned_decimal("-", 65535), Err(IntErrorKind::InvalidDigit));
    assert_eq!(parse_unsigned_decimal("-1", 65535), Err(IntErrorKind::InvalidDigit));
    assert_eq!(parse_unsigned_decimal("12a", 65535), Err(IntErrorKind::InvalidDigit));
    assert_eq!(parse_unsigned_decimal("99999x", 65535), Err(IntErrorKind::Overflow));
    assert_eq!(parse_unsigned_decimal(" 1", 65535), Err(IntErrorKind::InvalidDigit));
    assert_eq!(
        parse_unsigned_decimal("18446744073709551615", u64::MAX),
        Ok(u64::MAX)
    );
    assert_eq!(
        parse_unsigned_decimal("18446744073709551616", u64::MAX),
        Err(IntErrorKind::Overflow)
    );
}

#[test]
fn decimal_errors_agree_with_std() {
    for s in ["", "+", "-", "-1", "12a", "99999x", "65536", "65535", "+7", "00012", " 1", "1 "] {
        let ours = parse_unsigned_decimal(s, 65535);
        let std = s.parse::<u16>();
        match (ours, std) {
            (Ok(a), Ok(b)) => assert_eq!(a, b as u64, "{:?}", s),
            (Err(IntErrorKind::Empty), Err(e)) => assert_eq!(*e.kind(), std::num::IntErrorKind::Empty, "{:?}", s),
            (Err(IntErrorKind::InvalidDigit), Err(e)) => assert_eq!(*e.kind(), std::num::IntErrorKind::InvalidDigit, "{:?}", s),
            (Err(IntErrorKind::Overflow), Err(e)) => assert_eq!(*e.kind(), std::num::IntErrorKind::PosOverflow, "{:?}", s),
            (a, b) => panic!("{:?}: {:?} vs {:?}", s, a, b),
        }
    }
}

#[test]
fn decimal_strings() {
    for n in [0u64, 7, 10, 99, 510, 65535, u64::MAX] {
        assert_eq!(decimal_string(n), n.to_string());
    }
}

#[test]
fn int_error_messages_match_std() {
    assert_eq!(IntErrorKind::Empty.message(), "".parse::<u16>().unwrap_err().to_string());
    assert_eq!(IntErrorKind::InvalidDigit.message(), "x".parse::<u16>().unwrap_err().to_string());
    assert_eq!(IntErrorKind::Overflow.message(), "70000".parse::<u16>().unwrap_err().to_string());
}
