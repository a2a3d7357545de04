use lib::parse::FromToken;

#[test]
fn parse_signed_integers() {
    assert_eq!(<i64 as FromToken>::from_token("0"), Some(0));
    assert_eq!(<i64 as FromToken>::from_token("-12"), Some(-12));
    assert_eq!(<i64 as FromToken>::from_token("+34"), Some(34));
    assert_eq!(<i64 as FromToken>::from_token("-0"), Some(0));
    assert_eq!(<i64 as FromToken>::from_token("007"), Some(7));
    assert_eq!(<i32 as FromToken>::from_token("2147483647"), Some(i32::MAX));
    assert_eq!(<i32 as FromToken>::from_token("-2147483648"), Some(i32::MIN));
    assert_eq!(<i32 as FromToken>::from_token("2147483648"), None);
    assert_eq!(<i32 as FromToken>::from_token("-2147483649"), None);
}

#[test]
fn parse_integer_bounds_of_every_width() {
    assert_eq!(<i8 as FromToken>::from_token("-128"), Some(i8::MIN));
    assert_eq!(<i8 as FromToken>::from_token("128"), None);
    assert_eq!(<i16 as FromToken>::from_token("32767"), Some(i16::MAX));
    assert_eq!(<i16 as FromToken>::from_token("-32769"), None);
    assert_eq!(<i64 as FromToken>::from_token("-9223372036854775808"), Some(i64::MIN));
    assert_eq!(<i64 as FromToken>::from_token("9223372036854775808"), None);
    assert_eq!(
        <i128 as FromToken>::from_token("-170141183460469231731687303715884105728"),
        Some(i128::MIN)
    );
    assert_eq!(
        <i128 as FromToken>::from_token("170141183460469231731687303715884105727"),
        Some(i128::MAX)
    );
    assert_eq!(<i128 as FromToken>::from_token("170141183460469231731687303715884105728"), None);
    assert_eq!(<isize as FromToken>::from_token(&isize::MIN.to_string()), Some(isize::MIN));
    assert_eq!(<u8 as FromToken>::from_token("255"), Some(255));
    assert_eq!(<u8 as FromToken>::from_token("256"), None);
    assert_eq!(<u16 as FromToken>::from_token("65535"), Some(u16::MAX));
    assert_eq!(<u32 as FromToken>::from_token("4294967296"), None);
    assert_eq!(<u64 as FromToken>::from_token("18446744073709551615"), Some(u64::MAX));
    assert_eq!(
        <u128 as FromToken>::from_token("340282366920938463463374607431768211455"),
        Some(u128::MAX)
    );
    assert_eq!(<u128 as FromToken>::from_token("340282366920938463463374607431768211456"), None);
    assert_eq!(<u128 as FromToken>::from_token("99999999999999999999999999999999999999999999"), None);
    assert_eq!(<usize as FromToken>::from_token(&usize::MAX.to_string()), Some(usize::MAX));
}

#[test]
fn parse_rejects_malformed_integers() {
    for bad in ["", "+", "-", "--1", "+-1", "1a", "a1", "1.0", "1_000", "１", " 1"] {
        assert_eq!(<i64 as FromToken>::from_token(bad), None, "{:?}", bad);
        assert_eq!(bad.parse::<i64>().ok(), None, "{:?}", bad);
    }
}

#[test]
fn parse_unsigned_rejects_minus_sign() {
    assert_eq!(<u32 as FromToken>::from_token("-1"), None);
    assert_eq!(<u32 as FromToken>::from_token("-0"), None);
    assert_eq!(<u32 as FromToken>::from_token("+7"), Some(7));
    assert_eq!(<usize as FromToken>::from_token("-5"), None);
}

#[test]
fn parse_agrees_with_std_from_str() {
    let samples = [
        "0", "1", "-1", "+1", "127", "128", "-128", "-129", "255", "256", "65535", "65536",
        "-32768", "4294967295", "4294967296", "-2147483648", "18446744073709551615",
        "18446744073709551616", "-9223372036854775809", "000000000000000000000042", "+", "-",
        "x", "12x", "", "-0", "+0",
    ];
    for s in samples {
        assert_eq!(<i8 as FromToken>::from_token(s), s.parse::<i8>().ok(), "i8 {:?}", s);
        assert_eq!(<u8 as FromToken>::from_token(s), s.parse::<u8>().ok(), "u8 {:?}", s);
        assert_eq!(<i16 as FromToken>::from_token(s), s.parse::<i16>().ok(), "i16 {:?}", s);
        assert_eq!(<u16 as FromToken>::from_token(s), s.parse::<u16>().ok(), "u16 {:?}", s);
        assert_eq!(<i32 as FromToken>::from_token(s), s.parse::<i32>().ok(), "i32 {:?}", s);
        assert_eq!(<u32 as FromToken>::from_token(s), s.parse::<u32>().ok(), "u32 {:?}", s);
        assert_eq!(<i64 as FromToken>::from_token(s), s.parse::<i64>().ok(), "i64 {:?}", s);
        assert_eq!(<u64 as FromToken>::from_token(s), s.parse::<u64>().ok(), "u64 {:?}", s);
        assert_eq!(<i128 as FromToken>::from_token(s), s.parse::<i128>().ok(), "i128 {:?}", s);
        assert_eq!(<u128 as FromToken>::from_token(s), s.parse::<u128>().ok(), "u128 {:?}", s);
        assert_eq!(<isize as FromToken>::from_token(s), s.parse::<isize>().ok(), "isize {:?}", s);
        assert_eq!(<usize as FromToken>::from_token(s), s.parse::<usize>().ok(), "usize {:?}", s);
    }
}

#[test]
fn parse_booleans() {
    assert_eq!(<bool as FromToken>::from_token("true"), Some(true));
    assert_eq!(<bool as FromToken>::from_token("false"), Some(false));
    for bad in ["True", "FALSE", "1", "0", "tru", "falsey", ""] {
        assert_eq!(<bool as FromToken>::from_token(bad), None);
        assert_eq!(bad.parse::<bool>().ok(), None);
    }
}

#[test]
fn parse_characters() {
    assert_eq!(<char as FromToken>::from_token("a"), Some('a'));
    assert_eq!(<char as FromToken>::from_token("é"), Some('é'));
    assert_eq!(<char as FromToken>::from_token("黑"), Some('黑'));
    assert_eq!(<char as FromToken>::from_token("ab"), None);
    assert_eq!(<char as FromToken>::from_token(""), None);
}

#[test]
fn parse_strings() {
    assert_eq!(<String as FromToken>::from_token("abc"), Some("abc".to_string()));
    assert_eq!(<String as FromToken>::from_token(""), Some(String::new()));
}

#[test]
fn parse_reads_back_written_integers() {
    for v in [0i64, 1, -1, 42, -42, i64::MAX, i64::MIN, 1_000_000_007] {
        assert_eq!(<i64 as FromToken>::from_token(&v.to_string()), Some(v));
    }
    for v in [0u64, 9, 10, u64::MAX] {
        assert_eq!(<u64 as FromToken>::from_token(&v.to_string()), Some(v));
    }
    for v in [0usize, 123456, usize::MAX] {
        assert_eq!(<usize as FromToken>::from_token(&v.to_string()), Some(v));
    }
    for v in [i32::MIN, -7, 0, i32::MAX] {
        assert_eq!(<i32 as FromToken>::from_token(&v.to_string()), Some(v));
    }
}
