use aegis_core::text::{parse_hex, parse_u16, parse_u64, parse_u8, to_hex};

#[test]
fn numbers_are_decimal_or_hexadecimal() {
    assert_eq!(parse_u64("42"), Ok(42));
    assert_eq!(parse_u64("0x2a"), Ok(42));
    assert_eq!(parse_u64("0X2A"), Ok(42));
    assert_eq!(parse_u64("+7"), Ok(7));
    assert_eq!(parse_u64("0x+f"), Ok(15));
    assert_eq!(parse_u64("18446744073709551615"), Ok(u64::MAX));
    assert_eq!(parse_u64("0xffffffffffffffff"), Ok(u64::MAX));
}

#[test]
fn white_space_around_a_number_is_dropped() {
    assert_eq!(parse_u64("  12\t\n"), Ok(12));
    assert_eq!(parse_u64("\u{a0}0x10\u{3000}"), Ok(16));
    assert_eq!(
        parse_u64("1 2"),
        Err(String::from("invalid number: 1 2"))
    );
}

#[test]
fn bad_numbers_are_named() {
    for text in ["", " ", "+", "-1", "0x", "12a", "0xg", "18446744073709551616", "0x10000000000000000"] {
        assert_eq!(parse_u64(text), Err(format!("invalid number: {text}")));
    }
}

#[test]
fn narrow_numbers_are_checked_for_range() {
    assert_eq!(parse_u8("255"), Ok(255));
    assert_eq!(
        parse_u8("256"),
        Err(String::from("value out of range: 256"))
    );
    assert_eq!(parse_u16("0xFFFF"), Ok(0xFFFF));
    assert_eq!(
        parse_u16("65536"),
        Err(String::from("value out of range: 65536"))
    );
    assert_eq!(parse_u8("x"), Err(String::from("invalid number: x")));
}

#[test]
fn hex_payloads_may_be_grouped() {
    assert_eq!(parse_hex(""), Ok(vec![]));
    assert_eq!(parse_hex("0x"), Ok(vec![]));
    assert_eq!(parse_hex("a1 b2:C3_d4"), Ok(vec![0xa1, 0xb2, 0xc3, 0xd4]));
    assert_eq!(parse_hex("0 x a1"), Ok(vec![0xa1]));
    assert_eq!(parse_hex("+f"), Ok(vec![0x0f]));
}

#[test]
fn bad_hex_payloads_are_refused() {
    assert_eq!(
        parse_hex("abc"),
        Err(String::from("hex payload must have an even number of digits"))
    );
    assert_eq!(
        parse_hex("zz"),
        Err(String::from("invalid hex payload: zz"))
    );
    assert_eq!(
        parse_hex("f+"),
        Err(String::from("invalid hex payload: f+"))
    );
    assert_eq!(
        parse_hex("\u{e9}"),
        Err(String::from("invalid hex payload: \u{e9}"))
    );
    assert_eq!(
        parse_hex("\u{20ac}"),
        Err(String::from("hex payload must have an even number of digits"))
    );
}

#[test]
fn hex_text_is_parsed_back() {
    let bytes: Vec<u8> = (0..=255u8).collect();
    let text = to_hex(&bytes);
    assert_eq!(&text[..8], "00010203");
    assert_eq!(&text[504..], "fcfdfeff");
    assert_eq!(parse_hex(&text), Ok(bytes));
    assert_eq!(to_hex(&[]), "");
}
