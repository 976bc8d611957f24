use rust_learning::variables::{char_is_whitespace, parse_number, shadow_scopes, successor};

#[test]
fn parse_plain_number() {
    assert_eq!(parse_number("42"), Some(42));
}

#[test]
fn parse_trims_whitespace() {
    assert_eq!(parse_number("  42\n"), Some(42));
    assert_eq!(parse_number("\t-17 "), Some(-17));
    assert_eq!(parse_number("\u{3000}12\u{2003}"), Some(12));
}

#[test]
fn parse_signs() {
    assert_eq!(parse_number("-7"), Some(-7));
    assert_eq!(parse_number("+3"), Some(3));
    assert_eq!(parse_number("-0"), Some(0));
}

#[test]
fn parse_rejects_non_numbers() {
    assert_eq!(parse_number(""), None);
    assert_eq!(parse_number("   "), None);
    assert_eq!(parse_number("-"), None);
    assert_eq!(parse_number("+"), None);
    assert_eq!(parse_number("4 2"), None);
    assert_eq!(parse_number("abc"), None);
    assert_eq!(parse_number("1_000"), None);
    assert_eq!(parse_number("--1"), None);
    assert_eq!(parse_number("12a"), None);
}

#[test]
fn parse_range_limits() {
    assert_eq!(parse_number("2147483647"), Some(i32::MAX));
    assert_eq!(parse_number("-2147483648"), Some(i32::MIN));
    assert_eq!(parse_number("2147483648"), None);
    assert_eq!(parse_number("-2147483649"), None);
    assert_eq!(parse_number("99999999999999999999"), None);
    assert_eq!(parse_number("0002147483647"), Some(i32::MAX));
}

#[test]
fn parse_agrees_with_std() {
    for text in ["42", " 7 ", "-12", "+5", "x", "", "2147483648", "\n\t 9 \r"] {
        assert_eq!(parse_number(text), text.trim().parse::<i32>().ok());
    }
}

#[test]
fn successor_adds_one() {
    assert_eq!(successor(42), 43);
    assert_eq!(successor(-1), 0);
}

#[test]
fn shadowing_keeps_outer_value() {
    let v = shadow_scopes(5);
    assert_eq!(v.first, 5);
    assert_eq!(v.shadowed, 6);
    assert_eq!(v.inner, 12);
    assert_eq!(v.outer_after, 6);
}

#[test]
fn whitespace_is_the_unicode_property() {
    let mut code: u32 = 0;
    while code <= 0x3100 {
        if let Some(c) = char::from_u32(code) {
            if !c.is_ascii_digit() && c != '-' && c != '+' {
                let text = format!("{c}1{c}");
                let expected = if c.is_whitespace() { Some(1) } else { None };
                assert_eq!(parse_number(&text), expected, "code point {code:#x}");
            }
        }
        code += 1;
    }
    assert_eq!(parse_number("\u{feff}1"), None);
}

#[test]
fn surrounding_whitespace_does_not_change_number() {
    assert_eq!(parse_number(" \t-35\u{a0}\n"), parse_number("-35"));
    assert_eq!(parse_number("\u{2028}x "), parse_number("x"));
}

#[test]
fn whitespace_agrees_with_std_on_every_char() {
    let mut code: u32 = 0;
    while code <= 0x10FFFF {
        if let Some(c) = char::from_u32(code) {
            assert_eq!(char_is_whitespace(c), c.is_whitespace(), "code point {code:#x}");
        }
        code += 1;
    }
}
