use deet::parse::parse_address;

#[test]
fn accepts_all_three_forms_identically() {
    assert_eq!(parse_address("*0x400080"), Some(0x400080));
    assert_eq!(parse_address("0x400080"), Some(0x400080));
    assert_eq!(parse_address("400080"), Some(0x400080));
}

#[test]
fn rejects_non_hex() {
    assert_eq!(parse_address("zz"), None);
}

#[test]
fn accepts_uppercase_prefix_and_digits() {
    assert_eq!(parse_address("0X400080"), Some(0x400080));
    assert_eq!(parse_address("*0XAbCdEf"), Some(0xabcdef));
}

#[test]
fn accepts_sigil_without_prefix() {
    assert_eq!(parse_address("*401136"), Some(0x401136));
}

#[test]
fn rejects_empty_digit_strings() {
    assert_eq!(parse_address(""), None);
    assert_eq!(parse_address("*"), None);
    assert_eq!(parse_address("0x"), None);
    assert_eq!(parse_address("*0x"), None);
}

#[test]
fn rejects_sign_and_whitespace() {
    assert_eq!(parse_address("+10"), None);
    assert_eq!(parse_address(" 10"), None);
    assert_eq!(parse_address("10 "), None);
}

#[test]
fn rejects_double_prefix() {
    assert_eq!(parse_address("0x0x10"), None);
}

#[test]
fn parses_extreme_values() {
    assert_eq!(parse_address("0"), Some(0));
    assert_eq!(parse_address("ffffffffffffffff"), Some(usize::MAX));
    assert_eq!(parse_address("10000000000000000"), None);
    assert_eq!(parse_address("ffffffffffffffffff"), None);
}
