use sc2dsu::text::{append_decimal, append_hex, decimal, parse_u16};

#[test]
fn hexadecimal_is_padded_and_upper_case() {
    let mut out = String::from("0x");
    append_hex(&mut out, 0x1AB, 4);
    assert_eq!(out, "0x01AB");
    let mut cut = String::new();
    append_hex(&mut cut, 0x12345, 2);
    assert_eq!(cut, "45");
    let mut id = String::new();
    append_hex(&mut id, 0xDEAD_BEEF, 8);
    assert_eq!(id, format!("{:08X}", 0xDEAD_BEEFu32));
}

#[test]
fn decimals_have_no_leading_zeros() {
    for value in [0u64, 7, 10, 99, 100, 65535, u64::MAX] {
        assert_eq!(decimal(value), value.to_string());
    }
    let mut out = String::from("n=");
    append_decimal(&mut out, 26760);
    assert_eq!(out, "n=26760");
}

#[test]
fn numbers_are_read_as_the_standard_library_reads_them() {
    for text in [
        "", "+", "-", "0", "+0", "-0", "00026760", "65535", "65536", "+65535", "99999999999999999999",
        "99999999999999999999x", "12a", "a12", " 1", "1 ", "++1", "1_0", "\u{0663}", "26760",
    ] {
        assert_eq!(parse_u16(text), text.parse::<u16>().ok());
    }
}

#[test]
fn numbers_read_back() {
    for value in [0u16, 1, 9, 10, 255, 26760, 65535] {
        assert_eq!(parse_u16(&decimal(u64::from(value))), Some(value));
    }
}
