use sensor_sniffer::numbers::{decimal_chars, parse_hex_u8, parse_i32, parse_i64, parse_u32, parse_u8};

fn cs(s: &str) -> Vec<char> {
    s.chars().collect()
}

#[test]
fn signed_numbers() {
    assert_eq!(parse_i32(&cs("-67")), Some(-67));
    assert_eq!(parse_i32(&cs("+5")), Some(5));
    assert_eq!(parse_i32(&cs("-0")), Some(0));
    assert_eq!(parse_i32(&cs("2147483647")), Some(i32::MAX));
    assert_eq!(parse_i32(&cs("-2147483648")), Some(i32::MIN));
    assert_eq!(parse_i32(&cs("2147483648")), None);
    assert_eq!(parse_i32(&cs("")), None);
    assert_eq!(parse_i32(&cs("-")), None);
    assert_eq!(parse_i32(&cs("1 2")), None);
    assert_eq!(parse_i32(&cs("\u{663}")), None);
    assert_eq!(parse_i64(&cs("00000000000000000000000000000000000000001")), Some(1));
    assert_eq!(parse_i64(&cs("99999999999999999999999999999999999999999")), None);
}

#[test]
fn unsigned_numbers() {
    assert_eq!(parse_u8(&cs("255")), Some(255));
    assert_eq!(parse_u8(&cs("256")), None);
    assert_eq!(parse_u8(&cs("-0")), None);
    assert_eq!(parse_u32(&cs("+42")), Some(42));
    assert_eq!(parse_hex_u8(&cs("fF")), Some(255));
    assert_eq!(parse_hex_u8(&cs("g")), None);
    assert_eq!(parse_hex_u8(&cs("100")), None);
}

#[test]
fn decimal_writing() {
    assert_eq!(decimal_chars(0), cs("0"));
    assert_eq!(decimal_chars(907), cs("907"));
}
