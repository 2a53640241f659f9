use sensor_sniffer::advertising::parse_advertising_data;
use sensor_sniffer::hex_text::encode_hex_lower;

fn hex_of(bytes: &[u8]) -> String {
    encode_hex_lower(&bytes.to_vec())
}

#[test]
fn empty_payload_gives_defaults() {
    let f = parse_advertising_data("");
    assert_eq!(f.long_device_name, "Unknown");
    assert_eq!(f.short_device_name, "Unknown");
    assert_eq!(f.company_id, -1);
    assert_eq!(f.power_level, -255);
    assert_eq!(f.uuids, "None");
}

#[test]
fn full_payload_is_read() {
    let bytes = [
        2, 0x01, 0x06, // flags
        5, 0x09, b'a', b'b', b'c', b'd', // complete name
        4, 0x08, b'a', b'b', b'c', // short name
        3, 0xFF, 0x4C, 0x00, // manufacturer: Apple (0x004C)
        2, 0x0A, 0xF4, // tx power -12
        5, 0x03, 0x0F, 0x18, 0x0A, 0x18, // 16-bit UUIDs 180F, 180A
    ];
    let f = parse_advertising_data(&hex_of(&bytes));
    assert_eq!(f.long_device_name, "abcd");
    assert_eq!(f.short_device_name, "abc");
    assert_eq!(f.company_id, 76);
    assert_eq!(f.power_level, -12);
    assert_eq!(f.uuids, "180F, 180A");
}

#[test]
fn company_id_is_little_endian() {
    let f = parse_advertising_data(&hex_of(&[3, 0xFF, 0x34, 0x12]));
    assert_eq!(f.company_id, 0x1234);
}

#[test]
fn short_manufacturer_data_is_ignored() {
    let f = parse_advertising_data(&hex_of(&[2, 0xFF, 0x34]));
    assert_eq!(f.company_id, -1);
}

#[test]
fn positive_power_level() {
    let f = parse_advertising_data(&hex_of(&[2, 0x0A, 0x7F]));
    assert_eq!(f.power_level, 127);
    let f = parse_advertising_data(&hex_of(&[2, 0x0A, 0x80]));
    assert_eq!(f.power_level, -128);
}

#[test]
fn uuid128_is_written_most_significant_first() {
    let mut bytes = vec![17u8, 0x07];
    for b in 0u8..16 {
        bytes.push(b);
    }
    let f = parse_advertising_data(&hex_of(&bytes));
    assert_eq!(f.uuids, "0F0E0D0C0B0A09080706050403020100");
}

#[test]
fn uuid_lists_accumulate_and_odd_bytes_are_dropped() {
    let bytes = [4, 0x02, 0xAB, 0xCD, 0xEF, 3, 0x03, 0x01, 0x02];
    let f = parse_advertising_data(&hex_of(&bytes));
    assert_eq!(f.uuids, "CDAB, 0201");
}

#[test]
fn zero_length_ends_the_payload() {
    let bytes = [0, 5, 0x09, b'a', b'b', b'c', b'd'];
    let f = parse_advertising_data(&hex_of(&bytes));
    assert_eq!(f.long_device_name, "Unknown");
}

#[test]
fn invalid_utf8_name_is_skipped() {
    let bytes = [3, 0x09, 0xFF, 0xFE, 3, 0x08, 0xC3, 0xA9];
    let f = parse_advertising_data(&hex_of(&bytes));
    assert_eq!(f.long_device_name, "Unknown");
    assert_eq!(f.short_device_name, "\u{e9}");
}

#[test]
fn later_name_replaces_earlier() {
    let bytes = [2, 0x09, b'x', 2, 0x09, b'y'];
    let f = parse_advertising_data(&hex_of(&bytes));
    assert_eq!(f.long_device_name, "y");
}

#[test]
fn upper_case_hex_is_decoded() {
    let f = parse_advertising_data("03FF3412");
    assert_eq!(f.company_id, 0x1234);
}

#[test]
fn unknown_types_are_passed_over() {
    let f = parse_advertising_data(&hex_of(&[3, 0x16, 0x01, 0x02, 2, 0x0A, 0x05]));
    assert_eq!(f.power_level, 5);
}

#[test]
fn hex_encoding_is_lower_case() {
    assert_eq!(hex_of(&[0x00, 0xAB, 0x7F]), "00ab7f");
}
