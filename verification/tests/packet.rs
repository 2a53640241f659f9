use sensor_sniffer::oui::OuiTable;
use sensor_sniffer::packet::{
    address_from_text, capture_log_fields, parse_ble_packet, try_parse_ble_packet, PacketTime,
};

const LINE: &str = "Parsed packet: Packet { header: PacketHeader { packet_counter: 1024, protocol_version: VersionX(3) }, \
packet: BleAdvPacket { channel_index: 37, rssi_sample: -67, fw_timestamp: 123456789, \
advertising_address: BleAddress(C4:A1:2:3F:4:55 random), data: AdvData([2, 1, 6, 5, 9, 97, 98, 99, 100, 3, 255, 76, 0]) } }";

fn table() -> OuiTable {
    let mut t = OuiTable::new();
    t.insert_line("C4-A1-02   (hex)\t\tACME DEVICES");
    t
}

#[test]
fn log_line_is_read() {
    let p = parse_ble_packet(LINE, &table());
    match &p.timestamp {
        PacketTime::Digits(d) => assert_eq!(d, "123456789"),
        other => panic!("unexpected time stamp {:?}", other),
    }
    assert_eq!(p.rssi, -67);
    assert_eq!(p.channel_index, 37);
    assert_eq!(p.advertising_address, 0xC4A1023F0455);
    assert_eq!(p.packet_counter, 1024);
    assert_eq!(p.protocol_version, 3);
    assert_eq!(p.long_device_name, "abcd");
    assert_eq!(p.short_device_name, "Unknown");
    assert_eq!(p.company_id, 76);
    assert_eq!(p.power_level, -255);
    assert_eq!(p.uuids, "None");
    assert_eq!(p.oui, "ACME DEVICES");
}

#[test]
fn line_without_fields_gives_defaults() {
    let p = parse_ble_packet("Parsed packet: nothing here", &table());
    assert!(matches!(p.timestamp, PacketTime::Missing));
    assert_eq!(p.rssi, 1);
    assert_eq!(p.channel_index, -1);
    assert_eq!(p.advertising_address, -1);
    assert_eq!(p.packet_counter, -1);
    assert_eq!(p.protocol_version, -1);
    assert_eq!(p.power_level, -255);
    assert_eq!(p.company_id, -1);
    assert_eq!(p.long_device_name, "Unknown");
    assert_eq!(p.short_device_name, "Unknown");
    assert_eq!(p.uuids, "None");
    assert_eq!(p.oui, "Unknown");
}

#[test]
fn captures_follow_the_patterns() {
    let c = capture_log_fields(LINE);
    assert_eq!(c.timestamp.as_deref(), Some("123456789"));
    assert_eq!(c.rssi.as_deref(), Some("-67"));
    assert_eq!(c.advertising_address.as_deref(), Some("C4:A1:2:3F:4:55"));
    assert_eq!(c.adv_data.as_deref(), Some("2, 1, 6, 5, 9, 97, 98, 99, 100, 3, 255, 76, 0"));
    let none = capture_log_fields("rssi_sample: x");
    assert!(none.rssi.is_none());
}

#[test]
fn unknown_prefix_gives_unknown_manufacturer() {
    let p = parse_ble_packet(
        "advertising_address: BleAddress(11:22:33:44:55:66 public)",
        &table(),
    );
    assert_eq!(p.advertising_address, 0x112233445566);
    assert_eq!(p.oui, "Unknown");
}

#[test]
fn overflowing_number_takes_default() {
    let p = parse_ble_packet("channel_index: 99999999999", &table());
    assert_eq!(p.channel_index, -1);
}

#[test]
fn bad_payload_is_refused() {
    assert!(try_parse_ble_packet("data: AdvData([2, 1, 300])", &table()).is_none());
    assert!(try_parse_ble_packet("data: AdvData([5, 9, 1])", &table()).is_none());
    assert!(try_parse_ble_packet("data: AdvData([1, 10])", &table()).is_none());
    assert!(try_parse_ble_packet("data: AdvData([2 1])", &table()).is_none());
    let p = try_parse_ble_packet("data: AdvData([2, 10, 200])", &table()).unwrap();
    assert_eq!(p.power_level, -56);
}

#[test]
fn address_text_is_folded() {
    assert_eq!(address_from_text("1:2:3:4:5:6"), 0x010203040506);
    assert_eq!(address_from_text("ff-ee-dd-cc-bb-aa"), 0xFFEEDDCCBBAA);
    assert_eq!(address_from_text(""), 0);
    assert_eq!(address_from_text("1:zz:3"), 0x0103);
}
