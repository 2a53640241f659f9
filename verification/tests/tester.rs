use sensor_sniffer::packet::PacketTime;
use sensor_sniffer::tester::{generate_random_packet, random_device_name, random_manufacturer, random_uuid};

#[test]
fn random_packets_stay_in_range() {
    for _ in 0..200 {
        let p = generate_random_packet(1_700_000_000, 5);
        assert!(matches!(p.timestamp, PacketTime::Clock { secs: 1_700_000_000, nanos: 5 }));
        assert!((-100..0).contains(&p.rssi));
        assert!((0..40).contains(&p.channel_index));
        assert!((1_000_000_000_000..9_999_999_999_999).contains(&p.advertising_address));
        assert!((-1..1000).contains(&p.company_id));
        assert!((1000..3000).contains(&p.packet_counter));
        assert_eq!(p.protocol_version, 3);
        assert!((1..10).contains(&p.power_level));
        assert!(["Unknown", "CANON INC.", "Samsung", "Apple"].contains(&p.oui.as_str()));
        assert_eq!(p.long_device_name.len(), 15);
        assert_eq!(p.short_device_name.len(), 8);
        assert_eq!(p.uuids.len(), 32);
    }
}

#[test]
fn random_texts() {
    let name = random_device_name(12);
    assert_eq!(name.chars().count(), 12);
    assert!(name.chars().all(|c| c.is_ascii_alphanumeric()));
    let uuid = random_uuid();
    assert!(uuid.chars().all(|c| c.is_ascii_digit() || ('A'..='F').contains(&c)));
    assert!(["Unknown", "CANON INC.", "Samsung", "Apple"].contains(&random_manufacturer().as_str()));
}
