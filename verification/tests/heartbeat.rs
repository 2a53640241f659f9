use sensor_sniffer::heartbeat::{heartbeat_timestamp, NetworkInfo};

#[test]
fn timestamps_are_decimal() {
    assert_eq!(heartbeat_timestamp(0), "0");
    assert_eq!(heartbeat_timestamp(1_700_000_000), "1700000000");
    assert_eq!(heartbeat_timestamp(u64::MAX), u64::MAX.to_string());
}

#[test]
fn network_info_holds_its_values() {
    let n = NetworkInfo::new("eth0".to_string(), 10, 20);
    assert_eq!(n.interface_name, "eth0");
    assert_eq!(n.total_received, 10);
    assert_eq!(n.total_transmitted, 20);
}
