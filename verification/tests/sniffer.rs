use sensor_sniffer::sniffer::{batch_ready, batch_size, is_packet_line, pcap_output_target, sniffer_args};

#[test]
fn sniffer_command_line() {
    let args = sniffer_args("COM3", false, false);
    assert_eq!(
        args,
        vec![
            "ble-sniffer", "sniff", "--port", "COM3", "--log-output=stdout", "--json",
            "--log-level", "debug", "--output-pcap-file", "/dev/null",
        ]
    );
}

#[test]
fn pcap_targets() {
    assert_eq!(pcap_output_target(true, true), "sensor_capture.pcapng");
    assert_eq!(pcap_output_target(false, true), "NUL");
    assert_eq!(pcap_output_target(false, false), "/dev/null");
}

#[test]
fn packet_lines() {
    assert!(is_packet_line("2024 DEBUG Parsed packet: Packet {}"));
    assert!(!is_packet_line("Parsed packe"));
    assert!(!is_packet_line("parsed packet"));
}

#[test]
fn batch_threshold() {
    assert!(batch_ready(10, 10));
    assert!(!batch_ready(9, 10));
    assert!(batch_ready(0, 0));
    assert_eq!(batch_size(-1), usize::MAX);
    assert!(!batch_ready(1_000_000, -1));
}
