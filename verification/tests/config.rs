use sensor_sniffer::config::{
    get_interface_port, parse_flag, parse_settings, InterfaceError, RawSettings, SettingKey,
    SettingsError,
};

fn raw() -> RawSettings {
    RawSettings {
        serial_id: Some("42".to_string()),
        packet_buffer_size: Some("100".to_string()),
        backend_websocket_endpoint: Some("ws://localhost:8080".to_string()),
        heartbeat_freq: Some("30".to_string()),
        pcapng: Some("FALSE".to_string()),
        test_mode: Some("True".to_string()),
        offline: Some("false".to_string()),
    }
}

#[test]
fn settings_are_read() {
    let s = parse_settings(&raw()).unwrap();
    assert_eq!(s.serial_id, 42);
    assert_eq!(s.packet_buffer_size, 100);
    assert_eq!(s.backend_websocket_endpoint, "ws://localhost:8080");
    assert_eq!(s.heartbeat_freq, 30);
    assert!(!s.pcapng);
    assert!(s.test_mode);
    assert!(!s.offline);
}

#[test]
fn missing_setting_is_reported() {
    let mut r = raw();
    r.heartbeat_freq = None;
    assert_eq!(
        parse_settings(&r).err(),
        Some(SettingsError::Missing(SettingKey::HeartbeatFreq))
    );
}

#[test]
fn invalid_setting_is_reported() {
    let mut r = raw();
    r.serial_id = Some("-1".to_string());
    assert_eq!(parse_settings(&r).err(), Some(SettingsError::Invalid(SettingKey::SerialId)));
    let mut r = raw();
    r.offline = Some("yes".to_string());
    assert_eq!(parse_settings(&r).err(), Some(SettingsError::Invalid(SettingKey::Offline)));
}

#[test]
fn first_failing_setting_is_reported() {
    let mut r = raw();
    r.pcapng = None;
    r.packet_buffer_size = Some("lots".to_string());
    assert_eq!(
        parse_settings(&r).err(),
        Some(SettingsError::Invalid(SettingKey::PacketBufferSize))
    );
}

#[test]
fn flags_ignore_case() {
    assert_eq!(parse_flag("TrUe"), Some(true));
    assert_eq!(parse_flag("FALSE"), Some(false));
    assert_eq!(parse_flag("true "), None);
    assert_eq!(parse_flag("1"), None);
}

#[test]
fn interface_is_found() {
    let out = "Serial number: 123\r\nports            /dev/ttyACM0\r\nfirmware  x\n";
    assert_eq!(get_interface_port(out), Ok("/dev/ttyACM0".to_string()));
    assert_eq!(get_interface_port("ports COM3 extra"), Ok("COM3".to_string()));
}

#[test]
fn interface_errors() {
    assert_eq!(get_interface_port("nothing\n here"), Err(InterfaceError::NoPortsLine));
    assert_eq!(get_interface_port("a\n ports COM3"), Err(InterfaceError::NoPortsLine));
    assert_eq!(get_interface_port("x\nports\nports COM4"), Err(InterfaceError::MissingPortName));
}
