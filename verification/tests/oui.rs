use sensor_sniffer::oui::{lookup_oui, OuiTable};

#[test]
fn listing_lines_are_looked_up() {
    let lines = vec![
        "OUI/MA-L                                                    Organization".to_string(),
        "00-00-0A   (hex)\t\tOMRON TATEISI ELECTRONICS CO.".to_string(),
        "00000A     (base 16)\t\tOMRON TATEISI ELECTRONICS CO.".to_string(),
        "AC-DE-48   (hex)\t\tPRIVATE".to_string(),
    ];
    let t = OuiTable::from_lines(&lines);
    assert_eq!(lookup_oui(0x00000A_123456, &t), "OMRON TATEISI ELECTRONICS CO.");
    assert_eq!(lookup_oui(0xACDE48_000000, &t), "PRIVATE");
    assert_eq!(lookup_oui(0x123456_000000, &t), "Unknown");
}

#[test]
fn later_line_replaces_earlier() {
    let mut t = OuiTable::new();
    t.insert_line("00-00-0A (hex) FIRST");
    t.insert_line("00-00-0A (hex) SECOND NAME");
    assert_eq!(lookup_oui(0x00000A000000, &t), "SECOND NAME");
}

#[test]
fn lines_that_give_no_entry_are_ignored() {
    let mut t = OuiTable::new();
    t.insert_line("00-00-0B (hex)");
    t.insert_line("00-00-0C   COMPANY WITHOUT MARKER");
    t.insert_line("ab-cd-ef (hex) LOWER CASE PREFIX");
    assert_eq!(lookup_oui(0x00000B000000, &t), "Unknown");
    assert_eq!(lookup_oui(0x00000C000000, &t), "Unknown");
    assert_eq!(lookup_oui(0xABCDEF000000, &t), "Unknown");
}

#[test]
fn only_bits_24_to_47_matter() {
    let mut t = OuiTable::new();
    t.insert_line("12-34-56 (hex) X CORP");
    assert_eq!(lookup_oui(0x123456_FFFFFF, &t), "X CORP");
    assert_eq!(lookup_oui(0x7F00_123456_000000u64 as i64, &t), "X CORP");
    assert_eq!(lookup_oui(-1, &t), "Unknown");
}
