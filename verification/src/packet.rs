//! The sniffer's log statements of parsed packets, read into
//! [`BLEPacket`]s.

use vstd::prelude::*;
use crate::advertising::{
    AdvState, adv_state_of, ad_structures_ok, parse_advertising_data, uuid_list_text, unknown_text,
    none_text, unknown_string, NO_COMPANY_ID, NO_POWER_LEVEL, AD_TX_POWER,
};
use crate::hex_text::{encode_hex_lower, lemma_hex_round_trip};
use crate::numbers::{
    hex_u8_text, i32_text, i64_text, u8_text, parse_hex_u8, parse_i32, parse_i64, parse_u8,
};
use crate::oui::{OuiTable, lookup_oui, oui_key_of_address, oui_name};
use crate::text::{chars_of, char_lists, split_at_seps, split_chars, trim_chars, trim_ws, string_from_chars};

verus! {

/// Captures the firmware timestamp.
pub const TIMESTAMP_PATTERN: &'static str = "fw_timestamp:\\s(\\d+)";
/// Captures the received signal strength.
pub const RSSI_PATTERN: &'static str = "rssi_sample:\\s([-]?\\d+)";
/// Captures the channel index.
pub const CHANNEL_INDEX_PATTERN: &'static str = "channel_index:\\s(\\d+)";
/// Captures the advertising address: six groups of one or two hexadecimal
/// digits (leading zeros are missing in the log) separated by `:` or `-`.
pub const ADVERTISING_ADDRESS_PATTERN: &'static str = "advertising_address:\\sBleAddress\\(((?:[0-9A-Fa-f]{1,2}[:-]){5}[0-9A-Fa-f]{1,2})(?:\\s[\\w]*)?\\)";
/// Captures the packet counter.
pub const PACKET_COUNTER_PATTERN: &'static str = "packet_counter:\\s(\\d+)";
/// Captures the protocol version.
pub const PROTOCOL_VERSION_PATTERN: &'static str = "protocol_version:\\sVersionX\\((\\d+)\\)";
/// Captures the advertising payload, given as decimal bytes.
pub const ADV_DATA_PATTERN: &'static str = "data: AdvData\\(\\[([\\d, ]+)\\]\\)";

/// The text of the first capture group of the leftmost match of the regular
/// expression `pattern` in `haystack`; `None` when the pattern does not
/// compile, does not match, or its first group takes no part in the match.
pub uninterp spec fn regex_first_capture(pattern: Seq<char>, haystack: Seq<char>) -> Option<Seq<char>>;

/// Finds the first capture group of `pattern` in `haystack`.
///
/// Compiles the pattern with `regex::Regex::new` and takes group 1 of
/// `Regex::captures`. What the group holds is stated only through
/// [`regex_first_capture`], which depends on the pattern and the haystack
/// alone; the matching rules of the `regex` crate are not stated.
#[verifier::external_body]
fn first_capture(pattern: &str, haystack: &str) -> (res: Option<String>)
    ensures
        match res {
            Some(s) => regex_first_capture(pattern@, haystack@) == Some(s@),
            None => regex_first_capture(pattern@, haystack@) is None,
        },
{
    match regex::Regex::new(pattern) {
        Ok(re) => match re.captures(haystack) {
            Some(caps) => match caps.get(1) {
                Some(m) => Some(m.as_str().to_string()),
                None => None,
            },
            None => None,
        },
        Err(_) => None,
    }
}

} // verus!

verus! {

/// The time stamp of a packet, as the sensor learnt it.
#[derive(Clone, Debug)]
pub enum PacketTime {
    /// The log statement gave none; the packet's time stamp is -1.
    Missing,
    /// The digits of the firmware time stamp, read as a number of seconds.
    Digits(String),
    /// A clock reading: whole seconds and nanoseconds since the Unix epoch.
    Clock { secs: u64, nanos: u32 },
}

/// The attributes of one captured BLE advertising packet.
#[derive(Clone, Debug)]
pub struct BLEPacket {
    /// Packet time stamp in seconds.
    pub timestamp: PacketTime,
    /// Received signal strength indication.
    pub rssi: i32,
    /// BLE channel index (0-39).
    pub channel_index: i32,
    /// The device's advertising address.
    pub advertising_address: i64,
    /// Company identifier from the advertisement.
    pub company_id: i32,
    /// Packet counter of the sensor.
    pub packet_counter: i64,
    /// Version of the protocol.
    pub protocol_version: i32,
    /// Transmit power level of the packet.
    pub power_level: i32,
    /// The manufacturer that owns the address prefix.
    pub oui: String,
    /// The device's complete local name.
    pub long_device_name: String,
    /// The device's shortened local name.
    pub short_device_name: String,
    /// The device's service UUIDs, separated by a comma and a space.
    pub uuids: String,
}

/// What the patterns captured in a log statement, as text.
pub struct CapturesView {
    pub timestamp: Option<Seq<char>>,
    pub rssi: Option<Seq<char>>,
    pub channel_index: Option<Seq<char>>,
    pub advertising_address: Option<Seq<char>>,
    pub packet_counter: Option<Seq<char>>,
    pub protocol_version: Option<Seq<char>>,
    pub adv_data: Option<Seq<char>>,
}

/// What the patterns captured in a log statement.
pub struct LogCaptures {
    pub timestamp: Option<String>,
    pub rssi: Option<String>,
    pub channel_index: Option<String>,
    pub advertising_address: Option<String>,
    pub packet_counter: Option<String>,
    pub protocol_version: Option<String>,
    pub adv_data: Option<String>,
}

/// The characters of an optional string.
pub open spec fn opt_chars(o: Option<String>) -> Option<Seq<char>> {
    match o {
        Some(s) => Some(s@),
        None => None,
    }
}

impl View for LogCaptures {
    type V = CapturesView;

    open spec fn view(&self) -> CapturesView {
        CapturesView {
            timestamp: opt_chars(self.timestamp),
            rssi: opt_chars(self.rssi),
            channel_index: opt_chars(self.channel_index),
            advertising_address: opt_chars(self.advertising_address),
            packet_counter: opt_chars(self.packet_counter),
            protocol_version: opt_chars(self.protocol_version),
            adv_data: opt_chars(self.adv_data),
        }
    }
}

/// What the patterns capture in the log statement `input`.
pub open spec fn captures_of(input: Seq<char>) -> CapturesView {
    CapturesView {
        timestamp: regex_first_capture(TIMESTAMP_PATTERN@, input),
        rssi: regex_first_capture(RSSI_PATTERN@, input),
        channel_index: regex_first_capture(CHANNEL_INDEX_PATTERN@, input),
        advertising_address: regex_first_capture(ADVERTISING_ADDRESS_PATTERN@, input),
        packet_counter: regex_first_capture(PACKET_COUNTER_PATTERN@, input),
        protocol_version: regex_first_capture(PROTOCOL_VERSION_PATTERN@, input),
        adv_data: regex_first_capture(ADV_DATA_PATTERN@, input),
    }
}

/// The value that `read` gives of the captured text, or `default` when
/// nothing was captured or the text does not read.
pub open spec fn read_or(o: Option<Seq<char>>, read: spec_fn(Seq<char>) -> Option<int>, default: int) -> int {
    match o {
        Some(t) => match read(t) {
            Some(v) => v,
            None => default,
        },
        None => default,
    }
}

/// The bytes that the hexadecimal parts of an address give, parts that do
/// not read as a byte being left out.
pub open spec fn address_bytes(parts: Seq<Seq<char>>) -> Seq<u8>
    decreases parts.len(),
{
    if parts.len() == 0 {
        Seq::empty()
    } else {
        let rest = address_bytes(parts.drop_last());
        match hex_u8_text(parts.last()) {
            Some(v) => rest.push(v as u8),
            None => rest,
        }
    }
}

/// The bytes shifted into one 64-bit word, first byte highest; bits shifted
/// past the top are lost.
pub open spec fn fold_address(bytes: Seq<u8>) -> u64
    decreases bytes.len(),
{
    if bytes.len() == 0 {
        0
    } else {
        (fold_address(bytes.drop_last()) << 8u64) | (bytes.last() as u64)
    }
}

/// The advertising address that the captured address text stands for: its
/// parts between `:` and `-`, read as hexadecimal bytes, shifted together.
pub open spec fn address_of_text(text: Seq<char>) -> i64 {
    fold_address(address_bytes(split_at_seps(text, ':', '-'))) as i64
}

/// The advertising address of a log statement: -1 when none was captured.
pub open spec fn address_of_capture(o: Option<Seq<char>>) -> i64 {
    match o {
        Some(t) => address_of_text(t),
        None => -1i64,
    }
}

/// The bytes of the decimal pieces between commas, each read as a `u8`
/// once trimmed of whitespace; `None` when a piece does not read.
pub open spec fn byte_list(pieces: Seq<Seq<char>>) -> Option<Seq<u8>>
    decreases pieces.len(),
{
    if pieces.len() == 0 {
        Some(Seq::empty())
    } else {
        match byte_list(pieces.drop_last()) {
            Some(bs) => match u8_text(trim_ws(pieces.last())) {
                Some(v) => Some(bs.push(v as u8)),
                None => None,
            },
            None => None,
        }
    }
}

/// The advertising payload that the captured decimal text stands for.
pub open spec fn adv_bytes_of(text: Seq<char>) -> Option<Seq<u8>> {
    byte_list(split_at_seps(text, ',', ','))
}

/// Whether an advertising payload was captured and is not empty.
pub open spec fn adv_text_present(c: CapturesView) -> bool {
    c.adv_data matches Some(t) && t.len() > 0
}

/// Whether a log statement can be read: a captured advertising payload
/// is a list of decimal bytes whose AD structures fit in it.
pub open spec fn captures_ok(c: CapturesView) -> bool {
    adv_text_present(c) ==> {
        &&& adv_bytes_of(c.adv_data.unwrap()) is Some
        &&& ad_structures_ok(adv_bytes_of(c.adv_data.unwrap()).unwrap(), 0)
    }
}

/// What the advertising payload of a log statement gives; the defaults when
/// none was captured.
pub open spec fn packet_adv_state(c: CapturesView) -> AdvState {
    if adv_text_present(c) {
        adv_state_of(adv_bytes_of(c.adv_data.unwrap()).unwrap())
    } else {
        crate::advertising::initial_adv_state()
    }
}

/// Whether `p` is the packet read from the captures `c`, with the
/// manufacturer looked up in `oui`.
pub open spec fn packet_of(p: BLEPacket, c: CapturesView, oui: Map<u32, Seq<char>>) -> bool {
    let st = packet_adv_state(c);
    &&& match c.timestamp {
        Some(t) => p.timestamp matches PacketTime::Digits(d) && d@ == t,
        None => p.timestamp is Missing,
    }
    &&& p.rssi == read_or(c.rssi, |t: Seq<char>| i32_text(t), 1)
    &&& p.channel_index == read_or(c.channel_index, |t: Seq<char>| i32_text(t), -1)
    &&& p.advertising_address == address_of_capture(c.advertising_address)
    &&& p.packet_counter == read_or(c.packet_counter, |t: Seq<char>| i64_text(t), -1)
    &&& p.protocol_version == read_or(c.protocol_version, |t: Seq<char>| i32_text(t), -1)
    &&& p.power_level == st.power_level
    &&& p.company_id == st.company_id
    &&& p.long_device_name@ == st.long_name
    &&& p.short_device_name@ == st.short_name
    &&& p.uuids@ == uuid_list_text(st.uuids)
    &&& p.oui@ == if p.advertising_address != -1 {
        oui_name(oui, oui_key_of_address(p.advertising_address))
    } else {
        unknown_text()
    }
}

/// Runs every pattern over a log statement.
pub fn capture_log_fields(input: &str) -> (res: LogCaptures)
    ensures
        res@ == captures_of(input@),
{
    LogCaptures {
        timestamp: first_capture(TIMESTAMP_PATTERN, input),
        rssi: first_capture(RSSI_PATTERN, input),
        channel_index: first_capture(CHANNEL_INDEX_PATTERN, input),
        advertising_address: first_capture(ADVERTISING_ADDRESS_PATTERN, input),
        packet_counter: first_capture(PACKET_COUNTER_PATTERN, input),
        protocol_version: first_capture(PROTOCOL_VERSION_PATTERN, input),
        adv_data: first_capture(ADV_DATA_PATTERN, input),
    }
}

/// Reads a captured `i32`, or gives `default`.
fn i32_or(o: &Option<String>, default: i32) -> (res: i32)
    ensures
        res == read_or(opt_chars(*o), |t: Seq<char>| i32_text(t), default as int),
{
    match o {
        Some(s) => match parse_i32(&chars_of(s.as_str())) {
            Some(v) => v,
            None => default,
        },
        None => default,
    }
}

/// Reads a captured `i64`, or gives `default`.
fn i64_or(o: &Option<String>, default: i64) -> (res: i64)
    ensures
        res == read_or(opt_chars(*o), |t: Seq<char>| i64_text(t), default as int),
{
    match o {
        Some(s) => match parse_i64(&chars_of(s.as_str())) {
            Some(v) => v,
            None => default,
        },
        None => default,
    }
}

/// The advertising address that the captured text stands for.
pub fn address_from_text(text: &str) -> (res: i64)
    ensures
        res == address_of_text(text@),
{
    let parts = split_chars(&chars_of(text), ':', '-');
    let ghost pv = char_lists(parts@);
    let mut bytes: Vec<u8> = Vec::new();
    let n = parts.len();
    for i in 0..n
        invariant
            n == parts.len(),
            pv == char_lists(parts@),
            bytes@ == address_bytes(pv.take(i as int)),
    {
        assert(pv.take(i + 1).drop_last() =~= pv.take(i as int));
        assert(pv[i as int] == parts@[i as int]@);
        if let Some(b) = parse_hex_u8(&parts[i]) {
            bytes.push(b);
        }
    }
    assert(pv.take(n as int) =~= pv);
    let mut acc: u64 = 0;
    let m = bytes.len();
    for j in 0..m
        invariant
            m == bytes.len(),
            acc == fold_address(bytes@.take(j as int)),
    {
        assert(bytes@.take(j + 1).drop_last() =~= bytes@.take(j as int));
        acc = (acc << 8u64) | (bytes[j] as u64);
    }
    assert(bytes@.take(m as int) =~= bytes@);
    acc as i64
}

/// The bytes of the captured decimal payload text.
fn adv_bytes(text: &Vec<char>) -> (res: Option<Vec<u8>>)
    ensures
        match res {
            Some(v) => adv_bytes_of(text@) == Some(v@),
            None => adv_bytes_of(text@) is None,
        },
{
    let pieces = split_chars(text, ',', ',');
    let ghost pv = char_lists(pieces@);
    let mut bytes: Vec<u8> = Vec::new();
    let n = pieces.len();
    for i in 0..n
        invariant
            n == pieces.len(),
            pv == char_lists(pieces@),
            pv == split_at_seps(text@, ',', ','),
            byte_list(pv.take(i as int)) == Some(bytes@),
    {
        assert(pv.take(i + 1).drop_last() =~= pv.take(i as int));
        assert(pv[i as int] == pieces@[i as int]@);
        match parse_u8(&trim_chars(&pieces[i])) {
            Some(b) => bytes.push(b),
            None => {
                proof {
                    assert(pv.take(i + 1).last() == pv[i as int]);
                    assert(byte_list(pv.take(i + 1)) is None);
                    lemma_byte_list_prefix(pv, i + 1);
                }
                return None;
            },
        }
    }
    assert(pv.take(n as int) =~= pv);
    Some(bytes)
}

/// A list of pieces with a piece that does not read does not read.
proof fn lemma_byte_list_prefix(pieces: Seq<Seq<char>>, k: int)
    requires
        0 <= k <= pieces.len(),
        byte_list(pieces.take(k)) is None,
    ensures
        byte_list(pieces) is None,
    decreases pieces.len(),
{
    if k < pieces.len() {
        assert(pieces.drop_last().take(k) =~= pieces.take(k));
        lemma_byte_list_prefix(pieces.drop_last(), k);
    } else {
        assert(pieces.take(k) =~= pieces);
    }
}

/// Whether every AD structure of `data` fits in it and every transmit
/// power structure holds a byte.
pub fn ad_structures_valid(data: &Vec<u8>) -> (res: bool)
    ensures
        res == ad_structures_ok(data@, 0),
{
    let n = data.len();
    let mut i: usize = 0;
    while i < n && data[i] != 0
        invariant
            i <= n == data.len(),
            ad_structures_ok(data@, 0) == ad_structures_ok(data@, i as int),
        decreases n - i,
    {
        let len = data[i] as usize;
        if len > n - i - 1 {
            return false;
        }
        if data[i + 1] == AD_TX_POWER && len == 1 {
            return false;
        }
        i = i + len + 1;
    }
    true
}

/// Whether the captures of a log statement can be read into a packet.
pub fn captures_well_formed(caps: &LogCaptures) -> (res: bool)
    ensures
        res == captures_ok(caps@),
{
    match &caps.adv_data {
        Some(t) => {
            let cs = chars_of(t.as_str());
            if cs.len() == 0 {
                return true;
            }
            match adv_bytes(&cs) {
                Some(bytes) => ad_structures_valid(&bytes),
                None => false,
            }
        },
        None => true,
    }
}

/// Builds the packet that the captures of a log statement give.
///
/// Numbers that were not captured, or do not read, take their defaults:
/// 1 for the signal strength (which is never above 0) and -1 for the
/// others; the time stamp is then missing. The advertising payload, when
/// captured and not empty, is read as decimal bytes and its AD structures
/// give the names, company identifier, power level and service UUIDs,
/// which otherwise are `Unknown`, `Unknown`, -1, -255 and `None`. The
/// manufacturer is looked up in `oui` unless the address is -1.
pub fn assemble_packet(caps: &LogCaptures, oui: &OuiTable) -> (res: BLEPacket)
    requires
        captures_ok(caps@),
    ensures
        packet_of(res, caps@, oui@),
{
    let timestamp = match &caps.timestamp {
        Some(t) => PacketTime::Digits(string_from_chars(&chars_of(t.as_str()))),
        None => PacketTime::Missing,
    };
    let rssi = i32_or(&caps.rssi, 1);
    let channel_index = i32_or(&caps.channel_index, -1);
    let advertising_address: i64 = match &caps.advertising_address {
        Some(t) => address_from_text(t.as_str()),
        None => -1,
    };
    let packet_counter = i64_or(&caps.packet_counter, -1);
    let protocol_version = i32_or(&caps.protocol_version, -1);

    let mut power_level: i32 = NO_POWER_LEVEL;
    let mut company_id: i32 = NO_COMPANY_ID;
    let mut long_device_name = unknown_string();
    let mut short_device_name = unknown_string();
    let none: Vec<char> = vec!['N', 'o', 'n', 'e'];
    assert(none@ =~= none_text());
    let mut uuids = string_from_chars(&none);
    assert(uuids@ == uuid_list_text(Seq::empty()));
    if let Some(t) = &caps.adv_data {
        let cs = chars_of(t.as_str());
        if cs.len() > 0 {
            let bytes = adv_bytes(&cs).unwrap();
            let hex = encode_hex_lower(&bytes);
            proof {
                lemma_hex_round_trip(bytes@);
            }
            let fields = parse_advertising_data(hex.as_str());
            power_level = fields.power_level;
            company_id = fields.company_id;
            long_device_name = fields.long_device_name;
            short_device_name = fields.short_device_name;
            uuids = fields.uuids;
        }
    }
    let oui_name = if advertising_address != -1 {
        lookup_oui(advertising_address, oui)
    } else {
        unknown_string()
    };
    BLEPacket {
        timestamp,
        rssi,
        channel_index,
        advertising_address,
        company_id,
        packet_counter,
        protocol_version,
        power_level,
        oui: oui_name,
        long_device_name,
        short_device_name,
        uuids,
    }
}

/// Reads a log statement of the sniffer into a packet, looking up the
/// manufacturer in `oui`.
pub fn parse_ble_packet(input: &str, oui: &OuiTable) -> (res: BLEPacket)
    requires
        captures_ok(captures_of(input@)),
    ensures
        packet_of(res, captures_of(input@), oui@),
{
    let caps = capture_log_fields(input);
    assemble_packet(&caps, oui)
}

/// Reads a log statement of the sniffer into a packet; `None` when its
/// advertising payload is not a list of decimal bytes whose AD structures
/// fit in it.
pub fn try_parse_ble_packet(input: &str, oui: &OuiTable) -> (res: Option<BLEPacket>)
    ensures
        match res {
            Some(p) => captures_ok(captures_of(input@)) && packet_of(p, captures_of(input@), oui@),
            None => !captures_ok(captures_of(input@)),
        },
{
    let caps = capture_log_fields(input);
    if captures_well_formed(&caps) {
        Some(parse_ble_packet(input, oui))
    } else {
        None
    }
}

} // verus!

verus! {

/// An address of six bytes, as the log gives it, is the 48-bit number they
/// spell first byte highest, and its OUI is made of its first three bytes;
/// it is never -1, so its manufacturer is always looked up.
pub proof fn lemma_six_byte_address(b0: u8, b1: u8, b2: u8, b3: u8, b4: u8, b5: u8)
    ensures
        ({
            let a = fold_address(seq![b0, b1, b2, b3, b4, b5]) as i64;
            &&& a as int == b0 as int * 0x100_0000_0000 + b1 as int * 0x1_0000_0000 + b2 as int
                * 0x100_0000 + b3 as int * 0x1_0000 + b4 as int * 0x100 + b5 as int
            &&& crate::oui::oui_bytes_of_address(a) == (b0, b1, b2)
            &&& a != -1
        }),
{
    let s = seq![b0, b1, b2, b3, b4, b5];
    reveal_with_fuel(fold_address, 7);
    assert(s.drop_last() =~= seq![b0, b1, b2, b3, b4]);
    assert(s.drop_last().drop_last() =~= seq![b0, b1, b2, b3]);
    assert(s.drop_last().drop_last().drop_last() =~= seq![b0, b1, b2]);
    assert(seq![b0, b1, b2].drop_last() =~= seq![b0, b1]);
    assert(seq![b0, b1].drop_last() =~= seq![b0]);
    assert(seq![b0].drop_last() =~= Seq::<u8>::empty());
    let x0 = (0u64 << 8u64) | (b0 as u64);
    let x1 = (x0 << 8u64) | (b1 as u64);
    let x2 = (x1 << 8u64) | (b2 as u64);
    let x3 = (x2 << 8u64) | (b3 as u64);
    let x4 = (x3 << 8u64) | (b4 as u64);
    let x5 = (x4 << 8u64) | (b5 as u64);
    assert(fold_address(s) == x5);
    assert(x5 == (b0 as u64) * 0x100_0000_0000 + (b1 as u64) * 0x1_0000_0000 + (b2 as u64) * 0x100_0000
        + (b3 as u64) * 0x1_0000 + (b4 as u64) * 0x100 + (b5 as u64)) by (bit_vector)
        requires
            x0 == (0u64 << 8u64) | (b0 as u64),
            x1 == (x0 << 8u64) | (b1 as u64),
            x2 == (x1 << 8u64) | (b2 as u64),
            x3 == (x2 << 8u64) | (b3 as u64),
            x4 == (x3 << 8u64) | (b4 as u64),
            x5 == (x4 << 8u64) | (b5 as u64),
    ;
    let a = x5 as i64;
    assert(a as int == x5 as int && ((a >> 40u64) & 0xFF) as u8 == b0 && ((a >> 32u64) & 0xFF) as u8
        == b1 && ((a >> 24u64) & 0xFF) as u8 == b2) by (bit_vector)
        requires
            a == x5 as i64,
            x5 == (b0 as u64) * 0x100_0000_0000 + (b1 as u64) * 0x1_0000_0000 + (b2 as u64)
                * 0x100_0000 + (b3 as u64) * 0x1_0000 + (b4 as u64) * 0x100 + (b5 as u64),
    ;
}

} // verus!

verus! {

/// An empty payload text does not read as bytes.
proof fn lemma_empty_text_no_bytes(text: Seq<char>)
    requires
        text.len() == 0,
    ensures
        adv_bytes_of(text) is None,
{
    let pieces = split_at_seps(text, ',', ',');
    assert(pieces =~= seq![Seq::<char>::empty()]);
    assert(pieces.drop_last() =~= Seq::<Seq<char>>::empty());
    assert(trim_ws(pieces.last()) =~= Seq::<char>::empty());
}

/// When the captured payload ends in a structure (after structures that
/// end exactly where it begins), the packet's fields follow that
/// structure: a valid shortened or complete local name becomes the short
/// or long device name, manufacturer data of at least two bytes gives the
/// company identifier from its first two bytes low byte first, and a
/// transmit power byte gives the power level as a signed byte.
pub proof fn lemma_packet_payload_fields(
    p: BLEPacket,
    c: CapturesView,
    oui: Map<u32, Seq<char>>,
    text: Seq<char>,
    data: Seq<u8>,
    ad_type: u8,
    ad: Seq<u8>,
)
    requires
        packet_of(p, c, oui),
        c.adv_data == Some(text),
        adv_bytes_of(text) == Some(data + crate::advertising::ad_structure(ad_type, ad)),
        crate::advertising::ad_walk_exact(data, 0),
        ad.len() < 255,
    ensures
        ad_type == 0x08 && vstd::utf8::valid_utf8(ad) ==> p.short_device_name@
            == vstd::utf8::decode_utf8(ad),
        ad_type == 0x09 && vstd::utf8::valid_utf8(ad) ==> p.long_device_name@
            == vstd::utf8::decode_utf8(ad),
        ad_type == 0xFF && ad.len() >= 2 ==> p.company_id == ad[1] as int * 256 + ad[0] as int,
        ad_type == 0x0A && ad.len() >= 1 ==> p.power_level == if ad[0] < 128 {
            ad[0] as int
        } else {
            ad[0] as int - 256
        },
{
    if text.len() == 0 {
        lemma_empty_text_no_bytes(text);
    }
    crate::advertising::lemma_short_name_law(data, ad_type, ad);
    crate::advertising::lemma_long_name_law(data, ad_type, ad);
    crate::advertising::lemma_company_id_law(data, ad_type, ad);
    if ad.len() >= 1 {
        crate::advertising::lemma_power_level_law(data, ad_type, ad);
    }
}

/// A log statement without an advertising payload (or with an empty one)
/// gives a packet with both names `Unknown`, company -1, power level -255
/// and UUIDs `None`.
pub proof fn lemma_packet_without_payload(p: BLEPacket, c: CapturesView, oui: Map<u32, Seq<char>>)
    requires
        packet_of(p, c, oui),
        c.adv_data is None || c.adv_data == Some(Seq::<char>::empty()),
    ensures
        p.long_device_name@ == unknown_text(),
        p.short_device_name@ == unknown_text(),
        p.company_id == -1,
        p.power_level == -255,
        p.uuids@ == none_text(),
{
}

} // verus!

verus! {

/// The numbers of a packet are those its log statement spells, read as
/// their types; a number that is not captured or does not read takes its
/// default (1 for the signal strength, -1 for the others). The time stamp
/// keeps the captured digits, and is missing when none were captured. An
/// address that is not captured is -1, and then the manufacturer is
/// `Unknown`; otherwise the manufacturer is the name the table gives the
/// address's OUI, or `Unknown` when it gives none.
pub proof fn lemma_packet_numbers(p: BLEPacket, c: CapturesView, oui: Map<u32, Seq<char>>)
    requires
        packet_of(p, c, oui),
    ensures
        (c.rssi is Some && i32_text(c.rssi.unwrap()) is Some) ==> p.rssi == i32_text(c.rssi.unwrap()).unwrap(),
        (c.rssi is None || i32_text(c.rssi.unwrap()) is None) ==> p.rssi == 1,
        (c.channel_index is Some && i32_text(c.channel_index.unwrap()) is Some) ==> p.channel_index == i32_text(c.channel_index.unwrap()).unwrap(),
        (c.channel_index is None || i32_text(c.channel_index.unwrap()) is None) ==> p.channel_index == -1,
        (c.packet_counter is Some && i64_text(c.packet_counter.unwrap()) is Some) ==> p.packet_counter == i64_text(c.packet_counter.unwrap()).unwrap(),
        (c.packet_counter is None || i64_text(c.packet_counter.unwrap()) is None) ==> p.packet_counter
            == -1,
        (c.protocol_version is Some && i32_text(c.protocol_version.unwrap()) is Some) ==> p.protocol_version == i32_text(c.protocol_version.unwrap()).unwrap(),
        (c.protocol_version is None || i32_text(c.protocol_version.unwrap()) is None)
            ==> p.protocol_version == -1,
        c.timestamp is None ==> p.timestamp is Missing,
        c.timestamp matches Some(t) ==> (p.timestamp matches PacketTime::Digits(d) && d@ == t),
        c.advertising_address is None ==> p.advertising_address == -1 && p.oui@ == unknown_text(),
        c.advertising_address is Some ==> p.advertising_address == address_of_text(
            c.advertising_address.unwrap(),
        ),
        p.advertising_address != -1 && oui.contains_key(oui_key_of_address(p.advertising_address))
            ==> p.oui@ == oui[oui_key_of_address(p.advertising_address)],
        p.advertising_address != -1 && !oui.contains_key(oui_key_of_address(p.advertising_address))
            ==> p.oui@ == unknown_text(),
{
}

} // verus!
