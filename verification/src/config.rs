//! The sensor's settings, read from the values of the `[settings]` section
//! of its INI file, and the port of the sniffer dongle, read from the
//! output of `nrfutil device list`.

use vstd::prelude::*;
use crate::numbers::{i32_text, u32_text, u64_text, parse_i32, parse_u32, parse_u64};
use crate::text::{
    chars_of, char_lists, split_chars, split_at_seps, split_words, starts_with_text, words,
    matches_at, string_from_chars,
};

verus! {

/// The settings of the sensor.
#[derive(Clone, Debug)]
pub struct Settings {
    /// The serial number that the sensor reports itself under.
    pub serial_id: u32,
    /// How many packets are delivered together.
    pub packet_buffer_size: i32,
    /// The address of the backend's websocket.
    pub backend_websocket_endpoint: String,
    /// Seconds between two heartbeat messages.
    pub heartbeat_freq: u64,
    /// Whether the sniffer keeps a pcapng copy of what it captures.
    pub pcapng: bool,
    /// Whether packets are simulated instead of captured.
    pub test_mode: bool,
    /// Whether nothing is sent to the backend.
    pub offline: bool,
}

/// The values of the `[settings]` section as the INI file gives them; `None`
/// for a key that is absent or has no value.
pub struct RawSettings {
    pub serial_id: Option<String>,
    pub packet_buffer_size: Option<String>,
    pub backend_websocket_endpoint: Option<String>,
    pub heartbeat_freq: Option<String>,
    pub pcapng: Option<String>,
    pub test_mode: Option<String>,
    pub offline: Option<String>,
}

/// A key of the `[settings]` section.
#[derive(PartialEq, Eq, Structural, Debug, Clone, Copy)]
pub enum SettingKey {
    SerialId,
    PacketBufferSize,
    BackendWebsocketEndpoint,
    HeartbeatFreq,
    Pcapng,
    TestMode,
    Offline,
}

/// Why the settings cannot be read.
#[derive(PartialEq, Eq, Structural, Debug, Clone, Copy)]
pub enum SettingsError {
    /// The key is absent or has no value.
    Missing(SettingKey),
    /// The value does not read as the key's type.
    Invalid(SettingKey),
}

/// `s` with its ASCII capitals turned into small letters.
pub open spec fn ascii_lowercase(s: Seq<char>) -> Seq<char> {
    Seq::new(
        s.len(),
        |i: int| if 'A' <= s[i] && s[i] <= 'Z' { ((s[i] as u32) + 32) as char } else { s[i] },
    )
}

/// The value of a flag: `true` or `false` in any mix of cases, as
/// `to_lowercase` followed by `parse::<bool>` reads it (no character
/// outside ASCII lowers to a letter of either word).
pub open spec fn flag_text(s: Seq<char>) -> Option<bool> {
    if ascii_lowercase(s) == seq!['t', 'r', 'u', 'e'] {
        Some(true)
    } else if ascii_lowercase(s) == seq!['f', 'a', 'l', 's', 'e'] {
        Some(false)
    } else {
        None
    }
}

/// Whether a value was given that reads with `read`.
pub open spec fn setting_reads(o: Option<String>, read: spec_fn(Seq<char>) -> bool) -> bool {
    o matches Some(t) && read(t@)
}

/// The error of a value that does not read with `read`.
pub open spec fn setting_error_of(o: Option<String>, read: spec_fn(Seq<char>) -> bool, key: SettingKey) -> SettingsError {
    if o is None {
        SettingsError::Missing(key)
    } else {
        SettingsError::Invalid(key)
    }
}

/// The first setting, in the order serial id, packet buffer size, backend
/// endpoint, heartbeat frequency, pcapng, test mode, offline, that is
/// missing or does not read; `None` when all read.
pub open spec fn settings_error(raw: RawSettings) -> Option<SettingsError> {
    let r_u32 = |t: Seq<char>| u32_text(t) is Some;
    let r_i32 = |t: Seq<char>| i32_text(t) is Some;
    let r_any = |t: Seq<char>| true;
    let r_u64 = |t: Seq<char>| u64_text(t) is Some;
    let r_flag = |t: Seq<char>| flag_text(t) is Some;
    if !setting_reads(raw.serial_id, r_u32) {
        Some(setting_error_of(raw.serial_id, r_u32, SettingKey::SerialId))
    } else if !setting_reads(raw.packet_buffer_size, r_i32) {
        Some(setting_error_of(raw.packet_buffer_size, r_i32, SettingKey::PacketBufferSize))
    } else if !setting_reads(raw.backend_websocket_endpoint, r_any) {
        Some(
            setting_error_of(raw.backend_websocket_endpoint, r_any, SettingKey::BackendWebsocketEndpoint),
        )
    } else if !setting_reads(raw.heartbeat_freq, r_u64) {
        Some(setting_error_of(raw.heartbeat_freq, r_u64, SettingKey::HeartbeatFreq))
    } else if !setting_reads(raw.pcapng, r_flag) {
        Some(setting_error_of(raw.pcapng, r_flag, SettingKey::Pcapng))
    } else if !setting_reads(raw.test_mode, r_flag) {
        Some(setting_error_of(raw.test_mode, r_flag, SettingKey::TestMode))
    } else if !setting_reads(raw.offline, r_flag) {
        Some(setting_error_of(raw.offline, r_flag, SettingKey::Offline))
    } else {
        None
    }
}

/// Whether `s` holds the values of `raw`, all of which read.
pub open spec fn settings_of(s: Settings, raw: RawSettings) -> bool {
    &&& u32_text(raw.serial_id.unwrap()@) == Some(s.serial_id as int)
    &&& i32_text(raw.packet_buffer_size.unwrap()@) == Some(s.packet_buffer_size as int)
    &&& s.backend_websocket_endpoint@ == raw.backend_websocket_endpoint.unwrap()@
    &&& u64_text(raw.heartbeat_freq.unwrap()@) == Some(s.heartbeat_freq as int)
    &&& flag_text(raw.pcapng.unwrap()@) == Some(s.pcapng)
    &&& flag_text(raw.test_mode.unwrap()@) == Some(s.test_mode)
    &&& flag_text(raw.offline.unwrap()@) == Some(s.offline)
}

/// Reads a flag.
pub fn parse_flag(s: &str) -> (res: Option<bool>)
    ensures
        res == flag_text(s@),
{
    let cs = chars_of(s);
    let mut low: Vec<char> = Vec::new();
    let n = cs.len();
    for i in 0..n
        invariant
            n == cs.len(),
            low@ == ascii_lowercase(cs@.take(i as int)),
    {
        let c = cs[i];
        low.push(if 'A' <= c && c <= 'Z' { ((c as u8) + 32) as char } else { c });
        assert(low@ =~= ascii_lowercase(cs@.take(i + 1)));
    }
    assert(cs@.take(n as int) =~= cs@);
    let t: Vec<char> = vec!['t', 'r', 'u', 'e'];
    let f: Vec<char> = vec!['f', 'a', 'l', 's', 'e'];
    if low.len() == 4 && matches_at(&low, &t, 0) {
        assert(low@ =~= t@);
        Some(true)
    } else if low.len() == 5 && matches_at(&low, &f, 0) {
        assert(low@ =~= f@);
        Some(false)
    } else {
        assert(low@ != seq!['t', 'r', 'u', 'e']) by {
            if low@ == seq!['t', 'r', 'u', 'e'] {
                assert(low@.subrange(0, 4) =~= t@);
            }
        }
        assert(low@ != seq!['f', 'a', 'l', 's', 'e']) by {
            if low@ == seq!['f', 'a', 'l', 's', 'e'] {
                assert(low@.subrange(0, 5) =~= f@);
            }
        }
        None
    }
}

/// Reads a flag setting.
fn flag_setting(o: &Option<String>, key: SettingKey) -> (res: Result<bool, SettingsError>)
    ensures
        match res {
            Ok(b) => o matches Some(t) && flag_text(t@) == Some(b),
            Err(e) => !setting_reads(*o, |t: Seq<char>| flag_text(t) is Some) && e
                == setting_error_of(*o, |t: Seq<char>| flag_text(t) is Some, key),
        },
{
    match o {
        None => Err(SettingsError::Missing(key)),
        Some(t) => match parse_flag(t.as_str()) {
            Some(b) => Ok(b),
            None => Err(SettingsError::Invalid(key)),
        },
    }
}

/// Reads the settings, failing at the first one, in the order of
/// [`settings_error`], that is missing or does not read as its type.
pub fn parse_settings(raw: &RawSettings) -> (res: Result<Settings, SettingsError>)
    ensures
        match res {
            Ok(s) => settings_error(*raw) is None && settings_of(s, *raw),
            Err(e) => settings_error(*raw) == Some(e),
        },
{
    let serial_id = match &raw.serial_id {
        None => return Err(SettingsError::Missing(SettingKey::SerialId)),
        Some(t) => match parse_u32(&chars_of(t.as_str())) {
            Some(v) => v,
            None => return Err(SettingsError::Invalid(SettingKey::SerialId)),
        },
    };
    let packet_buffer_size = match &raw.packet_buffer_size {
        None => return Err(SettingsError::Missing(SettingKey::PacketBufferSize)),
        Some(t) => match parse_i32(&chars_of(t.as_str())) {
            Some(v) => v,
            None => return Err(SettingsError::Invalid(SettingKey::PacketBufferSize)),
        },
    };
    let backend_websocket_endpoint = match &raw.backend_websocket_endpoint {
        None => return Err(SettingsError::Missing(SettingKey::BackendWebsocketEndpoint)),
        Some(t) => t.clone(),
    };
    let heartbeat_freq = match &raw.heartbeat_freq {
        None => return Err(SettingsError::Missing(SettingKey::HeartbeatFreq)),
        Some(t) => match parse_u64(&chars_of(t.as_str())) {
            Some(v) => v,
            None => return Err(SettingsError::Invalid(SettingKey::HeartbeatFreq)),
        },
    };
    let pcapng = match flag_setting(&raw.pcapng, SettingKey::Pcapng) {
        Ok(b) => b,
        Err(e) => return Err(e),
    };
    let test_mode = match flag_setting(&raw.test_mode, SettingKey::TestMode) {
        Ok(b) => b,
        Err(e) => return Err(e),
    };
    let offline = match flag_setting(&raw.offline, SettingKey::Offline) {
        Ok(b) => b,
        Err(e) => return Err(e),
    };
    Ok(
        Settings {
            serial_id,
            packet_buffer_size,
            backend_websocket_endpoint,
            heartbeat_freq,
            pcapng,
            test_mode,
            offline,
        },
    )
}

/// Why no port of the sniffer dongle could be found.
#[derive(PartialEq, Eq, Structural, Debug, Clone, Copy)]
pub enum InterfaceError {
    /// No line of the output begins with `ports`.
    NoPortsLine,
    /// The first line that begins with `ports` holds no second word.
    MissingPortName,
}

/// The word `ports` that the line naming the dongle's port begins with.
pub open spec fn ports_word() -> Seq<char> {
    seq!['p', 'o', 'r', 't', 's']
}

/// The first of `lines` that begins with `ports`.
pub open spec fn first_ports_line(lines: Seq<Seq<char>>) -> Option<Seq<char>>
    decreases lines.len(),
{
    if lines.len() == 0 {
        None
    } else if starts_with_text(lines[0], ports_word()) {
        Some(lines[0])
    } else {
        first_ports_line(lines.drop_first())
    }
}

/// The lines of a text: its pieces between line feeds. A carriage return
/// before a line feed stays in the line; it is whitespace, so the words of
/// the line are those that `str::lines` gives.
pub open spec fn lines_of(s: Seq<char>) -> Seq<Seq<char>> {
    split_at_seps(s, '\n', '\n')
}

/// Finds the port of the sniffer dongle in the output of
/// `nrfutil device list`: the second word of the first line that begins
/// with `ports` (as in `ports    COM3`).
pub fn get_interface_port(output: &str) -> (res: Result<String, InterfaceError>)
    ensures
        match first_ports_line(lines_of(output@)) {
            None => res == Err::<String, InterfaceError>(InterfaceError::NoPortsLine),
            Some(line) => if words(line).len() >= 2 {
                res matches Ok(port) && port@ == words(line)[1]
            } else {
                res == Err::<String, InterfaceError>(InterfaceError::MissingPortName)
            },
        },
{
    let lines = split_chars(&chars_of(output), '\n', '\n');
    let ghost lv = char_lists(lines@);
    let ports: Vec<char> = vec!['p', 'o', 'r', 't', 's'];
    assert(ports@ =~= ports_word());
    let n = lines.len();
    assert(lv.subrange(0, n as int) =~= lv);
    for i in 0..n
        invariant
            n == lines.len(),
            lv == char_lists(lines@),
            lv == lines_of(output@),
            ports@ == ports_word(),
            first_ports_line(lv) == first_ports_line(lv.subrange(i as int, n as int)),
    {
        let ghost rest = lv.subrange(i as int, n as int);
        assert(rest[0] == lines@[i as int]@);
        if matches_at(&lines[i], &ports, 0) {
            let ws = split_words(&lines[i]);
            if ws.len() >= 2 {
                assert(char_lists(ws@)[1] == ws@[1]@);
                return Ok(string_from_chars(&ws[1]));
            } else {
                return Err(InterfaceError::MissingPortName);
            }
        }
        assert(rest.drop_first() =~= lv.subrange(i + 1, n as int));
    }
    assert(lv.subrange(n as int, n as int) =~= Seq::<Seq<char>>::empty());
    Err(InterfaceError::NoPortsLine)
}

} // verus!

verus! {

/// Read settings take each field from its own key: the serial id, buffer
/// size and heartbeat frequency are the numbers their values spell, the
/// endpoint is its value as given, and each flag is set exactly when its
/// own value is `true` in some mix of cases.
pub proof fn lemma_settings_fields(s: Settings, raw: RawSettings)
    requires
        settings_of(s, raw),
    ensures
        u32_text(raw.serial_id.unwrap()@) == Some(s.serial_id as int),
        i32_text(raw.packet_buffer_size.unwrap()@) == Some(s.packet_buffer_size as int),
        s.backend_websocket_endpoint@ == raw.backend_websocket_endpoint.unwrap()@,
        u64_text(raw.heartbeat_freq.unwrap()@) == Some(s.heartbeat_freq as int),
        s.pcapng <==> ascii_lowercase(raw.pcapng.unwrap()@) == seq!['t', 'r', 'u', 'e'],
        s.test_mode <==> ascii_lowercase(raw.test_mode.unwrap()@) == seq!['t', 'r', 'u', 'e'],
        s.offline <==> ascii_lowercase(raw.offline.unwrap()@) == seq!['t', 'r', 'u', 'e'],
{
    assert(seq!['t', 'r', 'u', 'e'] != seq!['f', 'a', 'l', 's', 'e']) by {
        assert(seq!['t', 'r', 'u', 'e'].len() != seq!['f', 'a', 'l', 's', 'e'].len());
    }
}

} // verus!

verus! {

/// A missing serial id is reported first, whatever the other values; a
/// serial id that does not read as a `u32` is reported as invalid.
pub proof fn lemma_serial_id_checked_first(raw: RawSettings)
    ensures
        raw.serial_id is None ==> settings_error(raw) == Some(SettingsError::Missing(SettingKey::SerialId)),
        (raw.serial_id is Some && u32_text(raw.serial_id.unwrap()@) is None) ==> settings_error(raw)
            == Some(SettingsError::Invalid(SettingKey::SerialId)),
{
}

/// A text without separators is one piece.
proof fn lemma_split_single(s: Seq<char>, a: char, b: char)
    requires
        forall|i: int| 0 <= i < s.len() ==> s[i] != a && s[i] != b,
    ensures
        split_at_seps(s, a, b) == seq![s],
    decreases s.len(),
{
    if s.len() > 0 {
        lemma_split_single(s.drop_last(), a, b);
        assert(s.drop_last().push(s.last()) =~= s);
        let r = seq![s.drop_last()];
        assert(r.update(0, r.last().push(s.last())) =~= seq![s]);
    } else {
        assert(s =~= Seq::<char>::empty());
    }
}

/// A word after a space is one more word.
proof fn lemma_words_after_space(x: Seq<char>, w: Seq<char>)
    requires
        w.len() > 0,
        forall|i: int| 0 <= i < w.len() ==> !crate::text::is_ws(#[trigger] w[i]),
    ensures
        words(x + seq![' '] + w) == words(x).push(w),
    decreases w.len(),
{
    let q = x + seq![' '] + w;
    assert(q.last() == w.last());
    assert(!crate::text::is_ws(w[w.len() - 1]));
    if w.len() == 1 {
        let xs = x + seq![' '];
        assert(q.drop_last() =~= xs);
        assert(xs.drop_last() =~= x);
        assert(xs.last() == ' ');
        assert(words(xs) == words(x));
        assert(q[q.len() - 2] == ' ');
        assert(w =~= seq![w[0]]);
        assert(words(q) == words(xs).push(seq![w[0]]));
    } else {
        lemma_words_after_space(x, w.drop_last());
        assert(q.drop_last() =~= x + seq![' '] + w.drop_last());
        assert(q[q.len() - 2] == w[w.len() - 2]);
        assert(!crate::text::is_ws(w[w.len() - 2]));
        assert(w.drop_last().push(w.last()) =~= w);
        let rest = words(x).push(w.drop_last());
        assert(words(q) == rest.update(rest.len() - 1, rest.last().push(w.last())));
        assert(rest.update(rest.len() - 1, rest.last().push(w.last())) =~= words(x).push(w));
    }
}

/// A text of one or more characters none of which is whitespace is one word.
proof fn lemma_single_word(w: Seq<char>)
    requires
        w.len() > 0,
        forall|i: int| 0 <= i < w.len() ==> !crate::text::is_ws(#[trigger] w[i]),
    ensures
        words(w) == seq![w],
    decreases w.len(),
{
    assert(!crate::text::is_ws(w[w.len() - 1]));
    if w.len() == 1 {
        assert(w.drop_last() =~= Seq::<char>::empty());
        assert(words(w.drop_last()) =~= Seq::<Seq<char>>::empty());
        assert(w =~= seq![w[0]]);
        assert(words(w) == words(w.drop_last()).push(seq![w[0]]));
        assert(words(w) =~= seq![w]);
    } else {
        lemma_single_word(w.drop_last());
        assert(!crate::text::is_ws(w[w.len() - 2]));
        assert(w.drop_last().push(w.last()) =~= w);
        let rest = seq![w.drop_last()];
        assert(words(w) == rest.update(0, rest.last().push(w.last())));
        assert(rest.update(0, rest.last().push(w.last())) =~= seq![w]);
    }
}

/// On the output `ports <port>` (one line, the port a single word) the port
/// found is that word.
pub proof fn lemma_interface_of_ports_line(port: Seq<char>)
    requires
        port.len() > 0,
        forall|i: int| 0 <= i < port.len() ==> !crate::text::is_ws(#[trigger] port[i]),
    ensures
        ({
            let out = ports_word() + seq![' '] + port;
            &&& first_ports_line(lines_of(out)) == Some(out)
            &&& words(out).len() >= 2
            &&& words(out)[1] == port
        }),
{
    let out = ports_word() + seq![' '] + port;
    assert forall|i: int| 0 <= i < out.len() implies out[i] != '\n' by {
        if i >= 6 {
            assert(out[i] == port[i - 6]);
        }
    }
    lemma_split_single(out, '\n', '\n');
    assert(out.subrange(0, 5) =~= ports_word());
    let p = ports_word();
    assert(p =~= Seq::<char>::empty() + seq![' '].drop_last() + p) by {
        assert(seq![' '].drop_last() =~= Seq::<char>::empty());
    }
    lemma_words_after_space(p, port);
    assert forall|i: int| 0 <= i < p.len() implies !crate::text::is_ws(#[trigger] p[i]) by {}
    lemma_single_word(p);
}

} // verus!
