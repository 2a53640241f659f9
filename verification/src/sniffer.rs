//! Driving the nRF sniffer: the command line that starts it, which of its
//! log lines hold packets, and when the packet queue is due for delivery.

use vstd::prelude::*;
use crate::text::{chars_of, contains_chars, contains_text};

verus! {

broadcast use vstd::string::group_string_axioms;

/// Where the sniffer is told to write its pcapng copy: a file when a copy
/// is wanted, else the null device of the system.
pub open spec fn pcap_target_text(pcapng: bool, windows: bool) -> Seq<char> {
    if pcapng {
        "sensor_capture.pcapng"@
    } else if windows {
        "NUL"@
    } else {
        "/dev/null"@
    }
}

/// Where the sniffer is told to write its pcapng copy.
pub fn pcap_output_target(pcapng: bool, windows: bool) -> (res: &'static str)
    ensures
        res@ == pcap_target_text(pcapng, windows),
{
    if pcapng {
        "sensor_capture.pcapng"
    } else if windows {
        "NUL"
    } else {
        "/dev/null"
    }
}

/// The arguments of `nrfutil` that start the BLE sniffer on `interface`,
/// with its log (as JSON, at debug level, where packets show) on standard
/// output and its pcapng copy sent to [`pcap_output_target`].
pub fn sniffer_args(interface: &str, pcapng: bool, windows: bool) -> (res: Vec<String>)
    ensures
        res.len() == 10,
        res[0]@ == "ble-sniffer"@,
        res[1]@ == "sniff"@,
        res[2]@ == "--port"@,
        res[3]@ == interface@,
        res[4]@ == "--log-output=stdout"@,
        res[5]@ == "--json"@,
        res[6]@ == "--log-level"@,
        res[7]@ == "debug"@,
        res[8]@ == "--output-pcap-file"@,
        res[9]@ == pcap_target_text(pcapng, windows),
{
    let mut res: Vec<String> = Vec::new();
    res.push("ble-sniffer".to_string());
    res.push("sniff".to_string());
    res.push("--port".to_string());
    res.push(interface.to_string());
    res.push("--log-output=stdout".to_string());
    res.push("--json".to_string());
    res.push("--log-level".to_string());
    res.push("debug".to_string());
    res.push("--output-pcap-file".to_string());
    res.push(pcap_output_target(pcapng, windows).to_string());
    res
}

/// The marker of the log lines that hold a parsed packet.
pub open spec fn parsed_packet_marker() -> Seq<char> {
    seq!['P', 'a', 'r', 's', 'e', 'd', ' ', 'p', 'a', 'c', 'k', 'e', 't']
}

/// Whether a log line of the sniffer holds a parsed packet.
pub fn is_packet_line(line: &str) -> (res: bool)
    ensures
        res == contains_text(line@, parsed_packet_marker()),
{
    let marker: Vec<char> = vec!['P', 'a', 'r', 's', 'e', 'd', ' ', 'p', 'a', 'c', 'k', 'e', 't'];
    assert(marker@ =~= parsed_packet_marker());
    contains_chars(&chars_of(line), &marker)
}

/// The number of packets that the configured buffer size stands for when
/// it is converted to `usize` with `as`: itself when it is not negative,
/// else the wrapped-around value.
pub open spec fn batch_size_of(packet_buffer_size: i32) -> int {
    if packet_buffer_size >= 0 {
        packet_buffer_size as int
    } else {
        usize::MAX as int + 1 + packet_buffer_size as int
    }
}

/// The number of packets delivered together.
pub fn batch_size(packet_buffer_size: i32) -> (res: usize)
    ensures
        res as int == batch_size_of(packet_buffer_size),
{
    if packet_buffer_size >= 0 {
        packet_buffer_size as usize
    } else {
        let below: i64 = -(packet_buffer_size as i64) - 1;
        usize::MAX - (below as usize)
    }
}

/// Whether a queue of `queue_len` packets is due for delivery: it holds at
/// least a batch.
pub fn batch_ready(queue_len: usize, packet_buffer_size: i32) -> (res: bool)
    ensures
        res == (queue_len as int >= batch_size_of(packet_buffer_size)),
{
    queue_len >= batch_size(packet_buffer_size)
}

} // verus!

verus! {

/// When a pcapng copy is wanted the sniffer writes it to
/// `sensor_capture.pcapng` on every system; otherwise it writes to the null
/// device, which differs between Windows and other systems.
pub proof fn lemma_pcap_target(windows: bool)
    ensures
        pcap_target_text(true, windows) == "sensor_capture.pcapng"@,
        pcap_target_text(true, true) == pcap_target_text(true, false),
        pcap_target_text(false, true) == "NUL"@,
        pcap_target_text(false, false) == "/dev/null"@,
{
}

/// A buffer size that is not negative is the batch size itself, and a
/// queue is due exactly when it holds at least that many packets; a
/// negative size wraps around to `usize::MAX + 1 + size`, as `as usize`
/// converts it.
pub proof fn lemma_batch_size_law(packet_buffer_size: i32, queue_len: usize)
    ensures
        packet_buffer_size >= 0 ==> batch_size_of(packet_buffer_size) == packet_buffer_size as int,
        packet_buffer_size >= 0 ==> ((queue_len as int >= batch_size_of(packet_buffer_size)) <==> (
        queue_len as int >= packet_buffer_size as int)),
        packet_buffer_size < 0 ==> batch_size_of(packet_buffer_size) == usize::MAX as int + 1
            + packet_buffer_size as int,
        0 <= batch_size_of(packet_buffer_size) <= usize::MAX,
{
}

} // verus!
