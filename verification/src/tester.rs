//! Simulated packets, for running the sensor without a sniffer.

use vstd::prelude::*;
use rand::Rng;
use crate::hex_text::upper_digit;
use crate::packet::{BLEPacket, PacketTime};
use crate::text::string_from_chars;

verus! {

/// The generator of random numbers of the current thread.
#[verifier::external_type_specification]
#[verifier::external_body]
pub struct ExThreadRng(rand::rngs::ThreadRng);

/// The generator of random numbers of the current thread.
///
/// Wraps `rand::thread_rng`; nothing is stated of the generator.
#[verifier::external_body]
fn thread_rng() -> (res: rand::rngs::ThreadRng) {
    rand::thread_rng()
}

/// A random integer of `low..high`.
///
/// Wraps `Rng::gen_range`, whose documentation says that it samples the
/// range and panics when the range is empty. The contract states only that
/// the result lies in the range; how it is distributed is not stated.
#[verifier::external_body]
fn random_in_range(rng: &mut rand::rngs::ThreadRng, low: i64, high: i64) -> (res: i64)
    requires
        low < high,
    ensures
        low <= res < high,
{
    rng.gen_range(low..high)
}

/// Whether `b` is an ASCII letter or digit.
pub open spec fn is_ascii_alphanumeric(b: u8) -> bool {
    (65 <= b && b <= 90) || (97 <= b && b <= 122) || (48 <= b && b <= 57)
}

/// A random ASCII letter or digit.
///
/// Wraps `Rng::sample` with `rand::distributions::Alphanumeric`, whose
/// source draws a byte from `A-Z`, `a-z` and `0-9`; the contract states
/// that set, not how the draw is distributed.
#[verifier::external_body]
fn random_alphanumeric(rng: &mut rand::rngs::ThreadRng) -> (res: u8)
    ensures
        is_ascii_alphanumeric(res),
{
    rng.sample(rand::distributions::Alphanumeric)
}

/// The manufacturers that simulated packets are given.
pub open spec fn simulated_manufacturers() -> Seq<Seq<char>> {
    seq!["Unknown"@, "CANON INC."@, "Samsung"@, "Apple"@]
}

/// A random manufacturer among [`simulated_manufacturers`].
pub fn random_manufacturer() -> (res: String)
    ensures
        simulated_manufacturers().contains(res@),
{
    broadcast use vstd::string::group_string_axioms;
    let mut rng = thread_rng();
    let i = random_in_range(&mut rng, 0, 4);
    let res = if i == 0 {
        "Unknown".to_string()
    } else if i == 1 {
        "CANON INC.".to_string()
    } else if i == 2 {
        "Samsung".to_string()
    } else {
        "Apple".to_string()
    };
    assert(simulated_manufacturers()[i as int] == res@);
    res
}

/// Whether every character of `s` is an ASCII letter or digit.
pub open spec fn all_alphanumeric(s: Seq<char>) -> bool {
    forall|i: int| 0 <= i < s.len() ==> is_ascii_alphanumeric(#[trigger] s[i] as u8) && (s[i] as u32) < 128
}

/// A random device name of `length` ASCII letters and digits.
pub fn random_device_name(length: usize) -> (res: String)
    ensures
        res@.len() == length,
        all_alphanumeric(res@),
{
    let mut rng = thread_rng();
    let mut cs: Vec<char> = Vec::new();
    for i in 0..length
        invariant
            cs@.len() == i,
            all_alphanumeric(cs@),
    {
        let b = random_alphanumeric(&mut rng);
        cs.push(b as char);
    }
    string_from_chars(&cs)
}

/// Whether every character of `s` is an upper-case hexadecimal digit.
pub open spec fn all_upper_hex(s: Seq<char>) -> bool {
    forall|i: int| 0 <= i < s.len() ==> exists|d: int| 0 <= d < 16 && #[trigger] s[i] == upper_digit(d)
}

/// A random UUID: 32 upper-case hexadecimal digits.
pub fn random_uuid() -> (res: String)
    ensures
        res@.len() == 32,
        all_upper_hex(res@),
{
    let mut rng = thread_rng();
    let mut cs: Vec<char> = Vec::new();
    for i in 0..32
        invariant
            cs@.len() == i,
            all_upper_hex(cs@),
    {
        let d = random_in_range(&mut rng, 0, 16) as u8;
        let c = crate::hex_text::upper_hex_digit(d);
        cs.push(c);
        assert(cs@[i as int] == upper_digit(d as int));
    }
    string_from_chars(&cs)
}

/// A simulated packet stamped with the clock reading `now_secs`,
/// `now_nanos`: signal strength in `-100..0`, channel in `0..40`, address
/// in `1_000_000_000_000..9_999_999_999_999`, company in `-1..1000`,
/// counter in `1000..3000`, protocol version 3, power level in `1..10`, a
/// manufacturer among [`simulated_manufacturers`], names of 15 and 8
/// letters and digits, and one random UUID.
pub fn generate_random_packet(now_secs: u64, now_nanos: u32) -> (res: BLEPacket)
    ensures
        res.timestamp == (PacketTime::Clock { secs: now_secs, nanos: now_nanos }),
        -100 <= res.rssi < 0,
        0 <= res.channel_index < 40,
        1_000_000_000_000 <= res.advertising_address < 9_999_999_999_999,
        -1 <= res.company_id < 1000,
        1000 <= res.packet_counter < 3000,
        res.protocol_version == 3,
        1 <= res.power_level < 10,
        simulated_manufacturers().contains(res.oui@),
        res.long_device_name@.len() == 15,
        all_alphanumeric(res.long_device_name@),
        res.short_device_name@.len() == 8,
        all_alphanumeric(res.short_device_name@),
        res.uuids@.len() == 32,
        all_upper_hex(res.uuids@),
{
    let mut rng = thread_rng();
    let rssi = random_in_range(&mut rng, -100, 0) as i32;
    let channel_index = random_in_range(&mut rng, 0, 40) as i32;
    let advertising_address = random_in_range(&mut rng, 1_000_000_000_000, 9_999_999_999_999);
    let company_id = random_in_range(&mut rng, -1, 1000) as i32;
    let packet_counter = random_in_range(&mut rng, 1000, 3000);
    let power_level = random_in_range(&mut rng, 1, 10) as i32;
    BLEPacket {
        timestamp: PacketTime::Clock { secs: now_secs, nanos: now_nanos },
        rssi,
        channel_index,
        advertising_address,
        company_id,
        packet_counter,
        protocol_version: 3,
        power_level,
        oui: random_manufacturer(),
        long_device_name: random_device_name(15),
        short_device_name: random_device_name(8),
        uuids: random_uuid(),
    }
}

} // verus!
